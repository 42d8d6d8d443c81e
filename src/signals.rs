use vstd::prelude::*;

verus! {

/// What the interactive loop is told: by the log connector, by itself, and by
/// the user's actions.
#[derive(Debug, PartialEq, Eq)]
pub enum ControllerSignal {
    /// A message read from the log.
    IncomingMessage { from: String, message: String },
    /// A notice for the user.
    Info { message: String },
    /// A request to connect to a chat under a participant name.
    ConnectTo { username: Option<String>, chat_id: Option<String> },
    /// A message the local user wants to publish.
    OutgoingMessage { message: String },
    /// The user submitted the input line.
    Submit,
    /// The user wants to leave.
    Quit,
}

/// What the output side of the connector is asked to do.
#[derive(Debug, PartialEq, Eq)]
pub enum ConnectorEvent {
    /// Append `message` to the log as the local participant.
    Post { message: String },
}

} // verus!

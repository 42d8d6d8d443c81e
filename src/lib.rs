//! Relaying chat messages between people and a scripted robot over an
//! append-only log: the signal mediator of the interactive client, the
//! decisions of the log connector, and the session orchestrator.

pub mod text;
pub mod interpret;
pub mod json;
pub mod signals;
pub mod entry;
pub mod session;
pub mod orchestrator;
pub mod mediator;
pub mod connector;

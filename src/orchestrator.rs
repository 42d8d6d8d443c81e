use vstd::prelude::*;

use crate::entry::{entry_id_of, id_later, is_past_cursor, past_cursor, Field, LogEntry};
use crate::interpret::{command_of, Command};
use crate::json::{field, Json};
use crate::session::{is_session_document, is_session_of, output_items, texts_of, user_output_texts, Session};

verus! {

/// Where a scripted conversation stands.
#[derive(Debug, PartialEq, Eq, Structural, Clone, Copy)]
pub enum Phase {
    /// The context is to be sent to the interpreter.
    Invoking,
    /// Waiting for the human participant to write.
    Waiting,
    /// The script finished; the context was cleared.
    Finished,
    /// Stopped on the script's request; the session can be resumed.
    Paused,
    /// Handed over to a human operator.
    Escalated,
    /// The interpreter could not be reached, refused the request or gave no
    /// usable reply, or the log could not be read, or the session could not
    /// be stored.
    Failed,
    /// The interpreter gave a verdict that is not known; the session is left
    /// as it was for inspection.
    Halted,
}

/// What the interpreter answered.
#[derive(Debug, PartialEq, Eq)]
pub enum Reply {
    /// A successful reply and its document.
    Success(Json),
    /// A reply with a failure status, or one whose body is not a document.
    Rejected,
    /// The request could not be sent or answered.
    Unreachable,
}

/// What the orchestrator asks its runner to do, in order.
#[derive(Debug, PartialEq, Eq)]
pub enum Action {
    /// Send the session context to the interpreter of the session's script.
    Invoke,
    /// Append each text to the log under `label`, in order.
    Publish { label: String, texts: Vec<String> },
    /// Store the session document.
    Persist,
    /// Read the log entries that follow `cursor`.
    ReadAfter { cursor: String },
    /// Report a command that is not known: `command` is what the reply held.
    Unrecognized { command: Json },
    /// Stop; the phase tells how the session ended.
    Stop,
}

/// Drives one session turn by turn through the interpreter.
#[derive(Debug, PartialEq, Eq)]
pub struct Orchestrator {
    pub session: Session,
    pub phase: Phase,
}

/// The verdict of an interpreter's reply document.
pub open spec fn reply_command(v: Json) -> Command {
    match field(v, "command"@) {
        Json::Text(s) => command_of(s@),
        _ => Command::Noop,
    }
}

/// The texts that a reply document asks to publish.
pub open spec fn reply_texts(v: Json) -> Seq<String> {
    texts_of(output_items(field(v, "user_output"@)))
}

/// `a` asks to publish `texts` under `label`.
pub open spec fn is_publish(a: Action, label: String, texts: Seq<String>) -> bool {
    a matches Action::Publish { label: l, texts: t } && l == label && t@ == texts
}

/// `c2` is the context `c` with `key` bound to `value` and nothing else changed.
pub open spec fn is_context_with(c: Json, key: Seq<char>, value: Json, c2: Json) -> bool {
    &&& c2 is Object
    &&& field(c2, key) == value
    &&& forall|k: Seq<char>| k != key ==> #[trigger] field(c2, k) == field(c, k)
}

/// The texts written by `user` among the attributes `attrs`, as text documents.
pub open spec fn user_texts(attrs: Seq<(String, Field)>, user: Seq<char>) -> Seq<Json>
    decreases attrs.len(),
{
    if attrs.len() == 0 {
        Seq::empty()
    } else {
        let prev = user_texts(attrs.drop_last(), user);
        match attrs.last() {
            (l, Field::Text(t)) => if l@ == user {
                prev.push(Json::Text(t))
            } else {
                prev
            },
            _ => prev,
        }
    }
}

/// Taking the entries `es` in order from the cursor `cursor`: the cursor at
/// the end, and the texts written by `user` in the entries past the cursor.
/// Each entry past the cursor moves the cursor to it; the others are passed
/// over.
pub open spec fn absorb(es: Seq<LogEntry>, cursor: String, user: Seq<char>) -> (String, Seq<Json>)
    decreases es.len(),
{
    if es.len() == 0 {
        (cursor, Seq::empty())
    } else {
        let (c, t) = absorb(es.drop_last(), cursor, user);
        let e = es.last();
        if past_cursor(e.id@, c@) {
            (e.id, t + user_texts(e.attributes@, user))
        } else {
            (c, t)
        }
    }
}

/// The texts written by `user` in all of `es`, in log order.
pub open spec fn all_user_texts(es: Seq<LogEntry>, user: Seq<char>) -> Seq<Json>
    decreases es.len(),
{
    if es.len() == 0 {
        Seq::empty()
    } else {
        all_user_texts(es.drop_last(), user) + user_texts(es.last().attributes@, user)
    }
}

/// The identifiers of `es` can be read and strictly increase.
pub open spec fn ids_increase(es: Seq<LogEntry>) -> bool {
    &&& forall|i: int| 0 <= i < es.len() ==> (#[trigger] entry_id_of(es[i].id@)) is Some
    &&& forall|i: int, j: int|
        0 <= i < j < es.len() ==> id_later(
            entry_id_of(#[trigger] es[j].id@).unwrap(),
            entry_id_of(#[trigger] es[i].id@).unwrap(),
        )
}

fn user_texts_of(attrs: &Vec<(String, Field)>, user: &String) -> (r: Vec<Json>)
    ensures
        r@ == user_texts(attrs@, user@),
{
    let mut r: Vec<Json> = Vec::new();
    let mut i: usize = 0;
    while i < attrs.len()
        invariant
            i <= attrs@.len(),
            r@ == user_texts(attrs@.take(i as int), user@),
        decreases attrs@.len() - i,
    {
        proof {
            assert(attrs@.take(i + 1).drop_last() =~= attrs@.take(i as int));
        }
        let (label, value) = &attrs[i];
        match value {
            Field::Text(t) => {
                if label.eq(user) {
                    r.push(Json::Text(t.clone()));
                }
            },
            _ => {},
        }
        i = i + 1;
    }
    assert(attrs@.take(attrs@.len() as int) =~= attrs@);
    r
}

impl Session {
    /// Takes the entries `entries`, read from the log in order, into the
    /// session: the cursor moves past each entry that lies past it, and the
    /// texts that the session's user wrote in those entries are returned.
    pub fn absorb_entries(&mut self, entries: &Vec<LogEntry>) -> (r: Vec<Json>)
        ensures
            (final(self).cursor, r@) == absorb(entries@, old(self).cursor, old(self).username@),
            *final(self) == (Session { cursor: final(self).cursor, ..*old(self) }),
    {
        let ghost c0 = self.cursor;
        let mut collected: Vec<Json> = Vec::new();
        let mut i: usize = 0;
        while i < entries.len()
            invariant
                i <= entries@.len(),
                (self.cursor, collected@) == absorb(entries@.take(i as int), c0, self.username@),
                *self == (Session { cursor: self.cursor, ..*old(self) }),
            decreases entries@.len() - i,
        {
            proof {
                assert(entries@.take(i + 1).drop_last() =~= entries@.take(i as int));
            }
            let e = &entries[i];
            if is_past_cursor(e.id.as_str(), self.cursor.as_str()) {
                let mut texts = user_texts_of(&e.attributes, &self.username);
                collected.append(&mut texts);
                self.cursor = e.id.clone();
            }
            i = i + 1;
        }
        assert(entries@.take(entries@.len() as int) =~= entries@);
        collected
    }
}

/// Waiting on a log whose entries follow the cursor in increasing order
/// collects exactly the texts that the user wrote in them, in log order, and
/// leaves the cursor at the last entry.
pub proof fn lemma_wait_collects(es: Seq<LogEntry>, cursor: String, user: Seq<char>)
    requires
        es.len() > 0,
        ids_increase(es),
        past_cursor(es[0].id@, cursor@),
    ensures
        absorb(es, cursor, user) == (es.last().id, all_user_texts(es, user)),
    decreases es.len(),
{
    let n = es.len() as int;
    if n == 1 {
        assert(es.drop_last() =~= Seq::<LogEntry>::empty());
        assert(absorb(Seq::<LogEntry>::empty(), cursor, user) == (cursor, Seq::<Json>::empty()));
        assert(es.last() == es[0]);
        assert(all_user_texts(Seq::<LogEntry>::empty(), user) == Seq::<Json>::empty());
        assert(Seq::<Json>::empty() + user_texts(es[0].attributes@, user) =~= user_texts(es[0].attributes@, user));
    } else {
        let p = es.drop_last();
        assert(p[0] == es[0]);
        assert(ids_increase(p)) by {
            assert forall|i: int| 0 <= i < p.len() implies (#[trigger] entry_id_of(p[i].id@)) is Some by {
                assert(p[i] == es[i]);
            }
            assert forall|i: int, j: int| 0 <= i < j < p.len() implies id_later(
                entry_id_of(#[trigger] p[j].id@).unwrap(),
                entry_id_of(#[trigger] p[i].id@).unwrap(),
            ) by {
                assert(p[i] == es[i] && p[j] == es[j]);
            }
        }
        lemma_wait_collects(p, cursor, user);
        assert(p.last() == es[n - 2]);
        assert(entry_id_of(es[n - 1].id@) is Some);
        assert(entry_id_of(es[n - 2].id@) is Some);
        assert(id_later(entry_id_of(es[n - 1].id@).unwrap(), entry_id_of(es[n - 2].id@).unwrap()));
        assert(past_cursor(es.last().id@, p.last().id@));
    }
}

impl Orchestrator {
    /// Starts driving the session stored as `doc`; there is none when no
    /// document was found or it does not describe a session.
    pub fn start(doc: Option<Json>) -> (r: Option<Orchestrator>)
        ensures
            r is Some <==> (doc matches Some(d) && is_session_document(d)),
            r matches Some(o) ==> o.phase == Phase::Invoking && is_session_of(doc->Some_0, o.session),
    {
        match doc {
            Some(d) => match Session::from_document(d) {
                Some(s) => Some(Orchestrator { session: s, phase: Phase::Invoking }),
                None => None,
            },
            None => None,
        }
    }

    /// Takes the interpreter's reply at time `now`.
    ///
    /// A reply that is not a success fails the session, changes nothing and
    /// stores nothing. A successful one asks to publish its output under the
    /// robot's label and takes its `context` into the session context. Then,
    /// by command: on `Wait` the `user_input` is emptied, the session stored
    /// and the log read from the cursor; on `Finish` the context is emptied,
    /// the session stored and the run stopped; on `Pause` or `Operator` the
    /// session is stored and the run stopped; on anything else the command is
    /// reported, the run stops and nothing is stored.
    pub fn on_reply(&mut self, reply: Reply, now: i64) -> (actions: Vec<Action>)
        requires
            old(self).phase == Phase::Invoking,
        ensures
            match reply {
                Reply::Success(v) => {
                    let cmd = reply_command(v);
                    let s0 = old(self).session;
                    let s1 = final(self).session;
                    &&& s1 == (Session { context: s1.context, timestamp: s1.timestamp, ..s0 })
                    &&& is_publish(actions@[0], s0.robot, reply_texts(v))
                    &&& match cmd {
                        Command::Wait => {
                            &&& final(self).phase == Phase::Waiting
                            &&& s1.timestamp == now
                            &&& field(s1.context, "context"@) == field(v, "context"@)
                            &&& field(s1.context, "user_input"@) matches Json::List(l) && l@.len() == 0
                            &&& forall|k: Seq<char>| k != "context"@ && k != "user_input"@ ==> #[trigger] field(s1.context, k) == field(s0.context, k)
                            &&& actions@.len() == 3
                            &&& actions@[1] is Persist
                            &&& actions@[2] matches Action::ReadAfter { cursor } && cursor == s0.cursor
                        },
                        Command::Finish => {
                            &&& final(self).phase == Phase::Finished
                            &&& s1.timestamp == now
                            &&& s1.context matches Json::Object(m) && m@.len() == 0
                            &&& actions@.len() == 3
                            &&& actions@[1] is Persist
                            &&& actions@[2] is Stop
                        },
                        Command::Pause | Command::Operator => {
                            &&& final(self).phase == (if cmd == Command::Pause { Phase::Paused } else { Phase::Escalated })
                            &&& s1.timestamp == now
                            &&& is_context_with(s0.context, "context"@, field(v, "context"@), s1.context)
                            &&& actions@.len() == 3
                            &&& actions@[1] is Persist
                            &&& actions@[2] is Stop
                        },
                        Command::Noop => {
                            &&& final(self).phase == Phase::Halted
                            &&& s1.timestamp == s0.timestamp
                            &&& is_context_with(s0.context, "context"@, field(v, "context"@), s1.context)
                            &&& actions@.len() == 3
                            &&& actions@[1] == (Action::Unrecognized { command: field(v, "command"@) })
                            &&& actions@[2] is Stop
                        },
                    }
                },
                _ => {
                    &&& *final(self) == (Orchestrator { phase: Phase::Failed, ..*old(self) })
                    &&& actions@.len() == 1
                    &&& actions@[0] is Stop
                },
            },
    {
        let mut v = match reply {
            Reply::Success(v) => v,
            _ => {
                self.phase = Phase::Failed;
                let mut actions: Vec<Action> = Vec::new();
                actions.push(Action::Stop);
                return actions;
            },
        };
        let ghost v0 = v;
        let texts = user_output_texts(v.get("user_output"));
        let cmd = match v.get("command").as_text() {
            Some(s) => Command::from(s.as_str()),
            None => Command::Noop,
        };
        proof {
            reveal_strlit("context");
            reveal_strlit("command");
            reveal_strlit("user_input");
            assert("context"@.len() != "user_input"@.len());
            assert("context"@[2] != "command"@[2]);
        }
        let command = v.take("command");
        let ctx = v.take("context");
        self.session.context.set("context", ctx);
        let mut actions: Vec<Action> = Vec::new();
        actions.push(Action::Publish { label: self.session.robot.clone(), texts });
        match cmd {
            Command::Wait => {
                self.session.context.set("user_input", Json::List(Vec::new()));
                self.session.timestamp = now;
                self.phase = Phase::Waiting;
                actions.push(Action::Persist);
                actions.push(Action::ReadAfter { cursor: self.session.cursor.clone() });
            },
            Command::Finish => {
                self.session.context = Json::empty_object();
                self.session.timestamp = now;
                self.phase = Phase::Finished;
                actions.push(Action::Persist);
                actions.push(Action::Stop);
            },
            Command::Pause => {
                self.session.timestamp = now;
                self.phase = Phase::Paused;
                actions.push(Action::Persist);
                actions.push(Action::Stop);
            },
            Command::Operator => {
                self.session.timestamp = now;
                self.phase = Phase::Escalated;
                actions.push(Action::Persist);
                actions.push(Action::Stop);
            },
            Command::Noop => {
                self.phase = Phase::Halted;
                actions.push(Action::Unrecognized { command });
                actions.push(Action::Stop);
            },
        }
        actions
    }

    /// Takes the entries read from the log while waiting, at time `now`.
    ///
    /// The cursor moves past the new entries. When the user wrote in them,
    /// their texts become the context's `user_input`, the session is stored
    /// and the interpreter invoked; otherwise the log is read again from the
    /// new cursor.
    pub fn on_entries(&mut self, entries: &Vec<LogEntry>, now: i64) -> (actions: Vec<Action>)
        requires
            old(self).phase == Phase::Waiting,
        ensures
            ({
                let s0 = old(self).session;
                let s1 = final(self).session;
                let (c, t) = absorb(entries@, s0.cursor, s0.username@);
                &&& s1.cursor == c
                &&& if t.len() > 0 {
                    &&& s1 == (Session { cursor: c, context: s1.context, timestamp: now, ..s0 })
                    &&& final(self).phase == Phase::Invoking
                    &&& field(s1.context, "user_input"@) matches Json::List(l) && l@ == t
                    &&& forall|k: Seq<char>| k != "user_input"@ ==> #[trigger] field(s1.context, k) == field(s0.context, k)
                    &&& actions@.len() == 2
                    &&& actions@[0] is Persist
                    &&& actions@[1] is Invoke
                } else {
                    &&& s1 == (Session { cursor: c, ..s0 })
                    &&& final(self).phase == Phase::Waiting
                    &&& actions@.len() == 1
                    &&& actions@[0] matches Action::ReadAfter { cursor } && cursor == c
                }
            }),
    {
        let texts = self.session.absorb_entries(entries);
        let mut actions: Vec<Action> = Vec::new();
        if texts.len() > 0 {
            self.session.context.set("user_input", Json::List(texts));
            self.session.timestamp = now;
            self.phase = Phase::Invoking;
            actions.push(Action::Persist);
            actions.push(Action::Invoke);
        } else {
            actions.push(Action::ReadAfter { cursor: self.session.cursor.clone() });
        }
        actions
    }

    /// The log could not be read while waiting: the session fails, and
    /// nothing is stored.
    pub fn on_read_failure(&mut self) -> (actions: Vec<Action>)
        requires
            old(self).phase == Phase::Waiting,
        ensures
            *final(self) == (Orchestrator { phase: Phase::Failed, ..*old(self) }),
            actions@.len() == 1,
            actions@[0] is Stop,
    {
        self.phase = Phase::Failed;
        let mut actions: Vec<Action> = Vec::new();
        actions.push(Action::Stop);
        actions
    }

    /// The session could not be stored: it fails, and the run stops.
    pub fn on_persist_failure(&mut self) -> (actions: Vec<Action>)
        ensures
            *final(self) == (Orchestrator { phase: Phase::Failed, ..*old(self) }),
            actions@.len() == 1,
            actions@[0] is Stop,
    {
        self.phase = Phase::Failed;
        let mut actions: Vec<Action> = Vec::new();
        actions.push(Action::Stop);
        actions
    }

    /// The message left for the operator in the context, if it is a text.
    pub fn operator_message(&self) -> (r: Option<&String>)
        ensures
            match field(self.session.context, "operator_message"@) {
                Json::Text(m) => r == Some(&m),
                _ => r is None,
            },
    {
        self.session.context.get("operator_message").as_text()
    }

    /// Whether the session has ended.
    pub fn stopped(&self) -> (r: bool)
        ensures
            r == !(self.phase == Phase::Invoking || self.phase == Phase::Waiting),
    {
        match self.phase {
            Phase::Invoking | Phase::Waiting => false,
            _ => true,
        }
    }
}

} // verus!

use vstd::prelude::*;

use std::collections::VecDeque;
use std::rc::Rc;

use crate::signals::{ConnectorEvent, ControllerSignal};

verus! {

/// Whether the interactive client is bound to a chat.
#[derive(Debug, PartialEq, Eq)]
pub enum Connection {
    Disconnected,
    Connected { username: String, chat_id: String },
}

/// What the interactive loop does for one signal.
#[derive(Debug, PartialEq, Eq)]
pub enum Effect {
    /// Show a message in the transcript.
    Append { from: String, message: String },
    /// Show a dismissible notice.
    Notice { message: String },
    /// Start the log connector for `chat_id` under the label `username`, and
    /// show `title`.
    Connect { username: String, chat_id: String, title: String },
    /// A connection was asked for while connected; a notice was queued.
    Refused,
    /// Hand the event to the output side of the connector.
    Post(ConnectorEvent),
    /// An outgoing message while disconnected: nothing is sent.
    Dropped,
    /// The input line was taken; what it gave was queued.
    Submitted,
    /// Stop the interactive loop.
    Stop,
}

/// The mediator between the interactive loop and its producers: a bounded
/// FIFO of signals, and the state that dispatching them changes.
#[derive(Debug, PartialEq, Eq)]
pub struct Mediator {
    pub queue: VecDeque<ControllerSignal>,
    pub capacity: usize,
    pub connection: Connection,
    pub running: bool,
}

pub open spec fn already_connected_text() -> Seq<char> {
    "RUNTIME ERROR:\ntrying to connect when already connected."@
}

pub open spec fn empty_message_text() -> Seq<char> {
    "You are trying to send an empty message to the chat.\nThis is forbidden."@
}

/// Effect `e` is what dispatching `s` gives, when the mediator is
/// `connected` or not.
pub open spec fn answer_in(e: Effect, s: ControllerSignal, connected: bool) -> bool {
    match s {
        ControllerSignal::IncomingMessage { from, message } => e == (Effect::Append { from, message }),
        ControllerSignal::Info { message } => e == (Effect::Notice { message }),
        ControllerSignal::ConnectTo { username, chat_id } => if connected {
            e is Refused
        } else {
            e matches Effect::Connect { username: u, chat_id: c, title } && u@ == username_or_default(
                username,
            ) && c@ == chat_or_default(chat_id) && title@ == u@ + " @ "@ + c@
        },
        ControllerSignal::OutgoingMessage { message } => if connected {
            e == Effect::Post(ConnectorEvent::Post { message })
        } else {
            e is Dropped
        },
        ControllerSignal::Submit => e is Submitted,
        ControllerSignal::Quit => e is Stop,
    }
}

/// Dispatching `s` gives a new signal when the mediator is `connected` or not.
pub open spec fn emits(s: ControllerSignal, connected: bool) -> bool {
    (s is ConnectTo && connected) || s is Submit
}

/// `f` is the signal that dispatching `s` gives, with `input` the pending
/// input line, or an empty one when it was `taken` already.
pub open spec fn follow_up(f: ControllerSignal, s: ControllerSignal, input: String, taken: bool) -> bool {
    match s {
        ControllerSignal::ConnectTo { .. } => f matches ControllerSignal::Info { message } && message@
            == already_connected_text(),
        ControllerSignal::Submit => if taken || input@.len() == 0 {
            f matches ControllerSignal::Info { message } && message@ == empty_message_text()
        } else {
            f == (ControllerSignal::OutgoingMessage { message: input })
        },
        _ => false,
    }
}

/// Some signal among the first `i` of `q` asks for a connection.
pub open spec fn connect_before(q: Seq<ControllerSignal>, i: int) -> bool {
    exists|j: int| 0 <= j < i && (#[trigger] q[j]) is ConnectTo
}

/// Some signal among the first `i` of `q` submits the input line.
pub open spec fn submit_before(q: Seq<ControllerSignal>, i: int) -> bool {
    exists|j: int| 0 <= j < i && (#[trigger] q[j]) is Submit
}

/// Some signal among the first `i` of `q` asks to quit.
pub open spec fn quit_before(q: Seq<ControllerSignal>, i: int) -> bool {
    exists|j: int| 0 <= j < i && (#[trigger] q[j]) is Quit
}

/// `k` is the first signal of `q` that asks for a connection.
pub open spec fn is_first_connect(q: Seq<ControllerSignal>, k: int) -> bool {
    &&& 0 <= k < q.len()
    &&& q[k] is ConnectTo
    &&& !connect_before(q, k)
}

/// `conn` is the connection that the request `s` makes.
pub open spec fn connects_as(conn: Connection, s: ControllerSignal) -> bool {
    match s {
        ControllerSignal::ConnectTo { username, chat_id } => conn matches Connection::Connected {
            username: u,
            chat_id: c,
        } && u@ == username_or_default(username) && c@ == chat_or_default(chat_id),
        _ => false,
    }
}

/// `conn` is the connection after dispatching the first `i` signals of `q`
/// from connection `conn0`: only the first request of a disconnected
/// mediator connects.
pub open spec fn is_connection_after(conn0: Connection, q: Seq<ControllerSignal>, i: int, conn: Connection) -> bool {
    &&& conn0 is Connected ==> conn == conn0
    &&& conn0 is Disconnected ==> forall|k: int| 0 <= k < i && is_first_connect(q, k) ==> connects_as(conn, q[k])
    &&& (conn is Connected <==> (conn0 is Connected || connect_before(q, i)))
}

/// `fs` are the signals that dispatching the first `i` signals of `q` gives,
/// in order, from a mediator `c0` connected or not with pending input
/// `input0`.
pub open spec fn followups_ok(
    q: Seq<ControllerSignal>,
    i: int,
    c0: bool,
    input0: String,
    fs: Seq<ControllerSignal>,
) -> bool
    decreases i,
{
    if i <= 0 {
        fs.len() == 0
    } else {
        let s = q[i - 1];
        if emits(s, c0 || connect_before(q, i - 1)) {
            &&& fs.len() > 0
            &&& followups_ok(q, i - 1, c0, input0, fs.drop_last())
            &&& follow_up(fs.last(), s, input0, submit_before(q, i - 1))
        } else {
            followups_ok(q, i - 1, c0, input0, fs)
        }
    }
}

/// The kinds of signal that dispatching gives; dispatching them gives none.
pub open spec fn is_final_signal(s: ControllerSignal) -> bool {
    s is Info || s is OutgoingMessage
}

/// The label used when a connection request names none.
pub open spec fn username_or_default(u: Option<String>) -> Seq<char> {
    match u {
        Some(x) => x@,
        None => "NONAME"@,
    }
}

/// The chat used when a connection request names none.
pub open spec fn chat_or_default(c: Option<String>) -> Seq<char> {
    match c {
        Some(x) => x@,
        None => "42"@,
    }
}

/// The queue `q` of capacity `cap` after `s` is sent: appended at the back
/// when there is room, else unchanged.
pub open spec fn queue_after_send(q: Seq<ControllerSignal>, cap: nat, s: ControllerSignal) -> Seq<ControllerSignal> {
    if q.len() < cap {
        q.push(s)
    } else {
        q
    }
}

/// The queue `q` of capacity `cap` after the signals `sigs` are sent in order.
pub open spec fn queue_after_sends(q: Seq<ControllerSignal>, cap: nat, sigs: Seq<ControllerSignal>) -> Seq<
    ControllerSignal,
>
    decreases sigs.len(),
{
    if sigs.len() == 0 {
        q
    } else {
        queue_after_send(queue_after_sends(q, cap, sigs.drop_last()), cap, sigs.last())
    }
}

/// `effects` are what draining the queue `q` gives, from a mediator `c0`
/// connected or not with pending input `input0`: one answer to each signal
/// of `q`, in queue order and in the connection state that the signals
/// before it left, then one answer to each signal that dispatching gave, in
/// the order given.
pub open spec fn drained(q: Seq<ControllerSignal>, c0: bool, input0: String, effects: Seq<Effect>) -> bool {
    exists|fs: Seq<ControllerSignal>| #[trigger] followups_ok(q, q.len() as int, c0, input0, fs) && drained_with(q, c0, fs, effects)
}

/// `effects` answer the signals of `q` and then the signals `fs`; see
/// [`drained`].
pub open spec fn drained_with(q: Seq<ControllerSignal>, c0: bool, fs: Seq<ControllerSignal>, effects: Seq<Effect>) -> bool {
    &&& effects.len() == q.len() + fs.len()
    &&& forall|i: int| 0 <= i < q.len() ==> answer_in(#[trigger] effects[i], q[i], c0 || connect_before(q, i))
    &&& forall|j: int| 0 <= j < fs.len() ==> answer_in(#[trigger] effects[q.len() + j], fs[j], c0 || connect_before(q, q.len() as int))
}

/// Signals sent within the queue's capacity are all kept, in the order sent.
pub proof fn lemma_sends_within_capacity(q: Seq<ControllerSignal>, cap: nat, sigs: Seq<ControllerSignal>)
    requires
        q.len() + sigs.len() <= cap,
    ensures
        queue_after_sends(q, cap, sigs) == q + sigs,
    decreases sigs.len(),
{
    if sigs.len() == 0 {
        assert(q + sigs =~= q);
    } else {
        lemma_sends_within_capacity(q, cap, sigs.drop_last());
        assert((q + sigs.drop_last()).push(sigs.last()) =~= q + sigs);
    }
}

/// Signals sent to an empty queue, no more than it holds, are all answered
/// by the next drain, each once and in the order it was sent.
pub proof fn lemma_drain_in_send_order(
    cap: nat,
    sigs: Seq<ControllerSignal>,
    c0: bool,
    input0: String,
    effects: Seq<Effect>,
)
    requires
        sigs.len() <= cap,
        drained(queue_after_sends(Seq::empty(), cap, sigs), c0, input0, effects),
    ensures
        effects.len() >= sigs.len(),
        forall|i: int| 0 <= i < sigs.len() ==> answer_in(#[trigger] effects[i], sigs[i], c0 || connect_before(sigs, i)),
{
    lemma_sends_within_capacity(Seq::empty(), cap, sigs);
    assert(Seq::<ControllerSignal>::empty() + sigs =~= sigs);
}

/// A request to connect, drained while connected, is refused with exactly
/// one notice and starts no connector.
pub proof fn lemma_connect_while_connected(
    username: Option<String>,
    chat_id: Option<String>,
    input0: String,
    effects: Seq<Effect>,
)
    requires
        drained(seq![ControllerSignal::ConnectTo { username, chat_id }], true, input0, effects),
    ensures
        effects.len() == 2,
        effects[0] is Refused,
        effects[1] matches Effect::Notice { message } && message@ == already_connected_text(),
{
    let q = seq![ControllerSignal::ConnectTo { username, chat_id }];
    let fs = choose|fs: Seq<ControllerSignal>| #[trigger] followups_ok(q, q.len() as int, true, input0, fs) && drained_with(q, true, fs, effects);
    assert(followups_ok(q, 0, true, input0, fs.drop_last()));
    assert(effects[1int + 0] == effects[1]);
}

/// The content of an input field, unless it is empty.
pub fn take_content(s: Rc<String>) -> (r: Option<String>)
    ensures
        match r {
            Some(t) => s@.len() > 0 && t@ == s@,
            None => s@.len() == 0,
        },
{
    let t: &str = s.as_str();
    if t.is_empty() {
        None
    } else {
        Some(t.to_owned())
    }
}

/// Takes the pending input line: it is cleared, and what it held becomes an
/// outgoing message, or a notice when it was empty.
pub fn submit(input: &mut String) -> (r: ControllerSignal)
    ensures
        final(input)@.len() == 0,
        old(input)@.len() == 0 ==> (r matches ControllerSignal::Info { message } && message@
            == empty_message_text()),
        old(input)@.len() > 0 ==> r == (ControllerSignal::OutgoingMessage { message: *old(input) }),
{
    let mut message = String::new();
    std::mem::swap(input, &mut message);
    if message.as_str().is_empty() {
        ControllerSignal::Info {
            message: "You are trying to send an empty message to the chat.\nThis is forbidden.".to_owned(),
        }
    } else {
        ControllerSignal::OutgoingMessage { message }
    }
}

/// The window title of a connection: `"<username> @ <chat_id>"`.
pub fn connection_title(username: &str, chat_id: &str) -> (r: String)
    ensures
        r@ == username@ + " @ "@ + chat_id@,
{
    let mut t = username.to_owned();
    t.append(" @ ");
    t.append(chat_id);
    t
}

/// The transcript line of a message: `"[<from>] -> <message>"`.
pub fn transcript_line(from: &str, message: &str) -> (r: String)
    ensures
        r@ == "["@ + from@ + "] -> "@ + message@,
{
    let mut t = "[".to_owned();
    t.append(from);
    t.append("] -> ");
    t.append(message);
    t
}

impl Mediator {
    /// The queue holds no more signals than its capacity.
    pub open spec fn wf(&self) -> bool {
        0 < self.capacity && self.queue@.len() <= self.capacity
    }

    /// A running, disconnected mediator with an empty queue of `capacity`
    /// places.
    pub fn new(capacity: usize) -> (r: Mediator)
        requires
            capacity > 0,
        ensures
            r.wf(),
            r.queue@.len() == 0,
            r.capacity == capacity,
            r.connection is Disconnected,
            r.running,
    {
        Mediator { queue: VecDeque::new(), capacity, connection: Connection::Disconnected, running: true }
    }

    /// Queues `signal` behind those already queued, unless the queue is
    /// full: then the signal is handed back and the sender must wait.
    pub fn send(&mut self, signal: ControllerSignal) -> (r: Result<(), ControllerSignal>)
        requires
            old(self).wf(),
        ensures
            final(self).wf(),
            final(self).capacity == old(self).capacity,
            final(self).connection == old(self).connection,
            final(self).running == old(self).running,
            final(self).queue@ == queue_after_send(old(self).queue@, old(self).capacity as nat, signal),
            old(self).queue@.len() < old(self).capacity ==> r is Ok,
            old(self).queue@.len() >= old(self).capacity ==> r == Err::<(), _>(signal)
                && final(self).queue@ == old(self).queue@,
    {
        if self.queue.len() < self.capacity {
            self.queue.push_back(signal);
            Ok(())
        } else {
            Err(signal)
        }
    }

    /// Dispatches one signal, with `input` the pending input line. Returns
    /// what the interactive loop must do, and the signal that dispatching
    /// gives, if any, to be queued.
    pub fn dispatch(&mut self, signal: ControllerSignal, input: &mut String) -> (r: (
        Effect,
        Option<ControllerSignal>,
    ))
        ensures
            final(self).queue == old(self).queue,
            final(self).capacity == old(self).capacity,
            answer_in(r.0, signal, old(self).connection is Connected),
            r.1 is Some <==> emits(signal, old(self).connection is Connected),
            r.1 matches Some(f) ==> follow_up(f, signal, *old(input), false),
            r.1 is Some ==> !is_final_signal(signal),
            r.1 matches Some(f) ==> is_final_signal(f),
            !(signal is Submit) ==> *final(input) == *old(input),
            !(signal is ConnectTo) ==> final(self).connection == old(self).connection,
            !(signal is Quit) ==> final(self).running == old(self).running,
            match signal {
                ControllerSignal::ConnectTo { username, chat_id } => match old(self).connection {
                    Connection::Disconnected => {
                        &&& r.1 is None
                        &&& final(self).connection matches Connection::Connected {
                            username: u,
                            chat_id: c,
                        } && u@ == username_or_default(username) && c@ == chat_or_default(chat_id)
                        &&& r.0 matches Effect::Connect { username: u, chat_id: c, title } && u@
                            == username_or_default(username) && c@ == chat_or_default(chat_id)
                            && title@ == u@ + " @ "@ + c@
                    },
                    Connection::Connected { .. } => {
                        &&& final(self).connection == old(self).connection
                        &&& r.0 is Refused
                        &&& r.1 matches Some(ControllerSignal::Info { message }) && message@
                            == already_connected_text()
                    },
                },
                ControllerSignal::OutgoingMessage { message } => {
                    &&& r.1 is None
                    &&& old(self).connection is Connected ==> r.0 == Effect::Post(
                        ConnectorEvent::Post { message },
                    )
                    &&& old(self).connection is Disconnected ==> r.0 is Dropped
                },
                ControllerSignal::Submit => {
                    &&& final(input)@.len() == 0
                    &&& old(input)@.len() == 0 ==> (r.1 matches Some(ControllerSignal::Info { message })
                        && message@ == empty_message_text())
                    &&& old(input)@.len() > 0 ==> r.1 == Some(
                        ControllerSignal::OutgoingMessage { message: *old(input) },
                    )
                },
                ControllerSignal::Quit => !final(self).running && r.1 is None,
                _ => r.1 is None,
            },
    {
        match signal {
            ControllerSignal::IncomingMessage { from, message } => (Effect::Append { from, message }, None),
            ControllerSignal::Info { message } => (Effect::Notice { message }, None),
            ControllerSignal::ConnectTo { username, chat_id } => {
                match self.connection {
                    Connection::Disconnected => {
                        let u = match username {
                            Some(u) => u,
                            None => "NONAME".to_owned(),
                        };
                        let c = match chat_id {
                            Some(c) => c,
                            None => "42".to_owned(),
                        };
                        let title = connection_title(u.as_str(), c.as_str());
                        self.connection = Connection::Connected { username: u.clone(), chat_id: c.clone() };
                        (Effect::Connect { username: u, chat_id: c, title }, None)
                    },
                    Connection::Connected { .. } => {
                        let info = ControllerSignal::Info {
                            message: "RUNTIME ERROR:\ntrying to connect when already connected.".to_owned(),
                        };
                        (Effect::Refused, Some(info))
                    },
                }
            },
            ControllerSignal::OutgoingMessage { message } => {
                match self.connection {
                    Connection::Connected { .. } => (Effect::Post(ConnectorEvent::Post { message }), None),
                    Connection::Disconnected => (Effect::Dropped, None),
                }
            },
            ControllerSignal::Submit => {
                let next = submit(input);
                (Effect::Submitted, Some(next))
            },
            ControllerSignal::Quit => {
                self.running = false;
                (Effect::Stop, None)
            },
        }
    }

    /// Dispatches every queued signal in the order queued, then the signals
    /// that dispatching gave, until the queue is empty; see
    /// [`Mediator::dispatch`] and [`drained`].
    pub fn process_signals(&mut self, input: &mut String) -> (effects: Vec<Effect>)
        requires
            old(self).wf(),
        ensures
            final(self).wf(),
            final(self).queue@.len() == 0,
            final(self).capacity == old(self).capacity,
            drained(old(self).queue@, old(self).connection is Connected, *old(input), effects@),
            is_connection_after(
                old(self).connection,
                old(self).queue@,
                old(self).queue@.len() as int,
                final(self).connection,
            ),
            final(self).running == (old(self).running && !quit_before(
                old(self).queue@,
                old(self).queue@.len() as int,
            )),
            submit_before(old(self).queue@, old(self).queue@.len() as int) ==> final(input)@.len() == 0,
            !submit_before(old(self).queue@, old(self).queue@.len() as int) ==> *final(input) == *old(input),
    {
        let ghost q0 = self.queue@;
        let ghost conn0 = self.connection;
        let ghost c0 = self.connection is Connected;
        let ghost run0 = self.running;
        let ghost input0 = *input;
        let n = self.queue.len();
        let mut effects: Vec<Effect> = Vec::new();
        let ghost mut emitted: Seq<ControllerSignal> = Seq::empty();
        let mut i: usize = 0;
        while i < n
            invariant
                self.wf(),
                self.capacity == old(self).capacity,
                n == q0.len(),
                i <= n,
                self.queue@ == q0.subrange(i as int, n as int) + emitted,
                forall|k: int| 0 <= k < emitted.len() ==> is_final_signal(#[trigger] emitted[k]),
                followups_ok(q0, i as int, c0, input0, emitted),
                effects@.len() == i,
                forall|k: int| 0 <= k < i ==> answer_in(#[trigger] effects@[k], q0[k], c0 || connect_before(q0, k)),
                is_connection_after(conn0, q0, i as int, self.connection),
                c0 == (conn0 is Connected),
                self.running == (run0 && !quit_before(q0, i as int)),
                submit_before(q0, i as int) ==> input@.len() == 0,
                !submit_before(q0, i as int) ==> *input == input0,
            decreases n - i,
        {
            let popped = self.queue.pop_front();
            match popped {
                Some(signal) => {
                    assert(signal == q0[i as int]);
                    proof {
                        assert(self.queue@ =~= q0.subrange(i + 1, n as int) + emitted);
                    }
                    let ghost before = *self;
                    let ghost input_before = *input;
                    let (e, next) = self.dispatch(signal, input);
                    effects.push(e);
                    proof {
                        let ii = i as int;
                        assert(connect_before(q0, ii + 1) == (connect_before(q0, ii) || signal is ConnectTo)) by {
                            if signal is ConnectTo {
                                assert(q0[ii] is ConnectTo);
                            }
                            if connect_before(q0, ii + 1) && !(signal is ConnectTo) {
                                let j = choose|j: int| 0 <= j < ii + 1 && (#[trigger] q0[j]) is ConnectTo;
                                assert(j < ii);
                            }
                        }
                        assert(submit_before(q0, ii + 1) == (submit_before(q0, ii) || signal is Submit)) by {
                            if signal is Submit {
                                assert(q0[ii] is Submit);
                            }
                            if submit_before(q0, ii + 1) && !(signal is Submit) {
                                let j = choose|j: int| 0 <= j < ii + 1 && (#[trigger] q0[j]) is Submit;
                                assert(j < ii);
                            }
                        }
                        assert(quit_before(q0, ii + 1) == (quit_before(q0, ii) || signal is Quit)) by {
                            if signal is Quit {
                                assert(q0[ii] is Quit);
                            }
                            if quit_before(q0, ii + 1) && !(signal is Quit) {
                                let j = choose|j: int| 0 <= j < ii + 1 && (#[trigger] q0[j]) is Quit;
                                assert(j < ii);
                            }
                        }
                        assert(before.connection is Connected == (c0 || connect_before(q0, ii)));
                        assert forall|k: int| 0 <= k <= ii implies answer_in(#[trigger] effects@[k], q0[k], c0 || connect_before(q0, k)) by {
                            if k == ii {
                                assert(effects@[k] == e);
                            }
                        }
                        if conn0 is Disconnected {
                            assert forall|k: int| 0 <= k < ii + 1 && is_first_connect(q0, k) implies connects_as(self.connection, q0[k]) by {
                                if k < ii {
                                    assert(connect_before(q0, ii)) by {
                                        assert(q0[k] is ConnectTo);
                                    }
                                    assert(!(signal is ConnectTo && !connect_before(q0, ii)));
                                } else {
                                    assert(!connect_before(q0, ii));
                                }
                            }
                        }
                        if submit_before(q0, ii) {
                            assert(input_before@.len() == 0);
                        }
                    }
                    match next {
                        Some(f) => {
                            self.queue.push_back(f);
                            proof {
                                let old_emitted = emitted;
                                emitted = emitted.push(f);
                                assert(emitted.drop_last() =~= old_emitted);
                                assert(self.queue@ =~= q0.subrange(i + 1, n as int) + emitted);
                            }
                        },
                        None => {},
                    }
                },
                None => {},
            }
            i = i + 1;
        }
        assert(q0.subrange(n as int, n as int) + emitted =~= emitted);
        let ghost fs = emitted;
        let ghost cn = c0 || connect_before(q0, n as int);
        let ghost mut j: int = 0;
        while self.queue.len() > 0
            invariant
                self.wf(),
                self.capacity == old(self).capacity,
                n == q0.len(),
                0 <= j <= fs.len(),
                self.queue@ == fs.subrange(j, fs.len() as int),
                forall|k: int| 0 <= k < fs.len() ==> is_final_signal(#[trigger] fs[k]),
                followups_ok(q0, n as int, c0, input0, fs),
                effects@.len() == n + j,
                forall|k: int| 0 <= k < n ==> answer_in(#[trigger] effects@[k], q0[k], c0 || connect_before(q0, k)),
                forall|k: int| 0 <= k < j ==> answer_in(#[trigger] effects@[n + k], fs[k], cn),
                is_connection_after(conn0, q0, n as int, self.connection),
                cn == (self.connection is Connected),
                self.running == (run0 && !quit_before(q0, n as int)),
                submit_before(q0, n as int) ==> input@.len() == 0,
                !submit_before(q0, n as int) ==> *input == input0,
            decreases self.queue@.len(),
        {
            let popped = self.queue.pop_front();
            match popped {
                Some(signal) => {
                    assert(signal == fs[j]);
                    assert(is_final_signal(signal));
                    let ghost prev = effects@;
                    let (e, _) = self.dispatch(signal, input);
                    effects.push(e);
                    proof {
                        assert forall|k: int| 0 <= k < n implies answer_in(#[trigger] effects@[k], q0[k], c0 || connect_before(q0, k)) by {
                            assert(effects@[k] == prev[k]);
                        }
                        assert forall|k: int| 0 <= k < j + 1 implies answer_in(#[trigger] effects@[n + k], fs[k], cn) by {
                            if k == j {
                                assert(effects@[n + k] == e);
                            }
                        }
                        j = j + 1;
                        assert(self.queue@ =~= fs.subrange(j, fs.len() as int));
                    }
                },
                None => {},
            }
        }
        assert(q0.len() as int == n as int);
        assert(drained_with(q0, c0, fs, effects@));
        effects
    }

    /// Every producer of signals is gone: the interactive loop must stop.
    pub fn on_disconnected(&mut self) -> (e: Effect)
        ensures
            e is Stop,
            *final(self) == (Mediator { running: false, ..*old(self) }),
    {
        self.running = false;
        Effect::Stop
    }
}

} // verus!

use vstd::prelude::*;

use chrono::TimeZone;

use crate::entry::{before_dash, decimal_u64, is_digit, parse_decimal, split_id, Field, LogEntry};
use crate::signals::{ConnectorEvent, ControllerSignal};

verus! {

/// What std's `Debug` writes for the string `s`: the text quoted, with
/// quotes, backslashes and unprintable characters escaped.
pub uninterp spec fn debug_text_of(s: Seq<char>) -> Seq<char>;

/// Relies on std's `Debug` for `str`: the quoted and escaped form of `s`,
/// which depends on the characters of `s` alone.
#[verifier::external_body]
fn debug_text(s: &str) -> (r: String)
    ensures
        r@ == debug_text_of(s@),
{
    format!("{:?}", s)
}

/// The text of an attribute value.
pub open spec fn field_text(f: Field) -> Seq<char> {
    match f {
        Field::Text(t) => t@,
        Field::Other(d) => d@,
    }
}

/// `sigs` are the signals of entry `e` with timestamp text `stamp`: one
/// incoming message per attribute, in order, from the attribute's label.
pub open spec fn is_entry_signals(e: LogEntry, stamp: Seq<char>, sigs: Seq<ControllerSignal>) -> bool {
    &&& sigs.len() == e.attributes@.len()
    &&& forall|k: int|
        0 <= k < sigs.len() ==> (#[trigger] sigs[k] matches ControllerSignal::IncomingMessage {
            from,
            message,
        } && from == e.attributes@[k].0 && message@ == stamp + ". "@ + debug_text_of(
            field_text(e.attributes@[k].1),
        ))
}

/// The number of attributes over all of `h`.
pub open spec fn attribute_count(h: Seq<LogEntry>) -> nat
    decreases h.len(),
{
    if h.len() == 0 {
        0
    } else {
        attribute_count(h.drop_last()) + h.last().attributes@.len()
    }
}

/// `sigs` are the signals of the entries `h` in order, entry `j` shown with
/// timestamp text `stamps[j]`.
pub open spec fn is_transcript(h: Seq<LogEntry>, stamps: Seq<Seq<char>>, sigs: Seq<ControllerSignal>) -> bool
    decreases h.len(),
{
    &&& stamps.len() == h.len()
    &&& sigs.len() == attribute_count(h)
    &&& (h.len() > 0 ==> {
        let n = attribute_count(h.drop_last()) as int;
        &&& is_transcript(h.drop_last(), stamps.drop_last(), sigs.take(n))
        &&& is_entry_signals(h.last(), stamps.last(), sigs.skip(n))
    })
}

/// Two incoming messages say the same: the same participant and the same
/// text. Signals of other kinds are not compared.
pub open spec fn same_signal(a: ControllerSignal, b: ControllerSignal) -> bool {
    match (a, b) {
        (
            ControllerSignal::IncomingMessage { from: f1, message: m1 },
            ControllerSignal::IncomingMessage { from: f2, message: m2 },
        ) => f1 == f2 && m1@ == m2@,
        _ => false,
    }
}

/// The last millisecond before 9999-12-31 00:00 UTC, counted from the epoch.
/// Up to it, in any time zone (all offsets are under a day), the local year
/// has four digits.
pub const LAST_FOUR_DIGIT_YEAR_MILLIS: i64 = 253_402_214_399_999;

/// The milliseconds written before the first `'-'` of an entry identifier.
pub open spec fn timestamp_millis_of(id: Seq<char>) -> Option<u64> {
    match before_dash(id) {
        Some(a) => decimal_u64(a),
        None => None,
    }
}

/// `t` has the shape `dd/mm/yyyy HH:MM:SS`.
pub open spec fn is_date_time_text(t: Seq<char>) -> bool {
    &&& t.len() == 19
    &&& forall|i: int|
        0 <= i < 19 ==> if i == 2 || i == 5 {
            t[i] == '/'
        } else if i == 10 {
            t[i] == ' '
        } else if i == 13 || i == 16 {
            t[i] == ':'
        } else {
            is_digit(#[trigger] t[i])
        }
}

/// `stamp` can be the timestamp text of the entry identifier `id`: empty
/// when `id` has no timestamp part that fits in `i64`, and a date and time
/// `dd/mm/yyyy HH:MM:SS` when that part lies between the epoch and
/// [`LAST_FOUR_DIGIT_YEAR_MILLIS`].
pub open spec fn is_timestamp_text(id: Seq<char>, stamp: Seq<char>) -> bool {
    match timestamp_millis_of(id) {
        Some(ms) => {
            &&& ms > i64::MAX ==> stamp.len() == 0
            &&& ms <= LAST_FOUR_DIGIT_YEAR_MILLIS ==> is_date_time_text(stamp)
        },
        None => stamp.len() == 0,
    }
}

/// Relies on chrono's `TimeZone::timestamp_millis_opt` for `Local`,
/// `MappedLocalTime::single` and `DateTime::format`: the local time of
/// `millis` as `day/month/year hours:minutes:seconds`, when chrono can
/// represent it. Between the epoch and [`LAST_FOUR_DIGIT_YEAR_MILLIS`] it
/// always can, and the zero-padded two-digit day, month, hour, minute and
/// second and the four-digit year give the shape `dd/mm/yyyy HH:MM:SS`.
#[verifier::external_body]
fn local_time_text(millis: i64) -> (r: Option<String>)
    ensures
        0 <= millis <= LAST_FOUR_DIGIT_YEAR_MILLIS ==> r is Some,
        0 <= millis <= LAST_FOUR_DIGIT_YEAR_MILLIS ==> is_date_time_text(r->Some_0@),
{
    match chrono::Local.timestamp_millis_opt(millis).single() {
        Some(t) => Some(t.format("%d/%m/%Y %H:%M:%S").to_string()),
        None => None,
    }
}

/// The local time written in the timestamp part of the entry identifier
/// `id`; see [`is_timestamp_text`].
pub fn make_timestamp_string(id: &str) -> (r: String)
    ensures
        is_timestamp_text(id@, r@),
{
    match split_id(id) {
        Some((a, _)) => match parse_decimal(a) {
            Some(ms) => {
                if ms <= i64::MAX as u64 {
                    match local_time_text(ms as i64) {
                        Some(t) => t,
                        None => String::new(),
                    }
                } else {
                    String::new()
                }
            },
            None => String::new(),
        },
        None => String::new(),
    }
}

/// The signal for an attribute of participant `label`, whose value is
/// written as `shown`, in an entry shown with timestamp text `stamp`.
pub fn incoming_message_with(stamp: &str, label: &String, shown: &str) -> (r: ControllerSignal)
    ensures
        r matches ControllerSignal::IncomingMessage { from, message } && from == *label && message@
            == stamp@ + ". "@ + shown@,
{
    let mut message = stamp.to_owned();
    message.append(". ");
    message.append(shown);
    ControllerSignal::IncomingMessage { from: label.clone(), message }
}

/// The signal for the attribute `label: value` of an entry shown with
/// timestamp text `stamp`: the value is written quoted, as `Debug` writes a
/// string.
pub fn make_incoming_message(stamp: &str, label: &String, value: &Field) -> (r: ControllerSignal)
    ensures
        r matches ControllerSignal::IncomingMessage { from, message } && from == *label && message@
            == stamp@ + ". "@ + debug_text_of(field_text(*value)),
{
    let shown = match value {
        Field::Text(t) => debug_text(t.as_str()),
        Field::Other(d) => debug_text(d.as_str()),
    };
    incoming_message_with(stamp, label, shown.as_str())
}

/// The signals of entry `e` shown with timestamp text `stamp`.
pub fn entry_signals_at(e: &LogEntry, stamp: &str) -> (r: Vec<ControllerSignal>)
    ensures
        is_entry_signals(*e, stamp@, r@),
{
    let mut r: Vec<ControllerSignal> = Vec::new();
    let mut k: usize = 0;
    while k < e.attributes.len()
        invariant
            k <= e.attributes@.len(),
            r@.len() == k,
            forall|j: int|
                0 <= j < k ==> (#[trigger] r@[j] matches ControllerSignal::IncomingMessage {
                    from,
                    message,
                } && from == e.attributes@[j].0 && message@ == stamp@ + ". "@ + debug_text_of(
                    field_text(e.attributes@[j].1),
                )),
        decreases e.attributes@.len() - k,
    {
        let (label, value) = &e.attributes[k];
        r.push(make_incoming_message(stamp, label, value));
        k = k + 1;
    }
    r
}

/// The signals of entry `e`, shown with the local time of its identifier.
pub fn entry_signals(e: &LogEntry) -> (r: Vec<ControllerSignal>)
    ensures
        exists|stamp: Seq<char>| is_timestamp_text(e.id@, stamp) && #[trigger] is_entry_signals(*e, stamp, r@),
{
    let stamp = make_timestamp_string(e.id.as_str());
    entry_signals_at(e, stamp.as_str())
}

proof fn lemma_transcript_step(
    h: Seq<LogEntry>,
    stamps: Seq<Seq<char>>,
    sigs: Seq<ControllerSignal>,
    i: int,
    more: Seq<ControllerSignal>,
    stamp: Seq<char>,
)
    requires
        0 <= i < h.len(),
        is_transcript(h.take(i), stamps, sigs),
        is_entry_signals(h[i], stamp, more),
    ensures
        is_transcript(h.take(i + 1), stamps.push(stamp), sigs + more),
{
    let h1 = h.take(i + 1);
    assert(h1.drop_last() =~= h.take(i));
    assert(stamps.push(stamp).drop_last() =~= stamps);
    assert((sigs + more).take(sigs.len() as int) =~= sigs);
    assert((sigs + more).skip(sigs.len() as int) =~= more);
}

/// The catch-up of the entries `h`, entry `j` shown with timestamp text
/// `stamps[j]`.
pub fn replay_with(h: &Vec<LogEntry>, stamps: &Vec<String>) -> (r: Vec<ControllerSignal>)
    requires
        stamps@.len() == h@.len(),
    ensures
        is_transcript(h@, stamps@.map_values(|s: String| s@), r@),
{
    let ghost views = stamps@.map_values(|s: String| s@);
    let mut r: Vec<ControllerSignal> = Vec::new();
    let mut i: usize = 0;
    proof {
        assert(h@.take(0) =~= Seq::<LogEntry>::empty());
        assert(views.take(0) =~= Seq::<Seq<char>>::empty());
    }
    while i < h.len()
        invariant
            i <= h@.len(),
            stamps@.len() == h@.len(),
            views == stamps@.map_values(|s: String| s@),
            is_transcript(h@.take(i as int), views.take(i as int), r@),
        decreases h@.len() - i,
    {
        let mut more = entry_signals_at(&h[i], stamps[i].as_str());
        proof {
            lemma_transcript_step(h@, views.take(i as int), r@, i as int, more@, views[i as int]);
            assert(views.take(i as int).push(views[i as int]) =~= views.take(i + 1));
        }
        r.append(&mut more);
        i = i + 1;
    }
    assert(h@.take(h@.len() as int) =~= h@);
    assert(views.take(h@.len() as int) =~= views);
    r
}

/// Each of `stamps` can be the timestamp text of the entry of `h` at its
/// place.
pub open spec fn stamps_fit(h: Seq<LogEntry>, stamps: Seq<Seq<char>>) -> bool {
    &&& stamps.len() == h.len()
    &&& forall|j: int| 0 <= j < h.len() ==> is_timestamp_text(h[j].id@, #[trigger] stamps[j])
}

/// The catch-up of the entries `h`: the signals of every entry in log
/// order, each entry shown with the local time of its identifier.
pub fn replay(h: &Vec<LogEntry>) -> (r: Vec<ControllerSignal>)
    ensures
        exists|stamps: Seq<Seq<char>>| #[trigger] is_transcript(h@, stamps, r@) && stamps_fit(h@, stamps),
{
    let mut stamps: Vec<String> = Vec::new();
    let mut i: usize = 0;
    while i < h.len()
        invariant
            i <= h@.len(),
            stamps@.len() == i,
            forall|j: int| 0 <= j < i ==> is_timestamp_text(h@[j].id@, #[trigger] stamps@[j]@),
        decreases h@.len() - i,
    {
        stamps.push(make_timestamp_string(h[i].id.as_str()));
        i = i + 1;
    }
    let r = replay_with(h, &stamps);
    assert(stamps_fit(h@, stamps@.map_values(|s: String| s@)));
    r
}

/// Catching up twice on the same entries, with the same timestamp texts,
/// gives the same transcript, signal for signal.
pub proof fn lemma_replay_reproduces(
    h: Seq<LogEntry>,
    stamps: Seq<Seq<char>>,
    a: Seq<ControllerSignal>,
    b: Seq<ControllerSignal>,
)
    requires
        is_transcript(h, stamps, a),
        is_transcript(h, stamps, b),
    ensures
        a.len() == b.len() == attribute_count(h),
        forall|i: int| 0 <= i < a.len() ==> same_signal(#[trigger] a[i], b[i]),
    decreases h.len(),
{
    if h.len() > 0 {
        let n = attribute_count(h.drop_last()) as int;
        lemma_replay_reproduces(h.drop_last(), stamps.drop_last(), a.take(n), b.take(n));
        let e = h.last();
        assert forall|i: int| 0 <= i < a.len() implies same_signal(#[trigger] a[i], b[i]) by {
            if i < n {
                assert(a.take(n)[i] == a[i]);
                assert(b.take(n)[i] == b[i]);
            } else {
                assert(a.skip(n)[i - n] == a[i]);
                assert(b.skip(n)[i - n] == b[i]);
            }
        }
    }
}

/// The tailing side of the connector: where it resumes reading.
#[derive(Debug, PartialEq, Eq)]
pub struct InputLoop {
    /// The identifier after which the next read starts; `"$"` reads only
    /// entries appended from now on.
    pub last_id: String,
}

impl InputLoop {
    /// A loop that starts with the entries appended from now on.
    pub fn new() -> (r: InputLoop)
        ensures
            r.last_id@ == "$"@,
    {
        InputLoop { last_id: "$".to_owned() }
    }

    /// The one-time catch-up on the entries `h` read from the start of the
    /// partition: the resume point does not move.
    pub fn catch_up(&self, h: &Vec<LogEntry>) -> (r: Vec<ControllerSignal>)
        ensures
            exists|stamps: Seq<Seq<char>>| #[trigger] is_transcript(h@, stamps, r@) && stamps_fit(h@, stamps),
    {
        replay(h)
    }

    /// Takes a batch of entries read after the resume point: their signals
    /// in order, and the resume point moves to the last of them.
    pub fn on_batch(&mut self, batch: &Vec<LogEntry>) -> (r: Vec<ControllerSignal>)
        ensures
            exists|stamps: Seq<Seq<char>>| #[trigger] is_transcript(batch@, stamps, r@) && stamps_fit(batch@, stamps),
            batch@.len() > 0 ==> final(self).last_id == batch@.last().id,
            batch@.len() == 0 ==> final(self).last_id == old(self).last_id,
    {
        if batch.len() > 0 {
            self.last_id = batch[batch.len() - 1].id.clone();
        }
        replay(batch)
    }

    /// A read failed: a notice describes it, and the loop goes on.
    pub fn on_read_error(&self, description: &str) -> (r: ControllerSignal)
        ensures
            r matches ControllerSignal::Info { message } && message@ == "REDIS ERROR: "@ + description@,
    {
        let mut message = "REDIS ERROR: ".to_owned();
        message.append(description);
        ControllerSignal::Info { message }
    }
}

/// The attribute to append for an outbound event of the participant
/// `username`: the label and the text.
pub fn post_attribute(username: &String, event: ConnectorEvent) -> (r: (String, String))
    ensures
        r.0 == *username,
        event matches ConnectorEvent::Post { message } && r.1 == message,
{
    match event {
        ConnectorEvent::Post { message } => (username.clone(), message),
    }
}

} // verus!

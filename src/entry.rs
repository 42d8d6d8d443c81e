use vstd::prelude::*;

verus! {

/// The value of one attribute of a log entry.
#[derive(Debug, PartialEq, Eq)]
pub enum Field {
    /// A text value.
    Text(String),
    /// A value that is not text, with a description of it for display.
    Other(String),
}

/// One entry of the append-only log: its identifier, given by the log, and
/// its participant-label → value pairs in the order the log returned them.
#[derive(Debug, PartialEq, Eq)]
pub struct LogEntry {
    pub id: String,
    pub attributes: Vec<(String, Field)>,
}

/// The two parts of an entry identifier `"<millis>-<sequence>"`, ordered
/// first by time and then by sequence number.
#[derive(Debug, PartialEq, Eq, Structural, Clone, Copy)]
pub struct EntryId {
    pub millis: u64,
    pub seq: u64,
}

pub open spec fn is_digit(c: char) -> bool {
    '0' <= c <= '9'
}

/// A nonempty run of decimal digits.
pub open spec fn is_decimal(s: Seq<char>) -> bool {
    s.len() > 0 && forall|i: int| 0 <= i < s.len() ==> is_digit(#[trigger] s[i])
}

/// The number that the decimal digits `s` write.
pub open spec fn decimal_value(s: Seq<char>) -> int
    decreases s.len(),
{
    if s.len() == 0 {
        0
    } else {
        decimal_value(s.drop_last()) * 10 + (s.last() as int - '0' as int)
    }
}

/// The number that `s` writes in decimal, if it is one that fits in `u64`.
pub open spec fn decimal_u64(s: Seq<char>) -> Option<u64> {
    if is_decimal(s) && decimal_value(s) <= u64::MAX {
        Some(decimal_value(s) as u64)
    } else {
        None
    }
}

/// `i` is the position of the first `'-'` in `s`.
pub open spec fn is_first_dash(s: Seq<char>, i: int) -> bool {
    &&& 0 <= i < s.len()
    &&& s[i] == '-'
    &&& forall|j: int| 0 <= j < i ==> s[j] != '-'
}

/// The text before the first `'-'` of `s`, if it has one.
pub open spec fn before_dash(s: Seq<char>) -> Option<Seq<char>> {
    if exists|i: int| is_first_dash(s, i) {
        Some(s.take(choose|i: int| is_first_dash(s, i)))
    } else {
        None
    }
}

/// The text after the first `'-'` of `s`, if it has one.
pub open spec fn after_dash(s: Seq<char>) -> Option<Seq<char>> {
    if exists|i: int| is_first_dash(s, i) {
        Some(s.skip((choose|i: int| is_first_dash(s, i)) + 1))
    } else {
        None
    }
}

/// The identifier that the text `s` writes, if it is one.
pub open spec fn entry_id_of(s: Seq<char>) -> Option<EntryId> {
    match (before_dash(s), after_dash(s)) {
        (Some(a), Some(b)) => match (decimal_u64(a), decimal_u64(b)) {
            (Some(m), Some(q)) => Some(EntryId { millis: m, seq: q }),
            _ => None,
        },
        _ => None,
    }
}

/// Identifier `a` comes after identifier `b` in the log.
pub open spec fn id_later(a: EntryId, b: EntryId) -> bool {
    a.millis > b.millis || (a.millis == b.millis && a.seq > b.seq)
}

/// An entry with identifier text `id` lies past the cursor `cursor`. A cursor
/// that is no identifier (such as `"$"`) bounds nothing; an identifier text
/// that cannot be read lies past no cursor.
pub open spec fn past_cursor(id: Seq<char>, cursor: Seq<char>) -> bool {
    match (entry_id_of(id), entry_id_of(cursor)) {
        (Some(a), Some(b)) => id_later(a, b),
        (Some(_), None) => true,
        _ => false,
    }
}

proof fn lemma_decimal_step(s: Seq<char>, i: int)
    requires
        0 <= i < s.len(),
    ensures
        decimal_value(s.take(i + 1)) == decimal_value(s.take(i)) * 10 + (s[i] as int - '0' as int),
{
    assert(s.take(i + 1).drop_last() =~= s.take(i));
}

proof fn lemma_decimal_grows(s: Seq<char>, i: int, j: int)
    requires
        0 <= i <= j <= s.len(),
        forall|k: int| 0 <= k < s.len() ==> is_digit(#[trigger] s[k]),
    ensures
        decimal_value(s.take(j)) >= decimal_value(s.take(i)),
    decreases j - i,
{
    if i < j {
        lemma_decimal_grows(s, i, j - 1);
        lemma_decimal_step(s, j - 1);
        assert(is_digit(s[j - 1]));
        lemma_decimal_nonneg(s.take(j - 1));
    }
}

proof fn lemma_decimal_nonneg(s: Seq<char>)
    requires
        forall|k: int| 0 <= k < s.len() ==> is_digit(#[trigger] s[k]),
    ensures
        decimal_value(s) >= 0,
    decreases s.len(),
{
    if s.len() > 0 {
        assert(is_digit(s[s.len() - 1]));
        lemma_decimal_nonneg(s.drop_last());
    }
}

/// Reads `s` as a decimal number that fits in `u64`.
pub fn parse_decimal(s: &str) -> (r: Option<u64>)
    ensures
        r == decimal_u64(s@),
{
    let n = s.unicode_len();
    if n == 0 {
        return None;
    }
    let mut value: u64 = 0;
    let mut i: usize = 0;
    while i < n
        invariant
            n == s@.len(),
            i <= n,
            forall|k: int| 0 <= k < i ==> is_digit(#[trigger] s@[k]),
            value as int == decimal_value(s@.take(i as int)),
        decreases n - i,
    {
        let c = s.get_char(i);
        if !('0' <= c && c <= '9') {
            return None;
        }
        let d = (c as u32 - '0' as u32) as u64;
        proof {
            lemma_decimal_step(s@, i as int);
        }
        if value > (u64::MAX - d) / 10 {
            proof {
                assert(value * 10 + d > u64::MAX) by (nonlinear_arith)
                    requires
                        value > (u64::MAX - d) / 10,
                        d <= 9,
                ;
                let t = s@;
                if is_decimal(t) {
                    lemma_decimal_grows(t, i as int + 1, t.len() as int);
                    assert(t.take(t.len() as int) =~= t);
                }
            }
            return None;
        }
        value = value * 10 + d;
        i = i + 1;
    }
    assert(s@.take(n as int) =~= s@);
    Some(value)
}

/// The position of the first `'-'` in `s`, if any.
fn find_dash(s: &str) -> (r: Option<usize>)
    ensures
        match r {
            Some(i) => is_first_dash(s@, i as int),
            None => forall|j: int| 0 <= j < s@.len() ==> s@[j] != '-',
        },
{
    let n = s.unicode_len();
    let mut i: usize = 0;
    while i < n
        invariant
            n == s@.len(),
            i <= n,
            forall|j: int| 0 <= j < i ==> s@[j] != '-',
        decreases n - i,
    {
        if s.get_char(i) == '-' {
            return Some(i);
        }
        i = i + 1;
    }
    None
}

proof fn lemma_first_dash_unique(s: Seq<char>, i: int)
    requires
        is_first_dash(s, i),
    ensures
        (choose|k: int| is_first_dash(s, k)) == i,
{
    let k = choose|k: int| is_first_dash(s, k);
    assert(is_first_dash(s, k));
    if k < i {
        assert(s[k] != '-');
    } else if i < k {
        assert(s[i] != '-');
    }
}

/// The texts before and after the first `'-'` of `id`, if it has one.
pub fn split_id(id: &str) -> (r: Option<(&str, &str)>)
    ensures
        match r {
            Some((a, b)) => before_dash(id@) == Some(a@) && after_dash(id@) == Some(b@),
            None => before_dash(id@) is None && after_dash(id@) is None,
        },
{
    match find_dash(id) {
        Some(i) => {
            proof {
                lemma_first_dash_unique(id@, i as int);
            }
            let n = id.unicode_len();
            let a = id.substring_char(0, i);
            let b = id.substring_char(i + 1, n);
            assert(a@ =~= id@.take(i as int));
            assert(b@ =~= id@.skip(i as int + 1));
            Some((a, b))
        },
        None => None,
    }
}

/// Reads an entry identifier `"<millis>-<sequence>"`.
pub fn parse_entry_id(id: &str) -> (r: Option<EntryId>)
    ensures
        r == entry_id_of(id@),
{
    match split_id(id) {
        Some((a, b)) => match (parse_decimal(a), parse_decimal(b)) {
            (Some(m), Some(q)) => Some(EntryId { millis: m, seq: q }),
            _ => None,
        },
        None => None,
    }
}

/// Whether the entry with identifier text `id` lies past `cursor`.
pub fn is_past_cursor(id: &str, cursor: &str) -> (r: bool)
    ensures
        r == past_cursor(id@, cursor@),
{
    match (parse_entry_id(id), parse_entry_id(cursor)) {
        (Some(a), Some(b)) => a.millis > b.millis || (a.millis == b.millis && a.seq > b.seq),
        (Some(_), None) => true,
        _ => false,
    }
}

} // verus!

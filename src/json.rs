use vstd::prelude::*;

use crate::text::same_text;

verus! {

/// A structured document: what the session context, the interpreter's
/// replies and the stored session are made of.
///
/// Integers that fit in `i64` are held as `Int`; any other number keeps its
/// decimal text in `Number`.
#[derive(Debug, PartialEq, Eq)]
pub enum Json {
    Null,
    Bool(bool),
    Int(i64),
    Number(String),
    Text(String),
    List(Vec<Json>),
    Object(Vec<(String, Json)>),
}

/// `i` is the first position in `m` whose key is `key`.
pub open spec fn is_first_key(m: Seq<(String, Json)>, key: Seq<char>, i: int) -> bool {
    &&& 0 <= i < m.len()
    &&& m[i].0@ == key
    &&& forall|j: int| 0 <= j < i ==> m[j].0@ != key
}

/// The value held under `key` in the members `m`: the first member with that
/// key wins.
pub open spec fn member(m: Seq<(String, Json)>, key: Seq<char>) -> Option<Json> {
    if exists|i: int| is_first_key(m, key, i) {
        Some(m[choose|i: int| is_first_key(m, key, i)].1)
    } else {
        None
    }
}

/// `m2` is the members `m` with `key` bound to `value`: the first member with
/// that key gets the new value in place, or a new member is added at the end.
pub open spec fn is_with_member(
    m: Seq<(String, Json)>,
    key: Seq<char>,
    value: Json,
    m2: Seq<(String, Json)>,
) -> bool {
    if exists|i: int| is_first_key(m, key, i) {
        let i = choose|i: int| is_first_key(m, key, i);
        m2 == m.update(i, (m[i].0, value))
    } else {
        &&& m2.len() == m.len() + 1
        &&& m2.drop_last() == m
        &&& m2.last().0@ == key
        &&& m2.last().1 == value
    }
}

/// The members of a document: none unless it is an object.
pub open spec fn members(v: Json) -> Seq<(String, Json)> {
    match v {
        Json::Object(m) => m@,
        _ => Seq::empty(),
    }
}

/// The value under `key` of a document, as indexing a document reads it:
/// absent keys and documents that are not objects give `Null`.
pub open spec fn field(v: Json, key: Seq<char>) -> Json {
    match v {
        Json::Object(m) => match member(m@, key) {
            Some(x) => x,
            None => Json::Null,
        },
        _ => Json::Null,
    }
}

proof fn lemma_first_key_unique(m: Seq<(String, Json)>, key: Seq<char>, i: int, k: int)
    requires
        is_first_key(m, key, i),
        is_first_key(m, key, k),
    ensures
        i == k,
{
}

/// The members `m2` agree with `m` on every key but `key`, whose value is
/// `value`.
pub proof fn lemma_with_member(
    m: Seq<(String, Json)>,
    key: Seq<char>,
    value: Json,
    m2: Seq<(String, Json)>,
)
    requires
        is_with_member(m, key, value, m2),
    ensures
        member(m2, key) == Some(value),
        forall|k: Seq<char>| k != key ==> #[trigger] member(m2, k) == member(m, k),
{
    if exists|i: int| is_first_key(m, key, i) {
        let i = choose|i: int| is_first_key(m, key, i);
        assert(is_first_key(m2, key, i));
        let c = choose|c: int| is_first_key(m2, key, c);
        lemma_first_key_unique(m2, key, i, c);
        assert forall|k: Seq<char>| k != key implies #[trigger] member(m2, k) == member(m, k) by {
            assert forall|j: int| is_first_key(m, k, j) <==> is_first_key(m2, k, j) by {
                if is_first_key(m, k, j) || is_first_key(m2, k, j) {
                    assert forall|l: int| 0 <= l < m.len() implies m2[l].0 == m[l].0 by {}
                }
            }
            if exists|j: int| is_first_key(m, k, j) {
                let j = choose|j: int| is_first_key(m, k, j);
                let j2 = choose|j2: int| is_first_key(m2, k, j2);
                assert(is_first_key(m2, k, j));
                lemma_first_key_unique(m2, k, j, j2);
                assert(j != i);
            }
        }
    } else {
        let n = m.len() as int;
        assert forall|l: int| 0 <= l < n implies m[l].0@ != key by {
            if m[l].0@ == key {
                lemma_has_first_key(m, key, l);
            }
        }
        assert forall|l: int| 0 <= l < n implies m2[l] == m[l] by {
            assert(m2.drop_last()[l] == m[l]);
        }
        assert(m2[n].0@ == key);
        assert(is_first_key(m2, key, n));
        let c = choose|c: int| is_first_key(m2, key, c);
        lemma_first_key_unique(m2, key, n, c);
        assert forall|k: Seq<char>| k != key implies #[trigger] member(m2, k) == member(m, k) by {
            assert forall|l: int| 0 <= l < n implies m2[l] == m[l] by {
                assert(m2.drop_last()[l] == m[l]);
            }
            assert forall|j: int| is_first_key(m, k, j) <==> is_first_key(m2, k, j) by {}
            if exists|j: int| is_first_key(m, k, j) {
                let j = choose|j: int| is_first_key(m, k, j);
                let j2 = choose|j2: int| is_first_key(m2, k, j2);
                assert(is_first_key(m2, k, j));
                lemma_first_key_unique(m2, k, j, j2);
            }
        }
    }
}

/// Where some member has key `key`, a first one has.
proof fn lemma_has_first_key(m: Seq<(String, Json)>, key: Seq<char>, l: int)
    requires
        0 <= l < m.len(),
        m[l].0@ == key,
    ensures
        exists|i: int| is_first_key(m, key, i),
    decreases l,
{
    if exists|j: int| 0 <= j < l && m[j].0@ == key {
        let j = choose|j: int| 0 <= j < l && m[j].0@ == key;
        lemma_has_first_key(m, key, j);
    } else {
        assert(is_first_key(m, key, l));
    }
}

/// The position of the first member of `m` with key `key`, if any.
pub fn find_key(m: &Vec<(String, Json)>, key: &str) -> (r: Option<usize>)
    ensures
        match r {
            Some(i) => is_first_key(m@, key@, i as int),
            None => forall|j: int| 0 <= j < m@.len() ==> m@[j].0@ != key@,
        },
        r is None <==> member(m@, key@) is None,
        r matches Some(i) ==> member(m@, key@) == Some(m@[i as int].1),
{
    let mut i: usize = 0;
    while i < m.len()
        invariant
            i <= m@.len(),
            forall|j: int| 0 <= j < i ==> m@[j].0@ != key@,
        decreases m@.len() - i,
    {
        if same_text(m[i].0.as_str(), key) {
            proof {
                assert(is_first_key(m@, key@, i as int));
                let k = choose|k: int| is_first_key(m@, key@, k);
                lemma_first_key_unique(m@, key@, i as int, k);
            }
            return Some(i);
        }
        i = i + 1;
    }
    None
}

impl Json {
    /// The empty object `{}`.
    pub fn empty_object() -> (r: Json)
        ensures
            r matches Json::Object(m) && m@.len() == 0,
    {
        Json::Object(Vec::new())
    }

    /// Reads the member `key` of this document; see [`field`].
    pub fn get(&self, key: &str) -> (r: &Json)
        ensures
            *r == field(*self, key@),
    {
        match self {
            Json::Object(m) => {
                match find_key(m, key) {
                    Some(i) => &m[i].1,
                    None => &Json::Null,
                }
            },
            _ => &Json::Null,
        }
    }

    /// The text of a `Text` document.
    pub fn as_text(&self) -> (r: Option<&String>)
        ensures
            match *self {
                Json::Text(s) => r == Some(&s),
                _ => r is None,
            },
    {
        match self {
            Json::Text(s) => Some(s),
            _ => None,
        }
    }

    /// Moves the member `key` out of this document, leaving `Null` in its
    /// place; see [`field`].
    pub fn take(&mut self, key: &str) -> (r: Json)
        ensures
            r == field(*old(self), key@),
            field(*final(self), key@) == Json::Null,
            forall|k: Seq<char>| k != key@ ==> #[trigger] field(*final(self), k) == field(*old(self), k),
    {
        match self {
            Json::Object(m) => {
                let ghost old_m = m@;
                match find_key(m, key) {
                    Some(i) => {
                        let (k, v) = m.remove(i);
                        m.insert(i, (k, Json::Null));
                        proof {
                            assert(m@ =~= old_m.update(i as int, (old_m[i as int].0, Json::Null)));
                            assert(is_first_key(old_m, key@, i as int));
                            lemma_with_member(old_m, key@, Json::Null, m@);
                        }
                        v
                    },
                    None => Json::Null,
                }
            },
            _ => Json::Null,
        }
    }

    /// Binds `key` to `value` in this document. A document that is not an
    /// object is first replaced by the empty object.
    pub fn set(&mut self, key: &str, value: Json)
        ensures
            *final(self) is Object,
            is_with_member(members(*old(self)), key@, value, members(*final(self))),
            field(*final(self), key@) == value,
            forall|k: Seq<char>| k != key@ ==> #[trigger] field(*final(self), k) == field(*old(self), k),
    {
        let is_object = match self {
            Json::Object(_) => true,
            _ => false,
        };
        if !is_object {
            *self = Json::Object(Vec::new());
        }
        let ghost old_m = members(*self);
        match self {
            Json::Object(m) => {
                match find_key(m, key) {
                    Some(i) => {
                        let k = m[i].0.clone();
                        m.set(i, (k, value));
                    },
                    None => {
                        let k = key.to_owned();
                        m.push((k, value));
                        proof {
                            assert(m@.drop_last() =~= old_m);
                        }
                    },
                }
            },
            _ => {},
        }
        proof {
            lemma_with_member(old_m, key@, value, members(*self));
        }
    }
}

/// The first element of a list document, if it is a text.
pub fn extract_one_string_from_array(v: &Json) -> (r: Option<String>)
    ensures
        r == match *v {
            Json::List(l) => if l@.len() > 0 && l@[0] is Text {
                Some(l@[0]->Text_0)
            } else {
                None
            },
            _ => None,
        },
{
    match v {
        Json::List(l) => {
            if l.len() > 0 {
                match &l[0] {
                    Json::Text(s) => Some(s.clone()),
                    _ => None,
                }
            } else {
                None
            }
        },
        _ => None,
    }
}

} // verus!

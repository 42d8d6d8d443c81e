use vstd::prelude::*;

use crate::json::{field, Json};

verus! {

/// One conversation: where it is logged, who takes part in it, how far its
/// log has been consumed, and the context passed to the interpreter.
#[derive(Debug, PartialEq, Eq)]
pub struct Session {
    /// The log partition of the conversation.
    pub chat_id: String,
    /// When the session was created, in milliseconds since the epoch.
    pub started: i64,
    /// The interpretation program that drives the conversation.
    pub script: String,
    /// The label of the human participant.
    pub username: String,
    /// The label under which the robot posts.
    pub robot: String,
    /// The label of a human operator.
    pub operator: String,
    /// The time of the last activity, in milliseconds since the epoch.
    pub timestamp: i64,
    /// The identifier of the newest log entry taken into the context.
    pub cursor: String,
    /// The document passed to and received from the interpreter.
    pub context: Json,
}

/// `d` is the stored document of session `s`.
pub open spec fn is_document_of(d: Json, s: Session) -> bool {
    &&& field(d, "chat_id"@) == Json::Text(s.chat_id)
    &&& field(d, "started"@) == Json::Int(s.started)
    &&& field(d, "script"@) == Json::Text(s.script)
    &&& field(d, "username"@) == Json::Text(s.username)
    &&& field(d, "robot"@) == Json::Text(s.robot)
    &&& field(d, "operator"@) == Json::Text(s.operator)
    &&& field(d, "timestamp"@) == Json::Int(s.timestamp)
    &&& field(d, "cursor"@) == Json::Text(s.cursor)
    &&& field(d, "context"@) == s.context
}

/// `d` holds every field that a stored session must have, of the right kind.
pub open spec fn is_session_document(d: Json) -> bool {
    &&& field(d, "chat_id"@) is Text
    &&& field(d, "started"@) is Int
    &&& field(d, "script"@) is Text
    &&& field(d, "username"@) is Text
    &&& field(d, "robot"@) is Text
    &&& field(d, "operator"@) is Text
    &&& field(d, "timestamp"@) is Int
}

/// `s` is the session that document `d` describes. A document without a
/// text cursor describes a session that has consumed nothing yet.
pub open spec fn is_session_of(d: Json, s: Session) -> bool {
    &&& field(d, "chat_id"@) == Json::Text(s.chat_id)
    &&& field(d, "started"@) == Json::Int(s.started)
    &&& field(d, "script"@) == Json::Text(s.script)
    &&& field(d, "username"@) == Json::Text(s.username)
    &&& field(d, "robot"@) == Json::Text(s.robot)
    &&& field(d, "operator"@) == Json::Text(s.operator)
    &&& field(d, "timestamp"@) == Json::Int(s.timestamp)
    &&& match field(d, "cursor"@) {
        Json::Text(c) => s.cursor == c,
        _ => s.cursor@ == "0-0"@,
    }
    &&& field(d, "context"@) == s.context
}

/// The items of an interpreter's `user_output`: the elements of a list, the
/// values of an object in order, or else the value itself.
pub open spec fn output_items(v: Json) -> Seq<Json> {
    match v {
        Json::List(l) => l@,
        Json::Object(m) => m@.map_values(|p: (String, Json)| p.1),
        _ => seq![v],
    }
}

/// The texts among `items`, in order.
pub open spec fn texts_of(items: Seq<Json>) -> Seq<String>
    decreases items.len(),
{
    if items.len() == 0 {
        Seq::empty()
    } else {
        let prev = texts_of(items.drop_last());
        match items.last() {
            Json::Text(s) => prev.push(s),
            _ => prev,
        }
    }
}

proof fn lemma_texts_step(items: Seq<Json>, i: int)
    requires
        0 <= i < items.len(),
    ensures
        texts_of(items.take(i + 1)) == match items[i] {
            Json::Text(s) => texts_of(items.take(i)).push(s),
            _ => texts_of(items.take(i)),
        },
{
    assert(items.take(i + 1).drop_last() =~= items.take(i));
}

fn texts_of_list(l: &Vec<Json>) -> (r: Vec<String>)
    ensures
        r@ == texts_of(l@),
{
    let mut r: Vec<String> = Vec::new();
    let mut i: usize = 0;
    while i < l.len()
        invariant
            i <= l@.len(),
            r@ == texts_of(l@.take(i as int)),
        decreases l@.len() - i,
    {
        proof {
            lemma_texts_step(l@, i as int);
        }
        match &l[i] {
            Json::Text(s) => r.push(s.clone()),
            _ => {},
        }
        i = i + 1;
    }
    assert(l@.take(l@.len() as int) =~= l@);
    r
}

fn texts_of_members(m: &Vec<(String, Json)>) -> (r: Vec<String>)
    ensures
        r@ == texts_of(m@.map_values(|p: (String, Json)| p.1)),
{
    let ghost items = m@.map_values(|p: (String, Json)| p.1);
    let mut r: Vec<String> = Vec::new();
    let mut i: usize = 0;
    while i < m.len()
        invariant
            i <= m@.len(),
            items == m@.map_values(|p: (String, Json)| p.1),
            r@ == texts_of(items.take(i as int)),
        decreases m@.len() - i,
    {
        proof {
            lemma_texts_step(items, i as int);
        }
        match &m[i].1 {
            Json::Text(s) => r.push(s.clone()),
            _ => {},
        }
        i = i + 1;
    }
    assert(items.take(m@.len() as int) =~= items);
    r
}

/// The texts that the interpreter's `user_output` asks to publish, in order:
/// a single value, a list or an object is read as its items, and items that
/// are not text are passed over.
pub fn user_output_texts(v: &Json) -> (r: Vec<String>)
    ensures
        r@ == texts_of(output_items(*v)),
{
    match v {
        Json::List(l) => {
            let r = texts_of_list(l);
            assert(output_items(*v) == l@);
            r
        },
        Json::Object(m) => texts_of_members(m),
        _ => {
            let mut r: Vec<String> = Vec::new();
            assert(seq![*v].drop_last() =~= Seq::<Json>::empty());
            assert(texts_of(Seq::<Json>::empty()) == Seq::<String>::empty());
            match v {
                Json::Text(s) => r.push(s.clone()),
                _ => {},
            }
            r
        },
    }
}

/// Relies on chrono's `Local::now` and `DateTime::timestamp_millis`: the
/// current time in milliseconds since the epoch.
#[verifier::external_body]
fn now_millis() -> i64 {
    chrono::Local::now().timestamp_millis()
}

/// A lower-case hexadecimal digit.
pub open spec fn is_lower_hex(c: char) -> bool {
    ('0' <= c <= '9') || ('a' <= c <= 'f')
}

/// `s` is a random (version 4) UUID in hyphenated lower-case form: five
/// groups of 8, 4, 4, 4 and 12 hexadecimal digits; the third group starts
/// with `4` and the fourth with one of `8`, `9`, `a`, `b`.
pub open spec fn is_v4_uuid_text(s: Seq<char>) -> bool {
    &&& s.len() == 36
    &&& forall|i: int|
        0 <= i < 36 ==> if i == 8 || i == 13 || i == 18 || i == 23 {
            s[i] == '-'
        } else {
            is_lower_hex(#[trigger] s[i])
        }
    &&& s[14] == '4'
    &&& (s[19] == '8' || s[19] == '9' || s[19] == 'a' || s[19] == 'b')
}

/// Relies on uuid's `Uuid::new_v4`, which sets the version and variant bits
/// of random bits, and its `Display`, which writes the hyphenated lower-case
/// form: a fresh random identifier.
#[verifier::external_body]
fn fresh_chat_id() -> (r: String)
    ensures
        is_v4_uuid_text(r@),
{
    uuid::Uuid::new_v4().to_string()
}

/// The field names of a stored session are distinct.
proof fn lemma_keys_distinct()
    ensures
        "chat_id"@ != "started"@,
        "chat_id"@ != "script"@,
        "chat_id"@ != "username"@,
        "chat_id"@ != "robot"@,
        "chat_id"@ != "operator"@,
        "chat_id"@ != "timestamp"@,
        "chat_id"@ != "cursor"@,
        "chat_id"@ != "context"@,
        "started"@ != "script"@,
        "started"@ != "username"@,
        "started"@ != "robot"@,
        "started"@ != "operator"@,
        "started"@ != "timestamp"@,
        "started"@ != "cursor"@,
        "started"@ != "context"@,
        "script"@ != "username"@,
        "script"@ != "robot"@,
        "script"@ != "operator"@,
        "script"@ != "timestamp"@,
        "script"@ != "cursor"@,
        "script"@ != "context"@,
        "username"@ != "robot"@,
        "username"@ != "operator"@,
        "username"@ != "timestamp"@,
        "username"@ != "cursor"@,
        "username"@ != "context"@,
        "robot"@ != "operator"@,
        "robot"@ != "timestamp"@,
        "robot"@ != "cursor"@,
        "robot"@ != "context"@,
        "operator"@ != "timestamp"@,
        "operator"@ != "cursor"@,
        "operator"@ != "context"@,
        "timestamp"@ != "cursor"@,
        "timestamp"@ != "context"@,
        "cursor"@ != "context"@,
{
    reveal_strlit("chat_id");
    reveal_strlit("started");
    reveal_strlit("script");
    reveal_strlit("username");
    reveal_strlit("robot");
    reveal_strlit("operator");
    reveal_strlit("timestamp");
    reveal_strlit("cursor");
    reveal_strlit("context");
    assert("chat_id"@.len() != "script"@.len());
    assert("chat_id"@.len() != "username"@.len());
    assert("chat_id"@.len() != "robot"@.len());
    assert("chat_id"@.len() != "operator"@.len());
    assert("chat_id"@.len() != "timestamp"@.len());
    assert("chat_id"@.len() != "cursor"@.len());
    assert("started"@.len() != "script"@.len());
    assert("started"@.len() != "username"@.len());
    assert("started"@.len() != "robot"@.len());
    assert("started"@.len() != "operator"@.len());
    assert("started"@.len() != "timestamp"@.len());
    assert("started"@.len() != "cursor"@.len());
    assert("script"@.len() != "username"@.len());
    assert("script"@.len() != "robot"@.len());
    assert("script"@.len() != "operator"@.len());
    assert("script"@.len() != "timestamp"@.len());
    assert("script"@.len() != "context"@.len());
    assert("username"@.len() != "robot"@.len());
    assert("username"@.len() != "timestamp"@.len());
    assert("username"@.len() != "cursor"@.len());
    assert("username"@.len() != "context"@.len());
    assert("robot"@.len() != "operator"@.len());
    assert("robot"@.len() != "timestamp"@.len());
    assert("robot"@.len() != "cursor"@.len());
    assert("robot"@.len() != "context"@.len());
    assert("operator"@.len() != "timestamp"@.len());
    assert("operator"@.len() != "cursor"@.len());
    assert("operator"@.len() != "context"@.len());
    assert("timestamp"@.len() != "cursor"@.len());
    assert("timestamp"@.len() != "context"@.len());
    assert("cursor"@.len() != "context"@.len());
    assert("chat_id"@[0] != "started"@[0]);
    assert("chat_id"@[1] != "context"@[1]);
    assert("started"@[0] != "context"@[0]);
    assert("script"@[0] != "cursor"@[0]);
    assert("username"@[0] != "operator"@[0]);
}

impl Session {
    /// A session of `script` in chat `chat_id`, created at `now`, with the
    /// default participant labels, an empty context and nothing consumed.
    pub fn new_at(script: &str, chat_id: String, now: i64) -> (r: Session)
        ensures
            r.chat_id == chat_id,
            r.started == now,
            r.timestamp == now,
            r.script@ == script@,
            r.username@ == "Customer"@,
            r.robot@ == "Robot"@,
            r.operator@ == "Operator"@,
            r.cursor@ == "0-0"@,
            r.context matches Json::Object(m) && m@.len() == 0,
    {
        Session {
            chat_id,
            started: now,
            script: script.to_owned(),
            username: "Customer".to_owned(),
            robot: "Robot".to_owned(),
            operator: "Operator".to_owned(),
            timestamp: now,
            cursor: "0-0".to_owned(),
            context: Json::empty_object(),
        }
    }

    /// A session of `script` in a fresh chat, created now; see
    /// [`Session::new_at`].
    pub fn new(script: &str) -> (r: Session)
        ensures
            is_v4_uuid_text(r.chat_id@),
            r.started == r.timestamp,
            r.script@ == script@,
            r.username@ == "Customer"@,
            r.robot@ == "Robot"@,
            r.operator@ == "Operator"@,
            r.cursor@ == "0-0"@,
            r.context matches Json::Object(m) && m@.len() == 0,
    {
        let now = now_millis();
        let chat_id = fresh_chat_id();
        Session::new_at(script, chat_id, now)
    }

    /// Records activity at time `now`.
    pub fn touch_at(&mut self, now: i64)
        ensures
            *final(self) == (Session { timestamp: now, ..*old(self) }),
    {
        self.timestamp = now;
    }

    /// Records activity now; nothing else changes.
    pub fn touch(&mut self)
        ensures
            *final(self) == (Session { timestamp: final(self).timestamp, ..*old(self) }),
    {
        let now = now_millis();
        self.touch_at(now);
    }

    /// The document under which this session is stored.
    pub fn to_document(self) -> (r: Json)
        ensures
            is_document_of(r, self),
    {
        proof {
            lemma_keys_distinct();
        }
        let Session { chat_id, started, script, username, robot, operator, timestamp, cursor, context } = self;
        let mut d = Json::empty_object();
        d.set("chat_id", Json::Text(chat_id));
        d.set("started", Json::Int(started));
        d.set("script", Json::Text(script));
        d.set("username", Json::Text(username));
        d.set("robot", Json::Text(robot));
        d.set("operator", Json::Text(operator));
        d.set("timestamp", Json::Int(timestamp));
        d.set("cursor", Json::Text(cursor));
        d.set("context", context);
        d
    }

    /// The session that a stored document describes, if the document holds
    /// every field that a session must have.
    pub fn from_document(doc: Json) -> (r: Option<Session>)
        ensures
            r is Some <==> is_session_document(doc),
            r matches Some(s) ==> is_session_of(doc, s),
    {
        proof {
            lemma_keys_distinct();
        }
        let ghost d0 = doc;
        let mut doc = doc;
        let chat_id = match doc.take("chat_id") {
            Json::Text(s) => s,
            _ => return None,
        };
        let started = match doc.take("started") {
            Json::Int(i) => i,
            _ => return None,
        };
        let script = match doc.take("script") {
            Json::Text(s) => s,
            _ => return None,
        };
        let username = match doc.take("username") {
            Json::Text(s) => s,
            _ => return None,
        };
        let robot = match doc.take("robot") {
            Json::Text(s) => s,
            _ => return None,
        };
        let operator = match doc.take("operator") {
            Json::Text(s) => s,
            _ => return None,
        };
        let timestamp = match doc.take("timestamp") {
            Json::Int(i) => i,
            _ => return None,
        };
        let cursor = match doc.take("cursor") {
            Json::Text(s) => s,
            _ => "0-0".to_owned(),
        };
        let context = doc.take("context");
        Some(Session { chat_id, started, script, username, robot, operator, timestamp, cursor, context })
    }
}

/// Storing a session and reading it back gives the same session, its context
/// included, field for field.
pub proof fn lemma_document_round_trip(s: Session, d: Json, back: Session)
    requires
        is_document_of(d, s),
        is_session_of(d, back),
    ensures
        back == s,
        back.context == s.context,
{
}

} // verus!

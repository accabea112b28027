//! JSON documents as plain trees.

use crate::view::views;
use vstd::prelude::*;

verus! {

/// A JSON number, as the two readings that the rest of the library needs.
#[derive(Debug, Clone, Copy, PartialEq, Eq)]
pub struct JsonNumber {
    /// The number itself where it is an integer that fits `i64`.
    pub integer: Option<i64>,
    /// The bit pattern of the number read as an IEEE-754 double.
    pub real_bits: Option<u64>,
}

/// A JSON document.
#[derive(Debug, PartialEq, Eq)]
pub enum Json {
    Null,
    Bool(bool),
    Number(JsonNumber),
    Text(String),
    Array(Vec<Json>),
    /// The members of an object, each with its key.
    Object(Vec<(String, Json)>),
}

/// The mathematical value of a [`Json`] document.
pub enum JsonValue {
    Null,
    Bool(bool),
    Number(JsonNumber),
    Text(Seq<char>),
    Array(Seq<JsonValue>),
    Object(Seq<(Seq<char>, JsonValue)>),
}

/// The value of a document: its strings by their characters, its arrays and
/// objects by the values of what they hold, in order.
pub open spec fn value_of(doc: Json) -> JsonValue
    decreases doc,
{
    match doc {
        Json::Null => JsonValue::Null,
        Json::Bool(b) => JsonValue::Bool(b),
        Json::Number(n) => JsonValue::Number(n),
        Json::Text(s) => JsonValue::Text(s@),
        Json::Array(items) => JsonValue::Array(
            Seq::new(
                items.len() as nat,
                |i: int| if 0 <= i < items.len() { value_of(items[i]) } else { JsonValue::Null },
            ),
        ),
        Json::Object(members) => JsonValue::Object(
            Seq::new(
                members.len() as nat,
                |i: int| if 0 <= i < members.len() {
                    (members[i].0@, value_of(members[i].1))
                } else {
                    (Seq::empty(), JsonValue::Null)
                },
            ),
        ),
    }
}

impl View for Json {
    type V = JsonValue;

    open spec fn view(&self) -> JsonValue {
        value_of(*self)
    }
}

/// The position of the first member of `members` whose key is `key`, or the
/// number of members where no member has that key.
pub open spec fn position(members: Seq<(Seq<char>, JsonValue)>, key: Seq<char>) -> nat
    decreases members.len(),
{
    if members.len() == 0 || members[0].0 == key {
        0
    } else {
        1 + position(members.drop_first(), key)
    }
}

impl JsonValue {
    /// The text of a string.
    pub open spec fn text(self) -> Option<Seq<char>> {
        match self {
            JsonValue::Text(s) => Some(s),
            _ => None,
        }
    }

    /// The value of a number that is an integer within `i64`.
    pub open spec fn integer(self) -> Option<i64> {
        match self {
            JsonValue::Number(n) => n.integer,
            _ => None,
        }
    }

    /// The bit pattern of a number read as a double.
    pub open spec fn real_bits(self) -> Option<u64> {
        match self {
            JsonValue::Number(n) => n.real_bits,
            _ => None,
        }
    }

    /// The items of an array.
    pub open spec fn items(self) -> Option<Seq<JsonValue>> {
        match self {
            JsonValue::Array(items) => Some(items),
            _ => None,
        }
    }

    /// The value of the first member of an object that goes by `key`.
    pub open spec fn member(self, key: Seq<char>) -> Option<JsonValue> {
        match self {
            JsonValue::Object(members) => {
                let at = position(members, key);
                if at < members.len() {
                    Some(members[at as int].1)
                } else {
                    None
                }
            },
            _ => None,
        }
    }

    /// The text of member `key`, where the member is there and is a string.
    pub open spec fn text_member(self, key: Seq<char>) -> Option<Seq<char>> {
        match self.member(key) {
            Some(v) => v.text(),
            None => None,
        }
    }

    /// The integer of member `key`, where the member is there and is one.
    pub open spec fn integer_member(self, key: Seq<char>) -> Option<i64> {
        match self.member(key) {
            Some(v) => v.integer(),
            None => None,
        }
    }

    /// The double of member `key`, as its bit pattern, where the member is
    /// there and is a number.
    pub open spec fn real_member(self, key: Seq<char>) -> Option<u64> {
        match self.member(key) {
            Some(v) => v.real_bits(),
            None => None,
        }
    }

    /// The items of member `key`, where the member is there and is an array.
    pub open spec fn array_member(self, key: Seq<char>) -> Option<Seq<JsonValue>> {
        match self.member(key) {
            Some(v) => v.items(),
            None => None,
        }
    }

    /// Member `key` where it is there and is not `null`.
    pub open spec fn present_member(self, key: Seq<char>) -> Option<JsonValue> {
        match self.member(key) {
            Some(v) => if v is Null { None } else { Some(v) },
            None => None,
        }
    }
}

/// What `one` reads out of each of `items`, in order, where it reads
/// something out of every one of them.
pub open spec fn each<T>(items: Seq<JsonValue>, one: spec_fn(JsonValue) -> Option<T>) -> Option<
    Seq<T>,
> {
    if forall|i: int| 0 <= i < items.len() ==> (#[trigger] one(items[i])) is Some {
        Some(Seq::new(items.len(), |i: int| one(items[i]).unwrap()))
    } else {
        None
    }
}

/// `each` gives `out` where `one` reads `out`, item by item.
pub proof fn lemma_each_some<T>(
    items: Seq<JsonValue>,
    one: spec_fn(JsonValue) -> Option<T>,
    out: Seq<T>,
)
    requires
        out.len() == items.len(),
        forall|i: int| 0 <= i < items.len() ==> one(items[i]) == Some(#[trigger] out[i]),
    ensures
        each(items, one) == Some(out),
{
    assert forall|i: int| 0 <= i < items.len() implies (#[trigger] one(items[i])) is Some by {
        assert(one(items[i]) == Some(out[i]));
    }
    assert(each(items, one).unwrap() =~= out);
}

/// `each` gives nothing where `one` reads nothing out of some item.
pub proof fn lemma_each_none<T>(
    items: Seq<JsonValue>,
    one: spec_fn(JsonValue) -> Option<T>,
    at: int,
)
    requires
        0 <= at < items.len(),
        one(items[at]) is None,
    ensures
        each(items, one) is None,
{
}

/// What `one` reads out of each item of an array.
pub open spec fn list<T>(doc: JsonValue, one: spec_fn(JsonValue) -> Option<T>) -> Option<Seq<T>> {
    match doc.items() {
        Some(items) => each(items, one),
        None => None,
    }
}

/// What `one` reads out of a value that may be left out: nothing where it is
/// left out, and no reading at all where `one` finds none in a value that is
/// there.
pub open spec fn optional<T>(present: Option<JsonValue>, one: spec_fn(JsonValue) -> Option<T>)
    -> Option<Option<T>> {
    match present {
        None => Some(None),
        Some(v) => match one(v) {
            Some(t) => Some(Some(t)),
            None => None,
        },
    }
}

/// `position` is the least index that holds `key`, and is pinned down by that.
pub proof fn lemma_position(members: Seq<(Seq<char>, JsonValue)>, key: Seq<char>, at: nat)
    requires
        at <= members.len(),
        forall|i: int| 0 <= i < at ==> (#[trigger] members[i]).0 != key,
        at < members.len() ==> members[at as int].0 == key,
    ensures
        position(members, key) == at,
    decreases members.len(),
{
    if at > 0 {
        let rest = members.drop_first();
        assert(members[0].0 != key);
        assert forall|i: int| 0 <= i < at - 1 implies (#[trigger] rest[i]).0 != key by {
            assert(rest[i] == members[i + 1]);
        }
        lemma_position(rest, key, (at - 1) as nat);
    }
}

impl Json {
    /// The string that this document is, if it is one.
    pub fn as_text(&self) -> (r: Option<&String>)
        ensures
            match r {
                Some(s) => self@.text() == Some(s@),
                None => self@.text() is None,
            },
    {
        match self {
            Json::Text(s) => Some(s),
            _ => None,
        }
    }

    /// The integer that this document is, if it is one within `i64`.
    pub fn as_integer(&self) -> (r: Option<i64>)
        ensures
            r == self@.integer(),
    {
        match self {
            Json::Number(n) => n.integer,
            _ => None,
        }
    }

    /// The double that this document is, as its bit pattern, if it is a number.
    pub fn as_real_bits(&self) -> (r: Option<u64>)
        ensures
            r == self@.real_bits(),
    {
        match self {
            Json::Number(n) => n.real_bits,
            _ => None,
        }
    }

    /// The items of this document, if it is an array.
    pub fn as_array(&self) -> (r: Option<&Vec<Json>>)
        ensures
            match r {
                Some(items) => self@.items() == Some(views(items@)),
                None => self@.items() is None,
            },
    {
        match self {
            Json::Array(items) => {
                assert(self@.items().unwrap() =~= views(items@));
                Some(items)
            },
            _ => None,
        }
    }

    /// Whether this document is `null`.
    pub fn is_null(&self) -> (r: bool)
        ensures
            r == (self@ is Null),
    {
        match self {
            Json::Null => true,
            _ => false,
        }
    }

    /// The value of member `key`, if this document is an object that has one.
    pub fn member(&self, key: &str) -> (r: Option<&Json>)
        ensures
            match r {
                Some(v) => self@.member(key@) == Some(v@),
                None => self@.member(key@) is None,
            },
    {
        match self {
            Json::Object(members) => {
                let wanted = key.to_owned();
                let ghost view = self@->Object_0;
                let mut i: usize = 0;
                while i < members.len()
                    invariant
                        i <= members.len(),
                        wanted@ == key@,
                        self@ == JsonValue::Object(view),
                        view.len() == members.len(),
                        forall|k: int| 0 <= k < members.len() ==> #[trigger] view[k] == (members[k].0@, members[k].1@),
                        forall|k: int| 0 <= k < i ==> (#[trigger] view[k]).0 != key@,
                    decreases members.len() - i,
                {
                    if members[i].0 == wanted {
                        proof {
                            lemma_position(view, key@, i as nat);
                        }
                        return Some(&members[i].1);
                    }
                    i += 1;
                }
                proof {
                    lemma_position(view, key@, members.len() as nat);
                }
                None
            },
            _ => None,
        }
    }

    /// A copy of the text of member `key`, where the member is there and is a
    /// string.
    pub fn text_member(&self, key: &str) -> (r: Option<String>)
        ensures
            match r {
                Some(s) => self@.text_member(key@) == Some(s@),
                None => self@.text_member(key@) is None,
            },
    {
        match self.member(key) {
            Some(v) => match v.as_text() {
                Some(s) => Some(s.clone()),
                None => None,
            },
            None => None,
        }
    }

    /// The integer of member `key`, where the member is there and is one.
    pub fn integer_member(&self, key: &str) -> (r: Option<i64>)
        ensures
            r == self@.integer_member(key@),
    {
        match self.member(key) {
            Some(v) => v.as_integer(),
            None => None,
        }
    }

    /// The double of member `key`, as its bit pattern, where the member is
    /// there and is a number.
    pub fn real_member(&self, key: &str) -> (r: Option<u64>)
        ensures
            r == self@.real_member(key@),
    {
        match self.member(key) {
            Some(v) => v.as_real_bits(),
            None => None,
        }
    }

    /// The items of member `key`, where the member is there and is an array.
    pub fn array_member(&self, key: &str) -> (r: Option<&Vec<Json>>)
        ensures
            match r {
                Some(items) => self@.array_member(key@) == Some(views(items@)),
                None => self@.array_member(key@) is None,
            },
    {
        match self.member(key) {
            Some(v) => v.as_array(),
            None => None,
        }
    }

    /// Member `key` where it is there and is not `null`.
    pub fn present_member(&self, key: &str) -> (r: Option<&Json>)
        ensures
            match r {
                Some(v) => self@.present_member(key@) == Some(v@),
                None => self@.present_member(key@) is None,
            },
    {
        match self.member(key) {
            Some(v) => if v.is_null() {
                None
            } else {
                Some(v)
            },
            None => None,
        }
    }
}

/// `serde_json::Value`, carried from the parser to its rewriting and never
/// looked into by verified code.
#[verifier::external_type_specification]
#[verifier::external_body]
pub struct ExValue(serde_json::Value);

/// `serde_json::Error`, which the parser returns and verified code drops.
#[verifier::external_type_specification]
#[verifier::external_body]
pub struct ExError(serde_json::Error);

/// What `serde_json::from_slice` reads out of `bytes` as a
/// `serde_json::Value`, by its value, and nothing where it reports an error.
/// It is a function of the bytes alone; what it is on given bytes is not
/// stated anywhere.
pub uninterp spec fn json_document(bytes: Seq<u8>) -> Option<JsonValue>;

/// Calls `serde_json::from_slice` for a `serde_json::Value` and rewrites what
/// it gives with `from_value`. Taken on trust: that the outcome is
/// `json_document` of the bytes, which is to say that the same bytes always
/// parse alike. The parser gives up on text that nests deeper than 128
/// levels, so that neither it nor the rewriting runs out of stack.
#[verifier::external_body]
fn parse_document(bytes: &[u8]) -> (r: Result<Json, serde_json::Error>)
    ensures
        match r {
            Ok(doc) => json_document(bytes@) == Some(doc@),
            Err(_) => json_document(bytes@) is None,
        },
{
    serde_json::from_slice::<serde_json::Value>(bytes).map(from_value)
}

/// Rewrites a `serde_json::Value` as a [`Json`]: one arm for each variant of
/// the outside enum, with its fields moved over. A number becomes what
/// `Number::as_i64` and `Number::as_f64` return of it, and the members of an
/// object come in the order in which `serde_json::Map` hands them out.
/// Nothing is claimed of the result.
#[verifier::external_body]
fn from_value(value: serde_json::Value) -> Json {
    match value {
        serde_json::Value::Null => Json::Null,
        serde_json::Value::Bool(b) => Json::Bool(b),
        serde_json::Value::Number(n) => Json::Number(
            JsonNumber { integer: n.as_i64(), real_bits: n.as_f64().map(|x| x.to_bits()) },
        ),
        serde_json::Value::String(s) => Json::Text(s),
        serde_json::Value::Array(items) => Json::Array(items.into_iter().map(from_value).collect()),
        serde_json::Value::Object(members) => Json::Object(
            members.into_iter().map(|(k, v)| (k, from_value(v))).collect(),
        ),
    }
}

/// Parses `bytes` as the text of one JSON document. White space around the
/// document is passed over; anything else after it, and any text that is no
/// JSON, gives nothing.
pub fn parse(bytes: &[u8]) -> (r: Option<Json>)
    ensures
        match r {
            Some(doc) => json_document(bytes@) == Some(doc@),
            None => json_document(bytes@) is None,
        },
{
    match parse_document(bytes) {
        Ok(doc) => Some(doc),
        Err(_) => None,
    }
}

} // verus!

//! JSON documents as plain values.
//!
//! Text becomes a [`Json`] through `serde_json`; everything that reads a
//! document afterwards is verified.

use crate::text::same;
use serde_json::Value;
use vstd::prelude::*;

verus! {

/// A number of a document.
#[derive(Clone, Copy, Debug, PartialEq, Eq)]
pub enum JsonNumber {
    /// An integer from 0 up to `u64::MAX`.
    Unsigned(u64),
    /// An integer below 0, down to `i64::MIN`.
    Negative(i64),
    /// Any other number, as the bits of its double-precision value.
    Float(u64),
}

/// A JSON document.
#[derive(Debug, PartialEq, Eq)]
pub enum Json {
    Null,
    Bool(bool),
    Number(JsonNumber),
    Text(String),
    Array(Vec<Json>),
    /// The members in order; no key occurs twice in a parsed document.
    Object(Vec<(String, Json)>),
}

/// `serde_json::Value`: a parsed document.
#[verifier::external_type_specification]
#[verifier::external_body]
pub struct ExValue(serde_json::Value);

/// The document that a `serde_json::Value` holds.
pub uninterp spec fn value_json(value: serde_json::Value) -> Json;

/// The document that a text spells, or what the parser reports of a text that
/// spells none.
pub uninterp spec fn json_outcome(text: Seq<char>) -> Result<Json, Seq<char>>;

/// The document that a text spells, where it spells one.
pub open spec fn json_text(text: Seq<char>) -> Option<Json> {
    match json_outcome(text) {
        Ok(document) => Some(document),
        Err(_) => None,
    }
}

/// `serde_json::from_str` at `serde_json::Value`: reads one document and nothing
/// after it but white space. Which texts are documents, what each stands for,
/// and how the error of another text reads, goes by the name `json_outcome`.
#[verifier::external_body]
fn value_from_str(text: &str) -> (r: Result<serde_json::Value, String>)
    ensures
        match r {
            Ok(value) => json_outcome(text@) == Ok::<Json, Seq<char>>(value_json(value)),
            Err(report) => json_outcome(text@) == Err::<Json, Seq<char>>(report@),
        },
{
    serde_json::from_str::<serde_json::Value>(text).map_err(|e| e.to_string())
}

/// The document that bytes spell, or what the parser reports of bytes that spell
/// none.
pub uninterp spec fn json_bytes_outcome(bytes: Seq<u8>) -> Result<Json, Seq<char>>;

/// `serde_json::from_slice` at `serde_json::Value`: as `serde_json::from_str`, on
/// bytes that need not be text. The outcome goes by the name
/// `json_bytes_outcome`.
#[verifier::external_body]
fn value_from_slice(bytes: &Vec<u8>) -> (r: Result<serde_json::Value, String>)
    ensures
        match r {
            Ok(value) => json_bytes_outcome(bytes@) == Ok::<Json, Seq<char>>(value_json(value)),
            Err(report) => json_bytes_outcome(bytes@) == Err::<Json, Seq<char>>(report@),
        },
{
    serde_json::from_slice::<serde_json::Value>(bytes).map_err(|e| e.to_string())
}

/// Takes a `serde_json::Value` apart, variant by variant, with its accessors
/// `Number::as_u64`, `Number::as_i64` and `Number::as_f64`.
#[verifier::external_body]
fn json_from_value(value: Value) -> (r: Json)
    ensures
        r == value_json(value),
{
    match value {
        Value::Null => Json::Null,
        Value::Bool(b) => Json::Bool(b),
        Value::Number(n) => Json::Number(match (n.as_u64(), n.as_i64()) {
            (Some(u), _) => JsonNumber::Unsigned(u),
            (None, Some(i)) => JsonNumber::Negative(i),
            (None, None) => JsonNumber::Float(n.as_f64().map_or(0, |f| f.to_bits())),
        }),
        Value::String(s) => Json::Text(s),
        Value::Array(a) => Json::Array(a.into_iter().map(json_from_value).collect()),
        Value::Object(o) =>
            Json::Object(o.into_iter().map(|(k, v)| (k, json_from_value(v))).collect()),
    }
}

/// Reads a text as a JSON document, or tells why it is none.
pub fn parse_json_or_report(text: &str) -> (r: Result<Json, String>)
    ensures
        match r {
            Ok(document) => json_outcome(text@) == Ok::<Json, Seq<char>>(document),
            Err(report) => json_outcome(text@) == Err::<Json, Seq<char>>(report@),
        },
{
    match value_from_str(text) {
        Ok(value) => Ok(json_from_value(value)),
        Err(report) => Err(report),
    }
}

/// Reads bytes as a JSON document, or tells why they are none.
pub fn parse_json_bytes(bytes: &Vec<u8>) -> (r: Result<Json, String>)
    ensures
        match r {
            Ok(document) => json_bytes_outcome(bytes@) == Ok::<Json, Seq<char>>(document),
            Err(report) => json_bytes_outcome(bytes@) == Err::<Json, Seq<char>>(report@),
        },
{
    match value_from_slice(bytes) {
        Ok(value) => Ok(json_from_value(value)),
        Err(report) => Err(report),
    }
}

/// Reads a text as a JSON document.
pub fn parse_json(text: &str) -> (r: Option<Json>)
    ensures
        r == json_text(text@),
{
    match parse_json_or_report(text) {
        Ok(document) => Some(document),
        Err(_) => None,
    }
}

/// The value under the first member named `key`.
pub open spec fn member(members: Seq<(String, Json)>, key: Seq<char>) -> Option<Json>
    decreases members.len(),
{
    if members.len() == 0 {
        None
    } else if members[0].0@ == key {
        Some(members[0].1)
    } else {
        member(members.skip(1), key)
    }
}

/// The place of the first member named `key`.
fn position_of(members: &Vec<(String, Json)>, key: &str) -> (r: Option<usize>)
    ensures
        match r {
            Some(i) => {
                &&& i < members@.len()
                &&& members@[i as int].0@ == key@
                &&& forall|j: int| 0 <= j < i ==> (#[trigger] members@[j]).0@ != key@
            },
            None => forall|j: int|
                0 <= j < members@.len() ==> (#[trigger] members@[j]).0@ != key@,
        },
{
    let mut i: usize = 0;
    while i < members.len()
        invariant
            i <= members@.len(),
            forall|j: int| 0 <= j < i ==> (#[trigger] members@[j]).0@ != key@,
        decreases members@.len() - i,
    {
        if same(members[i].0.as_str(), key) {
            return Some(i);
        }
        i = i + 1;
    }
    None
}

proof fn updated_member(members: Seq<(String, Json)>, i: int, entry: (String, Json), key: Seq<char>)
    requires
        0 <= i < members.len(),
        members[i].0@ == entry.0@,
        forall|j: int| 0 <= j < i ==> (#[trigger] members[j]).0@ != entry.0@,
    ensures
        member(members.update(i, entry), key) == (if key == entry.0@ {
            Some(entry.1)
        } else {
            member(members, key)
        }),
        key == entry.0@ ==> member(members, key) == Some(members[i].1),
    decreases members.len(),
{
    let after = members.update(i, entry);
    if i > 0 {
        assert(after.skip(1) == members.skip(1).update(i - 1, entry));
        assert(members.skip(1)[i - 1] == members[i]);
        assert forall|j: int| 0 <= j < i - 1 implies (#[trigger] members.skip(1)[j]).0@
            != entry.0@ by {
            assert(members.skip(1)[j] == members[j + 1]);
        }
        updated_member(members.skip(1), i - 1, entry, key);
    } else {
        assert(after.skip(1) == members.skip(1));
    }
}

proof fn absent_member(members: Seq<(String, Json)>, key: Seq<char>)
    requires
        forall|j: int| 0 <= j < members.len() ==> (#[trigger] members[j]).0@ != key,
    ensures
        member(members, key) is None,
    decreases members.len(),
{
    if members.len() > 0 {
        assert forall|j: int| 0 <= j < members.skip(1).len() implies (#[trigger] members.skip(
            1,
        )[j]).0@ != key by {
            assert(members.skip(1)[j] == members[j + 1]);
        }
        absent_member(members.skip(1), key);
    }
}

proof fn pushed_member(members: Seq<(String, Json)>, entry: (String, Json), key: Seq<char>)
    requires
        forall|j: int| 0 <= j < members.len() ==> (#[trigger] members[j]).0@ != entry.0@,
    ensures
        member(members.push(entry), key) == (if key == entry.0@ {
            Some(entry.1)
        } else {
            member(members, key)
        }),
        key == entry.0@ ==> member(members, key) is None,
    decreases members.len(),
{
    let after = members.push(entry);
    if members.len() > 0 {
        assert(after.skip(1) == members.skip(1).push(entry));
        assert forall|j: int| 0 <= j < members.skip(1).len() implies (#[trigger] members.skip(
            1,
        )[j]).0@ != entry.0@ by {
            assert(members.skip(1)[j] == members[j + 1]);
        }
        pushed_member(members.skip(1), entry, key);
    } else {
        assert(after[0] == entry);
        assert(member(after.skip(1), key) is None);
    }
}

impl Json {
    /// This document with the member `key` set; one that is no object stays as
    /// it is.
    pub fn set(self, key: &str, value: Json) -> (r: Json)
        ensures
            self is Object ==> r is Object && forall|k: Seq<char>| #[trigger]
                r.field(k) == (if k == key@ {
                    Some(value)
                } else {
                    self.field(k)
                }),
            !(self is Object) ==> r == self,
    {
        match self {
            Json::Object(members) => {
                let ghost before = members@;
                let mut changed: Vec<(String, Json)> = members;
                let entry: (String, Json) = (key.to_owned(), value);
                match position_of(&changed, key) {
                    Some(i) => {
                        changed.remove(i);
                        changed.insert(i, entry);
                        assert(changed@ == before.update(i as int, entry));
                        proof {
                            assert forall|k: Seq<char>| #[trigger]
                                member(changed@, k) == (if k == key@ {
                                    Some(value)
                                } else {
                                    member(before, k)
                                }) by {
                                updated_member(before, i as int, entry, k);
                            }
                        }
                    },
                    None => {
                        changed.push(entry);
                        proof {
                            assert forall|k: Seq<char>| #[trigger]
                                member(changed@, k) == (if k == key@ {
                                    Some(value)
                                } else {
                                    member(before, k)
                                }) by {
                                pushed_member(before, entry, k);
                            }
                        }
                    },
                }
                Json::Object(changed)
            },
            other => other,
        }
    }

    /// Takes the member `key` out of an object, with a null in its place, and
    /// hands both on.
    pub fn take(self, key: &str) -> (r: (Json, Option<Json>))
        ensures
            r.1 == self.field(key@),
            r.1 is None ==> r.0 == self,
            r.1 is Some ==> r.0 is Object && self is Object && forall|k: Seq<char>| #[trigger]
                r.0.field(k) == (if k == key@ {
                    Some(Json::Null)
                } else {
                    self.field(k)
                }),
    {
        match self {
            Json::Object(members) => {
                let ghost before = members@;
                let mut rest: Vec<(String, Json)> = members;
                match position_of(&rest, key) {
                    Some(i) => {
                        let (name, value): (String, Json) = rest.remove(i);
                        let null: (String, Json) = (name, Json::Null);
                        rest.insert(i, null);
                        assert(rest@ == before.update(i as int, null));
                        proof {
                            assert forall|k: Seq<char>| #[trigger]
                                member(rest@, k) == (if k == key@ {
                                    Some(Json::Null)
                                } else {
                                    member(before, k)
                                }) by {
                                updated_member(before, i as int, null, k);
                            }
                            updated_member(before, i as int, null, key@);
                        }
                        (Json::Object(rest), Some(value))
                    },
                    None => {
                        proof {
                            absent_member(before, key@);
                        }
                        (Json::Object(rest), None)
                    },
                }
            },
            other => (other, None),
        }
    }

    /// The member `key` of an object; other documents have none.
    pub open spec fn field(self, key: Seq<char>) -> Option<Json> {
        match self {
            Json::Object(members) => member(members@, key),
            _ => None,
        }
    }

    /// The characters of a string.
    pub open spec fn text(self) -> Option<Seq<char>> {
        match self {
            Json::Text(s) => Some(s@),
            _ => None,
        }
    }

    /// The elements of an array.
    pub open spec fn elements(self) -> Option<Seq<Json>> {
        match self {
            Json::Array(a) => Some(a@),
            _ => None,
        }
    }

    /// A number that is an integer from 0 up to `u64::MAX`.
    pub open spec fn unsigned(self) -> Option<u64> {
        match self {
            Json::Number(JsonNumber::Unsigned(n)) => Some(n),
            _ => None,
        }
    }

    /// A number that is an integer of 64 bits with a sign.
    pub open spec fn signed(self) -> Option<i64> {
        match self {
            Json::Number(JsonNumber::Unsigned(n)) => if n <= i64::MAX {
                Some(n as i64)
            } else {
                None
            },
            Json::Number(JsonNumber::Negative(n)) => Some(n),
            _ => None,
        }
    }

    /// A truth value.
    pub open spec fn truth(self) -> Option<bool> {
        match self {
            Json::Bool(b) => Some(b),
            _ => None,
        }
    }

    /// The characters of the string under `key`.
    pub open spec fn field_text(self, key: Seq<char>) -> Option<Seq<char>> {
        match self.field(key) {
            Some(value) => value.text(),
            None => None,
        }
    }

    /// The elements of the array under `key`.
    pub open spec fn field_elements(self, key: Seq<char>) -> Option<Seq<Json>> {
        match self.field(key) {
            Some(value) => value.elements(),
            None => None,
        }
    }

    /// Looks up a member of an object.
    pub fn get(&self, key: &str) -> (r: Option<&Json>)
        ensures
            match r {
                Some(value) => self.field(key@) == Some(*value),
                None => self.field(key@) is None,
            },
    {
        match self {
            Json::Object(members) => {
                let mut i: usize = 0;
                assert(members@.skip(0) == members@);
                while i < members.len()
                    invariant
                        i <= members@.len(),
                        member(members@.skip(i as int), key@) == member(members@, key@),
                        self.field(key@) == member(members@, key@),
                    decreases members@.len() - i,
                {
                    assert(members@.skip(i as int).skip(1) == members@.skip(i + 1));
                    if same(members[i].0.as_str(), key) {
                        return Some(&members[i].1);
                    }
                    i = i + 1;
                }
                None
            },
            _ => None,
        }
    }

    /// The characters of a string.
    pub fn as_str(&self) -> (r: Option<&str>)
        ensures
            match r {
                Some(s) => self.text() == Some(s@),
                None => self.text() is None,
            },
    {
        match self {
            Json::Text(s) => Some(s.as_str()),
            _ => None,
        }
    }

    /// The elements of an array.
    pub fn as_array(&self) -> (r: Option<&Vec<Json>>)
        ensures
            match r {
                Some(a) => self.elements() == Some(a@),
                None => self.elements() is None,
            },
    {
        match self {
            Json::Array(a) => Some(a),
            _ => None,
        }
    }

    /// An integer from 0 up to `u64::MAX`.
    pub fn as_u64(&self) -> (r: Option<u64>)
        ensures
            r == self.unsigned(),
    {
        match self {
            Json::Number(JsonNumber::Unsigned(n)) => Some(*n),
            _ => None,
        }
    }

    /// An integer of 64 bits with a sign.
    pub fn as_i64(&self) -> (r: Option<i64>)
        ensures
            r == self.signed(),
    {
        match self {
            Json::Number(JsonNumber::Unsigned(n)) => if *n <= i64::MAX as u64 {
                Some(*n as i64)
            } else {
                None
            },
            Json::Number(JsonNumber::Negative(n)) => Some(*n),
            _ => None,
        }
    }

    /// A truth value.
    pub fn as_bool(&self) -> (r: Option<bool>)
        ensures
            r == self.truth(),
    {
        match self {
            Json::Bool(b) => Some(*b),
            _ => None,
        }
    }

    /// The string under `key`.
    pub fn get_str(&self, key: &str) -> (r: Option<&str>)
        ensures
            match r {
                Some(s) => self.field_text(key@) == Some(s@),
                None => self.field_text(key@) is None,
            },
    {
        match self.get(key) {
            Some(value) => value.as_str(),
            None => None,
        }
    }

    /// The array under `key`.
    pub fn get_array(&self, key: &str) -> (r: Option<&Vec<Json>>)
        ensures
            match r {
                Some(a) => self.field_elements(key@) == Some(a@),
                None => self.field_elements(key@) is None,
            },
    {
        match self.get(key) {
            Some(value) => value.as_array(),
            None => None,
        }
    }
}

// ---------------------------------------------------------------------------
// Building documents
// ---------------------------------------------------------------------------

/// What a member of a built document holds.
pub enum Shape {
    Text(Seq<char>),
    Number(u64),
    Texts(Seq<Seq<char>>),
}

/// Whether a document holds what `shape` says.
pub open spec fn has_shape(document: Json, shape: Shape) -> bool {
    match shape {
        Shape::Text(text) => document.text() == Some(text),
        Shape::Number(n) => document.unsigned() == Some(n),
        Shape::Texts(texts) => match document.elements() {
            Some(elements) => elements.len() == texts.len() && forall|i: int|
                0 <= i < texts.len() ==> (#[trigger] elements[i]).text() == Some(texts[i]),
            None => false,
        },
    }
}

/// Whether a document is an object with these members, in this order.
pub open spec fn is_object(document: Json, members: Seq<(Seq<char>, Shape)>) -> bool {
    match document {
        Json::Object(found) => found@.len() == members.len() && forall|i: int|
            0 <= i < members.len() ==> (#[trigger] found@[i]).0@ == members[i].0 && has_shape(
                found@[i].1,
                members[i].1,
            ),
        _ => false,
    }
}

/// A document that is a string.
pub fn text_json(text: &str) -> (r: Json)
    ensures
        has_shape(r, Shape::Text(text@)),
{
    Json::Text(text.to_owned())
}

/// A document that is a number.
pub fn number_json(n: u64) -> (r: Json)
    ensures
        has_shape(r, Shape::Number(n)),
{
    Json::Number(JsonNumber::Unsigned(n))
}

/// A document that is an array of strings.
pub fn texts_json(texts: &Vec<String>) -> (r: Json)
    ensures
        has_shape(r, Shape::Texts(texts.deep_view())),
{
    let mut elements: Vec<Json> = Vec::new();
    let mut i: usize = 0;
    while i < texts.len()
        invariant
            i <= texts@.len(),
            elements@.len() == i,
            forall|j: int| 0 <= j < i ==> (#[trigger] elements@[j]).text() == Some(texts@[j]@),
        decreases texts@.len() - i,
    {
        elements.push(Json::Text(texts[i].clone()));
        i = i + 1;
    }
    Json::Array(elements)
}

// ---------------------------------------------------------------------------
// Laws
// ---------------------------------------------------------------------------

/// A member is found by its key, the first where several have it, and no other
/// member is; a key that no member has is not found.
pub proof fn members_are_found(members: Seq<(String, Json)>, i: int, key: Seq<char>)
    ensures
        0 <= i < members.len() && members[i].0@ == key && (forall|k: int|
            0 <= k < i ==> (#[trigger] members[k]).0@ != key) ==> member(members, key) == Some(
            members[i].1,
        ),
        (forall|k: int| 0 <= k < members.len() ==> (#[trigger] members[k]).0@ != key) ==> member(
            members,
            key,
        ) is None,
    decreases members.len(),
{
    if members.len() > 0 {
        let rest = members.skip(1);
        members_are_found(rest, i - 1, key);
        if 0 < i < members.len() {
            assert(rest[i - 1] == members[i]);
        }
        assert forall|k: int| 0 <= k < rest.len() implies rest[k] == #[trigger] members[k + 1] by {}
        if forall|k: int| 0 <= k < members.len() ==> (#[trigger] members[k]).0@ != key {
            assert(members[0].0@ != key);
            assert forall|k: int| 0 <= k < rest.len() implies (#[trigger] rest[k]).0@ != key by {
                assert(members[k + 1].0@ != key);
            }
        }
        if 0 < i < members.len() && (forall|k: int|
            0 <= k < i ==> (#[trigger] members[k]).0@ != key) {
            assert(members[0].0@ != key);
            assert forall|k: int| 0 <= k < i - 1 implies (#[trigger] rest[k]).0@ != key by {
                assert(members[k + 1].0@ != key);
            }
        }
    }
}

/// A value is read as what it is and as nothing else: text as text, a number as a
/// number where it fits, a truth value as such, an array as its elements.
pub proof fn values_are_read_as_they_are(document: Json)
    ensures
        document.text() is Some <==> document is Text,
        document.elements() is Some <==> document is Array,
        document.truth() is Some <==> document is Bool,
        document.unsigned() is Some ==> document is Number,
        document.unsigned() matches Some(n) ==> (document.signed() matches Some(m) ==> m == n),
        document.unsigned() matches Some(n) ==> (document.signed() is Some <==> n <= i64::MAX),
        document matches Json::Text(s) ==> document.text() == Some(s@),
        document matches Json::Bool(b) ==> document.truth() == Some(b),
        document matches Json::Number(JsonNumber::Unsigned(n)) ==> document.unsigned() == Some(n),
        document matches Json::Number(JsonNumber::Negative(n)) ==> document.signed() == Some(n)
            && document.unsigned() is None,
        document matches Json::Number(JsonNumber::Float(_)) ==> document.signed() is None
            && document.unsigned() is None,
{
}

/// An object that was written with some members gives each of them back under its
/// key.
pub proof fn written_members_are_read(
    document: Json,
    members: Seq<(Seq<char>, Shape)>,
    i: int,
)
    requires
        is_object(document, members),
        0 <= i < members.len(),
        forall|a: int, b: int|
            0 <= a < b < members.len() ==> (#[trigger] members[a]).0 != (#[trigger] members[b]).0,
    ensures
        document.field(members[i].0) matches Some(value) && has_shape(value, members[i].1),
        members[i].1 matches Shape::Text(text) ==> document.field_text(members[i].0) == Some(text),
        members[i].1 matches Shape::Number(n) ==> document.field(members[i].0)->0.unsigned()
            == Some(n),
{
    let found = document->Object_0@;
    assert forall|k: int| 0 <= k < i implies (#[trigger] found[k]).0@ != members[i].0 by {
        assert(members[k].0 != members[i].0);
    }
    assert(found[i].0@ == members[i].0);
    members_are_found(found, i, members[i].0);
}

} // verus!

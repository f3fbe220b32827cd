//! JSON documents as the wire formats use them: a tree of plain values, its
//! mathematical value, lookups in it, and the passage to and from text.

use vstd::prelude::*;
use crate::text::same_text;

verus! {

/// A JSON document held as a tree of plain values.
#[derive(Debug, PartialEq)]
pub enum Json {
    Null,
    Bool(bool),
    /// A number, kept as the text that denotes it.
    Number(String),
    Text(String),
    List(Vec<Json>),
    /// The members of an object, in the order in which they stand.
    Object(Vec<(String, Json)>),
}

/// The mathematical value of a JSON document.
pub enum JsonValue {
    Null,
    Bool(bool),
    Number(Seq<char>),
    Text(Seq<char>),
    List(Seq<JsonValue>),
    Object(Seq<JsonMember>),
}

/// A member of an object: its name and its value.
pub struct JsonMember {
    pub name: Seq<char>,
    pub value: JsonValue,
}

impl View for Json {
    type V = JsonValue;

    open spec fn view(&self) -> JsonValue
        decreases self,
    {
        match self {
            Json::Null => JsonValue::Null,
            Json::Bool(b) => JsonValue::Bool(*b),
            Json::Number(n) => JsonValue::Number(n@),
            Json::Text(t) => JsonValue::Text(t@),
            Json::List(items) => JsonValue::List(
                Seq::new(
                    items.len() as nat,
                    |i: int|
                        if 0 <= i < items.len() {
                            items[i]@
                        } else {
                            JsonValue::Null
                        },
                ),
            ),
            Json::Object(members) => JsonValue::Object(
                Seq::new(
                    members.len() as nat,
                    |i: int|
                        if 0 <= i < members.len() {
                            JsonMember { name: members[i].0@, value: members[i].1@ }
                        } else {
                            JsonMember { name: Seq::empty(), value: JsonValue::Null }
                        },
                ),
            ),
        }
    }
}

/// The value of the first member called `key` at or after index `from`.
pub open spec fn find_member(
    members: Seq<JsonMember>,
    key: Seq<char>,
    from: int,
) -> Option<JsonValue>
    decreases members.len() - from,
{
    if from < 0 || from >= members.len() {
        None
    } else if members[from].name == key {
        Some(members[from].value)
    } else {
        find_member(members, key, from + 1)
    }
}

/// The member at index `at` is found under its name when no member before
/// it, from `from` on, has that name.
pub proof fn lemma_member_found(members: Seq<JsonMember>, key: Seq<char>, from: int, at: int)
    requires
        0 <= from <= at < members.len(),
        members[at].name == key,
        forall|j: int| from <= j < at ==> (#[trigger] members[j]).name != key,
    ensures
        find_member(members, key, from) == Some(members[at].value),
    decreases at - from,
{
    if from < at {
        assert(members[from].name != key);
        lemma_member_found(members, key, from + 1, at);
    }
}

/// No member is found under a name that no member from `from` on has.
pub proof fn lemma_member_missing(members: Seq<JsonMember>, key: Seq<char>, from: int)
    requires
        0 <= from,
        forall|j: int| from <= j < members.len() ==> (#[trigger] members[j]).name != key,
    ensures
        find_member(members, key, from) is None,
    decreases members.len() - from,
{
    if from < members.len() {
        assert(members[from].name != key);
        lemma_member_missing(members, key, from + 1);
    }
}

impl JsonValue {
    /// The value of the first member called `key`, where this is an object
    /// that has one.
    pub open spec fn member(self, key: Seq<char>) -> Option<JsonValue> {
        match self {
            JsonValue::Object(members) => find_member(members, key, 0),
            _ => None,
        }
    }

    /// The characters of this value, where it is a text.
    pub open spec fn text(self) -> Option<Seq<char>> {
        match self {
            JsonValue::Text(t) => Some(t),
            _ => None,
        }
    }

    /// The digits of this value, where it is a number.
    pub open spec fn number(self) -> Option<Seq<char>> {
        match self {
            JsonValue::Number(n) => Some(n),
            _ => None,
        }
    }

    /// The items of this value, where it is a list.
    pub open spec fn items(self) -> Option<Seq<JsonValue>> {
        match self {
            JsonValue::List(items) => Some(items),
            _ => None,
        }
    }

    /// The text of the first member called `key`, where this is an object
    /// that has one and it is a text.
    pub open spec fn text_member(self, key: Seq<char>) -> Option<Seq<char>> {
        match self.member(key) {
            Some(v) => v.text(),
            None => None,
        }
    }

    /// The digits of the first member called `key`, where it is a number.
    pub open spec fn number_member(self, key: Seq<char>) -> Option<Seq<char>> {
        match self.member(key) {
            Some(v) => v.number(),
            None => None,
        }
    }

    /// The member called `name` whose value is the text `value`.
    pub open spec fn text_entry(name: Seq<char>, value: Seq<char>) -> JsonMember {
        JsonMember { name, value: JsonValue::Text(value) }
    }
}

/// The values of the documents of a list, in order.
pub open spec fn views_of(items: Seq<Json>) -> Seq<JsonValue> {
    Seq::new(items.len(), |i: int| items[i]@)
}

/// The names and values of the members of a list, in order.
pub open spec fn member_views_of(members: Seq<(String, Json)>) -> Seq<JsonMember> {
    Seq::new(members.len(), |i: int| JsonMember { name: members[i].0@, value: members[i].1@ })
}

/// The value of a list is the list of its items' values.
pub proof fn lemma_list_view(items: Vec<Json>)
    ensures
        Json::List(items)@ == JsonValue::List(views_of(items@)),
{
    assert(Json::List(items)@->List_0 =~= views_of(items@));
}

/// The value of an object is the list of its members' names and values.
pub proof fn lemma_object_view(members: Vec<(String, Json)>)
    ensures
        Json::Object(members)@ == JsonValue::Object(member_views_of(members@)),
{
    assert(Json::Object(members)@->Object_0 =~= member_views_of(members@));
}

impl Json {
    /// A text document with the characters of `s`.
    pub fn text(s: &str) -> (doc: Json)
        ensures
            doc@ == JsonValue::Text(s@),
    {
        Json::Text(s.to_owned())
    }

    /// An object made of the given members, in their order.
    pub fn object(members: Vec<(String, Json)>) -> (doc: Json)
        ensures
            doc@ == JsonValue::Object(member_views_of(members@)),
    {
        proof {
            lemma_object_view(members);
        }
        Json::Object(members)
    }

    /// A list made of the given items, in their order.
    pub fn list(items: Vec<Json>) -> (doc: Json)
        ensures
            doc@ == JsonValue::List(views_of(items@)),
    {
        proof {
            lemma_list_view(items);
        }
        Json::List(items)
    }

    /// The first member called `key`, where this is an object that has one.
    pub fn member(&self, key: &str) -> (found: Option<&Json>)
        ensures
            found matches Some(doc) ==> self@.member(key@) == Some(doc@),
            found is None ==> self@.member(key@) is None,
    {
        match self {
            Json::Object(members) => {
                proof {
                    lemma_object_view(*members);
                }
                let ghost model = member_views_of(members@);
                let mut i: usize = 0;
                while i < members.len()
                    invariant
                        i <= members.len(),
                        model == member_views_of(members@),
                        self@ == JsonValue::Object(model),
                        find_member(model, key@, 0) == find_member(model, key@, i as int),
                    decreases members.len() - i,
                {
                    proof {
                        assert(model[i as int].name == members@[i as int].0@);
                        assert(model[i as int].value == members@[i as int].1@);
                    }
                    if same_text(members[i].0.as_str(), key) {
                        return Some(&members[i].1);
                    }
                    i += 1;
                }
                None
            },
            _ => None,
        }
    }

    /// Takes the first member called `key` out of the document, where it
    /// is an object that has one.
    pub fn into_member(self, key: &str) -> (found: Option<Json>)
        ensures
            found matches Some(doc) ==> self@.member(key@) == Some(doc@),
            found is None ==> self@.member(key@) is None,
    {
        match self {
            Json::Object(mut members) => {
                proof {
                    lemma_object_view(members);
                }
                let ghost model = member_views_of(members@);
                let mut i: usize = 0;
                while i < members.len()
                    invariant
                        i <= members.len(),
                        model == member_views_of(members@),
                        self@ == JsonValue::Object(model),
                        find_member(model, key@, 0) == find_member(model, key@, i as int),
                    decreases members.len() - i,
                {
                    proof {
                        assert(model[i as int].name == members@[i as int].0@);
                        assert(model[i as int].value == members@[i as int].1@);
                    }
                    if same_text(members[i].0.as_str(), key) {
                        let member = members.remove(i);
                        return Some(member.1);
                    }
                    i += 1;
                }
                None
            },
            _ => None,
        }
    }

    /// This document's characters, where it is a text.
    pub fn as_text(&self) -> (found: Option<&String>)
        ensures
            found matches Some(t) ==> self@.text() == Some(t@),
            found is None ==> self@.text() is None,
    {
        match self {
            Json::Text(t) => Some(t),
            _ => None,
        }
    }

    /// This document's digits, where it is a number.
    pub fn as_number(&self) -> (found: Option<&String>)
        ensures
            found matches Some(n) ==> self@.number() == Some(n@),
            found is None ==> self@.number() is None,
    {
        match self {
            Json::Number(n) => Some(n),
            _ => None,
        }
    }

    /// This document's items, where it is a list.
    pub fn as_list(&self) -> (found: Option<&Vec<Json>>)
        ensures
            found matches Some(items) ==> self@.items() == Some(views_of(items@)),
            found is None ==> self@.items() is None,
    {
        match self {
            Json::List(items) => {
                proof {
                    lemma_list_view(*items);
                }
                Some(items)
            },
            _ => None,
        }
    }

    /// The text of the first member called `key`.
    pub fn text_member(&self, key: &str) -> (found: Option<&String>)
        ensures
            found matches Some(t) ==> self@.text_member(key@) == Some(t@),
            found is None ==> self@.text_member(key@) is None,
    {
        match self.member(key) {
            Some(doc) => doc.as_text(),
            None => None,
        }
    }

    /// The digits of the first member called `key`.
    pub fn number_member(&self, key: &str) -> (found: Option<&String>)
        ensures
            found matches Some(n) ==> self@.number_member(key@) == Some(n@),
            found is None ==> self@.number_member(key@) is None,
    {
        match self.member(key) {
            Some(doc) => doc.as_number(),
            None => None,
        }
    }

    /// Reads a document from its text, where the text is one.
    pub fn parse(text: &str) -> (doc: Option<Json>)
        ensures
            doc matches Some(d) ==> json_parsed(text@) == Some(d@),
            doc is None ==> json_parsed(text@) is None,
    {
        json_parse(text)
    }

    /// Writes the document as compact text. A number whose text is not a
    /// number of JSON is written as `null`.
    pub fn render(&self) -> (text: String)
        ensures
            text@ == json_rendered(self@),
    {
        json_render(self)
    }
}

/// A name and a text, as a member of an object.
pub fn text_entry(key: &str, value: &str) -> (entry: (String, Json))
    ensures
        entry.0@ == key@,
        entry.1@ == JsonValue::Text(value@),
{
    (key.to_owned(), Json::text(value))
}

/// A document as `serde_json` holds it.
#[verifier::external_type_specification]
#[verifier::external_body]
pub struct ExDocument(serde_json::Value);

/// The document that a text denotes, where it denotes one. In an object
/// the members stand in the order of their names, each name once.
pub uninterp spec fn json_parsed(text: Seq<char>) -> Option<JsonValue>;

/// The compact text of a document. The members of an object are written
/// in the order of their names, and of two members with one name the
/// later is written. A number whose text is not a number of JSON is
/// written as `null`.
pub uninterp spec fn json_rendered(doc: JsonValue) -> Seq<char>;

/// Turns a `serde_json::Value` into a tree of plain values, variant by
/// variant; a number is kept as the text that `serde_json` writes for it.
#[verifier::external_body]
fn json_of_value(value: &serde_json::Value) -> Json {
    match value {
        serde_json::Value::Null => Json::Null,
        serde_json::Value::Bool(b) => Json::Bool(*b),
        serde_json::Value::Number(n) => Json::Number(n.to_string()),
        serde_json::Value::String(s) => Json::Text(s.clone()),
        serde_json::Value::Array(a) => Json::List(a.iter().map(json_of_value).collect()),
        serde_json::Value::Object(m) => Json::Object(
            m.iter().map(|(k, v)| (k.clone(), json_of_value(v))).collect(),
        ),
    }
}

/// Turns a tree of plain values into a `serde_json::Value`, variant by
/// variant; a number whose text `serde_json` does not read becomes null,
/// and of two members with one name the later stays.
#[verifier::external_body]
fn value_of_json(doc: &Json) -> serde_json::Value {
    match doc {
        Json::Null => serde_json::Value::Null,
        Json::Bool(b) => serde_json::Value::Bool(*b),
        Json::Number(n) => serde_json::from_str(n).ok().map_or(
            serde_json::Value::Null,
            serde_json::Value::Number,
        ),
        Json::Text(s) => serde_json::Value::String(s.clone()),
        Json::List(a) => serde_json::Value::Array(a.iter().map(value_of_json).collect()),
        Json::Object(m) => serde_json::Value::Object(
            m.iter().map(|(k, v)| (k.clone(), value_of_json(v))).collect(),
        ),
    }
}

/// Calls `serde_json::from_str` for a `serde_json::Value`, which reads one
/// JSON document from the whole text or fails.
#[verifier::external_body]
fn json_parse(text: &str) -> (doc: Option<Json>)
    ensures
        doc matches Some(d) ==> json_parsed(text@) == Some(d@),
        doc is None ==> json_parsed(text@) is None,
{
    serde_json::from_str::<serde_json::Value>(text).ok().map(|value| json_of_value(&value))
}

/// Calls `serde_json::Value`'s `to_string`, which writes the document
/// without spaces between its parts.
#[verifier::external_body]
fn json_render(doc: &Json) -> (text: String)
    ensures
        text@ == json_rendered(doc@),
{
    value_of_json(doc).to_string()
}

} // verus!

//! JSON text. serde_json reads and writes it; this module carries values
//! between serde_json's representation and `Json`.
//!
//! serde_json is built with `preserve_order`: the members of an object keep
//! the order in which they were added.

use vstd::prelude::*;
use crate::json::{json_view, Json, JsonView};

verus! {

/// `serde_json::Value`, the tree in which serde_json holds a JSON document.
/// Nothing is known of it but what `value_json` names.
#[verifier::external_type_specification]
#[verifier::external_body]
pub struct ExValue(serde_json::Value);

/// `serde_json::Error`, of which only its message is used.
#[verifier::external_type_specification]
#[verifier::external_body]
pub struct ExError(serde_json::Error);

/// What a `serde_json::Value` holds: its variant, and under it the boolean,
/// the number where it is an integer that fits in an `i64`, the string, the
/// items of the array, or the members of the object in the order in which
/// they were added.
pub uninterp spec fn value_json(value: serde_json::Value) -> JsonView;

/// The value that `serde_json::from_str` reads from `text`, or `None` where
/// it rejects the text.
pub uninterp spec fn json_of_text(text: Seq<char>) -> Option<JsonView>;

/// The text that `serde_json::to_string` writes for a value that holds
/// `json`.
pub uninterp spec fn text_of_json(json: JsonView) -> Seq<char>;

/// No two of `members` have the same key.
pub open spec fn distinct_keys(members: Seq<(Seq<char>, JsonView)>) -> bool {
    forall|i: int, j: int|
        0 <= i < j < members.len() ==> (#[trigger] members[i]).0 != (#[trigger] members[j]).0
}

/// `json` can be written as text: no number in it is an `OtherNumber`, and
/// no object in it has two members with the same key.
pub open spec fn writable(json: JsonView) -> bool
    decreases json,
{
    match json {
        JsonView::OtherNumber => false,
        JsonView::Array(items) => forall|i: int|
            0 <= i < items.len() ==> writable(#[trigger] items[i]),
        JsonView::Object(members) => distinct_keys(members) && forall|i: int|
            0 <= i < members.len() ==> writable((#[trigger] members[i]).1),
        _ => true,
    }
}

/// An array is writable where each of its items is.
pub proof fn lemma_writable_array(items: Seq<JsonView>)
    ensures
        writable(JsonView::Array(items)) <==> forall|i: int|
            0 <= i < items.len() ==> writable(#[trigger] items[i]),
{
    let json = JsonView::Array(items);
    assert forall|i: int| 0 <= i < items.len() && writable(json) implies writable(
        #[trigger] items[i],
    ) by {
        assert(decreases_to!(json => json->Array_0[i]));
    }
}

/// An object is writable where its keys differ and each of its values is
/// writable.
pub proof fn lemma_writable_object(members: Seq<(Seq<char>, JsonView)>)
    ensures
        writable(JsonView::Object(members)) <==> distinct_keys(members) && forall|i: int|
            0 <= i < members.len() ==> writable((#[trigger] members[i]).1),
{
    let json = JsonView::Object(members);
    assert forall|i: int| 0 <= i < members.len() && writable(json) implies writable(
        (#[trigger] members[i]).1,
    ) by {
        assert(decreases_to!(json => json->Object_0[i].1));
    }
}

/// Why a text could not be read or a value could not be written.
#[derive(Debug, Clone, PartialEq, Eq)]
pub enum JsonError {
    /// The text is no JSON document. Holds serde_json's message.
    Syntax(String),
    /// The value is not `writable`.
    NotWritable,
    /// serde_json failed to write a writable value. Holds its message.
    /// serde_json's source shows no way for this to come about, so that
    /// `Json::to_text` never returns it; the case is handled all the same.
    Write(String),
}

/// The message of `error`: that of serde_json where it has one.
pub open spec fn json_error_message(error: JsonError) -> Seq<char> {
    match error {
        JsonError::Syntax(cause) => cause@,
        JsonError::NotWritable => "value cannot be written as JSON"@,
        JsonError::Write(cause) => cause@,
    }
}

impl JsonError {
    /// The message of the error.
    pub fn message(&self) -> (text: String)
        ensures
            text@ == json_error_message(*self),
    {
        match self {
            JsonError::Syntax(cause) => cause.clone(),
            JsonError::NotWritable => "value cannot be written as JSON".to_owned(),
            JsonError::Write(cause) => cause.clone(),
        }
    }
}

/// One level of a `serde_json::Value`.
enum Node<'a> {
    Null,
    Bool(bool),
    Int(i64),
    OtherNumber,
    Str(&'a String),
    Array(&'a Vec<serde_json::Value>),
    Object(Vec<(&'a String, &'a serde_json::Value)>),
}

spec fn node_json(node: Node) -> JsonView {
    match node {
        Node::Null => JsonView::Null,
        Node::Bool(b) => JsonView::Bool(b),
        Node::Int(i) => JsonView::Int(i),
        Node::OtherNumber => JsonView::OtherNumber,
        Node::Str(s) => JsonView::Str(s@),
        Node::Array(items) => JsonView::Array(
            Seq::new(items@.len(), |i: int| value_json(items@[i])),
        ),
        Node::Object(members) => JsonView::Object(
            Seq::new(members@.len(), |i: int| (members@[i].0@, value_json(*members@[i].1))),
        ),
    }
}

/// One level of a value that is handed to serde_json.
enum Part {
    Null,
    Bool(bool),
    Int(i64),
    Str(String),
    Array(Vec<serde_json::Value>),
    Object(Vec<(String, serde_json::Value)>),
}

spec fn part_json(part: Part) -> JsonView {
    match part {
        Part::Null => JsonView::Null,
        Part::Bool(b) => JsonView::Bool(b),
        Part::Int(i) => JsonView::Int(i),
        Part::Str(s) => JsonView::Str(s@),
        Part::Array(items) => JsonView::Array(
            Seq::new(items@.len(), |i: int| value_json(items@[i])),
        ),
        Part::Object(members) => JsonView::Object(
            Seq::new(members@.len(), |i: int| (members@[i].0@, value_json(members@[i].1))),
        ),
    }
}

/// Calls `serde_json::from_str` for a `serde_json::Value`. Trusted: the
/// call depends on the text alone, so what the value holds is what
/// `json_of_text` names, and an error means that the text was rejected.
#[verifier::external_body]
fn read_value(text: &str) -> (read: Result<serde_json::Value, serde_json::Error>)
    ensures
        match read {
            Ok(value) => json_of_text(text@) == Some(value_json(value)),
            Err(_) => json_of_text(text@) is None,
        },
{
    serde_json::from_str(text)
}

/// Calls `serde_json::to_string` on a value. Trusted: the call succeeds, as
/// a `serde_json::Value` has strings for keys and the text is written into
/// memory, so that none of the failures of the writer can come about; and on
/// a value without an `OtherNumber` the text depends on what the value holds
/// alone, and is what `text_of_json` names. Of the text of a value with an
/// `OtherNumber` nothing is claimed, as `value_json` does not tell two such
/// numbers apart.
#[verifier::external_body]
fn write_value(value: &serde_json::Value) -> (written: Result<String, serde_json::Error>)
    ensures
        written is Ok,
        written matches Ok(text) ==> writable(value_json(*value)) ==> text@ == text_of_json(
            value_json(*value),
        ),
{
    serde_json::to_string(value)
}

/// Calls the `Display` of `serde_json::Error` through `to_string`. Nothing is
/// claimed of the message.
#[verifier::external_body]
fn error_text(error: &serde_json::Error) -> (text: String) {
    error.to_string()
}

/// Tells the variants of a `serde_json::Value` apart and hands out what the
/// variant holds: for a number what `serde_json::Number::as_i64` returns,
/// for an object the members as `serde_json::Map::iter` walks them, which is
/// the order in which they were added. Trusted: this is what `value_json`
/// names, one level deep.
#[verifier::external_body]
fn inspect(value: &serde_json::Value) -> (node: Node<'_>)
    ensures
        node_json(node) == value_json(*value),
{
    match value {
        serde_json::Value::Null => Node::Null,
        serde_json::Value::Bool(b) => Node::Bool(*b),
        serde_json::Value::Number(n) => match n.as_i64() {
            Some(i) => Node::Int(i),
            None => Node::OtherNumber,
        },
        serde_json::Value::String(s) => Node::Str(s),
        serde_json::Value::Array(items) => Node::Array(items),
        serde_json::Value::Object(map) => Node::Object(map.iter().collect()),
    }
}

/// Makes a `serde_json::Value` of the given variant: a number by
/// `serde_json::Value::from`, an object by collecting the members into a
/// `serde_json::Map`, which keeps them in their order. Trusted: the value
/// holds what was handed in. The keys of an object must differ, as a map
/// keeps one member for each key.
#[verifier::external_body]
fn compose(part: Part) -> (value: serde_json::Value)
    requires
        part matches Part::Object(members) ==> forall|i: int, j: int|
            0 <= i < j < members@.len() ==> (#[trigger] members@[i]).0@ != (
            #[trigger] members@[j]).0@,
    ensures
        value_json(value) == part_json(part),
{
    match part {
        Part::Null => serde_json::Value::Null,
        Part::Bool(b) => serde_json::Value::Bool(b),
        Part::Int(i) => serde_json::Value::from(i),
        Part::Str(s) => serde_json::Value::String(s),
        Part::Array(items) => serde_json::Value::Array(items),
        Part::Object(members) => serde_json::Value::Object(members.into_iter().collect()),
    }
}

/// Copies what a `serde_json::Value` holds into a `Json`.
fn lift(value: &serde_json::Value) -> (json: Json)
    ensures
        json.deep_view() == value_json(*value),
    decreases value_json(*value),
{
    match inspect(value) {
        Node::Null => Json::Null,
        Node::Bool(b) => Json::Bool(b),
        Node::Int(i) => Json::Int(i),
        Node::OtherNumber => Json::OtherNumber,
        Node::Str(s) => Json::Str(s.clone()),
        Node::Array(items) => {
            let ghost views = value_json(*value)->Array_0;
            let mut list: Vec<Json> = Vec::new();
            let mut i: usize = 0;
            while i < items.len()
                invariant
                    0 <= i <= items.len(),
                    value_json(*value) == JsonView::Array(views),
                    views.len() == items.len(),
                    forall|k: int| 0 <= k < items.len() ==> views[k] == value_json(items[k]),
                    list.len() == i,
                    forall|k: int| 0 <= k < i ==> json_view(list[k]) == views[k],
                decreases items.len() - i,
            {
                proof {
                    assert(decreases_to!(value_json(*value) => value_json(*value)->Array_0[i as int]));
                }
                list.push(lift(&items[i]));
                i = i + 1;
            }
            let json = Json::Array(list);
            proof {
                assert(json.deep_view()->Array_0 =~= views);
            }
            json
        },
        Node::Object(members) => {
            let ghost views = value_json(*value)->Object_0;
            let mut list: Vec<(String, Json)> = Vec::new();
            let mut i: usize = 0;
            while i < members.len()
                invariant
                    0 <= i <= members.len(),
                    value_json(*value) == JsonView::Object(views),
                    views.len() == members.len(),
                    forall|k: int|
                        0 <= k < members.len() ==> views[k] == (
                            members[k].0@,
                            value_json(*members[k].1),
                        ),
                    list.len() == i,
                    forall|k: int|
                        0 <= k < i ==> (list[k].0@, json_view(list[k].1)) == views[k],
                decreases members.len() - i,
            {
                proof {
                    assert(decreases_to!(value_json(*value) => value_json(*value)->Object_0[i as int].1));
                }
                let key = members[i].0.clone();
                let item = lift(members[i].1);
                list.push((key, item));
                i = i + 1;
            }
            let json = Json::Object(list);
            proof {
                assert(json.deep_view()->Object_0 =~= views);
            }
            json
        },
    }
}

/// Tells whether the keys of `members` differ from one another.
fn keys_differ(members: &Vec<(String, Json)>) -> (differ: bool)
    ensures
        differ == distinct_keys(Json::Object(*members).deep_view()->Object_0),
{
    let ghost views = Json::Object(*members).deep_view()->Object_0;
    let mut j: usize = 0;
    while j < members.len()
        invariant
            0 <= j <= members.len(),
            views == Json::Object(*members).deep_view()->Object_0,
            views.len() == members.len(),
            forall|k: int| 0 <= k < members.len() ==> (#[trigger] views[k]).0 == members[k].0@,
            forall|a: int, b: int|
                0 <= a < b < j ==> (#[trigger] views[a]).0 != (#[trigger] views[b]).0,
        decreases members.len() - j,
    {
        let mut i: usize = 0;
        while i < j
            invariant
                0 <= i <= j < members.len(),
                views == Json::Object(*members).deep_view()->Object_0,
                views.len() == members.len(),
                forall|k: int|
                    0 <= k < members.len() ==> (#[trigger] views[k]).0 == members[k].0@,
                forall|a: int| 0 <= a < i ==> (#[trigger] views[a]).0 != views[j as int].0,
            decreases j - i,
        {
            if members[i].0 == members[j].0 {
                proof {
                    assert(views[i as int].0 == views[j as int].0);
                }
                return false;
            }
            i = i + 1;
        }
        j = j + 1;
    }
    true
}

/// Makes the `serde_json::Value` that holds what `json` holds, where `json`
/// is writable.
fn lower(json: &Json) -> (lowered: Option<serde_json::Value>)
    ensures
        match lowered {
            Some(value) => writable(json.deep_view()) && value_json(value) == json.deep_view(),
            None => !writable(json.deep_view()),
        },
    decreases json,
{
    match json {
        Json::Null => Some(compose(Part::Null)),
        Json::Bool(b) => Some(compose(Part::Bool(*b))),
        Json::Int(i) => Some(compose(Part::Int(*i))),
        Json::OtherNumber => None,
        Json::Str(s) => Some(compose(Part::Str(s.clone()))),
        Json::Array(items) => {
            let ghost views = json.deep_view()->Array_0;
            let mut list: Vec<serde_json::Value> = Vec::new();
            let mut i: usize = 0;
            while i < items.len()
                invariant
                    0 <= i <= items.len(),
                    *json == Json::Array(*items),
                    json.deep_view() == JsonView::Array(views),
                    views.len() == items.len(),
                    forall|k: int| 0 <= k < items.len() ==> views[k] == json_view(items[k]),
                    list.len() == i,
                    forall|k: int| 0 <= k < i ==> writable(#[trigger] views[k]),
                    forall|k: int| 0 <= k < i ==> value_json(list[k]) == views[k],
                decreases items.len() - i,
            {
                proof {
                    assert(decreases_to!(json => json->Array_0@[i as int]));
                }
                match lower(&items[i]) {
                    Some(value) => {
                        list.push(value);
                    },
                    None => {
                        proof {
                            lemma_writable_array(views);
                            assert(!writable(views[i as int]));
                        }
                        return None;
                    },
                }
                i = i + 1;
            }
            let value = compose(Part::Array(list));
            proof {
                lemma_writable_array(views);
                assert(value_json(value)->Array_0 =~= views);
            }
            Some(value)
        },
        Json::Object(members) => {
            let ghost views = json.deep_view()->Object_0;
            if !keys_differ(members) {
                proof {
                    lemma_writable_object(views);
                }
                return None;
            }
            let mut list: Vec<(String, serde_json::Value)> = Vec::new();
            let mut i: usize = 0;
            while i < members.len()
                invariant
                    0 <= i <= members.len(),
                    *json == Json::Object(*members),
                    json.deep_view() == JsonView::Object(views),
                    distinct_keys(views),
                    views.len() == members.len(),
                    forall|k: int|
                        0 <= k < members.len() ==> views[k] == (
                            members[k].0@,
                            json_view(members[k].1),
                        ),
                    list.len() == i,
                    forall|k: int| 0 <= k < i ==> writable((#[trigger] views[k]).1),
                    forall|k: int|
                        0 <= k < i ==> (list[k].0@, value_json(list[k].1)) == views[k],
                decreases members.len() - i,
            {
                proof {
                    assert(decreases_to!(json => json->Object_0@[i as int].1));
                }
                match lower(&members[i].1) {
                    Some(value) => {
                        list.push((members[i].0.clone(), value));
                    },
                    None => {
                        proof {
                            lemma_writable_object(views);
                            assert(!writable(views[i as int].1));
                        }
                        return None;
                    },
                }
                i = i + 1;
            }
            proof {
                assert forall|a: int, b: int| 0 <= a < b < list@.len() implies (
                #[trigger] list@[a]).0@ != (#[trigger] list@[b]).0@ by {
                    assert(views[a].0 != views[b].0);
                }
            }
            let value = compose(Part::Object(list));
            proof {
                lemma_writable_object(views);
                assert(value_json(value)->Object_0 =~= views);
            }
            Some(value)
        },
    }
}

impl Json {
    /// Reads a JSON document.
    pub fn from_text(text: &str) -> (read: Result<Json, JsonError>)
        ensures
            match read {
                Ok(json) => json_of_text(text@) == Some(json.deep_view()),
                Err(error) => json_of_text(text@) is None && error is Syntax,
            },
    {
        match read_value(text) {
            Ok(value) => Ok(lift(&value)),
            Err(error) => Err(JsonError::Syntax(error_text(&error))),
        }
    }

    /// Writes the value as a JSON document. A value that is writable is
    /// written; one that is not gives `NotWritable`.
    pub fn to_text(&self) -> (written: Result<String, JsonError>)
        ensures
            match written {
                Ok(text) => writable(self.deep_view()) && text@ == text_of_json(self.deep_view()),
                Err(error) => !writable(self.deep_view()) && error is NotWritable,
            },
    {
        match lower(self) {
            Some(value) => match write_value(&value) {
                Ok(text) => Ok(text),
                Err(error) => Err(JsonError::Write(error_text(&error))),
            },
            None => Err(JsonError::NotWritable),
        }
    }
}

} // verus!

//! JSON values as far as the events need them: the members of an object in
//! their order, strings, booleans, integers that fit in an `i64`, and lists.

use vstd::prelude::*;

verus! {

/// A JSON value.
#[derive(Debug, PartialEq, Eq)]
pub enum Json {
    Null,
    Bool(bool),
    /// An integer between `i64::MIN` and `i64::MAX`.
    Int(i64),
    /// Any other number: one with a fraction or an exponent, or an integer
    /// beyond `i64`. No event holds one, so its value is not kept.
    OtherNumber,
    Str(String),
    Array(Vec<Json>),
    /// The members of an object, in the order of the document.
    Object(Vec<(String, Json)>),
}

/// `Json` as a mathematical value.
pub enum JsonView {
    Null,
    Bool(bool),
    Int(i64),
    OtherNumber,
    Str(Seq<char>),
    Array(Seq<JsonView>),
    Object(Seq<(Seq<char>, JsonView)>),
}

/// The mathematical value of `json`.
pub open spec fn json_view(json: Json) -> JsonView
    decreases json,
{
    match json {
        Json::Null => JsonView::Null,
        Json::Bool(b) => JsonView::Bool(b),
        Json::Int(i) => JsonView::Int(i),
        Json::OtherNumber => JsonView::OtherNumber,
        Json::Str(s) => JsonView::Str(s@),
        Json::Array(items) => JsonView::Array(
            Seq::new(
                items@.len(),
                |i: int|
                    if 0 <= i < items@.len() {
                        json_view(items@[i])
                    } else {
                        JsonView::Null
                    },
            ),
        ),
        Json::Object(members) => JsonView::Object(
            Seq::new(
                members@.len(),
                |i: int|
                    if 0 <= i < members@.len() {
                        (members@[i].0@, json_view(members@[i].1))
                    } else {
                        (Seq::empty(), JsonView::Null)
                    },
            ),
        ),
    }
}

impl DeepView for Json {
    type V = JsonView;

    open spec fn deep_view(&self) -> JsonView {
        json_view(*self)
    }
}

/// The value of the first of `members` from index `start` on whose key is
/// `key`.
pub open spec fn member_from(members: Seq<(Seq<char>, JsonView)>, key: Seq<char>, start: int)
    -> Option<JsonView>
    decreases members.len() - start,
{
    if start < 0 || start >= members.len() {
        None
    } else if members[start].0 == key {
        Some(members[start].1)
    } else {
        member_from(members, key, start + 1)
    }
}

/// The value of the first member of `json` whose key is `key`, where `json`
/// is an object that has one.
pub open spec fn member(json: JsonView, key: Seq<char>) -> Option<JsonView> {
    match json {
        JsonView::Object(members) => member_from(members, key, 0),
        _ => None,
    }
}

/// The string under `key`.
pub open spec fn text_member(json: JsonView, key: Seq<char>) -> Option<Seq<char>> {
    match member(json, key) {
        Some(JsonView::Str(text)) => Some(text),
        _ => None,
    }
}

/// The boolean under `key`.
pub open spec fn bool_member(json: JsonView, key: Seq<char>) -> Option<bool> {
    match member(json, key) {
        Some(JsonView::Bool(b)) => Some(b),
        _ => None,
    }
}

/// The integer under `key`.
pub open spec fn i64_member(json: JsonView, key: Seq<char>) -> Option<i64> {
    match member(json, key) {
        Some(JsonView::Int(i)) => Some(i),
        _ => None,
    }
}

/// The integer under `key`, where it fits in an `i32`.
pub open spec fn i32_member(json: JsonView, key: Seq<char>) -> Option<i32> {
    match member(json, key) {
        Some(JsonView::Int(i)) => if i32::MIN <= i <= i32::MAX {
            Some(i as i32)
        } else {
            None
        },
        _ => None,
    }
}

/// Every one of `items` is a string.
pub open spec fn all_text(items: Seq<JsonView>) -> bool {
    forall|i: int| 0 <= i < items.len() ==> #[trigger] items[i] is Str
}

/// The strings that `items` hold.
pub open spec fn texts(items: Seq<JsonView>) -> Seq<Seq<char>> {
    Seq::new(items.len(), |i: int| items[i]->Str_0)
}

/// The list of strings under `key`.
pub open spec fn text_list_member(json: JsonView, key: Seq<char>) -> Option<Seq<Seq<char>>> {
    match member(json, key) {
        Some(JsonView::Array(items)) => if all_text(items) {
            Some(texts(items))
        } else {
            None
        },
        _ => None,
    }
}

/// A list of strings as a JSON array.
pub open spec fn text_list(items: Seq<Seq<char>>) -> JsonView {
    JsonView::Array(Seq::new(items.len(), |i: int| JsonView::Str(items[i])))
}

/// A list of integers as a JSON array.
pub open spec fn int_list(items: Seq<i64>) -> JsonView {
    JsonView::Array(Seq::new(items.len(), |i: int| JsonView::Int(items[i])))
}

/// A member with another key, put in at any place, does not change what is
/// found under `key`.
pub proof fn lemma_member_ignores_other_keys(
    members: Seq<(Seq<char>, JsonView)>,
    at: int,
    extra: (Seq<char>, JsonView),
    key: Seq<char>,
)
    requires
        0 <= at <= members.len(),
        extra.0 != key,
    ensures
        member(JsonView::Object(members.insert(at, extra)), key) == member(
            JsonView::Object(members),
            key,
        ),
{
    lemma_member_from_insert(members, at, extra, key, 0);
}

proof fn lemma_member_from_insert(
    members: Seq<(Seq<char>, JsonView)>,
    at: int,
    extra: (Seq<char>, JsonView),
    key: Seq<char>,
    start: int,
)
    requires
        0 <= at <= members.len(),
        0 <= start <= members.len() + 1,
        extra.0 != key,
    ensures
        member_from(members.insert(at, extra), key, start) == if start <= at {
            member_from(members, key, start)
        } else {
            member_from(members, key, start - 1)
        },
    decreases members.len() + 1 - start,
{
    let longer = members.insert(at, extra);
    if start < longer.len() {
        lemma_member_from_insert(members, at, extra, key, start + 1);
        if start < at {
            assert(longer[start] == members[start]);
        } else if start == at {
            assert(longer[start] == extra);
        } else {
            assert(longer[start] == members[start - 1]);
        }
    }
}

impl Json {
    /// Makes a JSON string.
    pub fn text(text: &str) -> (json: Json)
        ensures
            json.deep_view() == JsonView::Str(text@),
    {
        Json::Str(text.to_owned())
    }

    /// Makes a JSON integer.
    pub fn integer(i: i64) -> (json: Json)
        ensures
            json.deep_view() == JsonView::Int(i),
    {
        Json::Int(i)
    }

    /// Makes a JSON boolean.
    pub fn boolean(b: bool) -> (json: Json)
        ensures
            json.deep_view() == JsonView::Bool(b),
    {
        Json::Bool(b)
    }

    /// Makes a JSON array of the given items.
    pub fn array(items: Vec<Json>) -> (json: Json)
        ensures
            json.deep_view() == JsonView::Array(items.deep_view()),
    {
        let json = Json::Array(items);
        proof {
            assert(json.deep_view()->Array_0 =~= items.deep_view());
        }
        json
    }

    /// Makes a JSON object of the given members, in their order.
    pub fn object(members: Vec<(String, Json)>) -> (json: Json)
        ensures
            json.deep_view() == JsonView::Object(members.deep_view()),
    {
        let json = Json::Object(members);
        proof {
            assert(json.deep_view()->Object_0 =~= members.deep_view());
        }
        json
    }

    /// Makes a member of a JSON object.
    pub fn member(key: &str, value: Json) -> (member: (String, Json))
        ensures
            member.deep_view() == (key@, value.deep_view()),
    {
        (key.to_owned(), value)
    }

    /// Looks up the first member with the given key.
    pub fn get(&self, key: &str) -> (found: Option<&Json>)
        ensures
            found.deep_view() == member(self.deep_view(), key@),
    {
        match self {
            Json::Object(members) => {
                let ghost views = self.deep_view()->Object_0;
                let wanted = key.to_owned();
                let mut i: usize = 0;
                while i < members.len()
                    invariant
                        0 <= i <= members.len(),
                        wanted@ == key@,
                        self.deep_view() == JsonView::Object(views),
                        views.len() == members.len(),
                        forall|k: int|
                            0 <= k < members.len() ==> views[k] == (
                                members[k].0@,
                                members[k].1.deep_view(),
                            ),
                        member_from(views, key@, 0) == member_from(views, key@, i as int),
                    decreases members.len() - i,
                {
                    if members[i].0 == wanted {
                        let found = Some(&members[i].1);
                        proof {
                            assert(member_from(views, key@, i as int) == Some(views[i as int].1));
                            assert(found.deep_view() == Some(views[i as int].1));
                        }
                        return found;
                    }
                    i = i + 1;
                }
                None
            },
            _ => None,
        }
    }

    /// Reads the string under `key`.
    pub fn text_member(&self, key: &str) -> (found: Option<String>)
        ensures
            found.deep_view() == text_member(self.deep_view(), key@),
    {
        match self.get(key) {
            Some(Json::Str(text)) => Some(text.clone()),
            _ => None,
        }
    }

    /// Reads the boolean under `key`.
    pub fn bool_member(&self, key: &str) -> (found: Option<bool>)
        ensures
            found == bool_member(self.deep_view(), key@),
    {
        match self.get(key) {
            Some(Json::Bool(b)) => Some(*b),
            _ => None,
        }
    }

    /// Reads the integer under `key`.
    pub fn i64_member(&self, key: &str) -> (found: Option<i64>)
        ensures
            found == i64_member(self.deep_view(), key@),
    {
        match self.get(key) {
            Some(Json::Int(i)) => Some(*i),
            _ => None,
        }
    }

    /// Reads the integer under `key`, where it fits in an `i32`.
    pub fn i32_member(&self, key: &str) -> (found: Option<i32>)
        ensures
            found == i32_member(self.deep_view(), key@),
    {
        match self.get(key) {
            Some(Json::Int(i)) => {
                if -0x8000_0000 <= *i && *i <= 0x7fff_ffff {
                    Some(*i as i32)
                } else {
                    None
                }
            },
            _ => None,
        }
    }

    /// Reads the list of strings under `key`. A list that holds anything but
    /// strings is no such list.
    pub fn text_list_member(&self, key: &str) -> (found: Option<Vec<String>>)
        ensures
            found.deep_view() == text_list_member(self.deep_view(), key@),
    {
        match self.get(key) {
            Some(Json::Array(items)) => {
                let ghost views = Json::Array(*items).deep_view()->Array_0;
                let mut list: Vec<String> = Vec::new();
                let mut i: usize = 0;
                while i < items.len()
                    invariant
                        0 <= i <= items.len(),
                        member(self.deep_view(), key@) == Some(JsonView::Array(views)),
                        views.len() == items.len(),
                        forall|k: int| 0 <= k < items.len() ==> views[k] == items[k].deep_view(),
                        list.len() == i,
                        forall|k: int| 0 <= k < i ==> #[trigger] views[k] is Str,
                        forall|k: int| 0 <= k < i ==> list[k]@ == views[k]->Str_0,
                    decreases items.len() - i,
                {
                    match &items[i] {
                        Json::Str(text) => {
                            list.push(text.clone());
                        },
                        _ => {
                            proof {
                                assert(!(views[i as int] is Str));
                            }
                            return None;
                        },
                    }
                    i = i + 1;
                }
                proof {
                    assert(list.deep_view() =~= texts(views));
                }
                Some(list)
            },
            _ => None,
        }
    }

    /// Makes a JSON array of strings.
    pub fn text_list(items: &Vec<String>) -> (json: Json)
        ensures
            json.deep_view() == text_list(items.deep_view()),
    {
        let mut list: Vec<Json> = Vec::new();
        let mut i: usize = 0;
        while i < items.len()
            invariant
                0 <= i <= items.len(),
                list.len() == i,
                forall|k: int| 0 <= k < i ==> list[k].deep_view() == JsonView::Str(items[k]@),
            decreases items.len() - i,
        {
            list.push(Json::Str(items[i].clone()));
            i = i + 1;
        }
        let json = Json::Array(list);
        proof {
            assert(json.deep_view()->Array_0 =~= text_list(items.deep_view())->Array_0);
        }
        json
    }

    /// Makes a JSON array of integers.
    pub fn int_list(items: &Vec<i64>) -> (json: Json)
        ensures
            json.deep_view() == int_list(items@),
    {
        let mut list: Vec<Json> = Vec::new();
        let mut i: usize = 0;
        while i < items.len()
            invariant
                0 <= i <= items.len(),
                list.len() == i,
                forall|k: int| 0 <= k < i ==> list[k].deep_view() == JsonView::Int(items[k]),
            decreases items.len() - i,
        {
            list.push(Json::Int(items[i]));
            i = i + 1;
        }
        let json = Json::Array(list);
        proof {
            assert(json.deep_view()->Array_0 =~= int_list(items@)->Array_0);
        }
        json
    }
}

} // verus!

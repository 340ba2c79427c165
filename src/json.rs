use vstd::prelude::*;

verus! {

/// A JSON document. Numbers keep the text that serde_json writes for them;
/// objects keep their members in the order serde_json hands them out.
#[derive(Debug, PartialEq)]
pub enum Json {
    Null,
    Bool(bool),
    Number(String),
    Str(String),
    Array(Vec<Json>),
    Object(Vec<(String, Json)>),
}

/// The mathematical value of a [`Json`] document.
pub enum JsonValue {
    Null,
    Bool(bool),
    Number(Seq<char>),
    Str(Seq<char>),
    Array(Seq<JsonValue>),
    Object(Seq<(Seq<char>, JsonValue)>),
}

pub open spec fn json_model(j: Json) -> JsonValue
    decreases j,
{
    match j {
        Json::Null => JsonValue::Null,
        Json::Bool(b) => JsonValue::Bool(b),
        Json::Number(t) => JsonValue::Number(t@),
        Json::Str(s) => JsonValue::Str(s@),
        Json::Array(items) => JsonValue::Array(items_model(items@)),
        Json::Object(members) => JsonValue::Object(members_model(members@)),
    }
}

pub open spec fn items_model(items: Seq<Json>) -> Seq<JsonValue>
    decreases items,
{
    if items.len() == 0 {
        Seq::empty()
    } else {
        items_model(items.drop_last()).push(json_model(items.last()))
    }
}

pub open spec fn members_model(members: Seq<(String, Json)>) -> Seq<(Seq<char>, JsonValue)>
    decreases members,
{
    if members.len() == 0 {
        Seq::empty()
    } else {
        members_model(members.drop_last()).push(
            (members.last().0@, json_model(members.last().1)),
        )
    }
}

impl View for Json {
    type V = JsonValue;

    open spec fn view(&self) -> JsonValue {
        json_model(*self)
    }
}


#[verifier::external_type_specification]
#[verifier::external_body]
pub struct ExValue(serde_json::Value);

/// The document that serde_json reads from a text, or `None` where the text
/// is not one JSON document.
pub uninterp spec fn parsed_json(text: Seq<char>) -> Option<JsonValue>;

/// Relies on serde_json::from_str into serde_json::Value: the document read
/// from the text, or an error where the text is not JSON. The result depends
/// on the text alone.
#[verifier::external_body]
pub(crate) fn parse_json(text: &str) -> (r: Option<Json>)
    ensures
        match r {
            Some(j) => parsed_json(text@) == Some(j@),
            None => parsed_json(text@) is None,
        },
{
    serde_json::from_str::<serde_json::Value>(text).ok().map(from_value)
}

/// Relies on the variants of serde_json::Value: each one moves into the
/// variant of the same name, a number as the text serde_json writes for it.
/// Only `parse_json` uses it, to hand its result over.
#[verifier::external_body]
fn from_value(v: serde_json::Value) -> Json {
    match v {
        serde_json::Value::Null => Json::Null,
        serde_json::Value::Bool(b) => Json::Bool(b),
        serde_json::Value::Number(n) => Json::Number(n.to_string()),
        serde_json::Value::String(s) => Json::Str(s),
        serde_json::Value::Array(a) => Json::Array(a.into_iter().map(from_value).collect()),
        serde_json::Value::Object(m) => Json::Object(
            m.into_iter().map(|(k, v)| (k, from_value(v))).collect(),
        ),
    }
}

/// The value of the first member named `key`, if any.
pub open spec fn member(members: Seq<(Seq<char>, JsonValue)>, key: Seq<char>) -> Option<JsonValue>
    decreases members.len(),
{
    if members.len() == 0 {
        None
    } else if members[0].0 == key {
        Some(members[0].1)
    } else {
        member(members.drop_first(), key)
    }
}

/// The member `key` of an object; `None` for anything that is not an object.
pub open spec fn field(j: JsonValue, key: Seq<char>) -> Option<JsonValue> {
    match j {
        JsonValue::Object(members) => member(members, key),
        _ => None,
    }
}

pub(crate) proof fn lemma_members_model_index(members: Seq<(String, Json)>, i: int)
    requires
        0 <= i < members.len(),
    ensures
        members_model(members).len() == members.len(),
        members_model(members)[i] == (members[i].0@, json_model(members[i].1)),
    decreases members.len(),
{
    lemma_members_model_len(members.drop_last());
    if i < members.len() - 1 {
        lemma_members_model_index(members.drop_last(), i);
    }
}

pub(crate) proof fn lemma_members_model_len(members: Seq<(String, Json)>)
    ensures
        members_model(members).len() == members.len(),
    decreases members.len(),
{
    if members.len() > 0 {
        lemma_members_model_len(members.drop_last());
    }
}

pub(crate) proof fn lemma_items_model_index(items: Seq<Json>, i: int)
    requires
        0 <= i < items.len(),
    ensures
        items_model(items).len() == items.len(),
        items_model(items)[i] == json_model(items[i]),
    decreases items.len(),
{
    lemma_items_model_len(items.drop_last());
    if i < items.len() - 1 {
        lemma_items_model_index(items.drop_last(), i);
    }
}

pub(crate) proof fn lemma_items_model_len(items: Seq<Json>)
    ensures
        items_model(items).len() == items.len(),
    decreases items.len(),
{
    if items.len() > 0 {
        lemma_items_model_len(items.drop_last());
    }
}

/// Whether two texts are the same characters.
pub fn same_text(a: &str, b: &str) -> (r: bool)
    ensures
        r == (a@ == b@),
{
    let x = a.to_owned();
    let y = b.to_owned();
    x == y
}

/// The index of the first member named `key`.
pub fn member_index(members: &Vec<(String, Json)>, key: &str) -> (r: Option<usize>)
    ensures
        match r {
            Some(i) => i < members.len() && member(members_model(members@), key@) == Some(
                json_model(members@[i as int].1),
            ),
            None => member(members_model(members@), key@) is None,
        },
{
    let ghost all = members_model(members@);
    proof {
        lemma_members_model_len(members@);
        assert(all.skip(0) =~= all);
    }
    let mut i: usize = 0;
    while i < members.len()
        invariant
            i <= members.len(),
            all == members_model(members@),
            all.len() == members.len(),
            member(all, key@) == member(all.skip(i as int), key@),
        decreases members.len() - i,
    {
        proof {
            lemma_members_model_index(members@, i as int);
            assert(all.skip(i as int).drop_first() =~= all.skip(i + 1));
        }
        if same_text(members[i].0.as_str(), key) {
            return Some(i);
        }
        i = i + 1;
    }
    None
}

/// The value of the member `key` of an object; `None` for anything that is
/// not an object or has no such member.
pub fn get_field<'a>(j: &'a Json, key: &str) -> (r: Option<&'a Json>)
    ensures
        match r {
            Some(v) => field(j@, key@) == Some(v@),
            None => field(j@, key@) is None,
        },
{
    match j {
        Json::Object(members) => {
            match member_index(members, key) {
                Some(i) => Some(&members[i].1),
                None => None,
            }
        },
        _ => None,
    }
}

impl Json {
    /// A copy of the document.
    pub fn duplicate(&self) -> (r: Json)
        ensures
            r@ == self@,
        decreases self,
    {
        match self {
            Json::Null => Json::Null,
            Json::Bool(b) => Json::Bool(*b),
            Json::Number(t) => Json::Number(t.clone()),
            Json::Str(s) => Json::Str(s.clone()),
            Json::Array(items) => Json::Array(duplicate_items(items)),
            Json::Object(members) => Json::Object(duplicate_members(members)),
        }
    }
}

fn duplicate_items(items: &Vec<Json>) -> (r: Vec<Json>)
    ensures
        items_model(r@) == items_model(items@),
    decreases items,
{
    let mut out: Vec<Json> = Vec::new();
    let mut i: usize = 0;
    while i < items.len()
        invariant
            i <= items.len(),
            out.len() == i,
            forall|k: int| 0 <= k < i ==> json_model(#[trigger] out@[k]) == json_model(items@[k]),
        decreases items.len() - i,
    {
        proof {
            assert(decreases_to!(*items => items[i as int]));
        }
        let c = items[i].duplicate();
        out.push(c);
        i = i + 1;
    }
    proof {
        lemma_items_models_agree(out@, items@);
    }
    out
}

fn duplicate_members(members: &Vec<(String, Json)>) -> (r: Vec<(String, Json)>)
    ensures
        members_model(r@) == members_model(members@),
    decreases members,
{
    let mut out: Vec<(String, Json)> = Vec::new();
    let mut i: usize = 0;
    while i < members.len()
        invariant
            i <= members.len(),
            out.len() == i,
            forall|k: int|
                0 <= k < i ==> (#[trigger] out@[k]).0@ == members@[k].0@ && json_model(out@[k].1)
                    == json_model(members@[k].1),
        decreases members.len() - i,
    {
        proof {
            assert(decreases_to!(*members => members[i as int]));
            assert(decreases_to!(members[i as int] => members[i as int].1));
        }
        let c = members[i].1.duplicate();
        out.push((members[i].0.clone(), c));
        i = i + 1;
    }
    proof {
        lemma_members_models_agree(out@, members@);
    }
    out
}

proof fn lemma_items_models_agree(a: Seq<Json>, b: Seq<Json>)
    requires
        a.len() == b.len(),
        forall|k: int| 0 <= k < a.len() ==> json_model(#[trigger] a[k]) == json_model(b[k]),
    ensures
        items_model(a) == items_model(b),
    decreases a.len(),
{
    if a.len() > 0 {
        lemma_items_models_agree(a.drop_last(), b.drop_last());
    }
}

proof fn lemma_members_models_agree(a: Seq<(String, Json)>, b: Seq<(String, Json)>)
    requires
        a.len() == b.len(),
        forall|k: int|
            0 <= k < a.len() ==> (#[trigger] a[k]).0@ == b[k].0@ && json_model(a[k].1) == json_model(b[k].1),
    ensures
        members_model(a) == members_model(b),
    decreases a.len(),
{
    if a.len() > 0 {
        lemma_members_models_agree(a.drop_last(), b.drop_last());
    }
}

} // verus!

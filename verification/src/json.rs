//! JSON-like values: what a variable of the context holds.

use vstd::prelude::*;

verus! {

/// The mathematical model of a member of an object: its name and its value.
pub struct MemberModel {
    pub name: Seq<char>,
    pub value: JsonModel,
}

/// The mathematical model of a [`Json`] value.
pub enum JsonModel {
    Null,
    Bool(bool),
    Int(int),
    Decimal(Seq<char>),
    Str(Seq<char>),
    Array(Seq<JsonModel>),
    Object(Seq<MemberModel>),
}

/// A JSON-like value.
#[derive(Debug, PartialEq, Eq)]
pub enum Json {
    /// `null`.
    Null,
    /// `true` or `false`.
    Bool(bool),
    /// A number that is a whole number within `i64`.
    Int(i64),
    /// Any other number, in the notation of JSON. A text that is no number of JSON counts
    /// as `null` wherever a template reads it.
    Decimal(String),
    /// A string.
    Str(String),
    /// A list of values.
    Array(Vec<Json>),
    /// Named members, in order.
    Object(Vec<(String, Json)>),
}

impl View for Json {
    type V = JsonModel;

    open spec fn view(&self) -> JsonModel
        decreases self,
    {
        match self {
            Json::Null => JsonModel::Null,
            Json::Bool(b) => JsonModel::Bool(*b),
            Json::Int(i) => JsonModel::Int(*i as int),
            Json::Decimal(t) => JsonModel::Decimal(t@),
            Json::Str(s) => JsonModel::Str(s@),
            Json::Array(items) => JsonModel::Array(
                Seq::new(
                    items@.len(),
                    |i: int|
                        if 0 <= i < items@.len() {
                            items@[i].view()
                        } else {
                            JsonModel::Null
                        },
                ),
            ),
            Json::Object(members) => JsonModel::Object(
                Seq::new(
                    members@.len(),
                    |i: int|
                        if 0 <= i < members@.len() {
                            MemberModel { name: members@[i].0@, value: members@[i].1.view() }
                        } else {
                            MemberModel { name: Seq::empty(), value: JsonModel::Null }
                        },
                ),
            ),
        }
    }
}

/// The members of an object's model are the models of its members.
pub proof fn lemma_object_view(members: Vec<(String, Json)>)
    ensures
        Json::Object(members)@ is Object,
        Json::Object(members)@->Object_0.len() == members@.len(),
        forall|i: int|
            0 <= i < members@.len() ==> #[trigger] Json::Object(members)@->Object_0[i]
                == (MemberModel { name: members@[i].0@, value: members@[i].1@ }),
{
}

impl Clone for Json {
    #[verifier::loop_isolation(false)]
    fn clone(&self) -> (copy: Json)
        ensures
            copy@ == self@,
        decreases self,
    {
        match self {
            Json::Null => Json::Null,
            Json::Bool(b) => Json::Bool(*b),
            Json::Int(i) => Json::Int(*i),
            Json::Decimal(t) => Json::Decimal(t.clone()),
            Json::Str(s) => Json::Str(s.clone()),
            Json::Array(items) => {
                let mut copies: Vec<Json> = Vec::new();
                let mut i: usize = 0;
                while i < items.len()
                    invariant
                        i <= items.len(),
                        copies.len() == i,
                        forall|k: int| 0 <= k < i ==> (#[trigger] copies@[k])@ == items@[k]@,
                    decreases items.len() - i,
                {
                    proof {
                        assert(decreases_to!(items => items[i as int]));
                    }
                    copies.push(items[i].clone());
                    i += 1;
                }
                let copy = Json::Array(copies);
                assert(copy@ =~= self@) by {
                    assert(copy@->Array_0 =~= self@->Array_0);
                }
                copy
            },
            Json::Object(members) => {
                let mut copies: Vec<(String, Json)> = Vec::new();
                let mut i: usize = 0;
                while i < members.len()
                    invariant
                        i <= members.len(),
                        copies.len() == i,
                        forall|k: int|
                            0 <= k < i ==> (#[trigger] copies@[k]).0@ == members@[k].0@
                                && copies@[k].1@ == members@[k].1@,
                    decreases members.len() - i,
                {
                    proof {
                        assert(decreases_to!(members => members[i as int]));
                        assert(decreases_to!(members[i as int] => members[i as int].1));
                    }
                    copies.push((members[i].0.clone(), members[i].1.clone()));
                    i += 1;
                }
                let copy = Json::Object(copies);
                assert(copy@ =~= self@) by {
                    assert forall|k: int| 0 <= k < copies@.len() implies copy@->Object_0[k]
                        == self@->Object_0[k] by {
                        assert(copies@[k].0@ == members@[k].0@);
                    }
                    assert(copy@->Object_0 =~= self@->Object_0);
                }
                copy
            },
        }
    }
}

impl Json {
    /// Whether the value is `null`.
    pub fn is_null(&self) -> (b: bool)
        ensures
            b == (self@ == JsonModel::Null),
    {
        match self {
            Json::Null => true,
            _ => false,
        }
    }
}

/// What `serde_json` makes of a JSON text: the value it stands for, or the parser's
/// message where it is not JSON.
pub uninterp spec fn json_parse(text: Seq<char>) -> Result<JsonModel, Seq<char>>;

/// The model of a parse result.
pub open spec fn parsed_view(r: Result<Json, String>) -> Result<JsonModel, Seq<char>> {
    match r {
        Ok(v) => Ok(v@),
        Err(e) => Err(e@),
    }
}

/// `serde_json::Value`, which the library only hands from one outside call to the next.
#[verifier::external_type_specification]
#[verifier::external_body]
pub struct ExSerdeValue(serde_json::Value);

/// Turns a value of `serde_json` into one of this library, variant by variant.
#[verifier::external_body]
fn import_value(v: serde_json::Value) -> Json {
    match v {
        serde_json::Value::Null => Json::Null,
        serde_json::Value::Bool(b) => Json::Bool(b),
        serde_json::Value::Number(n) => match n.as_i64() {
            Some(i) => Json::Int(i),
            None => Json::Decimal(n.to_string()),
        },
        serde_json::Value::String(s) => Json::Str(s),
        serde_json::Value::Array(a) => Json::Array(a.into_iter().map(import_value).collect()),
        serde_json::Value::Object(o) => Json::Object(
            o.into_iter().map(|(k, m)| (k, import_value(m))).collect(),
        ),
    }
}

/// Parses a JSON text with `serde_json::from_str`. The result is whatever that parser
/// makes of the text, which the contract names and does not describe.
#[verifier::external_body]
pub(crate) fn parse_json(text: &str) -> (r: Result<Json, String>)
    ensures
        parsed_view(r) == json_parse(text@),
{
    match serde_json::from_str::<serde_json::Value>(text) {
        Ok(v) => Ok(import_value(v)),
        Err(e) => Err(e.to_string()),
    }
}

} // verus!

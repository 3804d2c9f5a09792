//! JSON documents, as far as chat components and pack metadata need them.

use vstd::prelude::*;

use crate::named;
use crate::text::str_eq;

verus! {

/// A parsed JSON document. Of a number only its value as an unsigned integer
/// is kept, where it has one.
#[derive(Debug)]
pub enum Json {
    Null,
    Bool(bool),
    Number(Option<u64>),
    String(String),
    Array(Vec<Json>),
    Object(Vec<Member>),
}

/// One name of an object and its value.
#[derive(Debug)]
pub struct Member {
    pub name: String,
    pub value: Json,
}

/// What a [`Json`] document says.
pub enum JsonModel {
    Null,
    Bool(bool),
    Number(Option<u64>),
    String(Seq<char>),
    Array(Seq<JsonModel>),
    Object(Seq<(Seq<char>, JsonModel)>),
}

/// The model of one document.
pub open spec fn json_model(value: Json) -> JsonModel
    decreases value,
{
    match value {
        Json::Null => JsonModel::Null,
        Json::Bool(b) => JsonModel::Bool(b),
        Json::Number(n) => JsonModel::Number(n),
        Json::String(s) => JsonModel::String(s@),
        Json::Array(items) => JsonModel::Array(json_models(items@)),
        Json::Object(members) => JsonModel::Object(member_models(members@)),
    }
}

pub open spec fn json_models(items: Seq<Json>) -> Seq<JsonModel>
    decreases items,
{
    if items.len() == 0 {
        Seq::empty()
    } else {
        json_models(items.drop_last()).push(json_model(items.last()))
    }
}

pub open spec fn member_models(members: Seq<Member>) -> Seq<(Seq<char>, JsonModel)>
    decreases members,
{
    if members.len() == 0 {
        Seq::empty()
    } else {
        member_models(members.drop_last()).push(
            (members.last().name@, json_model(members.last().value)),
        )
    }
}

impl View for Json {
    type V = JsonModel;

    open spec fn view(&self) -> JsonModel {
        json_model(*self)
    }
}

pub proof fn lemma_json_models(items: Seq<Json>)
    ensures
        json_models(items).len() == items.len(),
        forall|i: int| 0 <= i < items.len() ==> #[trigger] json_models(items)[i] == items[i]@,
    decreases items.len(),
{
    if items.len() > 0 {
        lemma_json_models(items.drop_last());
    }
}

pub proof fn lemma_member_models(members: Seq<Member>)
    ensures
        member_models(members).len() == members.len(),
        forall|i: int|
            0 <= i < members.len() ==> #[trigger] member_models(members)[i] == (
                members[i].name@,
                members[i].value@,
            ),
    decreases members.len(),
{
    if members.len() > 0 {
        lemma_member_models(members.drop_last());
    }
}

/// What an object holds under a name; nothing for any other document.
pub open spec fn json_get(value: JsonModel, name: Seq<char>) -> Option<JsonModel> {
    match value {
        JsonModel::Object(members) => named::lookup(members, name),
        _ => None,
    }
}

/// The model of the document that `serde_json` reads in a text.
pub uninterp spec fn json_of(text: Seq<char>) -> Option<JsonModel>;

/// `serde_json::Value`, which only passes through here.
#[verifier::external_type_specification]
#[verifier::external_body]
pub struct ExValue(serde_json::Value);

/// Takes a `serde_json` value apart into a [`Json`] document, one for one.
#[verifier::external_body]
fn from_value(value: serde_json::Value) -> Json {
    match value {
        serde_json::Value::Null => Json::Null,
        serde_json::Value::Bool(b) => Json::Bool(b),
        serde_json::Value::Number(n) => Json::Number(n.as_u64()),
        serde_json::Value::String(s) => Json::String(s),
        serde_json::Value::Array(items) => Json::Array(items.into_iter().map(from_value).collect()),
        serde_json::Value::Object(map) => Json::Object(
            map.into_iter().map(|(name, v)| Member { name, value: from_value(v) }).collect(),
        ),
    }
}

/// `serde_json::from_str`: the document that a text holds, or nothing where the
/// text is not one JSON document. Which document that is, is named `json_of`
/// and not stated further.
#[verifier::external_body]
pub(crate) fn parse_json(text: &str) -> (r: Option<Json>)
    ensures
        match json_of(text@) {
            Some(model) => r matches Some(value) && value@ == model,
            None => r is None,
        },
{
    serde_json::from_str(text).ok().map(from_value)
}

impl Json {
    /// The value of an object's member.
    pub fn get(&self, name: &str) -> (r: Option<&Json>)
        ensures
            match json_get(self@, name@) {
                Some(model) => r matches Some(value) && value@ == model,
                None => r is None,
            },
            r matches Some(value) ==> decreases_to!(*self => *value),
    {
        match self {
            Json::Object(members) => {
                let mut n: usize = members.len();
                let ghost models = member_models(members@);
                proof {
                    lemma_member_models(members@);
                    assert(models.subrange(0, n as int) =~= models);
                }
                while n > 0
                    invariant
                        n <= members@.len(),
                        models == member_models(members@),
                        models.len() == members@.len(),
                        *self == Json::Object(*members),
                        self@ == JsonModel::Object(models),
                        forall|i: int|
                            0 <= i < models.len() ==> #[trigger] models[i] == (
                                members@[i].name@,
                                members@[i].value@,
                            ),
                        named::find_last(models, name@) == named::find_last(
                            models.subrange(0, n as int),
                            name@,
                        ),
                    decreases n,
                {
                    let member = &members[n - 1];
                    proof {
                        assert(models[n - 1] == (
                            members@[n - 1].name@,
                            members@[n - 1].value@,
                        ));
                        assert(models.subrange(0, n as int).drop_last() =~= models.subrange(
                            0,
                            n - 1,
                        ));
                    }
                    if str_eq(member.name.as_str(), name) {
                        proof {
                            assert(decreases_to!(members@ => members@[n - 1]));
                            assert(decreases_to!(members@[n - 1] => members@[n - 1].value));
                        }
                        return Some(&member.value);
                    }
                    n = n - 1;
                }
                None
            },
            _ => None,
        }
    }
}

/// Whether pack metadata names a numeric format: an unsigned `pack_format`
/// inside `pack`.
pub open spec fn has_pack_format(value: JsonModel) -> bool {
    json_get(value, "pack"@) matches Some(pack) && json_get(pack, "pack_format"@) matches Some(
        JsonModel::Number(Some(_)),
    )
}

pub fn pack_format_present(value: &Json) -> (r: bool)
    ensures
        r == has_pack_format(value@),
{
    match value.get("pack") {
        Some(pack) => match pack.get("pack_format") {
            Some(Json::Number(Some(_))) => true,
            _ => false,
        },
        None => false,
    }
}

/// An object gives its member of a name, the last of that name, and nothing else has
/// members.
pub proof fn objects_give_their_members(
    members: Seq<(Seq<char>, JsonModel)>,
    name: Seq<char>,
    value: JsonModel,
    other: Seq<char>,
)
    ensures
        json_get(JsonModel::Object(members.push((name, value))), name) == Some(value),
        other != name ==> json_get(JsonModel::Object(members.push((name, value))), other)
            == json_get(JsonModel::Object(members), other),
        value !is Object ==> json_get(value, name) is None,
{
    named::later_names_win(members, name, value, name);
    named::later_names_win(members, name, value, other);
}

/// The metadata of a pack names a format by a number under `pack` and `pack_format`; a
/// format that is no number, or is missing, is none.
pub proof fn pack_formats_are_numbers(
    members: Seq<(Seq<char>, JsonModel)>,
    inner: Seq<(Seq<char>, JsonModel)>,
    format: JsonModel,
)
    ensures
        has_pack_format(
            JsonModel::Object(
                members.push(
                    ("pack"@, JsonModel::Object(inner.push(("pack_format"@, format)))),
                ),
            ),
        ) <==> (format matches JsonModel::Number(Some(_))),
        json_get(JsonModel::Object(members), "pack"@) is None ==> !has_pack_format(
            JsonModel::Object(members),
        ),
{
    named::later_names_win(inner, "pack_format"@, format, "pack_format"@);
    named::later_names_win(
        members,
        "pack"@,
        JsonModel::Object(inner.push(("pack_format"@, format))),
        "pack"@,
    );
}

} // verus!

//! JSON values, as `serde_json` holds, reads and writes them. Verus believes the contracts of the
//! functions in this file without proof.

use vstd::prelude::*;

verus! {

/// A JSON value. A number is taken as the text that it is written as.
pub enum Json {
    Null,
    Bool(bool),
    Number(Seq<char>),
    Text(Seq<char>),
    Array(Seq<Json>),
    Object(Map<Seq<char>, Json>),
}

/// A JSON value that `serde_json` holds.
#[verifier::external_type_specification]
#[verifier::external_body]
pub struct ExValue(serde_json::Value);

/// The members of a JSON object that `serde_json` holds.
#[verifier::external_type_specification]
#[verifier::external_body]
#[verifier::reject_recursive_types(K)]
#[verifier::reject_recursive_types(V)]
pub struct ExMap<K, V>(serde_json::Map<K, V>);

/// Why `serde_json` could not read a text.
#[verifier::external_type_specification]
#[verifier::external_body]
pub struct ExError(serde_json::Error);

/// What a value holds.
pub uninterp spec fn value_json(value: serde_json::Value) -> Json;

/// What the members of an object hold.
pub uninterp spec fn members_json(
    members: serde_json::Map<String, serde_json::Value>,
) -> Map<Seq<char>, Json>;

/// What `serde_json::from_str` reads from a text; nothing where it reports an error.
pub uninterp spec fn parsed_json(text: Seq<char>) -> Option<Json>;

/// What a value is written as without line breaks and indentation, the members of an object in the
/// order of their names.
pub uninterp spec fn rendered_json(value: Json) -> Seq<char>;

/// The member of `value` with this name, where `value` is an object that has it.
pub open spec fn json_member(value: Json, name: Seq<char>) -> Option<Json> {
    match value {
        Json::Object(members) => if members.contains_key(name) {
            Some(members[name])
        } else {
            None
        },
        _ => None,
    }
}

/// The characters of `value`, where it is a string.
pub open spec fn json_text(value: Json) -> Option<Seq<char>> {
    match value {
        Json::Text(text) => Some(text),
        _ => None,
    }
}

/// A string, or null where there is none.
pub open spec fn optional_json(text: Option<Seq<char>>) -> Json {
    match text {
        Some(text) => Json::Text(text),
        None => Json::Null,
    }
}

/// Whether a member name is out of the way of the names that begin with a dollar sign, which
/// `serde_json` keeps for itself.
pub open spec fn plain_name(name: Seq<char>) -> bool {
    name.len() > 0 && name[0] != '$'
}

/// Whether `value` is made of strings, nulls and at most `depth` levels of objects with plain
/// names.
pub open spec fn plain_json(value: Json, depth: nat) -> bool
    decreases depth,
{
    match value {
        Json::Null => true,
        Json::Text(_) => true,
        Json::Object(members) => depth > 0 && forall|name: Seq<char>| #[trigger]
            members.contains_key(name) ==> plain_name(name) && plain_json(
                members[name],
                (depth - 1) as nat,
            ),
        _ => false,
    }
}

/// Calls `serde_json::from_str` for a `serde_json::Value`. The contract names what it reads, and
/// says that an error is what there is when it reads nothing.
#[verifier::external_body]
pub(crate) fn parse_json(text: &str) -> (r: Result<serde_json::Value, serde_json::Error>)
    ensures
        match r {
            Ok(value) => parsed_json(text@) == Some(value_json(value)),
            Err(_) => parsed_json(text@) is None,
        },
{
    serde_json::from_str(text)
}

/// Calls `serde_json::Value::get` with a name: the member of an object, and nothing where there
/// is no such member or the value is no object.
#[verifier::external_body]
pub(crate) fn get_member<'a>(value: &'a serde_json::Value, name: &str) -> (r: Option<
    &'a serde_json::Value,
>)
    ensures
        match r {
            Some(member) => json_member(value_json(*value), name@) == Some(value_json(*member)),
            None => json_member(value_json(*value), name@) is None,
        },
{
    value.get(name)
}

/// Calls `serde_json::Value::as_str`: the characters of a string, and nothing for any other value.
#[verifier::external_body]
pub(crate) fn as_text(value: &serde_json::Value) -> (r: Option<&str>)
    ensures
        match r {
            Some(text) => json_text(value_json(*value)) == Some(text@),
            None => json_text(value_json(*value)) is None,
        },
{
    value.as_str()
}

/// Calls `serde_json::Value::from` for an optional string: a string, or null.
#[verifier::external_body]
pub(crate) fn optional_value(text: Option<String>) -> (r: serde_json::Value)
    ensures
        value_json(r) == optional_json(crate::text::opt_text(text)),
{
    serde_json::Value::from(text)
}

/// Calls `serde_json::Map::new`: no members.
#[verifier::external_body]
pub(crate) fn no_members() -> (r: serde_json::Map<String, serde_json::Value>)
    ensures
        (members_json(r) == Map::<Seq<char>, Json>::empty()),
{
    serde_json::Map::new()
}

/// Calls `serde_json::Map::insert`: the member now has the value, whether it was there before or
/// not, and the value that it had comes back.
#[verifier::external_body]
pub(crate) fn insert_member(
    members: &mut serde_json::Map<String, serde_json::Value>,
    name: String,
    value: serde_json::Value,
) -> (r: Option<serde_json::Value>)
    ensures
        members_json(*final(members)) == members_json(*old(members)).insert(
            name@,
            value_json(value),
        ),
        match r {
            Some(held) => members_json(*old(members)).contains_key(name@) && members_json(
                *old(members),
            )[name@] == value_json(held),
            None => !members_json(*old(members)).contains_key(name@),
        },
{
    members.insert(name, value)
}

/// Makes a `serde_json::Value::Object` of its members.
#[verifier::external_body]
pub(crate) fn object_value(members: serde_json::Map<String, serde_json::Value>) -> (r:
    serde_json::Value)
    ensures
        value_json(r) == Json::Object(members_json(members)),
{
    serde_json::Value::Object(members)
}

/// Calls the `to_string` of a `serde_json::Value`, which writes it in the compact form. The
/// contract names the text and adds two facts about it: it holds no line break, since those in
/// strings are escaped, and a plain value is read back as it was.
#[verifier::external_body]
pub(crate) fn render_json(value: &serde_json::Value) -> (r: String)
    ensures
        r@ == rendered_json(value_json(*value)),
        !r@.contains('\n'),
        plain_json(value_json(*value), 2) ==> parsed_json(r@) == Some(value_json(*value)),
{
    value.to_string()
}

} // verus!

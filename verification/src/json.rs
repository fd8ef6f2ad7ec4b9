//! JSON values in their canonical text.

use vstd::prelude::*;

verus! {

/// The outside type `serde_json::Map`.
#[verifier::external_type_specification]
#[verifier::external_body]
#[verifier::reject_recursive_types(K)]
#[verifier::reject_recursive_types(V)]
pub struct ExJsonMap<K, V>(serde_json::Map<K, V>);

/// The outside type `serde_json::Value`.
#[verifier::external_type_specification]
#[verifier::external_body]
pub struct ExJsonValue(serde_json::Value);

/// The compact text of the JSON value that `text` writes, or the error's text.
pub uninterp spec fn canonical_json(text: Seq<char>) -> Result<Seq<char>, Seq<char>>;

/// The compact texts of the values that a JSON object holds.
pub uninterp spec fn object_contents(map: serde_json::Map<String, serde_json::Value>) -> Map<
    Seq<char>,
    Seq<char>,
>;

/// Why a text or a value is not JSON.
#[derive(Debug, PartialEq, Eq)]
pub struct JsonError {
    pub message: String,
}

/// A JSON value, held as its compact text.
#[derive(Debug, PartialEq, Eq)]
pub struct Json {
    text: String,
}

/// The mathematical value of a text or an error.
pub open spec fn json_text_outcome(r: Result<String, JsonError>) -> Result<Seq<char>, Seq<char>> {
    match r {
        Ok(t) => Ok(t@),
        Err(e) => Err(e.message@),
    }
}

/// The mathematical value of a parse result.
pub open spec fn json_outcome(r: Result<Json, JsonError>) -> Result<Seq<char>, Seq<char>> {
    match r {
        Ok(j) => Ok(j@),
        Err(e) => Err(e.message@),
    }
}

/// `serde_json::from_str` into a value, and `Value::to_string`: the value's compact text.
#[verifier::external_body]
fn compact_text(text: &str) -> (r: Result<String, JsonError>)
    ensures
        json_text_outcome(r) == canonical_json(text@),
{
    match serde_json::from_str::<serde_json::Value>(text) {
        Ok(v) => Ok(v.to_string()),
        Err(e) => Err(JsonError { message: e.to_string() }),
    }
}

impl View for Json {
    type V = Seq<char>;

    closed spec fn view(&self) -> Seq<char> {
        self.text@
    }
}

impl Json {
    /// Parses a JSON text.
    pub fn parse(text: &str) -> (r: Result<Json, JsonError>)
        ensures
            json_outcome(r) == canonical_json(text@),
    {
        match compact_text(text) {
            Ok(t) => Ok(Json { text: t }),
            Err(e) => Err(e),
        }
    }

    pub fn as_str(&self) -> (r: &str)
        ensures
            r@ == self@,
    {
        self.text.as_str()
    }
}

impl Clone for Json {
    fn clone(&self) -> (r: Self)
        ensures
            r@ == self@,
    {
        Json { text: self.text.clone() }
    }
}

/// `serde_json::Map::new`: an object without members.
#[verifier::external_body]
pub(crate) fn new_object() -> (r: serde_json::Map<String, serde_json::Value>)
    ensures
        object_contents(r).dom() == Set::<Seq<char>>::empty(),
{
    serde_json::Map::new()
}

/// `serde_json::Map::clone`: an object with the same members.
#[verifier::external_body]
pub(crate) fn clone_object(map: &serde_json::Map<String, serde_json::Value>) -> (r: serde_json::Map<
    String,
    serde_json::Value,
>)
    ensures
        object_contents(r) == object_contents(*map),
{
    map.clone()
}

/// `serde_json::Map::insert` of the value that `text` writes: replaces the member, and keeps
/// the object as it is where the text is not JSON.
#[verifier::external_body]
pub(crate) fn insert_member(
    map: &mut serde_json::Map<String, serde_json::Value>,
    key: String,
    text: &str,
) -> (r: Result<(), JsonError>)
    ensures
        r is Ok <==> canonical_json(text@) is Ok,
        r is Ok ==> object_contents(*final(map)) == object_contents(*old(map)).insert(
            key@,
            canonical_json(text@)->Ok_0,
        ),
        r is Err ==> object_contents(*final(map)) == object_contents(*old(map))
            && r->Err_0.message@ == canonical_json(text@)->Err_0,
{
    let value = serde_json::from_str(text).map_err(|e| JsonError { message: e.to_string() })?;
    map.insert(key, value);
    Ok(())
}

/// `serde_json::Map::get`: the compact text of a member.
#[verifier::external_body]
pub(crate) fn member_text(map: &serde_json::Map<String, serde_json::Value>, key: &str) -> (r:
    Option<String>)
    ensures
        r is Some <==> object_contents(*map).contains_key(key@),
        r is Some ==> r.unwrap()@ == object_contents(*map)[key@],
{
    map.get(key).map(|v| v.to_string())
}

/// `serde_json::Map::is_empty`: whether there are no members.
#[verifier::external_body]
pub(crate) fn object_is_empty(map: &serde_json::Map<String, serde_json::Value>) -> (r: bool)
    ensures
        r == (object_contents(*map).dom() == Set::<Seq<char>>::empty()),
{
    map.is_empty()
}

} // verus!

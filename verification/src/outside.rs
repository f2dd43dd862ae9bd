//! What is taken from other crates, and what is relied on about it.

use crate::event::Value;
use vstd::prelude::*;

verus! {

use crate::event::{Fields, ValueView};
use crate::string_map::pairs_map;
use vstd::utf8::{decode_utf8, valid_utf8};

/// The members of the JSON object that `body` spells, or `None` when `serde_json`
/// does not read `body` as one JSON object.
pub uninterp spec fn json_object(body: Seq<char>) -> Option<Map<Seq<char>, ValueView>>;

/// What a list of members holds.
pub open spec fn view_members(members: Seq<(String, Value)>) -> Fields {
    pairs_map(members).map_values(|value: Value| value@)
}

/// `serde_json::from_str` into a `HashMap` from strings to `serde_json::Value`:
/// it succeeds exactly on the texts that [`json_object`] knows, and gives the
/// members of the object. A member that is a string comes as it is, any other
/// member as its compact JSON text. The order of the members is not stated: the
/// `HashMap` walks them in an order of its own.
#[verifier::external_body]
pub(crate) fn json_members(body: &str) -> (result: Result<
    Vec<(String, Value)>,
    serde_json::Error,
>)
    ensures
        match result {
            Ok(members) => json_object(body@) == Some(view_members(members@)),
            Err(_) => json_object(body@) is None,
        },
{
    let object: std::collections::HashMap<String, serde_json::Value> = serde_json::from_str(body)?;
    let mut members = Vec::new();
    for (name, value) in object {
        members.push((name, match value {
            serde_json::Value::String(text) => Value::String(text),
            other => Value::Other(other.to_string()),
        }));
    }
    Ok(members)
}

/// Whether `c` is a digit of a hexadecimal number, in lower case.
pub open spec fn is_lower_hex(c: char) -> bool {
    '0' <= c <= '9' || 'a' <= c <= 'f'
}

/// Whether `text` is a random UUID as it is usually written: 32 hexadecimal
/// digits in groups of 8, 4, 4, 4 and 12, of which one tells the version and one
/// the variant.
pub open spec fn is_random_uuid(text: Seq<char>) -> bool {
    &&& text.len() == 36
    &&& forall|i: int|
        0 <= i < 36 ==> if i == 8 || i == 13 || i == 18 || i == 23 {
            #[trigger] text[i] == '-'
        } else {
            is_lower_hex(text[i])
        }
    &&& text[14] == '4'
    &&& text[19] == '8' || text[19] == '9' || text[19] == 'a' || text[19] == 'b'
}

/// `uuid::Uuid::new_v4`, written out by its `Display`: some random UUID. That
/// it differs from every UUID made before is overwhelmingly likely, and not
/// stated. It panics when the operating system gives no random bytes, which no
/// caller can rule out.
#[verifier::external_body]
pub(crate) fn new_uuid() -> (uuid: String)
    ensures
        is_random_uuid(uuid@),
{
    uuid::Uuid::new_v4().to_string()
}

/// `std::str::from_utf8`: it succeeds exactly on valid UTF-8, and gives the text
/// that the bytes encode.
#[verifier::external_body]
pub(crate) fn utf8_text(bytes: &[u8]) -> (text: Option<String>)
    ensures
        match text {
            Some(text) => valid_utf8(bytes@) && text@ == decode_utf8(bytes@),
            None => !valid_utf8(bytes@),
        },
{
    match std::str::from_utf8(bytes) {
        Ok(text) => Some(text.to_owned()),
        Err(_) => None,
    }
}

} // verus!

//! The boundary to code that is not verified here: identifiers, the clock and
//! the JSON decoder. Every contract in this file is assumed, not proved.

use vstd::prelude::*;

verus! {

/// A point in time without a zone, carried through untouched.
#[verifier::external_type_specification]
#[verifier::external_body]
pub struct ExNaiveDateTime(chrono::NaiveDateTime);

/// What the JSON decoder reports when it rejects a text.
#[verifier::external_type_specification]
#[verifier::external_body]
pub struct ExJsonError(serde_json::Error);

/// Bits 76..79 hold the version and bits 62..63 the variant of an identifier.
pub open spec fn is_random_uuid(id: u128) -> bool {
    id & 0x0000_0000_0000_f000_c000_0000_0000_0000u128
        == 0x0000_0000_0000_4000_8000_0000_0000_0000u128
}

/// Calls `uuid::Uuid::new_v4` and packs the sixteen bytes, big end first, into
/// one integer (`Uuid::as_u128`). Assumed: the version field is 4 and the
/// variant field is binary 10, as `new_v4` sets them whatever the random
/// source returned. Nothing else is claimed; in particular two calls may
/// return the same value as far as the proofs know.
#[verifier::external_body]
pub(crate) fn fresh_id() -> (id: u128)
    ensures
        is_random_uuid(id),
{
    uuid::Uuid::new_v4().as_u128()
}

/// Calls `chrono::Utc::now` and drops the zone (`DateTime::naive_utc`).
/// Nothing is assumed of the value.
#[verifier::external_body]
pub(crate) fn current_time() -> chrono::NaiveDateTime {
    chrono::Utc::now().naive_utc()
}

/// What `serde_json::from_str` makes of `text` when asked for a list of
/// `(name, [(ingredient, measurement), ..], [instruction, ..])` triples, each
/// text as its characters: the list, or `None` where the decoder rejects
/// `text`. The decoder reads nothing but its argument, so the same text always
/// gives the same answer.
pub uninterp spec fn json_recipe_list(text: Seq<char>) -> Option<
    Seq<(Seq<char>, Seq<(Seq<char>, Seq<char>)>, Seq<Seq<char>>)>,
>;

/// Calls `serde_json::from_str` for a `Vec` of
/// `(String, Vec<(String, String)>, Vec<String>)`. Assumed: the outcome is
/// the one that `json_recipe_list` names for the characters of `text`.
#[verifier::external_body]
pub(crate) fn decode_recipe_list(text: &str) -> (r: Result<
    Vec<(String, Vec<(String, String)>, Vec<String>)>,
    serde_json::Error,
>)
    ensures
        (match r {
            Ok(list) => Some(list.deep_view()),
            Err(_) => None,
        }) == json_recipe_list(text@),
{
    serde_json::from_str::<Vec<(String, Vec<(String, String)>, Vec<String>)>>(text)
}

/// Renders a decoder error as text, through the `Display` impl of
/// `serde_json::Error`. Nothing is assumed of the text.
#[verifier::external_body]
pub(crate) fn json_error_text(e: &serde_json::Error) -> String {
    e.to_string()
}

} // verus!

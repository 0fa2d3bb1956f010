//! Messages in JSON.  `serde_json` reads them; a place in a message is named by
//! a JSON pointer, such as `/data/0/p`.

use crate::settings::text_of;
use crate::text::{decimal_digits, push_number};
use vstd::prelude::*;

verus! {

// ---------------------------------------------------------------------------
// What `serde_json` reads
// ---------------------------------------------------------------------------

/// Whether `serde_json::from_str` reads a text as a JSON value.
pub uninterp spec fn json_valid(message: Seq<char>) -> bool;

/// The string at a place of a message: what `Value::pointer` and `Value::as_str`
/// give of the value that `serde_json::from_str` reads.
pub uninterp spec fn json_text(message: Seq<char>, pointer: Seq<char>) -> Option<Seq<char>>;

/// The whole number at a place of a message, by `Value::pointer` and
/// `Value::as_u64`.
pub uninterp spec fn json_whole(message: Seq<char>, pointer: Seq<char>) -> Option<u64>;

/// The signed whole number at a place of a message, by `Value::pointer` and
/// `Value::as_i64`.
pub uninterp spec fn json_signed(message: Seq<char>, pointer: Seq<char>) -> Option<i64>;

/// The truth value at a place of a message, by `Value::pointer` and
/// `Value::as_bool`.
pub uninterp spec fn json_flag(message: Seq<char>, pointer: Seq<char>) -> Option<bool>;

/// How many elements the list at a place of a message has, by `Value::pointer`
/// and `Value::as_array`.
pub uninterp spec fn json_length(message: Seq<char>, pointer: Seq<char>) -> Option<usize>;

/// The strings of a text that `serde_json::from_str` reads as a list of strings.
pub uninterp spec fn json_texts(text: Seq<char>) -> Option<Seq<Seq<char>>>;

/// `serde_json::from_str` to a `Value`: whether it succeeds.  The answer is
/// named; it depends on the text alone.
#[verifier::external_body]
pub(crate) fn is_json(message: &str) -> (r: bool)
    ensures
        r == json_valid(message@),
{
    serde_json::from_str::<serde_json::Value>(message).is_ok()
}

/// `serde_json::from_str` to a `Value`, then `Value::pointer` and
/// `Value::as_str`.  The result is named; it depends on message and pointer
/// alone, and is missing where the message is no JSON, has nothing at that place
/// or has something else than a string there.
#[verifier::external_body]
pub(crate) fn text_at(message: &str, pointer: &str) -> (r: Option<String>)
    ensures
        text_of(r) == json_text(message@, pointer@),
{
    let value = serde_json::from_str::<serde_json::Value>(message).ok()?;
    Some(value.pointer(pointer)?.as_str()?.to_owned())
}

/// `serde_json::from_str` to a `Value`, then `Value::pointer` and
/// `Value::as_u64`.  The result is named; it depends on message and pointer
/// alone.
#[verifier::external_body]
pub(crate) fn whole_at(message: &str, pointer: &str) -> (r: Option<u64>)
    ensures
        r == json_whole(message@, pointer@),
{
    let value = serde_json::from_str::<serde_json::Value>(message).ok()?;
    value.pointer(pointer)?.as_u64()
}

/// `serde_json::from_str` to a `Value`, then `Value::pointer` and
/// `Value::as_i64`.  The result is named; it depends on message and pointer
/// alone.
#[verifier::external_body]
pub(crate) fn signed_at(message: &str, pointer: &str) -> (r: Option<i64>)
    ensures
        r == json_signed(message@, pointer@),
{
    let value = serde_json::from_str::<serde_json::Value>(message).ok()?;
    value.pointer(pointer)?.as_i64()
}

/// `serde_json::from_str` to a `Value`, then `Value::pointer` and
/// `Value::as_bool`.  The result is named; it depends on message and pointer
/// alone.
#[verifier::external_body]
pub(crate) fn flag_at(message: &str, pointer: &str) -> (r: Option<bool>)
    ensures
        r == json_flag(message@, pointer@),
{
    let value = serde_json::from_str::<serde_json::Value>(message).ok()?;
    value.pointer(pointer)?.as_bool()
}

/// `serde_json::from_str` to a `Value`, then `Value::pointer` and the length of
/// `Value::as_array`.  The result is named; it depends on message and pointer
/// alone.
#[verifier::external_body]
pub(crate) fn length_at(message: &str, pointer: &str) -> (r: Option<usize>)
    ensures
        r == json_length(message@, pointer@),
{
    let value = serde_json::from_str::<serde_json::Value>(message).ok()?;
    Some(value.pointer(pointer)?.as_array()?.len())
}

/// The texts of some strings that may be missing.
pub open spec fn texts_of(list: Option<Vec<String>>) -> Option<Seq<Seq<char>>> {
    match list {
        Some(l) => Some(l@.map_values(|s: String| s@)),
        None => None,
    }
}

/// `serde_json::from_str` to a list of strings.  The result is named; it depends
/// on the text alone, and is missing where the text is no such list.
#[verifier::external_body]
pub(crate) fn texts_in(text: &str) -> (r: Option<Vec<String>>)
    ensures
        texts_of(r) == json_texts(text@),
{
    serde_json::from_str::<Vec<String>>(text).ok()
}

// ---------------------------------------------------------------------------
// Places
// ---------------------------------------------------------------------------

/// The place of an element of a list, or of something in that element.
pub open spec fn element_pointer(list: Seq<char>, index: nat, rest: Seq<char>) -> Seq<char> {
    list + "/"@ + decimal_digits(index) + rest
}

/// Names the place of an element of a list, or of something in that element.
pub fn pointer_to(list: &str, index: usize, rest: &str) -> (r: String)
    ensures
        r@ == element_pointer(list@, index as nat, rest@),
{
    let mut out = list.to_owned().concat("/");
    push_number(&mut out, index as u64);
    out.append(rest);
    out
}

/// The place of something in an element of a list is the place of the list, the
/// number of the element behind a slash, and the place within the element.
pub proof fn law_places_are_nested(list: Seq<char>, index: nat, rest: Seq<char>)
    ensures
        element_pointer(list, index, rest) == list + "/"@ + decimal_digits(index) + rest,
{
}

} // verus!

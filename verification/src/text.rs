//! Bytes that are text, and text that is a number: steps that the standard library
//! takes, with what it promises stated or named.

use vstd::prelude::*;
use vstd::utf8::{encode_utf8, valid_utf8};

verus! {

/// The decimal digits that the standard library writes for `value`, with a minus
/// sign before them where it is negative.
pub uninterp spec fn decimal(value: i64) -> Seq<char>;

/// The number that the standard library reads out of `text` as a decimal `i64`, if
/// it reads one.
pub uninterp spec fn parsed_i64(text: Seq<char>) -> Option<i64>;

/// Calls `String::from_utf8`. It succeeds exactly on valid UTF-8 and then gives the
/// string whose encoding is `bytes`; else the error hands the bytes back, as the
/// documentation of the standard library says.
#[verifier::external_body]
pub(crate) fn string_from_utf8(bytes: Vec<u8>) -> (r: Result<String, Vec<u8>>)
    ensures
        r is Ok == valid_utf8(bytes@),
        r matches Ok(text) ==> encode_utf8(text@) == bytes@,
        r matches Err(given) ==> given@ == bytes@,
{
    String::from_utf8(bytes).map_err(|e| e.into_bytes())
}

/// Calls `i64::to_string`. The contract names the result.
#[verifier::external_body]
pub(crate) fn i64_to_string(value: i64) -> (r: String)
    ensures
        r@ == decimal(value),
{
    value.to_string()
}

/// Calls `str::parse` for an `i64` and drops the error. The contract names the
/// result.
#[verifier::external_body]
pub(crate) fn parse_i64(text: &str) -> (r: Option<i64>)
    ensures
        r == parsed_i64(text@),
{
    text.parse::<i64>().ok()
}

} // verus!

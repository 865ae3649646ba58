//! Bytes into text, and text into quoted text. The conversions are those of
//! the standard library; their contracts are believed, not proved.

use vstd::prelude::*;
use vstd::utf8::{decode_utf8, valid_utf8};

verus! {

/// The text that `String::from_utf8_lossy` makes of `bytes`, in which each
/// ill-formed stretch is given as U+FFFD.
pub uninterp spec fn lossy_text(bytes: Seq<u8>) -> Seq<char>;

/// The words of the error that `String::from_utf8` gives for `bytes` that
/// are not well-formed UTF-8: where the first ill-formed stretch begins, and
/// how long it is or that the bytes end within it.
pub uninterp spec fn fault_text(bytes: Seq<u8>) -> Seq<char>;

/// The text that `{:?}` writes for the path `s`: the path between double
/// quotes, with quotes, backslashes and what cannot be shown as it is
/// written as escapes.
pub uninterp spec fn quoted_text(s: Seq<char>) -> Seq<char>;

/// Calls `String::from_utf8_lossy`. The contract names the result, and
/// claims that well-formed UTF-8 is decoded as it stands.
#[verifier::external_body]
pub(crate) fn decode_lossy(bytes: &Vec<u8>) -> (r: String)
    ensures
        r@ == lossy_text(bytes@),
        valid_utf8(bytes@) ==> r@ == decode_utf8(bytes@),
{
    String::from_utf8_lossy(bytes).into_owned()
}

/// Calls `String::from_utf8` and hands out its error as the error's own
/// words. The contract claims that the call succeeds on well-formed UTF-8
/// and on nothing else, and that the text is then what the bytes encode; it
/// names the words of the error.
#[verifier::external_body]
pub(crate) fn decode_strict(bytes: Vec<u8>) -> (r: Result<String, String>)
    ensures
        r is Ok <==> valid_utf8(bytes@),
        r matches Ok(text) ==> text@ == decode_utf8(bytes@),
        r matches Err(words) ==> words@ == fault_text(bytes@),
{
    match String::from_utf8(bytes) {
        Ok(text) => Ok(text),
        Err(error) => Err(error.to_string()),
    }
}

/// Calls `format!` with `{:?}` on `s` as a `std::path::Path`, which writes
/// it with the standard library's `Debug` for paths. The contract names the
/// result.
#[verifier::external_body]
pub(crate) fn quote(s: &str) -> (r: String)
    ensures
        r@ == quoted_text(s@),
{
    format!("{:?}", std::path::Path::new(s))
}

} // verus!

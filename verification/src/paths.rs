//! Document paths as an editor sends them: percent-encoded.

use crate::text::{optional_text, utf8};
use vstd::prelude::*;

verus! {

/// The byte of the percent sign, which opens an encoded byte.
pub const PERCENT: u8 = 37;

/// What percent-decoding makes of a path: the decoded text, or nothing where
/// the decoded bytes are no UTF-8.
pub uninterp spec fn percent_decoded(path: Seq<char>) -> Option<Seq<char>>;

/// A text that holds no percent sign.
pub open spec fn holds_no_percent(bytes: Seq<u8>) -> bool {
    forall|i: int| 0 <= i < bytes.len() ==> #[trigger] bytes[i] != PERCENT
}

/// Calls `urlencoding::decode`, which replaces each percent sign that two
/// hexadecimal digits follow by the byte they spell and reads the outcome as
/// UTF-8. Assumed of it: the outcome depends on the path alone, and a path
/// without a percent sign comes back as it is.
#[verifier::external_body]
fn percent_decode(path: &str) -> (decoded: Option<String>)
    ensures
        optional_text(decoded) == percent_decoded(path@),
        holds_no_percent(utf8(path@)) ==> optional_text(decoded) == Some(path@),
{
    match urlencoding::decode(path) {
        Ok(text) => Some(text.into_owned()),
        Err(_) => None,
    }
}

/// Decodes the path of a document. The answer is nothing where the decoded
/// bytes are no text; a path without a percent sign is its own decoding.
pub fn decode_file_path(path: &str) -> (decoded: Option<String>)
    ensures
        optional_text(decoded) == percent_decoded(path@),
        holds_no_percent(utf8(path@)) ==> optional_text(decoded) == Some(path@),
{
    percent_decode(path)
}

} // verus!

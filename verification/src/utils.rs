//! Helpers for showing addresses.

use percent_encoding::percent_decode_str;
use vstd::prelude::*;

verus! {

/// The text that `input` stands for once every `%` with two hexadecimal
/// digits behind it is read as the byte they name, and the bytes are read as
/// UTF-8 with U+FFFD in place of what is not.
pub uninterp spec fn percent_decoded(input: Seq<char>) -> Seq<char>;

/// `percent_encoding::percent_decode_str`, read as UTF-8 with
/// `PercentDecode::decode_utf8_lossy`.
#[verifier::external_body]
fn percent_decode_lossy(input: &str) -> (decoded: String)
    ensures
        decoded@ == percent_decoded(input@),
{
    percent_decode_str(input).decode_utf8_lossy().to_string()
}

/// An address as it is shown: percent-decoded.
pub fn decode_url(input: &str) -> (shown: String)
    ensures
        shown@ == percent_decoded(input@),
{
    percent_decode_lossy(input)
}

} // verus!

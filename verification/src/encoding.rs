//! Base64 (the `base64` crate's STANDARD engine) and lossy UTF-8 decoding.

use vstd::prelude::*;
use vstd::string::*;
use vstd::utf8::{decode_utf8, valid_utf8};
use base64::Engine;

verus! {

/// What `base64::engine::general_purpose::STANDARD.decode` returns for the
/// given input bytes (`None` for its `DecodeError`).
pub uninterp spec fn base64_decoded_of(input: Seq<u8>) -> Option<Seq<u8>>;

/// What `base64::engine::general_purpose::STANDARD.encode` returns for the
/// given bytes.
pub uninterp spec fn base64_encoded_of(data: Seq<u8>) -> Seq<char>;

/// What `String::from_utf8_lossy` gives for the bytes.
pub uninterp spec fn utf8_lossy_of(bytes: Seq<u8>) -> Seq<char>;

/// Calls `STANDARD.decode` on the UTF-8 bytes of `s`. The contract says only
/// that the result is the engine's result (its error turned into `None`);
/// the decoding rules themselves are named, not stated.
#[verifier::external_body]
pub(crate) fn base64_decode(s: &str) -> (r: Option<Vec<u8>>)
    ensures
        match r {
            Some(v) => base64_decoded_of(s.spec_bytes()) == Some(v@),
            None => base64_decoded_of(s.spec_bytes()) is None,
        },
{
    base64::engine::general_purpose::STANDARD.decode(s).ok()
}

/// Calls `STANDARD.encode` on the UTF-8 bytes of `s`. The encoding is named,
/// not stated. The engine panics when the output length overflows `usize`;
/// the `requires` keeps the input well below that.
#[verifier::external_body]
pub(crate) fn base64_encode(s: &str) -> (r: String)
    requires
        s.spec_bytes().len() <= usize::MAX / 2,
    ensures
        r@ == base64_encoded_of(s.spec_bytes()),
{
    base64::engine::general_purpose::STANDARD.encode(s)
}

/// Calls `String::from_utf8_lossy` and takes the owned text. Its documented
/// behaviour on valid UTF-8 (the text is returned as it is) is stated; the
/// replacement of invalid sequences is only named.
#[verifier::external_body]
pub(crate) fn utf8_lossy(b: &[u8]) -> (r: String)
    ensures
        r@ == utf8_lossy_of(b@),
        valid_utf8(b@) ==> r@ == decode_utf8(b@),
{
    String::from_utf8_lossy(b).into_owned()
}

} // verus!

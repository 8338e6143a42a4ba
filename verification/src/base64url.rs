//! The binary-to-text encoding of token segments: URL-safe base64 without
//! padding, done by the `base64` crate.

use vstd::prelude::*;
use base64::Engine;
use base64::engine::general_purpose::URL_SAFE_NO_PAD;

verus! {

/// The longest input that is handed to the encoder; the length of its output
/// then fits a `usize` on every target.
pub const MAX_ENCODABLE: usize = 0x2000_0000;

/// The text that the encoder gives for `bytes`.
pub uninterp spec fn base64url_text(bytes: Seq<u8>) -> Seq<u8>;

/// The bytes that the decoder reads from `text`, if it accepts the text.
pub uninterp spec fn base64url_bytes(text: Seq<u8>) -> Option<Seq<u8>>;

/// The symbols of the URL-safe alphabet: letters, digits, `-` and `_`.
pub open spec fn is_symbol(b: u8) -> bool {
    ||| 0x41 <= b <= 0x5a
    ||| 0x61 <= b <= 0x7a
    ||| 0x30 <= b <= 0x39
    ||| b == 0x2d
    ||| b == 0x5f
}

/// `Engine::encode` of `base64::engine::general_purpose::URL_SAFE_NO_PAD`.
/// Trusted: the text is a function of the bytes, it holds only symbols of the
/// URL-safe alphabet, and the decoder reads the bytes back from it. The
/// encoder panics where the length of its output overflows, which the bound
/// on the input excludes.
#[verifier::external_body]
pub(crate) fn encode_segment(bytes: &[u8]) -> (text: Vec<u8>)
    requires
        bytes@.len() <= MAX_ENCODABLE,
    ensures
        text@ == base64url_text(bytes@),
        base64url_bytes(text@) == Some(bytes@),
        forall|i: int| 0 <= i < text@.len() ==> is_symbol(#[trigger] text@[i]),
{
    URL_SAFE_NO_PAD.encode(bytes).into_bytes()
}

/// `Engine::decode` of `base64::engine::general_purpose::URL_SAFE_NO_PAD`.
/// Trusted: whether the text is accepted, and the bytes read from it, are a
/// function of the text.
#[verifier::external_body]
pub(crate) fn decode_segment(text: &[u8]) -> (r: Option<Vec<u8>>)
    ensures
        match r {
            Some(bytes) => base64url_bytes(text@) == Some(bytes@),
            None => base64url_bytes(text@) is None,
        },
{
    URL_SAFE_NO_PAD.decode(text).ok()
}

} // verus!

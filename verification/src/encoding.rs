//! Base64, in the standard alphabet with padding.

use base64::Engine;
use vstd::prelude::*;

verus! {

/// The longest input that is encoded.
pub const MAX_INPUT: usize = 0x4000_0000;

/// The base64 text that the `base64` crate's standard engine makes of `bytes`.
pub uninterp spec fn base64_encoded(bytes: Seq<u8>) -> Seq<char>;

/// The bytes that the `base64` crate's standard engine reads from `s`, or none
/// where it refuses `s`.
pub uninterp spec fn base64_decoded(s: Seq<char>) -> Option<Seq<u8>>;

/// `base64::Engine::encode` on the standard engine: its result depends on the
/// bytes alone, and decoding it gives the bytes back. Longer inputs, on which it
/// could overflow, are left out.
#[verifier::external_body]
pub(crate) fn encode(bytes: &[u8]) -> (r: String)
    requires
        bytes@.len() <= MAX_INPUT,
    ensures
        r@ == base64_encoded(bytes@),
        base64_decoded(r@) == Some(bytes@),
{
    base64::engine::general_purpose::STANDARD.encode(bytes)
}

/// `base64::Engine::decode` on the standard engine: its result depends on the
/// text alone.
#[verifier::external_body]
pub(crate) fn decode(s: &str) -> (r: Option<Vec<u8>>)
    ensures
        match r {
            Some(v) => base64_decoded(s@) == Some(v@),
            None => base64_decoded(s@) is None,
        },
{
    base64::engine::general_purpose::STANDARD.decode(s).ok()
}

} // verus!

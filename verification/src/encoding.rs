//! Base64, done by the `base64` crate.

use vstd::prelude::*;
use base64::Engine;

verus! {

/// The standard Base64 encoding, with padding, of the UTF-8 bytes of `text`.
pub uninterp spec fn base64_standard(text: Seq<char>) -> Seq<char>;

/// Calls `Engine::encode` of `base64::engine::general_purpose::STANDARD` on
/// the bytes of `text`. The contract only says that the result is the named
/// function of the argument. The call panics only where the encoded length
/// does not fit in `usize`, which no string's length allows.
#[verifier::external_body]
pub(crate) fn encode_base64(text: &str) -> (r: String)
    ensures
        r@ == base64_standard(text@),
{
    base64::engine::general_purpose::STANDARD.encode(text)
}

} // verus!

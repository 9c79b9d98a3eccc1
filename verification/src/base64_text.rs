//! Base64 with the standard alphabet and padding.

use base64::Engine;
use vstd::prelude::*;

verus! {

/// The Base64 text of these bytes.
pub uninterp spec fn base64_of(bytes: Seq<u8>) -> Seq<char>;

/// The bytes of a Base64 text; `None` where it is none.
pub uninterp spec fn bytes_in(text: Seq<char>) -> Option<Seq<u8>>;

/// `base64::Engine::encode` of the standard engine: the Base64 text of the bytes, from
/// which decoding gives the bytes back. It panics where the text would not fit in memory.
#[verifier::external_body]
pub(crate) fn encode(bytes: &[u8]) -> (text: String)
    requires
        bytes@.len() <= isize::MAX / 2,
    ensures
        text@ == base64_of(bytes@),
        bytes_in(text@) == Some(bytes@),
{
    base64::engine::general_purpose::STANDARD.encode(bytes)
}

/// `base64::Engine::decode` of the standard engine: the bytes of a Base64 text, `None` on
/// its error.
#[verifier::external_body]
pub(crate) fn decode(text: &str) -> (bytes: Option<Vec<u8>>)
    ensures
        match bytes {
            Some(bytes) => bytes_in(text@) == Some(bytes@),
            None => bytes_in(text@) is None,
        },
{
    base64::engine::general_purpose::STANDARD.decode(text).ok()
}

} // verus!

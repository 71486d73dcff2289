//! Byte strings as base64 text, by `base64`.

use base64::engine::general_purpose::{STANDARD, URL_SAFE_NO_PAD};
use base64::Engine;
use vstd::prelude::*;

verus! {

/// The bytes that a text writes in padded standard base64, if it does.
pub uninterp spec fn base64_decoding(text: Seq<char>) -> Option<Seq<u8>>;

/// The padded standard base64 form of a byte string.
pub uninterp spec fn base64_encoding(bytes: Seq<u8>) -> Seq<char>;

/// The unpadded, URL-safe base64 form of a byte string.
pub uninterp spec fn base64_url_encoding(bytes: Seq<u8>) -> Seq<char>;

/// `base64`'s `STANDARD.decode`: by the text alone.
#[verifier::external_body]
pub fn from_base64(text: &str) -> (bytes: Option<Vec<u8>>)
    ensures
        match bytes {
            Some(b) => base64_decoding(text@) == Some(b@),
            None => base64_decoding(text@) is None,
        },
{
    STANDARD.decode(text.as_bytes()).ok()
}

/// `base64`'s `STANDARD.encode`: by the bytes alone, and `STANDARD.decode`
/// gives the bytes back.
#[verifier::external_body]
pub fn to_base64(bytes: &[u8]) -> (text: String)
    requires
        bytes@.len() <= usize::MAX / 4,
    ensures
        text@ == base64_encoding(bytes@),
        base64_decoding(text@) == Some(bytes@),
{
    STANDARD.encode(bytes)
}

/// `base64`'s `URL_SAFE_NO_PAD.encode`: by the bytes alone, four characters
/// for each three bytes and two or three for what is left over.
#[verifier::external_body]
pub fn to_base64_url(bytes: &[u8]) -> (text: String)
    requires
        bytes@.len() <= usize::MAX / 4,
    ensures
        text@ == base64_url_encoding(bytes@),
        text@.len() == (4 * bytes@.len() + 2) / 3,
{
    URL_SAFE_NO_PAD.encode(bytes)
}

} // verus!

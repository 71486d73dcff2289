//! Identifiers of posts and threads, read by `uuid`.

use vstd::prelude::*;

verus! {

/// The 16 bytes of the UUID that a text writes, if it writes one.
pub uninterp spec fn uuid_of(text: Seq<char>) -> Option<Seq<u8>>;

/// `uuid::Uuid::parse_str`: by the text alone.
#[verifier::external_body]
pub(crate) fn parse_uuid(text: &str) -> (id: Option<[u8; 16]>)
    ensures
        match id {
            Some(b) => uuid_of(text@) == Some(b@),
            None => uuid_of(text@) is None,
        },
{
    uuid::Uuid::parse_str(text).ok().map(|u| u.into_bytes())
}

} // verus!

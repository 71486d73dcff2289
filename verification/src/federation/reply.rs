//! Replies of the federation surface as plain values.

use vstd::prelude::*;

verus! {

/// A refusal that tells the sender when to come back: its status and the
/// value of its `Retry-After` header.
#[derive(Clone, Copy, Debug, PartialEq, Eq)]
pub struct Throttled {
    pub status: u16,
    pub retry_after: &'static str,
}

} // verus!

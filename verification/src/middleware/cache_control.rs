//! No response is kept in a cache, unless its handler says so.

use vstd::prelude::*;

verus! {

/// What a response without a cache policy is given.
pub const NO_STORE: &'static str = "no-store";

/// The cache policy to set on a response, where it has none yet.
pub fn cache_control(has_policy: bool) -> (policy: Option<&'static str>)
    ensures
        policy is Some <==> !has_policy,
        policy matches Some(p) ==> p@ == NO_STORE@,
{
    if has_policy {
        None
    } else {
        Some(NO_STORE)
    }
}

/// A response is not to be stored unless its handler said otherwise.
pub proof fn law_responses_are_not_stored(has_policy: bool, policy: Option<&'static str>)
    requires
        call_ensures(cache_control, (has_policy,), policy),
    ensures
        has_policy ==> policy is None,
        !has_policy ==> (policy matches Some(p) && p@ == "no-store"@),
{
}

} // verus!

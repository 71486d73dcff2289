//! Under which path a request is counted.

use vstd::prelude::*;

verus! {

/// The path of all requests that no route takes, so that made-up addresses
/// share one count.
pub const UNMATCHED_PATH: &'static str = "<unmatched>";

/// The path that a request is counted under: that of its route.
pub fn counted_path(matched: Option<&str>) -> (path: String)
    ensures
        path@ == match matched {
            Some(m) => m@,
            None => UNMATCHED_PATH@,
        },
{
    match matched {
        Some(m) => m.to_owned(),
        None => UNMATCHED_PATH.to_owned(),
    }
}

/// A request is counted under the pattern of its route, and all requests that
/// no route takes under one name.
pub proof fn law_requests_are_counted_by_route(matched: &str, path: String, other: String)
    requires
        call_ensures(counted_path, (Some(matched),), path),
        call_ensures(counted_path, (None::<&str>,), other),
    ensures
        path@ == matched@,
        other@ == "<unmatched>"@,
{
}

} // verus!

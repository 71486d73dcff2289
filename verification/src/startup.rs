//! What is decided when the instance starts.

use vstd::prelude::*;

use crate::text::same_text;
use crate::web_url::UrlParts;

verus! {

/// How an instance starts.
#[derive(Debug)]
pub struct Startup {
    /// Whether an administrator has to be made first.
    pub needs_setup: bool,
    /// What has to be shown for that. It is of no use later, and is not kept.
    pub setup_token: Option<String>,
}

/// Decides how an instance starts: without an administrator it needs a token
/// by which one can be made, and does not start without it.
pub fn startup(admin_exists: bool, setup_token: Option<String>) -> (start: Option<Startup>)
    ensures
        start == (if admin_exists {
            Some(Startup { needs_setup: false, setup_token: None })
        } else if setup_token is Some {
            Some(Startup { needs_setup: true, setup_token })
        } else {
            None
        }),
{
    if admin_exists {
        return Some(Startup { needs_setup: false, setup_token: None });
    }
    match setup_token {
        Some(token) => Some(Startup { needs_setup: true, setup_token: Some(token) }),
        None => None,
    }
}

/// Whether an origin is a developer's own machine, where any port will do.
pub fn is_dev_origin(origin: &UrlParts) -> (is_dev: bool)
    ensures
        is_dev == (origin.host is Some && origin.host->Some_0@ == "localhost"@),
{
    match &origin.host {
        Some(host) => same_text(host, "localhost"),
        None => false,
    }
}

/// An instance with an administrator starts, keeps no token and needs no
/// setup; one without starts exactly where there is a token, needs the setup
/// and asks for that token.
pub proof fn law_an_instance_needs_an_administrator(
    admin_exists: bool,
    setup_token: Option<String>,
    start: Option<Startup>,
)
    requires
        call_ensures(startup, (admin_exists, setup_token), start),
    ensures
        start is Some <==> admin_exists || setup_token is Some,
        start matches Some(s) ==> {
            &&& s.needs_setup <==> !admin_exists
            &&& admin_exists ==> s.setup_token is None
            &&& !admin_exists ==> s.setup_token == setup_token
        },
{
}

/// A developer's machine is told by its name, whatever the scheme and the
/// port.
pub proof fn law_localhost_is_a_developers_machine(origin: &UrlParts, is_dev: bool)
    requires
        call_ensures(is_dev_origin, (origin,), is_dev),
    ensures
        is_dev <==> (origin.host matches Some(h) && h@ == "localhost"@),
{
}

} // verus!

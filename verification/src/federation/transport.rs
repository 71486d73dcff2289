//! Requests from instance to instance: where they go, what they carry, and
//! how they fail.

use vstd::prelude::*;
use vstd::string::StringExecFns;

use crate::federation::domain;
use crate::federation::domain::{blocked_address, parse_instance_domain};
use crate::federation::prior_home_challenge_rate_limit::CallerAddr;
use crate::text;
use crate::text::push_hex;
use crate::web_url;
use crate::web_url::parse_url;

verus! {

/// A peer instance, by its public key.
#[derive(Clone, Copy, Debug, PartialEq, Eq, Hash)]
pub struct PeerId([u8; 32]);

impl PeerId {
    /// The bytes of the key.
    pub closed spec fn view(&self) -> Seq<u8> {
        self.0@
    }

    /// The peer with a key.
    pub fn from_bytes(bytes: [u8; 32]) -> (id: PeerId)
        ensures
            id@ == bytes@,
    {
        PeerId(bytes)
    }

    /// The bytes of the key.
    pub fn as_bytes(&self) -> (bytes: &[u8; 32])
        ensures
            bytes@ == self@,
    {
        &self.0
    }

    /// The key in lower-case hexadecimal, without separators.
    pub fn display(&self) -> (text: String)
        ensures
            text@ == text::hex(self@),
    {
        let mut out: String = String::new();
        push_hex(&mut out, &self.0);
        out
    }
}

/// Why a request did not come back with an answer.
#[derive(Clone, Copy, Debug)]
pub enum TransportError {
    /// There is no way to the peer.
    UnknownPeer(PeerId),
    /// The address on record for the peer is not one.
    InvalidPeerDomain(PeerId),
    /// The peer's address is in a network that no request goes out to.
    BlockedTarget(PeerId),
    /// The exchange failed, with no more said than a category.
    Dispatch(&'static str),
}

/// What a transport error says.
pub open spec fn error_text(e: TransportError) -> Seq<char> {
    match e {
        TransportError::UnknownPeer(id) => "no transport route to peer "@ + text::hex(id@),
        TransportError::InvalidPeerDomain(id) => "peer "@ + text::hex(id@)
            + " has a malformed instance_domain"@,
        TransportError::BlockedTarget(id) => "peer "@ + text::hex(id@)
            + " resolves to a blocked target IP range"@,
        TransportError::Dispatch(category) => "federation transport dispatch failed: "@
            + category@,
    }
}

impl TransportError {
    /// What the error says.
    pub fn display(&self) -> (text: String)
        ensures
            text@ == error_text(*self),
    {
        let mut out: String = String::new();
        match self {
            TransportError::UnknownPeer(id) => {
                out.append("no transport route to peer ");
                push_hex(&mut out, id.as_bytes());
            },
            TransportError::InvalidPeerDomain(id) => {
                out.append("peer ");
                push_hex(&mut out, id.as_bytes());
                out.append(" has a malformed instance_domain");
            },
            TransportError::BlockedTarget(id) => {
                out.append("peer ");
                push_hex(&mut out, id.as_bytes());
                out.append(" resolves to a blocked target IP range");
            },
            TransportError::Dispatch(category) => {
                out.append("federation transport dispatch failed: ");
                out.append(category);
            },
        }
        assert(out@ =~= error_text(*self));
        out
    }
}

/// A letter of the Latin alphabet in lower case, any other character as it is.
pub open spec fn ascii_lower(c: char) -> char {
    if 'A' <= c <= 'Z' {
        (c as u32 + 32) as char
    } else {
        c
    }
}

/// Whether two texts differ at most in the case of Latin letters.
pub open spec fn same_but_for_case(a: Seq<char>, b: Seq<char>) -> bool {
    a.map_values(|c: char| ascii_lower(c)) == b.map_values(|c: char| ascii_lower(c))
}

/// Whether a request carries a header on to the peer: what its body is, and
/// who signed it. Nothing else goes along.
pub open spec fn is_forwardable(name: Seq<char>, auth_header: Seq<char>) -> bool {
    same_but_for_case(name, "content-type"@) || same_but_for_case(name, auth_header)
}

/// `str::eq_ignore_ascii_case`: equality but for the case of Latin letters.
#[verifier::external_body]
fn eq_but_for_case(a: &str, b: &str) -> (same: bool)
    ensures
        same == same_but_for_case(a@, b@),
{
    a.eq_ignore_ascii_case(b)
}

/// Whether a request carries a header on to the peer.
pub fn header_is_forwardable(name: &str, auth_header: &str) -> (forward: bool)
    ensures
        forward == is_forwardable(name@, auth_header@),
{
    eq_but_for_case(name, "content-type") || eq_but_for_case(name, auth_header)
}

/// The URL of a path at a peer.
pub open spec fn peer_url(domain: Seq<char>, path: Option<Seq<char>>) -> Seq<char> {
    "https://"@ + domain + match path {
        Some(p) => p,
        None => "/"@,
    }
}

/// Where a request to a peer goes. `on_record` is the peer's address on
/// record, `literal` the IP address that it names, where it names one.
pub open spec fn destination(
    target: PeerId,
    on_record: Option<Seq<char>>,
    literal: Option<CallerAddr>,
    allow_private_targets: bool,
    path: Option<Seq<char>>,
) -> Result<Seq<char>, TransportError> {
    match on_record {
        None => Err(TransportError::UnknownPeer(target)),
        Some(d) => if !domain::is_instance_domain(d) {
            Err(TransportError::InvalidPeerDomain(target))
        } else if !allow_private_targets && literal is Some && domain::is_blocked_address(
            literal->Some_0,
        ) {
            Err(TransportError::BlockedTarget(target))
        } else if web_url::url_parts(peer_url(d, path)) is None {
            Err(TransportError::InvalidPeerDomain(target))
        } else {
            Ok(peer_url(d, path))
        },
    }
}

/// The optional text of a reference.
pub open spec fn optional_str(s: Option<&str>) -> Option<Seq<char>> {
    match s {
        Some(t) => Some(t@),
        None => None,
    }
}

/// Decides where a request to a peer goes.
pub fn outbound_url(
    target: &PeerId,
    on_record: Option<&str>,
    literal: &Option<CallerAddr>,
    allow_private_targets: bool,
    path_and_query: Option<&str>,
) -> (url: Result<String, TransportError>)
    ensures
        match url {
            Ok(u) => destination(
                *target,
                optional_str(on_record),
                *literal,
                allow_private_targets,
                optional_str(path_and_query),
            ) == Ok::<Seq<char>, TransportError>(u@),
            Err(e) => destination(
                *target,
                optional_str(on_record),
                *literal,
                allow_private_targets,
                optional_str(path_and_query),
            ) == Err::<Seq<char>, TransportError>(e),
        },
{
    let domain: &str = match on_record {
        Some(d) => d,
        None => return Err(TransportError::UnknownPeer(*target)),
    };
    if parse_instance_domain(domain).is_err() {
        return Err(TransportError::InvalidPeerDomain(*target));
    }
    if !allow_private_targets {
        if let Some(addr) = literal {
            if blocked_address(addr) {
                return Err(TransportError::BlockedTarget(*target));
            }
        }
    }
    let mut url: String = String::new();
    url.append("https://");
    url.append(domain);
    match path_and_query {
        Some(p) => {
            url.append(p);
        },
        None => {
            url.append("/");
        },
    }
    assert(url@ =~= peer_url(domain@, optional_str(path_and_query)));
    if parse_url(url.as_str()).is_none() {
        return Err(TransportError::InvalidPeerDomain(*target));
    }
    Ok(url)
}

/// A request that a transport refuses goes nowhere: only a request to an
/// address on record, that is one and is not in a closed network, leaves.
pub proof fn law_requests_stay_out_of_private_networks(
    target: PeerId,
    on_record: Option<Seq<char>>,
    literal: Option<CallerAddr>,
    path: Option<Seq<char>>,
)
    ensures
        destination(target, on_record, literal, false, path) is Ok ==> on_record is Some
            && domain::is_instance_domain(on_record->Some_0) && (literal is Some
            ==> !domain::is_blocked_address(literal->Some_0)),
        destination(target, on_record, literal, false, path) is Ok ==> destination(
            target,
            on_record,
            literal,
            true,
            path,
        ) == destination(target, on_record, literal, false, path),
{
}

/// How an exchange failed, as the client tells it.
#[derive(Clone, Copy, Debug, PartialEq, Eq)]
pub struct SendFailure {
    pub timeout: bool,
    pub connect: bool,
    pub request: bool,
    pub redirect: bool,
    pub body: bool,
    pub decode: bool,
}

/// The category of a failure: the first that fits.
pub open spec fn category_of(e: SendFailure) -> Seq<char> {
    if e.timeout {
        "timeout"@
    } else if e.connect {
        "connect"@
    } else if e.request {
        "build"@
    } else if e.redirect {
        "redirect"@
    } else if e.body || e.decode {
        "body"@
    } else {
        "other"@
    }
}

/// Puts a failure into its category.
pub fn classify_reqwest_error(e: &SendFailure) -> (category: &'static str)
    ensures
        category@ == category_of(*e),
{
    if e.timeout {
        "timeout"
    } else if e.connect {
        "connect"
    } else if e.request {
        "build"
    } else if e.redirect {
        "redirect"
    } else if e.body || e.decode {
        "body"
    } else {
        "other"
    }
}

/// A transport without a way to any peer.
#[derive(Clone, Copy, Debug)]
pub struct NullTransport;

impl NullTransport {
    /// Fails on every request.
    pub fn request(&self, target: &PeerId) -> (error: TransportError)
        ensures
            error == TransportError::UnknownPeer(*target),
    {
        TransportError::UnknownPeer(*target)
    }
}

/// A request goes to the domain on record of its peer, under the path that it
/// asks for or the root, whenever that domain is one, the address makes a URL
/// and, unless private targets are allowed, the domain is no address of a
/// private network. Otherwise it goes nowhere, for the first of these that
/// fails.
pub proof fn law_requests_reach_the_domain_on_record(
    target: &PeerId,
    domain_on_record: &str,
    literal: &Option<CallerAddr>,
    allow_private_targets: bool,
    path: &str,
    url: Result<String, TransportError>,
    at_the_root: Result<String, TransportError>,
    nowhere: Result<String, TransportError>,
)
    requires
        call_ensures(
            outbound_url,
            (target, Some(domain_on_record), literal, allow_private_targets, Some(path)),
            url,
        ),
        call_ensures(
            outbound_url,
            (target, Some(domain_on_record), literal, allow_private_targets, None::<&str>),
            at_the_root,
        ),
        call_ensures(
            outbound_url,
            (target, None::<&str>, literal, allow_private_targets, Some(path)),
            nowhere,
        ),
    ensures
        ({
            let sound = domain::is_instance_domain(domain_on_record@);
            let open = allow_private_targets || !(*literal matches Some(a)
                && domain::is_blocked_address(a));
            let full = "https://"@ + domain_on_record@ + path@;
            let root = "https://"@ + domain_on_record@ + "/"@;
            &&& url is Ok <==> sound && open && web_url::url_parts(full) is Some
            &&& url matches Ok(u) ==> u@ == full
            &&& at_the_root is Ok <==> sound && open && web_url::url_parts(root) is Some
            &&& at_the_root matches Ok(u) ==> u@ == root
            &&& !sound ==> url->Err_0 == TransportError::InvalidPeerDomain(*target)
            &&& sound && !open ==> url->Err_0 == TransportError::BlockedTarget(*target)
            &&& sound && open && url is Err ==> url->Err_0 == TransportError::InvalidPeerDomain(
                *target,
            )
            &&& nowhere is Err && nowhere->Err_0 == TransportError::UnknownPeer(*target)
        }),
{
}

/// What the body is and who signed it goes along, however the names are
/// written, and nothing else: a header goes along exactly where its name is
/// one of these two but for the case of its letters.
pub proof fn law_two_headers_go_along(
    name: &str,
    auth_header: &str,
    forward: bool,
    i: int,
)
    requires
        call_ensures(header_is_forwardable, (name, auth_header), forward),
    ensures
        name@ == "content-type"@ || name@ == auth_header@ ==> forward,
        forward && name@.len() != auth_header@.len() ==> name@.len() == 12,
        forward && name@.len() != 12 && 0 <= i < name@.len() ==> ({
            let a = name@[i] as u32;
            let b = auth_header@[i] as u32;
            a == b || (0x41 <= a <= 0x5a && b == a + 32) || (0x41 <= b <= 0x5a && a == b + 32)
        }),
{
    reveal_strlit("content-type");
    assert("content-type"@.len() == 12);
    let low = |c: char| ascii_lower(c);
    assert(name@.map_values(low).len() == name@.len());
    assert(auth_header@.map_values(low).len() == auth_header@.len());
    assert("content-type"@.map_values(low).len() == 12);
    if forward && name@.len() != 12 && 0 <= i < name@.len() {
        assert(name@.map_values(low)[i] == auth_header@.map_values(low)[i]);
    }
}

/// A failure is put into the first category that fits, of those in their
/// order: a timeout, the connection, the request, a redirect, the body.
pub proof fn law_failures_have_one_category(e: &SendFailure, category: &'static str)
    requires
        call_ensures(classify_reqwest_error, (e,), category),
    ensures
        e.timeout ==> category@ == "timeout"@,
        !e.timeout && e.connect ==> category@ == "connect"@,
        !e.timeout && !e.connect && e.request ==> category@ == "build"@,
        !e.timeout && !e.connect && !e.request && e.redirect ==> category@ == "redirect"@,
        !e.timeout && !e.connect && !e.request && !e.redirect ==> if e.body || e.decode {
            category@ == "body"@
        } else {
            category@ == "other"@
        },
{
}

/// Without a way to any peer every request fails for the peer that it is meant
/// for.
pub proof fn law_no_way_leads_nowhere(null: &NullTransport, target: &PeerId, error: TransportError)
    requires
        call_ensures(NullTransport::request, (null, target), error),
    ensures
        error == TransportError::UnknownPeer(*target),
{
}

/// A peer is shown by its key in hexadecimal.
pub proof fn law_peers_are_shown_by_their_key(bytes: [u8; 32], id: PeerId, shown: String)
    requires
        call_ensures(PeerId::from_bytes, (bytes,), id),
        call_ensures(PeerId::display, (&id,), shown),
    ensures
        id@ == bytes@,
        shown@ == text::hex(bytes@),
{
}

} // verus!

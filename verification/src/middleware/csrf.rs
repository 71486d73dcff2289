//! Requests that change something come from this instance's own pages.

use vstd::prelude::*;
use vstd::string::StringExecFns;
use vstd::utf8::*;

use crate::bytes::same_bytes;
use crate::text;
use crate::text::{push_decimal, same_text};
use crate::web_url;
use crate::web_url::{parse_url, UrlParts, UrlView};

verus! {

/// The origin of this instance's own pages, as browsers write it.
#[derive(Debug)]
pub struct AllowedOrigin(pub String);

/// The origin of a URL: its scheme, its host, and its port where that is not
/// the scheme's own.
pub open spec fn origin_of(url: UrlView) -> Option<Seq<char>> {
    match url.host {
        None => None,
        Some(host) => Some(
            url.scheme + "://"@ + host + match url.port {
                Some(port) => ":"@ + text::decimal_text(port as nat),
                None => Seq::empty(),
            },
        ),
    }
}

impl AllowedOrigin {
    /// The origin of a URL.
    pub fn from_url(url: &UrlParts) -> (origin: Option<AllowedOrigin>)
        ensures
            match origin {
                Some(o) => origin_of(url@) == Some(o.0@),
                None => origin_of(url@) is None,
            },
    {
        let host: &String = match &url.host {
            Some(h) => h,
            None => return None,
        };
        let mut out: String = url.scheme.clone();
        out.append("://");
        out.append(host.as_str());
        if let Some(port) = url.port {
            out.append(":");
            push_decimal(&mut out, port as u64);
        }
        assert(out@ =~= origin_of(url@)->Some_0);
        Some(AllowedOrigin(out))
    }

    /// The origin of the URL that a text writes. A port that is the scheme's
    /// own is never part of it.
    pub fn parse(text: &str) -> (origin: Option<AllowedOrigin>)
        ensures
            match origin {
                Some(o) => web_url::url_parts(text@) is Some && origin_of(
                    web_url::url_parts(text@)->Some_0,
                ) == Some(o.0@),
                None => web_url::url_parts(text@) is None || origin_of(
                    web_url::url_parts(text@)->Some_0,
                ) is None,
            },
            origin is Some && web_url::url_parts(text@)->Some_0.scheme == "https"@
                ==> web_url::url_parts(text@)->Some_0.port != Some(443u16),
            origin is Some && web_url::url_parts(text@)->Some_0.scheme == "http"@
                ==> web_url::url_parts(text@)->Some_0.port != Some(80u16),
    {
        match parse_url(text) {
            Some(url) => Self::from_url(&url),
            None => None,
        }
    }
}

/// Whether a method changes nothing.
pub open spec fn is_safe_method(method: Seq<char>) -> bool {
    method == "GET"@ || method == "HEAD"@ || method == "OPTIONS"@
}

/// Whether a page with the address `referer` belongs to an origin: the address
/// is the origin, or goes on after it with a path.
pub open spec fn is_page_of(referer: Seq<u8>, origin: Seq<u8>) -> bool {
    &&& referer.len() >= origin.len()
    &&& referer.take(origin.len() as int) == origin
    &&& referer.len() == origin.len() || referer[origin.len() as int] == 0x2f
}

/// Whether a request may go on.
pub open spec fn is_admitted(
    method: Seq<char>,
    origin: Option<Seq<char>>,
    referer: Option<Seq<char>>,
    allowed: Seq<char>,
) -> bool {
    ||| is_safe_method(method)
    ||| match origin {
        Some(o) => o == allowed,
        None => match referer {
            Some(r) => is_page_of(encode_utf8(r), encode_utf8(allowed)),
            None => false,
        },
    }
}

/// Whether a page belongs to an origin.
pub fn referer_matches(referer: &str, allowed: &str) -> (matches: bool)
    ensures
        matches == is_page_of(encode_utf8(referer@), encode_utf8(allowed@)),
{
    let r: &[u8] = referer.as_bytes();
    let a: &[u8] = allowed.as_bytes();
    if r.len() < a.len() {
        return false;
    }
    let head: &[u8] = vstd::slice::slice_subrange(r, 0, a.len());
    assert(head@ =~= r@.take(a@.len() as int));
    if !same_bytes(head, a) {
        return false;
    }
    r.len() == a.len() || r[a.len()] == 0x2f
}

/// Decides whether a request may go on, by its method and the headers that
/// tell where it comes from.
pub fn csrf_origin_check(
    method: &str,
    origin: Option<&str>,
    referer: Option<&str>,
    allowed: &AllowedOrigin,
) -> (admitted: bool)
    ensures
        admitted == is_admitted(
            method@,
            match origin {
                Some(o) => Some(o@),
                None => None,
            },
            match referer {
                Some(r) => Some(r@),
                None => None,
            },
            allowed.0@,
        ),
{
    if same_text(method, "GET") || same_text(method, "HEAD") || same_text(method, "OPTIONS") {
        return true;
    }
    if let Some(o) = origin {
        return same_text(o, allowed.0.as_str());
    }
    match referer {
        Some(r) => referer_matches(r, allowed.0.as_str()),
        None => false,
    }
}

/// A request that changes something and names another origin never goes on,
/// whatever page it says that it comes from.
pub proof fn law_other_origins_change_nothing(
    method: Seq<char>,
    origin: Seq<char>,
    referer: Option<Seq<char>>,
    allowed: Seq<char>,
)
    requires
        !is_safe_method(method),
        origin != allowed,
    ensures
        !is_admitted(method, Some(origin), referer, allowed),
{
}

/// An address that goes on after the origin with more of a host name is no
/// page of the origin.
pub proof fn law_longer_hosts_are_other_hosts(origin: Seq<u8>, rest: Seq<u8>)
    requires
        rest.len() > 0,
        rest[0] != 0x2f,
    ensures
        !is_page_of(origin + rest, origin),
{
    assert((origin + rest)[origin.len() as int] == rest[0]);
}

/// A request that changes nothing goes on. One that changes something goes on
/// exactly where it comes from the instance's own pages: it names their
/// origin or, where it names none, its page is one of them.
pub proof fn law_own_pages_may_change_things(
    method: &str,
    origin: Option<&str>,
    referer: Option<&str>,
    allowed: &AllowedOrigin,
    admitted: bool,
)
    requires
        call_ensures(csrf_origin_check, (method, origin, referer, allowed), admitted),
    ensures
        method@ == "GET"@ || method@ == "HEAD"@ || method@ == "OPTIONS"@ ==> admitted,
        origin matches Some(o) ==> o@ == allowed.0@ ==> admitted,
        method@ != "GET"@ && method@ != "HEAD"@ && method@ != "OPTIONS"@ ==> {
            &&& origin matches Some(o) ==> (admitted <==> o@ == allowed.0@)
            &&& origin is None && referer is None ==> !admitted
            &&& origin is None ==> (referer matches Some(r) ==> ({
                let page = encode_utf8(r@);
                let own = encode_utf8(allowed.0@);
                admitted <==> page == own || (page.len() > own.len() && page.take(own.len() as int)
                    == own && page[own.len() as int] == 0x2f)
            }))
        },
{
    if let Some(r) = referer {
        let page = encode_utf8(r@);
        let own = encode_utf8(allowed.0@);
        if page.len() == own.len() {
            assert(page.take(own.len() as int) =~= page);
        }
    }
}

/// An address is one of an origin's pages where it is the origin itself, or
/// the origin with any path behind it.
pub proof fn law_paths_belong_to_their_origin(
    referer: &str,
    allowed: &str,
    matches: bool,
    path: Seq<char>,
)
    requires
        call_ensures(referer_matches, (referer, allowed), matches),
        referer@ == allowed@ || (path.len() > 0 && path[0] == '/' && referer@ == allowed@ + path),
    ensures
        matches,
{
    let own = encode_utf8(allowed@);
    if referer@ == allowed@ {
        assert(own.take(own.len() as int) =~= own);
    } else {
        text::lemma_utf8_concat(allowed@, path);
        text::lemma_utf8_concat(path.take(1), path.skip(1));
        assert(path.take(1) + path.skip(1) =~= path);
        assert(is_ascii_chars(path.take(1)));
        is_ascii_chars_encode_utf8(path.take(1));
        assert(encode_utf8(path)[0] == 0x2f);
        assert((own + encode_utf8(path)).take(own.len() as int) =~= own);
    }
}

/// An origin is written as browsers write it: the scheme, the host, and the
/// port where the URL has one of its own.
pub proof fn law_origins_are_written_in_full(url: &UrlParts, origin: Option<AllowedOrigin>)
    requires
        call_ensures(AllowedOrigin::from_url, (url,), origin),
    ensures
        origin is Some <==> url.host is Some,
        origin matches Some(o) ==> {
            &&& url.port is None ==> o.0@ == url.scheme@ + "://"@ + url.host->Some_0@
            &&& url.port matches Some(p) ==> o.0@ == url.scheme@ + "://"@ + url.host->Some_0@
                + (":"@ + text::decimal_text(p as nat))
        },
{
    if let Some(o) = origin {
        if url.port is None {
            let bare = url.scheme@ + "://"@ + url.host->Some_0@;
            assert(bare + Seq::<char>::empty() =~= bare);
        }
    }
}

} // verus!

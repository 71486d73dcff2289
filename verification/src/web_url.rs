//! Addresses of pages and services, taken apart by `url`.

use vstd::prelude::*;

verus! {

/// The parts of a URL that decide where a request goes.
#[derive(Debug)]
pub struct UrlParts {
    pub scheme: String,
    pub host: Option<String>,
    /// The port, where it is not the scheme's own.
    pub port: Option<u16>,
}

/// What the parts of a URL hold.
pub struct UrlView {
    pub scheme: Seq<char>,
    pub host: Option<Seq<char>>,
    pub port: Option<u16>,
}

impl UrlParts {
    /// What the parts hold.
    pub open spec fn view(&self) -> UrlView {
        UrlView {
            scheme: self.scheme@,
            host: match self.host {
                Some(h) => Some(h@),
                None => None,
            },
            port: self.port,
        }
    }
}

/// The parts of the URL that a text writes, if it writes one.
pub uninterp spec fn url_parts(text: Seq<char>) -> Option<UrlView>;

/// `url::Url::parse`, with `scheme`, `host_str` and `port` of the result: by
/// the text alone. A port that is the scheme's own is left out.
#[verifier::external_body]
pub(crate) fn parse_url(text: &str) -> (parts: Option<UrlParts>)
    ensures
        match parts {
            Some(p) => url_parts(text@) == Some(p@),
            None => url_parts(text@) is None,
        },
        parts matches Some(p) ==> (p.scheme@ == "https"@ ==> p.port != Some(443u16)) && (
        p.scheme@ == "http"@ ==> p.port != Some(80u16)),
{
    let url = url::Url::parse(text).ok()?;
    Some(
        UrlParts {
            scheme: url.scheme().to_owned(),
            host: url.host_str().map(|h| h.to_owned()),
            port: url.port(),
        },
    )
}

} // verus!

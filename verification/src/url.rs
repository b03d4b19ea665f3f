//! Absolute http(s) URLs.
use crate::text::{option_text, same_text};
use vstd::prelude::*;

verus! {

/// The parts of a URI that matter here.
pub struct UriParts {
    pub scheme: Option<String>,
    pub host: Option<String>,
}

/// What a parsed URI holds: its scheme and its host, or why it is none.
pub open spec fn uri_view(parts: Result<UriParts, String>) -> Result<
    (Option<Seq<char>>, Option<Seq<char>>),
    Seq<char>,
> {
    match parts {
        Ok(p) => Ok((option_text(p.scheme), option_text(p.host))),
        Err(e) => Err(e@),
    }
}

/// What `http::Uri` makes of a text: the scheme and the host, each where there is one, or the text
/// of its error.
pub uninterp spec fn uri_parts(text: Seq<char>) -> Result<
    (Option<Seq<char>>, Option<Seq<char>>),
    Seq<char>,
>;

/// Calls the `FromStr` of `http::Uri` and reads off its scheme and host, or the text of its error.
/// Claimed: the outcome depends on the text alone.
#[verifier::external_body]
pub(crate) fn parse_uri(text: &str) -> (parts: Result<UriParts, String>)
    ensures
        uri_view(parts) == uri_parts(text@),
{
    match text.parse::<http::Uri>() {
        Ok(uri) => Ok(
            UriParts {
                scheme: uri.scheme_str().map(str::to_owned),
                host: uri.host().map(str::to_owned),
            },
        ),
        Err(error) => Err(error.to_string()),
    }
}

/// The scheme is `http` or `https`.
pub open spec fn is_http_scheme(scheme: Option<Seq<char>>) -> bool {
    scheme == Some("http"@) || scheme == Some("https"@)
}

/// The parts are those of an absolute http(s) URL.
pub open spec fn is_http_url(
    parts: Result<(Option<Seq<char>>, Option<Seq<char>>), Seq<char>>,
) -> bool {
    match parts {
        Ok((scheme, host)) => is_http_scheme(scheme) && host is Some,
        Err(_) => false,
    }
}

/// Whether the scheme is `http` or `https`.
pub fn has_http_scheme(parts: &UriParts) -> (http: bool)
    ensures
        http == is_http_scheme(option_text(parts.scheme)),
{
    match &parts.scheme {
        Some(scheme) => same_text(scheme.as_str(), "http") || same_text(scheme.as_str(), "https"),
        None => false,
    }
}

/// An absolute http(s) URL has one of the two schemes and a host; nothing else is one.
pub proof fn law_http_urls_have_scheme_and_host(
    parts: Result<(Option<Seq<char>>, Option<Seq<char>>), Seq<char>>,
)
    ensures
        is_http_url(parts) <==> parts is Ok && parts->Ok_0.1 is Some && (parts->Ok_0.0 == Some(
            "http"@,
        ) || parts->Ok_0.0 == Some("https"@)),
{
}

} // verus!

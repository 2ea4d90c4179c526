//! The method gate and the extraction of the target URL from the request path.
use vstd::prelude::*;
use crate::error::ProxyError;
use crate::authority::{host_of, host_of_authority};
use crate::text::{has_prefix, same_text, starts_with, strip_leading_slash};

verus! {

/// What `http::Uri`'s parser makes of a text: `None` where it rejects the text,
/// otherwise the scheme and the authority (`userinfo@host:port`, as bytes) that it
/// finds, each possibly absent.
pub uninterp spec fn uri_parts_of(s: Seq<char>) -> Option<(Option<Seq<char>>, Option<Seq<u8>>)>;

/// Scheme and authority of a parsed URI, as plain values.
pub struct UriParts {
    pub scheme: Option<String>,
    pub authority: Option<Vec<u8>>,
}

/// The characters of an optional string.
pub open spec fn opt_text(o: Option<String>) -> Option<Seq<char>> {
    match o {
        Some(t) => Some(t@),
        None => None,
    }
}

/// The bytes of an optional byte vector.
pub open spec fn opt_bytes(o: Option<Vec<u8>>) -> Option<Seq<u8>> {
    match o {
        Some(v) => Some(v@),
        None => None,
    }
}

/// Relies on `<actix_web::http::Uri as FromStr>::from_str`, with `Uri::scheme_str` and
/// `Uri::authority_part` (its `as_str`) read off the parsed value: the outcome depends on
/// the text alone, and the parser rejects an empty text.
#[verifier::external_body]
fn parse_uri_parts(s: &str) -> (r: Option<UriParts>)
    ensures
        r is Some <==> uri_parts_of(s@) is Some,
        r matches Some(p) ==> uri_parts_of(s@) == Some((opt_text(p.scheme), opt_bytes(p.authority))),
        s@.len() == 0 ==> r is None,
{
    match s.parse::<actix_web::http::Uri>() {
        Ok(uri) => Some(UriParts {
            scheme: uri.scheme_str().map(|x| x.to_string()),
            authority: uri.authority_part().map(|a| a.as_str().as_bytes().to_vec()),
        }),
        Err(_) => None,
    }
}

/// The schemes that may be proxied, compared case-sensitively.
pub open spec fn is_web_scheme(s: Seq<char>) -> bool {
    s == "http"@ || s == "https"@
}

/// The text that a request path names as its target: the path without one leading `/`.
pub open spec fn target_text(path: Seq<char>) -> Seq<char> {
    if path.len() > 0 && path[0] == '/' {
        path.drop_first()
    } else {
        path
    }
}

/// A path is accepted when it is non-empty and its target parses with a non-empty host
/// and a scheme `http` or `https`, written exactly so at the start of the target.
pub open spec fn accepts_path(path: Seq<char>) -> bool {
    &&& path.len() > 0
    &&& match uri_parts_of(target_text(path)) {
        Some((Some(scheme), Some(auth))) => {
            &&& is_web_scheme(scheme)
            &&& starts_with(target_text(path), scheme)
            &&& (host_of(auth) matches Some(host) && host.len() > 0)
        },
        _ => false,
    }
}

/// An absolute URL that passed validation, kept verbatim with the parts that were checked.
#[derive(Debug)]
pub struct TargetUrl {
    /// The URL exactly as it stood in the request path.
    pub url: String,
    /// The scheme the parser found: `http` or `https`.
    pub scheme: String,
    /// The host found in the authority, as bytes.
    pub host: Vec<u8>,
}

impl TargetUrl {
    /// The parser found this scheme and an authority with this host in the URL; the
    /// scheme is http or https as written, and the host is not empty.
    pub open spec fn valid(&self) -> bool {
        &&& match uri_parts_of(self.url@) {
            Some((Some(scheme), Some(auth))) => scheme == self.scheme@ && host_of(auth) == Some(
                self.host@,
            ),
            _ => false,
        }
        &&& is_web_scheme(self.scheme@)
        &&& starts_with(self.url@, self.scheme@)
        &&& self.host@.len() > 0
    }
}

/// True exactly for the schemes `http` and `https`.
pub fn is_valid_scheme(scheme: Option<&str>) -> (r: bool)
    ensures
        r == (scheme matches Some(s) && is_web_scheme(s@)),
{
    match scheme {
        Some(s) => same_text(s, "https") || same_text(s, "http"),
        None => false,
    }
}

/// Passes only the GET method.
pub fn is_get_method(method: &str) -> (r: Result<(), ProxyError>)
    ensures
        r == (if method@ == "GET"@ {
            Ok::<(), ProxyError>(())
        } else {
            Err(ProxyError::MethodNotSupported)
        }),
{
    if same_text(method, "GET") {
        Ok(())
    } else {
        Err(ProxyError::MethodNotSupported)
    }
}

/// Extracts and validates the target URL of a request target (the path with its
/// query, as it stands in the request line).
pub fn parse_uri(path: &str) -> (r: Result<TargetUrl, ProxyError>)
    ensures
        r is Ok <==> accepts_path(path@),
        r is Err ==> r == Err::<TargetUrl, ProxyError>(ProxyError::UnableToParseUri),
        r matches Ok(t) ==> t.url@ == target_text(path@) && t.valid(),
        path@.len() == 0 || path@ == "/"@ ==> r == Err::<TargetUrl, ProxyError>(
            ProxyError::UnableToParseUri,
        ),
{
    proof {
        reveal_strlit("/");
    }
    if path.is_empty() {
        return Err(ProxyError::UnableToParseUri);
    }
    let rest = match strip_leading_slash(path) {
        Some(rest) => rest,
        None => path,
    };
    match parse_uri_parts(rest) {
        Some(parts) => match (parts.scheme, parts.authority) {
            (Some(scheme), Some(auth)) => {
                if !is_valid_scheme(Some(scheme.as_str())) || !has_prefix(rest, scheme.as_str()) {
                    return Err(ProxyError::UnableToParseUri);
                }
                match host_of_authority(auth.as_slice()) {
                    Some(host) => {
                        if host.len() > 0 {
                            Ok(TargetUrl { url: rest.to_owned(), scheme, host })
                        } else {
                            Err(ProxyError::UnableToParseUri)
                        }
                    },
                    None => Err(ProxyError::UnableToParseUri),
                }
            },
            _ => Err(ProxyError::UnableToParseUri),
        },
        None => Err(ProxyError::UnableToParseUri),
    }
}

} // verus!

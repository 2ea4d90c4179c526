//! The per-request decisions: which answer a request gets before anything is
//! sent upstream, and which answer an upstream outcome becomes.
use vstd::prelude::*;
use crate::authority::host_of;
use crate::error::{error_message, error_status, send_failure_error, ProxyError, SendFailure, USAGE};
use crate::headers::{
    allow_origin_name, connection_name, content_length_name, cors_header, forwarded_headers,
    headers_view, is_dropped_name, is_kept, kept_headers, same_name, translate_response,
    ResponseHead,
};
use crate::target::{
    accepts_path, is_get_method, is_web_scheme, parse_uri, target_text, uri_parts_of, TargetUrl,
};
use crate::text::{same_text, starts_with};

verus! {

/// What to do with an inbound request.
#[derive(Debug)]
pub enum Route {
    /// Answer 200 with the usage text.
    Usage,
    /// Send a GET to this URL and relay the answer.
    Forward(TargetUrl),
    /// Answer with this error.
    Reject(ProxyError),
}

/// The error a request is refused with before anything is sent, if any.
pub open spec fn refusal(method: Seq<char>, path: Seq<char>) -> Option<ProxyError> {
    if method != "GET"@ {
        Some(ProxyError::MethodNotSupported)
    } else if path == "/"@ {
        None
    } else if !accepts_path(path) {
        Some(ProxyError::UnableToParseUri)
    } else {
        None
    }
}

/// Method gate followed by URL extraction from the request target (path and query).
pub fn proxy_target(method: &str, path: &str) -> (r: Result<TargetUrl, ProxyError>)
    ensures
        method@ != "GET"@ ==> r == Err::<TargetUrl, ProxyError>(ProxyError::MethodNotSupported),
        method@ == "GET"@ ==> (r is Ok <==> accepts_path(path@)),
        method@ == "GET"@ && r is Err ==> r == Err::<TargetUrl, ProxyError>(
            ProxyError::UnableToParseUri,
        ),
        r matches Ok(t) ==> t.url@ == target_text(path@) && t.valid(),
{
    match is_get_method(method) {
        Ok(()) => parse_uri(path),
        Err(e) => Err(e),
    }
}

/// Decides the answer to a request from its method and its request target (the
/// path with its query): the usage text for `GET /`, an error, or a target to
/// forward to.
pub fn route(method: &str, path: &str) -> (r: Route)
    ensures
        r is Usage <==> (method@ == "GET"@ && path@ == "/"@),
        r is Reject <==> refusal(method@, path@) is Some,
        r matches Route::Reject(e) ==> refusal(method@, path@) == Some(e),
        r matches Route::Forward(t) ==> t.url@ == target_text(path@) && t.valid(),
        r is Forward <==> (method@ == "GET"@ && path@ != "/"@ && accepts_path(path@)),
{
    if same_text(method, "GET") && same_text(path, "/") {
        return Route::Usage;
    }
    match proxy_target(method, path) {
        Ok(t) => Route::Forward(t),
        Err(e) => Route::Reject(e),
    }
}

/// Turns the outcome of the outbound request into the head of the answer, or the
/// error that reports its failure.
pub fn proxy_response(upstream: Result<ResponseHead, SendFailure>) -> (r: Result<
    ResponseHead,
    ProxyError,
>)
    ensures
        upstream matches Ok(u) ==> (r matches Ok(h) && h.status == u.status && headers_view(
            h.headers@,
        ) == forwarded_headers(headers_view(u.headers@))),
        upstream matches Err(f) ==> r == Err::<ResponseHead, ProxyError>(send_failure_error(f)),
{
    match upstream {
        Ok(u) => Ok(translate_response(u.status, &u.headers)),
        Err(f) => Err(ProxyError::from_send_failure(f)),
    }
}

/// Every request whose method is not GET is refused with status 405 and the bare usage text.
pub proof fn non_get_is_refused(method: Seq<char>, path: Seq<char>)
    requires
        method != "GET"@,
    ensures
        refusal(method, path) == Some(ProxyError::MethodNotSupported),
        error_status(ProxyError::MethodNotSupported) == 405,
        error_message(ProxyError::MethodNotSupported) == USAGE@,
{
}

/// A target whose scheme is missing, other than `http` / `https`, or not written in
/// exactly that case at the start of the target, is refused with status 400.
pub proof fn unsupported_scheme_is_refused(path: Seq<char>)
    requires
        !(uri_parts_of(target_text(path)) matches Some((Some(s), _)) && is_web_scheme(s)
            && starts_with(target_text(path), s)),
    ensures
        !accepts_path(path),
        path != "/"@ ==> refusal("GET"@, path) == Some(ProxyError::UnableToParseUri),
        error_status(ProxyError::UnableToParseUri) == 400,
{
}

/// A target that parses without an authority, or whose host is absent or empty, is
/// refused with status 400.
pub proof fn missing_host_is_refused(path: Seq<char>)
    requires
        uri_parts_of(target_text(path)) matches Some((_, None)) || (uri_parts_of(
            target_text(path),
        ) matches Some((_, Some(auth))) && !(host_of(auth) matches Some(h) && h.len() > 0)),
    ensures
        !accepts_path(path),
        path != "/"@ ==> refusal("GET"@, path) == Some(ProxyError::UnableToParseUri),
        error_status(ProxyError::UnableToParseUri) == 400,
{
}

/// A non-empty path whose target parses with a non-empty host and a scheme `http` or
/// `https`, written so at its start, is accepted; the URL forwarded is the target
/// text itself (see `route`).
pub proof fn valid_target_is_forwarded(path: Seq<char>, scheme: Seq<char>, auth: Seq<u8>)
    requires
        path.len() > 0,
        uri_parts_of(target_text(path)) == Some((Some(scheme), Some(auth))),
        is_web_scheme(scheme),
        starts_with(target_text(path), scheme),
        host_of(auth) matches Some(h) && h.len() > 0,
    ensures
        accepts_path(path),
        path != "/"@ ==> refusal("GET"@, path) == None::<ProxyError>,
{
}

/// The forwarded headers end with `access-control-allow-origin: *`, which is the only
/// header of that name; no `connection` or `content-length` header is among them, in
/// any case; every other upstream header is among them unchanged.
pub proof fn forwarded_headers_are_rewritten(hs: Seq<(Seq<u8>, Seq<u8>)>)
    ensures
        forwarded_headers(hs).last() == cors_header(),
        cors_header().1 == seq!['*' as u8],
        forall|i: int|
            0 <= i < forwarded_headers(hs).len() && same_name(
                #[trigger] forwarded_headers(hs)[i].0,
                allow_origin_name(),
            ) ==> forwarded_headers(hs)[i] == cors_header(),
        forall|i: int|
            0 <= i < forwarded_headers(hs).len() ==> !same_name(
                #[trigger] forwarded_headers(hs)[i].0,
                connection_name(),
            ) && !same_name(forwarded_headers(hs)[i].0, content_length_name()),
        forall|i: int|
            0 <= i < hs.len() && !is_dropped_name(#[trigger] hs[i].0) ==> forwarded_headers(
                hs,
            ).contains(hs[i]),
{
    let kept = kept_headers(hs);
    let out = forwarded_headers(hs);
    hs.filter_lemma(|h: (Seq<u8>, Seq<u8>)| is_kept(h));
    assert forall|i: int| 0 <= i < out.len() implies !same_name(out[i].0, connection_name())
        && !same_name(out[i].0, content_length_name()) && (same_name(out[i].0, allow_origin_name())
        ==> out[i] == cors_header()) by {
        if i < kept.len() {
            assert(out[i] == kept[i]);
        } else {
            assert(out[i] == cors_header());
            assert(allow_origin_name().len() == 27);
        }
    }
    assert forall|i: int| 0 <= i < hs.len() && !is_dropped_name(#[trigger] hs[i].0) implies out.contains(hs[i]) by {
        assert(kept.contains(hs[i]));
        let k = choose|k: int| 0 <= k < kept.len() && kept[k] == hs[i];
        assert(out[k] == hs[i]);
    }
}

/// A failed connection, or a URL the client rejects, is answered with status 400 and
/// a message that starts with the reason; any other transport failure with status
/// 500 and the bare usage text.
pub proof fn send_failures_are_reported(reason: String)
    ensures
        error_status(send_failure_error(SendFailure::Connect(reason))) == 400,
        error_status(send_failure_error(SendFailure::Url(reason))) == 400,
        error_message(send_failure_error(SendFailure::Connect(reason))).subrange(0, reason@.len() as int) == reason@,
        error_message(send_failure_error(SendFailure::Url(reason))).subrange(0, reason@.len() as int) == reason@,
        error_status(send_failure_error(SendFailure::Other)) == 500,
        error_message(send_failure_error(SendFailure::Other)) == USAGE@,
{
    let m = error_message(send_failure_error(SendFailure::Connect(reason)));
    assert(m.subrange(0, reason@.len() as int) =~= reason@);
}

} // verus!

//! The closed set of failures of the proxy, and how each is rendered.
use vstd::prelude::*;
use vstd::string::StringExecFns;

verus! {

/// Text returned for the root path and appended to every error message.
pub const USAGE: &'static str = "Usage: GET /URL\n";

/// Why a request could not be proxied.
#[derive(Debug, PartialEq, Eq)]
pub enum ProxyError {
    /// The inbound method was not GET.
    MethodNotSupported,
    /// The path is missing, does not parse, has no host, or a scheme other than http/https.
    UnableToParseUri,
    /// The outbound URL could not be built or the connection failed; holds the reason.
    RequestError(String),
    /// Any other failure of the outbound transport.
    InternalServerError,
}

/// Transport failure classes reported by the outbound client, reduced to what
/// the proxy distinguishes.
#[derive(Debug, PartialEq, Eq)]
pub enum SendFailure {
    /// The request URL was rejected by the client; holds its description.
    Url(String),
    /// Connecting to the target failed; holds its description.
    Connect(String),
    /// Any other failure (timeout, TLS, protocol, ...).
    Other,
}

/// Status code of the HTTP response that reports an error.
pub open spec fn error_status(e: ProxyError) -> u16 {
    match e {
        ProxyError::MethodNotSupported => 405,
        ProxyError::UnableToParseUri => 400,
        ProxyError::RequestError(_) => 400,
        ProxyError::InternalServerError => 500,
    }
}

/// Body of the HTTP response that reports an error.
pub open spec fn error_message(e: ProxyError) -> Seq<char> {
    match e {
        ProxyError::UnableToParseUri => "Unable to parse URL\n"@ + USAGE@,
        ProxyError::RequestError(reason) => reason@ + "\n"@ + USAGE@,
        _ => USAGE@,
    }
}

/// Error that a transport failure is reported as.
pub open spec fn send_failure_error(f: SendFailure) -> ProxyError {
    match f {
        SendFailure::Url(reason) => ProxyError::RequestError(reason),
        SendFailure::Connect(reason) => ProxyError::RequestError(reason),
        SendFailure::Other => ProxyError::InternalServerError,
    }
}

impl ProxyError {
    /// The status code of the error response.
    pub fn status_code(&self) -> (r: u16)
        ensures
            r == error_status(*self),
    {
        match self {
            ProxyError::MethodNotSupported => 405,
            ProxyError::UnableToParseUri => 400,
            ProxyError::RequestError(_) => 400,
            ProxyError::InternalServerError => 500,
        }
    }

    /// The plain-text body of the error response.
    pub fn message(&self) -> (r: String)
        ensures
            r@ == error_message(*self),
    {
        match self {
            ProxyError::UnableToParseUri => "Unable to parse URL\n".to_owned().concat(USAGE),
            ProxyError::RequestError(reason) => reason.as_str().to_owned().concat("\n").concat(USAGE),
            _ => USAGE.to_owned(),
        }
    }

    /// Maps a failure of the outbound request to the error reported to the caller.
    pub fn from_send_failure(f: SendFailure) -> (r: ProxyError)
        ensures
            r == send_failure_error(f),
    {
        match f {
            SendFailure::Url(reason) => ProxyError::RequestError(reason),
            SendFailure::Connect(reason) => ProxyError::RequestError(reason),
            SendFailure::Other => ProxyError::InternalServerError,
        }
    }
}

} // verus!

//! Decision logic of a GET-only forwarding proxy with permissive CORS headers.
//!
//! The target URL is taken from the request path and validated, the upstream
//! response head is rewritten, and transport failures are mapped to errors.
//! Performing the requests and streaming bodies is left to the caller.
use vstd::prelude::*;

pub mod authority;
pub mod error;
pub mod headers;
pub mod pipeline;
pub mod target;
pub mod text;

pub use error::{ProxyError, SendFailure, USAGE};
pub use headers::{translate_response, Header, ResponseHead};
pub use pipeline::{proxy_response, proxy_target, route, Route};
pub use target::{is_get_method, is_valid_scheme, parse_uri, TargetUrl};

use cors_proxy::authority::host_of_authority;
use cors_proxy::text::has_prefix;
use cors_proxy::{
    is_get_method, is_valid_scheme, parse_uri, proxy_response, proxy_target, route,
    translate_response, Header, ProxyError, ResponseHead, Route, SendFailure, USAGE,
};

fn header(name: &str, value: &str) -> Header {
    Header { name: name.as_bytes().to_vec(), value: value.as_bytes().to_vec() }
}

fn pairs(hs: &[Header]) -> Vec<(String, String)> {
    hs.iter()
        .map(|h| {
            (String::from_utf8(h.name.clone()).unwrap(), String::from_utf8(h.value.clone()).unwrap())
        })
        .collect()
}

#[test]
fn non_get_methods_are_refused_with_405_and_usage() {
    for method in ["POST", "PUT", "DELETE", "HEAD", "OPTIONS", "PATCH", "get"] {
        match route(method, "/https://example.com/") {
            Route::Reject(e) => {
                assert_eq!(e, ProxyError::MethodNotSupported);
                assert_eq!(e.status_code(), 405);
                assert_eq!(e.message(), USAGE);
            }
            other => panic!("unexpected route {:?}", other),
        }
    }
}

#[test]
fn method_gate_passes_only_get() {
    assert_eq!(is_get_method("GET"), Ok(()));
    assert_eq!(is_get_method("get"), Err(ProxyError::MethodNotSupported));
    assert_eq!(is_get_method(""), Err(ProxyError::MethodNotSupported));
}

#[test]
fn empty_and_root_paths_do_not_parse() {
    assert_eq!(parse_uri("").unwrap_err(), ProxyError::UnableToParseUri);
    assert_eq!(parse_uri("/").unwrap_err(), ProxyError::UnableToParseUri);
    assert_eq!(ProxyError::UnableToParseUri.status_code(), 400);
}

#[test]
fn unsupported_schemes_are_refused() {
    assert_eq!(parse_uri("/ftp://x").unwrap_err(), ProxyError::UnableToParseUri);
    assert_eq!(parse_uri("/example.com").unwrap_err(), ProxyError::UnableToParseUri);
    assert_eq!(parse_uri("/ws://example.com/a").unwrap_err(), ProxyError::UnableToParseUri);
    match route("GET", "/ftp://x") {
        Route::Reject(e) => assert_eq!(e.status_code(), 400),
        other => panic!("unexpected route {:?}", other),
    }
}

#[test]
fn target_without_host_is_refused() {
    assert_eq!(parse_uri("/http:///path").unwrap_err(), ProxyError::UnableToParseUri);
    assert_eq!(
        proxy_target("GET", "/http:///path").unwrap_err(),
        ProxyError::UnableToParseUri
    );
}

#[test]
fn valid_target_is_kept_verbatim() {
    let t = parse_uri("/https://api.example.com/data?limit=10").unwrap();
    assert_eq!(t.url, "https://api.example.com/data?limit=10");
    assert_eq!(t.scheme, "https");
    assert_eq!(t.host, b"api.example.com".to_vec());
    let t = parse_uri("/http://example.com:8080/a/b?x=1&y=2#frag").unwrap();
    assert_eq!(t.scheme, "http");
    assert_eq!(t.host, b"example.com".to_vec());
    match route("GET", "/https://example.com/page?x=1") {
        Route::Forward(t) => assert_eq!(t.url, "https://example.com/page?x=1"),
        other => panic!("unexpected route {:?}", other),
    }
}

#[test]
fn scheme_check_is_exact() {
    assert!(is_valid_scheme(Some("http")));
    assert!(is_valid_scheme(Some("https")));
    assert!(!is_valid_scheme(Some("HTTP")));
    assert!(!is_valid_scheme(Some("ftp")));
    assert!(!is_valid_scheme(Some("")));
    assert!(!is_valid_scheme(None));
}

#[test]
fn response_head_is_rewritten() {
    let upstream = vec![
        header("content-type", "text/html"),
        header("Connection", "keep-alive"),
        header("CONTENT-LENGTH", "1234"),
        header("access-control-allow-origin", "https://only.example"),
        header("x-custom", "a b c"),
    ];
    let head = translate_response(201, &upstream);
    assert_eq!(head.status, 201);
    assert_eq!(
        pairs(&head.headers),
        vec![
            ("content-type".to_string(), "text/html".to_string()),
            ("x-custom".to_string(), "a b c".to_string()),
            ("access-control-allow-origin".to_string(), "*".to_string()),
        ]
    );
}

#[test]
fn cors_header_is_added_when_upstream_has_none() {
    let head = translate_response(404, &Vec::new());
    assert_eq!(head.status, 404);
    assert_eq!(
        pairs(&head.headers),
        vec![("access-control-allow-origin".to_string(), "*".to_string())]
    );
}

#[test]
fn similar_header_names_are_kept() {
    let upstream = vec![header("connections", "1"), header("content-lengt", "2")];
    let head = translate_response(200, &upstream);
    assert_eq!(head.headers.len(), 3);
    assert_eq!(head.headers[0].name, b"connections".to_vec());
    assert_eq!(head.headers[1].name, b"content-lengt".to_vec());
}

#[test]
fn upstream_success_becomes_response_head() {
    let upstream = ResponseHead { status: 302, headers: vec![header("location", "/x")] };
    let head = proxy_response(Ok(upstream)).unwrap();
    assert_eq!(head.status, 302);
    assert_eq!(
        pairs(&head.headers),
        vec![
            ("location".to_string(), "/x".to_string()),
            ("access-control-allow-origin".to_string(), "*".to_string()),
        ]
    );
}

#[test]
fn connection_failure_reports_reason_with_400() {
    let e = proxy_response(Err(SendFailure::Connect("Failed resolving hostname".to_string())))
        .unwrap_err();
    assert_eq!(e, ProxyError::RequestError("Failed resolving hostname".to_string()));
    assert_eq!(e.status_code(), 400);
    assert_eq!(e.message(), "Failed resolving hostname\nUsage: GET /URL\n");
    let e = proxy_response(Err(SendFailure::Url("bad url".to_string()))).unwrap_err();
    assert_eq!(e.status_code(), 400);
    assert!(e.message().contains("bad url"));
}

#[test]
fn other_transport_failure_is_500_with_usage() {
    let e = proxy_response(Err(SendFailure::Other)).unwrap_err();
    assert_eq!(e, ProxyError::InternalServerError);
    assert_eq!(e.status_code(), 500);
    assert_eq!(e.message(), USAGE);
}

#[test]
fn error_messages() {
    assert_eq!(ProxyError::UnableToParseUri.message(), "Unable to parse URL\nUsage: GET /URL\n");
    assert_eq!(ProxyError::MethodNotSupported.message(), "Usage: GET /URL\n");
    assert_eq!(ProxyError::RequestError(String::new()).message(), "\nUsage: GET /URL\n");
}

#[test]
fn root_path_gets_usage() {
    assert!(matches!(route("GET", "/"), Route::Usage));
    assert_eq!(USAGE, "Usage: GET /URL\n");
    assert!(matches!(route("GET", ""), Route::Reject(ProxyError::UnableToParseUri)));
}

#[test]
fn uppercase_scheme_is_refused() {
    assert_eq!(parse_uri("/HTTP://example.com/").unwrap_err(), ProxyError::UnableToParseUri);
    assert_eq!(parse_uri("/Https://example.com/").unwrap_err(), ProxyError::UnableToParseUri);
}

#[test]
fn empty_host_is_refused() {
    assert_eq!(parse_uri("/http://:80/").unwrap_err(), ProxyError::UnableToParseUri);
    assert_eq!(parse_uri("/http://user@:80/").unwrap_err(), ProxyError::UnableToParseUri);
}

#[test]
fn unbalanced_brackets_are_refused_without_panic() {
    assert_eq!(parse_uri("/http://]@[x/").unwrap_err(), ProxyError::UnableToParseUri);
    assert!(matches!(route("GET", "/http://]@[x/"), Route::Reject(ProxyError::UnableToParseUri)));
}

#[test]
fn host_is_taken_from_the_authority() {
    let t = parse_uri("/http://user:pw@example.com:8080/x").unwrap();
    assert_eq!(t.host, b"example.com".to_vec());
    assert_eq!(t.url, "http://user:pw@example.com:8080/x");
    let t = parse_uri("/http://[::1]:8080/").unwrap();
    assert_eq!(t.host, b"[::1]".to_vec());
}

#[test]
fn host_of_authority_cases() {
    assert_eq!(host_of_authority(b"example.org:80"), Some(b"example.org".to_vec()));
    assert_eq!(host_of_authority(b"a@b@host"), Some(b"host".to_vec()));
    assert_eq!(host_of_authority(b"u@[fe80::1]:443"), Some(b"[fe80::1]".to_vec()));
    assert_eq!(host_of_authority(b"]@[x"), None);
    assert_eq!(host_of_authority(b":80"), Some(Vec::new()));
    assert_eq!(host_of_authority(b""), Some(Vec::new()));
}

#[test]
fn prefix_test_is_exact() {
    assert!(has_prefix("https://x", "https"));
    assert!(has_prefix("http", "http"));
    assert!(!has_prefix("HTTP://x", "http"));
    assert!(!has_prefix("htt", "http"));
    assert!(has_prefix("\u{e9}t\u{e9}", "\u{e9}"));
    assert!(has_prefix("abc", ""));
}

#[test]
fn query_after_target_is_kept() {
    match route("GET", "/https://api.example.com/data?limit=10") {
        Route::Forward(t) => assert_eq!(t.url, "https://api.example.com/data?limit=10"),
        other => panic!("unexpected route {:?}", other),
    }
}

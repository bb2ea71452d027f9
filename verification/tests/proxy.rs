use std::sync::Arc;

use http_mtls_proxy::address::Url;
use http_mtls_proxy::builders::{ClientAuthenticationMappingBuilder, ClientAuthenticationMappingBuilders};
use http_mtls_proxy::cli::{kv, mapping_key, request_mapping};
use http_mtls_proxy::config_error::ConfigError;
use http_mtls_proxy::forward::{
    handle, inbound_url, is_host_header, outbound_headers, prepare, upstream_address, ForwardError, Header,
    InboundRequest,
};
use http_mtls_proxy::mapping::{ClientAuthenticationMapping, IdentityError, RequestMapping};
use http_mtls_proxy::pattern::{url_pattern, Captures, PatternError};
use http_mtls_proxy::route_error::RouteError;
use http_mtls_proxy::router::Router;
use http_mtls_proxy::template::{FillError, UrlTemplate};
use http_mtls_proxy::tls::{CredentialError, PemFile};
use http_mtls_proxy::Cli;

const CERT_DER: [u8; 377] = [
    48, 130, 1, 117, 48, 130, 1, 27, 160, 3, 2, 1, 2, 2, 20, 117,
    18, 91, 45, 134, 193, 173, 223, 123, 229, 68, 104, 254, 52, 44, 114, 209,
    200, 34, 210, 48, 10, 6, 8, 42, 134, 72, 206, 61, 4, 3, 2, 48,
    15, 49, 13, 48, 11, 6, 3, 85, 4, 3, 12, 4, 116, 101, 115, 116,
    48, 32, 23, 13, 50, 54, 49, 48, 50, 56, 50, 49, 50, 51, 50, 55,
    90, 24, 15, 50, 49, 50, 54, 49, 48, 48, 52, 50, 49, 50, 51, 50,
    55, 90, 48, 15, 49, 13, 48, 11, 6, 3, 85, 4, 3, 12, 4, 116,
    101, 115, 116, 48, 89, 48, 19, 6, 7, 42, 134, 72, 206, 61, 2, 1,
    6, 8, 42, 134, 72, 206, 61, 3, 1, 7, 3, 66, 0, 4, 220, 242,
    53, 131, 251, 104, 59, 217, 106, 161, 39, 181, 199, 221, 38, 100, 248, 61,
    33, 229, 49, 8, 241, 18, 203, 248, 152, 13, 244, 83, 33, 4, 38, 81,
    81, 86, 86, 0, 8, 79, 161, 22, 189, 216, 43, 119, 196, 230, 237, 232,
    163, 219, 90, 125, 49, 48, 201, 208, 124, 34, 67, 223, 183, 243, 163, 83,
    48, 81, 48, 29, 6, 3, 85, 29, 14, 4, 22, 4, 20, 122, 173, 94,
    2, 203, 58, 189, 160, 44, 32, 218, 72, 225, 181, 81, 71, 105, 97, 227,
    177, 48, 31, 6, 3, 85, 29, 35, 4, 24, 48, 22, 128, 20, 122, 173,
    94, 2, 203, 58, 189, 160, 44, 32, 218, 72, 225, 181, 81, 71, 105, 97,
    227, 177, 48, 15, 6, 3, 85, 29, 19, 1, 1, 255, 4, 5, 48, 3,
    1, 1, 255, 48, 10, 6, 8, 42, 134, 72, 206, 61, 4, 3, 2, 3,
    72, 0, 48, 69, 2, 33, 0, 148, 236, 254, 193, 113, 73, 240, 6, 165,
    24, 95, 209, 148, 144, 85, 34, 85, 37, 118, 222, 138, 28, 185, 55, 164,
    134, 191, 212, 150, 28, 10, 221, 2, 32, 41, 28, 168, 154, 233, 66, 54,
    209, 134, 203, 58, 63, 201, 11, 91, 21, 124, 119, 14, 193, 131, 68, 195,
    98, 2, 41, 0, 162, 6, 67, 165, 205,
];

const PKCS8_DER: [u8; 138] = [
    48, 129, 135, 2, 1, 0, 48, 19, 6, 7, 42, 134, 72, 206, 61, 2,
    1, 6, 8, 42, 134, 72, 206, 61, 3, 1, 7, 4, 109, 48, 107, 2,
    1, 1, 4, 32, 53, 68, 235, 120, 0, 157, 170, 4, 24, 22, 18, 140,
    51, 158, 135, 78, 45, 244, 111, 19, 28, 25, 32, 226, 123, 174, 202, 237,
    218, 221, 129, 196, 161, 68, 3, 66, 0, 4, 220, 242, 53, 131, 251, 104,
    59, 217, 106, 161, 39, 181, 199, 221, 38, 100, 248, 61, 33, 229, 49, 8,
    241, 18, 203, 248, 152, 13, 244, 83, 33, 4, 38, 81, 81, 86, 86, 0,
    8, 79, 161, 22, 189, 216, 43, 119, 196, 230, 237, 232, 163, 219, 90, 125,
    49, 48, 201, 208, 124, 34, 67, 223, 183, 243,
];

const SEC1_DER: [u8; 121] = [
    48, 119, 2, 1, 1, 4, 32, 53, 68, 235, 120, 0, 157, 170, 4, 24,
    22, 18, 140, 51, 158, 135, 78, 45, 244, 111, 19, 28, 25, 32, 226, 123,
    174, 202, 237, 218, 221, 129, 196, 160, 10, 6, 8, 42, 134, 72, 206, 61,
    3, 1, 7, 161, 68, 3, 66, 0, 4, 220, 242, 53, 131, 251, 104, 59,
    217, 106, 161, 39, 181, 199, 221, 38, 100, 248, 61, 33, 229, 49, 8, 241,
    18, 203, 248, 152, 13, 244, 83, 33, 4, 38, 81, 81, 86, 86, 0, 8,
    79, 161, 22, 189, 216, 43, 119, 196, 230, 237, 232, 163, 219, 90, 125, 49,
    48, 201, 208, 124, 34, 67, 223, 183, 243,
];

fn base64(data: &[u8]) -> String {
    let alphabet: Vec<char> =
        "ABCDEFGHIJKLMNOPQRSTUVWXYZabcdefghijklmnopqrstuvwxyz0123456789+/".chars().collect();
    let mut out = String::new();
    for chunk in data.chunks(3) {
        let b0 = chunk[0] as u32;
        let b1 = if chunk.len() > 1 { chunk[1] as u32 } else { 0 };
        let b2 = if chunk.len() > 2 { chunk[2] as u32 } else { 0 };
        let n = (b0 << 16) | (b1 << 8) | b2;
        out.push(alphabet[((n >> 18) & 63) as usize]);
        out.push(alphabet[((n >> 12) & 63) as usize]);
        out.push(if chunk.len() > 1 { alphabet[((n >> 6) & 63) as usize] } else { '=' });
        out.push(if chunk.len() > 2 { alphabet[(n & 63) as usize] } else { '=' });
    }
    out
}

fn pem(label: &str, der: &[u8]) -> Vec<u8> {
    let dashes = "-".repeat(5);
    let body = base64(der);
    let mut text = format!("{dashes}BEGIN {label}{dashes}\n");
    let mut rest = body.as_str();
    while !rest.is_empty() {
        let cut = rest.len().min(64);
        text.push_str(&rest[..cut]);
        text.push('\n');
        rest = &rest[cut..];
    }
    text.push_str(&format!("{dashes}END {label}{dashes}\n"));
    text.into_bytes()
}

fn file(name: &str, contents: Vec<u8>) -> PemFile {
    PemFile { name: name.to_string(), contents }
}

fn cert_file(name: &str) -> PemFile {
    file(name, pem("CERTIFICATE", &CERT_DER))
}

fn key_file(name: &str) -> PemFile {
    file(name, pem("PRIVATE KEY", &PKCS8_DER))
}


fn files() -> Vec<PemFile> {
    vec![cert_file("a.crt"), key_file("a.key"), cert_file("b.crt"), key_file("b.key")]
}

fn url(text: &str) -> Url {
    Url::parse(text).ok().unwrap()
}

fn mapping(pattern: &str, template: &str) -> RequestMapping {
    RequestMapping::new(
        url_pattern(pattern.to_string()).ok().unwrap(),
        UrlTemplate::parse(template.to_string()).unwrap(),
    )
}

fn identity(name: &str, patterns: &[&str]) -> ClientAuthenticationMapping {
    ClientAuthenticationMapping::new(
        name.to_string(),
        patterns.iter().map(|p| url_pattern(p.to_string()).ok().unwrap()).collect(),
        "a.crt".to_string(),
        "a.key".to_string(),
        &files(),
    )
    .ok()
    .unwrap()
}

fn cli(client: &[&str], cert: &[&str], key: &[&str], mappings: &[&str]) -> Cli {
    let strings = |list: &[&str]| list.iter().map(|s| s.to_string()).collect::<Vec<String>>();
    Cli {
        client: strings(client),
        cert: strings(cert),
        key: strings(key),
        mapping1: mappings[0].to_string(),
        mapping: strings(&mappings[1..]),
    }
}

fn header(name: &str, value: &str) -> Header {
    Header { name: name.to_string(), value: value.as_bytes().to_vec() }
}

fn names(headers: &[Header]) -> Vec<(String, Vec<u8>)> {
    headers.iter().map(|h| (h.name.clone(), h.value.clone())).collect()
}

fn sorted(mut pairs: Vec<(String, String)>) -> Vec<(String, String)> {
    pairs.sort();
    pairs
}

fn pair(a: &str, b: &str) -> (String, String) {
    (a.to_string(), b.to_string())
}

#[test]
fn url_pattern_refuses_a_pattern_that_does_not_compile() {
    match url_pattern("https://example.com/:id/:id".to_string()) {
        Err(error @ PatternError::Compile { .. }) => {
            assert_eq!(error.message(), "Could not parse url pattern https://example.com/:id/:id")
        }
        other => panic!("unexpected {other:?}"),
    }
    assert!(url_pattern("/relative/only".to_string()).is_err());
    assert_eq!(url_pattern("*://*:9000/*".to_string()).ok().unwrap().as_str(), "*://*:9000/*");
}

#[test]
fn pattern_test_tells_matching_urls_apart() {
    let pattern = url_pattern("*://*:9000/foo/:path*".to_string()).ok().unwrap();
    assert_eq!(pattern.test(&url("http://localhost:9000/foo/bar/baz")).ok(), Some(true));
    assert_eq!(pattern.test(&url("http://localhost:9001/foo/bar/baz")).ok(), Some(false));
    assert_eq!(pattern.test(&url("http://localhost:9000/other")).ok(), Some(false));
}

#[test]
fn pattern_exec_returns_the_named_groups() {
    let pattern = url_pattern("*://*:9000/foo/:path*".to_string()).ok().unwrap();
    let captures = pattern.exec(&url("http://localhost:9000/foo/bar/baz")).ok().unwrap().unwrap();
    assert_eq!(captures.path, vec![pair("path", "bar/baz")]);
    assert!(pattern.exec(&url("http://localhost:9000/other")).ok().unwrap().is_none());
}

#[test]
fn pattern_exec_returns_query_groups() {
    let pattern = url_pattern("*://*:9000/items/:id\\?tenant=:tenant".to_string()).ok().unwrap();
    let captures = pattern.exec(&url("http://localhost:9000/items/7?tenant=acme")).ok().unwrap().unwrap();
    assert_eq!(captures.path, vec![pair("id", "7")]);
    assert_eq!(captures.query, vec![pair("tenant", "acme")]);
}

#[test]
fn captures_query_groups_override_path_groups() {
    let captures = Captures {
        path: vec![pair("id", "from-path"), pair("only-path", "p")],
        query: vec![pair("id", "from-query"), pair("only-query", "q")],
    };
    let variables = captures.to_variables();
    assert_eq!(variables.get("id"), Some(&"from-query".to_string()));
    assert_eq!(variables.get("only-path"), Some(&"p".to_string()));
    assert_eq!(variables.get("only-query"), Some(&"q".to_string()));
    assert_eq!(variables.get("absent"), None);
}

#[test]
fn request_mapping_query_capture_overrides_path_capture() {
    let m = mapping("*://*:9000/items/:id\\?id=:id", "https://example.com/{id}");
    let destination = m.destination(&url("http://localhost:9000/items/7?id=8")).unwrap();
    assert_eq!(destination.as_str(), "https://example.com/8");
}

#[test]
fn request_mapping_destination_fills_the_template() {
    let m = mapping("*://*:9000/foo/:path*", "https://example.com/{path}");
    let inbound = url("http://localhost:9000/foo/bar/baz");
    assert_eq!(m.test(&inbound).ok(), Some(true));
    assert_eq!(m.destination(&inbound).unwrap().as_str(), "https://example.com/bar/baz");
}

#[test]
fn request_mapping_without_captures_is_an_error() {
    let m = mapping("*://*:9000/foo/:path*", "https://example.com/{path}");
    let inbound = url("http://localhost:9000/elsewhere");
    assert_eq!(m.test(&inbound).ok(), Some(false));
    match m.destination(&inbound) {
        Err(error @ RouteError::NoCaptures { .. }) => assert_eq!(
            error.message(),
            "Could not extract variables from input url http://localhost:9000/elsewhere using pattern"
        ),
        other => panic!("unexpected {other:?}"),
    }
    match m.destination_from(&inbound, None) {
        Err(RouteError::NoCaptures { url }) => assert_eq!(url, "http://localhost:9000/elsewhere"),
        other => panic!("unexpected {other:?}"),
    }
}

#[test]
fn request_mapping_reports_a_missing_variable() {
    let m = mapping("*://*:9000/foo/:path*", "https://example.com/{other}");
    match m.destination(&url("http://localhost:9000/foo/x")) {
        Err(RouteError::Fill(FillError::MissingVariable { name })) => assert_eq!(name, "other"),
        other => panic!("unexpected {other:?}"),
    }
}

#[test]
fn identity_requires_a_name_and_a_pattern() {
    let patterns = || vec![url_pattern("*://example.com/*".to_string()).ok().unwrap()];
    match ClientAuthenticationMapping::new(String::new(), patterns(), "a.crt".into(), "a.key".into(), &files()) {
        Err(error @ IdentityError::EmptyName) => {
            assert_eq!(error.message(), "Client authentication mapping without a name")
        }
        other => panic!("unexpected {:?}", other.err()),
    }
    match ClientAuthenticationMapping::new("a".into(), Vec::new(), "a.crt".into(), "a.key".into(), &files()) {
        Err(error @ IdentityError::NoPatterns { .. }) => {
            assert_eq!(error.message(), "No url pattern defined for client authentication mapping 'a'")
        }
        other => panic!("unexpected {:?}", other.err()),
    }
    match ClientAuthenticationMapping::new("a".into(), patterns(), "none.crt".into(), "a.key".into(), &files()) {
        Err(error @ IdentityError::Credential { .. }) => assert_eq!(
            error.message(),
            "Could not build client authentication mapping 'a': cannot read file none.crt"
        ),
        other => panic!("unexpected {:?}", other.err()),
    }
}

#[test]
fn identity_test_is_true_iff_any_pattern_matches() {
    let a = identity("a", &["*://example.com/*", "*://*.example.org/*"]);
    assert_eq!(a.name(), "a");
    assert_eq!(a.test(&url("https://example.com/bar/baz")).ok(), Some(true));
    assert_eq!(a.test(&url("https://api.example.org/x")).ok(), Some(true));
    assert_eq!(a.test(&url("https://example.net/x")).ok(), Some(false));
}

#[test]
fn identity_config_is_shared() {
    let a = identity("a", &["*://example.com/*"]);
    assert!(Arc::ptr_eq(&a.config(), &a.config()));
    let b = identity("b", &["*://example.com/*"]);
    assert!(!Arc::ptr_eq(&a.config(), &b.config()));
}

#[test]
fn router_no_matching_mapping() {
    let router = Router::new(
        vec![identity("a", &["*://*/*"])],
        vec![mapping("*://*:9000/foo/:path*", "https://example.com/{path}")],
    );
    let (config, destination) = router.get_destination(&url("http://localhost:9000/bar")).unwrap();
    assert!(config.is_none());
    assert!(destination.is_none());
    assert!(router.destination_for(&url("http://localhost:9000/bar")).unwrap().is_none());
    let empty = Router::new(Vec::new(), Vec::new());
    let (config, destination) = empty.get_destination(&url("http://localhost:9000/foo/x")).unwrap();
    assert!(config.is_none() && destination.is_none());
    assert_eq!(empty.mapping_count(), 0);
    assert_eq!(empty.identity_count(), 0);
}

#[test]
fn router_first_declared_mapping_wins() {
    let router = Router::new(
        Vec::new(),
        vec![
            mapping("*://*:9000/other/*", "https://zero.example/"),
            mapping("*://*:9000/foo/:path*", "https://first.example/{path}"),
            mapping("*://*:9000/foo/:rest*", "https://second.example/{rest}"),
        ],
    );
    assert_eq!(router.mapping_count(), 3);
    let destination = router.destination_for(&url("http://localhost:9000/foo/x")).unwrap().unwrap();
    assert_eq!(destination.as_str(), "https://first.example/x");
    let destination = router.destination_for(&url("http://localhost:9000/other/x")).unwrap().unwrap();
    assert_eq!(destination.as_str(), "https://zero.example/");
}

#[test]
fn router_identity_miss() {
    let router = Router::new(
        vec![identity("a", &["*://other.example/*"])],
        vec![mapping("*://*:9000/foo/:path*", "https://example.com/{path}")],
    );
    let (config, destination) = router.get_destination(&url("http://localhost:9000/foo/x")).unwrap();
    assert!(config.is_none());
    assert_eq!(destination.unwrap().as_str(), "https://example.com/x");
}

#[test]
fn router_selects_the_identity_by_the_destination() {
    let inbound_only = identity("inbound", &["*://localhost:9000/*"]);
    let by_destination = identity("destination", &["*://example.com/*"]);
    let expected = by_destination.config();
    let router = Router::new(
        vec![inbound_only, by_destination],
        vec![mapping("*://*:9000/foo/:path*", "https://example.com/{path}")],
    );
    let (config, destination) = router.get_destination(&url("http://localhost:9000/foo/x")).unwrap();
    assert_eq!(destination.unwrap().as_str(), "https://example.com/x");
    assert!(Arc::ptr_eq(&config.unwrap(), &expected));
}

#[test]
fn router_first_declared_identity_wins() {
    let first = identity("first", &["*://example.com/*"]);
    let second = identity("second", &["*://example.com/*"]);
    let expected = first.config();
    let router = Router::new(vec![first, second], Vec::new());
    assert_eq!(router.identity_count(), 2);
    let config = router.client_auth_for_destination(&url("https://example.com/x")).unwrap().unwrap();
    assert!(Arc::ptr_eq(&config, &expected));
    assert!(router.client_auth_for_destination(&url("https://example.net/x")).unwrap().is_none());
}

#[test]
fn router_reports_a_template_that_cannot_be_filled() {
    let router = Router::new(Vec::new(), vec![mapping("*://*:9000/*", "https://example.com/{missing}")]);
    match router.get_destination(&url("http://localhost:9000/x")) {
        Err(RouteError::Fill(FillError::MissingVariable { name })) => assert_eq!(name, "missing"),
        other => panic!("unexpected {:?}", other.err()),
    }
}

#[test]
fn host_header_is_recognised_whatever_its_case() {
    assert!(is_host_header("host"));
    assert!(is_host_header("Host"));
    assert!(is_host_header("HOST"));
    assert!(is_host_header("hOsT"));
    assert!(!is_host_header("hosts"));
    assert!(!is_host_header("hos"));
    assert!(!is_host_header("x-host"));
    assert!(!is_host_header(""));
    assert!(!is_host_header("h\u{f6}st"));
}

#[test]
fn outbound_headers_replace_the_host_header() {
    let inbound = vec![
        header("accept", "*/*"),
        header("Host", "localhost:9000"),
        header("x-trace", "1"),
        header("host", "again"),
        header("X-Trace", "2"),
    ];
    let out = outbound_headers(&inbound, "example.com");
    assert_eq!(
        names(&out),
        names(&[header("accept", "*/*"), header("x-trace", "1"), header("X-Trace", "2"), header("host", "example.com")])
    );
    assert_eq!(names(&outbound_headers(&Vec::new(), "h")), names(&[header("host", "h")]));
}

#[test]
fn inbound_url_is_built_from_port_and_target() {
    assert_eq!(inbound_url(9000, "/foo/bar?x=1").unwrap().as_str(), "http://localhost:9000/foo/bar?x=1");
    assert_eq!(inbound_url(0, "/").unwrap().as_str(), "http://localhost:0/");
    assert_eq!(inbound_url(65535, "/").unwrap().as_str(), "http://localhost:65535/");
    assert_eq!(inbound_url(80, "/a").unwrap().as_str(), "http://localhost/a");
    match inbound_url(9000, "0/foo") {
        Err(error @ ForwardError::InvalidUrl { .. }) => {
            assert_eq!(error.message(), "not an absolute URL: http://localhost:90000/foo")
        }
        other => panic!("unexpected {other:?}"),
    }
}

#[test]
fn upstream_address_defaults_to_port_443() {
    assert_eq!(upstream_address("example.com", None), "example.com:443");
    assert_eq!(upstream_address("example.com", Some(8443)), "example.com:8443");
    assert_eq!(upstream_address("example.com", Some(0)), "example.com:0");
}

fn request(method: &str, target: &str, headers: Vec<Header>) -> InboundRequest {
    InboundRequest { method: method.to_string(), target: target.to_string(), headers }
}

#[test]
fn simple_pass_through() {
    let files = files();
    let (router, ports) = cli(
        &["a=*://example.com/*"],
        &["a=a.crt"],
        &["a=a.key"],
        &[":9000/foo/:path*=https://example.com/{path}"],
    )
    .router_and_ports(&files)
    .unwrap();
    assert_eq!(ports, vec![9000]);
    let inbound = request("GET", "/foo/bar/baz", vec![header("host", "localhost:9000"), header("accept", "*/*")]);
    let out = handle(9000, &router, &inbound).ok().unwrap();
    assert_eq!(out.method, "GET");
    assert_eq!(out.uri, "https://example.com/bar/baz");
    assert_eq!(out.server_name, "example.com");
    assert_eq!(out.address, "example.com:443");
    assert_eq!(names(&out.headers), names(&[header("accept", "*/*"), header("host", "example.com")]));
    let expected = router.client_auth_for_destination(&url("https://example.com/bar/baz")).unwrap().unwrap();
    assert!(Arc::ptr_eq(&out.config, &expected));
}

#[test]
fn handle_copies_the_method_and_uses_the_destination_port() {
    let router = Router::new(
        vec![identity("a", &["*://example.com:8443/*"])],
        vec![mapping("*://*:9000/*", "https://example.com:8443/up")],
    );
    let out = handle(9000, &router, &request("POST", "/x", Vec::new())).ok().unwrap();
    assert_eq!(out.method, "POST");
    assert_eq!(out.uri, "https://example.com:8443/up");
    assert_eq!(out.address, "example.com:8443");
    assert_eq!(out.server_name, "example.com");
}

#[test]
fn no_matching_mapping() {
    let router = Router::new(
        vec![identity("a", &["*://*/*"])],
        vec![mapping("*://*:9000/foo/:path*", "https://example.com/{path}")],
    );
    match handle(9000, &router, &request("GET", "/bar", Vec::new())) {
        Err(error @ ForwardError::NoDestination) => {
            assert_eq!(error.message(), "No destination found for request")
        }
        other => panic!("unexpected {:?}", other.err()),
    }
    match handle(9001, &router, &request("GET", "/foo/x", Vec::new())) {
        Err(ForwardError::NoDestination) => {}
        other => panic!("unexpected {:?}", other.err()),
    }
    assert!(handle(9000, &router, &request("GET", "/foo/x", Vec::new())).is_ok());
}

#[test]
fn identity_miss() {
    let router = Router::new(
        vec![identity("a", &["*://other.example/*"])],
        vec![mapping("*://*:9000/foo/:path*", "https://example.com/{path}")],
    );
    match handle(9000, &router, &request("GET", "/foo/x", Vec::new())) {
        Err(error @ ForwardError::NoClientConfig) => {
            assert_eq!(error.message(), "No client config found for request")
        }
        other => panic!("unexpected {:?}", other.err()),
    }
}

#[test]
fn prepare_decides_by_what_the_router_returned() {
    let a = identity("a", &["*://example.com/*"]);
    let inbound = request("PUT", "/x", vec![header("Host", "in")]);
    assert!(matches!(prepare((None, None), &inbound), Err(ForwardError::NoDestination)));
    assert!(matches!(prepare((Some(a.config()), None), &inbound), Err(ForwardError::NoDestination)));
    assert!(matches!(
        prepare((None, Some(url("https://example.com/"))), &inbound),
        Err(ForwardError::NoClientConfig)
    ));
    match prepare((Some(a.config()), Some(url("data:text/plain,x"))), &inbound) {
        Err(error @ ForwardError::MissingHost { .. }) => {
            assert_eq!(error.message(), "Missing host in destination data:text/plain,x")
        }
        other => panic!("unexpected {:?}", other.err()),
    }
    let out = prepare((Some(a.config()), Some(url("https://example.com/y"))), &inbound).ok().unwrap();
    assert_eq!(out.method, "PUT");
    assert_eq!(out.uri, "https://example.com/y");
    assert_eq!(names(&out.headers), names(&[header("host", "example.com")]));
}

#[test]
fn handle_reports_a_route_error() {
    let router = Router::new(Vec::new(), vec![mapping("*://*:9000/*", "https://example.com/{missing}")]);
    match handle(9000, &router, &request("GET", "/x", Vec::new())) {
        Err(error @ ForwardError::Route(_)) => assert_eq!(error.message(), "missing required variable missing"),
        other => panic!("unexpected {:?}", other.err()),
    }
}

#[test]
fn kv_splits_at_the_first_equals_sign() {
    assert_eq!(kv("client", 0, &"a=b=c".to_string()).unwrap(), pair("a", "b=c"));
    assert_eq!(kv("client", 0, &"=".to_string()).unwrap(), pair("", ""));
    assert_eq!(kv("client", 0, &"k\u{e9}=v\u{e9}".to_string()).unwrap(), pair("k\u{e9}", "v\u{e9}"));
    match kv("cert", 2, &"no-separator".to_string()) {
        Err(error @ ConfigError::InvalidKeyValue { .. }) => {
            assert_eq!(error.message(), "Invalid key value pair 'no-separator' when reading cert#3")
        }
        other => panic!("unexpected {other:?}"),
    }
}

#[test]
fn mapping_key_names_port_and_path() {
    assert_eq!(mapping_key(":9000/foo/:path*", 0).unwrap(), (9000, "foo/:path*".to_string()));
    assert_eq!(mapping_key(":9000", 0).unwrap(), (9000, "*".to_string()));
    assert_eq!(mapping_key(":9000/", 0).unwrap(), (9000, String::new()));
    assert_eq!(mapping_key(":+0080/x", 0).unwrap(), (80, "x".to_string()));
    assert_eq!(mapping_key(":65535", 0).unwrap(), (65535, "*".to_string()));
    assert_eq!(mapping_key(":0", 0).unwrap(), (0, "*".to_string()));
}

#[test]
fn mapping_key_refuses_what_is_no_port() {
    for key in [":65536", ":", ":/x", ":-1", ":90a0", ":+", ": 9000", ":99999999999999999999"] {
        match mapping_key(key, 4) {
            Err(ConfigError::MappingPort { index, .. }) => assert_eq!(index, 4),
            other => panic!("unexpected {other:?} for {key}"),
        }
    }
    match mapping_key(":x1/y", 1) {
        Err(error @ ConfigError::MappingPort { .. }) => {
            assert_eq!(error.message(), "Invalid port 'x1' on mapping#2")
        }
        other => panic!("unexpected {other:?}"),
    }
    for key in ["", "9000", "/x", "x:9000"] {
        match mapping_key(key, 0) {
            Err(ConfigError::MappingKey { .. }) => {}
            other => panic!("unexpected {other:?} for {key}"),
        }
    }
    match mapping_key("9000/x", 0) {
        Err(error @ ConfigError::MappingKey { .. }) => {
            assert_eq!(error.message(), "Mapping key '9000/x' does not start with a colon on mapping#1")
        }
        other => panic!("unexpected {other:?}"),
    }
}

#[test]
fn request_mapping_entry_compiles_pattern_and_template() {
    let (port, mapping) = request_mapping(&":9000/foo/:path*=https://example.com/{path}".to_string(), 0).unwrap();
    assert_eq!(port, 9000);
    assert_eq!(mapping.test(&url("http://localhost:9000/foo/x")).ok(), Some(true));
    assert_eq!(mapping.test(&url("https://elsewhere.example:9000/foo/x")).ok(), Some(true));
    assert_eq!(mapping.test(&url("http://localhost:9001/foo/x")).ok(), Some(false));
    let (_, all) = request_mapping(&":9000=https://example.com/".to_string(), 0).unwrap();
    assert_eq!(all.test(&url("http://localhost:9000/any/path")).ok(), Some(true));
    assert!(matches!(
        request_mapping(&":9000/x".to_string(), 0),
        Err(ConfigError::InvalidKeyValue { .. })
    ));
    match request_mapping(&":9000/:id/:id=https://example.com/".to_string(), 1) {
        Err(error @ ConfigError::MappingPattern { .. }) => {
            assert_eq!(error.message(), "Could not parse url pattern on mapping#2: *://*:9000/:id/:id")
        }
        other => panic!("unexpected {:?}", other.err()),
    }
    match request_mapping(&":9000/x=https://example.com/{open".to_string(), 0) {
        Err(error @ ConfigError::Template(_)) => {
            assert_eq!(error.message(), "unexpected end of variable in template 'https://example.com/{open'")
        }
        other => panic!("unexpected {:?}", other.err()),
    }
}

#[test]
fn duplicate_credential() {
    let config = cli(
        &["a=*://example.com/*"],
        &["a=a.crt", "a=b.crt"],
        &["a=a.key"],
        &[":9000/foo/:path*=https://example.com/{path}"],
    );
    match config.router_and_ports(&files()) {
        Err(error @ ConfigError::DuplicateCertificate { .. }) => {
            assert_eq!(error.message(), "Client authentication mapping 'a' already has a certificate defined")
        }
        other => panic!("unexpected {:?}", other.err()),
    }
    let config = cli(&["a=*://example.com/*"], &["a=a.crt"], &["a=a.key", "a=b.key"], &[":9000=https://e.example/"]);
    match config.router_and_ports(&files()) {
        Err(error @ ConfigError::DuplicateKey { .. }) => {
            assert_eq!(error.message(), "Client authentication mapping 'a' already has a key defined")
        }
        other => panic!("unexpected {:?}", other.err()),
    }
}

#[test]
fn identity_must_have_certificate_and_key() {
    let config = cli(&["a=*://example.com/*"], &[], &["a=a.key"], &[":9000=https://e.example/"]);
    match config.router_and_ports(&files()) {
        Err(error @ ConfigError::MissingCertificate { .. }) => {
            assert_eq!(error.message(), "No certificate file defined for client authentication mapping 'a'")
        }
        other => panic!("unexpected {:?}", other.err()),
    }
    let config = cli(&["a=*://example.com/*"], &["a=a.crt"], &[], &[":9000=https://e.example/"]);
    match config.router_and_ports(&files()) {
        Err(error @ ConfigError::MissingKey { .. }) => {
            assert_eq!(error.message(), "No key file defined for client authentication mapping 'a'")
        }
        other => panic!("unexpected {:?}", other.err()),
    }
}

#[test]
fn certificate_and_key_need_a_known_identity() {
    let config = cli(&["a=*://example.com/*"], &["b=b.crt"], &[], &[":9000=https://e.example/"]);
    match config.router_and_ports(&files()) {
        Err(error @ ConfigError::UnknownClientForCertificate { .. }) => assert_eq!(
            error.message(),
            "Could not find client authentication mapping 'b' when adding certificate 'b.crt'"
        ),
        other => panic!("unexpected {:?}", other.err()),
    }
    let config = cli(&["a=*://example.com/*"], &["a=a.crt"], &["b=b.key"], &[":9000=https://e.example/"]);
    match config.router_and_ports(&files()) {
        Err(error @ ConfigError::UnknownClientForKey { .. }) => assert_eq!(
            error.message(),
            "Could not find client authentication mapping 'b' when adding key 'b.key'"
        ),
        other => panic!("unexpected {:?}", other.err()),
    }
}

#[test]
fn client_entries_are_checked() {
    let config = cli(&["a=*://example.com/*", "broken"], &[], &[], &[":9000=https://e.example/"]);
    match config.router_and_ports(&files()) {
        Err(error @ ConfigError::InvalidKeyValue { .. }) => {
            assert_eq!(error.message(), "Invalid key value pair 'broken' when reading client#2")
        }
        other => panic!("unexpected {:?}", other.err()),
    }
    let config = cli(&["a=https://example.com/:id/:id"], &[], &[], &[":9000=https://e.example/"]);
    match config.router_and_ports(&files()) {
        Err(error @ ConfigError::ClientPattern { .. }) => {
            assert_eq!(error.message(), "Could not parse url pattern on client#1: https://example.com/:id/:id")
        }
        other => panic!("unexpected {:?}", other.err()),
    }
    let config = cli(&["=*://example.com/*"], &["=a.crt"], &["=a.key"], &[":9000=https://e.example/"]);
    match config.router_and_ports(&files()) {
        Err(ConfigError::Identity(IdentityError::EmptyName)) => {}
        other => panic!("unexpected {:?}", other.err()),
    }
}

#[test]
fn unreadable_credential_file_is_reported() {
    let config = cli(&["a=*://example.com/*"], &["a=gone.crt"], &["a=a.key"], &[":9000=https://e.example/"]);
    match config.router_and_ports(&files()) {
        Err(ConfigError::Identity(IdentityError::Credential { name, error })) => {
            assert_eq!(name, "a");
            assert!(matches!(error, CredentialError::Unreadable { .. }));
        }
        other => panic!("unexpected {:?}", other.err()),
    }
}

#[test]
fn identities_are_reported_before_mappings() {
    let config = cli(&["a=*://example.com/*"], &[], &[], &["broken"]);
    assert!(matches!(config.router_and_ports(&files()), Err(ConfigError::MissingCertificate { .. })));
    let config = cli(&[], &[], &[], &["broken"]);
    match config.router_and_ports(&files()) {
        Err(error @ ConfigError::InvalidKeyValue { .. }) => {
            assert_eq!(error.message(), "Invalid key value pair 'broken' when reading mapping#1")
        }
        other => panic!("unexpected {:?}", other.err()),
    }
}

#[test]
fn identities_aggregate_entries_that_share_a_name() {
    let config = cli(
        &["a=*://example.com/*", "b=*://example.org/*", "a=*://example.net/*"],
        &["b=b.crt", "a=a.crt"],
        &["a=a.key", "b=b.key"],
        &[":9000=https://example.net/"],
    );
    let builders = config.identity_builders().unwrap();
    let identities = builders.build(&files()).unwrap();
    assert_eq!(identities.len(), 2);
    assert_eq!(identities[0].name(), "a");
    assert_eq!(identities[1].name(), "b");
    assert_eq!(identities[0].test(&url("https://example.net/x")).ok(), Some(true));
    assert_eq!(identities[0].test(&url("https://example.com/x")).ok(), Some(true));
    assert_eq!(identities[0].test(&url("https://example.org/x")).ok(), Some(false));
    assert_eq!(identities[1].test(&url("https://example.org/x")).ok(), Some(true));
}

fn asked(config: &Cli, files: &[PemFile]) -> Option<(String, String)> {
    let files: Vec<PemFile> =
        files.iter().map(|f| PemFile { name: f.name.clone(), contents: f.contents.clone() }).collect();
    match config.router_and_ports(&files) {
        Ok(_) => None,
        Err(error) => error.wanted_file().map(|request| (request.identity, request.filename)),
    }
}

#[test]
fn files_are_asked_for_in_the_order_of_the_load() {
    let config = cli(
        &["a=*://example.com/*", "b=*://example.org/*"],
        &["b=b.crt", "a=a.crt"],
        &["a=a.key", "b=b.key"],
        &[":9000=https://example.net/"],
    );
    assert_eq!(asked(&config, &[]), Some(pair("a", "a.crt")));
    assert_eq!(asked(&config, &[cert_file("a.crt")]), Some(pair("a", "a.key")));
    assert_eq!(asked(&config, &[cert_file("a.crt"), key_file("a.key")]), Some(pair("b", "b.crt")));
    assert_eq!(
        asked(&config, &[cert_file("a.crt"), key_file("a.key"), cert_file("b.crt")]),
        Some(pair("b", "b.key"))
    );
    assert_eq!(asked(&config, &files()), None);
    assert!(config.router_and_ports(&files()).is_ok());
}

#[test]
fn no_file_is_asked_for_where_the_load_fails_without_it() {
    let duplicate = cli(&["a=*://example.com/*"], &["a=a.crt", "a=b.crt"], &["a=a.key"], &[":9000=https://e.example/"]);
    assert_eq!(asked(&duplicate, &[]), None);
    let no_key = cli(&["a=*://example.com/*"], &["a=a.crt"], &[], &[":9000=https://e.example/"]);
    assert_eq!(asked(&no_key, &[]), None);
    let second_incomplete = cli(
        &["a=*://example.com/*", "b=*://example.org/*"],
        &["a=a.crt"],
        &["a=a.key"],
        &[":9000=https://e.example/"],
    );
    assert_eq!(asked(&second_incomplete, &[]), Some(pair("a", "a.crt")));
    assert_eq!(asked(&second_incomplete, &files()), None);
    let one = cli(&["a=*://example.com/*"], &["a=a.crt"], &["a=a.key"], &[":9000=https://e.example/"]);
    let dashes = "-".repeat(5);
    let broken = file("a.crt", format!("{dashes}BEGIN CERTIFICATE{dashes}\nAAAA\n").into_bytes());
    assert_eq!(asked(&one, &[broken]), None);
    let nameless = cli(&["=*://example.com/*"], &["=a.crt"], &["=a.key"], &[":9000=https://e.example/"]);
    assert_eq!(asked(&nameless, &[]), None);
    assert!(ConfigError::MissingKey { name: "a".to_string() }.wanted_file().is_none());
}

#[test]
fn a_refused_key_is_reported_before_the_files_of_later_identities_are_read() {
    let config = cli(
        &["a=*://example.com/*", "b=*://example.org/*"],
        &["a=a.crt", "b=b.crt"],
        &["a=a.key", "b=b.key"],
        &[":9000=https://example.net/"],
    );
    let refused = file("a.key", pem("PRIVATE KEY", &[1, 2, 3]));
    match config.router_and_ports(&vec![cert_file("a.crt"), refused]) {
        Err(error @ ConfigError::Identity(_)) => {
            assert!(error.wanted_file().is_none());
            assert_eq!(
                error.message(),
                "Could not build client authentication mapping 'a': cannot use certificate a.crt with key a.key"
            );
        }
        other => panic!("unexpected {:?}", other.err()),
    }
}

#[test]
fn builders_follow_the_entries() {
    let mut builders = ClientAuthenticationMappingBuilders::new();
    assert!(builders.add_certificate("a".into(), "a.crt".into(), 0).is_err());
    assert!(builders.add_key("a".into(), "a.key".into(), 0).is_err());
    assert!(builders.add_pattern("a".into(), "https://example.com/:id/:id".into(), 0).is_err());
    builders.add_pattern("a".into(), "*://example.com/*".into(), 0).unwrap();
    builders.add_certificate("a".into(), "a.crt".into(), 0).unwrap();
    assert!(builders.add_certificate("a".into(), "a.crt".into(), 1).is_err());
    builders.add_key("a".into(), "a.key".into(), 0).unwrap();
    assert!(builders.add_key("a".into(), "a.key".into(), 1).is_err());
    let identities = builders.build(&files()).unwrap();
    assert_eq!(identities.len(), 1);
    let mut single = ClientAuthenticationMappingBuilder::new(
        "s".to_string(),
        url_pattern("*://example.com/*".to_string()).ok().unwrap(),
    );
    single.add_pattern(url_pattern("*://example.org/*".to_string()).ok().unwrap());
    single.add_certificate("a.crt".to_string()).unwrap();
    single.add_key("a.key".to_string()).unwrap();
    let built = single.build(&files()).unwrap();
    assert_eq!(built.test(&url("https://example.org/")).ok(), Some(true));
}

#[test]
fn ports_are_deduplicated_in_order_of_first_mention() {
    let config = cli(
        &[],
        &[],
        &[],
        &[
            ":9001/a=https://example.com/a",
            ":9000/b=https://example.com/b",
            ":9001/c=https://example.com/c",
            ":+9000=https://example.com/d",
            ":8=https://example.com/e",
        ],
    );
    let (mappings, ports) = config.request_mappings().unwrap();
    assert_eq!(mappings.len(), 5);
    assert_eq!(ports, vec![9001, 9000, 8]);
    let (router, ports) = config.router_and_ports(&Vec::new()).unwrap();
    assert_eq!(ports, vec![9001, 9000, 8]);
    assert_eq!(router.mapping_count(), 5);
    assert_eq!(router.identity_count(), 0);
    assert_eq!(
        router.destination_for(&url("http://localhost:9000/zzz")).unwrap().unwrap().as_str(),
        "https://example.com/d"
    );
}

#[test]
fn pattern_exec_returns_every_group_of_a_component() {
    let pattern = url_pattern("*://*:9000/:a/:b".to_string()).ok().unwrap();
    let captures = pattern.exec(&url("http://localhost:9000/x/y")).ok().unwrap().unwrap();
    assert_eq!(sorted(captures.path), vec![pair("a", "x"), pair("b", "y")]);
}

use watchtower::ca::{leaf_request, root_request, CaConstraint, CaError, CaService};
use watchtower::dispatch::{
    bytes_after_header, connect_mode, find_header_end, head_state, parse_connect_target,
    request_line_len, ConnectMode, HeadState, MAX_HEADER_LEN,
};
use watchtower::engine::{
    first_values, log_entry, log_matches, replace_text, LogFilter, LogSource,
    build_pac_js, capped_body, cert_file_name, dns_override_uri, failure_reply, forward_header,
    log_plan, mock_reply, original_full_url, reserved_reply, ForwardFailure, LogPlan,
    LOG_BODY_CAP,
};
use watchtower::logging::LoggingMap;
use watchtower::model::{ApiMock, IncomingScheme, LocalRoute};
use watchtower::router::{RequestTarget, ReservedKind};

const NOW: i64 = 1_780_000_000;

fn route(domain: &str) -> LocalRoute {
    LocalRoute {
        id: 1,
        domain: domain.to_string(),
        target_host: "127.0.0.1".to_string(),
        target_port: 3000,
        enabled: true,
    }
}

#[test]
fn test_ca_service_creation_and_signing() {
    let ca_service = CaService::new(None, NOW).unwrap();
    let ca_pem = ca_service.ca_cert_pem();
    assert!(ca_pem.contains("BEGIN CERTIFICATE"));
    assert!(ca_pem.contains("END CERTIFICATE"));
    let host = "example.com";
    let cert = ca_service.sign_host_certificate(host, NOW).unwrap();
    assert!(cert.pem.contains("BEGIN CERTIFICATE"));
    assert_eq!(cert.host, host);
}

#[test]
fn get_or_create_is_idempotent() {
    let mut ca = CaService::new(None, NOW).unwrap();
    let a = ca.get_or_create("secure.example.com", NOW).unwrap();
    let b = ca.get_or_create("secure.example.com", NOW + 100).unwrap();
    assert_eq!(a.cert_der, b.cert_der);
    assert_eq!(a.key_der, b.key_der);
    assert_eq!(a.pem, b.pem);
    let c = ca.get_or_create("other.example.com", NOW).unwrap();
    assert_ne!(a.cert_der, c.cert_der);
    assert_eq!(ca.cached_for("secure.example.com").unwrap().pem, a.pem);
    assert!(ca.cached_for("missing.example.com").is_none());
}

#[test]
fn leaf_validity_brackets_now() {
    let ca = CaService::new(None, NOW).unwrap();
    let c = ca.sign_host_certificate("secure.example.com", NOW).unwrap();
    assert!(c.not_before <= NOW && NOW <= c.not_after);
    assert_eq!(c.not_before, NOW - 86400);
    assert_eq!(c.not_after, NOW + 315360000);
    assert!(!c.cert_der.is_empty());
    assert!(!c.key_der.is_empty());
    assert_eq!(ca.sign_host_certificate("x.com", i64::MAX).unwrap_err(), CaError::InvalidTime);
    assert_eq!(ca.sign_host_certificate("x.com", 400_000_000_000).unwrap_err(), CaError::InvalidTime);
    assert_eq!(ca.sign_host_certificate("x.com", -62_200_000_000).unwrap_err(), CaError::InvalidTime);
    assert!(CaService::new(None, -62_200_000_000).is_err());
    let last = 253402300799 - 315360000;
    let c = ca.sign_host_certificate("late.example.com", last).unwrap();
    assert_eq!(c.not_after, 253402300799);
    assert_eq!(c.request.names, vec!["late.example.com".to_string()]);
}

#[test]
fn root_validity_and_requests() {
    let q = root_request(NOW).unwrap();
    assert_eq!(q.common_name, "Watchtower CA");
    assert_eq!(q.organization, Some("Watchtower".to_string()));
    assert_eq!(q.ca, Some(CaConstraint::Unconstrained));
    assert_eq!((q.not_before, q.not_after), (NOW - 86400, NOW + 315360000));
    let l = leaf_request("api.example.com", NOW).unwrap();
    assert_eq!(l.names, vec!["api.example.com".to_string()]);
    assert_eq!(l.common_name, "api.example.com");
    assert!(l.ca.is_none());
    assert_eq!(root_request(i64::MIN).unwrap_err(), CaError::InvalidTime);
}

#[test]
fn root_is_reloaded_from_its_key() {
    let ca = CaService::new(None, NOW).unwrap();
    let key = ca.ca_key_pem();
    let again = CaService::new(Some(key.as_str()), NOW).unwrap();
    assert_eq!(again.ca_key_pem(), key);
    assert!(CaService::new(Some("not a key"), NOW).is_err());
}

#[test]
fn host_cert_download_matches_tls_cert() {
    let mut ca = CaService::new(None, NOW).unwrap();
    let tls = ca.get_or_create("api.example.com", NOW).unwrap();
    let kind = ReservedKind::HostCert { host: "api.example.com".to_string() };
    let r = reserved_reply(&kind, Some(8888), &[], "", &mut ca, NOW);
    assert_eq!(r.status, 200);
    assert_eq!(r.body, tls.pem);
    assert_eq!(r.disposition, Some("attachment; filename=\"watchtower-api-example-com.crt\"".to_string()));
}

#[test]
fn reserved_replies() {
    let mut ca = CaService::new(None, NOW).unwrap();
    let r = reserved_reply(&ReservedKind::CaCert, None, &[], "", &mut ca, NOW);
    assert_eq!(r.status, 200);
    assert_eq!(r.body, ca.ca_cert_pem());
    let r = reserved_reply(&ReservedKind::Pac, None, &[], "", &mut ca, NOW);
    assert_eq!(r.status, 404);
    let r = reserved_reply(&ReservedKind::Pac, Some(8888), &[route("a.com")], "", &mut ca, NOW);
    assert_eq!(r.content_type, "application/x-ns-proxy-autoconfig");
    assert!(r.body.contains("PROXY 127.0.0.1:8888"));
    let r = reserved_reply(&ReservedKind::Setup, Some(8888), &[], "port %PROXY_PORT%%PROXY_PORT_MSG%", &mut ca, NOW);
    assert_eq!(r.body, "port 8888 (Forward proxy: 127.0.0.1:8888)");
    let r = reserved_reply(&ReservedKind::Setup, None, &[], "port %PROXY_PORT%%PROXY_PORT_MSG%", &mut ca, NOW);
    assert_eq!(r.body, "port 0");
    assert_eq!(reserved_reply(&ReservedKind::MissingHost, None, &[], "", &mut ca, NOW).status, 400);
    assert_eq!(reserved_reply(&ReservedKind::Unknown, None, &[], "", &mut ca, NOW).status, 404);
}

#[test]
fn pac_script_lists_route_hosts() {
    let pac = build_pac_js(8888, &[route("https://dev.example.local/"), route("a\"b")]);
    assert!(pac.contains("var domains = [\"dev.example.local\", \"a\\\"b\"];"));
    assert!(pac.contains("return \"PROXY 127.0.0.1:8888\";"));
    assert!(pac.contains("return \"DIRECT\";"));
    let empty = build_pac_js(1, &[]);
    assert!(empty.contains("var domains = [];"));
}

#[test]
fn hop_by_hop_headers_dropped() {
    for h in ["Host", "connection", "Keep-Alive", "proxy-connection", "Transfer-Encoding", "upgrade"] {
        assert!(!forward_header(h), "{h}");
    }
    assert!(forward_header("content-type"));
    assert!(forward_header("x-request-id"));
}

#[test]
fn dns_override_keeps_scheme_port_and_path() {
    assert_eq!(dns_override_uri("http", None, "/", "93.184.216.34"), "http://93.184.216.34:80/");
    assert_eq!(dns_override_uri("https", None, "/a?b", "1.2.3.4"), "https://1.2.3.4:443/a?b");
    assert_eq!(dns_override_uri("http", Some(8080), "/x", "1.2.3.4"), "http://1.2.3.4:8080/x");
}

#[test]
fn mock_reply_defaults() {
    let m = ApiMock {
        id: "1".to_string(),
        host: "h".to_string(),
        path: "/health".to_string(),
        method: "GET".to_string(),
        status_code: 42,
        response_body: "{\"ok\":true}".to_string(),
        content_type: String::new(),
        enabled: true,
    };
    let r = mock_reply(&m);
    assert_eq!(r.status, 200);
    assert_eq!(r.content_type, "application/json");
    assert_eq!(r.body, "{\"ok\":true}");
    let m2 = ApiMock { status_code: 404, content_type: "text/plain".to_string(), ..m };
    let r = mock_reply(&m2);
    assert_eq!(r.status, 404);
    assert_eq!(r.content_type, "text/plain");
}

#[test]
fn log_body_is_capped() {
    let big = vec![7u8; LOG_BODY_CAP + 10];
    assert_eq!(capped_body(&big).len(), LOG_BODY_CAP);
    assert_eq!(capped_body(b"abc"), b"abc".to_vec());
    assert_eq!(log_plan(Some((true, true))), LogPlan::Bodies);
    assert_eq!(log_plan(Some((true, false))), LogPlan::Headers);
    assert_eq!(log_plan(Some((false, true))), LogPlan::Off);
    assert_eq!(log_plan(None), LogPlan::Off);
}

#[test]
fn failure_texts() {
    let r = failure_reply(ForwardFailure::Connect, "refused");
    assert_eq!((r.status, r.body.as_str()), (502, "Connection failed: refused"));
    let r = failure_reply(ForwardFailure::InvalidPath, "x");
    assert_eq!((r.status, r.body.as_str()), (400, "Invalid path"));
    let r = failure_reply(ForwardFailure::Timeout, "30s");
    assert_eq!(r.body, "Upstream timed out: 30s");
}

#[test]
fn log_records_follow_the_plan() {
    let h = vec![
        ("Content-Type".to_string(), "a".to_string()),
        ("content-type".to_string(), "b".to_string()),
        ("X-Id".to_string(), "7".to_string()),
    ];
    assert_eq!(
        first_values(&h),
        vec![("content-type".to_string(), "a".to_string()), ("x-id".to_string(), "7".to_string())]
    );
    let e = log_entry(LogPlan::Headers, "1-0".to_string(), 5, "GET", "http://a.com/", "a.com:80", "/", 200, &h, "q", &[], "r", LogSource::Mock, 0).unwrap();
    assert_eq!(e.host, "a.com");
    assert!(e.request_body.is_none() && e.response_body.is_none());
    let e = log_entry(LogPlan::Bodies, "1-0".to_string(), 5, "GET", "http://a.com/", "a.com", "/", 200, &h, "q", &[], "r", LogSource::Proxy, 3).unwrap();
    assert_eq!(e.request_body, Some("q".to_string()));
    assert_eq!(e.response_body, Some("r".to_string()));
    assert!(log_entry(LogPlan::Off, "1-0".to_string(), 5, "GET", "u", "h", "/", 200, &[], "", &[], "", LogSource::Proxy, 0).is_none());
}

#[test]
fn text_replacement() {
    assert_eq!(replace_text("aXXbXX", "XX", "-"), "a-b-");
    assert_eq!(replace_text("aaa", "aa", "b"), "ba");
    assert_eq!(replace_text("x", "long", "y"), "x");
}

#[test]
fn cert_names() {
    assert_eq!(cert_file_name("a.b:443"), "watchtower-a-b-443.crt");
}

#[test]
fn logged_urls() {
    let origin = RequestTarget { scheme: None, host: None, port: None, path_and_query: Some("/x?y".to_string()) };
    assert_eq!(original_full_url(&origin, IncomingScheme::Https, "secure.example.com"), "https://secure.example.com/x?y");
    let abs = RequestTarget {
        scheme: Some("http".to_string()),
        host: Some("example.org".to_string()),
        port: None,
        path_and_query: None,
    };
    assert_eq!(original_full_url(&abs, IncomingScheme::Http, "ignored"), "http://example.org/");
}

#[test]
fn header_end_and_state() {
    let buf = b"CONNECT a.com:443 HTTP/1.1\r\nHost: a.com\r\n\r\nextra";
    let end = find_header_end(buf).unwrap();
    assert_eq!(&buf[end..], b"extra");
    assert_eq!(bytes_after_header(buf), b"extra".to_vec());
    assert_eq!(head_state(buf, false), HeadState::Complete(end));
    assert_eq!(head_state(b"GET / HTTP/1.1\r\n", false), HeadState::NeedMore);
    assert_eq!(head_state(b"GET / HTTP/1.1\r\n", true), HeadState::Closed);
    assert_eq!(head_state(&vec![b'a'; MAX_HEADER_LEN], false), HeadState::TooLarge);
    assert!(bytes_after_header(b"no end").is_empty());
    assert_eq!(request_line_len(buf), 27);
}

#[test]
fn connect_lines() {
    assert_eq!(parse_connect_target("CONNECT secure.example.com:443 HTTP/1.1"), Some(("secure.example.com".to_string(), 443)));
    assert_eq!(parse_connect_target("connect blob.cdn.example:8443 HTTP/1.1\r"), Some(("blob.cdn.example".to_string(), 8443)));
    assert_eq!(parse_connect_target("CONNECT host HTTP/1.1"), Some(("host".to_string(), 443)));
    assert_eq!(parse_connect_target("CONNECT host:bad HTTP/1.1"), Some(("host".to_string(), 443)));
    assert_eq!(parse_connect_target("GET / HTTP/1.1"), None);
    assert_eq!(parse_connect_target("CONNECT "), None);
}

#[test]
fn connect_mitm_or_tunnel() {
    let mut map = LoggingMap::empty();
    map.insert("secure.example.com".to_string(), (true, false));
    assert_eq!(connect_mode("secure.example.com:443", &[], true, &map), ConnectMode::Intercept);
    assert_eq!(connect_mode("blob.cdn.example:443", &[], true, &map), ConnectMode::Tunnel);
    let r = route("blob.cdn.example");
    assert_eq!(connect_mode("blob.cdn.example:443", &[r.clone()], true, &map), ConnectMode::Intercept);
    assert_eq!(connect_mode("blob.cdn.example:443", &[r], false, &map), ConnectMode::Tunnel);
}

#[test]
fn log_filters() {
    let none = LogFilter { domain: None, method: None, host: None };
    assert!(log_matches(&none, "http://example.com/api/v1", "GET", "example.com"));
    let f = LogFilter { domain: Some("example.com".to_string()), method: Some("GET".to_string()), host: Some(String::new()) };
    assert!(log_matches(&f, "http://example.com/api/v1", "GET", "example.com"));
    assert!(!log_matches(&f, "http://other.com/api/v2", "GET", "other.com"));
    assert!(!log_matches(&f, "http://example.com/api/v1", "POST", "example.com"));
    let h = LogFilter { domain: None, method: None, host: Some("other".to_string()) };
    assert!(log_matches(&h, "u", "POST", "other.com"));
    assert!(!log_matches(&h, "u", "POST", "example.com"));
}

#[test]
fn mock_log_has_no_request_body() {
    let e = log_entry(LogPlan::Bodies, "1-0".to_string(), 5, "GET", "http://api.example.com/health", "api.example.com", "/health", 200, &[], "", &[], "{\"ok\":true}", LogSource::Mock, 0).unwrap();
    assert!(e.request_body.is_none());
    assert_eq!(e.response_body, Some("{\"ok\":true}".to_string()));
    assert_eq!(e.host, "api.example.com");
}

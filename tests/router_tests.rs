use watchtower::mocks::ApiMockService;
use watchtower::model::{ApiMock, IncomingScheme, LocalRoute};
use watchtower::router::{
    classify_reserved, resolve_connect_target, resolve_target, route_domain_scheme,
    route_domain_to_host, route_request, Decision, RequestTarget, ReservedKind, RouteDecision,
    RoutingFlags,
};

fn route(id: u32, domain: &str, host: &str, port: u16, enabled: bool) -> LocalRoute {
    LocalRoute {
        id,
        domain: domain.to_string(),
        target_host: host.to_string(),
        target_port: port,
        enabled,
    }
}

fn absolute(scheme: &str, host: &str, port: Option<u16>, pq: &str) -> RequestTarget {
    RequestTarget {
        scheme: Some(scheme.to_string()),
        host: Some(host.to_string()),
        port,
        path_and_query: Some(pq.to_string()),
    }
}

fn origin(pq: &str) -> RequestTarget {
    RequestTarget { scheme: None, host: None, port: None, path_and_query: Some(pq.to_string()) }
}

fn mock(host: &str, path: &str, method: &str, enabled: bool) -> ApiMock {
    ApiMock {
        id: format!("{}-{}", host, path),
        host: host.to_string(),
        path: path.to_string(),
        method: method.to_string(),
        status_code: 200,
        response_body: "{\"ok\":true}".to_string(),
        content_type: String::new(),
        enabled,
    }
}

const ON: RoutingFlags = RoutingFlags { local_routing_enabled: true, loopback_shortcut: false };

#[test]
fn test_resolve_connect_target_empty_routes() {
    let result = resolve_connect_target("api.example.com", &[]);
    assert!(result.is_none(), "empty routes should return None for CONNECT");
}

#[test]
fn test_resolve_connect_target_matching_route() {
    let r = route(1, "api.example.com", "127.0.0.1", 3000, true);
    let result = resolve_connect_target("api.example.com", &[r]);
    assert!(result.is_some());
    let (host, port) = result.unwrap();
    assert_eq!(host, "127.0.0.1");
    assert_eq!(port, 3000);
}

#[test]
fn test_resolve_target_empty_routes_passthrough() {
    let t = absolute("http", "example.com", None, "/path?q=1");
    let d = resolve_target(&t, Some("example.com"), &[], IncomingScheme::Http, false);
    match d {
        RouteDecision::Local { .. } => panic!("empty routes should yield no local_origin"),
        RouteDecision::Passthrough { target_uri, host } => {
            assert!(
                target_uri.contains("example.com"),
                "pass-through target should contain original host, got: {target_uri}"
            );
            assert_eq!(target_uri, "http://example.com/path?q=1");
            assert_eq!(host, "example.com");
        }
    }
}

#[test]
fn test_resolve_target_with_matching_route() {
    let r = route(1, "api.example.com", "127.0.0.1", 3000, true);
    let t = absolute("http", "api.example.com", None, "/foo");
    let d = resolve_target(&t, Some("api.example.com"), &[r], IncomingScheme::Http, false);
    match d {
        RouteDecision::Local { target_host, target_port, path_and_query } => {
            assert_eq!(target_host, "127.0.0.1");
            assert_eq!(target_port, 3000);
            assert_eq!(path_and_query, "/foo");
        }
        RouteDecision::Passthrough { .. } => panic!("matching route should yield local_origin"),
    }
}

#[test]
fn test_resolve_target_disabled_route_no_match() {
    let r = route(1, "api.example.com", "127.0.0.1", 3000, false);
    let t = absolute("http", "api.example.com", None, "/foo");
    let d = resolve_target(&t, Some("api.example.com"), &[r], IncomingScheme::Http, false);
    assert!(matches!(d, RouteDecision::Passthrough { .. }), "disabled route should not match");
}

#[test]
fn test_routing_flag_integration() {
    let r = route(1, "dev.local", "127.0.0.1", 8080, true);
    let t = absolute("http", "dev.local", None, "/api");
    let mocks = ApiMockService::new(vec![]);
    let on = route_request(&t, Some("dev.local"), "GET", IncomingScheme::Http, &mocks, &[r.clone()], ON);
    assert!(matches!(on, Decision::Route(RouteDecision::Local { .. })), "routing enabled → should match");
    let off_flags = RoutingFlags { local_routing_enabled: false, loopback_shortcut: false };
    let off = route_request(&t, Some("dev.local"), "GET", IncomingScheme::Http, &mocks, &[r], off_flags);
    assert!(
        matches!(off, Decision::Route(RouteDecision::Passthrough { .. })),
        "routing disabled → should pass through"
    );
}

#[test]
fn route_domain_forms() {
    assert_eq!(route_domain_to_host("https://dev.example.local/"), "dev.example.local");
    assert_eq!(route_domain_to_host("  dev.example.local:8080 "), "dev.example.local");
    assert_eq!(route_domain_to_host("http://api.example.com:3000/x"), "api.example.com");
    assert_eq!(route_domain_to_host("example.com"), "example.com");
    assert_eq!(route_domain_scheme("https://a.b"), Some(IncomingScheme::Https));
    assert_eq!(route_domain_scheme(" http://a.b"), Some(IncomingScheme::Http));
    assert_eq!(route_domain_scheme("a.b"), None);
}

#[test]
fn scheme_specific_route_wins_for_https() {
    let bare = route(1, "example.com", "127.0.0.1", 3000, true);
    let tls = route(2, "https://example.com", "127.0.0.1", 3443, true);
    let t = origin("/");
    let d = resolve_target(&t, Some("example.com"), &[bare.clone(), tls.clone()], IncomingScheme::Https, false);
    match d {
        RouteDecision::Local { target_port, .. } => assert_eq!(target_port, 3443),
        _ => panic!("expected a local route"),
    }
    let d = resolve_target(&t, Some("example.com"), &[bare, tls], IncomingScheme::Http, false);
    match d {
        RouteDecision::Local { target_port, .. } => assert_eq!(target_port, 3000),
        _ => panic!("expected a local route"),
    }
}

#[test]
fn connect_prefers_https_route() {
    let bare = route(1, "example.com", "127.0.0.1", 3000, true);
    let http = route(2, "http://example.com", "127.0.0.1", 3080, true);
    let tls = route(3, "https://example.com", "127.0.0.1", 3443, true);
    let r = resolve_connect_target("example.com:443", &[bare.clone(), tls, http.clone()]);
    assert_eq!(r, Some(("127.0.0.1".to_string(), 3443)));
    let r = resolve_connect_target("EXAMPLE.com", &[bare.clone(), http]);
    assert_eq!(r, Some(("127.0.0.1".to_string(), 3080)));
    let r = resolve_connect_target("example.com", &[bare]);
    assert_eq!(r, Some(("127.0.0.1".to_string(), 3000)));
}

#[test]
fn unmatched_host_passes_through_with_port() {
    let r = route(1, "other.com", "127.0.0.1", 3000, true);
    let t = absolute("https", "example.org", Some(8443), "/a?b=c");
    let d = resolve_target(&t, None, &[r], IncomingScheme::Http, false);
    match d {
        RouteDecision::Passthrough { target_uri, host } => {
            assert_eq!(target_uri, "https://example.org:8443/a?b=c");
            assert_eq!(host, "example.org");
        }
        _ => panic!("expected pass-through"),
    }
}

#[test]
fn origin_form_passthrough_uses_host_header() {
    let t = origin("/x");
    let d = resolve_target(&t, Some("example.org:81"), &[], IncomingScheme::Https, false);
    match d {
        RouteDecision::Passthrough { target_uri, host } => {
            assert_eq!(target_uri, "http://example.org:81/x");
            assert_eq!(host, "example.org:81");
        }
        _ => panic!("expected pass-through"),
    }
}

#[test]
fn loopback_shortcut_only_when_enabled() {
    let r1 = route(1, "off.local", "127.0.0.1", 4000, false);
    let r2 = route(2, "app.local", "127.0.0.1", 5000, true);
    let t = origin("/");
    let d = resolve_target(&t, Some("127.0.0.1:8080"), &[r1.clone(), r2.clone()], IncomingScheme::Http, true);
    match d {
        RouteDecision::Local { target_port, .. } => assert_eq!(target_port, 5000),
        _ => panic!("expected the first enabled route"),
    }
    let d = resolve_target(&t, Some("localhost"), &[r1, r2], IncomingScheme::Http, false);
    assert!(matches!(d, RouteDecision::Passthrough { .. }));
}

#[test]
fn reserved_paths_classified() {
    assert!(matches!(classify_reserved("/.watchtower/proxy.pac"), Some(ReservedKind::Pac)));
    assert!(matches!(classify_reserved("/.watchtower/setup"), Some(ReservedKind::Setup)));
    assert!(matches!(classify_reserved("/.watchtower/cert/ca.crt"), Some(ReservedKind::CaCert)));
    match classify_reserved("/.watchtower/cert/api.example.com") {
        Some(ReservedKind::HostCert { host }) => assert_eq!(host, "api.example.com"),
        _ => panic!("expected a host certificate"),
    }
    assert!(matches!(classify_reserved("/.watchtower/cert/ "), Some(ReservedKind::MissingHost)));
    assert!(matches!(classify_reserved("/.watchtower/other"), Some(ReservedKind::Unknown)));
    assert!(classify_reserved("/health").is_none());
}

#[test]
fn reserved_path_wins_over_mock_and_route() {
    let r = route(1, "api.example.com", "127.0.0.1", 3000, true);
    let mocks = ApiMockService::new(vec![mock("api.example.com", "/.watchtower/setup", "GET", true)]);
    let t = origin("/.watchtower/setup");
    let d = route_request(&t, Some("api.example.com"), "GET", IncomingScheme::Http, &mocks, &[r], ON);
    assert!(matches!(d, Decision::Reserved(ReservedKind::Setup)));
}

#[test]
fn mock_precedence_over_route() {
    let r = route(1, "api.example.com", "127.0.0.1", 3000, true);
    let mocks = ApiMockService::new(vec![mock("api.example.com", "/health", "GET", true)]);
    let t = origin("/health");
    let d = route_request(&t, Some("API.example.com:80"), "get", IncomingScheme::Http, &mocks, &[r.clone()], ON);
    match d {
        Decision::Mock(m) => {
            assert_eq!(m.status_code, 200);
            assert_eq!(m.response_body, "{\"ok\":true}");
        }
        _ => panic!("expected the mock"),
    }
    let d = route_request(&t, Some("api.example.com"), "POST", IncomingScheme::Http, &mocks, &[r], ON);
    assert!(matches!(d, Decision::Route(RouteDecision::Local { .. })));
}

#[test]
fn local_route_forwarding_scenario() {
    let r = route(1, "api.example.com", "127.0.0.1", 3000, true);
    let mocks = ApiMockService::new(vec![]);
    let t = absolute("http", "api.example.com", None, "/ping");
    let d = route_request(&t, Some("api.example.com"), "GET", IncomingScheme::Http, &mocks, &[r], ON);
    match d {
        Decision::Route(RouteDecision::Local { target_host, target_port, path_and_query }) => {
            assert_eq!(target_host, "127.0.0.1");
            assert_eq!(target_port, 3000);
            assert_eq!(path_and_query, "/ping");
        }
        _ => panic!("expected a local route"),
    }
}

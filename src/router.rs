//! The routing decision: a pure function from a request and snapshots of the
//! registries to one of reserved path, mock, local route or pass-through.
use vstd::prelude::*;
use vstd::string::*;
use crate::mocks::{any_mock_matches, is_first_mock, ApiMockService};
use crate::model::{ApiMock, IncomingScheme, LocalRoute, MockView};
use crate::text::{
    after_prefix, before, before_char, decimal, drop_chars, eq_ic, eq_ignore_case, has_prefix,
    join4, starts_with_str, str_eq, trim, trim_str, u16_text,
};

verus! {

/// The host that a route's `domain` names: scheme, path and port removed.
pub open spec fn route_host_of(domain: Seq<char>) -> Seq<char> {
    let d = trim(domain);
    if has_prefix(d, "https://"@) || has_prefix(d, "http://"@) {
        let rest = if has_prefix(d, "https://"@) {
            after_prefix(d, "https://"@)
        } else {
            after_prefix(d, "http://"@)
        };
        let host_only = trim(before(trim(before(rest, '/')), ':'));
        if host_only.len() == 0 {
            d
        } else {
            host_only
        }
    } else {
        let host_only = trim(before(d, ':'));
        if host_only.len() == 0 {
            d
        } else {
            host_only
        }
    }
}

/// The scheme that a route's `domain` is annotated with, if any.
pub open spec fn route_scheme_of(domain: Seq<char>) -> Option<IncomingScheme> {
    let d = trim(domain);
    if has_prefix(d, "https://"@) {
        Some(IncomingScheme::Https)
    } else if has_prefix(d, "http://"@) {
        Some(IncomingScheme::Http)
    } else {
        None
    }
}

/// A host with any `:port` suffix and surrounding white space removed.
pub open spec fn host_no_port(host: Seq<char>) -> Seq<char> {
    trim(before(host, ':'))
}

/// The route is enabled and names host `h` (given without port), up to ASCII case.
pub open spec fn route_matches(r: LocalRoute, h: Seq<char>) -> bool {
    r.enabled && eq_ic(route_host_of(r.domain@), h)
}

pub open spec fn scheme_match(r: LocalRoute, h: Seq<char>, s: IncomingScheme) -> bool {
    route_matches(r, h) && route_scheme_of(r.domain@) == Some(s)
}

pub open spec fn any_match(routes: Seq<LocalRoute>, h: Seq<char>) -> bool {
    exists|i: int| 0 <= i < routes.len() && route_matches(#[trigger] routes[i], h)
}

pub open spec fn any_scheme_match(routes: Seq<LocalRoute>, h: Seq<char>, s: IncomingScheme) -> bool {
    exists|i: int| 0 <= i < routes.len() && scheme_match(#[trigger] routes[i], h, s)
}

/// `i` is the first route that matches `h`.
pub open spec fn is_first_match(routes: Seq<LocalRoute>, h: Seq<char>, i: int) -> bool {
    &&& 0 <= i < routes.len()
    &&& route_matches(routes[i], h)
    &&& forall|j: int| 0 <= j < i ==> !route_matches(#[trigger] routes[j], h)
}

/// `i` is the last route that matches `h` and is annotated with scheme `s`.
pub open spec fn is_last_scheme_match(
    routes: Seq<LocalRoute>,
    h: Seq<char>,
    s: IncomingScheme,
    i: int,
) -> bool {
    &&& 0 <= i < routes.len()
    &&& scheme_match(routes[i], h, s)
    &&& forall|j: int| i < j < routes.len() ==> !scheme_match(#[trigger] routes[j], h, s)
}

/// The route that a request of scheme `s` for host `h` goes to: the last matching
/// route annotated with `s` if there is one, else the first matching route.
pub open spec fn is_request_choice(
    routes: Seq<LocalRoute>,
    h: Seq<char>,
    s: Option<IncomingScheme>,
    i: int,
) -> bool {
    match s {
        Some(sc) => if any_scheme_match(routes, h, sc) {
            is_last_scheme_match(routes, h, sc, i)
        } else {
            is_first_match(routes, h, i)
        },
        None => is_first_match(routes, h, i),
    }
}

/// The route that a CONNECT for host `h` goes to: the last matching `https://`
/// route, else the last matching `http://` route, else the first matching route.
pub open spec fn is_connect_choice(routes: Seq<LocalRoute>, h: Seq<char>, i: int) -> bool {
    if any_scheme_match(routes, h, IncomingScheme::Https) {
        is_last_scheme_match(routes, h, IncomingScheme::Https, i)
    } else if any_scheme_match(routes, h, IncomingScheme::Http) {
        is_last_scheme_match(routes, h, IncomingScheme::Http, i)
    } else {
        is_first_match(routes, h, i)
    }
}

/// Extracts the host from a route's domain: `"https://dev.example.local/"` and
/// `"dev.example.local:80"` both give `"dev.example.local"`.
pub fn route_domain_to_host(domain: &str) -> (r: &str)
    ensures
        r@ == route_host_of(domain@),
{
    let d = trim_str(domain);
    let https = "https://";
    let http = "http://";
    if starts_with_str(d, https) || starts_with_str(d, http) {
        let rest = if starts_with_str(d, https) {
            drop_chars(d, https.unicode_len())
        } else {
            drop_chars(d, http.unicode_len())
        };
        let host_part = trim_str(before_char(rest, '/'));
        let host_only = trim_str(before_char(host_part, ':'));
        if host_only.is_empty() {
            d
        } else {
            host_only
        }
    } else {
        let host_only = trim_str(before_char(d, ':'));
        if host_only.is_empty() {
            d
        } else {
            host_only
        }
    }
}

/// The scheme a route's domain is annotated with (`https://...` or `http://...`), if any.
pub fn route_domain_scheme(domain: &str) -> (r: Option<IncomingScheme>)
    ensures
        r == route_scheme_of(domain@),
{
    let d = trim_str(domain);
    if starts_with_str(d, "https://") {
        Some(IncomingScheme::Https)
    } else if starts_with_str(d, "http://") {
        Some(IncomingScheme::Http)
    } else {
        None
    }
}

/// `host` without its port and surrounding white space.
pub fn strip_port(host: &str) -> (r: &str)
    ensures
        r@ == host_no_port(host@),
{
    trim_str(before_char(host, ':'))
}

fn route_matches_host(r: &LocalRoute, h: &str) -> (b: bool)
    ensures
        b == route_matches(*r, h@),
{
    r.enabled && eq_ignore_case(route_domain_to_host(r.domain.as_str()), h)
}

fn same_scheme(a: Option<IncomingScheme>, s: IncomingScheme) -> (b: bool)
    ensures
        b == (a == Some(s)),
{
    match a {
        Some(x) => x == s,
        None => false,
    }
}

/// Scans the routes once for host `h` (without port) and returns the first
/// matching route, the last matching `http://` route and the last matching
/// `https://` route.
fn scan_routes(h: &str, routes: &[LocalRoute]) -> (r: (Option<usize>, Option<usize>, Option<usize>))
    ensures
        match r.0 {
            Some(i) => is_first_match(routes@, h@, i as int),
            None => !any_match(routes@, h@),
        },
        match r.1 {
            Some(i) => is_last_scheme_match(routes@, h@, IncomingScheme::Http, i as int),
            None => !any_scheme_match(routes@, h@, IncomingScheme::Http),
        },
        match r.2 {
            Some(i) => is_last_scheme_match(routes@, h@, IncomingScheme::Https, i as int),
            None => !any_scheme_match(routes@, h@, IncomingScheme::Https),
        },
{
    let ghost rs = routes@;
    let mut first: Option<usize> = None;
    let mut last_http: Option<usize> = None;
    let mut last_https: Option<usize> = None;
    let mut i: usize = 0;
    while i < routes.len()
        invariant
            rs == routes@,
            i <= rs.len(),
            match first {
                Some(f) => f < i && route_matches(rs[f as int], h@) && forall|j: int|
                    0 <= j < f ==> !route_matches(#[trigger] rs[j], h@),
                None => forall|j: int| 0 <= j < i ==> !route_matches(#[trigger] rs[j], h@),
            },
            match last_http {
                Some(l) => l < i && scheme_match(rs[l as int], h@, IncomingScheme::Http)
                    && forall|j: int|
                    l < j < i ==> !scheme_match(#[trigger] rs[j], h@, IncomingScheme::Http),
                None => forall|j: int|
                    0 <= j < i ==> !scheme_match(#[trigger] rs[j], h@, IncomingScheme::Http),
            },
            match last_https {
                Some(l) => l < i && scheme_match(rs[l as int], h@, IncomingScheme::Https)
                    && forall|j: int|
                    l < j < i ==> !scheme_match(#[trigger] rs[j], h@, IncomingScheme::Https),
                None => forall|j: int|
                    0 <= j < i ==> !scheme_match(#[trigger] rs[j], h@, IncomingScheme::Https),
            },
        decreases rs.len() - i,
    {
        let r = &routes[i];
        if route_matches_host(r, h) {
            if first.is_none() {
                first = Some(i);
            }
            let sc = route_domain_scheme(r.domain.as_str());
            if same_scheme(sc, IncomingScheme::Http) {
                last_http = Some(i);
            }
            if same_scheme(sc, IncomingScheme::Https) {
                last_https = Some(i);
            }
        }
        i = i + 1;
    }
    (first, last_http, last_https)
}

/// For a CONNECT to `host` (`host:port` or bare), the local target of the
/// route it goes to, if any route matches.
pub fn resolve_connect_target(host: &str, routes: &[LocalRoute]) -> (r: Option<(String, u16)>)
    ensures
        match r {
            Some((th, tp)) => exists|i: int|
                is_connect_choice(routes@, host_no_port(host@), i) && th@ == routes@[i].target_host@
                    && tp == routes@[i].target_port,
            None => !any_match(routes@, host_no_port(host@)),
        },
{
    let h = strip_port(host);
    let (first, last_http, last_https) = scan_routes(h, routes);
    let pick = match last_https {
        Some(i) => Some(i),
        None => match last_http {
            Some(i) => Some(i),
            None => first,
        },
    };
    match pick {
        Some(i) => {
            proof {
                assert(is_connect_choice(routes@, h@, i as int));
            }
            Some((routes[i].target_host.clone(), routes[i].target_port))
        },
        None => None,
    }
}

/// What routing reads of a request's URI: the scheme, host and port of an
/// absolute URI (`GET http://host:port/path`), and the path with its query.
#[derive(Clone, Debug)]
pub struct RequestTarget {
    pub scheme: Option<String>,
    pub host: Option<String>,
    pub port: Option<u16>,
    pub path_and_query: Option<String>,
}

/// Where a request that is not a reserved path and not mocked goes.
#[derive(Clone, Debug)]
pub enum RouteDecision {
    /// To a local backend, in origin form.
    Local { target_host: String, target_port: u16, path_and_query: String },
    /// To its original upstream, at `target_uri`.
    Passthrough { target_uri: String, host: String },
}

pub open spec fn path_query_of(t: RequestTarget) -> Seq<char> {
    match t.path_and_query {
        Some(p) => p@,
        None => "/"@,
    }
}

/// The request's host: that of its URI, else that of its `Host` header, else empty.
pub open spec fn request_host(t: RequestTarget, header: Option<Seq<char>>) -> Seq<char> {
    match t.host {
        Some(h) => h@,
        None => match header {
            Some(h) => h,
            None => Seq::empty(),
        },
    }
}

/// The scheme that routing prefers: that of the URI when it has one, else how the request arrived.
pub open spec fn request_scheme(t: RequestTarget, incoming: IncomingScheme) -> Option<IncomingScheme> {
    match t.scheme {
        Some(s) => if s@ == "http"@ {
            Some(IncomingScheme::Http)
        } else if s@ == "https"@ {
            Some(IncomingScheme::Https)
        } else {
            None
        },
        None => Some(incoming),
    }
}

pub open spec fn is_loopback(h: Seq<char>) -> bool {
    eq_ic(h, "127.0.0.1"@) || eq_ic(h, "localhost"@)
}

/// `i` is the first enabled route.
pub open spec fn is_first_enabled(routes: Seq<LocalRoute>, i: int) -> bool {
    &&& 0 <= i < routes.len()
    &&& routes[i].enabled
    &&& forall|j: int| 0 <= j < i ==> !(#[trigger] routes[j]).enabled
}

pub open spec fn any_enabled(routes: Seq<LocalRoute>) -> bool {
    exists|i: int| 0 <= i < routes.len() && (#[trigger] routes[i]).enabled
}

/// The authority of an absolute URI: host, then `:port` when the URI has a port.
pub open spec fn authority_of(t: RequestTarget) -> Seq<char> {
    match t.port {
        Some(p) => t.host.unwrap()@ + ":"@ + decimal(p as nat),
        None => t.host.unwrap()@,
    }
}

/// The upstream URI of a pass-through request.
pub open spec fn passthrough_uri(t: RequestTarget, header: Option<Seq<char>>) -> Seq<char> {
    if t.scheme is Some && t.host is Some {
        t.scheme.unwrap()@ + "://"@ + authority_of(t) + path_query_of(t)
    } else if header is Some {
        let sc = match t.scheme {
            Some(s) => s@,
            None => "http"@,
        };
        sc + "://"@ + header.unwrap() + path_query_of(t)
    } else {
        "http://"@ + request_host(t, header) + path_query_of(t)
    }
}

pub open spec fn is_local_to(d: RouteDecision, r: LocalRoute, pq: Seq<char>) -> bool {
    match d {
        RouteDecision::Local { target_host, target_port, path_and_query } => target_host@
            == r.target_host@ && target_port == r.target_port && path_and_query@ == pq,
        RouteDecision::Passthrough { .. } => false,
    }
}

/// The routing decision for a request, given the routes and whether a request
/// for `127.0.0.1` or `localhost` may fall back to the first enabled route.
pub open spec fn resolves_to(
    t: RequestTarget,
    header: Option<Seq<char>>,
    routes: Seq<LocalRoute>,
    incoming: IncomingScheme,
    loopback_shortcut: bool,
    d: RouteDecision,
) -> bool {
    let h = host_no_port(request_host(t, header));
    let pq = path_query_of(t);
    if any_match(routes, h) {
        exists|i: int|
            is_request_choice(routes, h, request_scheme(t, incoming), i) && is_local_to(
                d,
                #[trigger] routes[i],
                pq,
            )
    } else if loopback_shortcut && is_loopback(h) && any_enabled(routes) {
        exists|i: int| is_first_enabled(routes, i) && is_local_to(d, #[trigger] routes[i], pq)
    } else {
        match d {
            RouteDecision::Passthrough { target_uri, host } => target_uri@ == passthrough_uri(
                t,
                header,
            ) && host@ == request_host(t, header),
            RouteDecision::Local { .. } => false,
        }
    }
}

fn opt_str(s: &Option<String>) -> (r: Option<&str>)
    ensures
        match s {
            Some(x) => r is Some && r.unwrap()@ == x@,
            None => r is None,
        },
{
    match s {
        Some(x) => Some(x.as_str()),
        None => None,
    }
}

fn first_enabled(routes: &[LocalRoute]) -> (r: Option<usize>)
    ensures
        match r {
            Some(i) => is_first_enabled(routes@, i as int),
            None => !any_enabled(routes@),
        },
{
    let mut i: usize = 0;
    while i < routes.len()
        invariant
            i <= routes@.len(),
            forall|j: int| 0 <= j < i ==> !(#[trigger] routes@[j]).enabled,
        decreases routes@.len() - i,
    {
        if routes[i].enabled {
            return Some(i);
        }
        i = i + 1;
    }
    None
}

fn local_to(r: &LocalRoute, pq: &str) -> (d: RouteDecision)
    ensures
        is_local_to(d, *r, pq@),
{
    RouteDecision::Local {
        target_host: r.target_host.clone(),
        target_port: r.target_port,
        path_and_query: String::from_str(pq),
    }
}

/// The scheme of a request's URI, read as routing reads it.
fn scheme_of_request(t: &RequestTarget, incoming: IncomingScheme) -> (r: Option<IncomingScheme>)
    ensures
        r == request_scheme(*t, incoming),
{
    match &t.scheme {
        Some(s) => {
            if str_eq(s.as_str(), "http") {
                Some(IncomingScheme::Http)
            } else if str_eq(s.as_str(), "https") {
                Some(IncomingScheme::Https)
            } else {
                None
            }
        },
        None => Some(incoming),
    }
}

/// The upstream URI of a pass-through request.
pub fn build_passthrough_uri(t: &RequestTarget, header: Option<&str>) -> (r: String)
    ensures
        r@ == passthrough_uri(*t, opt_view(header)),
{
    let pq: &str = match &t.path_and_query {
        Some(p) => p.as_str(),
        None => "/",
    };
    match (&t.scheme, &t.host) {
        (Some(sc), Some(h)) => {
            let authority = match t.port {
                Some(p) => {
                    let digits = u16_text(p);
                    join4(h.as_str(), ":", digits.as_str(), "")
                },
                None => String::from_str(h.as_str()),
            };
            proof {
                assert(authority@ == authority_of(*t)) by {
                    assert(h@ + ":"@ + decimal(t.port.unwrap() as nat) + ""@ =~= h@ + ":"@
                        + decimal(t.port.unwrap() as nat)) by {
                        reveal_strlit("");
                    }
                }
            }
            join4(sc.as_str(), "://", authority.as_str(), pq)
        },
        _ => match header {
            Some(hh) => {
                let sc: &str = match &t.scheme {
                    Some(s) => s.as_str(),
                    None => "http",
                };
                join4(sc, "://", hh, pq)
            },
            None => {
                let host: &str = match &t.host {
                    Some(h) => h.as_str(),
                    None => "",
                };
                proof {
                    reveal_strlit("");
                }
                join4("http://", host, pq, "")
            },
        },
    }
}

pub open spec fn opt_view(o: Option<&str>) -> Option<Seq<char>> {
    match o {
        Some(s) => Some(s@),
        None => None,
    }
}

/// Chooses where a request goes: the local backend of the best matching
/// route, the first enabled route for a loopback host when `loopback_shortcut`
/// is set, or else its original upstream.
pub fn resolve_target(
    t: &RequestTarget,
    host_from_header: Option<&str>,
    routes: &[LocalRoute],
    incoming_scheme: IncomingScheme,
    loopback_shortcut: bool,
) -> (d: RouteDecision)
    ensures
        resolves_to(*t, opt_view(host_from_header), routes@, incoming_scheme, loopback_shortcut, d),
{
    let host: &str = match opt_str(&t.host) {
        Some(h) => h,
        None => match host_from_header {
            Some(h) => h,
            None => "",
        },
    };
    proof {
        reveal_strlit("");
        assert(host@ == request_host(*t, opt_view(host_from_header)));
    }
    let h = strip_port(host);
    let pq: &str = match &t.path_and_query {
        Some(p) => p.as_str(),
        None => "/",
    };
    let scheme = scheme_of_request(t, incoming_scheme);
    let (first, last_http, last_https) = scan_routes(h, routes);
    let preferred = match scheme {
        Some(IncomingScheme::Http) => last_http,
        Some(IncomingScheme::Https) => last_https,
        None => None,
    };
    let pick = match preferred {
        Some(i) => Some(i),
        None => first,
    };
    if let Some(i) = pick {
        let d = local_to(&routes[i], pq);
        proof {
            assert(is_request_choice(routes@, h@, scheme, i as int));
        }
        return d;
    }
    if loopback_shortcut && (eq_ignore_case(h, "127.0.0.1") || eq_ignore_case(h, "localhost")) {
        if let Some(i) = first_enabled(routes) {
            return local_to(&routes[i], pq);
        }
    }
    RouteDecision::Passthrough {
        target_uri: build_passthrough_uri(t, host_from_header),
        host: String::from_str(host),
    }
}

/// What a path under `/.watchtower/` asks the proxy itself for.
#[derive(Clone, Debug)]
pub enum ReservedKind {
    /// The proxy auto-config script.
    Pac,
    /// The setup page.
    Setup,
    /// The root certificate.
    CaCert,
    /// The leaf certificate of `host`.
    HostCert { host: String },
    /// `/.watchtower/cert/` without a host.
    MissingHost,
    /// Any other reserved path.
    Unknown,
}

/// The reserved kind of `path`, or `None` when `path` is not under `/.watchtower/`.
pub open spec fn classifies(path: Seq<char>, r: Option<ReservedKind>) -> bool {
    if !has_prefix(path, "/.watchtower/"@) {
        r is None
    } else if has_prefix(path, "/.watchtower/proxy.pac"@) {
        r matches Some(ReservedKind::Pac)
    } else if has_prefix(path, "/.watchtower/setup"@) {
        r matches Some(ReservedKind::Setup)
    } else if path == "/.watchtower/cert/ca.crt"@ {
        r matches Some(ReservedKind::CaCert)
    } else if has_prefix(path, "/.watchtower/cert/"@) {
        let host = trim(after_prefix(path, "/.watchtower/cert/"@));
        if host.len() == 0 {
            r matches Some(ReservedKind::MissingHost)
        } else {
            r matches Some(ReservedKind::HostCert { host: h }) && h@ == host
        }
    } else {
        r matches Some(ReservedKind::Unknown)
    }
}

/// Classifies a request path (without query) under the reserved prefix `/.watchtower/`.
pub fn classify_reserved(path: &str) -> (r: Option<ReservedKind>)
    ensures
        classifies(path@, r),
{
    if !starts_with_str(path, "/.watchtower/") {
        return None;
    }
    if starts_with_str(path, "/.watchtower/proxy.pac") {
        return Some(ReservedKind::Pac);
    }
    if starts_with_str(path, "/.watchtower/setup") {
        return Some(ReservedKind::Setup);
    }
    if str_eq(path, "/.watchtower/cert/ca.crt") {
        return Some(ReservedKind::CaCert);
    }
    let cert = "/.watchtower/cert/";
    if starts_with_str(path, cert) {
        let host = trim_str(drop_chars(path, cert.unicode_len()));
        if host.is_empty() {
            return Some(ReservedKind::MissingHost);
        }
        return Some(ReservedKind::HostCert { host: String::from_str(host) });
    }
    Some(ReservedKind::Unknown)
}

/// What the router reads of the current settings.
#[derive(Clone, Copy, Debug)]
pub struct RoutingFlags {
    /// When false, no request goes to a local route.
    pub local_routing_enabled: bool,
    /// When true, a request for `127.0.0.1` or `localhost` that matches no
    /// route goes to the first enabled route.
    pub loopback_shortcut: bool,
}

/// The complete routing decision for a request.
#[derive(Clone, Debug)]
pub enum Decision {
    Reserved(ReservedKind),
    Mock(ApiMock),
    Route(RouteDecision),
}

/// The host that mocks are matched on: that of the `Host` header without its
/// port, else that of the URI.
pub open spec fn mock_host(t: RequestTarget, header: Option<Seq<char>>) -> Seq<char> {
    match header {
        Some(h) => if h.len() > 0 {
            before(h, ':')
        } else {
            match t.host {
                Some(x) => x@,
                None => Seq::empty(),
            }
        },
        None => match t.host {
            Some(x) => x@,
            None => Seq::empty(),
        },
    }
}

/// The path of the request, without its query.
pub open spec fn path_of(t: RequestTarget) -> Seq<char> {
    before(path_query_of(t), '?')
}

/// The routes that routing considers: all of them, or none when local routing is off.
pub open spec fn effective_routes(routes: Seq<LocalRoute>, flags: RoutingFlags) -> Seq<LocalRoute> {
    if flags.local_routing_enabled {
        routes
    } else {
        Seq::empty()
    }
}

/// The decision order: reserved path, then the first matching mock, then local
/// route or pass-through.
pub open spec fn routes_to(
    t: RequestTarget,
    header: Option<Seq<char>>,
    method: Seq<char>,
    incoming: IncomingScheme,
    mocks: Seq<MockView>,
    routes: Seq<LocalRoute>,
    flags: RoutingFlags,
    d: Decision,
) -> bool {
    if has_prefix(path_of(t), "/.watchtower/"@) {
        d is Reserved && classifies(path_of(t), Some(d->Reserved_0))
    } else if any_mock_matches(mocks, mock_host(t, header), path_query_of(t), method) {
        d is Mock && exists|i: int|
            is_first_mock(mocks, mock_host(t, header), path_query_of(t), method, i) && d->Mock_0@
                == mocks[i]
    } else {
        d is Route && resolves_to(
            t,
            header,
            effective_routes(routes, flags),
            incoming,
            flags.loopback_shortcut,
            d->Route_0,
        )
    }
}

/// Routes one request.
pub fn route_request(
    t: &RequestTarget,
    host_header: Option<&str>,
    method: &str,
    incoming: IncomingScheme,
    mocks: &ApiMockService,
    routes: &[LocalRoute],
    flags: RoutingFlags,
) -> (d: Decision)
    ensures
        routes_to(*t, opt_view(host_header), method@, incoming, mocks@, routes@, flags, d),
{
    let pq: &str = match &t.path_and_query {
        Some(p) => p.as_str(),
        None => "/",
    };
    let path = before_char(pq, '?');
    if let Some(k) = classify_reserved(path) {
        return Decision::Reserved(k);
    }
    let mhost: &str = match host_header {
        Some(h) if !h.is_empty() => before_char(h, ':'),
        _ => match &t.host {
            Some(x) => x.as_str(),
            None => "",
        },
    };
    proof {
        reveal_strlit("");
        assert(mhost@ == mock_host(*t, opt_view(host_header)));
    }
    if let Some(m) = mocks.match_mock(mhost, pq, method) {
        return Decision::Mock(m);
    }
    if flags.local_routing_enabled {
        Decision::Route(resolve_target(t, host_header, routes, incoming, flags.loopback_shortcut))
    } else {
        let none: Vec<LocalRoute> = Vec::new();
        proof {
            assert(none@ =~= Seq::<LocalRoute>::empty());
        }
        Decision::Route(
            resolve_target(t, host_header, none.as_slice(), incoming, flags.loopback_shortcut),
        )
    }
}

/// `part` occurs in `s`.
pub open spec fn contains(s: Seq<char>, part: Seq<char>) -> bool {
    exists|k: int| 0 <= k && k + part.len() <= s.len() && #[trigger] s.subrange(k, k + part.len()) == part
}

/// A request that is not for a reserved path, that no mock answers, and whose
/// host names no enabled route, passes through: its upstream URI contains the
/// host that the request named, and the decision carries that host. This holds
/// for every request whose URI has a host only together with a scheme (as an
/// absolute URI has), except a loopback host when the loopback shortcut is on.
pub proof fn lemma_unmatched_passes_through(
    t: RequestTarget,
    header: Option<Seq<char>>,
    method: Seq<char>,
    incoming: IncomingScheme,
    mocks: Seq<MockView>,
    routes: Seq<LocalRoute>,
    flags: RoutingFlags,
    d: Decision,
)
    requires
        routes_to(t, header, method, incoming, mocks, routes, flags, d),
        t.host is Some ==> t.scheme is Some,
        !has_prefix(path_of(t), "/.watchtower/"@),
        !any_mock_matches(mocks, mock_host(t, header), path_query_of(t), method),
        !any_match(routes, host_no_port(request_host(t, header))),
        !(flags.loopback_shortcut && is_loopback(host_no_port(request_host(t, header)))),
    ensures
        d matches Decision::Route(RouteDecision::Passthrough { target_uri, host }) && host@
            == request_host(t, header) && contains(target_uri@, host@),
{
    let h = host_no_port(request_host(t, header));
    let er = effective_routes(routes, flags);
    assert(!any_match(er, h));
    let uri = passthrough_uri(t, header);
    let host = request_host(t, header);
    let pq = path_query_of(t);
    if t.scheme is Some && t.host is Some {
        let sc = t.scheme.unwrap()@;
        let k = (sc.len() + "://"@.len()) as int;
        let auth = authority_of(t);
        assert(uri =~= sc + "://"@ + auth + pq);
        assert(uri.subrange(k, k + host.len() as int) =~= host);
    } else if header is Some {
        let sc = match t.scheme {
            Some(x) => x@,
            None => "http"@,
        };
        let k = (sc.len() + "://"@.len()) as int;
        assert(uri.subrange(k, k + host.len() as int) =~= host);
    } else {
        let k = "http://"@.len() as int;
        assert(uri.subrange(k, k + host.len() as int) =~= host);
    }
}

/// A disabled route is never selected: a local decision always goes to an enabled route.
pub proof fn lemma_disabled_route_never_selected(
    t: RequestTarget,
    header: Option<Seq<char>>,
    method: Seq<char>,
    incoming: IncomingScheme,
    mocks: Seq<MockView>,
    routes: Seq<LocalRoute>,
    flags: RoutingFlags,
    d: Decision,
)
    requires
        routes_to(t, header, method, incoming, mocks, routes, flags, d),
    ensures
        d matches Decision::Route(RouteDecision::Local { .. }) ==> exists|i: int|
            0 <= i < routes.len() && routes[i].enabled && is_local_to(
                d->Route_0,
                #[trigger] routes[i],
                path_query_of(t),
            ),
{
    if d matches Decision::Route(RouteDecision::Local { .. }) {
        let h = host_no_port(request_host(t, header));
        let er = effective_routes(routes, flags);
        let pq = path_query_of(t);
        if !flags.local_routing_enabled {
            assert(!any_match(er, h));
            assert(!any_enabled(er));
        } else if any_match(er, h) {
            let i = choose|i: int|
                is_request_choice(er, h, request_scheme(t, incoming), i) && is_local_to(
                    d->Route_0,
                    #[trigger] er[i],
                    pq,
                );
            assert(routes[i].enabled);
        } else {
            let i = choose|i: int| is_first_enabled(er, i) && is_local_to(d->Route_0, #[trigger] er[i], pq);
            assert(routes[i].enabled);
        }
    }
}

/// When some enabled route for the host is annotated with the request's scheme,
/// the request goes to such a route (the last of them), ahead of bare routes
/// and routes of the other scheme.
pub proof fn lemma_scheme_route_preferred(
    t: RequestTarget,
    header: Option<Seq<char>>,
    method: Seq<char>,
    incoming: IncomingScheme,
    mocks: Seq<MockView>,
    routes: Seq<LocalRoute>,
    flags: RoutingFlags,
    d: Decision,
    s: IncomingScheme,
)
    requires
        routes_to(t, header, method, incoming, mocks, routes, flags, d),
        flags.local_routing_enabled,
        !has_prefix(path_of(t), "/.watchtower/"@),
        !any_mock_matches(mocks, mock_host(t, header), path_query_of(t), method),
        request_scheme(t, incoming) == Some(s),
        any_scheme_match(routes, host_no_port(request_host(t, header)), s),
    ensures
        d is Route,
        exists|i: int|
            is_last_scheme_match(routes, host_no_port(request_host(t, header)), s, i)
                && is_local_to(d->Route_0, #[trigger] routes[i], path_query_of(t)),
{
    let h = host_no_port(request_host(t, header));
    let w = choose|i: int| 0 <= i < routes.len() && scheme_match(#[trigger] routes[i], h, s);
    assert(routes[w].enabled && route_matches(routes[w], h));
    assert(any_match(routes, h));
}

/// A request for a path under `/.watchtower/` is always served by the proxy
/// itself, whatever the routes, mocks and flags.
pub proof fn lemma_reserved_paths_reserved(
    t: RequestTarget,
    header: Option<Seq<char>>,
    method: Seq<char>,
    incoming: IncomingScheme,
    mocks: Seq<MockView>,
    routes: Seq<LocalRoute>,
    flags: RoutingFlags,
    d: Decision,
)
    requires
        routes_to(t, header, method, incoming, mocks, routes, flags, d),
        has_prefix(path_of(t), "/.watchtower/"@),
    ensures
        d is Reserved,
{
}

/// With local routing off, no request goes to a local route.
pub proof fn lemma_routing_off_never_local(
    t: RequestTarget,
    header: Option<Seq<char>>,
    method: Seq<char>,
    incoming: IncomingScheme,
    mocks: Seq<MockView>,
    routes: Seq<LocalRoute>,
    flags: RoutingFlags,
    d: Decision,
)
    requires
        routes_to(t, header, method, incoming, mocks, routes, flags, d),
        !flags.local_routing_enabled,
    ensures
        !(d matches Decision::Route(RouteDecision::Local { .. })),
{
    let h = host_no_port(request_host(t, header));
    let er = effective_routes(routes, flags);
    assert(!any_match(er, h));
    assert(!any_enabled(er));
}

/// A request that is not for a reserved path and that an enabled mock
/// answers is answered by the first such mock, whatever the routes: no local
/// backend and no upstream is contacted.
pub proof fn lemma_mock_before_routes(
    t: RequestTarget,
    header: Option<Seq<char>>,
    method: Seq<char>,
    incoming: IncomingScheme,
    mocks: Seq<MockView>,
    routes: Seq<LocalRoute>,
    flags: RoutingFlags,
    d: Decision,
)
    requires
        routes_to(t, header, method, incoming, mocks, routes, flags, d),
        !has_prefix(path_of(t), "/.watchtower/"@),
        any_mock_matches(mocks, mock_host(t, header), path_query_of(t), method),
    ensures
        d is Mock,
        exists|i: int|
            is_first_mock(mocks, mock_host(t, header), path_query_of(t), method, i) && d->Mock_0@
                == mocks[i],
{
}

} // verus!

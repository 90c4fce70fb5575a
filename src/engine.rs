//! What the request engine decides around the bytes it moves: which headers
//! to forward, the upstream URI under a DNS override, the answer to a mocked
//! or reserved request, the capped body kept for the log, and the texts it
//! serves (the PAC script and the certificate file names).
use vstd::prelude::*;
use crate::ca::{cached, lemma_get_or_create_idempotent, CaService, CaView};
use crate::model::{ApiMock, LocalRoute};
use crate::router::{route_domain_to_host, route_host_of, ReservedKind};
use crate::logging::{lower_of, lowercase};
use crate::text::{decimal, eq_ic, eq_ignore_case, join4, push_char_at, str_eq, u16_text};

verus! {

/// Headers that belong to one connection and are not forwarded.
pub open spec fn is_hop_by_hop(name: Seq<char>) -> bool {
    eq_ic(name, "host"@) || eq_ic(name, "connection"@) || eq_ic(name, "keep-alive"@) || eq_ic(
        name,
        "proxy-connection"@,
    ) || eq_ic(name, "transfer-encoding"@) || eq_ic(name, "upgrade"@)
}

/// Whether a request header is copied to the upstream request.
pub fn forward_header(name: &str) -> (r: bool)
    ensures
        r == !is_hop_by_hop(name@),
{
    !(eq_ignore_case(name, "host") || eq_ignore_case(name, "connection") || eq_ignore_case(
        name,
        "keep-alive",
    ) || eq_ignore_case(name, "proxy-connection") || eq_ignore_case(name, "transfer-encoding")
        || eq_ignore_case(name, "upgrade"))
}

/// The port of an upstream URI: its own, else 443 for `https` and 80 otherwise.
pub open spec fn effective_port(scheme: Seq<char>, port: Option<u16>) -> u16 {
    match port {
        Some(p) => p,
        None => if scheme == "https"@ {
            443u16
        } else {
            80u16
        },
    }
}

/// The upstream URI with its authority replaced by the resolved address:
/// scheme, port, path and query are kept.
pub open spec fn overridden_uri(scheme: Seq<char>, port: Option<u16>, pq: Seq<char>, ip: Seq<char>) -> Seq<
    char,
> {
    scheme + "://"@ + ip + ":"@ + decimal(effective_port(scheme, port) as nat) + pq
}

/// Rewrites an upstream URI to connect to `ip`, the address that the
/// configured DNS server gave for its host.
pub fn dns_override_uri(scheme: &str, port: Option<u16>, path_and_query: &str, ip: &str) -> (r:
    String)
    ensures
        r@ == overridden_uri(scheme@, port, path_and_query@, ip@),
{
    let p = match port {
        Some(p) => p,
        None => if crate::text::str_eq(scheme, "https") {
            443
        } else {
            80
        },
    };
    let digits = u16_text(p);
    let head = join4(scheme, "://", ip, ":");
    let r = join4(head.as_str(), digits.as_str(), path_and_query, "");
    proof {
        reveal_strlit("");
        assert(r@ =~= overridden_uri(scheme@, port, path_and_query@, ip@));
    }
    r
}

/// The answer the proxy gives for a mock.
#[derive(Clone, Debug)]
pub struct MockReply {
    pub status: u16,
    pub content_type: String,
    pub body: String,
}

/// A status code that HTTP accepts (three digits), else 200.
pub open spec fn reply_status(code: u16) -> u16 {
    if 100 <= code && code <= 999 {
        code
    } else {
        200u16
    }
}

/// The content type of a mock's answer: its own, or JSON when it has none.
pub open spec fn reply_content_type(ct: Seq<char>) -> Seq<char> {
    if ct.len() == 0 {
        "application/json"@
    } else {
        ct
    }
}

/// The answer to a request that a mock matched.
pub fn mock_reply(m: &ApiMock) -> (r: MockReply)
    ensures
        r.status == reply_status(m.status_code),
        r.content_type@ == reply_content_type(m.content_type@),
        r.body@ == m.response_body@,
{
    let status = if 100 <= m.status_code && m.status_code <= 999 {
        m.status_code
    } else {
        200
    };
    let content_type = if m.content_type.as_str().is_empty() {
        String::from_str("application/json")
    } else {
        m.content_type.clone()
    };
    MockReply { status, content_type, body: m.response_body.clone() }
}

/// The most bytes of a body that a log record keeps (10 MiB).
pub const LOG_BODY_CAP: usize = 10485760;

/// The part of a body that the log keeps: its first `LOG_BODY_CAP` bytes.
pub fn capped_body(body: &[u8]) -> (r: Vec<u8>)
    ensures
        r@ == body@.subrange(0, if body@.len() > LOG_BODY_CAP {
            LOG_BODY_CAP as int
        } else {
            body@.len() as int
        }),
{
    let n = if body.len() > LOG_BODY_CAP {
        LOG_BODY_CAP
    } else {
        body.len()
    };
    let mut out: Vec<u8> = Vec::new();
    let mut i: usize = 0;
    while i < n
        invariant
            n <= body@.len(),
            i <= n,
            out@ == body@.subrange(0, i as int),
        decreases n - i,
    {
        out.push(body[i]);
        assert(out@ =~= body@.subrange(0, i + 1));
        i = i + 1;
    }
    out
}

/// What the log keeps of a host's traffic, from its switches.
#[derive(Clone, Copy, Debug, PartialEq, Eq, Structural)]
pub enum LogPlan {
    /// No record.
    Off,
    /// A record without bodies.
    Headers,
    /// A record with capped bodies.
    Bodies,
}

/// The log plan for switches `(logging_enabled, body_enabled)` of a host.
pub open spec fn plan_for(cfg: Option<(bool, bool)>) -> LogPlan {
    match cfg {
        Some((true, true)) => LogPlan::Bodies,
        Some((true, false)) => LogPlan::Headers,
        _ => LogPlan::Off,
    }
}

/// Whether and how to log a request: bodies only when both switches are on.
pub fn log_plan(cfg: Option<(bool, bool)>) -> (r: LogPlan)
    ensures
        r == plan_for(cfg),
{
    match cfg {
        Some((true, true)) => LogPlan::Bodies,
        Some((true, false)) => LogPlan::Headers,
        _ => LogPlan::Off,
    }
}

/// A host name with `.` and `:` turned into `-`.
pub open spec fn dashed(s: Seq<char>) -> Seq<char> {
    s.map_values(|c: char| if c == '.' || c == ':' {
        '-'
    } else {
        c
    })
}

/// The download name of a host's certificate: `watchtower-<host>.crt`,
/// which desktop systems open with their certificate installer.
pub fn cert_file_name(host: &str) -> (r: String)
    ensures
        r@ == "watchtower-"@ + dashed(host@) + ".crt"@,
{
    let n = host.unicode_len();
    let mut out = String::from_str("watchtower-");
    let mut i: usize = 0;
    while i < n
        invariant
            n == host@.len(),
            i <= n,
            out@ == "watchtower-"@ + dashed(host@.subrange(0, i as int)),
        decreases n - i,
    {
        let c = host.get_char(i);
        if c == '.' || c == ':' {
            out.append("-");
            proof {
                reveal_strlit("-");
            }
        } else {
            push_char_at(&mut out, host, i);
        }
        assert(out@ =~= "watchtower-"@ + dashed(host@.subrange(0, i + 1)));
        i = i + 1;
    }
    assert(host@.subrange(0, n as int) =~= host@);
    out.append(".crt");
    out
}

/// `s` as the body of a JavaScript string literal: `\` and `"` escaped.
pub open spec fn js_escape(s: Seq<char>) -> Seq<char>
    decreases s.len(),
{
    if s.len() == 0 {
        s
    } else {
        js_escape(s.drop_last()) + if s.last() == '\\' {
            "\\\\"@
        } else if s.last() == '"' {
            "\\\""@
        } else {
            seq![s.last()]
        }
    }
}

pub open spec fn js_quoted(s: Seq<char>) -> Seq<char> {
    "\""@ + js_escape(s) + "\""@
}

/// The hosts, quoted and separated by `, `.
pub open spec fn js_list(hosts: Seq<Seq<char>>) -> Seq<char>
    decreases hosts.len(),
{
    if hosts.len() == 0 {
        Seq::empty()
    } else if hosts.len() == 1 {
        js_quoted(hosts[0])
    } else {
        js_list(hosts.drop_last()) + ", "@ + js_quoted(hosts.last())
    }
}

pub open spec fn route_hosts(routes: Seq<LocalRoute>) -> Seq<Seq<char>> {
    routes.map_values(|r: LocalRoute| route_host_of(r.domain@))
}

/// The proxy auto-config script: the routes' hosts and their subdomains go
/// through the forward proxy, everything else directly.
pub open spec fn pac_script(forward_port: u16, routes: Seq<LocalRoute>) -> Seq<char> {
    "function FindProxyForURL(url, host) {\n  var domains = ["@ + js_list(route_hosts(routes))
        + "];\n  for (var i = 0; i < domains.length; i++) {\n    if (host === domains[i] || host.endsWith(\".\" + domains[i])) return \"PROXY 127.0.0.1:"@
        + decimal(forward_port as nat) + "\";\n  }\n  return \"DIRECT\";\n}\n"@
}

fn append_js_quoted(out: &mut String, s: &str)
    ensures
        final(out)@ == old(out)@ + js_quoted(s@),
{
    proof {
        reveal_strlit("\"");
        reveal_strlit("\\\\");
        reveal_strlit("\\\"");
    }
    out.append("\"");
    let ghost start = out@;
    let n = s.unicode_len();
    let mut i: usize = 0;
    while i < n
        invariant
            n == s@.len(),
            i <= n,
            out@ == start + js_escape(s@.subrange(0, i as int)),
        decreases n - i,
    {
        proof {
            assert(s@.subrange(0, i + 1).drop_last() =~= s@.subrange(0, i as int));
        }
        let c = s.get_char(i);
        if c == '\\' {
            out.append("\\\\");
        } else if c == '"' {
            out.append("\\\"");
        } else {
            push_char_at(out, s, i);
        }
        assert(out@ =~= start + js_escape(s@.subrange(0, i + 1)));
        i = i + 1;
    }
    assert(s@.subrange(0, n as int) =~= s@);
    out.append("\"");
    assert(final(out)@ =~= old(out)@ + js_quoted(s@));
}

/// The PAC script served at `/.watchtower/proxy.pac`.
pub fn build_pac_js(forward_port: u16, routes: &[LocalRoute]) -> (r: String)
    ensures
        r@ == pac_script(forward_port, routes@),
{
    let ghost hosts = route_hosts(routes@);
    let mut list = String::new();
    let mut i: usize = 0;
    while i < routes.len()
        invariant
            i <= routes@.len(),
            hosts == route_hosts(routes@),
            list@ == js_list(hosts.subrange(0, i as int)),
        decreases routes@.len() - i,
    {
        proof {
            assert(hosts.subrange(0, i + 1).drop_last() =~= hosts.subrange(0, i as int));
            reveal_strlit(", ");
        }
        if i > 0 {
            list.append(", ");
        }
        let h = route_domain_to_host(routes[i].domain.as_str());
        append_js_quoted(&mut list, h);
        proof {
            if i == 0 {
                assert(list@ =~= js_quoted(hosts[0]));
            }
        }
        assert(list@ =~= js_list(hosts.subrange(0, i + 1)));
        i = i + 1;
    }
    assert(hosts.subrange(0, routes@.len() as int) =~= hosts);
    let digits = u16_text(forward_port);
    let mut out = String::from_str("function FindProxyForURL(url, host) {\n  var domains = [");
    out.append(list.as_str());
    out.append(
        "];\n  for (var i = 0; i < domains.length; i++) {\n    if (host === domains[i] || host.endsWith(\".\" + domains[i])) return \"PROXY 127.0.0.1:",
    );
    out.append(digits.as_str());
    out.append("\";\n  }\n  return \"DIRECT\";\n}\n");
    out
}

/// Replaces each occurrence of `from` in `s`, from left to right and without
/// overlap, by `to`, as `str::replace` does.
pub open spec fn replaced(s: Seq<char>, from: Seq<char>, to: Seq<char>) -> Seq<char>
    decreases s.len(),
{
    if from.len() == 0 || s.len() < from.len() {
        s
    } else if s.subrange(0, from.len() as int) == from {
        to + replaced(s.subrange(from.len() as int, s.len() as int), from, to)
    } else {
        seq![s[0]] + replaced(s.drop_first(), from, to)
    }
}

/// `s` with each occurrence of `from` replaced by `to`, as `str::replace` does.
pub fn replace_text(s: &str, from: &str, to: &str) -> (r: String)
    requires
        from@.len() > 0,
    ensures
        r@ == replaced(s@, from@, to@),
{
    let n = s.unicode_len();
    let m = from.unicode_len();
    let mut out = String::new();
    let mut i: usize = 0;
    assert(s@.subrange(0, n as int) =~= s@);
    while i < n
        invariant
            n == s@.len(),
            m == from@.len(),
            m > 0,
            i <= n,
            out@ + replaced(s@.subrange(i as int, n as int), from@, to@) == replaced(s@, from@, to@),
        decreases n - i,
    {
        let ghost t = s@.subrange(i as int, n as int);
        if n - i >= m && str_eq(s.substring_char(i, i + m), from) {
            proof {
                assert(t.subrange(0, m as int) =~= s@.subrange(i as int, i + m));
                assert(t.subrange(m as int, t.len() as int) =~= s@.subrange(i + m, n as int));
            }
            let ghost prev = out@;
            out.append(to);
            assert(out@ =~= prev + to@);
            assert(out@ + replaced(s@.subrange(i + m, n as int), from@, to@) =~= prev + replaced(
                t,
                from@,
                to@,
            ));
            i = i + m;
        } else {
            proof {
                if n - i >= m {
                    assert(t.subrange(0, m as int) =~= s@.subrange(i as int, i + m));
                }
                assert(t.drop_first() =~= s@.subrange(i + 1, n as int));
            }
            let ghost prev = out@;
            push_char_at(&mut out, s, i);
            assert(out@ + replaced(s@.subrange(i + 1, n as int), from@, to@) =~= prev + replaced(
                t,
                from@,
                to@,
            ));
            i = i + 1;
        }
    }
    assert(s@.subrange(n as int, n as int) =~= Seq::<char>::empty());
    assert(out@ + Seq::<char>::empty() =~= out@);
    out
}

/// An answer that the proxy writes itself.
#[derive(Clone, Debug)]
pub struct Reply {
    pub status: u16,
    pub content_type: String,
    /// The `Content-Disposition` of a download.
    pub disposition: Option<String>,
    pub body: String,
}

/// `attachment; filename="<name>"`.
pub open spec fn attachment(name: Seq<char>) -> Seq<char> {
    "attachment; filename=\""@ + name + "\""@
}

/// The note on the setup page that names the forward proxy.
pub open spec fn port_note(forward_port: Option<u16>) -> Seq<char> {
    match forward_port {
        Some(p) => " (Forward proxy: 127.0.0.1:"@ + decimal(p as nat) + ")"@,
        None => Seq::empty(),
    }
}

/// The setup page: the template with its placeholders filled.
pub open spec fn setup_page(template: Seq<char>, forward_port: Option<u16>) -> Seq<char> {
    let port = match forward_port {
        Some(p) => p,
        None => 0u16,
    };
    replaced(
        replaced(template, "%PROXY_PORT_MSG%"@, port_note(forward_port)),
        "%PROXY_PORT%"@,
        decimal(port as nat),
    )
}

/// The answer to a reserved path, given the CA before (`ca`) and after.
pub open spec fn reserved_answer(
    kind: ReservedKind,
    forward_port: Option<u16>,
    routes: Seq<LocalRoute>,
    template: Seq<char>,
    ca: CaView,
    r: Reply,
) -> bool {
    match kind {
        ReservedKind::Pac => match forward_port {
            Some(p) => r.status == 200 && r.content_type@ == "application/x-ns-proxy-autoconfig"@
                && r.body@ == pac_script(p, routes) && r.disposition is None,
            None => r.status == 404 && r.body@ == "Forward proxy port not configured"@,
        },
        ReservedKind::Setup => r.status == 200 && r.content_type@ == "text/html; charset=utf-8"@
            && r.body@ == setup_page(template, forward_port),
        ReservedKind::CaCert => r.status == 200 && r.content_type@ == "application/x-pem-file"@
            && r.body@ == ca.root_pem && r.disposition is Some && r.disposition.unwrap()@
            == attachment("watchtower-ca.crt"@),
        ReservedKind::HostCert { host } => (r.status == 200 && r.content_type@
            == "application/x-pem-file"@ && r.disposition is Some && r.disposition.unwrap()@
            == attachment("watchtower-"@ + dashed(host@) + ".crt"@)) || (r.status == 500 && r.body@
            == "Failed to generate certificate"@),
        ReservedKind::MissingHost => r.status == 400 && r.body@
            == "Missing host in path: /.watchtower/cert/<host>"@,
        ReservedKind::Unknown => r.status == 404 && r.body@ == "Not found"@,
    }
}

fn text_reply(status: u16, body: &str) -> (r: Reply)
    ensures
        r.status == status,
        r.body@ == body@,
        r.content_type@ == "text/plain; charset=utf-8"@,
        r.disposition is None,
{
    Reply {
        status,
        content_type: String::from_str("text/plain; charset=utf-8"),
        disposition: None,
        body: String::from_str(body),
    }
}

fn attachment_of(name: &str) -> (r: String)
    ensures
        r@ == attachment(name@),
{
    let mut s = String::from_str("attachment; filename=\"");
    s.append(name);
    s.append("\"");
    s
}

/// Serves a path under `/.watchtower/`: the PAC script, the setup page, the
/// root certificate, or a host's certificate (the same one that TLS serves
/// for that host).
pub fn reserved_reply(
    kind: &ReservedKind,
    forward_port: Option<u16>,
    routes: &[LocalRoute],
    setup_template: &str,
    ca: &mut CaService,
    now: i64,
) -> (r: Reply)
    requires
        old(ca).wf(),
    ensures
        final(ca).wf(),
        reserved_answer(*kind, forward_port, routes@, setup_template@, old(ca)@, r),
        match kind {
            ReservedKind::HostCert { host } => (r.status == 200 ==> cached(
                final(ca)@.entries,
                host@,
            ) is Some && r.body@ == cached(final(ca)@.entries, host@).unwrap().pem) && (cached(
                old(ca)@.entries,
                host@,
            ) is Some ==> r.status == 200 && r.body@ == cached(old(ca)@.entries, host@).unwrap().pem
                && final(ca)@ == old(ca)@),
            _ => final(ca)@ == old(ca)@,
        },
{
    match kind {
        ReservedKind::Pac => match forward_port {
            Some(p) => Reply {
                status: 200,
                content_type: String::from_str("application/x-ns-proxy-autoconfig"),
                disposition: None,
                body: build_pac_js(p, routes),
            },
            None => text_reply(404, "Forward proxy port not configured"),
        },
        ReservedKind::Setup => {
            let port = match forward_port {
                Some(p) => p,
                None => 0,
            };
            let note = match forward_port {
                Some(p) => {
                    let digits = u16_text(p);
                    join4(" (Forward proxy: 127.0.0.1:", digits.as_str(), ")", "")
                },
                None => String::new(),
            };
            proof {
                reveal_strlit("");
                reveal_strlit("%PROXY_PORT_MSG%");
                reveal_strlit("%PROXY_PORT%");
                assert(note@ =~= port_note(forward_port));
            }
            let digits = u16_text(port);
            let first = replace_text(setup_template, "%PROXY_PORT_MSG%", note.as_str());
            let page = replace_text(first.as_str(), "%PROXY_PORT%", digits.as_str());
            Reply {
                status: 200,
                content_type: String::from_str("text/html; charset=utf-8"),
                disposition: None,
                body: page,
            }
        },
        ReservedKind::CaCert => Reply {
            status: 200,
            content_type: String::from_str("application/x-pem-file"),
            disposition: Some(attachment_of("watchtower-ca.crt")),
            body: ca.ca_cert_pem(),
        },
        ReservedKind::HostCert { host } => match ca.get_or_create(host.as_str(), now) {
            Ok(c) => {
                proof {
                    if cached(old(ca)@.entries, host@) is None {
                        lemma_get_or_create_idempotent(old(ca)@.entries, host@, c@);
                    }
                }
                let name = cert_file_name(host.as_str());
                Reply {
                    status: 200,
                    content_type: String::from_str("application/x-pem-file"),
                    disposition: Some(attachment_of(name.as_str())),
                    body: c.pem,
                }
            },
            Err(_) => text_reply(500, "Failed to generate certificate"),
        },
        ReservedKind::MissingHost => text_reply(400, "Missing host in path: /.watchtower/cert/<host>"),
        ReservedKind::Unknown => text_reply(404, "Not found"),
    }
}

/// Why a forwarded request got no answer.
#[derive(Clone, Copy, Debug, PartialEq, Eq, Structural)]
pub enum ForwardFailure {
    /// The local target's address could not be resolved.
    InvalidTarget,
    /// The connection to the target or upstream failed.
    Connect,
    /// The HTTP/1.1 handshake with a local target failed.
    Handshake,
    /// The path could not be sent in origin form.
    InvalidPath,
    /// The upstream did not answer in time.
    Timeout,
    /// The upstream redirected too often.
    Redirect,
    /// Any other failure of the exchange.
    Other,
}

/// The status and text of the answer for a failure; `detail` is the system's account.
pub open spec fn failure_answer(f: ForwardFailure, detail: Seq<char>) -> (u16, Seq<char>) {
    match f {
        ForwardFailure::InvalidTarget => (502u16, "Invalid target host"@),
        ForwardFailure::Connect => (502u16, "Connection failed: "@ + detail),
        ForwardFailure::Handshake => (502u16, "Handshake failed: "@ + detail),
        ForwardFailure::InvalidPath => (400u16, "Invalid path"@),
        ForwardFailure::Timeout => (502u16, "Upstream timed out: "@ + detail),
        ForwardFailure::Redirect => (502u16, "Upstream redirect failed: "@ + detail),
        ForwardFailure::Other => (502u16, "Proxy error: "@ + detail),
    }
}

/// The answer to the client when forwarding failed; nothing is retried.
pub fn failure_reply(f: ForwardFailure, detail: &str) -> (r: Reply)
    ensures
        (r.status, r.body@) == failure_answer(f, detail@),
        r.disposition is None,
{
    let (status, head, with_detail): (u16, &str, bool) = match f {
        ForwardFailure::InvalidTarget => (502, "Invalid target host", false),
        ForwardFailure::Connect => (502, "Connection failed: ", true),
        ForwardFailure::Handshake => (502, "Handshake failed: ", true),
        ForwardFailure::InvalidPath => (400, "Invalid path", false),
        ForwardFailure::Timeout => (502, "Upstream timed out: ", true),
        ForwardFailure::Redirect => (502, "Upstream redirect failed: ", true),
        ForwardFailure::Other => (502, "Proxy error: ", true),
    };
    let mut body = String::from_str(head);
    if with_detail {
        body.append(detail);
    }
    Reply {
        status,
        content_type: String::from_str("text/plain; charset=utf-8"),
        disposition: None,
        body,
    }
}

/// The URL that a log record shows: the absolute URI when the request had
/// one, else the scheme it arrived by, its `Host` header and its path.
pub open spec fn logged_url(
    t: crate::router::RequestTarget,
    incoming: crate::model::IncomingScheme,
    host_header: Seq<char>,
) -> Seq<char> {
    if t.scheme is Some && t.host is Some {
        crate::router::passthrough_uri(t, None)
    } else {
        (match incoming {
            crate::model::IncomingScheme::Http => "http"@,
            crate::model::IncomingScheme::Https => "https"@,
        }) + "://"@ + host_header + crate::router::path_query_of(t)
    }
}

/// The URL of a request as a log record shows it.
pub fn original_full_url(
    t: &crate::router::RequestTarget,
    incoming: crate::model::IncomingScheme,
    host_header: &str,
) -> (r: String)
    ensures
        r@ == logged_url(*t, incoming, host_header@),
{
    let pq: &str = match &t.path_and_query {
        Some(p) => p.as_str(),
        None => "/",
    };
    if t.scheme.is_some() && t.host.is_some() {
        crate::router::build_passthrough_uri(t, None)
    } else {
        let sc = match incoming {
            crate::model::IncomingScheme::Http => "http",
            crate::model::IncomingScheme::Https => "https",
        };
        join4(sc, "://", host_header, pq)
    }
}

/// Who answered a logged request.
#[derive(Clone, Copy, Debug, PartialEq, Eq, Structural)]
pub enum LogSource {
    /// A local backend or the upstream.
    Proxy,
    /// A mock.
    Mock,
}

/// One record of the log journal. Header names are lowercase, each with its
/// first value.
#[derive(Clone, Debug)]
pub struct ApiLogEntry {
    pub id: String,
    pub timestamp: i64,
    pub method: String,
    pub url: String,
    pub host: String,
    pub path: String,
    pub status_code: u16,
    pub request_headers: Vec<(String, String)>,
    pub request_body: Option<String>,
    pub response_headers: Vec<(String, String)>,
    pub response_body: Option<String>,
    pub source: LogSource,
    pub elapsed_ms: u64,
}

pub type HeaderView = (Seq<char>, Seq<char>);

pub open spec fn header_views(h: Seq<(String, String)>) -> Seq<HeaderView> {
    h.map_values(|p: (String, String)| (p.0@, p.1@))
}

pub open spec fn has_name(h: Seq<HeaderView>, name: Seq<char>) -> bool {
    exists|j: int| 0 <= j < h.len() && (#[trigger] h[j]).0 == name
}

/// Headers with lowercased names, each name with its first value, in order
/// of first appearance.
pub open spec fn first_values_of(h: Seq<HeaderView>) -> Seq<HeaderView>
    decreases h.len(),
{
    if h.len() == 0 {
        Seq::empty()
    } else {
        let r = first_values_of(h.drop_last());
        let k = lower_of(h.last().0);
        if has_name(r, k) {
            r
        } else {
            r.push((k, h.last().1))
        }
    }
}

/// Lowercases header names and keeps the first value of each.
pub fn first_values(h: &[(String, String)]) -> (r: Vec<(String, String)>)
    ensures
        header_views(r@) == first_values_of(header_views(h@)),
{
    let ghost all = header_views(h@);
    let mut out: Vec<(String, String)> = Vec::new();
    let mut i: usize = 0;
    while i < h.len()
        invariant
            i <= h@.len(),
            all == header_views(h@),
            header_views(out@) == first_values_of(all.subrange(0, i as int)),
        decreases h@.len() - i,
    {
        proof {
            assert(all.subrange(0, i + 1).drop_last() =~= all.subrange(0, i as int));
        }
        let k = lowercase(h[i].0.as_str());
        let ghost cur = header_views(out@);
        let mut seen = false;
        let mut j: usize = 0;
        while j < out.len()
            invariant
                j <= out@.len(),
                cur == header_views(out@),
                !seen ==> forall|q: int| 0 <= q < j ==> (#[trigger] cur[q]).0 != k@,
                seen ==> has_name(cur, k@),
            decreases out@.len() - j,
        {
            if out[j].0 == k {
                seen = true;
                assert(cur[j as int].0 == k@);
            }
            j = j + 1;
        }
        if !seen {
            out.push((k, h[i].1.clone()));
            assert(header_views(out@) =~= cur.push((lower_of(all[i as int].0), all[i as int].1)));
        }
        assert(header_views(out@) =~= first_values_of(all.subrange(0, i + 1)));
        i = i + 1;
    }
    assert(all.subrange(0, all.len() as int) =~= all);
    out
}

/// The record of an exchange under a log plan: none when logging is off;
/// bodies only when body logging is on, and never a request body for a
/// mocked request, whose body went nowhere.
pub fn log_entry(
    plan: LogPlan,
    id: String,
    timestamp: i64,
    method: &str,
    url: &str,
    host: &str,
    path: &str,
    status_code: u16,
    request_headers: &[(String, String)],
    request_body: &str,
    response_headers: &[(String, String)],
    response_body: &str,
    source: LogSource,
    elapsed_ms: u64,
) -> (r: Option<ApiLogEntry>)
    ensures
        plan == LogPlan::Off <==> r is None,
        r matches Some(e) ==> {
            &&& e.id@ == id@ && e.timestamp == timestamp && e.method@ == method@ && e.url@ == url@
            &&& e.host@ == crate::router::host_no_port(host@) && e.path@ == path@
            &&& e.status_code == status_code && e.source == source && e.elapsed_ms == elapsed_ms
            &&& header_views(e.request_headers@) == first_values_of(header_views(request_headers@))
            &&& header_views(e.response_headers@) == first_values_of(header_views(response_headers@))
            &&& (plan == LogPlan::Bodies && source == LogSource::Proxy ==> e.request_body is Some
                && e.request_body.unwrap()@ == request_body@)
            &&& (source == LogSource::Mock ==> e.request_body is None)
            &&& (plan == LogPlan::Bodies ==> e.response_body is Some && e.response_body.unwrap()@
                == response_body@)
            &&& (plan == LogPlan::Headers ==> e.request_body is None && e.response_body is None)
        },
{
    if plan == LogPlan::Off {
        return None;
    }
    let bodies = plan == LogPlan::Bodies;
    Some(
        ApiLogEntry {
            id,
            timestamp,
            method: String::from_str(method),
            url: String::from_str(url),
            host: String::from_str(crate::router::strip_port(host)),
            path: String::from_str(path),
            status_code,
            request_headers: first_values(request_headers),
            request_body: if bodies && source == LogSource::Proxy {
                Some(String::from_str(request_body))
            } else {
                None
            },
            response_headers: first_values(response_headers),
            response_body: if bodies {
                Some(String::from_str(response_body))
            } else {
                None
            },
            source,
            elapsed_ms,
        },
    )
}

/// The filters of a log query; an absent or empty filter lets every record through.
#[derive(Clone, Debug)]
pub struct LogFilter {
    /// Text that the record's URL contains.
    pub domain: Option<String>,
    /// The record's method, exactly.
    pub method: Option<String>,
    /// Text that the record's host contains.
    pub host: Option<String>,
}

pub open spec fn filter_off(f: Option<String>) -> bool {
    f is None || f.unwrap()@.len() == 0
}

/// A record with this URL, method and host passes the filters.
pub open spec fn passes(f: LogFilter, url: Seq<char>, method: Seq<char>, host: Seq<char>) -> bool {
    &&& (filter_off(f.domain) || crate::text::occurs_in(url, f.domain.unwrap()@))
    &&& (filter_off(f.method) || method == f.method.unwrap()@)
    &&& (filter_off(f.host) || crate::text::occurs_in(host, f.host.unwrap()@))
}

/// Whether a log record passes the filters of a query.
pub fn log_matches(f: &LogFilter, url: &str, method: &str, host: &str) -> (r: bool)
    ensures
        r == passes(*f, url@, method@, host@),
{
    let domain_ok = match &f.domain {
        Some(d) => d.as_str().is_empty() || crate::text::contains_str(url, d.as_str()),
        None => true,
    };
    let method_ok = match &f.method {
        Some(m) => m.as_str().is_empty() || str_eq(method, m.as_str()),
        None => true,
    };
    let host_ok = match &f.host {
        Some(h) => h.as_str().is_empty() || crate::text::contains_str(host, h.as_str()),
        None => true,
    };
    domain_ok && method_ok && host_ok
}

} // verus!

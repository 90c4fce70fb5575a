//! Records that the registries hold and the data plane reads.
use vstd::prelude::*;

verus! {

/// How a request reached the proxy: in clear text, or through a terminated TLS session.
#[derive(Clone, Copy, Debug, PartialEq, Eq, Structural)]
pub enum IncomingScheme {
    Http,
    Https,
}

/// A redirection of a host name to a developer-local backend.
/// `domain` is a bare host name, or a URL whose `http://` or `https://` scheme
/// makes the route prefer requests of that scheme.
#[derive(Clone, Debug)]
pub struct LocalRoute {
    pub id: u32,
    pub domain: String,
    pub target_host: String,
    pub target_port: u16,
    pub enabled: bool,
}

/// A canned response that the proxy serves itself.
#[derive(Clone, Debug)]
pub struct ApiMock {
    pub id: String,
    pub host: String,
    pub path: String,
    pub method: String,
    pub status_code: u16,
    pub response_body: String,
    pub content_type: String,
    pub enabled: bool,
}

/// A route as a mathematical value.
pub struct RouteView {
    pub id: u32,
    pub domain: Seq<char>,
    pub target_host: Seq<char>,
    pub target_port: u16,
    pub enabled: bool,
}

impl View for LocalRoute {
    type V = RouteView;

    open spec fn view(&self) -> RouteView {
        RouteView {
            id: self.id,
            domain: self.domain@,
            target_host: self.target_host@,
            target_port: self.target_port,
            enabled: self.enabled,
        }
    }
}

impl LocalRoute {
    /// A field-by-field copy.
    pub fn copy(&self) -> (r: LocalRoute)
        ensures
            r@ == self@,
    {
        LocalRoute {
            id: self.id,
            domain: self.domain.clone(),
            target_host: self.target_host.clone(),
            target_port: self.target_port,
            enabled: self.enabled,
        }
    }
}

/// A mock as a mathematical value.
pub struct MockView {
    pub id: Seq<char>,
    pub host: Seq<char>,
    pub path: Seq<char>,
    pub method: Seq<char>,
    pub status_code: u16,
    pub response_body: Seq<char>,
    pub content_type: Seq<char>,
    pub enabled: bool,
}

impl View for ApiMock {
    type V = MockView;

    open spec fn view(&self) -> MockView {
        MockView {
            id: self.id@,
            host: self.host@,
            path: self.path@,
            method: self.method@,
            status_code: self.status_code,
            response_body: self.response_body@,
            content_type: self.content_type@,
            enabled: self.enabled,
        }
    }
}

impl ApiMock {
    /// A field-by-field copy.
    pub fn copy(&self) -> (r: ApiMock)
        ensures
            r@ == self@,
    {
        ApiMock {
            id: self.id.clone(),
            host: self.host.clone(),
            path: self.path.clone(),
            method: self.method.clone(),
            status_code: self.status_code,
            response_body: self.response_body.clone(),
            content_type: self.content_type.clone(),
            enabled: self.enabled,
        }
    }
}

/// A monitored domain, identified by its URL.
#[derive(Clone, Debug)]
pub struct Domain {
    pub id: u32,
    pub url: String,
    pub group_id: Option<u32>,
}

#[derive(Clone, Debug)]
pub struct DomainGroup {
    pub id: u32,
    pub name: String,
}

#[derive(Clone, Copy, Debug, PartialEq, Eq, Structural)]
pub struct DomainGroupLink {
    pub domain_id: u32,
    pub group_id: u32,
}

/// Per-domain logging switches; `schema_url` names the API server of the domain, if any.
#[derive(Clone, Debug)]
pub struct DomainApiLoggingLink {
    pub domain_id: u32,
    pub logging_enabled: bool,
    pub body_enabled: bool,
    pub schema_url: Option<String>,
}

/// The value that a logging link takes when a stored record omits `logging_enabled`.
pub fn default_true() -> (r: bool)
    ensures
        r,
{
    true
}

pub const DEFAULT_PROXY_PORT: u16 = 8888;

/// Settings of the listeners. `None` or `Some(0)` leaves a reverse listener off.
#[derive(Clone, Debug)]
pub struct ProxySettings {
    pub dns_server: Option<String>,
    pub proxy_port: u16,
    pub reverse_http_port: Option<u16>,
    pub reverse_https_port: Option<u16>,
    pub bind_all: bool,
    pub local_routing_enabled: bool,
}

pub fn default_proxy_port() -> (r: u16)
    ensures
        r == DEFAULT_PROXY_PORT,
{
    DEFAULT_PROXY_PORT
}

pub fn default_local_routing_enabled() -> (r: bool)
    ensures
        r,
{
    true
}

impl Default for ProxySettings {
    fn default() -> (r: ProxySettings)
        ensures
            r.dns_server is None,
            r.proxy_port == DEFAULT_PROXY_PORT,
            r.reverse_http_port is None,
            r.reverse_https_port is None,
            !r.bind_all,
            r.local_routing_enabled,
    {
        ProxySettings {
            dns_server: None,
            proxy_port: default_proxy_port(),
            reverse_http_port: None,
            reverse_https_port: None,
            bind_all: false,
            local_routing_enabled: default_local_routing_enabled(),
        }
    }
}

/// Settings as a mathematical value.
pub struct SettingsView {
    pub dns_server: Option<Seq<char>>,
    pub proxy_port: u16,
    pub reverse_http_port: Option<u16>,
    pub reverse_https_port: Option<u16>,
    pub bind_all: bool,
    pub local_routing_enabled: bool,
}

pub open spec fn opt_chars(o: Option<String>) -> Option<Seq<char>> {
    match o {
        Some(s) => Some(s@),
        None => None,
    }
}

impl View for ProxySettings {
    type V = SettingsView;

    open spec fn view(&self) -> SettingsView {
        SettingsView {
            dns_server: opt_chars(self.dns_server),
            proxy_port: self.proxy_port,
            reverse_http_port: self.reverse_http_port,
            reverse_https_port: self.reverse_https_port,
            bind_all: self.bind_all,
            local_routing_enabled: self.local_routing_enabled,
        }
    }
}

/// A copy of an optional string.
pub fn copy_opt(o: &Option<String>) -> (r: Option<String>)
    ensures
        opt_chars(r) == opt_chars(*o),
{
    match o {
        Some(s) => Some(s.clone()),
        None => None,
    }
}

impl ProxySettings {
    /// A field-by-field copy.
    pub fn copy(&self) -> (r: ProxySettings)
        ensures
            r@ == self@,
    {
        ProxySettings {
            dns_server: copy_opt(&self.dns_server),
            proxy_port: self.proxy_port,
            reverse_http_port: self.reverse_http_port,
            reverse_https_port: self.reverse_https_port,
            bind_all: self.bind_all,
            local_routing_enabled: self.local_routing_enabled,
        }
    }
}

/// A domain as a mathematical value.
pub struct DomainView {
    pub id: u32,
    pub url: Seq<char>,
    pub group_id: Option<u32>,
}

impl View for Domain {
    type V = DomainView;

    open spec fn view(&self) -> DomainView {
        DomainView { id: self.id, url: self.url@, group_id: self.group_id }
    }
}

impl Domain {
    /// A field-by-field copy.
    pub fn copy(&self) -> (r: Domain)
        ensures
            r@ == self@,
    {
        Domain { id: self.id, url: self.url.clone(), group_id: self.group_id }
    }
}

/// A logging link as a mathematical value.
pub struct LinkView {
    pub domain_id: u32,
    pub logging_enabled: bool,
    pub body_enabled: bool,
    pub schema_url: Option<Seq<char>>,
}

impl View for DomainApiLoggingLink {
    type V = LinkView;

    open spec fn view(&self) -> LinkView {
        LinkView {
            domain_id: self.domain_id,
            logging_enabled: self.logging_enabled,
            body_enabled: self.body_enabled,
            schema_url: opt_chars(self.schema_url),
        }
    }
}

impl DomainApiLoggingLink {
    /// A field-by-field copy.
    pub fn copy(&self) -> (r: DomainApiLoggingLink)
        ensures
            r@ == self@,
    {
        DomainApiLoggingLink {
            domain_id: self.domain_id,
            logging_enabled: self.logging_enabled,
            body_enabled: self.body_enabled,
            schema_url: copy_opt(&self.schema_url),
        }
    }
}

} // verus!

//! Requests that the control plane sends to the registries and the supervisor,
//! and the envelope of its answers.
use vstd::prelude::*;
use crate::model::Domain;

verus! {

/// An answer to the control plane.
#[derive(Clone, Debug)]
pub struct ApiResponse<T> {
    pub message: String,
    pub success: bool,
    pub data: T,
}

#[derive(Clone, Debug)]
pub struct SetDomainApiLoggingPayload {
    pub domain_id: u32,
    pub logging_enabled: bool,
    pub body_enabled: bool,
    pub schema_url: Option<String>,
}

#[derive(Clone, Debug)]
pub struct RemoveDomainApiLoggingPayload {
    pub domain_id: u32,
}

#[derive(Clone, Debug)]
pub struct RegistDomainsPayload {
    pub urls: Vec<String>,
    pub group_id: Option<u32>,
}

#[derive(Clone, Debug)]
pub struct GetDomainByIdPayload {
    pub id: u32,
}

#[derive(Clone, Debug)]
pub struct UpdateDomainByIdPayload {
    pub id: u32,
    pub url: Option<String>,
}

#[derive(Clone, Debug)]
pub struct RemoveDomainsPayload {
    pub id: u32,
}

#[derive(Clone, Debug)]
pub struct ImportDomainsPayload {
    pub domains: Vec<Domain>,
}

#[derive(Clone, Debug)]
pub struct SetDomainGroupsPayload {
    pub domain_id: u32,
    pub group_ids: Vec<u32>,
}

#[derive(Clone, Debug)]
pub struct SetGroupDomainsPayload {
    pub group_id: u32,
    pub domain_ids: Vec<u32>,
}

#[derive(Clone, Debug)]
pub struct GetDomainsByGroupPayload {
    pub group_id: u32,
}

#[derive(Clone, Debug)]
pub struct GetGroupsForDomainPayload {
    pub domain_id: u32,
}

#[derive(Clone, Debug)]
pub struct CreateGroupPayload {
    pub name: String,
}

#[derive(Clone, Debug)]
pub struct DeleteGroupPayload {
    pub id: u32,
}

#[derive(Clone, Debug)]
pub struct UpdateGroupPayload {
    pub id: u32,
    pub name: String,
}

#[derive(Clone, Debug)]
pub struct AddLocalRoutePayload {
    pub domain: String,
    pub target_host: String,
    pub target_port: u16,
}

#[derive(Clone, Debug)]
pub struct UpdateLocalRoutePayload {
    pub id: u32,
    pub domain: Option<String>,
    pub target_host: Option<String>,
    pub target_port: Option<u16>,
    pub enabled: Option<bool>,
}

#[derive(Clone, Debug)]
pub struct RemoveLocalRoutePayload {
    pub id: u32,
}

#[derive(Clone, Debug)]
pub struct SetLocalRouteEnabledPayload {
    pub id: u32,
    pub enabled: bool,
}

#[derive(Clone, Debug)]
pub struct SetProxyBindAllPayload {
    pub bind_all: bool,
}

#[derive(Clone, Debug)]
pub struct SetProxyDnsServerPayload {
    pub dns_server: Option<String>,
}

#[derive(Clone, Copy, Debug)]
pub struct SetProxyPortPayload {
    pub port: u16,
}

#[derive(Clone, Copy, Debug)]
pub struct StartLocalProxyPayload {
    pub port: Option<u16>,
}

#[derive(Clone, Copy, Debug)]
pub struct SetProxyReversePortsPayload {
    pub reverse_http_port: Option<u16>,
    pub reverse_https_port: Option<u16>,
}

#[derive(Clone, Copy, Debug)]
pub struct SetLocalRoutingEnabledPayload {
    pub enabled: bool,
}

} // verus!

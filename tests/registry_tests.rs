use watchtower::domains::DomainService;
use watchtower::groups::{DomainGroupLinkService, DomainGroupService};
use watchtower::logging::{url_to_host, ApiLoggingSettingsService};
use watchtower::mocks::ApiMockService;
use watchtower::model::{ApiMock, Domain, DomainApiLoggingLink, ProxySettings};
use watchtower::routes::LocalRouteService;
use watchtower::settings::{parse_dns_server, parse_u16, ProxySettingsService};

#[test]
fn test_add_route() {
    let mut service = LocalRouteService::new(vec![]);
    let route = service.add("example.com".to_string(), "localhost".to_string(), 3000);
    assert_eq!(route.domain, "example.com");
    assert_eq!(route.target_host, "localhost");
    assert_eq!(route.target_port, 3000);
    assert!(route.enabled);
    assert_eq!(service.get_all().len(), 1);
}

#[test]
fn test_get_enabled() {
    let mut service = LocalRouteService::new(vec![]);
    service.add("one.com".to_string(), "localhost".to_string(), 3001);
    let route2 = service.add("two.com".to_string(), "localhost".to_string(), 3002);
    service.set_enabled(route2.id, false);
    let enabled = service.get_enabled();
    assert_eq!(enabled.len(), 1);
    assert_eq!(enabled[0].domain, "one.com");
}

#[test]
fn test_update_route() {
    let mut service = LocalRouteService::new(vec![]);
    let route = service.add("old.com".to_string(), "localhost".to_string(), 8080);
    let updated = service
        .update(route.id, Some("new.com".to_string()), None, Some(9090), None)
        .unwrap();
    assert_eq!(updated.domain, "new.com");
    assert_eq!(updated.target_port, 9090);
    assert_eq!(updated.target_host, "localhost");
}

#[test]
fn test_remove_route() {
    let mut service = LocalRouteService::new(vec![]);
    let route = service.add("example.com".to_string(), "localhost".to_string(), 3000);
    let removed = service.remove(route.id);
    assert!(removed.is_some());
    assert_eq!(service.get_all().len(), 0);
}

#[test]
fn route_ids_are_never_reused() {
    let mut service = LocalRouteService::new(vec![]);
    let a = service.add("a.com".to_string(), "localhost".to_string(), 1);
    let b = service.add("b.com".to_string(), "localhost".to_string(), 2);
    service.remove(b.id);
    let c = service.add("c.com".to_string(), "localhost".to_string(), 3);
    assert_eq!(a.id, 1);
    assert_eq!(b.id, 2);
    assert_eq!(c.id, 3);
    service.remove(c.id);
    let d = service.add("d.com".to_string(), "localhost".to_string(), 4);
    assert_eq!(d.id, 4);
    assert_eq!(service.next_route_id(), 5);
    assert!(service.update(99, None, None, None, Some(false)).is_none());
    let all = service.replace_all(vec![]);
    assert!(all.is_empty());
}

#[test]
fn test_add_domains() {
    let mut service = DomainService::new(vec![]);
    let added = service.add_domains(vec!["example.com".to_string(), "test.org".to_string()]);
    assert_eq!(added.len(), 2);
    assert_eq!(added[0].url, "example.com");
    assert_eq!(added[1].url, "test.org");
    assert_eq!(service.get_all().len(), 2);
}

#[test]
fn test_add_duplicate_domains() {
    let mut service = DomainService::new(vec![]);
    service.add_domains(vec!["example.com".to_string()]);
    let added = service.add_domains(vec!["example.com".to_string(), "new.com".to_string()]);
    assert_eq!(added.len(), 1);
    assert_eq!(added[0].url, "new.com");
    assert_eq!(service.get_all().len(), 2);
}

#[test]
fn test_get_domain_by_id() {
    let mut service = DomainService::new(vec![]);
    let added = service.add_domains(vec!["example.com".to_string()]);
    let id = added[0].id;
    let found = service.get_domain_by_id(id);
    assert!(found.is_some());
    assert_eq!(found.unwrap().url, "example.com");
}

#[test]
fn test_delete_domain() {
    let mut service = DomainService::new(vec![]);
    let added = service.add_domains(vec!["example.com".to_string()]);
    let id = added[0].id;
    service.delete_domain(id);
    assert_eq!(service.get_all().len(), 0);
}

#[test]
fn test_update_domain() {
    let mut service = DomainService::new(vec![]);
    let added = service.add_domains(vec!["example.com".to_string()]);
    let id = added[0].id;
    let updated = service.update_domain(id, Some("new.com".to_string()));
    assert_eq!(updated.len(), 1);
    assert_eq!(updated[0].url, "new.com");
    assert_eq!(service.get_domain_by_id(id).unwrap().url, "new.com");
}

#[test]
fn test_update_domain_duplicate() {
    let mut service = DomainService::new(vec![]);
    service.add_domains(vec!["one.com".to_string(), "two.com".to_string()]);
    let id_one = service.get_all()[0].id;
    let updated = service.update_domain(id_one, Some("two.com".to_string()));
    assert!(updated.is_empty());
    assert_eq!(service.get_domain_by_id(id_one).unwrap().url, "one.com");
}

#[test]
fn repeated_urls_in_one_request_are_added_once() {
    let mut service = DomainService::new(vec![Domain { id: 7, url: "x.com".to_string(), group_id: None }]);
    let added = service.add_domains(vec!["a.com".to_string(), "a.com".to_string(), "x.com".to_string()]);
    assert_eq!(added.len(), 1);
    assert_eq!(added[0].id, 8);
    let all = service.import_from_json(vec![]);
    assert!(all.is_empty());
}

#[test]
fn test_add_group() {
    let mut service = DomainGroupService::new(vec![]);
    let groups = service.add_group("Test Group".to_string());
    assert_eq!(groups.len(), 1);
    assert_eq!(groups[0].name, "Test Group");
    assert_eq!(service.get_all().len(), 1);
}

#[test]
fn test_delete_group() {
    let mut service = DomainGroupService::new(vec![]);
    let groups = service.add_group("Test Group".to_string());
    let id = groups[0].id;
    service.delete_group(id);
    assert_eq!(service.get_all().len(), 0);
}

#[test]
fn test_update_group() {
    let mut service = DomainGroupService::new(vec![]);
    let groups = service.add_group("Old Name".to_string());
    let id = groups[0].id;
    let updated = service.update_group(id, "New Name".to_string());
    assert_eq!(updated[0].name, "New Name");
    assert_eq!(service.get_all()[0].name, "New Name");
}

#[test]
fn test_set_domains_for_group() {
    let mut service = DomainGroupLinkService::new(vec![]);
    service.set_domains_for_group(1, vec![10, 20, 30]);
    let domains = service.get_domain_ids_for_group(1);
    assert_eq!(domains, vec![10, 20, 30]);
    service.set_domains_for_group(1, vec![40]);
    assert_eq!(service.get_domain_ids_for_group(1), vec![40]);
}

#[test]
fn test_set_groups_for_domain() {
    let mut service = DomainGroupLinkService::new(vec![]);
    service.set_groups_for_domain(10, vec![1, 2]);
    let groups = service.get_group_ids_for_domain(10);
    assert_eq!(groups, vec![1, 2]);
}

#[test]
fn test_add_domain_to_group() {
    let mut service = DomainGroupLinkService::new(vec![]);
    service.add_domain_to_group(10, 1);
    service.add_domain_to_group(10, 1);
    assert_eq!(service.get_domain_ids_for_group(1), vec![10]);
    assert_eq!(service.get_group_ids_for_domain(10), vec![1]);
}

#[test]
fn test_remove_links() {
    let mut service = DomainGroupLinkService::new(vec![]);
    service.add_domain_to_group(10, 1);
    service.add_domain_to_group(20, 1);
    service.add_domain_to_group(10, 2);
    service.remove_links_for_domain(10);
    assert_eq!(service.get_domain_ids_for_group(1), vec![20]);
    assert_eq!(service.get_group_ids_for_domain(10), Vec::<u32>::new());
    service.remove_links_for_group(1);
    assert!(service.get_all_links().is_empty());
}

#[test]
fn test_new_creates_default_when_no_file() {
    let svc = ProxySettingsService::new(ProxySettings::default());
    let s = svc.get();
    assert!(s.local_routing_enabled);
    assert_eq!(s.proxy_port, 8888);
}

#[test]
fn test_set_local_routing_enabled_toggle_cycle() {
    let mut svc = ProxySettingsService::new(ProxySettings::default());
    svc.set_local_routing_enabled(false);
    assert!(!svc.get().local_routing_enabled);
    svc.set_local_routing_enabled(true);
    assert!(svc.get().local_routing_enabled);
}

#[test]
fn settings_setters_normalize() {
    let mut svc = ProxySettingsService::new(ProxySettings::default());
    assert_eq!(svc.set_dns_server(Some("  1.1.1.1  ".to_string())).dns_server, Some("1.1.1.1".to_string()));
    assert_eq!(svc.set_dns_server(Some("   ".to_string())).dns_server, None);
    assert_eq!(svc.set_proxy_port(0).proxy_port, 1);
    assert_eq!(svc.set_proxy_port(9000).proxy_port, 9000);
    let s = svc.set_reverse_ports(Some(0), Some(8443));
    assert_eq!(s.reverse_http_port, None);
    assert_eq!(s.reverse_https_port, Some(8443));
    assert!(svc.set_bind_all(true).bind_all);
}

#[test]
fn dns_server_text() {
    assert_eq!(parse_dns_server("8.8.8.8"), Some(("8.8.8.8".to_string(), 53)));
    assert_eq!(parse_dns_server(" 1.1.1.1:5353 "), Some(("1.1.1.1".to_string(), 5353)));
    assert_eq!(parse_dns_server("1.1.1.1:x"), None);
    assert_eq!(parse_dns_server("   "), None);
    assert_eq!(parse_u16("+80"), Some(80));
    assert_eq!(parse_u16("65535"), Some(65535));
    assert_eq!(parse_u16("65536"), None);
    assert_eq!(parse_u16(""), None);
}

#[test]
fn mock_registry_edits() {
    let m = |id: &str, path: &str| ApiMock {
        id: id.to_string(),
        host: "Api.Example.com".to_string(),
        path: path.to_string(),
        method: "GET".to_string(),
        status_code: 201,
        response_body: "b".to_string(),
        content_type: "text/plain".to_string(),
        enabled: true,
    };
    let mut svc = ApiMockService::new(vec![]);
    svc.add_mock(m("1", "/a"));
    svc.add_mock(m("2", "/b"));
    assert!(svc.match_mock("api.example.com", "/a", "get").is_some());
    assert!(svc.match_mock("api.example.com", "/a?x=1", "GET").is_none());
    svc.update_mock(m("1", "/c"));
    assert!(svc.match_mock("api.example.com", "/a", "GET").is_none());
    assert_eq!(svc.match_mock("API.EXAMPLE.COM", "/c", "GET").unwrap().id, "1");
    svc.remove_mock("2");
    assert_eq!(svc.get_all().len(), 1);
}

#[test]
fn logging_map_from_links_and_domains() {
    let domains = vec![
        Domain { id: 1, url: "https://Secure.Example.com:443/app".to_string(), group_id: None },
        Domain { id: 2, url: "http://plain.example.com".to_string(), group_id: None },
    ];
    let mut svc = ApiLoggingSettingsService::new(vec![]);
    assert_eq!(svc.get_for_host("secure.example.com"), None);
    svc.set_link(1, true, false, Some("https://api.example.com/swagger.json".to_string()), &domains);
    assert_eq!(svc.get_for_host("secure.example.com"), Some((true, false)));
    assert_eq!(svc.get_for_host("SECURE.example.com"), Some((true, false)));
    assert_eq!(svc.get_for_host("api.example.com"), Some((true, false)));
    let links = svc.set_link(1, true, true, None, &domains);
    assert_eq!(links.len(), 1);
    assert_eq!(svc.get_for_host("secure.example.com"), Some((true, true)));
    assert_eq!(svc.get_for_host("api.example.com"), None);
    svc.set_link(
        2,
        false,
        false,
        None,
        &domains,
    );
    assert_eq!(svc.get_links().len(), 2);
    assert_eq!(svc.settings_map_arc().get_for_host("plain.example.com"), Some((false, false)));
    svc.remove_link(1, &domains);
    assert_eq!(svc.get_for_host("secure.example.com"), None);
    let _ = DomainApiLoggingLink { domain_id: 3, logging_enabled: true, body_enabled: false, schema_url: None };
}

#[test]
fn url_hosts() {
    assert_eq!(url_to_host("https://Example.com:8080/path"), Some("example.com".to_string()));
    assert_eq!(url_to_host("plain.org"), Some("plain.org".to_string()));
    assert_eq!(url_to_host("   "), None);
    assert_eq!(url_to_host("http://:80/"), None);
}

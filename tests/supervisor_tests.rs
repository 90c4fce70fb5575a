use watchtower::model::ProxySettings;
use watchtower::supervisor::{
    is_local_routing_enabled, map_bind_error, set_local_routing_enabled, validate_ports,
    BeginStart, ListenerKind, StartError, StartStep, Supervisor,
};

#[test]
fn test_local_routing_toggle() {
    let mut s = Supervisor::new();
    set_local_routing_enabled(&mut s, true);
    assert!(is_local_routing_enabled(&s));
    set_local_routing_enabled(&mut s, false);
    assert!(!is_local_routing_enabled(&s));
    set_local_routing_enabled(&mut s, true);
    assert!(is_local_routing_enabled(&s));
}

#[test]
fn test_default_settings() {
    let settings = ProxySettings::default();
    assert!(settings.local_routing_enabled);
    assert_eq!(settings.proxy_port, 8888);
}

#[test]
fn identical_ports_refused() {
    let s = Supervisor::new();
    match s.begin_start(8888, Some(8888), Some(8888)) {
        BeginStart::Refused(StartError::InvalidPortConfig { port }) => assert_eq!(port, 8888),
        _ => panic!("expected InvalidPortConfig"),
    }
    assert!(!s.get_proxy_status_payload().running);
}

#[test]
fn port_conflict_on_start() {
    let s = Supervisor::new();
    assert!(matches!(
        s.begin_start(8888, Some(8888), None),
        BeginStart::Refused(StartError::InvalidPortConfig { .. })
    ));
    assert!(!s.get_proxy_status_payload().running);
    assert!(validate_ports(8888, Some(8080), Some(8080)).is_err());
    let plan = validate_ports(8888, Some(0), Some(8443)).unwrap();
    assert_eq!(plan.len(), 2);
    assert_eq!(plan[1].kind, ListenerKind::ReverseHttps);
}

#[test]
fn second_bind_failure_aborts_first() {
    let s = Supervisor::new();
    let mut a = match s.begin_start(8888, Some(8080), None) {
        BeginStart::Attempt(a) => a,
        _ => panic!("expected an attempt"),
    };
    assert!(matches!(a.next_step(), StartStep::Bind(p) if p.port == 8888));
    a.on_bound(7);
    assert!(matches!(a.next_step(), StartStep::Bind(p) if p.port == 8080));
    let (aborted, err) = a.on_bind_failed(Some(98));
    assert_eq!(aborted, vec![7]);
    assert_eq!(err, StartError::BindFailed { port: 8080, os_error: Some(98) });
    let st = s.get_proxy_status_payload();
    assert!(!st.running);
    assert_eq!(st.port, 0);
    assert_eq!(st.reverse_http_port, None);
}

#[test]
fn stop_after_start_resets_ports_once() {
    let mut s = Supervisor::new();
    let mut a = match s.begin_start(8888, Some(8080), Some(8443)) {
        BeginStart::Attempt(a) => a,
        _ => panic!("expected an attempt"),
    };
    a.on_bound(1);
    a.on_bound(2);
    a.on_bound(3);
    assert_eq!(a.next_step(), StartStep::Commit);
    let st = s.commit(a);
    assert!(st.running);
    assert_eq!(st.port, 8888);
    assert_eq!(st.reverse_http_port, Some(8080));
    assert_eq!(st.reverse_https_port, Some(8443));
    assert!(matches!(s.begin_start(9999, None, None), BeginStart::AlreadyRunning(_)));
    let (handles, st) = s.stop();
    assert_eq!(handles, vec![1, 2, 3]);
    assert!(!st.running);
    assert_eq!(st.port, 0);
    assert_eq!(st.reverse_http_port, None);
    let (again, _) = s.stop();
    assert!(again.is_empty());
}

#[test]
fn bind_error_messages() {
    assert_eq!(
        map_bind_error(8888, Some(98), "x"),
        "Port 8888 is already in use. Stop the other process or choose a different port."
    );
    assert_eq!(
        map_bind_error(80, Some(10048), "x"),
        "Port 80 is already in use. Stop the other process using this port or choose a different port in settings."
    );
    assert_eq!(map_bind_error(1, None, "denied"), "Failed to bind port 1: denied");
}

#[test]
fn auto_start_error_recorded() {
    let mut s = Supervisor::new();
    assert_eq!(s.get_proxy_auto_start_error(), None);
    s.set_auto_start_error(Some("boom".to_string()));
    assert_eq!(s.get_proxy_auto_start_error(), Some("boom".to_string()));
}

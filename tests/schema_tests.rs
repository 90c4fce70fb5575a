use watchtower::schemas::{ApiSchema, ApiSchemaService};

fn schema(id: &str, domain_id: u32) -> ApiSchema {
    ApiSchema {
        id: id.to_string(),
        domain_id,
        version: "1".to_string(),
        spec: "{}".to_string(),
        source: "import".to_string(),
        fetched_at: 0,
    }
}

#[test]
fn latest_schema_follows_imports_and_removals() {
    let mut svc = ApiSchemaService::new(vec![], vec![]);
    assert!(svc.get_latest_schema_for_domain(1).is_none());
    svc.add_schema(schema("a", 1));
    svc.add_schema(schema("b", 1));
    svc.add_schema(schema("c", 2));
    assert_eq!(svc.get_latest_schema_for_domain(1).unwrap().id, "b");
    assert_eq!(svc.get_schemas_for_domain(1).len(), 2);
    svc.remove_schema("b");
    assert_eq!(svc.get_latest_schema_for_domain(1).unwrap().id, "a");
    svc.remove_schema("a");
    assert!(svc.get_latest_schema_for_domain(1).is_none());
    assert_eq!(svc.get_latest_schema_for_domain(2).unwrap().id, "c");
    assert!(svc.get_schema_by_id("a").is_none());
    svc.remove_schema("missing");
    assert_eq!(svc.get_schema_by_id("c").unwrap().domain_id, 2);
}

use watchtower::testcases::{ApiTestCase, ApiTestCaseService};

fn case(id: &str, domain_id: u32) -> ApiTestCase {
    ApiTestCase {
        id: id.to_string(),
        domain_id,
        name: "n".to_string(),
        method: "GET".to_string(),
        url: "http://example.com/".to_string(),
        headers: vec![("accept".to_string(), "*/*".to_string())],
        body: None,
        expected_status: Some(200),
    }
}

#[test]
fn test_cases_by_domain() {
    let mut svc = ApiTestCaseService::new(vec![]);
    svc.add_test_case(case("1", 1));
    svc.add_test_case(case("2", 2));
    svc.add_test_case(case("3", 1));
    let d1 = svc.get_for_domain(1);
    assert_eq!(d1.len(), 2);
    assert_eq!(d1[1].id, "3");
    assert_eq!(d1[0].headers[0].1, "*/*");
    svc.remove_test_case("1");
    svc.remove_test_case("missing");
    assert_eq!(svc.get_all().len(), 2);
    assert_eq!(svc.get_for_domain(1).len(), 1);
}

use ovhctl::json::record_to_json;
use ovhctl::auth::Credential;
use ovhctl::auth::Rule;
use ovhctl::auth::credential_to_json;
use ovhctl::auth::default_credential;
use ovhctl::records::Record;
use ovhctl::resources::LoadBalancerCreation;

fn record(id: Option<i64>, ttl: Option<i64>, sub_domain: &str, target: &str) -> Record {
    Record {
        id,
        field_type: "A".to_string(),
        sub_domain: sub_domain.to_string(),
        ttl,
        zone: "example.com".to_string(),
        target: target.to_string(),
    }
}

#[test]
fn record_json_without_id_or_ttl() {
    let r = record(None, None, "web-01", "198.51.100.7");
    assert_eq!(
        record_to_json(&r),
        "{\"fieldType\":\"A\",\"subDomain\":\"web-01\",\"target\":\"198.51.100.7\"}",
    );
}

#[test]
fn record_json_with_id_and_ttl() {
    let r = record(Some(42), Some(-1), "web-01", "198.51.100.7");
    assert_eq!(
        record_to_json(&r),
        "{\"id\":42,\"fieldType\":\"A\",\"subDomain\":\"web-01\",\"ttl\":-1,\"target\":\"198.51.100.7\"}",
    );
}

#[test]
fn record_json_never_carries_the_zone() {
    let r = record(None, None, "web-01", "198.51.100.7");
    assert!(!record_to_json(&r).contains("example.com"));
}

#[test]
fn record_json_escapes_string_values() {
    let r = record(None, None, "a\"b\\c\nd\te\u{1}f", "t");
    assert_eq!(
        record_to_json(&r),
        "{\"fieldType\":\"A\",\"subDomain\":\"a\\\"b\\\\c\\nd\\te\\u0001f\",\"target\":\"t\"}",
    );
}

#[test]
fn credential_json_lists_rules_in_order() {
    let c = Credential {
        access_rules: vec![
            Rule { method: "GET".to_string(), path: "/*".to_string() },
            Rule { method: "POST".to_string(), path: "/*".to_string() },
        ],
        redirection: "https://example.test/done".to_string(),
    };
    assert_eq!(
        credential_to_json(&c),
        "{\"accessRules\":[{\"method\":\"GET\",\"path\":\"/*\"},{\"method\":\"POST\",\"path\":\"/*\"}],\"redirection\":\"https://example.test/done\"}",
    );
}

#[test]
fn credential_json_with_no_rules() {
    let c = Credential { access_rules: vec![], redirection: "r".to_string() };
    assert_eq!(credential_to_json(&c), "{\"accessRules\":[],\"redirection\":\"r\"}");
}

#[test]
fn default_credential_asks_for_every_method() {
    let c = default_credential();
    let json = credential_to_json(&c);
    assert_eq!(c.access_rules.len(), 4);
    assert_eq!(c.access_rules[0].method, "GET");
    assert_eq!(c.access_rules[1].method, "POST");
    assert_eq!(c.access_rules[2].method, "PUT");
    assert_eq!(c.access_rules[3].method, "DELETE");
    assert!(json.starts_with("{\"accessRules\":[{\"method\":\"GET\",\"path\":\"/*\"},"));
}

#[test]
fn loadbalancer_creation_json() {
    let c = LoadBalancerCreation::from("GRA1".to_string());
    assert_eq!(c.to_json(), "{\"region\":\"GRA1\"}");
}

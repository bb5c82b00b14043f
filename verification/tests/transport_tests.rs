use ovhctl::transport::ClientConfiguration;
use ovhctl::transport::Error;
use ovhctl::transport::Ovh;
use ovhctl::transport::delete_request;
use ovhctl::transport::delete_response_result;
use ovhctl::transport::get_request;
use ovhctl::transport::get_unauthenticated_request;
use ovhctl::transport::is_success;
use ovhctl::transport::post_request;
use ovhctl::transport::post_unauthenticated_request;
use ovhctl::transport::put_request;
use ovhctl::transport::response_result;
use ovhctl::signer::sign;

fn config() -> ClientConfiguration {
    ClientConfiguration {
        endpoint: "https://eu.api.ovh.com/1.0".to_string(),
        application_key: "app-key".to_string(),
        application_secret: "app-secret".to_string(),
        consumer_key: "consumer-key".to_string(),
    }
}

#[test]
fn get_request_is_signed_and_bodyless() {
    let r = get_request(&config(), "cloud/project", 1600000000);
    assert_eq!(r.method, "GET");
    assert_eq!(r.url, "https://eu.api.ovh.com/1.0/cloud/project");
    assert_eq!(r.body, "");
    assert_eq!(r.headers.len(), 4);
    assert_eq!(r.headers[0].0, "X-Ovh-Application");
    assert_eq!(r.headers[0].1, "app-key");
    assert_eq!(r.headers[1].0, "X-Ovh-Timestamp");
    assert_eq!(r.headers[1].1, "1600000000");
    assert_eq!(r.headers[2].0, "X-Ovh-Consumer");
    assert_eq!(r.headers[2].1, "consumer-key");
    assert_eq!(r.headers[3].0, "X-Ovh-Signature");
    assert_eq!(r.headers[3].1, "$1$94d2376ab71ddbb800136b33d3e6b49b24049080");
}

#[test]
fn post_request_carries_body_and_content_type() {
    let body = "{\"region\":\"GRA1\"}";
    let r = post_request(&config(), "cloud/project/t-1/loadbalancer", body, 7);
    assert_eq!(r.method, "POST");
    assert_eq!(r.url, "https://eu.api.ovh.com/1.0/cloud/project/t-1/loadbalancer");
    assert_eq!(r.body, body);
    assert_eq!(r.headers.len(), 5);
    assert_eq!(r.headers[0].0, "Content-Type");
    assert_eq!(r.headers[0].1, "application/json");
    assert_eq!(
        r.headers[4].1,
        sign("app-secret", "consumer-key", "POST", &r.url, body, 7),
    );
}

#[test]
fn post_request_normalizes_empty_json_string_body() {
    // Refreshing a zone posts the serialized empty string: the body
    // is sent empty, without a content type, and the signature
    // covers the empty body.
    let r = post_request(&config(), "domain/zone/example.com/refresh", "\"\"", 7);
    assert_eq!(r.body, "");
    assert_eq!(r.headers.len(), 4);
    assert_eq!(r.headers[0].0, "X-Ovh-Application");
    assert_eq!(
        r.headers[3].1,
        sign("app-secret", "consumer-key", "POST", &r.url, "", 7),
    );
}

#[test]
fn put_request_is_signed_with_its_method() {
    let body = "{\"region\":\"GRA1\"}";
    let r = put_request(&config(), "cloud/project/t-1/loadbalancer/lb-1", body, 7);
    assert_eq!(r.method, "PUT");
    assert_eq!(
        r.headers[4].1,
        sign("app-secret", "consumer-key", "PUT", &r.url, body, 7),
    );
}

#[test]
fn delete_request_is_signed_and_bodyless() {
    let r = delete_request(&config(), "domain/zone/example.com/record/42", 7);
    assert_eq!(r.method, "DELETE");
    assert_eq!(r.body, "");
    assert_eq!(r.headers.len(), 4);
    assert_eq!(
        r.headers[3].1,
        sign("app-secret", "consumer-key", "DELETE", &r.url, "", 7),
    );
}

#[test]
fn unauthenticated_requests_carry_only_the_application_header() {
    let g = get_unauthenticated_request("https://eu.api.ovh.com/1.0", "app-key", "cloud/project");
    assert_eq!(g.headers.len(), 1);
    assert_eq!(g.headers[0].0, "X-Ovh-Application");
    assert_eq!(g.headers[0].1, "app-key");
    let p = post_unauthenticated_request("https://eu.api.ovh.com/1.0", "app-key", "auth/credential", "{}");
    assert_eq!(p.url, "https://eu.api.ovh.com/1.0/auth/credential");
    assert_eq!(p.headers.len(), 2);
    assert_eq!(p.headers[0].0, "Content-Type");
    assert_eq!(p.headers[1].0, "X-Ovh-Application");
    assert_eq!(p.body, "{}");
}

#[test]
fn success_statuses_are_the_2xx_range() {
    assert!(is_success(200));
    assert!(is_success(204));
    assert!(is_success(299));
    assert!(!is_success(199));
    assert!(!is_success(300));
    assert!(!is_success(404));
    assert!(!is_success(500));
}

#[test]
fn failed_response_reports_url_status_and_body() {
    let r = response_result("https://example.test/x", 403, Some("denied".to_string()));
    match r {
        Err(Error::RequestFailed { url, status, body }) => {
            assert_eq!(url, "https://example.test/x");
            assert_eq!(status, 403);
            assert_eq!(body, Some("denied".to_string()));
        },
        _ => panic!("expected a request failure"),
    }
    assert!(response_result("u", 201, None).is_ok());
}

#[test]
fn delete_treats_not_found_as_success() {
    assert!(delete_response_result("u", 404, None).is_ok());
    assert!(delete_response_result("u", 204, None).is_ok());
    assert!(delete_response_result("u", 500, Some("boom".to_string())).is_err());
}

#[test]
fn missing_consumer_key_is_a_configuration_error() {
    let r = ClientConfiguration::from_ovh(Ovh {
        endpoint: "e".to_string(),
        application_key: "k".to_string(),
        application_secret: "s".to_string(),
        consumer_key: None,
    });
    match r {
        Err(Error::Configuration(m)) => assert_eq!(m, "could not retrieve consumer key"),
        _ => panic!("expected a configuration error"),
    }
    let ok = ClientConfiguration::from_ovh(Ovh {
        endpoint: "e".to_string(),
        application_key: "k".to_string(),
        application_secret: "s".to_string(),
        consumer_key: Some("c".to_string()),
    });
    match ok {
        Ok(c) => {
            assert_eq!(c.endpoint, "e");
            assert_eq!(c.application_key, "k");
            assert_eq!(c.application_secret, "s");
            assert_eq!(c.consumer_key, "c");
        },
        Err(_) => panic!("expected a configuration"),
    }
}

#[test]
fn unauthenticated_post_does_not_normalize_the_body() {
    let p = post_unauthenticated_request("https://eu.api.ovh.com/1.0", "app-key", "auth/credential", "\"\"");
    assert_eq!(p.body, "\"\"");
    assert_eq!(p.headers.len(), 2);
}

#[test]
fn failure_message_text() {
    let e = match response_result("https://example.test/x", 500, Some("oops".to_string())) {
        Err(e) => e,
        Ok(_) => panic!("expected a failure"),
    };
    assert_eq!(
        e.message(),
        "could not execute the request 'https://example.test/x', got '500', oops",
    );
    let bare = match response_result("u", 404, None) {
        Err(e) => e,
        Ok(_) => panic!("expected a failure"),
    };
    assert_eq!(bare.message(), "could not execute the request 'u', got '404'");
}

#[test]
fn message_carries_each_error_kind_text() {
    assert_eq!(Error::Configuration("no key".to_string()).message(), "no key");
    assert_eq!(Error::RequestBuild("bad url".to_string()).message(), "bad url");
    assert_eq!(Error::Transport("refused".to_string()).message(), "refused");
    assert_eq!(Error::Deserialization("bad shape".to_string()).message(), "bad shape");
}

use ovhctl::signer::sign;

#[test]
fn sign_known_get_value() {
    let s = sign(
        "app-secret",
        "consumer-key",
        "GET",
        "https://eu.api.ovh.com/1.0/cloud/project",
        "",
        1600000000,
    );
    assert_eq!(s, "$1$94d2376ab71ddbb800136b33d3e6b49b24049080");
}

#[test]
fn sign_known_post_value() {
    let s = sign(
        "app-secret",
        "consumer-key",
        "POST",
        "https://eu.api.ovh.com/1.0/domain/zone/example.com/record",
        "{\"fieldType\":\"A\",\"subDomain\":\"web-01\",\"target\":\"198.51.100.7\"}",
        1366560945,
    );
    assert_eq!(s, "$1$21ca7a0fe1b17c8282e44eb07ec8c2540a9cb4ac");
}

#[test]
fn sign_is_deterministic() {
    let a = sign("s", "c", "GET", "https://example.test/1.0/x", "", 42);
    let b = sign("s", "c", "GET", "https://example.test/1.0/x", "", 42);
    assert_eq!(a, b);
}

#[test]
fn sign_changes_with_timestamp() {
    let a = sign(
        "app-secret",
        "consumer-key",
        "GET",
        "https://eu.api.ovh.com/1.0/cloud/project",
        "",
        1600000000,
    );
    let b = sign(
        "app-secret",
        "consumer-key",
        "GET",
        "https://eu.api.ovh.com/1.0/cloud/project",
        "",
        1600000001,
    );
    assert_eq!(b, "$1$e98b2294cd05174f0172f6bbedd6c762a08ff172");
    assert_ne!(a, b);
}

#[test]
fn sign_changes_with_each_input() {
    let base = sign("s", "c", "GET", "u", "b", 1);
    assert_ne!(base, sign("x", "c", "GET", "u", "b", 1));
    assert_ne!(base, sign("s", "x", "GET", "u", "b", 1));
    assert_ne!(base, sign("s", "c", "POST", "u", "b", 1));
    assert_ne!(base, sign("s", "c", "GET", "x", "b", 1));
    assert_ne!(base, sign("s", "c", "GET", "u", "x", 1));
    assert_ne!(base, sign("s", "c", "GET", "u", "b", 2));
}

#[test]
fn sign_has_version_tag_and_hex_digest() {
    let s = sign("s", "c", "GET", "u", "", 7);
    assert_eq!(s.len(), 43);
    assert!(s.starts_with("$1$"));
    assert!(s[3..].chars().all(|c| c.is_ascii_hexdigit() && !c.is_ascii_uppercase()));
}

use ovhctl::ip::Cidr;
use ovhctl::ip::Ip;
use ovhctl::ip::IpBits;
use ovhctl::reconcile::Instance;
use ovhctl::reconcile::IpAddress;
use ovhctl::reconcile::reconcile;
use ovhctl::records::Record;

fn v4(a: u8, b: u8, c: u8, d: u8) -> IpBits {
    IpBits::V4(((a as u32) << 24) | ((b as u32) << 16) | ((c as u32) << 8) | (d as u32))
}

fn address(text: &str, bits: IpBits, kind: &str, version: i32) -> IpAddress {
    IpAddress {
        ip: Ip { bits, text: text.to_string() },
        kind: kind.to_string(),
        version,
        network_id: "net-1".to_string(),
        gateway_ip: None,
    }
}

fn instance(name: &str, addresses: Vec<IpAddress>) -> Instance {
    Instance {
        id: "i-1".to_string(),
        name: name.to_string(),
        ip_addresses: addresses,
        flavor_id: "f-1".to_string(),
        image_id: "img-1".to_string(),
        region: "GRA1".to_string(),
        status: "ACTIVE".to_string(),
        plan_code: "b2-7".to_string(),
    }
}

fn record(id: Option<i64>, field_type: &str, sub_domain: &str, zone: &str, target: &str) -> Record {
    Record {
        id,
        field_type: field_type.to_string(),
        sub_domain: sub_domain.to_string(),
        ttl: None,
        zone: zone.to_string(),
        target: target.to_string(),
    }
}

#[test]
fn creates_record_for_new_public_v4_address() {
    let instances = vec![instance(
        "web-01",
        vec![address("198.51.100.7", v4(198, 51, 100, 7), "public", 4)],
    )];
    let records: Vec<Record> = vec![];
    let (to_delete, to_create) = reconcile(&instances, &records, "example.com", &vec![]);
    assert_eq!(to_delete.len(), 0);
    assert_eq!(to_create.len(), 1);
    assert_eq!(to_create[0].id, None);
    assert_eq!(to_create[0].field_type, "A");
    assert_eq!(to_create[0].sub_domain, "web-01");
    assert_eq!(to_create[0].ttl, None);
    assert_eq!(to_create[0].zone, "example.com");
    assert_eq!(to_create[0].target, "198.51.100.7");
}

#[test]
fn strips_zone_suffix_from_instance_name() {
    let instances = vec![instance(
        "web-01.example.com",
        vec![address("198.51.100.7", v4(198, 51, 100, 7), "public", 4)],
    )];
    let records: Vec<Record> = vec![];
    let (to_delete, to_create) = reconcile(&instances, &records, "example.com", &vec![]);
    assert_eq!(to_delete.len(), 0);
    assert_eq!(to_create.len(), 1);
    assert_eq!(to_create[0].sub_domain, "web-01");
}

#[test]
fn strips_only_one_zone_suffix() {
    // Only one trailing "." + zone occurrence is removed: the rest of
    // the name is a dotted sub-domain relative to the zone.
    let instances = vec![instance(
        "a.example.com.example.com",
        vec![address("198.51.100.7", v4(198, 51, 100, 7), "public", 4)],
    )];
    let records: Vec<Record> = vec![];
    let (_, to_create) = reconcile(&instances, &records, "example.com", &vec![]);
    assert_eq!(to_create.len(), 1);
    assert_eq!(to_create[0].sub_domain, "a.example.com");
}

#[test]
fn record_for_another_target_is_left_alone() {
    // The instance's address changed from .9 to .7: the lookup is by
    // target value, so the record that still targets .9 is not seen
    // by this address; the desired record for .7 is created.
    let instances = vec![instance(
        "web-01",
        vec![address("198.51.100.7", v4(198, 51, 100, 7), "public", 4)],
    )];
    let records = vec![record(Some(11), "A", "web-01", "example.com", "198.51.100.9")];
    let (to_delete, to_create) = reconcile(&instances, &records, "example.com", &vec![]);
    assert_eq!(to_delete.len(), 0);
    assert_eq!(to_create.len(), 1);
    assert_eq!(to_create[0].target, "198.51.100.7");
}

#[test]
fn replaces_record_whose_value_differs() {
    // A record targets the address but under another sub-domain: it
    // is replaced, never updated in place.
    let instances = vec![instance(
        "web-01",
        vec![address("198.51.100.7", v4(198, 51, 100, 7), "public", 4)],
    )];
    let records = vec![record(Some(11), "A", "old-name", "example.com", "198.51.100.7")];
    let (to_delete, to_create) = reconcile(&instances, &records, "example.com", &vec![]);
    assert_eq!(to_delete.len(), 1);
    assert_eq!(to_delete[0].id, Some(11));
    assert_eq!(to_delete[0].sub_domain, "old-name");
    assert_eq!(to_create.len(), 1);
    assert_eq!(to_create[0].sub_domain, "web-01");
    assert_eq!(to_create[0].target, "198.51.100.7");
}

#[test]
fn identical_record_yields_no_action() {
    let instances = vec![instance(
        "web-01",
        vec![address("198.51.100.7", v4(198, 51, 100, 7), "public", 4)],
    )];
    let records = vec![record(Some(11), "A", "web-01", "example.com", "198.51.100.7")];
    let (to_delete, to_create) = reconcile(&instances, &records, "example.com", &vec![]);
    assert_eq!(to_delete.len(), 0);
    assert_eq!(to_create.len(), 0);
}

#[test]
fn private_address_deletes_stale_record() {
    // The address was reclassified from public to private between
    // runs; the record that still targets it is stale.
    let instances = vec![instance(
        "web-01",
        vec![address("198.51.100.7", v4(198, 51, 100, 7), "private", 4)],
    )];
    let records = vec![record(Some(11), "A", "web-01", "example.com", "198.51.100.7")];
    let (to_delete, to_create) = reconcile(&instances, &records, "example.com", &vec![]);
    assert_eq!(to_delete.len(), 1);
    assert_eq!(to_delete[0].id, Some(11));
    assert_eq!(to_create.len(), 0);
}

#[test]
fn private_address_without_record_contributes_nothing() {
    let instances = vec![instance(
        "web-01",
        vec![address("10.0.0.7", v4(10, 0, 0, 7), "private", 4)],
    )];
    let records: Vec<Record> = vec![];
    let (to_delete, to_create) = reconcile(&instances, &records, "example.com", &vec![]);
    assert_eq!(to_delete.len(), 0);
    assert_eq!(to_create.len(), 0);
}

#[test]
fn excluded_address_yields_no_create_and_deletes_prior_record() {
    // 198.51.100.0/24 is excluded: the only public address falls
    // inside it, so nothing is created and the prior record goes.
    let instances = vec![instance(
        "web-01",
        vec![address("198.51.100.7", v4(198, 51, 100, 7), "public", 4)],
    )];
    let records = vec![record(Some(11), "A", "web-01", "example.com", "198.51.100.7")];
    let excluded = vec![Cidr { bits: v4(198, 51, 100, 0), prefix: 24 }];
    let (to_delete, to_create) = reconcile(&instances, &records, "example.com", &excluded);
    assert_eq!(to_delete.len(), 1);
    assert_eq!(to_delete[0].id, Some(11));
    assert_eq!(to_create.len(), 0);
}

#[test]
fn excluded_address_without_record_contributes_nothing() {
    let instances = vec![instance(
        "web-01",
        vec![address("198.51.100.7", v4(198, 51, 100, 7), "public", 4)],
    )];
    let records: Vec<Record> = vec![];
    let excluded = vec![Cidr { bits: v4(198, 51, 100, 0), prefix: 24 }];
    let (to_delete, to_create) = reconcile(&instances, &records, "example.com", &excluded);
    assert_eq!(to_delete.len(), 0);
    assert_eq!(to_create.len(), 0);
}

#[test]
fn address_outside_excluded_range_is_managed() {
    let instances = vec![instance(
        "web-01",
        vec![address("203.0.113.5", v4(203, 0, 113, 5), "public", 4)],
    )];
    let records: Vec<Record> = vec![];
    let excluded = vec![Cidr { bits: v4(198, 51, 100, 0), prefix: 24 }];
    let (to_delete, to_create) = reconcile(&instances, &records, "example.com", &excluded);
    assert_eq!(to_delete.len(), 0);
    assert_eq!(to_create.len(), 1);
    assert_eq!(to_create[0].target, "203.0.113.5");
}

#[test]
fn unknown_version_is_ignored_entirely() {
    // A version that is neither 4 nor 6 never appears in either
    // change set, even when a record targets the same value.
    let instances = vec![instance(
        "web-01",
        vec![address("198.51.100.7", v4(198, 51, 100, 7), "public", 5)],
    )];
    let records: Vec<Record> = vec![];
    let (to_delete, to_create) = reconcile(&instances, &records, "example.com", &vec![]);
    assert_eq!(to_delete.len(), 0);
    assert_eq!(to_create.len(), 0);
}

#[test]
fn version_six_yields_quad_a_record() {
    let instances = vec![instance(
        "web-01",
        vec![address("2001:db8::7", IpBits::V6(0x2001_0db8_0000_0000_0000_0000_0000_0007), "public", 6)],
    )];
    let records: Vec<Record> = vec![];
    let (to_delete, to_create) = reconcile(&instances, &records, "example.com", &vec![]);
    assert_eq!(to_delete.len(), 0);
    assert_eq!(to_create.len(), 1);
    assert_eq!(to_create[0].field_type, "AAAA");
    assert_eq!(to_create[0].target, "2001:db8::7");
}

#[test]
fn second_run_on_applied_state_is_empty() {
    // Reconcile, pretend the apply succeeded, reconcile again: the
    // second run computes nothing to do.
    let instances = vec![instance(
        "web-01",
        vec![address("198.51.100.7", v4(198, 51, 100, 7), "public", 4)],
    )];
    let records = vec![record(Some(11), "A", "old-name", "example.com", "198.51.100.7")];
    let (to_delete, to_create) = reconcile(&instances, &records, "example.com", &vec![]);
    assert_eq!(to_delete.len(), 1);
    assert_eq!(to_create.len(), 1);
    let mut post: Vec<Record> = Vec::new();
    for r in &records {
        if !to_delete.iter().any(|d| d.id == r.id && d == r) {
            post.push(r.clone_record());
        }
    }
    for (k, c) in to_create.iter().enumerate() {
        let mut created = c.clone_record();
        created.id = Some(100 + k as i64);
        created.ttl = Some(60);
        post.push(created);
    }
    let (again_delete, again_create) = reconcile(&instances, &post, "example.com", &vec![]);
    assert_eq!(again_delete.len(), 0);
    assert_eq!(again_create.len(), 0);
}

#[test]
fn record_equality_ignores_id_and_ttl() {
    let a = record(Some(1), "A", "web-01", "example.com", "198.51.100.7");
    let mut b = record(Some(2), "A", "web-01", "example.com", "198.51.100.7");
    b.ttl = Some(300);
    assert!(a == b);
    let c = record(Some(1), "A", "web-02", "example.com", "198.51.100.7");
    assert!(a != c);
    let d = record(Some(1), "AAAA", "web-01", "example.com", "198.51.100.7");
    assert!(a != d);
    let e = record(Some(1), "A", "web-01", "example.org", "198.51.100.7");
    assert!(a != e);
    let f = record(Some(1), "A", "web-01", "example.com", "198.51.100.8");
    assert!(a != f);
}

#[test]
fn change_sets_follow_instance_order() {
    let instances = vec![
        instance("web-01", vec![address("198.51.100.7", v4(198, 51, 100, 7), "public", 4)]),
        instance("web-02", vec![address("198.51.100.8", v4(198, 51, 100, 8), "public", 4)]),
    ];
    let records: Vec<Record> = vec![];
    let (to_delete, to_create) = reconcile(&instances, &records, "example.com", &vec![]);
    assert_eq!(to_delete.len(), 0);
    assert_eq!(to_create.len(), 2);
    assert_eq!(to_create[0].sub_domain, "web-01");
    assert_eq!(to_create[1].sub_domain, "web-02");
}

#[test]
fn mixed_addresses_of_one_instance() {
    // One private address with a stale record, one public address
    // without a record: one deletion and one creation.
    let instances = vec![instance(
        "web-01",
        vec![
            address("10.0.0.7", v4(10, 0, 0, 7), "private", 4),
            address("198.51.100.7", v4(198, 51, 100, 7), "public", 4),
        ],
    )];
    let records = vec![record(Some(5), "A", "web-01", "example.com", "10.0.0.7")];
    let (to_delete, to_create) = reconcile(&instances, &records, "example.com", &vec![]);
    assert_eq!(to_delete.len(), 1);
    assert_eq!(to_delete[0].target, "10.0.0.7");
    assert_eq!(to_create.len(), 1);
    assert_eq!(to_create[0].target, "198.51.100.7");
}

use ovhctl::apply::Action;
use ovhctl::apply::apply_plan;
use ovhctl::records::Record;

fn record(id: Option<i64>, sub_domain: &str, target: &str) -> Record {
    Record {
        id,
        field_type: "A".to_string(),
        sub_domain: sub_domain.to_string(),
        ttl: None,
        zone: "example.com".to_string(),
        target: target.to_string(),
    }
}

#[test]
fn plan_deletes_then_creates_then_refreshes() {
    let to_delete = vec![record(Some(11), "a", "198.51.100.1"), record(Some(12), "b", "198.51.100.2")];
    let to_create = vec![record(None, "c", "198.51.100.3")];
    let plan = apply_plan(&to_delete, &to_create);
    assert_eq!(plan.len(), 4);
    assert!(matches!(plan[0], Action::Delete { id: 11 }));
    assert!(matches!(plan[1], Action::Delete { id: 12 }));
    match &plan[2] {
        Action::Create { record } => {
            assert_eq!(record.sub_domain, "c");
            assert_eq!(record.target, "198.51.100.3");
        },
        _ => panic!("expected a creation"),
    }
    assert!(matches!(plan[3], Action::Refresh));
}

#[test]
fn delete_without_id_is_skipped_not_an_error() {
    let to_delete = vec![
        record(Some(11), "a", "198.51.100.1"),
        record(None, "b", "198.51.100.2"),
        record(Some(13), "c", "198.51.100.3"),
    ];
    let to_create: Vec<Record> = vec![];
    let plan = apply_plan(&to_delete, &to_create);
    assert_eq!(plan.len(), 3);
    assert!(matches!(plan[0], Action::Delete { id: 11 }));
    assert!(matches!(plan[1], Action::Delete { id: 13 }));
    assert!(matches!(plan[2], Action::Refresh));
}

#[test]
fn empty_diff_still_refreshes() {
    let plan = apply_plan(&vec![], &vec![]);
    assert_eq!(plan.len(), 1);
    assert!(matches!(plan[0], Action::Refresh));
}

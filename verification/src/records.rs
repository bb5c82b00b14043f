//! DNS zones and records.
//!
//! A record with `id == None` is a desired record that the server has
//! not assigned an identifier to yet. Reconciliation compares records
//! by value only: `field_type`, `sub_domain`, `zone` and `target`;
//! `id` is server-assigned and `ttl` is not managed here, so both are
//! ignored.

use vstd::prelude::*;
use crate::strings::str_eq;

verus! {

/// A DNS zone.
pub struct Zone {
    pub name: String,
    pub dnssec_supported: bool,
    pub has_dns_anycast: bool,
    pub name_servers: Vec<String>,
}

/// A DNS resource record within a zone.
pub struct Record {
    pub id: Option<i64>,
    pub field_type: String,
    pub sub_domain: String,
    pub ttl: Option<i64>,
    pub zone: String,
    pub target: String,
}

/// The mathematical value of a record.
pub ghost struct RecordView {
    pub id: Option<int>,
    pub field_type: Seq<char>,
    pub sub_domain: Seq<char>,
    pub ttl: Option<int>,
    pub zone: Seq<char>,
    pub target: Seq<char>,
}

impl View for Record {
    type V = RecordView;

    open spec fn view(&self) -> RecordView {
        RecordView {
            id: match self.id {
                Some(i) => Some(i as int),
                None => None,
            },
            field_type: self.field_type@,
            sub_domain: self.sub_domain@,
            ttl: match self.ttl {
                Some(t) => Some(t as int),
                None => None,
            },
            zone: self.zone@,
            target: self.target@,
        }
    }
}

/// Equality for reconciliation purposes: `id` and `ttl` are ignored.
pub open spec fn record_value_eq(a: RecordView, b: RecordView) -> bool {
    a.field_type == b.field_type && a.sub_domain == b.sub_domain && a.zone == b.zone
        && a.target == b.target
}

impl Record {
    /// A copy of this record.
    pub fn clone_record(&self) -> (r: Record)
        ensures
            r@ == self@,
    {
        Record {
            id: self.id,
            field_type: self.field_type.clone(),
            sub_domain: self.sub_domain.clone(),
            ttl: self.ttl,
            zone: self.zone.clone(),
            target: self.target.clone(),
        }
    }
}

impl PartialEq for Record {
    /// Value equality: identical `field_type`, `sub_domain`, `zone`
    /// and `target`; `id` and `ttl` play no part.
    fn eq(&self, other: &Record) -> (r: bool) {
        str_eq(self.field_type.as_str(), other.field_type.as_str())
            && str_eq(self.sub_domain.as_str(), other.sub_domain.as_str())
            && str_eq(self.zone.as_str(), other.zone.as_str())
            && str_eq(self.target.as_str(), other.target.as_str())
    }
}

impl vstd::std_specs::cmp::PartialEqSpecImpl for Record {
    open spec fn obeys_eq_spec() -> bool {
        true
    }

    open spec fn eq_spec(&self, other: &Record) -> bool {
        record_value_eq(self@, other@)
    }
}

/// Two records with identical value fields are equal for
/// reconciliation purposes whatever their `id` and `ttl`.
pub proof fn lemma_record_eq_ignores_id_ttl(a: RecordView, b: RecordView)
    requires
        a.field_type == b.field_type,
        a.sub_domain == b.sub_domain,
        a.zone == b.zone,
        a.target == b.target,
    ensures
        record_value_eq(a, b),
{
}

/// The view of each element of a record list.
pub open spec fn records_view(rs: Seq<Record>) -> Seq<RecordView> {
    rs.map(|i: int, r: Record| r@)
}

/// The first record whose target is `target`, if any.
pub open spec fn spec_find_target(rs: Seq<RecordView>, target: Seq<char>) -> Option<RecordView>
    decreases rs.len(),
{
    if rs.len() == 0 {
        None
    } else if rs[0].target == target {
        Some(rs[0])
    } else {
        spec_find_target(rs.skip(1), target)
    }
}

/// Look up the first existing record that targets the given address
/// value.
pub fn contains(records: &Vec<Record>, target: &str) -> (r: Option<Record>)
    ensures
        match r {
            Some(rec) => spec_find_target(records_view(records@), target@) == Some(rec@),
            None => spec_find_target(records_view(records@), target@) is None,
        },
{
    let mut i: usize = 0;
    proof {
        assert(records_view(records@).skip(0) =~= records_view(records@));
    }
    while i < records.len()
        invariant
            i <= records@.len(),
            spec_find_target(records_view(records@), target@)
                == spec_find_target(records_view(records@).skip(i as int), target@),
        decreases records@.len() - i,
    {
        if str_eq(records[i].target.as_str(), target) {
            proof {
                assert(records_view(records@).skip(i as int)[0] == records@[i as int]@);
            }
            return Some(records[i].clone_record());
        }
        proof {
            assert(records_view(records@).skip(i as int).skip(1)
                =~= records_view(records@).skip(i as int + 1));
        }
        i = i + 1;
    }
    proof {
        assert(records_view(records@).skip(i as int).len() == 0);
    }
    None
}

} // verus!

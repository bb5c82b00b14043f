//! The DNS reconciler.
//!
//! Given the instances of the cloud projects, the records of a zone
//! and a list of excluded ranges, compute the records to delete and
//! the records to create so that DNS matches the instances' public
//! addresses. Changes are expressed as delete-then-create; records
//! are never updated in place.
//!
//! For each address of each instance, in order:
//! - a non-public address only deletes a stale record that targets
//!   its value, if one exists;
//! - an address inside an excluded range does the same;
//! - an address whose version is neither 4 nor 6 is ignored;
//! - otherwise the desired record (`A` or `AAAA`, the instance name
//!   with a trailing `"." + zone` suffix stripped if present, the
//!   address text as target) is compared by value with the first
//!   existing record
//!   that targets the address: absent, it is created; different, the
//!   existing one is deleted and the desired one created; identical,
//!   nothing happens.

use vstd::prelude::*;
use crate::ip::Cidr;
use crate::ip::Ip;
use crate::ip::IpView;
use crate::ip::cidr_wf;
use crate::ip::spec_first_match;
use crate::records::Record;
use crate::records::RecordView;
use crate::records::record_value_eq;
use crate::records::records_view;
use crate::records::spec_find_target;
use crate::strings::spec_strip_suffix;
use crate::strings::str_eq;
use crate::strings::strip_suffix_once;

verus! {

/// One address of an instance, with its visibility kind and IP
/// version as the API reports them.
pub struct IpAddress {
    pub ip: Ip,
    pub kind: String,
    pub version: i32,
    pub network_id: String,
    pub gateway_ip: Option<String>,
}

/// The mathematical value of an address entry.
pub ghost struct IpAddressView {
    pub ip: IpView,
    pub kind: Seq<char>,
    pub version: int,
    pub network_id: Seq<char>,
    pub gateway_ip: Option<Seq<char>>,
}

impl View for IpAddress {
    type V = IpAddressView;

    open spec fn view(&self) -> IpAddressView {
        IpAddressView {
            ip: self.ip@,
            kind: self.kind@,
            version: self.version as int,
            network_id: self.network_id@,
            gateway_ip: match self.gateway_ip {
                Some(ref g) => Some(g@),
                None => None,
            },
        }
    }
}

/// A compute instance.
pub struct Instance {
    pub id: String,
    pub name: String,
    pub ip_addresses: Vec<IpAddress>,
    pub flavor_id: String,
    pub image_id: String,
    pub region: String,
    pub status: String,
    pub plan_code: String,
}

/// The mathematical value of an instance.
pub ghost struct InstanceView {
    pub id: Seq<char>,
    pub name: Seq<char>,
    pub ip_addresses: Seq<IpAddressView>,
    pub flavor_id: Seq<char>,
    pub image_id: Seq<char>,
    pub region: Seq<char>,
    pub status: Seq<char>,
    pub plan_code: Seq<char>,
}

impl View for Instance {
    type V = InstanceView;

    open spec fn view(&self) -> InstanceView {
        InstanceView {
            id: self.id@,
            name: self.name@,
            ip_addresses: self.ip_addresses@.map(|i: int, a: IpAddress| a@),
            flavor_id: self.flavor_id@,
            image_id: self.image_id@,
            region: self.region@,
            status: self.status@,
            plan_code: self.plan_code@,
        }
    }
}

/// The view of each element of an instance list.
pub open spec fn instances_view(is: Seq<Instance>) -> Seq<InstanceView> {
    is.map(|i: int, inst: Instance| inst@)
}

/// The (instance name, address) pairs one instance contributes.
pub open spec fn instance_pairs(inst: InstanceView) -> Seq<(Seq<char>, IpAddressView)> {
    inst.ip_addresses.map(|i: int, a: IpAddressView| (inst.name, a))
}

/// The pairs of all instances, in instance order then address order.
pub open spec fn all_pairs(instances: Seq<InstanceView>) -> Seq<(Seq<char>, IpAddressView)>
    decreases instances.len(),
{
    if instances.len() == 0 {
        Seq::empty()
    } else {
        instance_pairs(instances[0]) + all_pairs(instances.skip(1))
    }
}

/// The record an address should have: `A` for version 4, `AAAA` for
/// version 6, the instance name with a trailing `"." + zone` suffix
/// stripped (once, if present) as sub-domain, the address text as
/// target, no id and no ttl yet.
pub open spec fn desired_record(zone: Seq<char>, name: Seq<char>, a: IpAddressView) -> RecordView {
    RecordView {
        id: None,
        field_type: if a.version == 4 { seq!['A'] } else { seq!['A', 'A', 'A', 'A'] },
        sub_domain: spec_strip_suffix(name, seq!['.'] + zone),
        ttl: None,
        zone: zone,
        target: a.ip.text,
    }
}

/// What one address contributes: at most one record to delete and at
/// most one to create. The lookup always runs against the records as
/// they were fetched.
pub open spec fn addr_outcome(
    records: Seq<RecordView>,
    zone: Seq<char>,
    excluded: Seq<Cidr>,
    name: Seq<char>,
    a: IpAddressView,
) -> (Option<RecordView>, Option<RecordView>) {
    let existing = spec_find_target(records, a.ip.text);
    if a.kind != "public"@ {
        (existing, None)
    } else if spec_first_match(excluded, a.ip.bits) is Some {
        (existing, None)
    } else if a.version != 4 && a.version != 6 {
        (None, None)
    } else {
        let d = desired_record(zone, name, a);
        match existing {
            None => (None, Some(d)),
            Some(r) => if record_value_eq(r, d) {
                (None, None)
            } else {
                (Some(r), Some(d))
            },
        }
    }
}

/// An optional record as a sequence of zero or one records.
pub open spec fn opt_to_seq(o: Option<RecordView>) -> Seq<RecordView> {
    match o {
        Some(r) => seq![r],
        None => Seq::empty(),
    }
}

/// The change sets over a sequence of (name, address) pairs.
pub open spec fn reconcile_pairs(
    records: Seq<RecordView>,
    zone: Seq<char>,
    excluded: Seq<Cidr>,
    pairs: Seq<(Seq<char>, IpAddressView)>,
) -> (Seq<RecordView>, Seq<RecordView>)
    decreases pairs.len(),
{
    if pairs.len() == 0 {
        (Seq::empty(), Seq::empty())
    } else {
        let head = addr_outcome(records, zone, excluded, pairs[0].0, pairs[0].1);
        let rest = reconcile_pairs(records, zone, excluded, pairs.skip(1));
        (opt_to_seq(head.0) + rest.0, opt_to_seq(head.1) + rest.1)
    }
}

/// The change sets of a whole reconciliation run.
pub open spec fn spec_reconcile(
    instances: Seq<InstanceView>,
    records: Seq<RecordView>,
    zone: Seq<char>,
    excluded: Seq<Cidr>,
) -> (Seq<RecordView>, Seq<RecordView>) {
    reconcile_pairs(records, zone, excluded, all_pairs(instances))
}

/// Processing a concatenation of pair lists concatenates the change
/// sets.
pub proof fn lemma_reconcile_pairs_concat(
    records: Seq<RecordView>,
    zone: Seq<char>,
    excluded: Seq<Cidr>,
    p1: Seq<(Seq<char>, IpAddressView)>,
    p2: Seq<(Seq<char>, IpAddressView)>,
)
    ensures
        reconcile_pairs(records, zone, excluded, p1 + p2).0
            == reconcile_pairs(records, zone, excluded, p1).0
                + reconcile_pairs(records, zone, excluded, p2).0,
        reconcile_pairs(records, zone, excluded, p1 + p2).1
            == reconcile_pairs(records, zone, excluded, p1).1
                + reconcile_pairs(records, zone, excluded, p2).1,
    decreases p1.len(),
{
    if p1.len() == 0 {
        assert(p1 + p2 =~= p2);
        assert(reconcile_pairs(records, zone, excluded, p1).0 + reconcile_pairs(records, zone, excluded, p2).0
            =~= reconcile_pairs(records, zone, excluded, p2).0);
        assert(reconcile_pairs(records, zone, excluded, p1).1 + reconcile_pairs(records, zone, excluded, p2).1
            =~= reconcile_pairs(records, zone, excluded, p2).1);
    } else {
        assert((p1 + p2).skip(1) =~= p1.skip(1) + p2);
        assert((p1 + p2)[0] == p1[0]);
        lemma_reconcile_pairs_concat(records, zone, excluded, p1.skip(1), p2);
        let head = addr_outcome(records, zone, excluded, p1[0].0, p1[0].1);
        assert(opt_to_seq(head.0) + (reconcile_pairs(records, zone, excluded, p1.skip(1)).0
                + reconcile_pairs(records, zone, excluded, p2).0)
            =~= (opt_to_seq(head.0) + reconcile_pairs(records, zone, excluded, p1.skip(1)).0)
                + reconcile_pairs(records, zone, excluded, p2).0);
        assert(opt_to_seq(head.1) + (reconcile_pairs(records, zone, excluded, p1.skip(1)).1
                + reconcile_pairs(records, zone, excluded, p2).1)
            =~= (opt_to_seq(head.1) + reconcile_pairs(records, zone, excluded, p1.skip(1)).1)
                + reconcile_pairs(records, zone, excluded, p2).1);
    }
}

/// Adding one pair at the end appends its outcome.
proof fn lemma_reconcile_pairs_snoc(
    records: Seq<RecordView>,
    zone: Seq<char>,
    excluded: Seq<Cidr>,
    pairs: Seq<(Seq<char>, IpAddressView)>,
    p: (Seq<char>, IpAddressView),
)
    ensures
        reconcile_pairs(records, zone, excluded, pairs.push(p)).0
            == reconcile_pairs(records, zone, excluded, pairs).0
                + opt_to_seq(addr_outcome(records, zone, excluded, p.0, p.1).0),
        reconcile_pairs(records, zone, excluded, pairs.push(p)).1
            == reconcile_pairs(records, zone, excluded, pairs).1
                + opt_to_seq(addr_outcome(records, zone, excluded, p.0, p.1).1),
{
    assert(pairs.push(p) =~= pairs + seq![p]);
    lemma_reconcile_pairs_concat(records, zone, excluded, pairs, seq![p]);
    assert(seq![p].skip(1) =~= Seq::<(Seq<char>, IpAddressView)>::empty());
    assert(seq![p][0] == p);
    let head = addr_outcome(records, zone, excluded, p.0, p.1);
    assert(reconcile_pairs(records, zone, excluded, seq![p].skip(1)).0
        == Seq::<RecordView>::empty());
    assert(reconcile_pairs(records, zone, excluded, seq![p].skip(1)).1
        == Seq::<RecordView>::empty());
    assert(reconcile_pairs(records, zone, excluded, seq![p]).0
        == opt_to_seq(head.0) + Seq::<RecordView>::empty());
    assert(reconcile_pairs(records, zone, excluded, seq![p]).1
        == opt_to_seq(head.1) + Seq::<RecordView>::empty());
    assert(opt_to_seq(head.0) + Seq::<RecordView>::empty() =~= opt_to_seq(head.0));
    assert(opt_to_seq(head.1) + Seq::<RecordView>::empty() =~= opt_to_seq(head.1));
}

/// One more instance appends its pairs.
proof fn lemma_all_pairs_snoc(instances: Seq<InstanceView>, i: int)
    requires
        0 <= i < instances.len(),
    ensures
        all_pairs(instances.take(i + 1)) == all_pairs(instances.take(i))
            + instance_pairs(instances[i]),
    decreases i,
{
    if i == 0 {
        assert(instances.take(1)[0] == instances[0]);
        assert(instances.take(1).skip(1) =~= Seq::<InstanceView>::empty());
        assert(instances.take(0) =~= Seq::<InstanceView>::empty());
        assert(all_pairs(instances.take(1))
            =~= all_pairs(instances.take(0)) + instance_pairs(instances[0]));
    } else {
        lemma_all_pairs_snoc(instances.skip(1), i - 1);
        assert(instances.take(i + 1).skip(1) =~= instances.skip(1).take(i));
        assert(instances.take(i).skip(1) =~= instances.skip(1).take(i - 1));
        assert(instances.take(i + 1)[0] == instances[0]);
        assert(instances.take(i)[0] == instances[0]);
        assert(instances.skip(1)[i - 1] == instances[i]);
        assert(instance_pairs(instances[0]) + (all_pairs(instances.skip(1).take(i - 1))
                + instance_pairs(instances[i]))
            =~= (instance_pairs(instances[0]) + all_pairs(instances.skip(1).take(i - 1)))
                + instance_pairs(instances[i]));
    }
}

/// Compute the change sets: the records to delete and the records to
/// create, in processing order.
pub fn reconcile(
    instances: &Vec<Instance>,
    records: &Vec<Record>,
    zone: &str,
    excluded: &Vec<Cidr>,
) -> (r: (Vec<Record>, Vec<Record>))
    requires
        forall|i: int| 0 <= i < excluded@.len() ==> cidr_wf(#[trigger] excluded@[i]),
    ensures
        records_view(r.0@) == spec_reconcile(
            instances_view(instances@), records_view(records@), zone@, excluded@).0,
        records_view(r.1@) == spec_reconcile(
            instances_view(instances@), records_view(records@), zone@, excluded@).1,
{
    let ghost ivs = instances_view(instances@);
    let ghost rvs = records_view(records@);
    let mut to_delete: Vec<Record> = Vec::new();
    let mut to_create: Vec<Record> = Vec::new();
    let mut i: usize = 0;
    proof {
        assert(ivs.take(0) =~= Seq::<InstanceView>::empty());
        assert(records_view(to_delete@) =~= Seq::<RecordView>::empty());
        assert(records_view(to_create@) =~= Seq::<RecordView>::empty());
    }
    while i < instances.len()
        invariant
            i <= instances@.len(),
            ivs == instances_view(instances@),
            rvs == records_view(records@),
            forall|k: int| 0 <= k < excluded@.len() ==> cidr_wf(#[trigger] excluded@[k]),
            records_view(to_delete@) == reconcile_pairs(rvs, zone@, excluded@, all_pairs(ivs.take(i as int))).0,
            records_view(to_create@) == reconcile_pairs(rvs, zone@, excluded@, all_pairs(ivs.take(i as int))).1,
        decreases instances@.len() - i,
    {
        let instance = &instances[i];
        let ghost inst_v = ivs[i as int];
        proof {
            assert(inst_v == instance@);
        }
        let mut j: usize = 0;
        proof {
            assert(instance_pairs(inst_v).take(0)
                =~= Seq::<(Seq<char>, IpAddressView)>::empty());
            assert(all_pairs(ivs.take(i as int)) + instance_pairs(inst_v).take(0)
                =~= all_pairs(ivs.take(i as int)));
        }
        while j < instance.ip_addresses.len()
            invariant
                i < instances@.len(),
                j <= instance.ip_addresses@.len(),
                instance == &instances@[i as int],
                inst_v == instance@,
                ivs == instances_view(instances@),
                rvs == records_view(records@),
                forall|k: int| 0 <= k < excluded@.len() ==> cidr_wf(#[trigger] excluded@[k]),
                records_view(to_delete@) == reconcile_pairs(rvs, zone@, excluded@,
                    all_pairs(ivs.take(i as int)) + instance_pairs(inst_v).take(j as int)).0,
                records_view(to_create@) == reconcile_pairs(rvs, zone@, excluded@,
                    all_pairs(ivs.take(i as int)) + instance_pairs(inst_v).take(j as int)).1,
            decreases instance.ip_addresses@.len() - j,
        {
            let address = &instance.ip_addresses[j];
            let ghost pair = (inst_v.name, inst_v.ip_addresses[j as int]);
            proof {
                assert(pair.1 == address@);
                assert(instance_pairs(inst_v)[j as int] == pair);
                assert(instance_pairs(inst_v).take(j as int + 1)
                    =~= instance_pairs(inst_v).take(j as int).push(pair));
                assert(all_pairs(ivs.take(i as int)) + instance_pairs(inst_v).take(j as int + 1)
                    =~= (all_pairs(ivs.take(i as int)) + instance_pairs(inst_v).take(j as int))
                        .push(pair));
                lemma_reconcile_pairs_snoc(rvs, zone@, excluded@,
                    all_pairs(ivs.take(i as int)) + instance_pairs(inst_v).take(j as int), pair);
            }
            let ghost outcome = addr_outcome(rvs, zone@, excluded@, pair.0, pair.1);
            let existing = crate::records::contains(records, address.ip.text.as_str());
            if !str_eq(address.kind.as_str(), "public") {
                match existing {
                    Some(rec) => {
                        proof {
                            assert(outcome.0 == Some(rec@));
                            assert(records_view(to_delete@.push(rec))
                                =~= records_view(to_delete@).push(rec@));
                            assert(records_view(to_delete@).push(rec@)
                                =~= records_view(to_delete@) + opt_to_seq(outcome.0));
                        }
                        to_delete.push(rec);
                    },
                    None => {
                        proof {
                            assert(records_view(to_delete@) + opt_to_seq(outcome.0)
                                =~= records_view(to_delete@));
                        }
                    },
                }
                proof {
                    assert(records_view(to_create@) + opt_to_seq(outcome.1)
                        =~= records_view(to_create@));
                }
            } else if crate::ip::contains(excluded, &address.ip.bits).is_some() {
                match existing {
                    Some(rec) => {
                        proof {
                            assert(outcome.0 == Some(rec@));
                            assert(records_view(to_delete@.push(rec))
                                =~= records_view(to_delete@).push(rec@));
                            assert(records_view(to_delete@).push(rec@)
                                =~= records_view(to_delete@) + opt_to_seq(outcome.0));
                        }
                        to_delete.push(rec);
                    },
                    None => {
                        proof {
                            assert(records_view(to_delete@) + opt_to_seq(outcome.0)
                                =~= records_view(to_delete@));
                        }
                    },
                }
                proof {
                    assert(records_view(to_create@) + opt_to_seq(outcome.1)
                        =~= records_view(to_create@));
                }
            } else if address.version != 4 && address.version != 6 {
                proof {
                    assert(records_view(to_delete@) + opt_to_seq(outcome.0)
                        =~= records_view(to_delete@));
                    assert(records_view(to_create@) + opt_to_seq(outcome.1)
                        =~= records_view(to_create@));
                }
            } else {
                let field_type = if address.version == 4 {
                    String::from_str("A")
                } else {
                    String::from_str("AAAA")
                };
                proof {
                    reveal_strlit("A");
                    reveal_strlit("AAAA");
                    reveal_strlit(".");
                    assert(field_type@
                        == if pair.1.version == 4 { seq!['A'] } else { seq!['A', 'A', 'A', 'A'] });
                }
                let mut suffix = String::from_str(".");
                suffix.append(zone);
                proof {
                    assert(suffix@ =~= seq!['.'] + zone@);
                }
                let sub_domain = strip_suffix_once(instance.name.as_str(), suffix.as_str());
                let new_record = Record {
                    id: None,
                    field_type,
                    sub_domain,
                    ttl: None,
                    zone: zone.to_owned(),
                    target: address.ip.text.clone(),
                };
                proof {
                    assert(new_record@ == desired_record(zone@, pair.0, pair.1));
                }
                match existing {
                    Some(rec) => {
                        if !(rec == new_record) {
                            proof {
                                assert(outcome.0 == Some(rec@));
                                assert(outcome.1 == Some(new_record@));
                                assert(records_view(to_delete@.push(rec))
                                    =~= records_view(to_delete@) + opt_to_seq(outcome.0));
                                assert(records_view(to_create@.push(new_record))
                                    =~= records_view(to_create@) + opt_to_seq(outcome.1));
                            }
                            to_delete.push(rec);
                            to_create.push(new_record);
                        } else {
                            proof {
                                assert(records_view(to_delete@) + opt_to_seq(outcome.0)
                                    =~= records_view(to_delete@));
                                assert(records_view(to_create@) + opt_to_seq(outcome.1)
                                    =~= records_view(to_create@));
                            }
                        }
                    },
                    None => {
                        proof {
                            assert(outcome.1 == Some(new_record@));
                            assert(records_view(to_delete@) + opt_to_seq(outcome.0)
                                =~= records_view(to_delete@));
                            assert(records_view(to_create@.push(new_record))
                                =~= records_view(to_create@) + opt_to_seq(outcome.1));
                        }
                        to_create.push(new_record);
                    },
                }
            }
            j = j + 1;
        }
        proof {
            assert(instance_pairs(inst_v).take(j as int) =~= instance_pairs(inst_v));
            lemma_all_pairs_snoc(ivs, i as int);
            assert(all_pairs(ivs.take(i as int)) + instance_pairs(inst_v)
                =~= all_pairs(ivs.take(i as int + 1)));
        }
        i = i + 1;
    }
    proof {
        assert(ivs.take(i as int) =~= ivs);
    }
    (to_delete, to_create)
}

} // verus!

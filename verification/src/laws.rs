//! Laws of the reconciler.
//!
//! The statements here relate whole reconciliation runs: what a run
//! computes on the state an applied run leaves behind, what excluded
//! addresses contribute, and the shape of every created record.

use vstd::prelude::*;
use crate::ip::Cidr;
use crate::ip::spec_first_match;
use crate::records::RecordView;
use crate::records::record_value_eq;
use crate::records::spec_find_target;
use crate::reconcile::IpAddressView;
use crate::reconcile::addr_outcome;
use crate::reconcile::all_pairs;
use crate::reconcile::desired_record;
use crate::reconcile::instance_pairs;
use crate::reconcile::lemma_reconcile_pairs_concat;
use crate::reconcile::opt_to_seq;
use crate::reconcile::reconcile_pairs;
use crate::reconcile::spec_reconcile;
use crate::reconcile::InstanceView;

verus! {

/// No two addresses of the run share a target text.
pub open spec fn pairs_have_distinct_targets(pairs: Seq<(Seq<char>, IpAddressView)>) -> bool {
    forall|i: int, j: int|
        0 <= i < pairs.len() && 0 <= j < pairs.len() && i != j
            ==> #[trigger] pairs[i].1.ip.text != #[trigger] pairs[j].1.ip.text
}

/// No two fetched records share a target.
pub open spec fn records_have_distinct_targets(records: Seq<RecordView>) -> bool {
    forall|i: int, j: int|
        0 <= i < records.len() && 0 <= j < records.len() && i != j
            ==> #[trigger] records[i].target != #[trigger] records[j].target
}

/// Every fetched record carries its server-assigned identifier.
pub open spec fn records_have_ids(records: Seq<RecordView>) -> bool {
    forall|i: int| 0 <= i < records.len() ==> #[trigger] records[i].id is Some
}

/// The records the server created for a planned create list: one per
/// planned record, equal by value; the server chose `id` and `ttl`.
pub open spec fn created_matches(created: Seq<RecordView>, planned: Seq<RecordView>) -> bool {
    created.len() == planned.len() && forall|i: int|
        0 <= i < created.len() ==> record_value_eq(#[trigger] created[i], planned[i])
}

/// The records that survive the deletions, in order.
pub open spec fn kept_records(records: Seq<RecordView>, to_delete: Seq<RecordView>) -> Seq<
    RecordView,
>
    decreases records.len(),
{
    if records.len() == 0 {
        Seq::empty()
    } else {
        let rest = kept_records(records.skip(1), to_delete);
        if to_delete.contains(records[0]) {
            rest
        } else {
            seq![records[0]] + rest
        }
    }
}

/// The record set a successful apply leaves behind: the fetched
/// records minus the deletions, then the created records.
pub open spec fn post_state(
    records: Seq<RecordView>,
    to_delete: Seq<RecordView>,
    created: Seq<RecordView>,
) -> Seq<RecordView> {
    kept_records(records, to_delete) + created
}

/// What survives is exactly what was there and not deleted.
proof fn lemma_kept_sub(records: Seq<RecordView>, to_delete: Seq<RecordView>)
    ensures
        forall|j: int|
            0 <= j < kept_records(records, to_delete).len()
                ==> records.contains(#[trigger] kept_records(records, to_delete)[j])
                    && !to_delete.contains(kept_records(records, to_delete)[j]),
        forall|i: int|
            0 <= i < records.len() && !to_delete.contains(#[trigger] records[i])
                ==> kept_records(records, to_delete).contains(records[i]),
    decreases records.len(),
{
    if records.len() > 0 {
        lemma_kept_sub(records.skip(1), to_delete);
        let kept = kept_records(records, to_delete);
        let rest = kept_records(records.skip(1), to_delete);
        assert forall|j: int| 0 <= j < kept.len() implies records.contains(#[trigger] kept[j])
            && !to_delete.contains(kept[j]) by {
            if to_delete.contains(records[0]) {
                assert(kept[j] == rest[j]);
                let w = choose|w: int| 0 <= w < records.skip(1).len() && records.skip(1)[w]
                    == rest[j];
                assert(records[w + 1] == rest[j]);
            } else {
                if j == 0 {
                    assert(kept[0] == records[0]);
                } else {
                    assert(kept[j] == rest[j - 1]);
                    let w = choose|w: int| 0 <= w < records.skip(1).len() && records.skip(1)[w]
                        == rest[j - 1];
                    assert(records[w + 1] == rest[j - 1]);
                }
            }
        }
        assert forall|i: int|
            0 <= i < records.len() && !to_delete.contains(#[trigger] records[i])
            implies kept.contains(records[i]) by {
            if i == 0 {
                assert(kept[0] == records[0]);
            } else {
                assert(records.skip(1)[i - 1] == records[i]);
                assert(rest.contains(records[i]));
                let w = choose|w: int| 0 <= w < rest.len() && rest[w] == records[i];
                if to_delete.contains(records[0]) {
                    assert(kept[w] == records[i]);
                } else {
                    assert(kept[w + 1] == records[i]);
                }
            }
        }
    }
}

/// A target absent from every record is never found.
proof fn lemma_find_none(s: Seq<RecordView>, t: Seq<char>)
    requires
        forall|j: int| 0 <= j < s.len() ==> (#[trigger] s[j]).target != t,
    ensures
        spec_find_target(s, t) is None,
    decreases s.len(),
{
    if s.len() > 0 {
        assert(forall|j: int| 0 <= j < s.skip(1).len()
            ==> (#[trigger] s.skip(1)[j]).target != t);
        lemma_find_none(s.skip(1), t);
    }
}

/// A found record targets what was looked for and is one of the
/// records; nothing is found only when no record targets it.
proof fn lemma_find_props(s: Seq<RecordView>, t: Seq<char>)
    ensures
        spec_find_target(s, t) matches Some(r) ==> r.target == t && s.contains(r),
        spec_find_target(s, t) is None ==> forall|j: int|
            0 <= j < s.len() ==> (#[trigger] s[j]).target != t,
    decreases s.len(),
{
    if s.len() > 0 {
        lemma_find_props(s.skip(1), t);
        if s[0].target == t {
        } else {
            match spec_find_target(s.skip(1), t) {
                Some(r) => {
                    let w = choose|w: int| 0 <= w < s.skip(1).len() && s.skip(1)[w] == r;
                    assert(s[w + 1] == r);
                },
                None => {
                    assert forall|j: int| 0 <= j < s.len() implies (#[trigger] s[j]).target != t by {
                        if j > 0 {
                            assert(s.skip(1)[j - 1] == s[j]);
                        }
                    }
                },
            }
        }
    }
}

/// When every record that targets `t` is the same value and one of
/// them exists, the lookup finds that value.
proof fn lemma_find_all_same(s: Seq<RecordView>, t: Seq<char>, x: RecordView, jw: int)
    requires
        forall|j: int| 0 <= j < s.len() && (#[trigger] s[j]).target == t ==> s[j] == x,
        0 <= jw < s.len(),
        s[jw].target == t,
    ensures
        spec_find_target(s, t) == Some(x),
    decreases s.len(),
{
    if s[0].target == t {
        assert(s[0] == x);
    } else {
        assert(jw > 0);
        assert(s.skip(1)[jw - 1] == s[jw]);
        assert forall|j: int| 0 <= j < s.skip(1).len() && (#[trigger] s.skip(1)[j]).target == t
            implies s.skip(1)[j] == x by {
            assert(s.skip(1)[j] == s[j + 1]);
        }
        lemma_find_all_same(s.skip(1), t, x, jw - 1);
    }
}

/// The change sets split around any one pair: what comes before it,
/// its own outcome, what comes after.
proof fn lemma_reconcile_pairs_decompose(
    records: Seq<RecordView>,
    zone: Seq<char>,
    excluded: Seq<Cidr>,
    pairs: Seq<(Seq<char>, IpAddressView)>,
    k: int,
)
    requires
        0 <= k < pairs.len(),
    ensures
        reconcile_pairs(records, zone, excluded, pairs).0
            == reconcile_pairs(records, zone, excluded, pairs.take(k)).0
                + opt_to_seq(addr_outcome(records, zone, excluded, pairs[k].0, pairs[k].1).0)
                + reconcile_pairs(records, zone, excluded, pairs.skip(k + 1)).0,
        reconcile_pairs(records, zone, excluded, pairs).1
            == reconcile_pairs(records, zone, excluded, pairs.take(k)).1
                + opt_to_seq(addr_outcome(records, zone, excluded, pairs[k].0, pairs[k].1).1)
                + reconcile_pairs(records, zone, excluded, pairs.skip(k + 1)).1,
{
    let mid = seq![pairs[k]];
    assert(pairs =~= pairs.take(k) + (mid + pairs.skip(k + 1)));
    lemma_reconcile_pairs_concat(records, zone, excluded, pairs.take(k), mid + pairs.skip(k + 1));
    lemma_reconcile_pairs_concat(records, zone, excluded, mid, pairs.skip(k + 1));
    assert(mid.skip(1) =~= Seq::<(Seq<char>, IpAddressView)>::empty());
    assert(mid[0] == pairs[k]);
    let o = addr_outcome(records, zone, excluded, pairs[k].0, pairs[k].1);
    assert(reconcile_pairs(records, zone, excluded, mid).0
        == opt_to_seq(o.0) + reconcile_pairs(records, zone, excluded, mid.skip(1)).0);
    assert(reconcile_pairs(records, zone, excluded, mid).0 =~= opt_to_seq(o.0));
    assert(reconcile_pairs(records, zone, excluded, mid).1 =~= opt_to_seq(o.1));
    assert(reconcile_pairs(records, zone, excluded, pairs).0
        =~= reconcile_pairs(records, zone, excluded, pairs.take(k)).0
            + opt_to_seq(o.0)
            + reconcile_pairs(records, zone, excluded, pairs.skip(k + 1)).0);
    assert(reconcile_pairs(records, zone, excluded, pairs).1
        =~= reconcile_pairs(records, zone, excluded, pairs.take(k)).1
            + opt_to_seq(o.1)
            + reconcile_pairs(records, zone, excluded, pairs.skip(k + 1)).1);
}

/// Every element of the change sets is the outcome of some pair.
proof fn lemma_change_sources(
    records: Seq<RecordView>,
    zone: Seq<char>,
    excluded: Seq<Cidr>,
    pairs: Seq<(Seq<char>, IpAddressView)>,
)
    ensures
        forall|j: int|
            0 <= j < reconcile_pairs(records, zone, excluded, pairs).0.len() ==> exists|m: int|
                0 <= m < pairs.len() && addr_outcome(records, zone, excluded, pairs[m].0,
                    pairs[m].1).0 == Some(
                    #[trigger] reconcile_pairs(records, zone, excluded, pairs).0[j],
                ),
        forall|j: int|
            0 <= j < reconcile_pairs(records, zone, excluded, pairs).1.len() ==> exists|m: int|
                0 <= m < pairs.len() && addr_outcome(records, zone, excluded, pairs[m].0,
                    pairs[m].1).1 == Some(
                    #[trigger] reconcile_pairs(records, zone, excluded, pairs).1[j],
                ),
    decreases pairs.len(),
{
    if pairs.len() > 0 {
        lemma_change_sources(records, zone, excluded, pairs.skip(1));
        let o = addr_outcome(records, zone, excluded, pairs[0].0, pairs[0].1);
        let d = reconcile_pairs(records, zone, excluded, pairs).0;
        let c = reconcile_pairs(records, zone, excluded, pairs).1;
        let dr = reconcile_pairs(records, zone, excluded, pairs.skip(1)).0;
        let cr = reconcile_pairs(records, zone, excluded, pairs.skip(1)).1;
        assert forall|j: int| 0 <= j < d.len() implies exists|m: int|
            0 <= m < pairs.len() && addr_outcome(records, zone, excluded, pairs[m].0,
                pairs[m].1).0 == Some(#[trigger] d[j]) by {
            let off = opt_to_seq(o.0).len();
            if j < off {
                assert(d[j] == opt_to_seq(o.0)[0]);
                assert(addr_outcome(records, zone, excluded, pairs[0].0, pairs[0].1).0
                    == Some(d[j]));
            } else {
                assert(d[j] == dr[j - off]);
                let m0 = choose|m0: int|
                    0 <= m0 < pairs.skip(1).len() && addr_outcome(records, zone, excluded,
                        pairs.skip(1)[m0].0, pairs.skip(1)[m0].1).0 == Some(dr[j - off]);
                assert(pairs.skip(1)[m0] == pairs[m0 + 1]);
                assert(addr_outcome(records, zone, excluded, pairs[m0 + 1].0,
                    pairs[m0 + 1].1).0 == Some(d[j]));
            }
        }
        assert forall|j: int| 0 <= j < c.len() implies exists|m: int|
            0 <= m < pairs.len() && addr_outcome(records, zone, excluded, pairs[m].0,
                pairs[m].1).1 == Some(#[trigger] c[j]) by {
            let off = opt_to_seq(o.1).len();
            if j < off {
                assert(c[j] == opt_to_seq(o.1)[0]);
                assert(addr_outcome(records, zone, excluded, pairs[0].0, pairs[0].1).1
                    == Some(c[j]));
            } else {
                assert(c[j] == cr[j - off]);
                let m0 = choose|m0: int|
                    0 <= m0 < pairs.skip(1).len() && addr_outcome(records, zone, excluded,
                        pairs.skip(1)[m0].0, pairs.skip(1)[m0].1).1 == Some(cr[j - off]);
                assert(pairs.skip(1)[m0] == pairs[m0 + 1]);
                assert(addr_outcome(records, zone, excluded, pairs[m0 + 1].0,
                    pairs[m0 + 1].1).1 == Some(c[j]));
            }
        }
    }
}

/// What an outcome can hold: a deletion is a fetched record that
/// targets the pair's address; a creation is the pair's desired
/// record.
proof fn lemma_outcome_targets(
    records: Seq<RecordView>,
    zone: Seq<char>,
    excluded: Seq<Cidr>,
    name: Seq<char>,
    a: IpAddressView,
)
    ensures
        addr_outcome(records, zone, excluded, name, a).0 matches Some(r)
            ==> r.target == a.ip.text && records.contains(r),
        addr_outcome(records, zone, excluded, name, a).1 matches Some(c)
            ==> c == desired_record(zone, name, a),
{
    lemma_find_props(records, a.ip.text);
}

/// An address inside an excluded range yields no creation, whatever
/// its kind; it yields exactly the deletion of the first existing
/// record that targets its value, if one exists.
pub proof fn lemma_excluded_address_only_deletes(
    records: Seq<RecordView>,
    zone: Seq<char>,
    excluded: Seq<Cidr>,
    name: Seq<char>,
    a: IpAddressView,
)
    requires
        spec_first_match(excluded, a.ip.bits) is Some,
    ensures
        addr_outcome(records, zone, excluded, name, a).1 is None,
        addr_outcome(records, zone, excluded, name, a).0 == spec_find_target(records, a.ip.text),
{
}

/// An instance whose only address falls inside an excluded range
/// yields no creation, and exactly the deletion of the record that
/// targeted the address, if one existed.
pub proof fn lemma_reconcile_excluded_instance(
    records: Seq<RecordView>,
    zone: Seq<char>,
    excluded: Seq<Cidr>,
    inst: InstanceView,
)
    requires
        inst.ip_addresses.len() == 1,
        spec_first_match(excluded, inst.ip_addresses[0].ip.bits) is Some,
    ensures
        spec_reconcile(seq![inst], records, zone, excluded).1 == Seq::<RecordView>::empty(),
        spec_reconcile(seq![inst], records, zone, excluded).0 == opt_to_seq(
            spec_find_target(records, inst.ip_addresses[0].ip.text),
        ),
{
    let pair = (inst.name, inst.ip_addresses[0]);
    let pairs = all_pairs(seq![inst]);
    assert(seq![inst].skip(1) =~= Seq::<InstanceView>::empty());
    assert(seq![inst][0] == inst);
    assert(all_pairs(Seq::<InstanceView>::empty())
        == Seq::<(Seq<char>, IpAddressView)>::empty());
    assert(pairs == instance_pairs(inst) + all_pairs(Seq::<InstanceView>::empty()));
    assert(instance_pairs(inst) =~= seq![pair]);
    assert(pairs =~= seq![pair]);
    assert(pairs.skip(1) =~= Seq::<(Seq<char>, IpAddressView)>::empty());
    assert(pairs[0] == pair);
    let o = addr_outcome(records, zone, excluded, pair.0, pair.1);
    lemma_excluded_address_only_deletes(records, zone, excluded, pair.0, pair.1);
    assert(reconcile_pairs(records, zone, excluded,
        Seq::<(Seq<char>, IpAddressView)>::empty()).0 == Seq::<RecordView>::empty());
    assert(reconcile_pairs(records, zone, excluded, pairs).0
        == opt_to_seq(o.0) + reconcile_pairs(records, zone, excluded, pairs.skip(1)).0);
    assert(reconcile_pairs(records, zone, excluded, pairs).0
        =~= opt_to_seq(o.0));
    assert(reconcile_pairs(records, zone, excluded, pairs).1
        =~= opt_to_seq(o.1));
    assert(opt_to_seq(o.1) =~= Seq::<RecordView>::empty());
}

/// Across a whole run whose addresses have pairwise distinct target
/// texts, an excluded address's text is never the target of a
/// planned creation, and the first fetched record that targets it,
/// if any, is planned for deletion.
pub proof fn lemma_excluded_target_never_created(
    records: Seq<RecordView>,
    zone: Seq<char>,
    excluded: Seq<Cidr>,
    pairs: Seq<(Seq<char>, IpAddressView)>,
    k: int,
)
    requires
        0 <= k < pairs.len(),
        spec_first_match(excluded, pairs[k].1.ip.bits) is Some,
        pairs_have_distinct_targets(pairs),
    ensures
        forall|j: int|
            0 <= j < reconcile_pairs(records, zone, excluded, pairs).1.len()
                ==> (#[trigger] reconcile_pairs(records, zone, excluded, pairs).1[j]).target
                    != pairs[k].1.ip.text,
        spec_find_target(records, pairs[k].1.ip.text) matches Some(r)
            ==> reconcile_pairs(records, zone, excluded, pairs).0.contains(r),
{
    let t = pairs[k].1.ip.text;
    let o = addr_outcome(records, zone, excluded, pairs[k].0, pairs[k].1);
    lemma_excluded_address_only_deletes(records, zone, excluded, pairs[k].0, pairs[k].1);
    lemma_change_sources(records, zone, excluded, pairs);
    let cc = reconcile_pairs(records, zone, excluded, pairs).1;
    assert forall|j: int| 0 <= j < cc.len() implies (#[trigger] cc[j]).target != t by {
        if cc[j].target == t {
            let m = choose|m: int|
                0 <= m < pairs.len() && addr_outcome(records, zone, excluded, pairs[m].0,
                    pairs[m].1).1 == Some(cc[j]);
            lemma_outcome_targets(records, zone, excluded, pairs[m].0, pairs[m].1);
            if m != k {
                assert(pairs[m].1.ip.text != pairs[k].1.ip.text);
            }
            assert(false);
        }
    }
    lemma_reconcile_pairs_decompose(records, zone, excluded, pairs, k);
    let dd = reconcile_pairs(records, zone, excluded, pairs).0;
    let d1 = reconcile_pairs(records, zone, excluded, pairs.take(k)).0;
    match spec_find_target(records, t) {
        Some(r) => {
            assert(o.0 == Some(r));
            assert(dd[d1.len() as int] == r);
            assert(dd.contains(r));
        },
        None => {},
    }
}

/// A public address outside every excluded range whose version is
/// neither 4 nor 6 contributes nothing to either change set.
pub proof fn lemma_unknown_version_ignored(
    records: Seq<RecordView>,
    zone: Seq<char>,
    excluded: Seq<Cidr>,
    name: Seq<char>,
    a: IpAddressView,
)
    requires
        a.kind == "public"@,
        spec_first_match(excluded, a.ip.bits) is None,
        a.version != 4,
        a.version != 6,
    ensures
        addr_outcome(records, zone, excluded, name, a).0 is None,
        addr_outcome(records, zone, excluded, name, a).1 is None,
{
}

/// Every planned creation is the desired record of one of the run's
/// addresses: no identifier and no ttl yet, the zone of the run, an
/// `A` or `AAAA` type.
pub proof fn lemma_creates_are_desired(
    records: Seq<RecordView>,
    zone: Seq<char>,
    excluded: Seq<Cidr>,
    pairs: Seq<(Seq<char>, IpAddressView)>,
)
    ensures
        forall|j: int|
            0 <= j < reconcile_pairs(records, zone, excluded, pairs).1.len() ==> {
                let c = #[trigger] reconcile_pairs(records, zone, excluded, pairs).1[j];
                c.id is None && c.ttl is None && c.zone == zone
                    && (c.field_type == seq!['A'] || c.field_type == seq!['A', 'A', 'A', 'A'])
            },
{
    lemma_change_sources(records, zone, excluded, pairs);
    let cc = reconcile_pairs(records, zone, excluded, pairs).1;
    assert forall|j: int| 0 <= j < cc.len() implies {
        let c = #[trigger] cc[j];
        c.id is None && c.ttl is None && c.zone == zone
            && (c.field_type == seq!['A'] || c.field_type == seq!['A', 'A', 'A', 'A'])
    } by {
        let m = choose|m: int|
            0 <= m < pairs.len() && addr_outcome(records, zone, excluded, pairs[m].0,
                pairs[m].1).1 == Some(cc[j]);
        lemma_outcome_targets(records, zone, excluded, pairs[m].0, pairs[m].1);
        assert(cc[j] == desired_record(zone, pairs[m].0, pairs[m].1));
    }
}

/// On the state a successful apply leaves behind, one pair of the
/// same run contributes nothing any more.
proof fn lemma_pair_noop(
    records: Seq<RecordView>,
    zone: Seq<char>,
    excluded: Seq<Cidr>,
    pairs: Seq<(Seq<char>, IpAddressView)>,
    created: Seq<RecordView>,
    k: int,
)
    requires
        0 <= k < pairs.len(),
        pairs_have_distinct_targets(pairs),
        records_have_distinct_targets(records),
        created_matches(created, reconcile_pairs(records, zone, excluded, pairs).1),
    ensures
        addr_outcome(
            post_state(records, reconcile_pairs(records, zone, excluded, pairs).0, created),
            zone, excluded, pairs[k].0, pairs[k].1).0 is None,
        addr_outcome(
            post_state(records, reconcile_pairs(records, zone, excluded, pairs).0, created),
            zone, excluded, pairs[k].0, pairs[k].1).1 is None,
{
    let p = pairs[k];
    let a = p.1;
    let t = a.ip.text;
    let dd = reconcile_pairs(records, zone, excluded, pairs).0;
    let cc = reconcile_pairs(records, zone, excluded, pairs).1;
    let kept = kept_records(records, dd);
    let post = post_state(records, dd, created);
    let o = addr_outcome(records, zone, excluded, p.0, a);
    lemma_kept_sub(records, dd);
    lemma_find_props(records, t);
    lemma_change_sources(records, zone, excluded, pairs);
    lemma_reconcile_pairs_decompose(records, zone, excluded, pairs, k);
    lemma_change_sources(records, zone, excluded, pairs.take(k));
    lemma_change_sources(records, zone, excluded, pairs.skip(k + 1));
    let d1 = reconcile_pairs(records, zone, excluded, pairs.take(k)).0;
    let c1 = reconcile_pairs(records, zone, excluded, pairs.take(k)).1;
    let c2 = reconcile_pairs(records, zone, excluded, pairs.skip(k + 1)).1;

    // Every deleted record that targets this pair's address is this
    // pair's own deletion.
    assert forall|j: int| 0 <= j < dd.len() && (#[trigger] dd[j]).target == t
        implies o.0 == Some(dd[j]) by {
        let m = choose|m: int|
            0 <= m < pairs.len() && addr_outcome(records, zone, excluded, pairs[m].0,
                pairs[m].1).0 == Some(dd[j]);
        lemma_outcome_targets(records, zone, excluded, pairs[m].0, pairs[m].1);
        if m != k {
            assert(pairs[m].1.ip.text != pairs[k].1.ip.text);
            assert(false);
        }
    }

    // Every planned create that targets this pair's address is this
    // pair's own creation, at the one position after everything the
    // earlier pairs planned.
    assert forall|j: int| 0 <= j < cc.len() && (#[trigger] cc[j]).target == t
        implies j == c1.len() as int && o.1 == Some(cc[j]) by {
        if j < c1.len() as int {
            assert(cc[j] == c1[j]);
            let m = choose|m: int|
                0 <= m < pairs.take(k).len() && addr_outcome(records, zone, excluded,
                    pairs.take(k)[m].0, pairs.take(k)[m].1).1 == Some(c1[j]);
            lemma_outcome_targets(records, zone, excluded, pairs[m].0, pairs[m].1);
            assert(pairs.take(k)[m] == pairs[m]);
            assert(cc[j].target == pairs[m].1.ip.text);
            assert(pairs[m].1.ip.text != pairs[k].1.ip.text);
            assert(false);
        } else if j >= c1.len() as int + opt_to_seq(o.1).len() as int {
            let j2 = j - c1.len() as int - opt_to_seq(o.1).len() as int;
            assert(cc[j] == c2[j2]);
            let ps2 = pairs.skip(k + 1);
            let m = choose|m: int|
                0 <= m < ps2.len() && addr_outcome(records, zone, excluded,
                    ps2[m].0, ps2[m].1).1 == Some(c2[j2]);
            lemma_outcome_targets(records, zone, excluded, pairs[m + k + 1].0,
                pairs[m + k + 1].1);
            assert(ps2[m] == pairs[m + k + 1]);
            assert(cc[j].target == pairs[m + k + 1].1.ip.text);
            assert(pairs[m + k + 1].1.ip.text != pairs[k].1.ip.text);
            assert(false);
        } else {
            assert(opt_to_seq(o.1).len() == 1);
            assert(cc[j] == opt_to_seq(o.1)[0]);
        }
    }

    // A surviving record that targets this pair's address is the one
    // record the fetch had for it.
    assert forall|j: int| 0 <= j < kept.len() && (#[trigger] kept[j]).target == t
        implies spec_find_target(records, t) == Some(kept[j]) by {
        let wi = choose|wi: int| 0 <= wi < records.len() && records[wi] == kept[j];
        match spec_find_target(records, t) {
            Some(r0) => {
                let wi0 = choose|wi0: int| 0 <= wi0 < records.len() && records[wi0] == r0;
                assert(records[wi].target == t);
                assert(records[wi0].target == t);
                if wi != wi0 {
                    assert(records[wi].target != records[wi0].target);
                    assert(false);
                }
            },
            None => {
                assert(records[wi].target != t);
                assert(false);
            },
        }
    }

    if a.kind != "public"@ || spec_first_match(excluded, a.ip.bits) is Some {
        // The outcome on the fetched records deleted any stale match
        // and created nothing; afterwards nothing targets the
        // address at all.
        assert(o.1 is None);
        assert forall|j: int| 0 <= j < post.len() implies (#[trigger] post[j]).target != t by {
            if j < kept.len() as int {
                if post[j].target == t {
                    assert(kept[j].target == t);
                    let r0 = spec_find_target(records, t)->Some_0;
                    assert(o.0 == Some(r0));
                    assert(dd[d1.len() as int] == r0);
                    assert(dd.contains(r0));
                    assert(kept[j] == r0);
                    assert(!dd.contains(kept[j]));
                    assert(false);
                }
            } else {
                if post[j].target == t {
                    let j2 = j - kept.len() as int;
                    assert(post[j] == created[j2]);
                    assert(record_value_eq(created[j2], cc[j2]));
                    assert(cc[j2].target == t);
                    assert(o.1 == Some(cc[j2]));
                    assert(false);
                }
            }
        }
        lemma_find_none(post, t);
    } else if a.version != 4 && a.version != 6 {
        // Ignored on any record set.
    } else {
        let d = desired_record(zone, p.0, a);
        assert(d.target == t);
        match spec_find_target(records, t) {
            None => {
                // The desired record was created; it is now the one
                // record that targets the address, and it matches.
                assert(o.1 == Some(d));
                let j0 = c1.len() as int;
                assert(cc[j0] == opt_to_seq(o.1)[0]);
                assert(cc[j0] == d);
                assert(record_value_eq(created[j0], cc[j0]));
                let x = created[j0];
                let jw = kept.len() as int + j0;
                assert(post[jw] == x);
                assert(x.target == t);
                assert forall|j: int| 0 <= j < post.len() && (#[trigger] post[j]).target == t
                    implies post[j] == x by {
                    if j < kept.len() as int {
                        assert(kept[j].target == t);
                        assert(false);
                    } else {
                        let j2 = j - kept.len() as int;
                        assert(post[j] == created[j2]);
                        assert(record_value_eq(created[j2], cc[j2]));
                        assert(cc[j2].target == t);
                        assert(j2 == j0);
                    }
                }
                lemma_find_all_same(post, t, x, jw);
                assert(record_value_eq(x, d));
            },
            Some(r0) => {
                if record_value_eq(r0, d) {
                    // Nothing was changed; the matching record is
                    // still there and still matches.
                    assert(o.0 is None);
                    assert(o.1 is None);
                    assert(!dd.contains(r0)) by {
                        if dd.contains(r0) {
                            let j = choose|j: int| 0 <= j < dd.len() && dd[j] == r0;
                            assert(dd[j].target == t);
                            assert(o.0 == Some(r0));
                            assert(false);
                        }
                    }
                    let wi0 = choose|wi0: int| 0 <= wi0 < records.len() && records[wi0] == r0;
                    assert(kept.contains(r0));
                    let jw = choose|jw: int| 0 <= jw < kept.len() && kept[jw] == r0;
                    assert(post[jw] == r0);
                    assert forall|j: int| 0 <= j < post.len() && (#[trigger] post[j]).target == t
                        implies post[j] == r0 by {
                        if j < kept.len() as int {
                            assert(kept[j].target == t);
                            assert(spec_find_target(records, t) == Some(kept[j]));
                        } else {
                            let j2 = j - kept.len() as int;
                            assert(post[j] == created[j2]);
                            assert(record_value_eq(created[j2], cc[j2]));
                            assert(cc[j2].target == t);
                            assert(o.1 == Some(cc[j2]));
                            assert(false);
                        }
                    }
                    lemma_find_all_same(post, t, r0, jw);
                    assert(record_value_eq(r0, d));
                } else {
                    // The stale record was deleted and the desired
                    // one created; only the creation now targets the
                    // address, and it matches.
                    assert(o.0 == Some(r0));
                    assert(o.1 == Some(d));
                    assert(dd[d1.len() as int] == r0);
                    assert(dd.contains(r0));
                    let j0 = c1.len() as int;
                    assert(cc[j0] == opt_to_seq(o.1)[0]);
                    assert(cc[j0] == d);
                    assert(record_value_eq(created[j0], cc[j0]));
                    let x = created[j0];
                    let jw = kept.len() as int + j0;
                    assert(post[jw] == x);
                    assert(x.target == t);
                    assert forall|j: int| 0 <= j < post.len() && (#[trigger] post[j]).target == t
                        implies post[j] == x by {
                        if j < kept.len() as int {
                            assert(kept[j].target == t);
                            assert(spec_find_target(records, t) == Some(kept[j]));
                            assert(kept[j] == r0);
                            assert(!dd.contains(kept[j]));
                            assert(false);
                        } else {
                            let j2 = j - kept.len() as int;
                            assert(post[j] == created[j2]);
                            assert(record_value_eq(created[j2], cc[j2]));
                            assert(cc[j2].target == t);
                            assert(j2 == j0);
                        }
                    }
                    lemma_find_all_same(post, t, x, jw);
                    assert(record_value_eq(x, d));
                }
            },
        }
    }
}

/// When every pair contributes nothing, the run computes empty
/// change sets.
proof fn lemma_reconcile_pairs_all_noop(
    records: Seq<RecordView>,
    zone: Seq<char>,
    excluded: Seq<Cidr>,
    pairs: Seq<(Seq<char>, IpAddressView)>,
)
    requires
        forall|m: int|
            0 <= m < pairs.len()
                ==> addr_outcome(records, zone, excluded, (#[trigger] pairs[m]).0, pairs[m].1).0
                    is None
                    && addr_outcome(records, zone, excluded, pairs[m].0, pairs[m].1).1 is None,
    ensures
        reconcile_pairs(records, zone, excluded, pairs).0 == Seq::<RecordView>::empty(),
        reconcile_pairs(records, zone, excluded, pairs).1 == Seq::<RecordView>::empty(),
    decreases pairs.len(),
{
    if pairs.len() > 0 {
        assert forall|m: int| 0 <= m < pairs.skip(1).len()
            implies addr_outcome(records, zone, excluded, (#[trigger] pairs.skip(1)[m]).0,
                pairs.skip(1)[m].1).0 is None
                && addr_outcome(records, zone, excluded, pairs.skip(1)[m].0,
                    pairs.skip(1)[m].1).1 is None by {
            assert(pairs.skip(1)[m] == pairs[m + 1]);
        }
        lemma_reconcile_pairs_all_noop(records, zone, excluded, pairs.skip(1));
        let o = addr_outcome(records, zone, excluded, pairs[0].0, pairs[0].1);
        assert(opt_to_seq(o.0) + Seq::<RecordView>::empty() =~= Seq::<RecordView>::empty());
        assert(opt_to_seq(o.1) + Seq::<RecordView>::empty() =~= Seq::<RecordView>::empty());
    }
}

/// Reconciliation is idempotent: on the record set a successful
/// apply leaves behind, the same instances and exclusions yield
/// empty change sets.
///
/// This holds when no two addresses of the run share a target text,
/// no two fetched records share a target, and every fetched record
/// carries its identifier (one without an identifier cannot actually
/// be deleted, so a stale one would be reported again on every run).
/// `created` stands for the records the server made of the planned
/// creations: equal by value, with server-chosen `id` and `ttl`.
pub proof fn lemma_reconcile_idempotent(
    instances: Seq<InstanceView>,
    records: Seq<RecordView>,
    zone: Seq<char>,
    excluded: Seq<Cidr>,
    created: Seq<RecordView>,
)
    requires
        pairs_have_distinct_targets(all_pairs(instances)),
        records_have_distinct_targets(records),
        records_have_ids(records),
        created_matches(created, spec_reconcile(instances, records, zone, excluded).1),
    ensures
        spec_reconcile(
            instances,
            post_state(records, spec_reconcile(instances, records, zone, excluded).0, created),
            zone,
            excluded,
        ).0 == Seq::<RecordView>::empty(),
        spec_reconcile(
            instances,
            post_state(records, spec_reconcile(instances, records, zone, excluded).0, created),
            zone,
            excluded,
        ).1 == Seq::<RecordView>::empty(),
{
    let pairs = all_pairs(instances);
    let post = post_state(records, reconcile_pairs(records, zone, excluded, pairs).0, created);
    assert forall|m: int| 0 <= m < pairs.len()
        implies addr_outcome(post, zone, excluded, (#[trigger] pairs[m]).0, pairs[m].1).0 is None
            && addr_outcome(post, zone, excluded, pairs[m].0, pairs[m].1).1 is None by {
        lemma_pair_noop(records, zone, excluded, pairs, created, m);
    }
    lemma_reconcile_pairs_all_noop(post, zone, excluded, pairs);
}

} // verus!

//! The applier's plan.
//!
//! A reconciliation diff is executed as a sequence of API actions:
//! every deletion first, in input order, then every creation, then
//! one zone refresh. A record marked for deletion that has no
//! identifier was never actually created, so it contributes no
//! action at all; it is skipped, not an error.

use vstd::prelude::*;
use crate::records::Record;
use crate::records::RecordView;
use crate::records::records_view;

verus! {

/// One step the applier performs against the API.
pub enum Action {
    /// Delete the record with this identifier in the zone.
    Delete { id: i64 },
    /// Create this record in the zone.
    Create { record: Record },
    /// Publish the pending zone changes.
    Refresh,
}

/// The mathematical value of an action.
pub ghost enum ActionView {
    Delete(int),
    Create(RecordView),
    Refresh,
}

impl View for Action {
    type V = ActionView;

    open spec fn view(&self) -> ActionView {
        match self {
            Action::Delete { id } => ActionView::Delete(*id as int),
            Action::Create { record } => ActionView::Create(record@),
            Action::Refresh => ActionView::Refresh,
        }
    }
}

/// The view of each element of an action list.
pub open spec fn actions_view(actions: Seq<Action>) -> Seq<ActionView> {
    actions.map(|i: int, a: Action| a@)
}

/// The deletions a delete list gives: one per record that has an
/// identifier, in order; records without one are skipped.
pub open spec fn delete_actions(rs: Seq<RecordView>) -> Seq<ActionView>
    decreases rs.len(),
{
    if rs.len() == 0 {
        Seq::empty()
    } else {
        let rest = delete_actions(rs.skip(1));
        match rs[0].id {
            Some(i) => seq![ActionView::Delete(i)] + rest,
            None => rest,
        }
    }
}

/// The creations a create list gives: one per record, in order.
pub open spec fn create_actions(rs: Seq<RecordView>) -> Seq<ActionView> {
    rs.map(|i: int, r: RecordView| ActionView::Create(r))
}

/// The full plan: deletions, then creations, then one refresh.
pub open spec fn spec_apply_plan(
    to_delete: Seq<RecordView>,
    to_create: Seq<RecordView>,
) -> Seq<ActionView> {
    delete_actions(to_delete) + create_actions(to_create) + seq![ActionView::Refresh]
}

/// Deletions of a concatenation are the concatenated deletions.
pub proof fn lemma_delete_actions_concat(a: Seq<RecordView>, b: Seq<RecordView>)
    ensures
        delete_actions(a + b) == delete_actions(a) + delete_actions(b),
    decreases a.len(),
{
    if a.len() == 0 {
        assert(a + b =~= b);
        assert(delete_actions(a) + delete_actions(b) =~= delete_actions(b));
    } else {
        assert((a + b).skip(1) =~= a.skip(1) + b);
        assert((a + b)[0] == a[0]);
        lemma_delete_actions_concat(a.skip(1), b);
        match a[0].id {
            Some(i) => {
                assert(seq![ActionView::Delete(i)] + (delete_actions(a.skip(1)) + delete_actions(b))
                    =~= (seq![ActionView::Delete(i)] + delete_actions(a.skip(1)))
                        + delete_actions(b));
            },
            None => {},
        }
    }
}

/// A record without an identifier contributes nothing to the plan,
/// wherever it stands in the delete list.
pub proof fn lemma_delete_without_id_is_noop(rs: Seq<RecordView>, r: RecordView, i: int)
    requires
        r.id is None,
        0 <= i <= rs.len(),
    ensures
        delete_actions(rs.insert(i, r)) == delete_actions(rs),
{
    assert(rs.insert(i, r) =~= rs.take(i) + (seq![r] + rs.skip(i)));
    lemma_delete_actions_concat(rs.take(i), seq![r] + rs.skip(i));
    lemma_delete_actions_concat(seq![r], rs.skip(i));
    assert((seq![r] + rs.skip(i)).skip(1) =~= rs.skip(i));
    assert(seq![r].skip(1) =~= Seq::<RecordView>::empty());
    assert(delete_actions(seq![r]) =~= Seq::<ActionView>::empty());
    lemma_delete_actions_concat(rs.take(i), rs.skip(i));
    assert(rs.take(i) + rs.skip(i) =~= rs);
    assert(delete_actions(seq![r]) + delete_actions(rs.skip(i))
        =~= delete_actions(rs.skip(i)));
}

/// Turn a diff into the sequence of actions to perform, in order.
pub fn apply_plan(to_delete: &Vec<Record>, to_create: &Vec<Record>) -> (r: Vec<Action>)
    ensures
        actions_view(r@) == spec_apply_plan(records_view(to_delete@), records_view(to_create@)),
{
    let mut actions: Vec<Action> = Vec::new();
    let mut i: usize = 0;
    proof {
        assert(records_view(to_delete@).take(0) =~= Seq::<RecordView>::empty());
        assert(actions_view(actions@) =~= Seq::<ActionView>::empty());
    }
    while i < to_delete.len()
        invariant
            i <= to_delete@.len(),
            actions_view(actions@) == delete_actions(records_view(to_delete@).take(i as int)),
        decreases to_delete@.len() - i,
    {
        match to_delete[i].id {
            Some(id) => {
                proof {
                    let rvs = records_view(to_delete@);
                    let s = seq![rvs[i as int]];
                    assert(rvs.take(i as int + 1) =~= rvs.take(i as int) + s);
                    lemma_delete_actions_concat(rvs.take(i as int), s);
                    assert(s.skip(1) =~= Seq::<RecordView>::empty());
                    assert(rvs[i as int] == to_delete@[i as int]@);
                    assert(s[0].id == Some(id as int));
                    assert(delete_actions(s)
                        == seq![ActionView::Delete(id as int)] + delete_actions(s.skip(1)));
                    assert(delete_actions(s) =~= seq![ActionView::Delete(id as int)]);
                    assert(actions_view(actions@.push(Action::Delete { id }))
                        =~= actions_view(actions@) + seq![ActionView::Delete(id as int)]);
                }
                actions.push(Action::Delete { id });
            },
            None => {
                proof {
                    let rvs = records_view(to_delete@);
                    let s = seq![rvs[i as int]];
                    assert(rvs.take(i as int + 1) =~= rvs.take(i as int) + s);
                    lemma_delete_actions_concat(rvs.take(i as int), s);
                    assert(s.skip(1) =~= Seq::<RecordView>::empty());
                    assert(rvs[i as int] == to_delete@[i as int]@);
                    assert(s[0].id is None);
                    assert(delete_actions(s) == delete_actions(s.skip(1)));
                    assert(delete_actions(s) =~= Seq::<ActionView>::empty());
                    assert(actions_view(actions@) + Seq::<ActionView>::empty()
                        =~= actions_view(actions@));
                }
            },
        }
        i = i + 1;
    }
    proof {
        assert(records_view(to_delete@).take(i as int) =~= records_view(to_delete@));
    }
    let mut j: usize = 0;
    proof {
        assert(records_view(to_create@).take(0) =~= Seq::<RecordView>::empty());
        assert(actions_view(actions@) + create_actions(records_view(to_create@).take(0))
            =~= actions_view(actions@));
    }
    while j < to_create.len()
        invariant
            j <= to_create@.len(),
            actions_view(actions@) == delete_actions(records_view(to_delete@))
                + create_actions(records_view(to_create@).take(j as int)),
        decreases to_create@.len() - j,
    {
        let rec = to_create[j].clone_record();
        proof {
            let cvs = records_view(to_create@);
            assert(rec@ == cvs[j as int]);
            assert(create_actions(cvs.take(j as int + 1))
                =~= create_actions(cvs.take(j as int)).push(ActionView::Create(rec@)));
            assert(actions_view(actions@.push(Action::Create { record: rec }))
                =~= actions_view(actions@).push(ActionView::Create(rec@)));
            assert(delete_actions(records_view(to_delete@))
                    + create_actions(cvs.take(j as int)).push(ActionView::Create(rec@))
                =~= (delete_actions(records_view(to_delete@))
                    + create_actions(cvs.take(j as int))).push(ActionView::Create(rec@)));
        }
        actions.push(Action::Create { record: rec });
        j = j + 1;
    }
    proof {
        assert(records_view(to_create@).take(j as int) =~= records_view(to_create@));
        assert(actions_view(actions@.push(Action::Refresh))
            =~= actions_view(actions@).push(ActionView::Refresh));
        assert((delete_actions(records_view(to_delete@))
                + create_actions(records_view(to_create@))).push(ActionView::Refresh)
            =~= spec_apply_plan(records_view(to_delete@), records_view(to_create@)));
    }
    actions.push(Action::Refresh);
    actions
}

} // verus!

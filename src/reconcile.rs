//! The reconciler: which local chapters to create and which to update.
use vstd::prelude::*;

use std::collections::HashMap;

use crate::model::{Chapter, ChapterMetadata};

verus! {

broadcast use vstd::std_specs::hash::group_hash_axioms;

/// What a job does to the record store.
#[derive(Debug, PartialEq, Eq)]
pub enum Action {
    Create,
    Update { remote_id: String },
}

/// One chapter and what to do with it.
#[derive(Debug, PartialEq, Eq)]
pub struct PlanEntry {
    pub action: Action,
    pub chapter: ChapterMetadata,
}

/// The plan of one run, in local index order, with the chapter indices that
/// the record store holds more than once (one per repeated record).
#[derive(Debug, PartialEq, Eq)]
pub struct ReconciliationPlan {
    pub entries: Vec<PlanEntry>,
    pub duplicate_remote_indices: Vec<usize>,
}

/// Some remote chapter carries `index`.
pub open spec fn has_remote(remote: Seq<Chapter>, index: usize) -> bool {
    exists|j: int| 0 <= j < remote.len() && (#[trigger] remote[j]).idx == index
}

/// `j` is the first remote chapter that carries `index`.
pub open spec fn is_first_remote(remote: Seq<Chapter>, index: usize, j: int) -> bool {
    &&& 0 <= j < remote.len()
    &&& remote[j].idx == index
    &&& forall|k: int| 0 <= k < j ==> (#[trigger] remote[k]).idx != index
}

/// The first remote chapter that carries `index`.
pub open spec fn first_remote(remote: Seq<Chapter>, index: usize) -> int {
    choose|j: int| is_first_remote(remote, index, j)
}

/// Update the first remote chapter with the same index, or create one.
pub open spec fn planned_action(remote: Seq<Chapter>, index: usize) -> Action {
    if has_remote(remote, index) {
        Action::Update { remote_id: remote[first_remote(remote, index)].id }
    } else {
        Action::Create
    }
}

/// One entry per local chapter, in local order.
pub open spec fn plan_for(local: Seq<ChapterMetadata>, remote: Seq<Chapter>) -> Seq<PlanEntry> {
    Seq::new(
        local.len(),
        |i: int| PlanEntry { action: planned_action(remote, local[i].index), chapter: local[i] },
    )
}

/// The index of every remote chapter that repeats an earlier one's index.
pub open spec fn repeated_indices(remote: Seq<Chapter>) -> Seq<usize>
    decreases remote.len(),
{
    if remote.len() == 0 {
        Seq::empty()
    } else {
        let before = remote.drop_last();
        if has_remote(before, remote.last().idx) {
            repeated_indices(before).push(remote.last().idx)
        } else {
            repeated_indices(before)
        }
    }
}

/// `plan` is what reconciling `local` against `remote` gives.
pub open spec fn is_plan_of(
    local: Seq<ChapterMetadata>,
    remote: Seq<Chapter>,
    plan: ReconciliationPlan,
) -> bool {
    &&& plan.entries@ == plan_for(local, remote)
    &&& plan.duplicate_remote_indices@ == repeated_indices(remote)
}

/// Maps each chapter index of the record store to its first record.
fn first_records(remote: &Vec<Chapter>) -> (r: (HashMap<usize, usize>, Vec<usize>))
    ensures
        forall|index: usize| #[trigger] r.0@.contains_key(index) <==> has_remote(remote@, index),
        forall|index: usize|
            #[trigger] r.0@.contains_key(index) ==> is_first_remote(
                remote@,
                index,
                r.0@[index] as int,
            ),
        r.1@ == repeated_indices(remote@),
{
    let mut first: HashMap<usize, usize> = HashMap::new();
    let mut repeated: Vec<usize> = Vec::new();
    let mut j: usize = 0;
    while j < remote.len()
        invariant
            j <= remote.len(),
            forall|index: usize|
                #[trigger] first@.contains_key(index) <==> has_remote(
                    remote@.subrange(0, j as int),
                    index,
                ),
            forall|index: usize|
                #[trigger] first@.contains_key(index) ==> is_first_remote(
                    remote@,
                    index,
                    first@[index] as int,
                ) && first@[index] < j,
            repeated@ == repeated_indices(remote@.subrange(0, j as int)),
        decreases remote.len() - j,
    {
        let index = remote[j].idx;
        let ghost before = remote@.subrange(0, j as int);
        let ghost upto = remote@.subrange(0, j + 1);
        assert(upto.drop_last() =~= before);
        if first.contains_key(&index) {
            repeated.push(index);
        } else {
            first.insert(index, j);
        }
        proof {
            assert forall|k: usize| #[trigger] first@.contains_key(k) implies has_remote(upto, k) by {
                if k == index {
                    assert(upto[j as int].idx == k);
                } else {
                    let w = choose|w: int| 0 <= w < before.len() && (#[trigger] before[w]).idx == k;
                    assert(upto[w] == before[w]);
                }
            }
            assert forall|k: usize| has_remote(upto, k) implies #[trigger] first@.contains_key(k) by {
                let w = choose|w: int| 0 <= w < upto.len() && (#[trigger] upto[w]).idx == k;
                if w < j {
                    assert(before[w] == upto[w]);
                }
            }
            assert forall|k: usize| #[trigger] first@.contains_key(k) implies is_first_remote(
                remote@,
                k,
                first@[k] as int,
            ) && first@[k] < j + 1 by {
                if k == index && !has_remote(before, k) {
                    assert forall|w: int| 0 <= w < j implies (#[trigger] remote@[w]).idx != k by {
                        assert(before[w] == remote@[w]);
                    }
                }
            }
        }
        j = j + 1;
    }
    assert(remote@.subrange(0, j as int) =~= remote@);
    (first, repeated)
}

/// Plans one run: each local chapter, in order, becomes an update of the
/// first remote chapter with its index, or a create when there is none.
/// Remote chapters without a local counterpart are left alone.
pub fn reconcile(local: Vec<ChapterMetadata>, remote: &Vec<Chapter>) -> (plan: ReconciliationPlan)
    ensures
        is_plan_of(local@, remote@, plan),
{
    let (first, repeated) = first_records(remote);
    let ghost local_seq = local@;
    let mut entries: Vec<PlanEntry> = Vec::new();
    for c in it: local.into_iter()
        invariant
            it.seq() == local_seq,
            entries.len() == it.index(),
            forall|index: usize| #[trigger] first@.contains_key(index) <==> has_remote(remote@, index),
            forall|index: usize|
                #[trigger] first@.contains_key(index) ==> is_first_remote(
                    remote@,
                    index,
                    first@[index] as int,
                ),
            forall|i: int|
                0 <= i < entries.len() ==> #[trigger] entries@[i] == plan_for(local_seq, remote@)[i],
    {
        let action = match first.get(&c.index) {
            Some(j) => {
                assert(first_remote(remote@, c.index) == *j);
                Action::Update { remote_id: remote[*j].id.clone() }
            },
            None => Action::Create,
        };
        entries.push(PlanEntry { action, chapter: c });
    }
    assert(entries@ =~= plan_for(local_seq, remote@));
    ReconciliationPlan { entries, duplicate_remote_indices: repeated }
}

/// Reconciliation keeps no state between runs: two plans built from the same
/// local and remote snapshots are the same plan.
pub proof fn lemma_reconcile_idempotent(
    local: Seq<ChapterMetadata>,
    remote: Seq<Chapter>,
    first: ReconciliationPlan,
    second: ReconciliationPlan,
)
    requires
        is_plan_of(local, remote, first),
        is_plan_of(local, remote, second),
    ensures
        first.entries@ == second.entries@,
        first.duplicate_remote_indices@ == second.duplicate_remote_indices@,
{
}

/// Against an empty record store, a local inventory with indices `1..=n`
/// becomes `n` creates in ascending index order.
pub proof fn lemma_empty_remote_creates_all(local: Seq<ChapterMetadata>, plan: ReconciliationPlan)
    requires
        forall|i: int| 0 <= i < local.len() ==> (#[trigger] local[i]).index == i + 1,
        is_plan_of(local, Seq::empty(), plan),
    ensures
        plan.entries.len() == local.len(),
        forall|i: int|
            0 <= i < plan.entries.len() ==> (#[trigger] plan.entries@[i]).action is Create
                && plan.entries@[i].chapter.index == i + 1,
        forall|a: int, b: int|
            0 <= a < b < plan.entries.len() ==> plan.entries@[a].chapter.index
                < plan.entries@[b].chapter.index,
{
}

/// When the record store already holds every local index, the plan is all
/// updates and no creates.
pub proof fn lemma_all_present_updates_all(
    local: Seq<ChapterMetadata>,
    remote: Seq<Chapter>,
    plan: ReconciliationPlan,
)
    requires
        forall|i: int| 0 <= i < local.len() ==> has_remote(remote, (#[trigger] local[i]).index),
        is_plan_of(local, remote, plan),
    ensures
        plan.entries.len() == local.len(),
        forall|i: int| 0 <= i < plan.entries.len() ==> (#[trigger] plan.entries@[i]).action is Update,
        !exists|i: int| 0 <= i < plan.entries.len() && (#[trigger] plan.entries@[i]).action is Create,
{
    assert forall|i: int| 0 <= i < plan.entries.len() implies (
    #[trigger] plan.entries@[i]).action is Update by {
        assert(plan.entries@[i] == plan_for(local, remote)[i]);
    }
}

} // verus!

//! Snapshot queries scoped to one project: latest-by-time resolution, exact
//! id resolution, and the full bundle listing sorted most recent first.

use vstd::prelude::*;
use vstd::multiset::Multiset;
use vstd::seq_lib::to_multiset_build;
use vstd::seq_lib::to_multiset_insert;
use crate::errors::SproutError;
use crate::snapshot::{snap_eq, Snapshot};
use crate::strutil::str_eq;

verus! {

/// The predicate of bundle queries scoped to a project, over any branch.
pub open spec fn project_bundle_pred(name: Seq<char>) -> spec_fn(Snapshot) -> bool {
    |s: Snapshot| s.spec_is_project_bundle(name)
}

/// Sorted by creation time, most recent first.
pub open spec fn sorted_desc_by_time(s: Seq<Snapshot>) -> bool {
    forall|i: int, j: int| 0 <= i < j < s.len() ==> s[i].time >= s[j].time
}

/// The most recent bundle of the project, over all branches: a matching
/// record no match is newer than, or `NotFound` when none matches.
pub fn get_latest_snapshot(snaps: &Vec<Snapshot>, name: &str) -> (r: Result<Snapshot, SproutError>)
    ensures
        match r {
            Ok(s) => {
                &&& exists|i: int|
                    0 <= i < snaps@.len() && snap_eq(s, #[trigger] snaps@[i])
                        && snaps@[i].spec_is_project_bundle(name@)
                &&& forall|j: int|
                    0 <= j < snaps@.len() && (#[trigger] snaps@[j]).spec_is_project_bundle(name@)
                        ==> snaps@[j].time <= s.time
            },
            Err(e) => {
                &&& e == SproutError::NotFound
                &&& forall|j: int|
                    0 <= j < snaps@.len() ==> !(#[trigger] snaps@[j]).spec_is_project_bundle(name@)
            },
        },
{
    let mut best: Option<usize> = None;
    let mut i: usize = 0;
    while i < snaps.len()
        invariant
            i <= snaps@.len(),
            match best {
                Some(b) => b < i && snaps@[b as int].spec_is_project_bundle(name@) && forall|j: int|
                    0 <= j < i && (#[trigger] snaps@[j]).spec_is_project_bundle(name@)
                        ==> snaps@[j].time <= snaps@[b as int].time,
                None => forall|j: int|
                    0 <= j < i ==> !(#[trigger] snaps@[j]).spec_is_project_bundle(name@),
            },
        decreases snaps@.len() - i,
    {
        if snaps[i].is_bundle() && snaps[i].for_project(name) {
            match best {
                None => {
                    best = Some(i);
                },
                Some(b) => {
                    if snaps[i].time > snaps[b].time {
                        best = Some(i);
                    }
                },
            }
        }
        i += 1;
    }
    match best {
        Some(b) => Ok(snaps[b].duplicate()),
        None => Err(SproutError::NotFound),
    }
}

/// The most recent bundle of the project on the given branch, or `NotFound`.
pub fn get_latest_snapshot_for_branch(snaps: &Vec<Snapshot>, name: &str, branch: &str) -> (r:
    Result<Snapshot, SproutError>)
    ensures
        match r {
            Ok(s) => {
                &&& exists|i: int|
                    0 <= i < snaps@.len() && snap_eq(s, #[trigger] snaps@[i])
                        && snaps@[i].spec_is_branch_bundle(name@, branch@)
                &&& forall|j: int|
                    0 <= j < snaps@.len() && (#[trigger] snaps@[j]).spec_is_branch_bundle(
                        name@,
                        branch@,
                    ) ==> snaps@[j].time <= s.time
            },
            Err(e) => {
                &&& e == SproutError::NotFound
                &&& forall|j: int|
                    0 <= j < snaps@.len() ==> !(#[trigger] snaps@[j]).spec_is_branch_bundle(
                        name@,
                        branch@,
                    )
            },
        },
{
    let mut best: Option<usize> = None;
    let mut i: usize = 0;
    while i < snaps.len()
        invariant
            i <= snaps@.len(),
            match best {
                Some(b) => b < i && snaps@[b as int].spec_is_branch_bundle(name@, branch@)
                    && forall|j: int|
                    0 <= j < i && (#[trigger] snaps@[j]).spec_is_branch_bundle(name@, branch@)
                        ==> snaps@[j].time <= snaps@[b as int].time,
                None => forall|j: int|
                    0 <= j < i ==> !(#[trigger] snaps@[j]).spec_is_branch_bundle(name@, branch@),
            },
        decreases snaps@.len() - i,
    {
        if snaps[i].is_bundle() && snaps[i].for_project(name) && snaps[i].on_branch(branch) {
            match best {
                None => {
                    best = Some(i);
                },
                Some(b) => {
                    if snaps[i].time > snaps[b].time {
                        best = Some(i);
                    }
                },
            }
        }
        i += 1;
    }
    match best {
        Some(b) => Ok(snaps[b].duplicate()),
        None => Err(SproutError::NotFound),
    }
}

/// Resolve a bundle by exact id: the first bundle record whose id equals
/// `id`, or `NotFound`.
pub fn find_bundle_by_id(snaps: &Vec<Snapshot>, id: &str) -> (r: Result<Snapshot, SproutError>)
    ensures
        match r {
            Ok(s) => {
                &&& exists|i: int|
                    0 <= i < snaps@.len() && snap_eq(s, #[trigger] snaps@[i])
                        && snaps@[i].spec_is_bundle() && snaps@[i].id@ == id@
                &&& s.id@ == id@
                &&& s.spec_is_bundle()
            },
            Err(e) => {
                &&& e == SproutError::NotFound
                &&& forall|j: int|
                    0 <= j < snaps@.len() ==> !((#[trigger] snaps@[j]).spec_is_bundle()
                        && snaps@[j].id@ == id@)
            },
        },
{
    let mut i: usize = 0;
    while i < snaps.len()
        invariant
            i <= snaps@.len(),
            forall|j: int|
                0 <= j < i ==> !((#[trigger] snaps@[j]).spec_is_bundle() && snaps@[j].id@ == id@),
        decreases snaps@.len() - i,
    {
        if snaps[i].is_bundle() && str_eq(snaps[i].id.as_str(), id) {
            let s = snaps[i].duplicate();
            return Ok(s);
        }
        i += 1;
    }
    Err(SproutError::NotFound)
}

/// The multiset of an empty record sequence is empty.
proof fn lemma_empty_to_multiset(s: Seq<Snapshot>)
    requires
        s.len() == 0,
    ensures
        s.to_multiset() == Multiset::<Snapshot>::empty(),
{
    s.to_multiset_ensures();
    assert forall|x: Snapshot| s.to_multiset().count(x) == 0 by {
        if s.to_multiset().count(x) > 0 {
            assert(s.contains(x));
        }
    }
    assert(s.to_multiset() =~= Multiset::<Snapshot>::empty());
}

/// Every bundle of the project, sorted most recent first. The result is a
/// permutation of the input's matching records.
pub fn get_all_snapshots_for_project(snaps: Vec<Snapshot>, name: &str) -> (r: Vec<Snapshot>)
    ensures
        r@.to_multiset() == snaps@.filter(project_bundle_pred(name@)).to_multiset(),
        sorted_desc_by_time(r@),
{
    let ghost orig = snaps@;
    let mut rest = snaps;
    let mut kept: Vec<Snapshot> = Vec::new();
    proof {
        lemma_empty_to_multiset(kept@);
        assert(kept@.to_multiset().add(rest@.filter(project_bundle_pred(name@)).to_multiset())
            =~= orig.filter(project_bundle_pred(name@)).to_multiset());
    }
    while rest.len() > 0
        invariant
            kept@.to_multiset().add(rest@.filter(project_bundle_pred(name@)).to_multiset())
                == orig.filter(project_bundle_pred(name@)).to_multiset(),
        decreases rest@.len(),
    {
        let ghost before = rest@;
        let x = rest.pop().unwrap();
        proof {
            reveal(Seq::filter);
            assert(x == before.last());
            assert(before.drop_last() == rest@);
            assert(before.filter(project_bundle_pred(name@)) == if project_bundle_pred(name@)(
                before.last(),
            ) {
                rest@.filter(project_bundle_pred(name@)).push(before.last())
            } else {
                rest@.filter(project_bundle_pred(name@))
            });
        }
        if x.is_bundle() && x.for_project(name) {
            let ghost kept_before = kept@;
            kept.push(x);
            proof {
                assert(project_bundle_pred(name@)(before.last()));
                assert(kept@ == kept_before.push(before.last()));
                to_multiset_build::<Snapshot>(kept_before, before.last());
                to_multiset_build::<Snapshot>(
                    rest@.filter(project_bundle_pred(name@)),
                    before.last(),
                );
                assert(kept@.to_multiset().add(
                    rest@.filter(project_bundle_pred(name@)).to_multiset(),
                ) =~= kept_before.to_multiset().add(
                    before.filter(project_bundle_pred(name@)).to_multiset(),
                ));
            }
        } else {
            proof {
                assert(!project_bundle_pred(name@)(before.last()));
            }
        }
    }
    proof {
        reveal(Seq::filter);
        assert(rest@.len() == 0);
        lemma_empty_to_multiset(rest@.filter(project_bundle_pred(name@)));
        assert(kept@.to_multiset() =~= orig.filter(project_bundle_pred(name@)).to_multiset());
    }
    // Insertion sort, most recent first.
    let mut result: Vec<Snapshot> = Vec::new();
    proof {
        lemma_empty_to_multiset(result@);
        assert(result@.to_multiset().add(kept@.to_multiset()) =~= orig.filter(
            project_bundle_pred(name@),
        ).to_multiset());
    }
    while kept.len() > 0
        invariant
            result@.to_multiset().add(kept@.to_multiset()) == orig.filter(
                project_bundle_pred(name@),
            ).to_multiset(),
            sorted_desc_by_time(result@),
        decreases kept@.len(),
    {
        let ghost kept_before = kept@;
        let x = kept.pop().unwrap();
        proof {
            assert(kept_before =~= kept@.push(x));
            to_multiset_build::<Snapshot>(kept@, x);
            assert(kept_before.to_multiset() =~= kept@.to_multiset().insert(x));
        }
        let mut idx: usize = 0;
        while idx < result.len() && result[idx].time >= x.time
            invariant
                idx <= result@.len(),
                forall|k: int| 0 <= k < idx ==> result@[k].time >= x.time,
            decreases result@.len() - idx,
        {
            idx += 1;
        }
        let ghost result_before = result@;
        result.insert(idx, x);
        proof {
            assert(result@ == result_before.insert(idx as int, x));
            to_multiset_insert::<Snapshot>(result_before, idx as int, x);
            assert(result@.to_multiset() == result_before.to_multiset().insert(x));
            assert(result@.to_multiset().add(kept@.to_multiset()) =~= result_before.to_multiset()
                .insert(x).add(kept@.to_multiset()));
            assert forall|i: int, j: int| 0 <= i < j < result@.len() implies result@[i].time
                >= result@[j].time by {
                if j < idx {
                    assert(result@[i] == result_before[i] && result@[j] == result_before[j]);
                } else if i > idx {
                    assert(result@[i] == result_before[i - 1] && result@[j] == result_before[j - 1]);
                } else if i == idx {
                    assert(result@[i] == x && result@[j] == result_before[j - 1]);
                    assert(result_before[idx as int].time < x.time);
                    assert(result_before[j - 1].time <= result_before[idx as int].time);
                } else if j == idx {
                    assert(result@[i] == result_before[i] && result@[j] == x);
                } else {
                    assert(result@[i] == result_before[i] && result@[j] == result_before[j - 1]);
                    assert(result_before[i].time >= x.time);
                    assert(result_before[idx as int].time < x.time);
                    assert(result_before[j - 1].time <= result_before[idx as int].time);
                }
            }
        }
    }
    proof {
        lemma_empty_to_multiset(kept@);
        assert(result@.to_multiset() =~= orig.filter(project_bundle_pred(name@)).to_multiset());
    }
    result
}


} // verus!

//! Restore reconciliation: the delta between a local uploads directory and a
//! target snapshot's listing. Stale local paths are computed as the exact
//! difference, deleted first, and the target listing is then written whole.

use vstd::prelude::*;
use vstd::set::Set;
use crate::strutil::{str_eq, views_of};

verus! {

/// Whether some element of `xs` equals `x`.
pub open spec fn contains_seq(xs: Seq<Seq<char>>, x: Seq<char>) -> bool {
    exists|i: int| 0 <= i < xs.len() && xs[i] == x
}

/// The set of paths a listing holds.
pub open spec fn path_set(xs: Seq<Seq<char>>) -> Set<Seq<char>> {
    Set::new(|p: Seq<char>| contains_seq(xs, p))
}

/// Exact membership of a path string.
pub fn contains_path(paths: &Vec<String>, x: &str) -> (r: bool)
    ensures
        r == contains_seq(views_of(paths@), x@),
{
    let ghost all = views_of(paths@);
    let mut i: usize = 0;
    while i < paths.len()
        invariant
            i <= paths@.len(),
            all == views_of(paths@),
            forall|j: int| 0 <= j < i ==> all[j] != x@,
        decreases paths@.len() - i,
    {
        proof {
            assert(all[i as int] == paths@[i as int]@);
        }
        if str_eq(paths[i].as_str(), x) {
            return true;
        }
        i += 1;
    }
    false
}

/// The paths present locally but absent from the target listing: exactly
/// those, each once. They are deleted before the restore so that stale files
/// never coexist with fresher ones mid-operation.
pub fn compute_deletions(local: &Vec<String>, remote: &Vec<String>) -> (r: Vec<String>)
    ensures
        forall|p: Seq<char>|
            #[trigger] contains_seq(views_of(r@), p) <==> (contains_seq(views_of(local@), p)
                && !contains_seq(views_of(remote@), p)),
        forall|i: int, j: int| 0 <= i < j < r@.len() ==> r@[i]@ != r@[j]@,
{
    let ghost local_views = views_of(local@);
    let ghost remote_views = views_of(remote@);
    let mut r: Vec<String> = Vec::new();
    let mut i: usize = 0;
    while i < local.len()
        invariant
            i <= local@.len(),
            local_views == views_of(local@),
            remote_views == views_of(remote@),
            forall|p: Seq<char>|
                #[trigger] contains_seq(views_of(r@), p) ==> ((exists|j: int|
                    0 <= j < i && local_views[j] == p) && !contains_seq(remote_views, p)),
            forall|j: int|
                0 <= j < i && !contains_seq(remote_views, #[trigger] local_views[j])
                    ==> contains_seq(views_of(r@), local_views[j]),
            forall|a: int, b: int| 0 <= a < b < r@.len() ==> r@[a]@ != r@[b]@,
        decreases local@.len() - i,
    {
        proof {
            assert(local_views[i as int] == local@[i as int]@);
        }
        if !contains_path(remote, local[i].as_str()) && !contains_path(&r, local[i].as_str()) {
            let ghost r_before = r@;
            r.push(local[i].clone());
            proof {
                assert(r@[r@.len() - 1] == local@[i as int]);
                assert(views_of(r@) =~~= views_of(r_before).push(local_views[i as int]));
                assert forall|p: Seq<char>| #[trigger]
                    contains_seq(views_of(r@), p) implies ((exists|j: int|
                    0 <= j < i + 1 && local_views[j] == p) && !contains_seq(
                    remote_views,
                    p,
                )) by {
                    let k = choose|k: int|
                        0 <= k < views_of(r@).len() && views_of(r@)[k] == p;
                    if k < views_of(r_before).len() {
                        assert(contains_seq(views_of(r_before), p));
                    } else {
                        assert(p == local_views[i as int]);
                    }
                }
                assert forall|j: int|
                    0 <= j < i + 1 && !contains_seq(
                        remote_views,
                        #[trigger] local_views[j],
                    ) implies contains_seq(views_of(r@), local_views[j]) by {
                    if j < i {
                        assert(contains_seq(views_of(r_before), local_views[j]));
                        let k = choose|k: int|
                            0 <= k < views_of(r_before).len() && views_of(r_before)[k]
                                == local_views[j];
                        assert(views_of(r@)[k] == local_views[j]);
                    } else {
                        assert(views_of(r@)[views_of(r@).len() - 1] == local_views[i as int]);
                    }
                }
                assert forall|a: int, b: int| 0 <= a < b < r@.len() implies r@[a]@ != r@[b]@ by {
                    if b < r@.len() - 1 {
                        assert(r@[a] == r_before[a] && r@[b] == r_before[b]);
                    } else {
                        assert(r@[b] == local@[i as int]);
                        assert(r@[a] == r_before[a]);
                        assert(!contains_seq(views_of(r_before), local_views[i as int]));
                        assert(views_of(r_before)[a] == r_before[a]@);
                        assert(views_of(r_before)[a] != local_views[i as int]);
                    }
                }
            }
        } else {
            proof {
                // either the path also exists remotely, or it was already
                // collected; the completeness clause extends to `i` either way
                assert forall|j: int|
                    0 <= j < i + 1 && !contains_seq(
                        remote_views,
                        #[trigger] local_views[j],
                    ) implies contains_seq(views_of(r@), local_views[j]) by {
                    if j == i {
                        assert(contains_seq(views_of(r@), local_views[i as int]));
                    }
                }
            }
        }
        i += 1;
    }
    proof {
        assert forall|p: Seq<char>| #[trigger]
            contains_seq(views_of(r@), p) <==> (contains_seq(local_views, p) && !contains_seq(
            remote_views,
            p,
        )) by {
            if contains_seq(local_views, p) && !contains_seq(remote_views, p) {
                let j = choose|j: int| 0 <= j < local_views.len() && local_views[j] == p;
                assert(contains_seq(views_of(r@), local_views[j]));
            }
        }
    }
    r
}

/// The computed deletions are exactly the set difference between the local
/// and target path sets.
pub proof fn lemma_deletions_are_difference(
    local: Seq<Seq<char>>,
    remote: Seq<Seq<char>>,
    deleted: Seq<Seq<char>>,
)
    requires
        forall|p: Seq<char>|
            #[trigger] contains_seq(deleted, p) <==> (contains_seq(local, p) && !contains_seq(
                remote,
                p,
            )),
    ensures
        path_set(deleted) == path_set(local).difference(path_set(remote)),
{
    assert(path_set(deleted) =~= path_set(local).difference(path_set(remote)));
}

/// Reconciliation reproduces the target exactly: after deleting the computed
/// stale paths and writing every path of the target listing, the local path
/// set equals the target listing's path set.
pub proof fn lemma_reconciliation_round_trip(
    local: Seq<Seq<char>>,
    remote: Seq<Seq<char>>,
    deleted: Seq<Seq<char>>,
)
    requires
        forall|p: Seq<char>|
            #[trigger] contains_seq(deleted, p) <==> (contains_seq(local, p) && !contains_seq(
                remote,
                p,
            )),
    ensures
        path_set(local).difference(path_set(deleted)).union(path_set(remote)) == path_set(remote),
{
    assert(path_set(local).difference(path_set(deleted)).union(path_set(remote)) =~= path_set(
        remote,
    ));
}

} // verus!

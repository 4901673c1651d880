//! Choosing the current generation of a deployment among its replica sets.

use crate::template::{canonical_option, has_canonical_form, remove_hash_option, template_view};
use crate::workload::{generation_of, templates_match, Deployment, ReplicaSet};
use vstd::prelude::*;

verus! {

/// The place of a creation time in the order of creation. An object
/// without a creation time comes before all that have one.
pub open spec fn creation_rank(created: Option<i128>) -> int {
    match created {
        Some(nanoseconds) => nanoseconds as int,
        None => i128::MIN - 1,
    }
}

/// Candidate `i` is not after candidate `j`: it was created earlier, or at
/// the same time and listed no later.
pub open spec fn not_after(candidates: Seq<ReplicaSet>, i: int, j: int) -> bool {
    let a = creation_rank(candidates[i].creation_timestamp);
    let b = creation_rank(candidates[j].creation_timestamp);
    a < b || (a == b && i <= j)
}

/// The candidate is controlled by the deployment and has the deployment's
/// template, the generated label apart.
pub open spec fn eligible(deployment: Deployment, candidate: ReplicaSet) -> bool {
    generation_of(candidate, deployment) && templates_match(candidate, deployment)
}

/// Candidate `i` is the current generation of the deployment: it is
/// eligible, and no eligible candidate comes before it.
pub open spec fn is_current_generation(
    deployment: Deployment,
    candidates: Seq<ReplicaSet>,
    i: int,
) -> bool {
    &&& 0 <= i < candidates.len()
    &&& eligible(deployment, candidates[i])
    &&& forall|j: int|
        0 <= j < candidates.len() && eligible(deployment, #[trigger] candidates[j]) ==> not_after(
            candidates,
            i,
            j,
        )
}

/// The position of the deployment's current generation, where it has one.
pub open spec fn current_generation(deployment: Deployment, candidates: Seq<ReplicaSet>) -> Option<
    int,
> {
    if exists|i: int| is_current_generation(deployment, candidates, i) {
        Some(choose|i: int| is_current_generation(deployment, candidates, i))
    } else {
        None
    }
}

/// No candidate is eligible.
pub open spec fn no_current_generation(deployment: Deployment, candidates: Seq<ReplicaSet>) -> bool {
    forall|j: int| 0 <= j < candidates.len() ==> !eligible(deployment, #[trigger] candidates[j])
}

/// A deployment has at most one current generation.
pub proof fn lemma_current_generation_unique(
    deployment: Deployment,
    candidates: Seq<ReplicaSet>,
    i: int,
    j: int,
)
    requires
        is_current_generation(deployment, candidates, i),
        is_current_generation(deployment, candidates, j),
    ensures
        i == j,
{
    assert(not_after(candidates, i, j));
    assert(not_after(candidates, j, i));
}

/// Among the eligible candidates the current generation is the one that
/// was created first; where several were created at that time, it is the
/// one listed first.
pub proof fn lemma_current_generation_is_earliest(
    deployment: Deployment,
    candidates: Seq<ReplicaSet>,
    i: int,
    j: int,
)
    requires
        is_current_generation(deployment, candidates, i),
        0 <= j < candidates.len(),
        eligible(deployment, candidates[j]),
    ensures
        creation_rank(candidates[i].creation_timestamp) <= creation_rank(
            candidates[j].creation_timestamp,
        ),
        creation_rank(candidates[i].creation_timestamp) == creation_rank(
            candidates[j].creation_timestamp,
        ) ==> i <= j,
{
    assert(not_after(candidates, i, j));
}

/// Whether `a` was created no later than `b`.
fn created_no_later(a: &Option<i128>, b: &Option<i128>) -> (no_later: bool)
    ensures
        no_later == (creation_rank(*a) <= creation_rank(*b)),
{
    match (a, b) {
        (Some(a), Some(b)) => *a <= *b,
        (None, _) => true,
        (Some(_), None) => false,
    }
}

/// The positions in `picked` are positions of candidates, in rising order.
pub open spec fn rising_positions(candidates: Seq<ReplicaSet>, picked: Seq<usize>) -> bool {
    &&& forall|a: int| 0 <= a < picked.len() ==> (#[trigger] picked[a]) < candidates.len()
    &&& forall|a: int, b: int| 0 <= a < b < picked.len() ==> picked[a] < picked[b]
}

/// The positions of the candidates that the deployment controls, in the
/// order of the listing.
pub fn controlled_candidates(deployment: &Deployment, candidates: &Vec<ReplicaSet>) -> (picked:
    Vec<usize>)
    ensures
        rising_positions(candidates@, picked@),
        forall|a: int|
            0 <= a < picked.len() ==> generation_of(
                candidates[(#[trigger] picked[a]) as int],
                *deployment,
            ),
        forall|i: int|
            0 <= i < candidates.len() && generation_of(#[trigger] candidates[i], *deployment)
                ==> picked@.contains(i as usize),
{
    let mut picked: Vec<usize> = Vec::new();
    let mut i: usize = 0;
    while i < candidates.len()
        invariant
            i <= candidates.len(),
            rising_positions(candidates@, picked@),
            forall|a: int| 0 <= a < picked.len() ==> (#[trigger] picked[a]) < i,
            forall|a: int|
                0 <= a < picked.len() ==> generation_of(
                    candidates[(#[trigger] picked[a]) as int],
                    *deployment,
                ),
            forall|k: int|
                0 <= k < i && generation_of(#[trigger] candidates[k], *deployment)
                    ==> picked@.contains(k as usize),
        decreases candidates.len() - i,
    {
        if candidates[i].is_controlled_by(deployment) {
            let ghost before = picked@;
            picked.push(i);
            proof {
                assert forall|k: int|
                    0 <= k < i + 1 && generation_of(
                        #[trigger] candidates[k],
                        *deployment,
                    ) implies picked@.contains(k as usize) by {
                    if k < i {
                        assert(before.contains(k as usize));
                        let a = choose|a: int| 0 <= a < before.len() && before[a] == k as usize;
                        assert(picked@[a] == k as usize);
                    } else {
                        assert(picked@[picked.len() - 1] == i);
                    }
                }
            }
        }
        i += 1;
    }
    picked
}

/// The positions are in the order of creation: each is not after those
/// that follow it, and none occurs twice.
pub open spec fn in_creation_order(candidates: Seq<ReplicaSet>, sorted: Seq<usize>) -> bool {
    forall|a: int, b: int|
        #![trigger sorted[a], sorted[b]]
        0 <= a < b < sorted.len() ==> sorted[a] != sorted[b] && not_after(
            candidates,
            sorted[a] as int,
            sorted[b] as int,
        )
}

/// One of the first `n` picked positions is `position`.
spec fn among_first(picked: Seq<usize>, n: int, position: usize) -> bool {
    exists|k: int| 0 <= k < n && #[trigger] picked[k] == position
}

/// Putting a position in at the right place keeps the order of creation.
proof fn lemma_insert_keeps_order(
    candidates: Seq<ReplicaSet>,
    before: Seq<usize>,
    at: int,
    next: usize,
)
    requires
        in_creation_order(candidates, before),
        0 <= at <= before.len(),
        forall|a: int| 0 <= a < before.len() ==> (#[trigger] before[a]) < next,
        forall|a: int|
            0 <= a < at ==> creation_rank(
                candidates[(#[trigger] before[a]) as int].creation_timestamp,
            ) <= creation_rank(candidates[next as int].creation_timestamp),
        at < before.len() ==> creation_rank(candidates[before[at] as int].creation_timestamp)
            > creation_rank(candidates[next as int].creation_timestamp),
    ensures
        in_creation_order(candidates, before.insert(at, next)),
{
    let after = before.insert(at, next);
    assert forall|a: int, b: int| 0 <= a < b < after.len() implies after[a] != after[b]
        && not_after(candidates, after[a] as int, after[b] as int) by {
        if a == at {
            let b0 = b - 1;
            assert(after[a] == next);
            assert(after[b] == before[b0]);
            assert(before[b0] < next);
            if b0 > at {
                assert(before[at] != before[b0] && not_after(
                    candidates,
                    before[at] as int,
                    before[b0] as int,
                ));
            }
        } else if b == at {
            assert(after[a] == before[a]);
            assert(after[b] == next);
            assert(before[a] < next);
        } else {
            let a0 = if a < at { a } else { a - 1 };
            let b0 = if b < at { b } else { b - 1 };
            assert(after[a] == before[a0]);
            assert(after[b] == before[b0]);
            assert(before[a0] != before[b0] && not_after(
                candidates,
                before[a0] as int,
                before[b0] as int,
            ));
        }
    }
}

/// Putting the next picked position in keeps the sorted positions the same
/// as the picked ones.
proof fn lemma_insert_keeps_members(picked: Seq<usize>, n: int, before: Seq<usize>, at: int)
    requires
        0 <= n < picked.len(),
        0 <= at <= before.len(),
        forall|a: int| 0 <= a < before.len() ==> among_first(picked, n, #[trigger] before[a]),
        forall|k: int| 0 <= k < n ==> before.contains(#[trigger] picked[k]),
    ensures
        forall|a: int|
            0 <= a < before.len() + 1 ==> among_first(
                picked,
                n + 1,
                #[trigger] before.insert(at, picked[n])[a],
            ),
        forall|k: int| 0 <= k < n + 1 ==> before.insert(at, picked[n]).contains(#[trigger] picked[k]),
{
    let after = before.insert(at, picked[n]);
    assert forall|a: int| 0 <= a < before.len() + 1 implies among_first(
        picked,
        n + 1,
        #[trigger] after[a],
    ) by {
        if a == at {
            assert(picked[n] == after[a]);
        } else {
            let a0 = if a < at { a } else { a - 1 };
            assert(after[a] == before[a0]);
            assert(among_first(picked, n, before[a0]));
            let k = choose|k: int| 0 <= k < n && #[trigger] picked[k] == before[a0];
            assert(picked[k] == after[a]);
        }
    }
    assert forall|k: int| 0 <= k < n + 1 implies after.contains(#[trigger] picked[k]) by {
        if k == n {
            assert(after[at] == picked[k]);
        } else {
            assert(before.contains(picked[k]));
            let a0 = choose|a0: int| 0 <= a0 < before.len() && before[a0] == picked[k];
            let a = if a0 < at { a0 } else { a0 + 1 };
            assert(after[a] == picked[k]);
        }
    }
}

/// Where to put a candidate that was created at `created` among the sorted
/// positions: behind all that were created no later.
fn place_by_creation(candidates: &Vec<ReplicaSet>, sorted: &Vec<usize>, created: &Option<i128>) -> (at:
    usize)
    requires
        forall|a: int| 0 <= a < sorted.len() ==> (#[trigger] sorted[a]) < candidates.len(),
    ensures
        at <= sorted.len(),
        forall|a: int|
            0 <= a < at ==> creation_rank(
                candidates[(#[trigger] sorted[a]) as int].creation_timestamp,
            ) <= creation_rank(*created),
        at < sorted.len() ==> creation_rank(candidates[sorted[at as int] as int].creation_timestamp)
            > creation_rank(*created),
{
    let mut at: usize = 0;
    while at < sorted.len()
        invariant
            at <= sorted.len(),
            forall|a: int| 0 <= a < sorted.len() ==> (#[trigger] sorted[a]) < candidates.len(),
            forall|a: int|
                0 <= a < at ==> creation_rank(
                    candidates[(#[trigger] sorted[a]) as int].creation_timestamp,
                ) <= creation_rank(*created),
        decreases sorted.len() - at,
    {
        if !created_no_later(&candidates[sorted[at]].creation_timestamp, created) {
            return at;
        }
        at += 1;
    }
    at
}

/// The picked positions, sorted by the time of creation. Candidates that
/// were created at the same time keep the order of the listing.
pub fn sort_by_creation(candidates: &Vec<ReplicaSet>, picked: &Vec<usize>) -> (sorted: Vec<usize>)
    requires
        rising_positions(candidates@, picked@),
    ensures
        sorted.len() == picked.len(),
        in_creation_order(candidates@, sorted@),
        forall|a: int| 0 <= a < sorted.len() ==> picked@.contains(#[trigger] sorted[a]),
        forall|a: int| 0 <= a < picked.len() ==> sorted@.contains(#[trigger] picked[a]),
{
    let mut sorted: Vec<usize> = Vec::new();
    let mut n: usize = 0;
    while n < picked.len()
        invariant
            n <= picked.len(),
            sorted.len() == n,
            rising_positions(candidates@, picked@),
            in_creation_order(candidates@, sorted@),
            forall|a: int| 0 <= a < sorted.len() ==> among_first(picked@, n as int, #[trigger] sorted[a]),
            forall|k: int| 0 <= k < n ==> sorted@.contains(#[trigger] picked[k]),
        decreases picked.len() - n,
    {
        let next = picked[n];
        proof {
            assert forall|a: int| 0 <= a < sorted.len() implies (#[trigger] sorted[a]) < next by {
                assert(among_first(picked@, n as int, sorted[a]));
                let k = choose|k: int| 0 <= k < n && #[trigger] picked[k] == sorted[a];
                assert(picked[k] < picked[n as int]);
            }
        }
        let at = place_by_creation(candidates, &sorted, &candidates[next].creation_timestamp);
        proof {
            lemma_insert_keeps_order(candidates@, sorted@, at as int, next);
            lemma_insert_keeps_members(picked@, n as int, sorted@, at as int);
        }
        sorted.insert(at, next);
        n += 1;
    }
    proof {
        assert forall|a: int| 0 <= a < sorted.len() implies picked@.contains(
            #[trigger] sorted[a],
        ) by {
            assert(among_first(picked@, n as int, sorted[a]));
            let k = choose|k: int| 0 <= k < n && #[trigger] picked[k] == sorted[a];
            assert(picked@[k] == sorted[a]);
        }
    }
    sorted
}

/// The position of the deployment's current generation among the
/// candidates: of those that the deployment controls, in the order of
/// creation, the first whose template is the deployment's, the generated
/// label apart. There may be none.
pub fn select_current_generation(deployment: &Deployment, candidates: &Vec<ReplicaSet>) -> (current:
    Option<usize>)
    ensures
        match current {
            Some(i) => is_current_generation(*deployment, candidates@, i as int)
                && current_generation(*deployment, candidates@) == Some(i as int),
            None => no_current_generation(*deployment, candidates@) && current_generation(
                *deployment,
                candidates@,
            ) is None,
        },
        candidates.len() == 0 ==> current is None,
{
    let current = find_current_generation(deployment, candidates);
    proof {
        match current {
            Some(i) => {
                let chosen = choose|j: int| is_current_generation(*deployment, candidates@, j);
                lemma_current_generation_unique(*deployment, candidates@, i as int, chosen);
            },
            None => {},
        }
    }
    current
}

/// The search behind `select_current_generation`.
fn find_current_generation(deployment: &Deployment, candidates: &Vec<ReplicaSet>) -> (current:
    Option<usize>)
    ensures
        match current {
            Some(i) => is_current_generation(*deployment, candidates@, i as int),
            None => no_current_generation(*deployment, candidates@),
        },
{
    let picked = controlled_candidates(deployment, candidates);
    let sorted = sort_by_creation(candidates, &picked);
    let wanted = remove_hash_option(&deployment.template);
    let mut at: usize = 0;
    while at < sorted.len()
        invariant
            at <= sorted.len(),
            forall|a: int| 0 <= a < sorted.len() ==> picked@.contains(#[trigger] sorted[a]),
            rising_positions(candidates@, picked@),
            in_creation_order(candidates@, sorted@),
            forall|a: int| 0 <= a < picked.len() ==> sorted@.contains(#[trigger] picked[a]),
            forall|a: int|
                0 <= a < picked.len() ==> generation_of(
                    candidates[(#[trigger] picked[a]) as int],
                    *deployment,
                ),
            forall|i: int|
                0 <= i < candidates.len() && generation_of(#[trigger] candidates[i], *deployment)
                    ==> picked@.contains(i as usize),
            template_view(wanted) == canonical_option(template_view(deployment.template)),
            forall|a: int|
                0 <= a < at ==> !templates_match(
                    candidates[(#[trigger] sorted[a]) as int],
                    *deployment,
                ),
        decreases sorted.len() - at,
    {
        let i = sorted[at];
        assert(picked@.contains(sorted[at as int]));
        if has_canonical_form(&candidates[i].template, &wanted) {
            proof {
                assert forall|j: int|
                    0 <= j < candidates.len() && eligible(
                        *deployment,
                        #[trigger] candidates[j],
                    ) implies not_after(candidates@, i as int, j) by {
                    assert(picked@.contains(j as usize));
                    let p = choose|p: int| 0 <= p < picked.len() && picked[p] == j as usize;
                    assert(sorted@.contains(picked[p]));
                    let b = choose|b: int| 0 <= b < sorted.len() && sorted[b] == j as usize;
                    if b < at {
                        assert(!templates_match(candidates[sorted[b] as int], *deployment));
                    }
                }
            }
            return Some(i);
        }
        at += 1;
    }
    proof {
        assert forall|j: int| 0 <= j < candidates.len() implies !eligible(
            *deployment,
            #[trigger] candidates[j],
        ) by {
            if generation_of(candidates[j], *deployment) {
                assert(picked@.contains(j as usize));
                let p = choose|p: int| 0 <= p < picked.len() && picked[p] == j as usize;
                assert(sorted@.contains(picked[p]));
                let b = choose|b: int| 0 <= b < sorted.len() && sorted[b] == j as usize;
                assert(!templates_match(candidates[sorted[b] as int], *deployment));
            }
        }
    }
    None
}

} // verus!

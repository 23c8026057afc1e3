//! The order in which bones are evaluated: every parent before its children.

use vstd::prelude::*;
use crate::skeleton::error::{ErrorView, SkeletonError};

verus! {

/// The parents form a hierarchy: every parent is one of the bones, and some
/// ranking of the bones puts every parent below its children. A cycle, or a
/// parent outside the bones, leaves no such ranking.
pub open spec fn spec_hierarchy(parents: Seq<Option<usize>>) -> bool {
    exists|rank: Seq<nat>| spec_ranked(parents, rank)
}

/// `rank` puts every parent below its children.
pub open spec fn spec_ranked(parents: Seq<Option<usize>>, rank: Seq<nat>) -> bool {
    &&& rank.len() == parents.len()
    &&& forall|i: int|
        0 <= i < parents.len() ==> (#[trigger] parents[i] matches Some(p) ==> p < parents.len()
            && rank[p as int] < rank[i])
}

/// `order` lists every bone once, and every bone after its parent.
pub open spec fn spec_is_order(parents: Seq<Option<usize>>, order: Seq<usize>) -> bool {
    &&& order.len() == parents.len()
    &&& forall|k: int| 0 <= k < order.len() ==> (#[trigger] order[k]) < parents.len()
    &&& forall|j: int, k: int| 0 <= j < k < order.len() ==> order[j] != order[k]
    &&& forall|k: int|
        0 <= k < order.len() ==> (parents[(#[trigger] order[k]) as int] matches Some(p)
            ==> spec_listed(order, p as int, k))
}

/// `bone` is among the first `k` elements of `order`.
pub open spec fn spec_listed(order: Seq<usize>, bone: int, k: int) -> bool {
    exists|j: int| 0 <= j < k && j < order.len() && #[trigger] order[j] == bone
}

/// Every parent is declared before its children.
pub open spec fn spec_parents_first(parents: Seq<Option<usize>>) -> bool {
    forall|i: int| 0 <= i < parents.len() ==> (#[trigger] parents[i] matches Some(p) ==> p < i)
}

/// The bones in the order of their declaration.
pub open spec fn spec_declared(n: nat) -> Seq<usize> {
    Seq::new(n, |i: int| i as usize)
}

/// A bone can be placed: it has not been placed, and it has no parent or its
/// parent has been placed.
pub open spec fn spec_ready(parents: Seq<Option<usize>>, placed: Seq<bool>, i: int) -> bool {
    !placed[i] && match parents[i] {
        None => true,
        Some(p) => p < parents.len() && placed[p as int],
    }
}

/// One scan of the bones from bone `i` on: every bone that can be placed
/// when the scan comes to it is placed and added to the order.
pub open spec fn spec_scan(
    parents: Seq<Option<usize>>,
    placed: Seq<bool>,
    order: Seq<usize>,
    i: int,
) -> (Seq<bool>, Seq<usize>)
    decreases parents.len() - i,
{
    if i < 0 || i >= parents.len() {
        (placed, order)
    } else if spec_ready(parents, placed, i) {
        spec_scan(parents, placed.update(i, true), order.push(i as usize), i + 1)
    } else {
        spec_scan(parents, placed, order, i + 1)
    }
}

/// At most `scans` scans of the bones, one after the other, until every bone
/// is placed. `None` where a scan places nothing while bones are left.
pub open spec fn spec_scans(
    parents: Seq<Option<usize>>,
    placed: Seq<bool>,
    order: Seq<usize>,
    scans: nat,
) -> Option<Seq<usize>>
    decreases scans,
{
    if order.len() >= parents.len() {
        Some(order)
    } else if scans == 0 {
        None
    } else {
        let after = spec_scan(parents, placed, order, 0);
        if after.1.len() == order.len() {
            None
        } else {
            spec_scans(parents, after.0, after.1, (scans - 1) as nat)
        }
    }
}

/// The order in which repeated scans place the bones, or `None` where a
/// scan places nothing while bones are left.
pub open spec fn spec_order(parents: Seq<Option<usize>>) -> Option<Seq<usize>> {
    spec_scans(parents, Seq::new(parents.len(), |i: int| false), Seq::empty(), parents.len())
}

/// The number of bones that have been placed.
pub open spec fn spec_count(placed: Seq<bool>) -> nat
    decreases placed.len(),
{
    if placed.len() == 0 {
        0
    } else {
        spec_count(placed.drop_last()) + if placed.last() {
            1nat
        } else {
            0nat
        }
    }
}

proof fn lemma_count_bound(placed: Seq<bool>)
    ensures
        spec_count(placed) <= placed.len(),
        spec_count(placed) == placed.len() ==> forall|i: int| 0 <= i < placed.len() ==> placed[i],
        spec_count(placed) < placed.len() ==> exists|i: int| 0 <= i < placed.len() && !placed[i],
    decreases placed.len(),
{
    if placed.len() > 0 {
        lemma_count_bound(placed.drop_last());
        if spec_count(placed) == placed.len() {
            assert forall|i: int| 0 <= i < placed.len() implies placed[i] by {
                if i < placed.len() - 1 {
                    assert(placed.drop_last()[i] == placed[i]);
                }
            }
        } else {
            if !placed.last() {
                assert(!placed[placed.len() - 1]);
            } else {
                let i = choose|i: int| 0 <= i < placed.len() - 1 && !placed.drop_last()[i];
                assert(!placed[i]);
            }
        }
    }
}

proof fn lemma_count_place(placed: Seq<bool>, i: int)
    requires
        0 <= i < placed.len(),
        !placed[i],
    ensures
        spec_count(placed.update(i, true)) == spec_count(placed) + 1,
    decreases placed.len(),
{
    let after = placed.update(i, true);
    if i == placed.len() - 1 {
        assert(after.drop_last() =~= placed.drop_last());
    } else {
        lemma_count_place(placed.drop_last(), i);
        assert(after.drop_last() =~= placed.drop_last().update(i, true));
    }
}

proof fn lemma_count_none(placed: Seq<bool>)
    requires
        forall|i: int| 0 <= i < placed.len() ==> !placed[i],
    ensures
        spec_count(placed) == 0,
    decreases placed.len(),
{
    if placed.len() > 0 {
        assert forall|i: int| 0 <= i < placed.drop_last().len() implies !placed.drop_last()[i] by {
            assert(placed.drop_last()[i] == placed[i]);
        }
        lemma_count_none(placed.drop_last());
    }
}

/// A bone cannot be placed: its parent is outside the bones or has not been placed.
pub open spec fn spec_blocked(parents: Seq<Option<usize>>, placed: Seq<bool>, i: int) -> bool {
    parents[i] matches Some(p) && (p >= parents.len() || !placed[p as int])
}

/// Where every bone that is not placed is blocked, no ranking of the bones exists.
proof fn lemma_stuck(parents: Seq<Option<usize>>, placed: Seq<bool>, rank: Seq<nat>, i: int)
    requires
        placed.len() == parents.len(),
        0 <= i < parents.len(),
        !placed[i],
        forall|j: int|
            0 <= j < parents.len() && !placed[j] ==> #[trigger] spec_blocked(parents, placed, j),
    ensures
        !spec_ranked(parents, rank),
    decreases rank[i],
{
    if spec_ranked(parents, rank) {
        assert(spec_blocked(parents, placed, i));
        let p = parents[i]->Some_0;
        lemma_stuck(parents, placed, rank, p as int);
    }
}

/// The place of a bone in an order that lists it.
pub open spec fn spec_place(order: Seq<usize>, bone: int) -> nat {
    choose|k: nat| k < order.len() && order[k as int] == bone
}

/// An order that lists every bone once, each after its parent, is a ranking.
proof fn lemma_order_ranks(parents: Seq<Option<usize>>, order: Seq<usize>, placed: Seq<bool>)
    requires
        spec_is_order(parents, order),
        placed.len() == parents.len(),
        forall|i: int| 0 <= i < placed.len() ==> placed[i],
        forall|i: int|
            0 <= i < placed.len() ==> (placed[i] <==> spec_listed(order, i, order.len() as int)),
    ensures
        spec_hierarchy(parents),
{
    let rank = Seq::new(parents.len(), |i: int| spec_place(order, i));
    assert forall|i: int| 0 <= i < parents.len() implies (#[trigger] parents[i] matches Some(p)
        ==> p < parents.len() && rank[p as int] < rank[i]) by {
        if let Some(p) = parents[i] {
            assert(placed[i]);
            assert(spec_listed(order, i, order.len() as int));
            let k0 = choose|j: int| 0 <= j < order.len() && j < order.len() && #[trigger] order[j] == i;
            assert((k0 as nat) < order.len() && order[(k0 as nat) as int] == i);
            let k = spec_place(order, i);
            assert(k < order.len() && order[k as int] == i);
            assert(spec_listed(order, p as int, k as int));
            let j = choose|j: int| 0 <= j < k && j < order.len() && #[trigger] order[j] == p;
            assert(p < parents.len());
            assert((j as nat) < order.len() && order[(j as nat) as int] == p);
            let jp = spec_place(order, p as int);
            assert(jp < order.len() && order[jp as int] == p);
            if jp != j {
                if jp < j {
                    assert(order[jp as int] != order[j]);
                } else {
                    assert(order[j] != order[jp as int]);
                }
            }
        }
    }
    assert(spec_ranked(parents, rank));
}

/// The bones in their declared order are a ranking where every parent is declared first.
proof fn lemma_parents_first_ranks(parents: Seq<Option<usize>>)
    requires
        spec_parents_first(parents),
    ensures
        spec_hierarchy(parents),
{
    let rank = Seq::new(parents.len(), |i: int| i as nat);
    assert(spec_ranked(parents, rank));
}

/// Orders the bones so that every bone comes after its parent: the bones are
/// scanned again and again, and a bone is placed as soon as it has no parent
/// or its parent has been placed. A scan that places nothing while bones are
/// left shows a cycle, or a parent that is no bone.
///
/// Where every parent is declared before its children, the order is the
/// order of declaration.
pub fn topological_order(parents: &Vec<Option<usize>>) -> (r: Result<Vec<usize>, SkeletonError>)
    ensures
        match r {
            Ok(order) => spec_order(parents@) == Some(order@),
            Err(e) => spec_order(parents@) is None && e@ == ErrorView::CyclicHierarchy,
        },
        r is Ok <==> spec_hierarchy(parents@),
        r matches Ok(order) ==> spec_is_order(parents@, order@),
        spec_parents_first(parents@) ==> (r matches Ok(order) && order@ == spec_declared(
            parents@.len(),
        )),
{
    let n = parents.len();
    let mut placed: Vec<bool> = Vec::with_capacity(n);
    let mut i: usize = 0;
    while i < n
        invariant
            i <= n,
            placed@.len() == i,
            forall|j: int| 0 <= j < i ==> !placed@[j],
        decreases n - i,
    {
        placed.push(false);
        i += 1;
    }
    proof {
        lemma_count_none(placed@);
        if spec_parents_first(parents@) {
            lemma_parents_first_ranks(parents@);
        }
    }
    let mut order: Vec<usize> = Vec::with_capacity(n);
    let ghost mut first = true;
    let ghost mut scans: nat = n as nat;
    assert(placed@ =~= Seq::new(parents@.len(), |i: int| false));
    while order.len() < n
        invariant
            n == parents@.len(),
            placed@.len() == n,
            scans + order@.len() >= n,
            spec_scans(parents@, placed@, order@, scans) == spec_order(parents@),
            order@.len() == spec_count(placed@),
            order@.len() <= n,
            forall|k: int| 0 <= k < order@.len() ==> (#[trigger] order@[k]) < n,
            forall|j: int, k: int| 0 <= j < k < order@.len() ==> order@[j] != order@[k],
            forall|k: int|
                0 <= k < order@.len() ==> (parents@[(#[trigger] order@[k]) as int] matches Some(p)
                    ==> spec_listed(order@, p as int, k)),
            forall|b: int|
                0 <= b < n ==> (placed@[b] <==> spec_listed(order@, b, order@.len() as int)),
            first ==> order@.len() == 0,
            !first && spec_parents_first(parents@) ==> order@ == spec_declared(n as nat),
        decreases n - order@.len(),
    {
        let ghost before = order@.len();
        let ghost placed_before = placed@;
        let ghost order_before = order@;
        let mut progress = false;
        let mut i: usize = 0;
        while i < n
            invariant
                i <= n,
                n == parents@.len(),
                placed@.len() == n,
                spec_scan(parents@, placed@, order@, i as int) == spec_scan(
                    parents@,
                    placed_before,
                    order_before,
                    0,
                ),
                order@.len() == spec_count(placed@),
                order@.len() <= n,
                before <= order@.len(),
                progress <==> before < order@.len(),
                forall|k: int| 0 <= k < order@.len() ==> (#[trigger] order@[k]) < n,
                forall|j: int, k: int| 0 <= j < k < order@.len() ==> order@[j] != order@[k],
                forall|k: int|
                    0 <= k < order@.len() ==> (parents@[(#[trigger] order@[k]) as int] matches Some(
                        p,
                    ) ==> spec_listed(order@, p as int, k)),
                forall|b: int|
                    0 <= b < n ==> (placed@[b] <==> spec_listed(order@, b, order@.len() as int)),
                !progress ==> forall|j: int|
                    0 <= j < i && !placed@[j] ==> #[trigger] spec_blocked(parents@, placed@, j),
                first && spec_parents_first(parents@) ==> order@ == spec_declared(i as nat),
            decreases n - i,
        {
            let ready = !placed[i] && match parents[i] {
                None => true,
                Some(p) => p < n && placed[p],
            };
            if ready {
                proof {
                    lemma_count_place(placed@, i as int);
                    lemma_count_bound(placed@.update(i as int, true));
                }
                let ghost old_order = order@;
                let ghost old_placed = placed@;
                placed.set(i, true);
                order.push(i);
                progress = true;
                proof {
                    let k_new = old_order.len() as int;
                    assert forall|b: int| 0 <= b < n implies (placed@[b] <==> spec_listed(order@, b, order@.len() as int)) by {
                        if b == i {
                            assert(order@[k_new] == i);
                        } else if old_placed[b] {
                            let j = choose|j: int|
                                0 <= j < old_order.len() && j < old_order.len()
                                    && #[trigger] old_order[j] == b;
                            assert(order@[j] == b);
                        } else {
                            if spec_listed(order@, b, order@.len() as int) {
                                let j = choose|j: int|
                                    0 <= j < order@.len() && j < order@.len() && #[trigger] order@[j]
                                        == b;
                                assert(j < old_order.len());
                                assert(old_order[j] == b);
                                assert(spec_listed(old_order, b, old_order.len() as int));
                            }
                        }
                    }
                    assert forall|j: int, k: int| 0 <= j < k < order@.len() implies order@[j]
                        != order@[k] by {
                        if k == k_new {
                            assert(old_order[j] == order@[j]);
                            if order@[j] == i {
                                assert(spec_listed(old_order, i as int, old_order.len() as int));
                            }
                        } else {
                            assert(old_order[j] == order@[j] && old_order[k] == order@[k]);
                        }
                    }
                    assert forall|k: int| 0 <= k < order@.len() implies (parents@[(
                    #[trigger] order@[k]) as int] matches Some(p) ==> spec_listed(order@, p as int, k)) by {
                        if let Some(p) = parents@[order@[k] as int] {
                            if k == k_new {
                                assert(old_placed[p as int]);
                                let j = choose|j: int|
                                    0 <= j < old_order.len() && j < old_order.len()
                                        && #[trigger] old_order[j] == p;
                                assert(order@[j] == p);
                            } else {
                                assert(old_order[k] == order@[k]);
                                let j = choose|j: int|
                                    0 <= j < k && j < old_order.len() && #[trigger] old_order[j]
                                        == p;
                                assert(order@[j] == p);
                            }
                        }
                    }
                    if first && spec_parents_first(parents@) {
                        assert(order@ =~= spec_declared((i + 1) as nat));
                    }
                }
            } else {
                proof {
                    if first && spec_parents_first(parents@) {
                        // Every earlier bone is placed, so this bone is ready.
                        assert(order@ == spec_declared(i as nat));
                        if placed@[i as int] {
                            let j = choose|j: int|
                                0 <= j < order@.len() && j < order@.len() && #[trigger] order@[j]
                                    == i;
                            assert(false);
                        }
                        if let Some(p) = parents@[i as int] {
                            assert(p < i);
                            assert(order@[p as int] == p);
                            assert(spec_listed(order@, p as int, order@.len() as int));
                        }
                        assert(false);
                    }
                }
            }
            i += 1;
        }
        if !progress {
            proof {
                lemma_count_bound(placed@);
                let stuck = choose|b: int| 0 <= b < n && !placed@[b];
                assert forall|rank: Seq<nat>| !spec_ranked(parents@, rank) by {
                    lemma_stuck(parents@, placed@, rank, stuck);
                }
                if spec_parents_first(parents@) {
                    lemma_parents_first_ranks(parents@);
                }
            }
            return Err(SkeletonError::CyclicHierarchy);
        }
        proof {
            first = false;
            scans = (scans - 1) as nat;
        }
    }
    proof {
        lemma_count_bound(placed@);
        lemma_order_ranks(parents@, order@, placed@);
        if spec_parents_first(parents@) && first {
            assert(order@ =~= spec_declared(n as nat));
        }
    }
    Ok(order)
}

/// A list of `n` different bones, each below `n`, lists every bone below `n`.
pub proof fn lemma_lists_all(order: Seq<usize>, n: nat)
    requires
        order.len() == n,
        forall|k: int| 0 <= k < order.len() ==> (#[trigger] order[k]) < n,
        forall|j: int, k: int| 0 <= j < k < order.len() ==> order[j] != order[k],
    ensures
        forall|b: int| 0 <= b < n ==> spec_listed(order, b, n as int),
    decreases n,
{
    if n > 0 {
        let top = (n - 1) as int;
        if exists|k: int| 0 <= k < n && order[k] == top {
            let k = choose|k: int| 0 <= k < n && order[k] == top;
            let rest = order.remove(k);
            assert forall|a: int| 0 <= a < rest.len() implies (#[trigger] rest[a]) < (n - 1) as nat by {
                if a < k {
                    assert(rest[a] == order[a]);
                } else {
                    assert(rest[a] == order[a + 1]);
                }
            }
            assert forall|a: int, c: int| 0 <= a < c < rest.len() implies rest[a] != rest[c] by {
                let a2 = if a < k {
                    a
                } else {
                    a + 1
                };
                let c2 = if c < k {
                    c
                } else {
                    c + 1
                };
                assert(rest[a] == order[a2] && rest[c] == order[c2]);
            }
            lemma_lists_all(rest, (n - 1) as nat);
            assert forall|b: int| 0 <= b < n implies spec_listed(order, b, n as int) by {
                if b == top {
                    assert(order[k] == b);
                } else {
                    assert(spec_listed(rest, b, n - 1));
                    let a = choose|a: int| 0 <= a < n - 1 && a < rest.len() && #[trigger] rest[a] == b;
                    if a < k {
                        assert(order[a] == b);
                    } else {
                        assert(order[a + 1] == b);
                    }
                }
            }
        } else {
            let rest = order.drop_last();
            assert forall|a: int| 0 <= a < rest.len() implies (#[trigger] rest[a]) < (n - 1) as nat by {
                assert(rest[a] == order[a]);
            }
            assert forall|a: int, c: int| 0 <= a < c < rest.len() implies rest[a] != rest[c] by {
                assert(rest[a] == order[a] && rest[c] == order[c]);
            }
            lemma_lists_all(rest, (n - 1) as nat);
            let last = order[n - 1];
            assert(last < n - 1);
            assert(spec_listed(rest, last as int, n - 1));
            let a = choose|a: int| 0 <= a < n - 1 && a < rest.len() && #[trigger] rest[a] == last;
            assert(order[a] == order[n - 1]);
        }
    }
}

/// In an order of the bones every bone has its place, and the place of its
/// parent is earlier than its own.
pub proof fn lemma_parent_first(parents: Seq<Option<usize>>, order: Seq<usize>, bone: int)
    requires
        spec_is_order(parents, order),
        0 <= bone < parents.len(),
    ensures
        spec_place(order, bone) < order.len(),
        order[spec_place(order, bone) as int] == bone,
        parents[bone] matches Some(p) ==> spec_place(order, p as int) < spec_place(order, bone)
            && order[spec_place(order, p as int) as int] == p,
{
    lemma_lists_all(order, parents.len());
    assert(spec_listed(order, bone, order.len() as int));
    let k0 = choose|j: int| 0 <= j < order.len() && j < order.len() && #[trigger] order[j] == bone;
    assert((k0 as nat) < order.len() && order[(k0 as nat) as int] == bone);
    let k = spec_place(order, bone);
    if let Some(p) = parents[bone] {
        assert(spec_listed(order, p as int, k as int));
        let j = choose|j: int| 0 <= j < k && j < order.len() && #[trigger] order[j] == p;
        assert((j as nat) < order.len() && order[(j as nat) as int] == p);
        let jp = spec_place(order, p as int);
        if jp != j {
            if jp < j {
                assert(order[jp as int] != order[j]);
            } else {
                assert(order[j] != order[jp as int]);
            }
        }
    }
}

} // verus!

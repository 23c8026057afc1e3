//! Converting a list item by item, where the first item that fails fails the list.

use vstd::prelude::*;

verus! {

/// The list of what `step` makes of each item of `items`, in order. `step`
/// sees what the earlier items have become. The first error of `step` is the
/// result.
pub open spec fn spec_collect<A, B, E>(
    items: Seq<A>,
    step: spec_fn(Seq<B>, A) -> Result<B, E>,
) -> Result<Seq<B>, E>
    decreases items.len(),
{
    if items.len() == 0 {
        Ok(Seq::empty())
    } else {
        match spec_collect(items.drop_last(), step) {
            Err(e) => Err(e),
            Ok(done) => match step(done, items.last()) {
                Ok(b) => Ok(done.push(b)),
                Err(e) => Err(e),
            },
        }
    }
}

/// One more item: what the first `k + 1` items become follows from what the
/// first `k` have become and from item `k`.
pub proof fn lemma_collect_step<A, B, E>(
    items: Seq<A>,
    step: spec_fn(Seq<B>, A) -> Result<B, E>,
    k: int,
)
    requires
        0 <= k < items.len(),
    ensures
        spec_collect(items.take(k + 1), step) == match spec_collect(items.take(k), step) {
            Err(e) => Err(e),
            Ok(done) => match step(done, items[k]) {
                Ok(b) => Ok(done.push(b)),
                Err(e) => Err(e),
            },
        },
{
    assert(items.take(k + 1).drop_last() =~= items.take(k));
}

/// An error among the first `k` items is the error of the whole list.
pub proof fn lemma_collect_error<A, B, E>(
    items: Seq<A>,
    step: spec_fn(Seq<B>, A) -> Result<B, E>,
    k: int,
)
    requires
        0 <= k <= items.len(),
        spec_collect(items.take(k), step) is Err,
    ensures
        spec_collect(items, step) == spec_collect(items.take(k), step),
    decreases items.len() - k,
{
    if k < items.len() {
        lemma_collect_step(items, step, k);
        lemma_collect_error(items, step, k + 1);
    } else {
        assert(items.take(k) =~= items);
    }
}

/// Some entry of the list has that name.
pub open spec fn spec_has_name<B>(entries: Seq<(String, B)>, name: Seq<char>) -> bool {
    exists|j: int| 0 <= j < entries.len() && (#[trigger] entries[j]).0@ == name
}

/// No two entries of the list have the same name.
pub open spec fn spec_names_unique<B>(entries: Seq<(String, B)>) -> bool {
    forall|j: int, k: int|
        0 <= j < k < entries.len() ==> (#[trigger] entries[j]).0@ != (#[trigger] entries[k]).0@
}

/// The list of what `step` makes of each named item of `items`, in order,
/// under the names of the items. An item whose name an earlier item has
/// already taken is passed over. The first error of `step` is the result.
pub open spec fn spec_collect_named<A, B, E>(
    items: Seq<(String, A)>,
    step: spec_fn(A) -> Result<B, E>,
) -> Result<Seq<(String, B)>, E>
    decreases items.len(),
{
    if items.len() == 0 {
        Ok(Seq::empty())
    } else {
        match spec_collect_named(items.drop_last(), step) {
            Err(e) => Err(e),
            Ok(done) => if spec_has_name(done, items.last().0@) {
                Ok(done)
            } else {
                match step(items.last().1) {
                    Ok(b) => Ok(done.push((items.last().0, b))),
                    Err(e) => Err(e),
                }
            },
        }
    }
}

/// One more named item: what the first `k + 1` items become follows from
/// what the first `k` have become and from item `k`.
pub proof fn lemma_collect_named_step<A, B, E>(
    items: Seq<(String, A)>,
    step: spec_fn(A) -> Result<B, E>,
    k: int,
)
    requires
        0 <= k < items.len(),
    ensures
        spec_collect_named(items.take(k + 1), step) == match spec_collect_named(
            items.take(k),
            step,
        ) {
            Err(e) => Err(e),
            Ok(done) => if spec_has_name(done, items[k].0@) {
                Ok(done)
            } else {
                match step(items[k].1) {
                    Ok(b) => Ok(done.push((items[k].0, b))),
                    Err(e) => Err(e),
                }
            },
        },
{
    assert(items.take(k + 1).drop_last() =~= items.take(k));
}

/// An error among the first `k` named items is the error of the whole list.
pub proof fn lemma_collect_named_error<A, B, E>(
    items: Seq<(String, A)>,
    step: spec_fn(A) -> Result<B, E>,
    k: int,
)
    requires
        0 <= k <= items.len(),
        spec_collect_named(items.take(k), step) is Err,
    ensures
        spec_collect_named(items, step) == spec_collect_named(items.take(k), step),
    decreases items.len() - k,
{
    if k < items.len() {
        lemma_collect_named_step(items, step, k);
        lemma_collect_named_error(items, step, k + 1);
    } else {
        assert(items.take(k) =~= items);
    }
}

/// What a list of named items becomes has no name twice, and every name in
/// it is the name of an item.
pub proof fn lemma_collect_named_unique<A, B, E>(
    items: Seq<(String, A)>,
    step: spec_fn(A) -> Result<B, E>,
)
    ensures
        spec_collect_named(items, step) matches Ok(done) ==> spec_names_unique(done) && forall|
            j: int,
        |
            0 <= j < done.len() ==> spec_has_name(items, (#[trigger] done[j]).0@),
    decreases items.len(),
{
    if items.len() > 0 {
        lemma_collect_named_unique(items.drop_last(), step);
        if let Ok(done) = spec_collect_named(items, step) {
            let before = spec_collect_named(items.drop_last(), step)->Ok_0;
            assert forall|j: int| 0 <= j < done.len() implies spec_has_name(
                items,
                (#[trigger] done[j]).0@,
            ) by {
                if j < before.len() {
                    assert(done[j] == before[j]);
                    let k = choose|k: int|
                        0 <= k < items.drop_last().len() && (#[trigger] items.drop_last()[k]).0@
                            == before[j].0@;
                    assert(items[k].0@ == done[j].0@);
                } else {
                    assert(items[items.len() - 1].0@ == done[j].0@);
                }
            }
            assert forall|j: int, k: int| 0 <= j < k < done.len() implies (#[trigger] done[j]).0@
                != (#[trigger] done[k]).0@ by {
                if k < before.len() {
                    assert(done[j] == before[j] && done[k] == before[k]);
                } else {
                    assert(done[j] == before[j]);
                }
            }
        }
    }
}

/// The first item of each name is the one that counts: what it becomes
/// stands in the list under its name.
pub proof fn lemma_collect_named_first<A, B, E>(
    items: Seq<(String, A)>,
    step: spec_fn(A) -> Result<B, E>,
    i: int,
)
    requires
        spec_collect_named(items, step) is Ok,
        0 <= i < items.len(),
        forall|j: int| 0 <= j < i ==> (#[trigger] items[j]).0@ != items[i].0@,
    ensures
        ({
            let done = spec_collect_named(items, step)->Ok_0;
            exists|k: int|
                0 <= k < done.len() && (#[trigger] done[k]).0@ == items[i].0@ && step(items[i].1)
                    == Ok::<B, E>(done[k].1)
        }),
    decreases items.len(),
{
    let done = spec_collect_named(items, step)->Ok_0;
    let before = spec_collect_named(items.drop_last(), step)->Ok_0;
    if i == items.len() - 1 {
        lemma_collect_named_unique(items.drop_last(), step);
        if spec_has_name(before, items[i].0@) {
            let k = choose|k: int| 0 <= k < before.len() && (#[trigger] before[k]).0@ == items[i].0@;
            assert(spec_has_name(items.drop_last(), before[k].0@));
            let j = choose|j: int|
                0 <= j < items.drop_last().len() && (#[trigger] items.drop_last()[j]).0@
                    == before[k].0@;
            assert(items[j].0@ == items[i].0@);
        }
        let k = before.len() as int;
        assert(done[k].0@ == items[i].0@ && step(items[i].1) == Ok::<B, E>(done[k].1));
    } else {
        assert forall|j: int| 0 <= j < i implies (#[trigger] items.drop_last()[j]).0@
            != items.drop_last()[i].0@ by {
            assert(items.drop_last()[j] == items[j]);
        }
        lemma_collect_named_first(items.drop_last(), step, i);
        let k = choose|k: int|
            0 <= k < before.len() && (#[trigger] before[k]).0@ == items.drop_last()[i].0@ && step(
                items.drop_last()[i].1,
            ) == Ok::<B, E>(before[k].1);
        assert(done[k] == before[k]);
        assert(done[k].0@ == items[i].0@ && step(items[i].1) == Ok::<B, E>(done[k].1));
    }
}

} // verus!

//! Folding fallible steps over a sequence, the shape of every batch the
//! simulator processes (buffered orders, resting orders, positions).
use vstd::prelude::*;

use crate::decimal::Overflow;

verus! {

/// Applies `step` to each item in order, stopping at the first overflow.
pub open spec fn fold_steps<T, A>(items: Seq<T>, init: A, step: spec_fn(A, T) -> Result<A, Overflow>) -> Result<A, Overflow>
    decreases items.len(),
{
    if items.len() == 0 {
        Ok(init)
    } else {
        match fold_steps(items.drop_last(), init, step) {
            Ok(a) => step(a, items.last()),
            Err(e) => Err(e),
        }
    }
}

pub proof fn lemma_fold_next<T, A>(items: Seq<T>, init: A, step: spec_fn(A, T) -> Result<A, Overflow>, i: int)
    requires
        0 <= i < items.len(),
    ensures
        fold_steps(items.take(i + 1), init, step) == (match fold_steps(items.take(i), init, step) {
            Ok(a) => step(a, items[i]),
            Err(e) => Err(e),
        }),
{
    assert(items.take(i + 1).drop_last() =~= items.take(i));
    assert(items.take(i + 1).last() == items[i]);
}

pub proof fn lemma_fold_err<T, A>(items: Seq<T>, init: A, step: spec_fn(A, T) -> Result<A, Overflow>, k: int)
    requires
        0 <= k <= items.len(),
        fold_steps(items.take(k), init, step) is Err,
    ensures
        fold_steps(items, init, step) is Err,
    decreases items.len() - k,
{
    if k < items.len() {
        lemma_fold_next(items, init, step, k);
        lemma_fold_err(items, init, step, k + 1);
    } else {
        assert(items.take(k) =~= items);
    }
}

pub proof fn lemma_fold_start<T, A>(items: Seq<T>, init: A, step: spec_fn(A, T) -> Result<A, Overflow>)
    ensures
        fold_steps(items.take(0), init, step) == Ok::<A, Overflow>(init),
        items.take(items.len() as int) == items,
{
    assert(items.take(0).len() == 0);
    assert(items.take(items.len() as int) =~= items);
}

} // verus!

//! One step for each item of a sequence, up to the first failure.

use vstd::prelude::*;

verus! {

/// `step` applied to each item in order: the results of all of them, or the
/// failure of the first item on which it fails.
pub open spec fn each<A, B, E>(step: spec_fn(A) -> Result<B, E>, items: Seq<A>) -> Result<Seq<B>, E>
    decreases items.len(),
{
    if items.len() == 0 {
        Ok(Seq::empty())
    } else {
        match each(step, items.drop_last()) {
            Err(error) => Err(error),
            Ok(done) => match step(items.last()) {
                Err(error) => Err(error),
                Ok(item) => Ok(done.push(item)),
            },
        }
    }
}

/// One more item: `each` on the first `n + 1` items goes by `each` on the
/// first `n` and by `step` on the item at `n`.
pub proof fn lemma_each_next<A, B, E>(step: spec_fn(A) -> Result<B, E>, items: Seq<A>, n: int)
    requires
        0 <= n < items.len(),
    ensures
        each(step, items.take(n + 1)) == match each(step, items.take(n)) {
            Err(error) => Err(error),
            Ok(done) => match step(items[n]) {
                Err(error) => Err(error),
                Ok(item) => Ok(done.push(item)),
            },
        },
{
    assert(items.take(n + 1).drop_last() =~= items.take(n));
}

/// A failure on the first `n` items is the failure on all of them.
pub proof fn lemma_each_fails<A, B, E>(step: spec_fn(A) -> Result<B, E>, items: Seq<A>, n: int)
    requires
        0 <= n <= items.len(),
        each(step, items.take(n)) is Err,
    ensures
        each(step, items) == each(step, items.take(n)),
    decreases items.len() - n,
{
    if n == items.len() {
        assert(items.take(n) =~= items);
    } else {
        lemma_each_next(step, items, n);
        lemma_each_fails(step, items, n + 1);
    }
}

/// Where `each` succeeds, `step` succeeded on every item, and the results
/// stand in the order of the items.
pub proof fn lemma_each_ok<A, B, E>(step: spec_fn(A) -> Result<B, E>, items: Seq<A>)
    requires
        each(step, items) is Ok,
    ensures
        each(step, items)->Ok_0.len() == items.len(),
        forall|i: int|
            0 <= i < items.len() ==> #[trigger] step(items[i]) == Ok::<B, E>(
                each(step, items)->Ok_0[i],
            ),
    decreases items.len(),
{
    if items.len() > 0 {
        let front = items.drop_last();
        lemma_each_ok(step, front);
        assert forall|i: int| 0 <= i < items.len() implies #[trigger] step(items[i]) == Ok::<B, E>(
            each(step, items)->Ok_0[i],
        ) by {
            if i < front.len() {
                assert(step(front[i]) == Ok::<B, E>(each(step, front)->Ok_0[i]));
            }
        }
    }
}

/// Where `each` fails, it fails as `step` does on the first item that `step`
/// fails on.
pub proof fn lemma_each_err<A, B, E>(step: spec_fn(A) -> Result<B, E>, items: Seq<A>) -> (at: int)
    requires
        each(step, items) is Err,
    ensures
        0 <= at < items.len(),
        step(items[at]) == Err::<B, E>(each(step, items)->Err_0),
        forall|i: int| 0 <= i < at ==> (#[trigger] step(items[i])) is Ok,
    decreases items.len(),
{
    let front = items.drop_last();
    if each(step, front) is Err {
        let at = lemma_each_err(step, front);
        assert forall|i: int| 0 <= i < at implies (#[trigger] step(items[i])) is Ok by {
            assert(step(front[i]) is Ok);
        }
        at
    } else {
        lemma_each_ok(step, front);
        assert forall|i: int| 0 <= i < front.len() implies (#[trigger] step(items[i])) is Ok by {
            assert(step(front[i]) is Ok);
        }
        items.len() - 1
    }
}

} // verus!

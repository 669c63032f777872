//! All or nothing: a list of outcomes is worth the list of its values if
//! every outcome is a success, and its first failure otherwise.

use vstd::prelude::*;

verus! {

/// The index of the first failure among the outcomes, or their number if
/// none is a failure.
pub open spec fn first_failure<T, E>(outcomes: Seq<Result<T, E>>) -> int
    decreases outcomes.len(),
{
    if outcomes.len() == 0 {
        0
    } else {
        let before = first_failure(outcomes.drop_last());
        if before < outcomes.len() - 1 {
            before
        } else if outcomes.last() is Err {
            outcomes.len() - 1
        } else {
            outcomes.len() as int
        }
    }
}

/// The values of outcomes that are all successes, in their order.
pub open spec fn values_of<T, E>(outcomes: Seq<Result<T, E>>) -> Seq<T> {
    Seq::new(outcomes.len(), |i: int| outcomes[i]->Ok_0)
}

/// What a list of outcomes is worth as a whole: the values of all of them,
/// in their order, if none is a failure, and else the first failure. No
/// value is kept when there is a failure.
pub open spec fn gathered<T, E>(outcomes: Seq<Result<T, E>>) -> Result<Seq<T>, E> {
    let at = first_failure(outcomes);
    if at == outcomes.len() {
        Ok(values_of(outcomes))
    } else {
        Err(outcomes[at]->Err_0)
    }
}

/// What [`first_failure`] finds: every outcome before it is a success, and
/// the outcome at it is a failure, unless it is the number of outcomes.
pub proof fn lemma_first_failure<T, E>(outcomes: Seq<Result<T, E>>)
    ensures
        0 <= first_failure(outcomes) <= outcomes.len(),
        forall|j: int| 0 <= j < first_failure(outcomes) ==> (#[trigger] outcomes[j]) is Ok,
        first_failure(outcomes) < outcomes.len() ==> outcomes[first_failure(outcomes)] is Err,
    decreases outcomes.len(),
{
    if outcomes.len() > 0 {
        lemma_first_failure(outcomes.drop_last());
        assert forall|j: int| 0 <= j < first_failure(outcomes) implies (
        #[trigger] outcomes[j]) is Ok by {
            if j < outcomes.len() - 1 {
                assert(outcomes[j] == outcomes.drop_last()[j]);
            }
        }
    }
}

/// An index before which every outcome is a success, and at which one is a
/// failure unless it is the number of outcomes, is the one that
/// [`first_failure`] finds.
pub proof fn lemma_first_failure_unique<T, E>(outcomes: Seq<Result<T, E>>, k: int)
    requires
        0 <= k <= outcomes.len(),
        forall|j: int| 0 <= j < k ==> (#[trigger] outcomes[j]) is Ok,
        k < outcomes.len() ==> outcomes[k] is Err,
    ensures
        first_failure(outcomes) == k,
{
    lemma_first_failure(outcomes);
    let found = first_failure(outcomes);
    if found < k {
        assert(outcomes[found] is Ok);
    } else if k < found {
        assert(outcomes[k] is Ok);
    }
}

/// Outcomes that are all successes are worth their values, as many as
/// there are outcomes and in the same order.
pub proof fn lemma_gathered_all<T, E>(outcomes: Seq<Result<T, E>>)
    requires
        forall|j: int| 0 <= j < outcomes.len() ==> (#[trigger] outcomes[j]) is Ok,
    ensures
        gathered(outcomes) == Ok::<Seq<T>, E>(values_of(outcomes)),
        values_of(outcomes).len() == outcomes.len(),
{
    lemma_first_failure_unique(outcomes, outcomes.len() as int);
}

/// Outcomes of which any one is a failure are worth a failure, whatever
/// the other outcomes are: no partial list of values is kept.
pub proof fn lemma_gathered_any_failure<T, E>(outcomes: Seq<Result<T, E>>, at: int)
    requires
        0 <= at < outcomes.len(),
        outcomes[at] is Err,
    ensures
        gathered(outcomes) is Err,
{
    lemma_first_failure(outcomes);
    if first_failure(outcomes) == outcomes.len() {
        assert(outcomes[at] is Ok);
    }
}

/// Outcomes whose first failure stands at `at` are worth that failure,
/// whatever the outcomes after it are.
pub proof fn lemma_gathered_first_failure<T, E>(outcomes: Seq<Result<T, E>>, at: int)
    requires
        0 <= at < outcomes.len(),
        outcomes[at] is Err,
        forall|j: int| 0 <= j < at ==> (#[trigger] outcomes[j]) is Ok,
    ensures
        gathered(outcomes) == Err::<Seq<T>, E>(outcomes[at]->Err_0),
{
    lemma_first_failure_unique(outcomes, at);
}

/// Gathers the outcomes: all values in their order, or the first failure.
pub fn gather<T, E>(outcomes: Vec<Result<T, E>>) -> (whole: Result<Vec<T>, E>)
    ensures
        match whole {
            Ok(values) => gathered(outcomes@) == Ok::<Seq<T>, E>(values@),
            Err(failure) => gathered(outcomes@) == Err::<Seq<T>, E>(failure),
        },
{
    let ghost all = outcomes@;
    let mut values: Vec<T> = Vec::new();
    for outcome in it: outcomes
        invariant
            it.seq() == all,
            values@.len() == it.index(),
            forall|j: int| 0 <= j < it.index() ==> (#[trigger] all[j]) == Ok::<T, E>(values@[j]),
    {
        match outcome {
            Ok(value) => {
                values.push(value);
            },
            Err(failure) => {
                proof {
                    assert(all[it.index()] == Err::<T, E>(failure));
                    lemma_first_failure_unique(all, it.index());
                }
                return Err(failure);
            },
        }
    }
    proof {
        lemma_first_failure_unique(all, all.len() as int);
        assert(values@ == values_of(all));
    }
    Ok(values)
}

} // verus!

//! Reporting the outcomes of several attempts.
//!
//! Cleanup goes on after a failure: every step is attempted, and the first
//! failure is what is reported in the end. A batch reports what succeeded
//! and what failed side by side.

use crate::errors::AppError;
use vstd::prelude::*;

verus! {

/// The position of the first failure among `outcomes`, or their number where
/// none failed.
pub open spec fn first_failure_at<T>(outcomes: Seq<Result<T, AppError>>) -> nat
    decreases outcomes.len(),
{
    if outcomes.len() == 0 || outcomes[0] is Err {
        0
    } else {
        1 + first_failure_at(outcomes.drop_first())
    }
}

/// The values of the successes among `outcomes`, in their order.
pub open spec fn successes<T>(outcomes: Seq<Result<T, AppError>>) -> Seq<T>
    decreases outcomes.len(),
{
    if outcomes.len() == 0 {
        Seq::empty()
    } else {
        match outcomes.last() {
            Ok(value) => successes(outcomes.drop_last()).push(value),
            Err(_) => successes(outcomes.drop_last()),
        }
    }
}

/// The errors of the failures among `outcomes`, in their order.
pub open spec fn failures<T>(outcomes: Seq<Result<T, AppError>>) -> Seq<AppError>
    decreases outcomes.len(),
{
    if outcomes.len() == 0 {
        Seq::empty()
    } else {
        match outcomes.last() {
            Ok(_) => failures(outcomes.drop_last()),
            Err(e) => failures(outcomes.drop_last()).push(e),
        }
    }
}

/// The first failure is a failure, and nothing before it is.
pub proof fn lemma_first_failure_at<T>(outcomes: Seq<Result<T, AppError>>)
    ensures
        first_failure_at(outcomes) <= outcomes.len(),
        forall|i: int| 0 <= i < first_failure_at(outcomes) ==> (#[trigger] outcomes[i]) is Ok,
        first_failure_at(outcomes) < outcomes.len() ==> outcomes[first_failure_at(
            outcomes,
        ) as int] is Err,
    decreases outcomes.len(),
{
    if outcomes.len() > 0 && outcomes[0] is Ok {
        let rest = outcomes.drop_first();
        lemma_first_failure_at(rest);
        assert forall|i: int| 0 <= i < first_failure_at(outcomes) implies (
        #[trigger] outcomes[i]) is Ok by {
            if i > 0 {
                assert(outcomes[i] == rest[i - 1]);
            }
        }
        if first_failure_at(outcomes) < outcomes.len() {
            assert(outcomes[first_failure_at(outcomes) as int] == rest[first_failure_at(
                rest,
            ) as int]);
        }
    }
}

/// Reports a cleanup of several steps, all of which were attempted: the error
/// of the first step that failed, or success where none did.
pub fn first_failure(outcomes: Vec<Result<(), AppError>>) -> (r: Result<(), AppError>)
    ensures
        match r {
            Ok(()) => first_failure_at(outcomes@) == outcomes@.len(),
            Err(e) => first_failure_at(outcomes@) < outcomes@.len() && outcomes@[first_failure_at(
                outcomes@,
            ) as int] == Err::<(), AppError>(e),
        },
{
    let mut rest = outcomes;
    let mut last: Result<(), AppError> = Ok(());
    let ghost all = rest@;
    assert(all.skip(all.len() as int) == Seq::<Result<(), AppError>>::empty());
    while rest.len() > 0
        invariant
            rest@ == all.take(rest@.len() as int),
            rest@.len() <= all.len(),
            match last {
                Ok(()) => first_failure_at(all.skip(rest@.len() as int)) == all.len()
                    - rest@.len(),
                Err(e) => first_failure_at(all.skip(rest@.len() as int)) < all.len()
                    - rest@.len() && all[(rest@.len() + first_failure_at(
                    all.skip(rest@.len() as int),
                )) as int] == Err::<(), AppError>(e),
            },
        decreases rest.len(),
    {
        let ghost n = rest@.len();
        let outcome = rest.pop();
        assert(all.skip(n - 1).drop_first() == all.skip(n as int));
        assert(all.skip(n - 1)[0] == all[n - 1]);
        match outcome {
            Some(Err(e)) => {
                last = Err(e);
            },
            _ => {},
        }
    }
    assert(all.skip(0) == all);
    last
}

/// Sorts the outcomes of a batch into what succeeded and what failed, each in
/// the order in which the outcomes came.
pub fn split_outcomes<T>(outcomes: Vec<Result<T, AppError>>) -> (r: (Vec<T>, Vec<AppError>))
    ensures
        r.0@ == successes(outcomes@),
        r.1@ == failures(outcomes@),
{
    let ghost all = outcomes@;
    let mut values: Vec<T> = Vec::new();
    let mut errors: Vec<AppError> = Vec::new();
    for outcome in it: outcomes
        invariant
            it.seq() == all,
            values@ == successes(all.take(it.index() as int)),
            errors@ == failures(all.take(it.index() as int)),
    {
        let ghost k = it.index() as int;
        assert(all.take(k + 1).drop_last() == all.take(k));
        assert(all.take(k + 1).last() == all[k]);
        match outcome {
            Ok(value) => values.push(value),
            Err(e) => errors.push(e),
        }
    }
    assert(all.take(all.len() as int) == all);
    (values, errors)
}

} // verus!

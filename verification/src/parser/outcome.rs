//! How the outcomes of the parts of a node combine into the outcome of the
//! node: either all parts are required and the first failure decides, or every
//! part is tried and all failures are reported together.

use vstd::prelude::*;

verus! {

/// The view of an outcome.
pub open spec fn result_view<T: DeepView, E: DeepView>(result: Result<T, E>) -> Result<T::V, E::V> {
    match result {
        Ok(value) => Ok(value.deep_view()),
        Err(error) => Err(error.deep_view()),
    }
}

/// The first `n` outcomes are successes.
pub open spec fn all_ok<T, E>(outcomes: Seq<Result<T, E>>, n: int) -> bool {
    forall|i: int| 0 <= i < n ==> (#[trigger] outcomes[i]) is Ok
}

/// The outcome at `k` is a failure and no outcome before it is.
pub open spec fn is_first_error<T, E>(outcomes: Seq<Result<T, E>>, k: int) -> bool {
    &&& 0 <= k < outcomes.len()
    &&& outcomes[k] is Err
    &&& all_ok(outcomes, k)
}

/// The error of the leftmost failure, if there is a failure.
pub open spec fn first_error<T, E>(outcomes: Seq<Result<T, E>>) -> Option<E> {
    if exists|k: int| is_first_error(outcomes, k) {
        Some(outcomes[choose|k: int| is_first_error(outcomes, k)]->Err_0)
    } else {
        None
    }
}

/// What the outcomes hold where they are successes.
pub open spec fn values<T, E>(outcomes: Seq<Result<T, E>>) -> Seq<T> {
    Seq::new(outcomes.len(), |i: int| outcomes[i]->Ok_0)
}

/// All parts are required: the error of the leftmost failure, or else the
/// values of all parts.
pub open spec fn required<T, E>(outcomes: Seq<Result<T, E>>) -> Result<Seq<T>, E> {
    match first_error(outcomes) {
        Some(error) => Err(error),
        None => Ok(values(outcomes)),
    }
}

/// The errors of the failures among the first `n` outcomes, in order.
pub open spec fn errors_of<T, E>(outcomes: Seq<Result<T, Seq<E>>>, n: int) -> Seq<E>
    decreases n,
{
    if n <= 0 {
        Seq::empty()
    } else {
        errors_of(outcomes, n - 1) + match outcomes[n - 1] {
            Ok(_) => Seq::empty(),
            Err(errors) => errors,
        }
    }
}

/// The values of the successes among the first `n` outcomes, in order.
pub open spec fn successes_of<T, E>(outcomes: Seq<Result<T, Seq<E>>>, n: int) -> Seq<T>
    decreases n,
{
    if n <= 0 {
        Seq::empty()
    } else {
        successes_of(outcomes, n - 1) + match outcomes[n - 1] {
            Ok(value) => seq![value],
            Err(_) => Seq::empty(),
        }
    }
}

/// Every part is tried: all errors together, in order, if there is any error,
/// or else the values of all parts.
pub open spec fn collected<T, E>(outcomes: Seq<Result<T, Seq<E>>>) -> Result<Seq<T>, Seq<E>> {
    let errors = errors_of(outcomes, outcomes.len() as int);
    if errors.len() > 0 {
        Err(errors)
    } else {
        Ok(successes_of(outcomes, outcomes.len() as int))
    }
}

/// A leftmost failure is the only one.
pub proof fn lemma_first_error_is<T, E>(outcomes: Seq<Result<T, E>>, k: int)
    requires
        is_first_error(outcomes, k),
    ensures
        first_error(outcomes) == Some(outcomes[k]->Err_0),
        required(outcomes) == Err::<Seq<T>, E>(outcomes[k]->Err_0),
{
}

/// Where every outcome is a success there is no first error.
pub proof fn lemma_no_error<T, E>(outcomes: Seq<Result<T, E>>)
    requires
        all_ok(outcomes, outcomes.len() as int),
    ensures
        first_error(outcomes) == None::<E>,
        required(outcomes) == Ok::<Seq<T>, E>(values(outcomes)),
{
}

/// Where no failure reports an empty list of errors, a run of outcomes without
/// errors is a run of successes, and its values are those of all outcomes.
pub proof fn lemma_no_errors_all_successes<T, E>(outcomes: Seq<Result<T, Seq<E>>>, n: int)
    requires
        0 <= n <= outcomes.len(),
        forall|i: int| 0 <= i < n ==> (#[trigger] outcomes[i] matches Err(errors) ==> errors.len() > 0),
        errors_of(outcomes, n).len() == 0,
    ensures
        all_ok(outcomes, n),
        successes_of(outcomes, n) == values(outcomes.subrange(0, n)),
    decreases n,
{
    if n > 0 {
        lemma_no_errors_all_successes(outcomes, n - 1);
    }
}

/// Where one of the first `n` outcomes is a failure, one of them is the
/// leftmost failure.
pub proof fn lemma_first_error_exists<T, E>(outcomes: Seq<Result<T, E>>, n: int)
    requires
        0 <= n <= outcomes.len(),
        !all_ok(outcomes, n),
    ensures
        exists|k: int| 0 <= k < n && is_first_error(outcomes, k),
    decreases n,
{
    if n > 0 {
        if all_ok(outcomes, n - 1) {
            assert(is_first_error(outcomes, n - 1));
        } else {
            lemma_first_error_exists(outcomes, n - 1);
        }
    }
}

/// Where all parts are required and the whole succeeds, every part succeeds.
pub proof fn lemma_required_ok<T, E>(outcomes: Seq<Result<T, E>>)
    requires
        required(outcomes) is Ok,
    ensures
        all_ok(outcomes, outcomes.len() as int),
        required(outcomes) == Ok::<Seq<T>, E>(values(outcomes)),
{
    if !all_ok(outcomes, outcomes.len() as int) {
        lemma_first_error_exists(outcomes, outcomes.len() as int);
    }
}

/// Where every part is tried and the whole succeeds, every part succeeds, as
/// long as no failure reports an empty list of errors.
pub proof fn lemma_collected_ok<T, E>(outcomes: Seq<Result<T, Seq<E>>>)
    requires
        collected(outcomes) is Ok,
        forall|i: int|
            0 <= i < outcomes.len() ==> (#[trigger] outcomes[i] matches Err(errors) ==> errors.len()
                > 0),
    ensures
        all_ok(outcomes, outcomes.len() as int),
        collected(outcomes) == Ok::<Seq<T>, Seq<E>>(values(outcomes)),
{
    lemma_no_errors_all_successes(outcomes, outcomes.len() as int);
    assert(outcomes.subrange(0, outcomes.len() as int) =~= outcomes);
}

/// The errors of the first `n` outcomes are where the errors of the first `m`
/// outcomes start, for `n <= m`.
pub proof fn lemma_errors_of_prefix<T, E>(outcomes: Seq<Result<T, Seq<E>>>, n: int, m: int)
    requires
        0 <= n <= m,
    ensures
        errors_of(outcomes, n).len() <= errors_of(outcomes, m).len(),
        errors_of(outcomes, m).subrange(0, errors_of(outcomes, n).len() as int) == errors_of(
            outcomes,
            n,
        ),
    decreases m - n,
{
    if n < m {
        lemma_errors_of_prefix(outcomes, n, m - 1);
    }
}

/// Where every part is tried and one part fails with an error, the whole
/// fails.
pub proof fn lemma_collected_fails<T, E>(outcomes: Seq<Result<T, Seq<E>>>, i: int)
    requires
        0 <= i < outcomes.len(),
        outcomes[i] matches Err(errors) && errors.len() > 0,
    ensures
        collected(outcomes) is Err,
{
    lemma_errors_of_prefix(outcomes, i + 1, outcomes.len() as int);
}

} // verus!

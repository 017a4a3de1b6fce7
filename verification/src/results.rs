//! Results of things that were done at the same time.

use vstd::prelude::*;

verus! {

/// The first error among a number of results, if any.
pub open spec fn first_error_of<E>(results: Seq<Result<(), E>>) -> Option<E>
    decreases results.len(),
{
    if results.len() == 0 {
        None
    } else {
        match results[0] {
            Ok(()) => first_error_of(results.skip(1)),
            Err(error) => Some(error),
        }
    }
}

/// The result that has the given error, if any.
pub open spec fn failing<E>(error: Option<E>) -> Result<(), E> {
    match error {
        None => Ok(()),
        Some(error) => Err(error),
    }
}

/// A result that is added behind others counts only where all of those are
/// successes.
pub proof fn first_error_of_push<E>(results: Seq<Result<(), E>>, last: Result<(), E>)
    ensures
        first_error_of(results.push(last)) == (match first_error_of(results) {
            Some(error) => Some(error),
            None => last.err(),
        }),
    decreases results.len(),
{
    if results.len() == 0 {
        reveal_with_fuel(first_error_of, 2);
        assert(results.push(last).skip(1) =~= Seq::<Result<(), E>>::empty());
    } else {
        assert(results.push(last).skip(1) =~= results.skip(1).push(last));
        first_error_of_push(results.skip(1), last);
    }
}

/// The first error among a number of results. There is none just where all of
/// them are successes.
pub fn first_error<E>(results: Vec<Result<(), E>>) -> (r: Result<(), E>)
    ensures
        r == failing(first_error_of(results@)),
{
    let mut results = results;
    let mut r: Option<E> = None;
    let ghost all = results@;
    while results.len() > 0
        invariant
            first_error_of(all) == (match first_error_of(results@) {
                Some(error) => Some(error),
                None => r,
            }),
        decreases results@.len(),
    {
        let ghost before = results@;
        if let Some(result) = results.pop() {
            proof {
                first_error_of_push(results@, result);
                assert(results@.push(result) =~= before);
            }
            if let Err(error) = result {
                r = Some(error);
            }
        }
    }
    match r {
        None => Ok(()),
        Some(error) => Err(error),
    }
}

/// There is no error if and only if all results are successes, and else the error
/// is that of the first failure in their order.
pub proof fn first_error_is_first<E>(results: Seq<Result<(), E>>, n: int)
    ensures
        first_error_of(results) is None <==> forall|i: int|
            0 <= i < results.len() ==> #[trigger] results[i] is Ok,
        0 <= n < results.len() && results[n] is Err && (forall|i: int|
            0 <= i < n ==> #[trigger] results[i] is Ok) ==> first_error_of(results) == Some(
            results[n]->Err_0,
        ),
    decreases results.len(),
{
    if results.len() > 0 {
        let rest = results.skip(1);
        first_error_is_first(rest, n - 1);
        if forall|i: int| 0 <= i < results.len() ==> #[trigger] results[i] is Ok {
            assert forall|i: int| 0 <= i < rest.len() implies #[trigger] rest[i] is Ok by {
                assert(results[i + 1] is Ok);
            }
        }
        if first_error_of(results) is None {
            assert forall|i: int| 0 <= i < results.len() implies #[trigger] results[i] is Ok by {
                if i > 0 {
                    assert(rest[i - 1] is Ok);
                }
            }
        }
        if n < results.len() && forall|i: int| 0 <= i < n ==> #[trigger] results[i] is Ok {
            assert forall|i: int| 0 <= i < n - 1 implies #[trigger] rest[i] is Ok by {
                assert(results[i + 1] is Ok);
            }
        }
    }
}

/// The result of things that were done at the same time is a success if and only
/// if all of them are, and else the error of the first failure in their order.
pub proof fn all_must_succeed<E>(results: Seq<Result<(), E>>, n: int)
    ensures
        failing(first_error_of(results)) is Ok <==> forall|i: int|
            0 <= i < results.len() ==> #[trigger] results[i] is Ok,
        0 <= n < results.len() && results[n] is Err && (forall|i: int|
            0 <= i < n ==> #[trigger] results[i] is Ok) ==> failing(first_error_of(results))
            == Err::<(), E>(results[n]->Err_0),
{
    first_error_is_first(results, n);
}

} // verus!

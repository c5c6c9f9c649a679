//! What holds of every chain, proved from the definitions.

use vstd::prelude::*;

use liquid_error::Error;
use liquid_interpreter::Context;
use liquid_value::Value;

use crate::filter::{FilterResult, FilterValue};
use crate::filter_call::{evaluated_all, FilterCall};
use crate::filter_chain::{run, FilterChain};
use crate::trusted::evaluated;

verus! {

/// A chain without filters evaluates to what its entry evaluates to, value
/// or error, and to nothing else.
pub proof fn lemma_no_filters<F: FilterValue>(
    chain: FilterChain<F>,
    context: Context,
    result: FilterResult,
)
    requires
        chain.filters().len() == 0,
    ensures
        chain.admits(context, result) <==> evaluated(chain.entry(), context) == Some(result),
        chain.evaluates(context) <==> evaluated(chain.entry(), context) is Some,
{
    match evaluated(chain.entry(), context) {
        None => {},
        Some(Err(error)) => {},
        Some(Ok(first)) => {
            if result == Ok::<Value, Error>(first) {
                let values = seq![first];
                assert(run(chain.filters(), context, values));
                assert(values[0] == first);
                assert(chain.folds(context, first, result));
            }
        },
    }
}

/// A chain can be evaluated where its entry can and the arguments of each of
/// its calls can.
pub proof fn lemma_chain_evaluates<F: FilterValue>(chain: FilterChain<F>, context: Context)
    requires
        evaluated(chain.entry(), context) is Some,
        forall|i: int|
            0 <= i < chain.filters().len() ==> (#[trigger] chain.filters()[i]).evaluates(context),
    ensures
        chain.evaluates(context),
{
}

/// Filters apply in the order in which they stand: a chain evaluates to a
/// value exactly if that value ends a run in which the entry's value goes to
/// the first filter and each filter's value goes to the next, through all of
/// them.
pub proof fn lemma_value_ends_full_run<F: FilterValue>(
    chain: FilterChain<F>,
    context: Context,
    value: Value,
)
    ensures
        chain.admits(context, Ok::<Value, Error>(value)) <==> exists|values: Seq<Value>|
            {
                &&& #[trigger] run(chain.filters(), context, values)
                &&& values.len() == chain.filters().len() + 1
                &&& evaluated(chain.entry(), context) == Some(Ok::<Value, Error>(values[0]))
                &&& values.last() == value
            },
{
    let result = Ok::<Value, Error>(value);
    if chain.admits(context, result) {
        let first = evaluated(chain.entry(), context)->Some_0->Ok_0;
        let values = choose|values: Seq<Value>|
            {
                &&& #[trigger] run(chain.filters(), context, values)
                &&& values[0] == first
                &&& values.len() == chain.filters().len() + 1
                &&& values.last() == value
            };
        assert(run(chain.filters(), context, values));
    }
    if exists|values: Seq<Value>|
        {
            &&& #[trigger] run(chain.filters(), context, values)
            &&& values.len() == chain.filters().len() + 1
            &&& evaluated(chain.entry(), context) == Some(Ok::<Value, Error>(values[0]))
            &&& values.last() == value
        } {
        let values = choose|values: Seq<Value>|
            {
                &&& #[trigger] run(chain.filters(), context, values)
                &&& values.len() == chain.filters().len() + 1
                &&& evaluated(chain.entry(), context) == Some(Ok::<Value, Error>(values[0]))
                &&& values.last() == value
            };
        assert(run(chain.filters(), context, values));
        assert(chain.folds(context, values[0], result));
    }
}

/// The first failure is the chain's result. Let `values` be a run through
/// the filters before filter `i`, starting at the entry's value. If filter
/// `i` fails on the last of them, the chain fails with that very error,
/// whatever filters stand behind `i`: nothing here asks anything of them.
pub proof fn lemma_first_failure_ends_the_run<F: FilterValue>(
    chain: FilterChain<F>,
    context: Context,
    values: Seq<Value>,
    i: int,
    error: Error,
)
    requires
        0 <= i < chain.filters().len(),
        values.len() == i + 1,
        evaluated(chain.entry(), context) == Some(Ok::<Value, Error>(values[0])),
        run(chain.filters(), context, values),
        chain.filters()[i].admits(context, values[i], Err::<Value, Error>(error)),
    ensures
        chain.admits(context, Err::<Value, Error>(error)),
{
    assert(chain.folds(context, values[0], Err::<Value, Error>(error)));
}

/// An error of a chain is the entry's error, or the failure of one filter on
/// the value that a run through the filters before it has brought.
pub proof fn lemma_error_has_one_origin<F: FilterValue>(
    chain: FilterChain<F>,
    context: Context,
    error: Error,
)
    requires
        chain.admits(context, Err::<Value, Error>(error)),
    ensures
        evaluated(chain.entry(), context) == Some(Err::<Value, Error>(error)) || exists|
            values: Seq<Value>,
        |
            {
                &&& #[trigger] run(chain.filters(), context, values)
                &&& values.len() <= chain.filters().len()
                &&& evaluated(chain.entry(), context) == Some(Ok::<Value, Error>(values[0]))
                &&& chain.filters()[values.len() - 1].admits(
                    context,
                    values.last(),
                    Err::<Value, Error>(error),
                )
            },
{
    match evaluated(chain.entry(), context) {
        None => {},
        Some(Err(_)) => {},
        Some(Ok(first)) => {
            let values = choose|values: Seq<Value>|
                {
                    &&& #[trigger] run(chain.filters(), context, values)
                    &&& values[0] == first
                    &&& values.len() <= chain.filters().len()
                    &&& chain.filters()[values.len() - 1].admits(
                        context,
                        values.last(),
                        Err::<Value, Error>(error),
                    )
                };
            assert(run(chain.filters(), context, values));
        },
    }
}

/// A call that fails although all its arguments have values fails because
/// its filter failed, and its error reports that failure: it carries a text
/// of the call, a text of the value that the filter was given and the texts
/// of the arguments that it was called with.
pub proof fn lemma_failed_filter_is_reported<F: FilterValue>(
    call: FilterCall<F>,
    context: Context,
    input: Value,
    arguments: Seq<Value>,
    error: Error,
)
    requires
        evaluated_all(call.arguments(), context) == Some(Ok::<Seq<Value>, Error>(arguments)),
        call.admits(context, input, Err::<Value, Error>(error)),
    ensures
        exists|cause: Error|
            {
                &&& #[trigger] call.filter().yields(input, arguments, Err::<Value, Error>(cause))
                &&& call.reports(cause, input, arguments, error)
            },
{
    let outcome = choose|outcome: FilterResult|
        {
            &&& #[trigger] call.filter().yields(input, arguments, outcome)
            &&& call.settles(outcome, input, arguments, Err::<Value, Error>(error))
        };
    let cause = outcome->Err_0;
    assert(call.filter().yields(input, arguments, Err::<Value, Error>(cause)));
}

/// A call with an argument that fails returns that argument's error as it
/// is, and nothing else: its filter is not asked.
pub proof fn lemma_failed_argument_is_the_result<F: FilterValue>(
    call: FilterCall<F>,
    context: Context,
    input: Value,
    error: Error,
    result: FilterResult,
)
    requires
        evaluated_all(call.arguments(), context) == Some(Err::<Seq<Value>, Error>(error)),
    ensures
        call.admits(context, input, result) <==> result == Err::<Value, Error>(error),
{
}

/// A filter that succeeds decides the call's result: the call returns the
/// filter's value as it is.
pub proof fn lemma_value_is_the_filters<F: FilterValue>(
    call: FilterCall<F>,
    context: Context,
    input: Value,
    arguments: Seq<Value>,
    value: Value,
)
    requires
        evaluated_all(call.arguments(), context) == Some(Ok::<Seq<Value>, Error>(arguments)),
    ensures
        call.admits(context, input, Ok::<Value, Error>(value)) <==> call.filter().yields(
            input,
            arguments,
            Ok::<Value, Error>(value),
        ),
{
    let values = evaluated_all(call.arguments(), context)->Some_0->Ok_0;
    let result = Ok::<Value, Error>(value);
    if call.admits(context, input, result) {
        let outcome = choose|outcome: FilterResult|
            {
                &&& #[trigger] call.filter().yields(input, values, outcome)
                &&& call.settles(outcome, input, values, result)
            };
        assert(outcome == result);
    }
    if call.filter().yields(input, values, result) {
        assert(call.settles(result, input, values, result));
    }
}

} // verus!

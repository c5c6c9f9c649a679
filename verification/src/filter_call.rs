//! One call of a filter: its name, the filter and the expressions that give
//! its arguments.

use vstd::prelude::*;

use liquid_error::Error;
use liquid_interpreter::Context;
use liquid_interpreter::Expression;
use liquid_value::Value;

use crate::filter::{BoxedValueFilter, FilterResult, FilterValue};
use crate::text::{
    expression_texts, joined, value_text, value_texts, views, write_expressions, write_values,
};
use crate::trusted::{
    attach_context, chain, chained, evaluate_expression, evaluated, is_literal, join, literal,
    with_context,
};

verus! {

/// What evaluating `expressions` in `context`, left to right, comes to: the
/// values of all of them, or the error of the first that fails, behind which
/// none is evaluated; `None` where an evaluation that is reached does not
/// return.
pub open spec fn evaluated_all(expressions: Seq<Expression>, context: Context) -> Option<
    Result<Seq<Value>, Error>,
>
    decreases expressions.len(),
{
    if expressions.len() == 0 {
        Some(Ok(Seq::empty()))
    } else {
        match evaluated_all(expressions.drop_last(), context) {
            None => None,
            Some(Err(error)) => Some(Err(error)),
            Some(Ok(values)) => match evaluated(expressions.last(), context) {
                None => None,
                Some(Err(error)) => Some(Err(error)),
                Some(Ok(value)) => Some(Ok(values.push(value))),
            },
        }
    }
}

/// Once a leading part of `expressions` has stopped, by an error or by an
/// evaluation that does not return, every longer part comes to the same.
proof fn lemma_stop_stays(expressions: Seq<Expression>, context: Context, k: int, n: int)
    requires
        0 <= k <= n <= expressions.len(),
        !(evaluated_all(expressions.take(k), context) matches Some(Ok(_))),
    ensures
        evaluated_all(expressions.take(n), context) == evaluated_all(expressions.take(k), context),
    decreases n - k,
{
    if k < n {
        lemma_stop_stays(expressions, context, k, n - 1);
        assert(expressions.take(n).drop_last() =~= expressions.take(n - 1));
    }
}

/// Whether all of `expressions` before place `i` have a value in `context`.
pub open spec fn all_before_have_values(
    expressions: Seq<Expression>,
    context: Context,
    i: int,
) -> bool {
    forall|j: int| 0 <= j < i ==> (#[trigger] evaluated(expressions[j], context)) matches Some(Ok(_))
}

/// Arguments are evaluated strictly left to right and fail fast. Either
/// every expression has a value, and the values stand in the expressions'
/// order. Or the outcome is that of the leftmost expression without a
/// value: its error, or no return.
pub proof fn lemma_evaluated_all(expressions: Seq<Expression>, context: Context)
    ensures
        match evaluated_all(expressions, context) {
            Some(Ok(values)) => {
                &&& values.len() == expressions.len()
                &&& forall|i: int|
                    0 <= i < expressions.len() ==> #[trigger] evaluated(expressions[i], context)
                        == Some(Ok::<Value, Error>(values[i]))
            },
            Some(Err(error)) => exists|i: int|
                {
                    &&& 0 <= i < expressions.len()
                    &&& #[trigger] evaluated(expressions[i], context) == Some(
                        Err::<Value, Error>(error),
                    )
                    &&& all_before_have_values(expressions, context, i)
                },
            None => exists|i: int|
                {
                    &&& 0 <= i < expressions.len()
                    &&& (#[trigger] evaluated(expressions[i], context)) is None
                    &&& all_before_have_values(expressions, context, i)
                },
        },
    decreases expressions.len(),
{
    if expressions.len() > 0 {
        let front = expressions.drop_last();
        let last = expressions.len() - 1;
        lemma_evaluated_all(front, context);
        assert forall|j: int| 0 <= j < front.len() implies front[j] == expressions[j] by {}
        match evaluated_all(front, context) {
            None => {
                let i = choose|i: int|
                    {
                        &&& 0 <= i < front.len()
                        &&& (#[trigger] evaluated(front[i], context)) is None
                        &&& all_before_have_values(front, context, i)
                    };
                assert(evaluated(expressions[i], context) is None);
                assert(all_before_have_values(expressions, context, i)) by {
                    assert forall|j: int| 0 <= j < i implies (#[trigger] evaluated(
                        expressions[j],
                        context,
                    )) matches Some(Ok(_)) by {
                        assert(expressions[j] == front[j]);
                    }
                }
            },
            Some(Err(error)) => {
                let i = choose|i: int|
                    {
                        &&& 0 <= i < front.len()
                        &&& #[trigger] evaluated(front[i], context) == Some(
                            Err::<Value, Error>(error),
                        )
                        &&& all_before_have_values(front, context, i)
                    };
                assert(evaluated(expressions[i], context) == Some(Err::<Value, Error>(error)));
                assert(all_before_have_values(expressions, context, i)) by {
                    assert forall|j: int| 0 <= j < i implies (#[trigger] evaluated(
                        expressions[j],
                        context,
                    )) matches Some(Ok(_)) by {
                        assert(expressions[j] == front[j]);
                    }
                }
            },
            Some(Ok(values)) => {
                assert(all_before_have_values(expressions, context, last)) by {
                    assert forall|j: int| 0 <= j < last implies (#[trigger] evaluated(
                        expressions[j],
                        context,
                    )) matches Some(Ok(_)) by {
                        assert(expressions[j] == front[j]);
                    }
                }
                match evaluated(expressions.last(), context) {
                    None => {
                        assert(evaluated(expressions[last], context) is None);
                    },
                    Some(Err(error)) => {
                        assert(evaluated(expressions[last], context) == Some(
                            Err::<Value, Error>(error),
                        ));
                    },
                    Some(Ok(value)) => {
                        let all = values.push(value);
                        assert forall|i: int| 0 <= i < expressions.len() implies #[trigger] evaluated(
                            expressions[i],
                            context,
                        ) == Some(Ok::<Value, Error>(all[i])) by {
                            if i < front.len() {
                                assert(expressions[i] == front[i]);
                            }
                        }
                    },
                }
            },
        }
    }
}

/// Evaluates `expressions` in `context`, left to right, and stops at the
/// first that fails.
///
/// Every evaluation that is reached must be one that returns.
pub fn evaluate_all(expressions: &Vec<Expression>, context: &Context) -> (result: Result<
    Vec<Value>,
    Error,
>)
    requires
        evaluated_all(expressions@, *context) is Some,
    ensures
        evaluated_all(expressions@, *context) == Some(
            match result {
                Ok(values) => Ok::<Seq<Value>, Error>(values@),
                Err(error) => Err::<Seq<Value>, Error>(error),
            },
        ),
{
    let mut values: Vec<Value> = Vec::new();
    let mut i: usize = 0;
    assert(expressions@.take(0) =~= Seq::<Expression>::empty());
    while i < expressions.len()
        invariant
            i <= expressions.len(),
            evaluated_all(expressions@, *context) is Some,
            evaluated_all(expressions@.take(i as int), *context) == Some(
                Ok::<Seq<Value>, Error>(values@),
            ),
        decreases expressions.len() - i,
    {
        proof {
            assert(expressions@.take(i + 1).drop_last() =~= expressions@.take(i as int));
            assert(expressions@.take(expressions@.len() as int) =~= expressions@);
            if evaluated(expressions@[i as int], *context) is None {
                lemma_stop_stays(expressions@, *context, i + 1, expressions@.len() as int);
            }
        }
        match evaluate_expression(&expressions[i], context) {
            Ok(value) => {
                values.push(value);
            },
            Err(error) => {
                proof {
                    lemma_stop_stays(expressions@, *context, i + 1, expressions@.len() as int);
                }
                return Err(error);
            },
        }
        i += 1;
    }
    assert(expressions@.take(i as int) =~= expressions@);
    Ok(values)
}

/// Whether all of `expressions` are literals.
pub open spec fn all_literals(expressions: Seq<Expression>) -> bool {
    forall|i: int| 0 <= i < expressions.len() ==> literal(#[trigger] expressions[i])
}

/// Where the evaluation of each of `expressions` returns, so does that of
/// all of them in a row.
proof fn lemma_all_return(expressions: Seq<Expression>, context: Context)
    requires
        forall|i: int|
            0 <= i < expressions.len() ==> (#[trigger] evaluated(expressions[i], context)) is Some,
    ensures
        evaluated_all(expressions, context) is Some,
    decreases expressions.len(),
{
    if expressions.len() > 0 {
        let front = expressions.drop_last();
        assert forall|i: int| 0 <= i < front.len() implies (#[trigger] evaluated(
            front[i],
            context,
        )) is Some by {
            assert(front[i] == expressions[i]);
        }
        lemma_all_return(front, context);
        assert(evaluated(expressions[expressions.len() - 1], context) is Some);
    }
}

/// Tests whether all of `expressions` are literals. Literals can be
/// evaluated in every context; of a variable that cannot be told
/// beforehand.
pub fn only_literals(expressions: &Vec<Expression>) -> (yes: bool)
    ensures
        yes == all_literals(expressions@),
        yes ==> forall|context: Context| (#[trigger] evaluated_all(expressions@, context)) is Some,
{
    let mut i: usize = 0;
    while i < expressions.len()
        invariant
            i <= expressions.len(),
            forall|j: int| 0 <= j < i ==> literal(#[trigger] expressions@[j]),
            forall|j: int, context: Context|
                0 <= j < i ==> (#[trigger] evaluated(expressions@[j], context)) is Some,
        decreases expressions.len() - i,
    {
        if !is_literal(&expressions[i]) {
            return false;
        }
        i += 1;
    }
    proof {
        assert forall|context: Context| (#[trigger] evaluated_all(
            expressions@,
            context,
        )) is Some by {
            lemma_all_return(expressions@, context);
        }
    }
    true
}

/// The error that reports a failed filter: the message "Filter error" around
/// `cause`, and attached to it, in this order, the call's text under
/// `filter`, the text of the value it was given under `input` and the texts
/// of its arguments under `args`.
pub open spec fn filter_failure(
    cause: Error,
    filter: Seq<char>,
    input: Seq<char>,
    arguments: Seq<char>,
) -> Error {
    with_context(
        with_context(
            with_context(chained(cause, "Filter error"@), "filter"@, filter),
            "input"@,
            input,
        ),
        "args"@,
        arguments,
    )
}

/// The text of a call of `name` with arguments that read `arguments`: the
/// name and a colon, and where there are arguments, a blank and their texts
/// with a comma and a blank between them.
pub open spec fn call_text(name: Seq<char>, arguments: Seq<Seq<char>>) -> Seq<char> {
    if arguments.len() == 0 {
        name + ":"@
    } else {
        name + ": "@ + joined(arguments, ", "@)
    }
}

/// Reports a failed filter: see [`filter_failure`].
pub fn report(cause: Error, filter: String, input: String, arguments: String) -> (result:
    FilterResult)
    ensures
        result == Err::<Value, Error>(filter_failure(cause, filter@, input@, arguments@)),
{
    let failed = chain(Err(cause), "Filter error");
    let failed = attach_context(failed, "filter", filter);
    let failed = attach_context(failed, "input", input);
    attach_context(failed, "args", arguments)
}

/// A call of a filter.
#[derive(Clone, Debug)]
pub struct FilterCall<F: FilterValue = BoxedValueFilter> {
    name: String,
    filter: F,
    arguments: Vec<Expression>,
}

impl<F: FilterValue> FilterCall<F> {
    /// The name that the call is written with.
    pub closed spec fn name(&self) -> Seq<char> {
        self.name@
    }

    /// The filter that the call applies.
    pub closed spec fn filter(&self) -> F {
        self.filter
    }

    /// The expressions that give the arguments, in order.
    pub closed spec fn arguments(&self) -> Seq<Expression> {
        self.arguments@
    }

    /// Whether `text` is a text of the call: the [`call_text`] of its name and
    /// of a text of each argument's expression.
    pub open spec fn shown(&self, text: Seq<char>) -> bool {
        exists|arguments: Seq<Seq<char>>|
            {
                &&& #[trigger] expression_texts(self.arguments(), arguments)
                &&& text == call_text(self.name(), arguments)
            }
    }

    /// Whether `error` reports that the filter failed with `cause` on `input`
    /// and `arguments`: a [`filter_failure`] that carries a text of this
    /// call, a text of `input` and the texts of `arguments`, joined by a
    /// comma and a blank.
    pub open spec fn reports(
        &self,
        cause: Error,
        input: Value,
        arguments: Seq<Value>,
        error: Error,
    ) -> bool {
        exists|call: Seq<char>, given: Seq<char>, list: Seq<Seq<char>>|
            #![trigger self.shown(call), value_text(input, given), value_texts(arguments, list)]
            {
                &&& self.shown(call)
                &&& value_text(input, given)
                &&& value_texts(arguments, list)
                &&& error == filter_failure(cause, call, given, joined(list, ", "@))
            }
    }

    /// Whether `result` is what the call returns once its filter, applied to
    /// `input` and `arguments`, has come back with `outcome`: a value is
    /// handed on as it is, a failure is reported.
    pub open spec fn settles(
        &self,
        outcome: FilterResult,
        input: Value,
        arguments: Seq<Value>,
        result: FilterResult,
    ) -> bool {
        match outcome {
            Ok(value) => result == Ok::<Value, Error>(value),
            Err(cause) => match result {
                Ok(_) => false,
                Err(error) => self.reports(cause, input, arguments, error),
            },
        }
    }

    /// Whether the call's arguments can be evaluated in `context`: whether
    /// every evaluation that is reached returns.
    pub open spec fn evaluates(&self, context: Context) -> bool {
        evaluated_all(self.arguments(), context) is Some
    }

    /// Whether `result` is an outcome of the call on `input` in `context`.
    ///
    /// Where an argument fails, the result is that error as it is and the
    /// filter is not called. Else the filter is called on `input` and on all
    /// the arguments' values, and the result is what [`Self::settles`] makes
    /// of its outcome.
    pub open spec fn admits(&self, context: Context, input: Value, result: FilterResult) -> bool {
        match evaluated_all(self.arguments(), context) {
            None => false,
            Some(Err(error)) => result == Err::<Value, Error>(error),
            Some(Ok(arguments)) => exists|outcome: FilterResult|
                {
                    &&& #[trigger] self.filter().yields(input, arguments, outcome)
                    &&& self.settles(outcome, input, arguments, result)
                },
        }
    }

    /// Makes a call of `filter` under `name`, with `arguments` still to be
    /// evaluated.
    pub fn new(name: &str, filter: F, arguments: Vec<Expression>) -> (call: Self)
        ensures
            call.name() == name@,
            call.filter() == filter,
            call.arguments() == arguments@,
    {
        FilterCall { name: name.to_owned(), filter, arguments }
    }

    /// The text of the call, as a template would write it.
    pub fn to_string(&self) -> (text: String)
        ensures
            self.shown(text@),
    {
        let arguments = write_expressions(&self.arguments);
        let mut text = self.name.clone();
        if arguments.len() == 0 {
            text.append(":");
        } else {
            proof {
                reveal_strlit(", ");
            }
            let list = join(&arguments, ", ");
            text.append(": ");
            text.append(list.as_str());
        }
        proof {
            assert(expression_texts(self.arguments(), views(arguments@)));
        }
        text
    }

    /// What the call returns once its filter has come back with `outcome`.
    /// The texts of a report are made only here, after a failure.
    pub fn settle(&self, outcome: FilterResult, input: &Value, arguments: &Vec<Value>) -> (result:
        FilterResult)
        ensures
            self.settles(outcome, *input, arguments@, result),
    {
        match outcome {
            Ok(value) => Ok(value),
            Err(cause) => {
                let call = self.to_string();
                let given = input.to_string();
                let texts = write_values(arguments);
                proof {
                    reveal_strlit(", ");
                }
                let list = join(&texts, ", ");
                let result = report(cause, call, given, list);
                proof {
                    assert(self.shown(call@));
                    assert(value_text(*input, given@));
                    assert(value_texts(arguments@, views(texts@)));
                }
                result
            },
        }
    }

    /// Tests whether all arguments of the call are literals. If so, the call
    /// can be evaluated in every context.
    pub fn has_literal_arguments(&self) -> (yes: bool)
        ensures
            yes == all_literals(self.arguments()),
            yes ==> forall|context: Context| #[trigger] self.evaluates(context),
    {
        only_literals(&self.arguments)
    }

    /// Applies the filter to `entry` as [`Self::evaluate`] does, where the
    /// arguments are known to evaluate: where all of them are literals. Where
    /// one is a variable, nothing is evaluated and there is no result.
    pub fn try_evaluate(&self, context: &Context, entry: &Value) -> (result: Option<FilterResult>)
        ensures
            match result {
                None => !all_literals(self.arguments()),
                Some(outcome) => {
                    &&& all_literals(self.arguments())
                    &&& self.admits(*context, *entry, outcome)
                },
            },
    {
        if self.has_literal_arguments() {
            Some(self.evaluate(context, entry))
        } else {
            None
        }
    }

    /// Applies the filter to `entry`: evaluates the arguments in `context`,
    /// calls the filter and reports its failure.
    ///
    /// The arguments must be such that their evaluation returns.
    pub fn evaluate(&self, context: &Context, entry: &Value) -> (result: FilterResult)
        requires
            self.evaluates(*context),
        ensures
            self.admits(*context, *entry, result),
    {
        let arguments = match evaluate_all(&self.arguments, context) {
            Ok(values) => values,
            Err(error) => {
                return Err(error);
            },
        };
        let outcome = self.filter.filter(entry, arguments.as_slice());
        let result = self.settle(outcome, entry, &arguments);
        proof {
            let values = evaluated_all(self.arguments(), *context)->Some_0->Ok_0;
            assert(self.filter().yields(*entry, values, outcome));
        }
        result
    }
}

} // verus!

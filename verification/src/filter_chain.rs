//! A chain of filters behind an entry: the value of the entry goes through
//! the filters in the order in which they stand.

use vstd::prelude::*;

use liquid_error::Error;
use liquid_interpreter::Context;
use liquid_interpreter::Expression;
use liquid_value::Value;

use crate::filter::{BoxedValueFilter, FilterResult, FilterValue};
use crate::filter_call::{all_literals, FilterCall};
use crate::text::{expression_text, joined, views};
use crate::trusted::{evaluate_expression, evaluated, is_literal, join, literal};

verus! {

/// Whether filter `i` may turn `values[i]` into `values[i + 1]`.
pub open spec fn step<F: FilterValue>(
    filters: Seq<FilterCall<F>>,
    context: Context,
    values: Seq<Value>,
    i: int,
) -> bool {
    filters[i].admits(context, values[i], Ok::<Value, Error>(values[i + 1]))
}

/// Whether `values` is a run through the leading filters: the first value is
/// handed to the first filter, and what each filter gives is handed to the
/// next. A run of one value has called no filter.
pub open spec fn run<F: FilterValue>(
    filters: Seq<FilterCall<F>>,
    context: Context,
    values: Seq<Value>,
) -> bool {
    &&& 1 <= values.len() <= filters.len() + 1
    &&& forall|i: int| 0 <= i < values.len() - 1 ==> #[trigger] step(filters, context, values, i)
}

/// Whether `texts` holds, place by place, a text of each of `calls`.
pub open spec fn call_texts<F: FilterValue>(calls: Seq<FilterCall<F>>, texts: Seq<Seq<char>>) -> bool {
    &&& texts.len() == calls.len()
    &&& forall|i: int| 0 <= i < calls.len() ==> #[trigger] calls[i].shown(texts[i])
}

/// An entry and the filters that its value goes through.
#[derive(Clone, Debug)]
pub struct FilterChain<F: FilterValue = BoxedValueFilter> {
    entry: Expression,
    filters: Vec<FilterCall<F>>,
}

impl<F: FilterValue> FilterChain<F> {
    /// The expression that gives the first value.
    pub closed spec fn entry(&self) -> Expression {
        self.entry
    }

    /// The calls, in the order in which they apply.
    pub closed spec fn filters(&self) -> Seq<FilterCall<F>> {
        self.filters@
    }

    /// Whether `result` may come of handing `first` through the filters.
    ///
    /// A value is the end of a run through all of them. An error is the
    /// failure of the filter at which a run stops: the filters behind it are
    /// not called, and the error is not touched again.
    pub open spec fn folds(&self, context: Context, first: Value, result: FilterResult) -> bool {
        exists|values: Seq<Value>|
            {
                &&& #[trigger] run(self.filters(), context, values)
                &&& values[0] == first
                &&& match result {
                    Ok(value) => {
                        &&& values.len() == self.filters().len() + 1
                        &&& values.last() == value
                    },
                    Err(error) => {
                        &&& values.len() <= self.filters().len()
                        &&& self.filters()[values.len() - 1].admits(
                            context,
                            values.last(),
                            Err::<Value, Error>(error),
                        )
                    },
                }
            }
    }

    /// Whether the chain can be evaluated in `context`: whether every
    /// evaluation of an expression that is reached returns. That is the
    /// entry's, and for every run that comes to a filter, that filter's
    /// arguments'.
    pub open spec fn evaluates(&self, context: Context) -> bool {
        match evaluated(self.entry(), context) {
            None => false,
            Some(Err(_)) => true,
            Some(Ok(first)) => forall|values: Seq<Value>|
                {
                    &&& #[trigger] run(self.filters(), context, values)
                    &&& values[0] == first
                    &&& values.len() <= self.filters().len()
                } ==> self.filters()[values.len() - 1].evaluates(context),
        }
    }

    /// Whether the entry and all arguments of all calls are literals.
    pub open spec fn only_literals(&self) -> bool {
        &&& literal(self.entry())
        &&& forall|i: int|
            0 <= i < self.filters().len() ==> all_literals(
                (#[trigger] self.filters()[i]).arguments(),
            )
    }

    /// Whether `result` is an outcome of evaluating the chain in `context`.
    ///
    /// Where the entry fails, the result is that error as it is. Else the
    /// entry's value is handed through the filters: see [`Self::folds`].
    pub open spec fn admits(&self, context: Context, result: FilterResult) -> bool {
        match evaluated(self.entry(), context) {
            None => false,
            Some(Err(error)) => result == Err::<Value, Error>(error),
            Some(Ok(first)) => self.folds(context, first, result),
        }
    }

    /// Whether `text` is a text of the chain: a text of the entry, then a bar
    /// between blanks, then a text of each call with a bar between blanks
    /// between them.
    pub open spec fn shown(&self, text: Seq<char>) -> bool {
        exists|entry: Seq<char>, calls: Seq<Seq<char>>|
            #![trigger expression_text(self.entry(), entry), call_texts(self.filters(), calls)]
            {
                &&& expression_text(self.entry(), entry)
                &&& call_texts(self.filters(), calls)
                &&& text == entry + " | "@ + joined(calls, " | "@)
            }
    }

    /// Makes the chain of `filters` behind `entry`.
    pub fn new(entry: Expression, filters: Vec<FilterCall<F>>) -> (chain: Self)
        ensures
            chain.entry() == entry,
            chain.filters() == filters@,
    {
        FilterChain { entry, filters }
    }

    /// Evaluates the entry in `context` and hands its value through the
    /// filters, in order. Stops at the first failure and returns it.
    ///
    /// The chain must be such that the evaluations that are reached return.
    pub fn evaluate(&self, context: &Context) -> (result: FilterResult)
        requires
            self.evaluates(*context),
        ensures
            self.admits(*context, result),
            self.filters().len() == 0 ==> evaluated(self.entry(), *context) == Some(result),
    {
        let mut entry = match evaluate_expression(&self.entry, context) {
            Ok(value) => value,
            Err(error) => {
                return Err(error);
            },
        };
        let ghost mut values: Seq<Value> = seq![entry];
        let mut i: usize = 0;
        while i < self.filters.len()
            invariant
                i <= self.filters.len(),
                values.len() == i + 1,
                self.evaluates(*context),
                evaluated(self.entry(), *context) == Some(Ok::<Value, Error>(values[0])),
                values.last() == entry,
                run(self.filters(), *context, values),
            decreases self.filters.len() - i,
        {
            match self.filters[i].evaluate(context, &entry) {
                Ok(next) => {
                    proof {
                        let longer = values.push(next);
                        assert forall|j: int| 0 <= j < longer.len() - 1 implies #[trigger] step(
                            self.filters(),
                            *context,
                            longer,
                            j,
                        ) by {
                            if j < i {
                                assert(step(self.filters(), *context, values, j));
                            }
                        }
                        values = longer;
                    }
                    entry = next;
                },
                Err(error) => {
                    return Err(error);
                },
            }
            i += 1;
        }
        Ok(entry)
    }

    /// Tests whether the entry and all arguments of all calls are literals.
    /// If so, the chain can be evaluated in every context.
    pub fn has_only_literals(&self) -> (yes: bool)
        ensures
            yes == self.only_literals(),
            yes ==> forall|context: Context| #[trigger] self.evaluates(context),
    {
        if !is_literal(&self.entry) {
            return false;
        }
        let mut i: usize = 0;
        while i < self.filters.len()
            invariant
                i <= self.filters.len(),
                forall|j: int|
                    0 <= j < i ==> all_literals((#[trigger] self.filters()[j]).arguments()),
                forall|j: int, context: Context|
                    0 <= j < i ==> #[trigger] self.filters()[j].evaluates(context),
            decreases self.filters.len() - i,
        {
            if !self.filters[i].has_literal_arguments() {
                assert(!all_literals(self.filters()[i as int].arguments()));
                return false;
            }
            i += 1;
        }
        true
    }

    /// Evaluates the chain as [`Self::evaluate`] does, where its expressions
    /// are known to evaluate: where all of them are literals. Where one is a
    /// variable, nothing is evaluated and there is no result.
    pub fn try_evaluate(&self, context: &Context) -> (result: Option<FilterResult>)
        ensures
            match result {
                None => !self.only_literals(),
                Some(outcome) => {
                    &&& self.only_literals()
                    &&& self.admits(*context, outcome)
                    &&& self.filters().len() == 0 ==> evaluated(self.entry(), *context) == Some(
                        outcome,
                    )
                },
            },
    {
        if self.has_only_literals() {
            Some(self.evaluate(context))
        } else {
            None
        }
    }

    /// The text of the chain, as a template would write it.
    pub fn to_string(&self) -> (text: String)
        ensures
            self.shown(text@),
    {
        let mut calls: Vec<String> = Vec::new();
        let mut i: usize = 0;
        while i < self.filters.len()
            invariant
                i <= self.filters.len(),
                calls.len() == i,
                forall|j: int| 0 <= j < i ==> #[trigger] self.filters()[j].shown(calls@[j]@),
            decreases self.filters.len() - i,
        {
            let call = self.filters[i].to_string();
            calls.push(call);
            i += 1;
        }
        proof {
            reveal_strlit(" | ");
        }
        let list = join(&calls, " | ");
        let mut text = self.entry.to_string();
        proof {
            assert(expression_text(self.entry(), text@));
            assert(call_texts(self.filters(), views(calls@)));
        }
        text.append(" | ");
        text.append(list.as_str());
        text
    }
}

} // verus!

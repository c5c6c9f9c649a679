//! What is taken on trust: the types of the `liquid` crates that the chain
//! carries, and the calls into them and into `itertools`. Verus believes the
//! contracts in this module without proof; every other module is proved from
//! them.

use vstd::prelude::*;

use liquid_error::Error;
use liquid_error::ResultLiquidChainExt;
use liquid_error::ResultLiquidExt;
use liquid_interpreter::Context;
use liquid_interpreter::Expression;
use liquid_value::Value;

use crate::text::{joined, views};

verus! {

/// `liquid_value::Value`: a value of the template language. The chain hands
/// values on and never looks inside one.
#[verifier::external_type_specification]
#[verifier::external_body]
pub struct ExValue(Value);

/// `liquid_interpreter::Expression`: a literal or a variable, not yet
/// evaluated.
#[verifier::external_type_specification]
#[verifier::external_body]
pub struct ExExpression(Expression);

/// `liquid_interpreter::Context`: the variables that expressions are
/// evaluated against.
#[verifier::external_type_specification]
#[verifier::external_body]
pub struct ExContext<'g>(Context<'g>);

/// `liquid_error::Error`: a message, the context attached to it and its
/// cause.
#[verifier::external_type_specification]
#[verifier::external_body]
pub struct ExError(Error);

/// `std::io::Error`: what a sink reports when a write fails.
#[verifier::external_type_specification]
#[verifier::external_body]
pub struct ExIoError(std::io::Error);

/// `Clone` for `Expression`, which the derived `Clone` of a chain calls for
/// its entry. Nothing is claimed of the copy.
pub assume_specification[ <Expression as Clone>::clone ](expression: &Expression) -> (copy:
    Expression)
;

/// What a call of `Expression::evaluate` on `expression` and `context` comes
/// to: `Some` of what the call returns, or `None` where it does not return.
///
/// Evaluation only reads: a literal gives a copy of itself, a variable is
/// looked up in the context's stack. So what the call comes to is taken to
/// be decided by the expression and the context as they stand. Globals that
/// a caller has put into the context are taken to answer a lookup the same
/// way each time.
pub uninterp spec fn evaluated(expression: Expression, context: Context) -> Option<
    Result<Value, Error>,
>;

/// Calls `Expression::evaluate`, and claims that what comes back is what
/// [`evaluated`] says of the two arguments.
///
/// The call must be one that returns. The crate has a lookup that does not:
/// for `last` in an empty array it takes one from the length, which panics
/// where arithmetic is checked for overflow. A lookup in globals that a
/// caller has put into the context may panic too.
#[verifier::external_body]
pub(crate) fn evaluate_expression(expression: &Expression, context: &Context) -> (outcome: Result<
    Value,
    Error,
>)
    requires
        evaluated(*expression, *context) is Some,
    ensures
        evaluated(*expression, *context) == Some(outcome),
{
    expression.evaluate(context)
}

/// Whether `expression` is a literal, the variant `Expression::Literal`, and
/// not a variable.
pub uninterp spec fn literal(expression: Expression) -> bool;

/// Tells the two variants of `Expression` apart. `Expression::evaluate`
/// answers a literal with a copy of its value and asks the context nothing,
/// so the evaluation of a literal returns in every context.
#[verifier::external_body]
pub(crate) fn is_literal(expression: &Expression) -> (yes: bool)
    ensures
        yes == literal(*expression),
        yes ==> forall|context: Context| (#[trigger] evaluated(*expression, context)) is Some,
{
    match expression {
        Expression::Literal(_) => true,
        Expression::Variable(_) => false,
    }
}

/// The error that `ResultLiquidChainExt::chain` builds around `cause`: a
/// fresh error whose message is `message`, with nothing attached and with
/// `cause` kept as its cause.
pub uninterp spec fn chained(cause: Error, message: Seq<char>) -> Error;

/// Calls `ResultLiquidChainExt::chain` on the outcome of a filter. The crate
/// maps the error and leaves a success alone: a value comes back as it went
/// in, an error comes back as [`chained`] of it and the message.
#[verifier::external_body]
pub(crate) fn chain(outcome: Result<Value, Error>, message: &'static str) -> (wrapped: Result<
    Value,
    Error,
>)
    ensures
        wrapped == (match outcome {
            Ok(value) => Ok::<Value, Error>(value),
            Err(cause) => Err::<Value, Error>(chained(cause, message@)),
        }),
{
    outcome.chain(message)
}

/// The error that `Error::context` returns: `error` with the pair of `key`
/// and `value` attached behind what was attached before. Message and cause
/// stay.
pub uninterp spec fn with_context(error: Error, key: Seq<char>, value: Seq<char>) -> Error;

/// Calls `ResultLiquidExt::context`, which hands an error to
/// `Error::context` and leaves a success alone: a value comes back as it went
/// in, an error comes back as [`with_context`] of it, the key and the value.
#[verifier::external_body]
pub(crate) fn attach_context(outcome: Result<Value, Error>, key: &'static str, value: String) -> (noted:
    Result<Value, Error>)
    ensures
        noted == (match outcome {
            Ok(value) => Ok::<Value, Error>(value),
            Err(error) => Err::<Value, Error>(with_context(error, key@, value@)),
        }),
{
    outcome.context(key, value)
}

/// The error that `ResultLiquidChainExt::chain` builds around the error of a
/// sink: a fresh error whose message is `message`, with nothing attached and
/// with `cause` kept as its cause.
pub uninterp spec fn chained_io(cause: std::io::Error, message: Seq<char>) -> Error;

/// Calls `ResultLiquidChainExt::chain` on the outcome of a write. A success
/// stays a success, an error comes back as [`chained_io`] of it and the
/// message.
#[verifier::external_body]
pub(crate) fn chain_io(outcome: Result<(), std::io::Error>, message: &'static str) -> (wrapped:
    Result<(), Error>)
    ensures
        wrapped == (match outcome {
            Ok(_) => Ok::<(), Error>(()),
            Err(cause) => Err::<(), Error>(chained_io(cause, message@)),
        }),
{
    outcome.chain(message)
}

/// Calls `itertools::join` on strings. The crate writes the first part, then
/// the separator before each further part, which is [`joined`].
///
/// It reserves room for one separator per part before it starts. With a
/// separator of at most three characters that count cannot overflow for a
/// vector that fits in memory.
#[verifier::external_body]
pub(crate) fn join(parts: &Vec<String>, separator: &str) -> (text: String)
    requires
        separator@.len() <= 3,
    ensures
        text@ == joined(views(parts@), separator@),
{
    itertools::join(parts, separator)
}

} // verus!

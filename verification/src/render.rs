//! Rendering a chain: the text of its value, for a sink to take.
//!
//! The chain gives the text and judges what the sink reports; the write
//! itself is the caller's. A render fails in one of two ways, which are kept
//! apart: the chain could not be evaluated, or the sink did not take the text.

use vstd::prelude::*;

use liquid_error::Error;
use liquid_interpreter::Context;
use liquid_value::Value;

use crate::filter::FilterValue;
use crate::filter_chain::FilterChain;
use crate::text::value_text;
use crate::trusted::{chain_io, chained_io};

verus! {

/// Why a render failed.
#[derive(Debug)]
pub enum RenderError {
    /// The chain could not be evaluated. The error is the chain's own, as it
    /// came.
    Evaluation(Error),
    /// The sink did not take the text. The error says so, and keeps the
    /// sink's error as its cause.
    Sink(Error),
}

impl RenderError {
    /// The error inside, of whichever kind.
    pub open spec fn error(self) -> Error {
        match self {
            RenderError::Evaluation(error) => error,
            RenderError::Sink(error) => error,
        }
    }

    /// Gives up the kind and keeps the error.
    pub fn into_error(self) -> (error: Error)
        ensures
            error == self.error(),
    {
        match self {
            RenderError::Evaluation(error) => error,
            RenderError::Sink(error) => error,
        }
    }
}

/// The error for a write that failed with `cause`: the message "failed to
/// render" around the sink's error.
pub open spec fn write_failure(cause: std::io::Error) -> Error {
    chained_io(cause, "failed to render"@)
}

/// Judges what the sink reported of the one write of a render. A write that
/// went through ends the render well. A write that failed ends it with a
/// [`RenderError::Sink`] around the sink's error, never with anything else.
pub fn after_write(written: Result<(), std::io::Error>) -> (result: Result<(), RenderError>)
    ensures
        result == (match written {
            Ok(_) => Ok::<(), RenderError>(()),
            Err(cause) => Err::<(), RenderError>(RenderError::Sink(write_failure(cause))),
        }),
{
    match chain_io(written, "failed to render") {
        Ok(_) => Ok(()),
        Err(error) => Err(RenderError::Sink(error)),
    }
}

impl<F: FilterValue> FilterChain<F> {
    /// Whether `result` is an outcome of rendering the chain in `context`: a
    /// text of a value that the chain evaluates to, or the failure of its
    /// evaluation. Nothing is written here, so no sink fails.
    pub open spec fn renders(&self, context: Context, result: Result<String, RenderError>) -> bool {
        match result {
            Ok(text) => exists|value: Value|
                {
                    &&& #[trigger] self.admits(context, Ok::<Value, Error>(value))
                    &&& value_text(value, text@)
                },
            Err(RenderError::Evaluation(error)) => self.admits(context, Err::<Value, Error>(error)),
            Err(RenderError::Sink(_)) => false,
        }
    }

    /// Evaluates the chain in `context` and gives the text of its value: what
    /// a render writes to its sink, in one piece and unchanged.
    ///
    /// The chain must be such that the evaluations that are reached return.
    pub fn render(&self, context: &Context) -> (result: Result<String, RenderError>)
        requires
            self.evaluates(*context),
        ensures
            self.renders(*context, result),
    {
        match self.evaluate(context) {
            Ok(value) => {
                let text = value.to_string();
                proof {
                    assert(value_text(value, text@));
                }
                Ok(text)
            },
            Err(error) => Err(RenderError::Evaluation(error)),
        }
    }

    /// Renders the chain as [`Self::render`] does, where its expressions are
    /// known to evaluate: where all of them are literals. Where one is a
    /// variable, nothing is evaluated and there is no result.
    pub fn try_render(&self, context: &Context) -> (result: Option<Result<String, RenderError>>)
        ensures
            match result {
                None => !self.only_literals(),
                Some(outcome) => self.only_literals() && self.renders(*context, outcome),
            },
    {
        if self.has_only_literals() {
            Some(self.render(context))
        } else {
            None
        }
    }
}

} // verus!

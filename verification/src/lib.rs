//! Filter chains of a template language: a base expression followed by an
//! ordered chain of named filters, each with its own arguments.
//!
//! A [`FilterChain`] evaluates its entry in a context and hands the value
//! from filter to filter, left to right. The first failure ends the run. A
//! filter that fails is reported with the call's own text, the value it was
//! given and the arguments it was called with.

pub mod filter;
pub mod filter_call;
pub mod filter_chain;
pub mod laws;
pub mod render;
pub mod text;
pub mod trusted;

pub use filter::{BoxedValueFilter, FilterResult, FilterValue};
pub use filter_call::FilterCall;
pub use filter_chain::FilterChain;
pub use render::{after_write, RenderError};

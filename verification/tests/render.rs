use std::error::Error as StdError;
use std::io;
use std::io::Write;

use filter_chain::{after_write, FilterCall, FilterChain, FilterResult, FilterValue, RenderError};
use liquid_error::Error;
use liquid_interpreter::{Context, Expression, Variable};
use liquid_value::Value;

struct Upper;

impl FilterValue for Upper {
    fn filter(&self, input: &Value, _arguments: &[Value]) -> FilterResult {
        Ok(Value::scalar(input.to_str().to_uppercase()))
    }
}

struct Refuse;

impl FilterValue for Refuse {
    fn filter(&self, _input: &Value, _arguments: &[Value]) -> FilterResult {
        Err(Error::with_msg("refused"))
    }
}

#[test]
fn render_gives_the_text_of_the_final_value() {
    let chain = FilterChain::new(
        Expression::with_literal("hello world"),
        vec![FilterCall::new("upcase", Upper, vec![])],
    );
    let context = Context::new();
    let text = chain.render(&context).unwrap();
    assert_eq!(text, "HELLO WORLD");
    assert_eq!(text, chain.evaluate(&context).unwrap().to_string());
}

#[test]
fn render_of_a_number_writes_its_digits() {
    let chain: FilterChain<Upper> = FilterChain::new(Expression::with_literal(42), vec![]);
    assert_eq!(chain.render(&Context::new()).unwrap(), "42");
}

#[test]
fn render_of_a_list_writes_its_items() {
    let mut context = Context::new();
    let list = Value::array(vec![Value::scalar(1), Value::scalar("two")]);
    context.stack_mut().set_global("list", list);
    let entry = Expression::Variable(Variable::with_literal("list"));
    let chain: FilterChain<Upper> = FilterChain::new(entry, vec![]);
    assert_eq!(chain.render(&context).unwrap(), "1, two");
}

#[test]
fn render_keeps_a_failed_evaluation_as_it_is() {
    let chain = FilterChain::new(
        Expression::with_literal("in"),
        vec![FilterCall::new("refuse", Refuse, vec![])],
    );
    let context = Context::new();
    let expected = chain.evaluate(&context).unwrap_err().to_string();
    match chain.render(&context) {
        Err(RenderError::Evaluation(error)) => {
            assert_eq!(error.to_string(), expected);
            assert_eq!(
                error.to_string(),
                "liquid: Filter error\n  with:\n    filter=refuse:\n    input=in\n    args=\n"
            );
        }
        other => panic!("expected a failed evaluation, got {:?}", other),
    }
}

#[test]
fn render_keeps_a_failed_entry_as_it_is() {
    let entry = Expression::Variable(Variable::with_literal("absent"));
    let chain: FilterChain<Upper> = FilterChain::new(entry, vec![]);
    match chain.render(&Context::new()) {
        Err(RenderError::Evaluation(error)) => {
            assert_eq!(error.to_string(), "liquid: Unknown variable\n  with:\n    variable=absent\n");
        }
        other => panic!("expected a failed evaluation, got {:?}", other),
    }
}

#[test]
fn write_that_went_through_ends_the_render_well() {
    assert!(after_write(Ok(())).is_ok());
}

#[test]
fn write_that_failed_is_a_sink_error_around_the_cause() {
    let cause = io::Error::new(io::ErrorKind::BrokenPipe, "pipe closed");
    match after_write(Err(cause)) {
        Err(RenderError::Sink(error)) => {
            assert_eq!(error.to_string(), "liquid: failed to render\n");
            assert_eq!(StdError::cause(&error).unwrap().to_string(), "pipe closed");
        }
        other => panic!("expected a sink error, got {:?}", other),
    }
}

/// A sink that takes nothing.
struct Full;

impl Write for Full {
    fn write(&mut self, _buffer: &[u8]) -> io::Result<usize> {
        Err(io::Error::new(io::ErrorKind::Other, "full"))
    }

    fn flush(&mut self) -> io::Result<()> {
        Ok(())
    }
}

#[test]
fn render_into_a_full_sink_fails_with_the_sink_error_as_cause() {
    let chain: FilterChain<Upper> = FilterChain::new(Expression::with_literal("x"), vec![]);
    let text = chain.render(&Context::new()).unwrap();
    assert_eq!(text, "x");
    let written = Full.write_all(text.as_bytes());
    match after_write(written) {
        Err(RenderError::Sink(error)) => {
            assert_eq!(error.to_string(), "liquid: failed to render\n");
            assert_eq!(StdError::cause(&error).unwrap().to_string(), "full");
        }
        other => panic!("expected a sink error, got {:?}", other),
    }
}

#[test]
fn render_into_a_buffer_writes_the_text_unchanged() {
    let chain = FilterChain::new(
        Expression::with_literal("hello"),
        vec![FilterCall::new("upcase", Upper, vec![])],
    );
    let text = chain.render(&Context::new()).unwrap();
    let mut sink: Vec<u8> = Vec::new();
    assert!(after_write(sink.write_all(text.as_bytes())).is_ok());
    assert_eq!(sink, b"HELLO".to_vec());
}

#[test]
fn try_render_of_literals_renders() {
    let chain = FilterChain::new(
        Expression::with_literal("abc"),
        vec![FilterCall::new("upcase", Upper, vec![Expression::with_literal(1)])],
    );
    assert!(chain.has_only_literals());
    let text = chain.try_render(&Context::new()).unwrap().unwrap();
    assert_eq!(text, "ABC");
}

#[test]
fn try_render_keeps_a_failed_filter() {
    let chain = FilterChain::new(
        Expression::with_literal("in"),
        vec![FilterCall::new("refuse", Refuse, vec![])],
    );
    match chain.try_render(&Context::new()) {
        Some(Err(RenderError::Evaluation(error))) => {
            assert_eq!(
                error.to_string(),
                "liquid: Filter error\n  with:\n    filter=refuse:\n    input=in\n    args=\n"
            );
        }
        other => panic!("expected a failed evaluation, got {:?}", other),
    }
}

#[test]
fn try_render_with_a_variable_gives_nothing() {
    let mut context = Context::new();
    context.stack_mut().set_global("page", Value::scalar("here"));
    let entry = Expression::Variable(Variable::with_literal("page"));
    let chain: FilterChain<Upper> = FilterChain::new(entry, vec![]);
    assert!(!chain.has_only_literals());
    assert!(chain.try_render(&context).is_none());
    assert_eq!(chain.render(&context).unwrap(), "here");
}

#[test]
fn into_error_keeps_the_error_of_either_kind() {
    let evaluation = RenderError::Evaluation(Error::with_msg("first"));
    assert_eq!(evaluation.into_error().to_string(), "liquid: first\n");
    let sink = RenderError::Sink(Error::with_msg("second"));
    assert_eq!(sink.into_error().to_string(), "liquid: second\n");
}

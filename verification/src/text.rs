//! The text of values and expressions, and lists of them.
//!
//! How a value is written is up to its `Display`, which may walk a hash map:
//! two writings of equal objects need not agree. So the text of a value is
//! stated as a relation: a text is one that `Display` gave for the value.

use vstd::prelude::*;
use vstd::string::to_string_from_display_ensures;

use liquid_interpreter::Expression;
use liquid_value::Value;

verus! {

/// `parts` in order, with `separator` between each two neighbours. No part
/// gives the empty text; one part gives that part.
pub open spec fn joined(parts: Seq<Seq<char>>, separator: Seq<char>) -> Seq<char>
    decreases parts.len(),
{
    if parts.len() == 0 {
        Seq::empty()
    } else if parts.len() == 1 {
        parts[0]
    } else {
        joined(parts.drop_last(), separator) + separator + parts.last()
    }
}

/// The characters of each string.
pub open spec fn views(strings: Seq<String>) -> Seq<Seq<char>> {
    strings.map_values(|s: String| s@)
}

/// Whether `text` is a text that `Display` gives of `value`.
pub open spec fn value_text(value: Value, text: Seq<char>) -> bool {
    exists|s: String| s@ == text && #[trigger] to_string_from_display_ensures::<Value>(&value, s)
}

/// Whether `text` is a text that `Display` gives of `expression`.
pub open spec fn expression_text(expression: Expression, text: Seq<char>) -> bool {
    exists|s: String|
        s@ == text && #[trigger] to_string_from_display_ensures::<Expression>(&expression, s)
}

/// Whether `texts` holds, place by place, a text of each of `values`.
pub open spec fn value_texts(values: Seq<Value>, texts: Seq<Seq<char>>) -> bool {
    &&& texts.len() == values.len()
    &&& forall|i: int| 0 <= i < values.len() ==> #[trigger] value_text(values[i], texts[i])
}

/// Whether `texts` holds, place by place, a text of each of `expressions`.
pub open spec fn expression_texts(expressions: Seq<Expression>, texts: Seq<Seq<char>>) -> bool {
    &&& texts.len() == expressions.len()
    &&& forall|i: int|
        0 <= i < expressions.len() ==> #[trigger] expression_text(expressions[i], texts[i])
}

/// Writes each value, in order.
pub(crate) fn write_values(values: &Vec<Value>) -> (texts: Vec<String>)
    ensures
        value_texts(values@, views(texts@)),
{
    let mut texts: Vec<String> = Vec::new();
    let mut i: usize = 0;
    while i < values.len()
        invariant
            i <= values.len(),
            texts.len() == i,
            forall|j: int| 0 <= j < i ==> #[trigger] value_text(values@[j], texts@[j]@),
        decreases values.len() - i,
    {
        let text = values[i].to_string();
        texts.push(text);
        i += 1;
    }
    texts
}

/// Writes each expression, in order.
pub(crate) fn write_expressions(expressions: &Vec<Expression>) -> (texts: Vec<String>)
    ensures
        expression_texts(expressions@, views(texts@)),
{
    let mut texts: Vec<String> = Vec::new();
    let mut i: usize = 0;
    while i < expressions.len()
        invariant
            i <= expressions.len(),
            texts.len() == i,
            forall|j: int|
                0 <= j < i ==> #[trigger] expression_text(expressions@[j], texts@[j]@),
        decreases expressions.len() - i,
    {
        let text = expressions[i].to_string();
        texts.push(text);
        i += 1;
    }
    texts
}

} // verus!

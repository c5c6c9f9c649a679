//! Filters: what a chain applies to a value.

use vstd::prelude::*;

use liquid_error::Error;
use liquid_value::Value;

verus! {

/// What a filter returns: the new value, or why there is none.
pub type FilterResult = Result<Value, Error>;

/// A filter: a transformation of a value, steered by arguments.
///
/// The chain never looks inside a filter. It calls `filter` and goes by what
/// comes back.
pub trait FilterValue: Send + Sync {
    /// Whether `result` is an outcome that this filter may have for `input`
    /// and `arguments`. A filter that says nothing of itself admits every
    /// outcome; one that is verified states here what it computes.
    open spec fn yields(&self, input: Value, arguments: Seq<Value>, result: FilterResult) -> bool {
        true
    }

    /// Filters `input`, steered by `arguments`.
    fn filter(&self, input: &Value, arguments: &[Value]) -> (result: FilterResult)
        ensures
            self.yields(*input, arguments@, result),
    ;
}

/// A box behind a type parameter. Moving a trait object into a field whose
/// type is fixed converts it, and Verus does not see through that
/// conversion; moving it into a field of a type to be inferred does not.
struct Owned<T: ?Sized> {
    filter: Box<T>,
}

/// An owned filter of any kind, so that filters of different types can stand
/// in one chain.
pub struct BoxedValueFilter {
    owned: Owned<dyn FilterValue>,
}

impl BoxedValueFilter {
    /// Takes the filter over: the box yields what `filter` yields, and
    /// nothing else.
    pub fn new(filter: Box<dyn FilterValue>) -> (boxed: Self)
        ensures
            forall|input: Value, arguments: Seq<Value>, result: FilterResult|
                #[trigger] boxed.yields(input, arguments, result) == filter.yields(
                    input,
                    arguments,
                    result,
                ),
    {
        let owned = Owned { filter };
        BoxedValueFilter { owned }
    }
}

impl FilterValue for BoxedValueFilter {
    /// What the filter in the box yields.
    closed spec fn yields(&self, input: Value, arguments: Seq<Value>, result: FilterResult) -> bool {
        self.owned.filter.yields(input, arguments, result)
    }

    fn filter(&self, input: &Value, arguments: &[Value]) -> (result: FilterResult) {
        self.owned.filter.filter(input, arguments)
    }
}

} // verus!

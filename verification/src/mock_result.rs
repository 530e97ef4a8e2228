use vstd::prelude::*;

verus! {

/// Controls the intercepted function's behavior when returned from a
/// replacement behavior.
///
/// Exactly one variant is populated; there is no coercion between them.
#[derive(Debug, PartialEq, Eq)]
pub enum MockResult<T, O> {
    /// The intercepted function runs normally, as if it was called with
    /// the given arguments. The arguments are carried inside the variant
    /// as a tuple.
    Continue(T),
    /// The intercepted function returns immediately with the given value,
    /// skipping its real body.
    Return(O),
}

} // verus!

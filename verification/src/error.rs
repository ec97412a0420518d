use vstd::prelude::*;

verus! {

/// The reasons a kernel, a data set or a Gaussian process is refused.
#[derive(Debug, Clone, PartialEq, Eq)]
pub enum Error {
    /// A parameter that must be strictly positive is not; `index` is the
    /// position of the offending entry when the parameter is a vector.
    NonPositiveParameter { name: &'static str, index: Option<usize> },
    /// A vector parameter that must not be empty is empty.
    Empty(&'static str),
    /// Two dimensions that must agree do not.
    DimensionMismatch { context: &'static str, expected: usize, actual: usize },
}

/// Builds the error for two dimensions that disagree.
pub fn dim_error(context: &'static str, expected: usize, actual: usize) -> (e: Error)
    ensures
        e == (Error::DimensionMismatch { context, expected, actual }),
{
    Error::DimensionMismatch { context, expected, actual }
}

} // verus!

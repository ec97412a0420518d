use vstd::prelude::*;

use crate::error::{dim_error, Error};

verus! {

/// A stationary covariance kernel, seen through the length of the input
/// difference vectors it is defined on. Implementations give that length as
/// `dimension`, which contracts speak of, and return it from
/// `input_dimension`.
pub trait StationaryKernel {
    spec fn dimension(&self) -> usize;

    fn input_dimension(&self) -> (d: usize)
        ensures
            d == self.dimension(),
    ;
}

/// Checks that two kernels take inputs of the same length and returns it.
pub fn require_same_kernel_dimension<L: StationaryKernel, R: StationaryKernel>(
    left: &L,
    right: &R,
    context: &'static str,
) -> (res: Result<usize, Error>)
    ensures
        left.dimension() == right.dimension() ==> res == Ok::<usize, Error>(left.dimension()),
        left.dimension() != right.dimension() ==> res == Err::<usize, Error>(
            Error::DimensionMismatch {
                context,
                expected: left.dimension(),
                actual: right.dimension(),
            },
        ),
{
    let l = left.input_dimension();
    let r = right.input_dimension();
    if l != r {
        return Err(dim_error(context, l, r));
    }
    Ok(l)
}

/// The sum of two kernels that take inputs of the same length.
#[derive(Debug, Clone)]
pub struct KernelSum<L, R> {
    left: L,
    right: R,
    input_dimension: usize,
}

impl<L: StationaryKernel, R: StationaryKernel> KernelSum<L, R> {
    /// Both operands take inputs of the recorded length.
    pub closed spec fn well_formed(self) -> bool {
        &&& self.input_dimension == self.left.dimension()
        &&& self.input_dimension == self.right.dimension()
    }

    pub closed spec fn left_kernel(self) -> L {
        self.left
    }

    pub closed spec fn right_kernel(self) -> R {
        self.right
    }

    /// Both operands of a combined kernel take inputs of the combined kernel's
    /// length.
    pub proof fn lemma_operands_share_dimension(self)
        requires
            self.well_formed(),
        ensures
            self.left_kernel().dimension() == self.dimension(),
            self.right_kernel().dimension() == self.dimension(),
    {
    }

    /// Combines two kernels; refused when their input lengths differ.
    pub fn new(left: L, right: R) -> (res: Result<Self, Error>)
        ensures
            res is Ok <==> left.dimension() == right.dimension(),
            res matches Ok(s) ==> {
                &&& s.left_kernel() == left
                &&& s.right_kernel() == right
                &&& s.dimension() == left.dimension()
                &&& s.well_formed()
            },
            res matches Err(e) ==> e == (Error::DimensionMismatch {
                context: "kernel sum",
                expected: left.dimension(),
                actual: right.dimension(),
            }),
    {
        let input_dimension = match require_same_kernel_dimension(&left, &right, "kernel sum") {
            Ok(d) => d,
            Err(e) => return Err(e),
        };
        Ok(KernelSum { left, right, input_dimension })
    }

    /// The first operand.
    pub fn left(&self) -> (l: &L)
        ensures
            *l == self.left_kernel(),
    {
        &self.left
    }

    /// The second operand.
    pub fn right(&self) -> (r: &R)
        ensures
            *r == self.right_kernel(),
    {
        &self.right
    }
}

impl<L: StationaryKernel, R: StationaryKernel> StationaryKernel for KernelSum<L, R> {
    closed spec fn dimension(&self) -> usize {
        self.input_dimension
    }

    fn input_dimension(&self) -> (d: usize) {
        self.input_dimension
    }
}

/// The product of two kernels that take inputs of the same length.
#[derive(Debug, Clone)]
pub struct KernelProduct<L, R> {
    left: L,
    right: R,
    input_dimension: usize,
}

impl<L: StationaryKernel, R: StationaryKernel> KernelProduct<L, R> {
    /// Both operands take inputs of the recorded length.
    pub closed spec fn well_formed(self) -> bool {
        &&& self.input_dimension == self.left.dimension()
        &&& self.input_dimension == self.right.dimension()
    }

    pub closed spec fn left_kernel(self) -> L {
        self.left
    }

    pub closed spec fn right_kernel(self) -> R {
        self.right
    }

    /// Both operands of a combined kernel take inputs of the combined kernel's
    /// length.
    pub proof fn lemma_operands_share_dimension(self)
        requires
            self.well_formed(),
        ensures
            self.left_kernel().dimension() == self.dimension(),
            self.right_kernel().dimension() == self.dimension(),
    {
    }

    /// Combines two kernels; refused when their input lengths differ.
    pub fn new(left: L, right: R) -> (res: Result<Self, Error>)
        ensures
            res is Ok <==> left.dimension() == right.dimension(),
            res matches Ok(s) ==> {
                &&& s.left_kernel() == left
                &&& s.right_kernel() == right
                &&& s.dimension() == left.dimension()
                &&& s.well_formed()
            },
            res matches Err(e) ==> e == (Error::DimensionMismatch {
                context: "kernel product",
                expected: left.dimension(),
                actual: right.dimension(),
            }),
    {
        let input_dimension = match require_same_kernel_dimension(&left, &right, "kernel product") {
            Ok(d) => d,
            Err(e) => return Err(e),
        };
        Ok(KernelProduct { left, right, input_dimension })
    }

    /// The first operand.
    pub fn left(&self) -> (l: &L)
        ensures
            *l == self.left_kernel(),
    {
        &self.left
    }

    /// The second operand.
    pub fn right(&self) -> (r: &R)
        ensures
            *r == self.right_kernel(),
    {
        &self.right
    }
}

impl<L: StationaryKernel, R: StationaryKernel> StationaryKernel for KernelProduct<L, R> {
    closed spec fn dimension(&self) -> usize {
        self.input_dimension
    }

    fn input_dimension(&self) -> (d: usize) {
        self.input_dimension
    }
}

} // verus!

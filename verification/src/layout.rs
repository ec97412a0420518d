use vstd::prelude::*;

use crate::error::{dim_error, Error};
use crate::kernel::StationaryKernel;

verus! {

/// The number of positions at which `mask` holds.
pub open spec fn count_true(mask: Seq<bool>) -> nat
    decreases mask.len(),
{
    if mask.len() == 0 {
        0
    } else {
        count_true(mask.take(mask.len() - 1)) + if mask[mask.len() - 1] { 1nat } else { 0nat }
    }
}

/// The entries of `values` at the positions where `mask` holds, in order.
pub open spec fn active_entries<T>(mask: Seq<bool>, values: Seq<T>) -> Seq<T>
    decreases mask.len(),
{
    if mask.len() == 0 {
        Seq::empty()
    } else {
        let k = mask.len() - 1;
        let front = active_entries(mask.take(k), values);
        if mask[k] {
            front.push(values[k])
        } else {
            front
        }
    }
}

/// A vector of `mask`'s length that holds the entries of `active`, in order,
/// at the positions where `mask` holds, and `zero` everywhere else.
pub open spec fn expand<T>(mask: Seq<bool>, active: Seq<T>, zero: T) -> Seq<T> {
    Seq::new(
        mask.len(),
        |i: int|
            if mask[i] {
                active[count_true(mask.take(i)) as int]
            } else {
                zero
            },
    )
}

/// Extending a prefix of the mask by one position adds one to the count
/// exactly when that position is active.
pub proof fn lemma_count_true_step(mask: Seq<bool>, n: int)
    requires
        0 <= n < mask.len(),
    ensures
        count_true(mask.take(n + 1)) == count_true(mask.take(n)) + if mask[n] { 1nat } else { 0nat },
{
    assert(mask.take(n + 1).take(n) =~= mask.take(n));
}

proof fn lemma_active_entries_step<T>(mask: Seq<bool>, values: Seq<T>, n: int)
    requires
        0 <= n < mask.len(),
    ensures
        active_entries(mask.take(n + 1), values) == if mask[n] {
            active_entries(mask.take(n), values).push(values[n])
        } else {
            active_entries(mask.take(n), values)
        },
{
    assert(mask.take(n + 1).take(n) =~= mask.take(n));
}

/// The number of active positions never exceeds the length of the mask.
pub proof fn lemma_count_true_bound(mask: Seq<bool>)
    ensures
        count_true(mask) <= mask.len(),
    decreases mask.len(),
{
    if mask.len() > 0 {
        lemma_count_true_bound(mask.take(mask.len() - 1));
    }
}

proof fn lemma_count_true_monotone(mask: Seq<bool>, n: int, m: int)
    requires
        0 <= n <= m <= mask.len(),
    ensures
        count_true(mask.take(n)) <= count_true(mask.take(m)),
    decreases m - n,
{
    if n < m {
        lemma_count_true_step(mask, m - 1);
        lemma_count_true_monotone(mask, n, m - 1);
    }
}

/// A mask with no active position counts zero; a mask active everywhere
/// counts its length.
pub proof fn lemma_count_true_extremes(mask: Seq<bool>)
    ensures
        (forall|i: int| 0 <= i < mask.len() ==> !mask[i]) ==> count_true(mask) == 0,
        (forall|i: int| 0 <= i < mask.len() ==> mask[i]) ==> count_true(mask) == mask.len(),
    decreases mask.len(),
{
    if mask.len() > 0 {
        lemma_count_true_extremes(mask.take(mask.len() - 1));
    }
}

/// The entry gathered for an active position `i` sits at the number of active
/// positions before `i`, and it is the value at `i`.
pub proof fn lemma_active_entry_at<T>(mask: Seq<bool>, values: Seq<T>, i: int)
    requires
        mask.len() <= values.len(),
        0 <= i < mask.len(),
        mask[i],
    ensures
        count_true(mask.take(i)) < active_entries(mask, values).len(),
        active_entries(mask, values)[count_true(mask.take(i)) as int] == values[i],
{
    lemma_active_entries_prefix(mask, values, mask.len() as int);
    assert(mask.take(mask.len() as int) =~= mask);
    lemma_count_true_step(mask, i);
    lemma_count_true_monotone(mask, i + 1, mask.len() as int);
}

/// Gathering the active entries of a vector yields one entry per active position.
pub proof fn lemma_active_entries_len<T>(mask: Seq<bool>, values: Seq<T>)
    ensures
        active_entries(mask, values).len() == count_true(mask),
    decreases mask.len(),
{
    if mask.len() > 0 {
        lemma_active_entries_len(mask.take(mask.len() - 1), values);
    }
}

proof fn lemma_active_entries_prefix<T>(mask: Seq<bool>, values: Seq<T>, n: int)
    requires
        0 <= n <= mask.len(),
        mask.len() <= values.len(),
    ensures
        forall|i: int| 0 <= i < n && mask[i] ==>
            #[trigger] active_entries(mask.take(n), values)[count_true(mask.take(i)) as int] == values[i],
        active_entries(mask.take(n), values).len() == count_true(mask.take(n)),
    decreases n,
{
    lemma_active_entries_len(mask.take(n), values);
    if n > 0 {
        lemma_active_entries_prefix(mask, values, n - 1);
        lemma_active_entries_step(mask, values, n - 1);
        lemma_count_true_step(mask, n - 1);
        assert forall|i: int| 0 <= i < n && mask[i] implies
            #[trigger] active_entries(mask.take(n), values)[count_true(mask.take(i)) as int] == values[i] by {
            if i < n - 1 {
                lemma_count_true_monotone(mask, i + 1, n - 1);
                lemma_count_true_step(mask, i);
            }
        }
    } else {
        assert(mask.take(0) =~= Seq::<bool>::empty());
    }
}

/// Scattering a vector of active values and gathering the active positions
/// again gives back the same values.
pub proof fn lemma_gather_after_scatter<T>(mask: Seq<bool>, active: Seq<T>, zero: T)
    requires
        active.len() == count_true(mask),
    ensures
        active_entries(mask, expand(mask, active, zero)) == active,
{
    lemma_gather_prefix_after_scatter(mask, active, zero, mask.len() as int);
    assert(mask.take(mask.len() as int) =~= mask);
    assert(active.take(active.len() as int) =~= active);
}

proof fn lemma_gather_prefix_after_scatter<T>(mask: Seq<bool>, active: Seq<T>, zero: T, n: int)
    requires
        active.len() == count_true(mask),
        0 <= n <= mask.len(),
    ensures
        count_true(mask.take(n)) <= active.len(),
        active_entries(mask.take(n), expand(mask, active, zero)) == active.take(count_true(mask.take(n)) as int),
    decreases n,
{
    assert(mask.take(mask.len() as int) =~= mask);
    lemma_count_true_monotone(mask, n, mask.len() as int);
    if n == 0 {
        assert(mask.take(0) =~= Seq::<bool>::empty());
        assert(active.take(0) =~= Seq::<T>::empty());
    } else {
        lemma_gather_prefix_after_scatter(mask, active, zero, n - 1);
        lemma_active_entries_step(mask, expand(mask, active, zero), n - 1);
        lemma_count_true_step(mask, n - 1);
        let c = count_true(mask.take(n - 1)) as int;
        if mask[n - 1] {
            assert(active.take(c + 1) =~= active.take(c).push(active[c]));
        }
    }
}

/// Gathering the active entries of a vector and scattering them back keeps
/// the vector where the mask holds and puts `zero` everywhere else.
pub proof fn lemma_scatter_after_gather<T>(mask: Seq<bool>, values: Seq<T>, zero: T)
    requires
        values.len() == mask.len(),
    ensures
        expand(mask, active_entries(mask, values), zero) == Seq::new(
            mask.len(),
            |i: int|
                if mask[i] {
                    values[i]
                } else {
                    zero
                },
        ),
{
    lemma_active_entries_prefix(mask, values, mask.len() as int);
    assert(mask.take(mask.len() as int) =~= mask);
    let lhs = expand(mask, active_entries(mask, values), zero);
    let rhs = Seq::new(mask.len(), |i: int| if mask[i] { values[i] } else { zero });
    assert forall|i: int| 0 <= i < mask.len() implies lhs[i] == rhs[i] by {
        if mask[i] {
            assert(active_entries(mask.take(mask.len() as int), values)[count_true(mask.take(i)) as int] == values[i]);
        }
    }
    assert(lhs =~= rhs);
}

/// The state positions followed by the control positions are `0, 1, ...` up
/// to the input length, each once: with the counts that `state_indices` and
/// `control_indices` are built from, their concatenation is the identity.
pub proof fn lemma_indices_partition(state_count: nat, control_count: nat)
    requires
        state_count + control_count <= usize::MAX,
    ensures
        Seq::new(state_count, |i: int| i as usize) + Seq::new(control_count, |i: int| (state_count + i) as usize)
            == Seq::new(state_count + control_count, |i: int| i as usize),
{
    assert(Seq::new(state_count, |i: int| i as usize) + Seq::new(control_count, |i: int| (state_count + i) as usize)
        =~= Seq::new(state_count + control_count, |i: int| i as usize));
}

/// Counts the positions at which `mask` holds.
pub fn count_dependencies(mask: &[bool]) -> (c: usize)
    ensures
        c == count_true(mask@),
{
    let n = mask.len();
    let mut c: usize = 0;
    for i in 0..n
        invariant
            n == mask@.len(),
            c == count_true(mask@.take(i as int)),
    {
        proof {
            lemma_count_true_step(mask@, i as int);
            lemma_count_true_bound(mask@.take(i as int + 1));
        }
        if mask[i] {
            c = c + 1;
        }
    }
    assert(mask@.take(n as int) =~= mask@);
    c
}

/// Places the entries of `active`, in order, at the positions where `mask`
/// holds, and `zero` at the others.
pub fn scatter_active<T: Copy>(mask: &[bool], active: &[T], zero: T) -> (out: Vec<T>)
    requires
        count_true(mask@) <= active@.len(),
    ensures
        out@ == expand(mask@, active@, zero),
{
    let n = mask.len();
    let mut out: Vec<T> = Vec::new();
    let mut index: usize = 0;
    for i in 0..n
        invariant
            n == mask@.len(),
            count_true(mask@) <= active@.len(),
            index == count_true(mask@.take(i as int)),
            out@.len() == i,
            forall|j: int| 0 <= j < i ==> out@[j] == expand(mask@, active@, zero)[j],
    {
        proof {
            lemma_count_true_step(mask@, i as int);
            assert(mask@.take(n as int) =~= mask@);
            lemma_count_true_monotone(mask@, i as int + 1, n as int);
        }
        if mask[i] {
            out.push(active[index]);
            index = index + 1;
        } else {
            out.push(zero);
        }
    }
    assert(out@ =~= expand(mask@, active@, zero));
    out
}

/// Appends the entries of `values` at the positions where `mask` holds.
fn push_active<T: Copy>(mask: &[bool], values: &[T], out: &mut Vec<T>)
    requires
        mask@.len() == values@.len(),
    ensures
        final(out)@ == old(out)@ + active_entries(mask@, values@),
{
    let n = mask.len();
    let ghost start = out@;
    for i in 0..n
        invariant
            n == mask@.len(),
            n == values@.len(),
            out@ == start + active_entries(mask@.take(i as int), values@),
    {
        proof {
            lemma_active_entries_step(mask@, values@, i as int);
        }
        if mask[i] {
            out.push(values[i]);
        }
        assert(out@ =~= start + active_entries(mask@.take(i as int + 1), values@));
    }
    assert(mask@.take(n as int) =~= mask@);
}

/// How a Gaussian process reads its inputs: which state and control entries
/// it depends on, and where their derivatives sit among the kernel's inputs.
/// The kernel's input vector lists the active state entries, then the active
/// control entries.
#[derive(Debug)]
pub struct InputLayout {
    state_dependency: Vec<bool>,
    control_dependency: Vec<bool>,
    state_indices: Vec<usize>,
    control_indices: Vec<usize>,
    input_dimension: usize,
}

impl InputLayout {
    #[verifier::type_invariant]
    spec fn consistent(self) -> bool {
        &&& count_true(self.state_dependency@) + count_true(self.control_dependency@) == self.input_dimension
        &&& self.state_indices@ == Seq::new(count_true(self.state_dependency@), |i: int| i as usize)
        &&& self.control_indices@ == Seq::new(
            count_true(self.control_dependency@),
            |i: int| (count_true(self.state_dependency@) + i) as usize,
        )
    }

    /// The state entries the model depends on.
    pub closed spec fn state_mask(self) -> Seq<bool> {
        self.state_dependency@
    }

    /// The control entries the model depends on.
    pub closed spec fn control_mask(self) -> Seq<bool> {
        self.control_dependency@
    }

    /// The length of the kernel's input vector.
    pub closed spec fn dimension(self) -> nat {
        self.input_dimension as nat
    }

    /// Checks a process's input layout against its kernel: the training inputs
    /// have `input_dimension` rows, the kernel must take inputs of that length,
    /// and the state and control entries the model depends on must number
    /// exactly that many.
    pub fn new<K: StationaryKernel>(
        input_dimension: usize,
        kernel: &K,
        state_dependency: Vec<bool>,
        control_dependency: Vec<bool>,
    ) -> (res: Result<Self, Error>)
        requires
            state_dependency@.len() + control_dependency@.len() <= usize::MAX,
        ensures
            input_dimension != kernel.dimension() ==> res == Err::<Self, Error>(Error::DimensionMismatch {
                context: "gaussian process kernel",
                expected: kernel.dimension(),
                actual: input_dimension,
            }),
            input_dimension == kernel.dimension() && count_true(state_dependency@) + count_true(control_dependency@)
                != input_dimension ==> res == Err::<Self, Error>(Error::DimensionMismatch {
                context: "gaussian process dependencies",
                expected: input_dimension,
                actual: (count_true(state_dependency@) + count_true(control_dependency@)) as usize,
            }),
            res is Ok <==> input_dimension == kernel.dimension() && count_true(state_dependency@) + count_true(
                control_dependency@,
            ) == input_dimension,
            res matches Ok(layout) ==> {
                &&& layout.state_mask() == state_dependency@
                &&& layout.control_mask() == control_dependency@
                &&& layout.dimension() == input_dimension
            },
    {
        let kernel_dimension = kernel.input_dimension();
        if input_dimension != kernel_dimension {
            return Err(dim_error("gaussian process kernel", kernel_dimension, input_dimension));
        }
        let state_count = count_dependencies(state_dependency.as_slice());
        let control_count = count_dependencies(control_dependency.as_slice());
        proof {
            lemma_count_true_bound(state_dependency@);
            lemma_count_true_bound(control_dependency@);
        }
        let active_dimension = state_count + control_count;
        if active_dimension != input_dimension {
            return Err(dim_error("gaussian process dependencies", input_dimension, active_dimension));
        }
        let mut state_indices: Vec<usize> = Vec::new();
        for i in 0..state_count
            invariant
                state_indices@ == Seq::new(i as nat, |k: int| k as usize),
        {
            state_indices.push(i);
            assert(state_indices@ =~= Seq::new((i + 1) as nat, |k: int| k as usize));
        }
        let mut control_indices: Vec<usize> = Vec::new();
        for i in state_count..input_dimension
            invariant
                state_count <= i <= input_dimension,
                control_indices@ == Seq::new((i - state_count) as nat, |k: int| (state_count + k) as usize),
        {
            control_indices.push(i);
            assert(control_indices@ =~= Seq::new((i + 1 - state_count) as nat, |k: int| (state_count + k) as usize));
        }
        Ok(InputLayout { state_dependency, control_dependency, state_indices, control_indices, input_dimension })
    }

    /// The positions, among the kernel's inputs, of the active state entries:
    /// `0, 1, ...`, one per active state entry.
    pub fn state_indices(&self) -> (indices: &Vec<usize>)
        ensures
            indices@ == Seq::new(count_true(self.state_mask()), |i: int| i as usize),
    {
        proof { use_type_invariant(self); }
        &self.state_indices
    }

    /// The positions, among the kernel's inputs, of the active control
    /// entries: they follow the state positions and end at the input length.
    pub fn control_indices(&self) -> (indices: &Vec<usize>)
        ensures
            indices@ == Seq::new(
                count_true(self.control_mask()),
                |i: int| (count_true(self.state_mask()) + i) as usize,
            ),
            count_true(self.state_mask()) + count_true(self.control_mask()) == self.dimension(),
            Seq::new(count_true(self.state_mask()), |i: int| i as usize) + indices@ == Seq::new(
                self.dimension(),
                |i: int| i as usize,
            ),
    {
        proof {
            use_type_invariant(self);
            lemma_indices_partition(count_true(self.state_dependency@), count_true(self.control_dependency@));
        }
        &self.control_indices
    }

    /// The state entries the model depends on.
    pub fn state_dependency(&self) -> (mask: &Vec<bool>)
        ensures
            mask@ == self.state_mask(),
    {
        &self.state_dependency
    }

    /// The control entries the model depends on.
    pub fn control_dependency(&self) -> (mask: &Vec<bool>)
        ensures
            mask@ == self.control_mask(),
    {
        &self.control_dependency
    }

    /// The length of the kernel's input vector.
    pub fn input_dimension(&self) -> (d: usize)
        ensures
            d == self.dimension(),
    {
        self.input_dimension
    }

    /// Builds the kernel input for a state and a control: the active state
    /// entries followed by the active control entries. Refused when the state
    /// or the control does not have the length of its dependency mask.
    pub fn evaluation_point<T: Copy>(&self, state: &[T], control: &[T]) -> (res: Result<Vec<T>, Error>)
        ensures
            state@.len() != self.state_mask().len() ==> res == Err::<Vec<T>, Error>(Error::DimensionMismatch {
                context: "gaussian process state",
                expected: self.state_mask().len() as usize,
                actual: state@.len() as usize,
            }),
            state@.len() == self.state_mask().len() && control@.len() != self.control_mask().len() ==> res == Err::<
                Vec<T>,
                Error,
            >(Error::DimensionMismatch {
                context: "gaussian process control",
                expected: self.control_mask().len() as usize,
                actual: control@.len() as usize,
            }),
            res is Ok <==> state@.len() == self.state_mask().len() && control@.len() == self.control_mask().len(),
            res matches Ok(point) ==> {
                &&& point@ == active_entries(self.state_mask(), state@) + active_entries(self.control_mask(), control@)
                &&& point@.len() == self.dimension()
            },
    {
        proof { use_type_invariant(self); }
        if state.len() != self.state_dependency.len() {
            return Err(dim_error("gaussian process state", self.state_dependency.len(), state.len()));
        }
        if control.len() != self.control_dependency.len() {
            return Err(dim_error("gaussian process control", self.control_dependency.len(), control.len()));
        }
        let mut point: Vec<T> = Vec::new();
        push_active(self.state_dependency.as_slice(), state, &mut point);
        push_active(self.control_dependency.as_slice(), control, &mut point);
        proof {
            lemma_active_entries_len(self.state_dependency@, state@);
            lemma_active_entries_len(self.control_dependency@, control@);
        }
        assert(point@ =~= active_entries(self.state_mask(), state@) + active_entries(self.control_mask(), control@));
        Ok(point)
    }

    /// Spreads values given at the active state positions over the whole
    /// state, with `zero` where the model does not depend on the state.
    pub fn scatter_state<T: Copy>(&self, active: &[T], zero: T) -> (out: Vec<T>)
        requires
            count_true(self.state_mask()) <= active@.len(),
        ensures
            out@ == expand(self.state_mask(), active@, zero),
    {
        scatter_active(self.state_dependency.as_slice(), active, zero)
    }

    /// Spreads values given at the active control positions over the whole
    /// control, with `zero` where the model does not depend on the control.
    pub fn scatter_control<T: Copy>(&self, active: &[T], zero: T) -> (out: Vec<T>)
        requires
            count_true(self.control_mask()) <= active@.len(),
        ensures
            out@ == expand(self.control_mask(), active@, zero),
    {
        scatter_active(self.control_dependency.as_slice(), active, zero)
    }
}

impl Clone for InputLayout {
    fn clone(&self) -> (copy: Self)
        ensures
            copy.state_mask() == self.state_mask(),
            copy.control_mask() == self.control_mask(),
            copy.dimension() == self.dimension(),
    {
        proof { use_type_invariant(self); }
        let state_dependency = self.state_dependency.clone();
        let control_dependency = self.control_dependency.clone();
        let state_indices = self.state_indices.clone();
        let control_indices = self.control_indices.clone();
        assert(state_dependency@ =~= self.state_dependency@);
        assert(control_dependency@ =~= self.control_dependency@);
        assert(state_indices@ =~= self.state_indices@);
        assert(control_indices@ =~= self.control_indices@);
        InputLayout {
            state_dependency,
            control_dependency,
            state_indices,
            control_indices,
            input_dimension: self.input_dimension,
        }
    }
}

} // verus!

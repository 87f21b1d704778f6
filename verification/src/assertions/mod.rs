//! Assertions against an execution trace: constraints that pin the value of one
//! register at one step, at steps spaced by a stride, or along a list of values.

use vstd::prelude::*;
use vstd::arithmetic::power2::is_pow2;
use crate::assertions::laws::{lemma_overlap_rule, lemma_step_in_trace};
use crate::errors::{AssertionError, StrideError};
use crate::field::traits::StarkField;
use crate::utils::{is_power_of_two, next_power_of_two, next_pow2, lemma_pow2_bound};

pub mod laws;
pub mod ordering;
pub mod display;
pub mod sorting;

verus! {

/// The smallest stride of a periodic or sequence assertion.
pub const MIN_STRIDE_LENGTH: usize = 2;

/// The stride that marks an assertion against a single step.
pub const NO_STRIDE: usize = 0;

/// Whether `stride` and `first_step` describe a progression of steps: the stride
/// is a power of two, at least two, and the first step comes before it.
pub open spec fn stride_is_valid(stride: int, first_step: int) -> bool {
    is_pow2(stride) && stride >= 2 && first_step < stride
}

/// What an assertion states: the register, the first asserted step, the distance
/// between asserted steps (zero for a single step), and the asserted values.
pub struct AssertionView<B> {
    pub register: int,
    pub first_step: int,
    pub stride: int,
    pub values: Seq<B>,
}

impl<B> AssertionView<B> {
    /// One value at one step.
    pub open spec fn is_single(self) -> bool {
        self.stride == 0
    }

    /// One value at every step of a progression.
    pub open spec fn is_periodic(self) -> bool {
        self.stride != 0 && self.values.len() == 1
    }

    /// Several values, one for each step of a progression.
    pub open spec fn is_sequence(self) -> bool {
        self.values.len() > 1
    }

    /// The invariant of an assertion. A single assertion has one value; a
    /// periodic or sequence assertion has a valid stride and a number of values
    /// that is a power of two. The trace length that the assertion implies (for a
    /// single one the next power of two above its step, for a sequence the
    /// stride times the number of values) fits the machine word.
    pub open spec fn wf(self) -> bool {
        &&& self.register >= 0
        &&& self.first_step >= 0
        &&& self.values.len() >= 1
        &&& is_pow2(self.values.len() as int)
        &&& self.stride == 0 ==> self.values.len() == 1 && self.first_step <= usize::MAX / 2
        &&& self.stride != 0 ==> stride_is_valid(self.stride, self.first_step)
        &&& self.values.len() * self.stride <= usize::MAX
    }

    /// The `i`-th asserted step.
    pub open spec fn step(self, i: int) -> int {
        self.first_step + self.stride * i
    }

    /// The value asserted at the `i`-th step.
    pub open spec fn value_at(self, i: int) -> B {
        if self.values.len() == 1 {
            self.values[0]
        } else {
            self.values[i]
        }
    }

    /// Whether the assertion can be placed against a trace of this length.
    pub open spec fn fits_length(self, trace_length: int) -> bool {
        &&& is_pow2(trace_length)
        &&& self.is_single() ==> self.first_step < trace_length
        &&& self.is_periodic() ==> self.stride <= trace_length
        &&& self.is_sequence() ==> self.values.len() * self.stride == trace_length
    }

    /// What the check of a trace length answers.
    pub open spec fn check_length(self, trace_length: int) -> Result<(), AssertionError> {
        if !is_pow2(trace_length) {
            Err(AssertionError::TraceLengthNotPowerOfTwo(trace_length as usize))
        } else if self.is_single() {
            if self.first_step >= trace_length {
                Err(
                    AssertionError::TraceLengthTooShort(
                        next_pow2(self.first_step + 1) as usize,
                        trace_length as usize,
                    ),
                )
            } else {
                Ok(())
            }
        } else if self.is_periodic() {
            if self.stride > trace_length {
                Err(AssertionError::TraceLengthTooShort(self.stride as usize, trace_length as usize))
            } else {
                Ok(())
            }
        } else {
            if self.values.len() * self.stride != trace_length {
                Err(
                    AssertionError::TraceLengthNotExact(
                        (self.values.len() * self.stride) as usize,
                        trace_length as usize,
                    ),
                )
            } else {
                Ok(())
            }
        }
    }

    /// The number of steps that the assertion covers in a trace of this length.
    pub open spec fn num_steps(self, trace_length: int) -> int {
        if self.is_single() {
            1
        } else if self.is_periodic() {
            trace_length / self.stride
        } else {
            self.values.len() as int
        }
    }

    /// The steps that the assertion covers in a trace of this length, each with
    /// the value asserted there, in ascending order of the steps.
    pub open spec fn steps(self, trace_length: int) -> Seq<(usize, B)> {
        Seq::new(
            self.num_steps(trace_length) as nat,
            |i: int| (self.step(i) as usize, self.value_at(i)),
        )
    }

    /// Whether the assertion speaks of step `t`: of its one step, or of any step
    /// of its progression, however long the trace.
    pub open spec fn covers(self, t: int) -> bool {
        if self.stride == 0 {
            t == self.first_step
        } else {
            t >= self.first_step && (t - self.first_step) % self.stride == 0
        }
    }

    /// Whether two assertions speak of the same step of the same register.
    pub open spec fn overlaps(self, other: Self) -> bool {
        self.register == other.register && exists|t: int| self.covers(t) && other.covers(t)
    }
}

/// An assertion made against an execution trace.
///
/// An assertion is placed against one register, and is of one of three kinds:
/// a single assertion pins one cell; a periodic assertion pins the cells at a
/// first step and every `stride` steps after it to one value; a sequence
/// assertion pins such cells to the values of a list, one after the other.
#[derive(Debug, PartialEq, Eq)]
pub struct Assertion<B: StarkField> {
    register: usize,
    first_step: usize,
    stride: usize,
    values: Vec<B>,
}

/// Checks that `stride` and `first_step` describe a progression of steps for an
/// assertion against `register`: the stride must be a power of two, then at
/// least [`MIN_STRIDE_LENGTH`], then above the first step.
pub fn validate_stride(stride: usize, first_step: usize, register: usize) -> (r: Result<
    (),
    StrideError,
>)
    ensures
        r == if !is_pow2(stride as int) {
            Err::<(), StrideError>(StrideError::NotPowerOfTwo(register, stride))
        } else if stride < MIN_STRIDE_LENGTH {
            Err(StrideError::TooSmall(register, stride))
        } else if first_step >= stride {
            Err(StrideError::FirstStepTooLarge(register, stride, first_step))
        } else {
            Ok(())
        },
        r is Ok <==> stride_is_valid(stride as int, first_step as int),
{
    if !is_power_of_two(stride) {
        return Err(StrideError::NotPowerOfTwo(register, stride));
    }
    if stride < MIN_STRIDE_LENGTH {
        return Err(StrideError::TooSmall(register, stride));
    }
    if first_step >= stride {
        return Err(StrideError::FirstStepTooLarge(register, stride, first_step));
    }
    Ok(())
}

impl<B: StarkField> Clone for Assertion<B> {
    fn clone(&self) -> (r: Self)
        ensures
            r@ == self@,
    {
        proof {
            use_type_invariant(self);
        }
        let mut values: Vec<B> = Vec::new();
        let mut i: usize = 0;
        while i < self.values.len()
            invariant
                i <= self.values.len(),
                values@ == self.values@.subrange(0, i as int),
            decreases self.values.len() - i,
        {
            values.push(self.values[i]);
            proof {
                assert(values@ =~= self.values@.subrange(0, i + 1));
            }
            i = i + 1;
        }
        proof {
            assert(values@ =~= self.values@);
        }
        Assertion {
            register: self.register,
            first_step: self.first_step,
            stride: self.stride,
            values,
        }
    }
}

impl<B: StarkField> Assertion<B> {
    /// What the assertion states.
    pub closed spec fn view(&self) -> AssertionView<B> {
        AssertionView {
            register: self.register as int,
            first_step: self.first_step as int,
            stride: self.stride as int,
            values: self.values@,
        }
    }

    #[verifier::type_invariant]
    pub closed spec fn wf(&self) -> bool {
        self.view().wf()
    }

    /// An assertion that `register` holds `value` at `step`.
    pub fn single(register: usize, step: usize, value: B) -> (r: Self)
        requires
            step <= usize::MAX / 2,
        ensures
            r@ == (AssertionView {
                register: register as int,
                first_step: step as int,
                stride: 0,
                values: seq![value],
            }),
            r@.wf(),
    {
        let mut values: Vec<B> = Vec::new();
        values.push(value);
        proof {
            reveal(is_pow2);
            assert(values@ =~= seq![value]);
        }
        Assertion { register, first_step: step, stride: NO_STRIDE, values }
    }

    /// An assertion that `register` holds `value` at `first_step` and at every
    /// `stride` steps after it.
    pub fn periodic(register: usize, first_step: usize, stride: usize, value: B) -> (r: Self)
        requires
            stride_is_valid(stride as int, first_step as int),
        ensures
            r@ == (AssertionView {
                register: register as int,
                first_step: first_step as int,
                stride: stride as int,
                values: seq![value],
            }),
            r@.wf(),
    {
        let mut values: Vec<B> = Vec::new();
        values.push(value);
        proof {
            reveal(is_pow2);
            assert(values@ =~= seq![value]);
        }
        Assertion { register, first_step, stride, values }
    }

    /// An assertion that `register` holds the `values`, in their order, at
    /// `first_step` and at every `stride` steps after it. With a single value it
    /// is a single assertion, and the stride is dropped.
    pub fn sequence(register: usize, first_step: usize, stride: usize, values: Vec<B>) -> (r: Self)
        requires
            stride_is_valid(stride as int, first_step as int),
            values@.len() > 0,
            is_pow2(values@.len() as int),
            values@.len() * stride <= usize::MAX,
        ensures
            r@ == (AssertionView {
                register: register as int,
                first_step: first_step as int,
                stride: if values@.len() == 1 {
                    0
                } else {
                    stride as int
                },
                values: values@,
            }),
            r@.wf(),
    {
        proof {
            assert(values@.len() * stride >= stride) by (nonlinear_arith)
                requires
                    values@.len() >= 1,
                    stride >= 0,
            ;
            lemma_pow2_bound(stride as int);
        }
        let kept = if values.len() == 1 {
            NO_STRIDE
        } else {
            stride
        };
        Assertion { register, first_step, stride: kept, values }
    }

    /// Index of the register the assertion is placed against.
    pub fn register(&self) -> (r: usize)
        ensures
            r == self@.register,
    {
        self.register
    }

    /// The first step the assertion is placed against; the only one of a single
    /// assertion.
    pub fn first_step(&self) -> (r: usize)
        ensures
            r == self@.first_step,
    {
        self.first_step
    }

    /// The distance between asserted steps; zero for a single assertion.
    pub fn stride(&self) -> (r: usize)
        ensures
            r == self@.stride,
    {
        self.stride
    }

    /// The asserted values; one value for a single or periodic assertion.
    pub fn values(&self) -> (r: &[B])
        ensures
            r@ == self@.values,
    {
        self.values.as_slice()
    }

    /// Whether this is a single assertion: one value at one step.
    pub fn is_single(&self) -> (r: bool)
        ensures
            r == self@.is_single(),
    {
        self.stride == NO_STRIDE
    }

    /// Whether this is a periodic assertion: one value at many steps.
    pub fn is_periodic(&self) -> (r: bool)
        ensures
            r == self@.is_periodic(),
    {
        self.stride != NO_STRIDE && self.values.len() == 1
    }

    /// Whether this is a sequence assertion: many values at many steps.
    pub fn is_sequence(&self) -> (r: bool)
        ensures
            r == self@.is_sequence(),
    {
        self.values.len() > 1
    }

    /// Whether this assertion and `other` speak of the same step of the same
    /// register.
    ///
    /// On the same register, assertions with the same first step overlap; those
    /// with the same stride and different first steps do not; otherwise the one
    /// that starts earlier must be a progression, with the finer stride unless
    /// the other is a single step, and must reach the first step of the other.
    pub fn overlaps_with(&self, other: &Assertion<B>) -> (r: bool)
        ensures
            r == self@.overlaps(other@),
            r == overlap_rule(self@, other@),
    {
        proof {
            use_type_invariant(self);
            use_type_invariant(other);
            lemma_overlap_rule(self@, other@);
        }
        if self.register != other.register {
            return false;
        }
        if self.first_step == other.first_step {
            return true;
        }
        if self.stride == other.stride {
            return false;
        }
        if self.first_step < other.first_step {
            if self.is_single() {
                return false;
            }
            if other.is_single() || self.stride < other.stride {
                (other.first_step - self.first_step) % self.stride == 0
            } else {
                false
            }
        } else {
            if other.is_single() {
                return false;
            }
            if self.is_single() || other.stride < self.stride {
                (self.first_step - other.first_step) % other.stride == 0
            } else {
                false
            }
        }
    }

    /// Checks that a trace of `trace_width` registers has the asserted register.
    pub fn validate_trace_width(&self, trace_width: usize) -> (r: Result<(), AssertionError>)
        ensures
            r == if self@.register >= trace_width {
                Err::<(), AssertionError>(
                    AssertionError::TraceWidthTooShort(self@.register as usize, trace_width),
                )
            } else {
                Ok(())
            },
    {
        if self.register >= trace_width {
            return Err(AssertionError::TraceWidthTooShort(self.register, trace_width));
        }
        Ok(())
    }

    /// Checks that the assertion can be placed against a trace of `trace_length`
    /// steps: the length is a power of two; a single assertion has its step
    /// within the trace; a periodic one has a stride no longer than the trace; a
    /// sequence covers the trace exactly, stride times number of values.
    pub fn validate_trace_length(&self, trace_length: usize) -> (r: Result<(), AssertionError>)
        ensures
            r == self@.check_length(trace_length as int),
            r is Ok <==> self@.fits_length(trace_length as int),
    {
        proof {
            use_type_invariant(self);
        }
        if !is_power_of_two(trace_length) {
            return Err(AssertionError::TraceLengthNotPowerOfTwo(trace_length));
        }
        if self.is_single() {
            if self.first_step >= trace_length {
                return Err(
                    AssertionError::TraceLengthTooShort(
                        next_power_of_two(self.first_step + 1),
                        trace_length,
                    ),
                );
            }
        } else if self.is_periodic() {
            if self.stride > trace_length {
                return Err(AssertionError::TraceLengthTooShort(self.stride, trace_length));
            }
        } else {
            let expected_length = self.values.len() * self.stride;
            if expected_length != trace_length {
                return Err(AssertionError::TraceLengthNotExact(expected_length, trace_length));
            }
        }
        Ok(())
    }

    /// The number of steps that the assertion covers in a trace of
    /// `trace_length` steps: one for a single assertion, `trace_length / stride`
    /// for a periodic one, the number of values for a sequence.
    pub fn get_num_steps(&self, trace_length: usize) -> (r: usize)
        requires
            self@.fits_length(trace_length as int),
        ensures
            r == self@.num_steps(trace_length as int),
            r == self@.steps(trace_length as int).len(),
    {
        proof {
            use_type_invariant(self);
        }
        if self.is_single() {
            1
        } else if self.is_periodic() {
            trace_length / self.stride
        } else {
            self.values.len()
        }
    }

    /// The `i`-th step that the assertion covers in a trace of `trace_length`
    /// steps, with the value asserted there.
    pub fn get_step(&self, trace_length: usize, i: usize) -> (r: (usize, B))
        requires
            self@.fits_length(trace_length as int),
            i < self@.num_steps(trace_length as int),
        ensures
            r == self@.steps(trace_length as int)[i as int],
            r.0 < trace_length,
    {
        proof {
            use_type_invariant(self);
            lemma_step_in_trace(self@, trace_length as int, i as int);
        }
        let step = self.first_step + self.stride * i;
        if self.values.len() == 1 {
            (step, self.values[0])
        } else {
            (step, self.values[i])
        }
    }

    /// The steps that the assertion covers in a trace of `trace_length` steps,
    /// each with the value asserted there, in ascending order of the steps.
    pub fn steps(&self, trace_length: usize) -> (r: Vec<(usize, B)>)
        requires
            self@.fits_length(trace_length as int),
        ensures
            r@ == self@.steps(trace_length as int),
    {
        let n = self.get_num_steps(trace_length);
        let mut result: Vec<(usize, B)> = Vec::new();
        let mut i: usize = 0;
        while i < n
            invariant
                self@.fits_length(trace_length as int),
                n == self@.num_steps(trace_length as int),
                i <= n,
                result@.len() == i,
                forall|k: int| 0 <= k < i ==> result@[k] == self@.steps(trace_length as int)[k],
            decreases n - i,
        {
            result.push(self.get_step(trace_length, i));
            i = i + 1;
        }
        proof {
            assert(result@ =~= self@.steps(trace_length as int));
        }
        result
    }

    /// Calls `f` with each step that the assertion covers in a trace of
    /// `trace_length` steps and the value asserted there, in ascending order of
    /// the steps: the pairs of [`Assertion::steps`].
    pub fn apply<F>(&self, trace_length: usize, mut f: F) where F: FnMut(usize, B)
        requires
            self@.fits_length(trace_length as int),
            forall|i: int|
                0 <= i < self@.num_steps(trace_length as int) ==> call_requires(
                    f,
                    #[trigger] self@.steps(trace_length as int)[i],
                ),
    {
        let n = self.get_num_steps(trace_length);
        let mut i: usize = 0;
        while i < n
            invariant
                self@.fits_length(trace_length as int),
                n == self@.num_steps(trace_length as int),
                i <= n,
                forall|k: int|
                    0 <= k < self@.num_steps(trace_length as int) ==> call_requires(
                        f,
                        #[trigger] self@.steps(trace_length as int)[k],
                    ),
            decreases n - i,
        {
            let (step, value) = self.get_step(trace_length, i);
            f(step, value);
            i = i + 1;
        }
    }
}

/// The rule by which overlap is decided, for assertions that meet their
/// invariant.
pub open spec fn overlap_rule<B>(a: AssertionView<B>, b: AssertionView<B>) -> bool {
    if a.register != b.register {
        false
    } else if a.first_step == b.first_step {
        true
    } else if a.stride == b.stride {
        false
    } else if a.first_step < b.first_step {
        a.stride != 0 && (b.stride == 0 || a.stride < b.stride) && (b.first_step - a.first_step)
            % a.stride == 0
    } else {
        b.stride != 0 && (a.stride == 0 || b.stride < a.stride) && (a.first_step - b.first_step)
            % b.stride == 0
    }
}

} // verus!

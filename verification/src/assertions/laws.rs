//! What holds of every assertion.

use vstd::prelude::*;
use vstd::arithmetic::div_mod::*;
use vstd::arithmetic::power2::is_pow2;
use crate::assertions::{AssertionView, overlap_rule};
use crate::utils::lemma_pow2_gap;

verus! {

/// A multiple of `b` is a multiple of every divisor `a` of `b`.
pub proof fn lemma_divides_trans(x: int, a: int, b: int)
    requires
        a > 0,
        b > 0,
        b % a == 0,
        x % b == 0,
    ensures
        x % a == 0,
{
    let k = b / a;
    let q = x / b;
    lemma_fundamental_div_mod(b, a);
    lemma_fundamental_div_mod(x, b);
    assert(x == (k * q) * a) by (nonlinear_arith)
        requires
            b == a * k,
            x == b * q,
    ;
    lemma_mod_multiples_basic(k * q, a);
}

/// Two multiples of `m` differ by a multiple of `m`.
pub proof fn lemma_divides_diff(x: int, y: int, m: int)
    requires
        m > 0,
        x % m == 0,
        y % m == 0,
    ensures
        (x - y) % m == 0,
{
    lemma_sub_mod_noop(x, y, m);
    lemma_small_mod(0, m as nat);
}

/// Every step that an assertion covers in a trace lies within the trace.
pub proof fn lemma_step_in_trace<B>(a: AssertionView<B>, trace_length: int, i: int)
    requires
        a.wf(),
        a.fits_length(trace_length),
        0 <= i < a.num_steps(trace_length),
    ensures
        0 <= a.stride * i,
        0 <= a.step(i) < trace_length,
        a.values.len() == 1 || i < a.values.len(),
        a.steps(trace_length)[i] == (a.step(i) as usize, a.value_at(i)),
{
    let s = a.stride;
    if a.is_single() {
        assert(s * i == 0);
    } else if a.is_periodic() {
        let n = trace_length / s;
        lemma_fundamental_div_mod(trace_length, s);
        assert(s * i + s <= s * n) by (nonlinear_arith)
            requires
                0 <= i < n,
                s > 0,
        ;
        assert(0 <= s * i) by (nonlinear_arith)
            requires
                0 <= i,
                s > 0,
        ;
    } else {
        let n = a.values.len() as int;
        assert(s * i + s <= n * s) by (nonlinear_arith)
            requires
                0 <= i < n,
                s > 0,
        ;
        assert(0 <= s * i) by (nonlinear_arith)
            requires
                0 <= i,
                s > 0,
        ;
    }
}

/// Overlap, that two assertions speak of the same step of the same register, is
/// decided by the rule on their first steps and strides.
pub proof fn lemma_overlap_rule<B>(a: AssertionView<B>, b: AssertionView<B>)
    requires
        a.wf(),
        b.wf(),
    ensures
        a.overlaps(b) == overlap_rule(a, b),
{
    if a.register == b.register {
        if a.first_step == b.first_step {
            let t = a.first_step;
            if a.stride != 0 {
                lemma_small_mod(0, a.stride as nat);
            }
            if b.stride != 0 {
                lemma_small_mod(0, b.stride as nat);
            }
            assert(a.covers(t) && b.covers(t));
        } else if a.first_step < b.first_step {
            lemma_overlap_ordered(a, b);
        } else {
            lemma_overlap_ordered(b, a);
            assert(a.overlaps(b) == b.overlaps(a)) by {
                if a.overlaps(b) {
                    let t = choose|t: int| a.covers(t) && b.covers(t);
                    assert(b.covers(t) && a.covers(t));
                }
                if b.overlaps(a) {
                    let t = choose|t: int| b.covers(t) && a.covers(t);
                    assert(a.covers(t) && b.covers(t));
                }
            }
        }
    }
}

/// The rule for two assertions on one register of which the first starts
/// earlier.
proof fn lemma_overlap_ordered<B>(a: AssertionView<B>, b: AssertionView<B>)
    requires
        a.wf(),
        b.wf(),
        a.register == b.register,
        a.first_step < b.first_step,
    ensures
        a.overlaps(b) == (a.stride != b.stride && a.stride != 0 && (b.stride == 0 || a.stride
            < b.stride) && (b.first_step - a.first_step) % a.stride == 0),
{
    let s = a.first_step;
    let u = b.first_step;
    let d = u - s;
    if a.stride == 0 {
        // the one step of `a` lies before every step of `b`
        assert forall|t: int| !(a.covers(t) && b.covers(t)) by {}
    } else if b.stride == 0 || a.stride < b.stride {
        if b.stride != 0 {
            lemma_pow2_gap(a.stride, b.stride);
        }
        if d % a.stride == 0 {
            if b.stride != 0 {
                lemma_small_mod(0, b.stride as nat);
            }
            assert(a.covers(u) && b.covers(u));
        } else {
            assert forall|t: int| !(a.covers(t) && b.covers(t)) by {
                if a.covers(t) && b.covers(t) {
                    if b.stride != 0 {
                        lemma_divides_trans(t - u, a.stride, b.stride);
                    } else {
                        lemma_small_mod(0, a.stride as nat);
                    }
                    lemma_divides_diff(t - s, t - u, a.stride);
                }
            }
        }
    } else {
        // the stride of `b` divides that of `a`, and the first steps are less
        // than it apart
        if b.stride < a.stride {
            lemma_pow2_gap(b.stride, a.stride);
        }
        assert forall|t: int| !(a.covers(t) && b.covers(t)) by {
            if a.covers(t) && b.covers(t) {
                if b.stride < a.stride {
                    lemma_divides_trans(t - s, b.stride, a.stride);
                }
                lemma_divides_diff(t - s, t - u, b.stride);
                lemma_small_mod(d as nat, b.stride as nat);
            }
        }
    }
}

/// An assertion overlaps itself.
pub proof fn lemma_overlap_reflexive<B>(a: AssertionView<B>)
    requires
        a.wf(),
    ensures
        a.overlaps(a),
{
    lemma_overlap_rule(a, a);
}

/// Overlap does not depend on the order of the two assertions.
pub proof fn lemma_overlap_symmetric<B>(a: AssertionView<B>, b: AssertionView<B>)
    requires
        a.wf(),
        b.wf(),
    ensures
        a.overlaps(b) == b.overlaps(a),
{
    lemma_overlap_rule(a, b);
    lemma_overlap_rule(b, a);
}

/// Assertions on the same register with the same first step overlap.
pub proof fn lemma_overlap_same_start<B>(a: AssertionView<B>, b: AssertionView<B>)
    requires
        a.wf(),
        b.wf(),
        a.register == b.register,
        a.first_step == b.first_step,
    ensures
        a.overlaps(b),
{
    lemma_overlap_rule(a, b);
}

/// Two single assertions overlap exactly when they are placed on the same cell.
pub proof fn lemma_overlap_singles<B>(a: AssertionView<B>, b: AssertionView<B>)
    requires
        a.wf(),
        b.wf(),
        a.is_single(),
        b.is_single(),
    ensures
        a.overlaps(b) == (a.register == b.register && a.first_step == b.first_step),
{
    lemma_overlap_rule(a, b);
}

/// The steps that an assertion covers in a trace it fits are as many as
/// [`AssertionView::num_steps`] says, lie within the trace, ascend strictly (so
/// no step comes twice), and are congruent to the first step modulo the stride.
pub proof fn lemma_steps<B>(a: AssertionView<B>, trace_length: int)
    requires
        a.wf(),
        a.fits_length(trace_length),
        trace_length <= usize::MAX,
    ensures
        a.steps(trace_length).len() == a.num_steps(trace_length),
        a.num_steps(trace_length) >= 1,
        forall|i: int|
            0 <= i < a.num_steps(trace_length) ==> (#[trigger] a.steps(trace_length)[i]).0
                == a.step(i) && a.step(i) < trace_length && a.covers(a.step(i)),
        forall|i: int, j: int|
            0 <= i < j < a.num_steps(trace_length) ==> (#[trigger] a.steps(trace_length)[i]).0 < (
            #[trigger] a.steps(trace_length)[j]).0,
        a.stride > 0 ==> forall|i: int|
            0 <= i < a.num_steps(trace_length) ==> ((#[trigger] a.steps(trace_length)[i]).0 as int)
                % a.stride == a.first_step % a.stride,
{
    let n = a.num_steps(trace_length);
    if a.is_periodic() {
        lemma_pow2_gap_or_equal(a.stride, trace_length);
        lemma_fundamental_div_mod(trace_length, a.stride);
        assert(n >= 1) by (nonlinear_arith)
            requires
                trace_length == a.stride * n,
                trace_length > 0,
                a.stride > 0,
        ;
    }
    assert forall|i: int| 0 <= i < n implies (#[trigger] a.steps(trace_length)[i]).0 == a.step(i)
        && a.step(i) < trace_length && a.covers(a.step(i)) && (a.stride > 0 ==> a.step(i)
        % a.stride == a.first_step % a.stride) by {
        lemma_step_in_trace(a, trace_length, i);
        if a.stride > 0 {
            lemma_mod_multiples_vanish(i, a.first_step, a.stride);
            assert(a.stride * i == i * a.stride) by (nonlinear_arith);
            lemma_mod_multiples_basic(i, a.stride);
        }
    }
    assert forall|i: int, j: int| 0 <= i < j < n implies (#[trigger] a.steps(trace_length)[i]).0 < (
    #[trigger] a.steps(trace_length)[j]).0 by {
        lemma_step_in_trace(a, trace_length, i);
        lemma_step_in_trace(a, trace_length, j);
        assert(a.stride * i < a.stride * j) by (nonlinear_arith)
            requires
                0 <= i < j,
                a.stride > 0,
        ;
    }
}

/// Of two powers of two the smaller divides the larger.
pub proof fn lemma_pow2_gap_or_equal(a: int, b: int)
    requires
        is_pow2(a),
        is_pow2(b),
        a <= b,
    ensures
        b % a == 0,
{
    if a < b {
        lemma_pow2_gap(a, b);
    } else {
        assert(a > 0) by {
            reveal(is_pow2);
        }
        lemma_mod_self_0(a);
    }
}

} // verus!

//! Evaluation of polynomials given by their coefficients in ascending degree.

use vstd::prelude::*;
use crate::field::traits::{FieldElement, StarkField, add_coeffs, lift_coeffs, zero_coeffs};

verus! {

/// The value at `x` of the polynomial with the coefficients `c`, lowest degree
/// first: zero for no coefficient, and else the value of the polynomial of the
/// coefficients after the first, times `x`, plus the first.
pub open spec fn eval_spec<E: FieldElement>(c: Seq<Seq<int>>, x: Seq<int>) -> Seq<int>
    decreases c.len(),
{
    if c.len() == 0 {
        zero_coeffs(E::degree())
    } else {
        add_coeffs(E::mul_spec(eval_spec::<E>(c.skip(1), x), x), c[0], E::BaseField::modulus())
    }
}

/// The coefficient vectors of a polynomial over the field of `E`.
pub open spec fn poly_coeffs<E: FieldElement>(p: Seq<E>) -> Seq<Seq<int>> {
    Seq::new(p.len(), |i: int| p[i].coeffs())
}

/// The coefficient vectors, in the field of `E`, of a polynomial over its base
/// field.
pub open spec fn lifted_coeffs<E: FieldElement>(p: Seq<E::BaseField>) -> Seq<Seq<int>> {
    Seq::new(p.len(), |i: int| lift_coeffs(p[i].value(), E::degree()))
}

/// The value at `x` of the polynomial with the coefficients `p`, by Horner's
/// rule.
pub fn eval<E: FieldElement>(p: &[E], x: E) -> (r: E)
    ensures
        r.coeffs() == eval_spec::<E>(poly_coeffs(p@), x.coeffs()),
{
    let ghost c = poly_coeffs(p@);
    let mut acc = E::zero();
    let mut i: usize = p.len();
    proof {
        assert(c.skip(i as int) =~= Seq::<Seq<int>>::empty());
    }
    while i > 0
        invariant
            i <= p@.len(),
            c == poly_coeffs(p@),
            acc.coeffs() == eval_spec::<E>(c.skip(i as int), x.coeffs()),
        decreases i,
    {
        i = i - 1;
        proof {
            assert(c.skip(i as int).skip(1) =~= c.skip(i + 1));
            assert(c.skip(i as int)[0] == p@[i as int].coeffs());
        }
        acc = acc.mul(x).add(p[i]);
    }
    proof {
        assert(c.skip(0) =~= c);
    }
    acc
}

/// The value at `x` of the polynomial with the coefficients `p` in the base
/// field, each taken into the field of `x`, by Horner's rule.
pub fn eval_lifted<E: FieldElement>(p: &[E::BaseField], x: E) -> (r: E)
    ensures
        r.coeffs() == eval_spec::<E>(lifted_coeffs::<E>(p@), x.coeffs()),
{
    let ghost c = lifted_coeffs::<E>(p@);
    let mut acc = E::zero();
    let mut i: usize = p.len();
    proof {
        assert(c.skip(i as int) =~= Seq::<Seq<int>>::empty());
    }
    while i > 0
        invariant
            i <= p@.len(),
            c == lifted_coeffs::<E>(p@),
            acc.coeffs() == eval_spec::<E>(c.skip(i as int), x.coeffs()),
        decreases i,
    {
        i = i - 1;
        proof {
            assert(c.skip(i as int).skip(1) =~= c.skip(i + 1));
            assert(c.skip(i as int)[0] == lift_coeffs(p@[i as int].value(), E::degree()));
        }
        acc = acc.mul(x).add(E::from_base(p[i]));
    }
    proof {
        assert(c.skip(0) =~= c);
    }
    acc
}

} // verus!

//! Multiplication in a cubic extension by a root of `x^3 - u * x - v`, over
//! mathematical integers, and its laws.

use vstd::prelude::*;
use vstd::arithmetic::div_mod::*;
use vstd::arithmetic::mul::*;
use crate::field::modular::{fadd, fmul};
use crate::field::traits::{StarkField, valid_coeffs, lift_coeffs, residues, scale_coeffs};

verus! {

/// The product of `a[0] + a[1] * x + a[2] * x^2` and `b[0] + b[1] * x + b[2] * x^2`
/// with `x^3` replaced by `u * x + v`, before its coefficients are reduced.
pub open spec fn cubic_raw(a: Seq<int>, b: Seq<int>, u: int, v: int) -> Seq<int> {
    seq![
        a[0] * b[0] + v * (a[1] * b[2] + a[2] * b[1]),
        a[0] * b[1] + a[1] * b[0] + u * (a[1] * b[2] + a[2] * b[1]) + v * (a[2] * b[2]),
        a[0] * b[2] + a[1] * b[1] + a[2] * b[0] + u * (a[2] * b[2]),
    ]
}

/// A vector of three integers with each reduced modulo `p`.
pub open spec fn reduce3(a: Seq<int>, p: int) -> Seq<int> {
    seq![a[0] % p, a[1] % p, a[2] % p]
}

/// The product of two elements of the cubic extension by a root of
/// `x^3 - u * x - v`, with coefficients modulo `p`.
pub open spec fn cubic_mul(a: Seq<int>, b: Seq<int>, u: int, v: int, p: int) -> Seq<int> {
    reduce3(cubic_raw(a, b, u, v), p)
}

/// The image of `a[0] + a[1] * x + a[2] * x^2` under the linear map that fixes
/// the base field and takes `x` to `f1` and `x^2` to `f2`; with `f1` the
/// `p`-th power of `x` and `f2` its square this is the Frobenius map.
pub open spec fn cubic_frobenius(a: Seq<int>, f1: Seq<int>, f2: Seq<int>, p: int) -> Seq<int> {
    seq![
        (a[0] + f1[0] * a[1] + f2[0] * a[2]) % p,
        (f1[1] * a[1] + f2[1] * a[2]) % p,
        (f1[2] * a[1] + f2[2] * a[2]) % p,
    ]
}

/// Products are coefficient vectors.
pub proof fn lemma_cubic_closed(a: Seq<int>, b: Seq<int>, u: int, v: int, p: int)
    requires
        p > 1,
    ensures
        valid_coeffs(cubic_mul(a, b, u, v, p), 3, p),
        valid_coeffs(reduce3(a, p), 3, p),
{
}

/// Frobenius images are coefficient vectors.
pub proof fn lemma_frobenius_closed(a: Seq<int>, f1: Seq<int>, f2: Seq<int>, p: int)
    requires
        p > 1,
    ensures
        valid_coeffs(cubic_frobenius(a, f1, f2, p), 3, p),
{
}

/// Multiplication is commutative.
pub proof fn lemma_cubic_commutative(a: Seq<int>, b: Seq<int>, u: int, v: int, p: int)
    ensures
        cubic_raw(a, b, u, v) == cubic_raw(b, a, u, v),
        cubic_mul(a, b, u, v, p) == cubic_mul(b, a, u, v, p),
{
    broadcast use group_mul_is_commutative_and_distributive, lemma_mul_is_associative;

    assert(cubic_raw(a, b, u, v) =~= cubic_raw(b, a, u, v));
}

/// Multiplication is associative, before the coefficients are reduced.
pub proof fn lemma_cubic_raw_associative(a: Seq<int>, b: Seq<int>, c: Seq<int>, u: int, v: int)
    ensures
        cubic_raw(cubic_raw(a, b, u, v), c, u, v) == cubic_raw(a, cubic_raw(b, c, u, v), u, v),
{
    let l = cubic_raw(cubic_raw(a, b, u, v), c, u, v);
    let r = cubic_raw(a, cubic_raw(b, c, u, v), u, v);
    assert(l[0] == r[0]) by {
        broadcast use group_mul_is_commutative_and_distributive, lemma_mul_is_associative;

    }
    assert(l[1] == r[1]) by {
        broadcast use group_mul_is_commutative_and_distributive, lemma_mul_is_associative;

    }
    assert(l[2] == r[2]) by {
        broadcast use group_mul_is_commutative_and_distributive, lemma_mul_is_associative;

    }
    assert(l =~= r);
}

/// Reducing the factors `x0`, `x1` and `x2` of `x0 * k0 + x1 * k1 + x2 * k2` does
/// not change its residue.
pub proof fn lemma_mod_dot3(x0: int, k0: int, x1: int, k1: int, x2: int, k2: int, p: int)
    requires
        p > 1,
    ensures
        ((x0 % p) * k0 + (x1 % p) * k1 + (x2 % p) * k2) % p == (x0 * k0 + x1 * k1 + x2 * k2) % p,
{
    lemma_mul_mod_noop_left(x0, k0, p);
    lemma_mul_mod_noop_left(x1, k1, p);
    lemma_mul_mod_noop_left(x2, k2, p);
    lemma_add_mod_noop((x0 % p) * k0, (x1 % p) * k1, p);
    lemma_add_mod_noop(x0 * k0, x1 * k1, p);
    lemma_add_mod_noop((x0 % p) * k0 + (x1 % p) * k1, (x2 % p) * k2, p);
    lemma_add_mod_noop(x0 * k0 + x1 * k1, x2 * k2, p);
}

/// A product depends on the residues of the coefficients of its first factor
/// only.
pub proof fn lemma_cubic_reduce_left(a: Seq<int>, b: Seq<int>, u: int, v: int, p: int)
    requires
        p > 1,
    ensures
        cubic_mul(reduce3(a, p), b, u, v, p) == cubic_mul(a, b, u, v, p),
{
    let r = reduce3(a, p);
    let x = cubic_raw(r, b, u, v);
    let y = cubic_raw(a, b, u, v);
    assert(x[0] % p == y[0] % p) by {
        lemma_mod_dot3(a[0], b[0], a[1], v * b[2], a[2], v * b[1], p);
        assert(x[0] == r[0] * b[0] + r[1] * (v * b[2]) + r[2] * (v * b[1])) by {
            broadcast use group_mul_is_commutative_and_distributive, lemma_mul_is_associative;

        }
        assert(y[0] == a[0] * b[0] + a[1] * (v * b[2]) + a[2] * (v * b[1])) by {
            broadcast use group_mul_is_commutative_and_distributive, lemma_mul_is_associative;

        }
    }
    assert(x[1] % p == y[1] % p) by {
        lemma_mod_dot3(a[0], b[1], a[1], b[0] + u * b[2], a[2], u * b[1] + v * b[2], p);
        assert(x[1] == r[0] * b[1] + r[1] * (b[0] + u * b[2]) + r[2] * (u * b[1] + v * b[2])) by {
            broadcast use group_mul_is_commutative_and_distributive, lemma_mul_is_associative;

        }
        assert(y[1] == a[0] * b[1] + a[1] * (b[0] + u * b[2]) + a[2] * (u * b[1] + v * b[2])) by {
            broadcast use group_mul_is_commutative_and_distributive, lemma_mul_is_associative;

        }
    }
    assert(x[2] % p == y[2] % p) by {
        lemma_mod_dot3(a[0], b[2], a[1], b[1], a[2], b[0] + u * b[2], p);
        assert(x[2] == r[0] * b[2] + r[1] * b[1] + r[2] * (b[0] + u * b[2])) by {
            broadcast use group_mul_is_commutative_and_distributive, lemma_mul_is_associative;

        }
        assert(y[2] == a[0] * b[2] + a[1] * b[1] + a[2] * (b[0] + u * b[2])) by {
            broadcast use group_mul_is_commutative_and_distributive, lemma_mul_is_associative;

        }
    }
    assert(cubic_mul(r, b, u, v, p) =~= cubic_mul(a, b, u, v, p));
}

/// Multiplication is associative.
pub proof fn lemma_cubic_associative(a: Seq<int>, b: Seq<int>, c: Seq<int>, u: int, v: int, p: int)
    requires
        p > 1,
    ensures
        cubic_mul(cubic_mul(a, b, u, v, p), c, u, v, p) == cubic_mul(
            a,
            cubic_mul(b, c, u, v, p),
            u,
            v,
            p,
        ),
{
    let ab = cubic_raw(a, b, u, v);
    let bc = cubic_raw(b, c, u, v);
    lemma_cubic_reduce_left(ab, c, u, v, p);
    lemma_cubic_raw_associative(a, b, c, u, v);
    lemma_cubic_commutative(a, bc, u, v, p);
    lemma_cubic_reduce_left(bc, a, u, v, p);
    lemma_cubic_commutative(reduce3(bc, p), a, u, v, p);
}

/// Multiplying the second factor by `d` multiplies the product by `d`.
pub proof fn lemma_cubic_scale(a: Seq<int>, b: Seq<int>, d: int, u: int, v: int, p: int)
    requires
        p > 1,
        a.len() == 3,
        b.len() == 3,
    ensures
        cubic_mul(a, scale_coeffs(b, d, p), u, v, p) == scale_coeffs(
            cubic_mul(a, b, u, v, p),
            d,
            p,
        ),
{
    let scaled = seq![b[0] * d, b[1] * d, b[2] * d];
    let x = cubic_raw(a, scaled, u, v);
    let y = cubic_raw(a, b, u, v);
    // before reduction the product is multiplied by d
    assert(x[0] == y[0] * d && x[1] == y[1] * d && x[2] == y[2] * d) by {
        broadcast use group_mul_is_commutative_and_distributive, lemma_mul_is_associative;

    }
    assert(scale_coeffs(b, d, p) =~= reduce3(scaled, p));
    lemma_cubic_commutative(a, reduce3(scaled, p), u, v, p);
    lemma_cubic_reduce_left(scaled, a, u, v, p);
    lemma_cubic_commutative(scaled, a, u, v, p);
    lemma_mul_mod_noop_left(y[0], d, p);
    lemma_mul_mod_noop_left(y[1], d, p);
    lemma_mul_mod_noop_left(y[2], d, p);
    assert(cubic_mul(a, scale_coeffs(b, d, p), u, v, p) =~= scale_coeffs(
        cubic_mul(a, b, u, v, p),
        d,
        p,
    ));
}

/// One is the identity of multiplication.
pub proof fn lemma_cubic_one(a: Seq<int>, u: int, v: int, p: int)
    requires
        p > 1,
        valid_coeffs(a, 3, p),
    ensures
        cubic_mul(a, lift_coeffs(1, 3), u, v, p) == a,
{
    let one = lift_coeffs(1, 3);
    let x = cubic_raw(a, one, u, v);
    assert(x[0] == a[0] && x[1] == a[1] && x[2] == a[2]) by {
        broadcast use group_mul_basics;

    }
    lemma_small_mod(a[0] as nat, p as nat);
    lemma_small_mod(a[1] as nat, p as nat);
    lemma_small_mod(a[2] as nat, p as nat);
    assert(cubic_mul(a, one, u, v, p) =~= a);
}

/// The sum of two residues is the residue of the sum of what they stand for.
pub proof fn lemma_sum_congruent(e1: int, x1: int, e2: int, x2: int, p: int)
    requires
        p > 1,
        e1 == x1 % p,
        e2 == x2 % p,
    ensures
        fadd(e1, e2, p) == (x1 + x2) % p,
{
    lemma_add_mod_noop(x1, x2, p);
}

/// The product of two residues is the residue of the product of what they stand
/// for.
pub proof fn lemma_product_congruent(e1: int, x1: int, e2: int, x2: int, p: int)
    requires
        p > 1,
        e1 == x1 % p,
        e2 == x2 % p,
    ensures
        fmul(e1, e2, p) == (x1 * x2) % p,
{
    lemma_mul_mod_noop(x1, x2, p);
}

/// The product of two elements of the cubic extension of the field of `B` by a
/// root of `x^3 - u * x - v`.
pub fn cubic_mul_with<B: StarkField>(a: [B; 3], b: [B; 3], u: B, v: B) -> (r: [B; 3])
    ensures
        residues(r@) == cubic_mul(residues(a@), residues(b@), u.value(), v.value(), B::modulus()),
{
    let a1b2 = a[1].mul(b[2]);
    let a2b1 = a[2].mul(b[1]);
    let cross = a1b2.add(a2b1);
    let top = a[2].mul(b[2]);
    let a0b0 = a[0].mul(b[0]);
    let v_cross = v.mul(cross);
    let r0 = a0b0.add(v_cross);
    let a0b1 = a[0].mul(b[1]);
    let a1b0 = a[1].mul(b[0]);
    let u_cross = u.mul(cross);
    let v_top = v.mul(top);
    let low1 = a0b1.add(a1b0);
    let mid1 = low1.add(u_cross);
    let r1 = mid1.add(v_top);
    let a0b2 = a[0].mul(b[2]);
    let a1b1 = a[1].mul(b[1]);
    let a2b0 = a[2].mul(b[0]);
    let u_top = u.mul(top);
    let low2 = a0b2.add(a1b1);
    let mid2 = low2.add(a2b0);
    let r2 = mid2.add(u_top);
    let r = [r0, r1, r2];
    proof {
        let p = B::modulus();
        B::lemma_field();
        let (x0, x1, x2) = (a[0].value(), a[1].value(), a[2].value());
        let (y0, y1, y2) = (b[0].value(), b[1].value(), b[2].value());
        let (uu, vv) = (u.value(), v.value());
        u.lemma_value();
        v.lemma_value();
        lemma_small_mod(uu as nat, p as nat);
        lemma_small_mod(vv as nat, p as nat);
        lemma_sum_congruent(a1b2.value(), x1 * y2, a2b1.value(), x2 * y1, p);
        lemma_product_congruent(vv, vv, cross.value(), x1 * y2 + x2 * y1, p);
        lemma_product_congruent(uu, uu, cross.value(), x1 * y2 + x2 * y1, p);
        lemma_product_congruent(vv, vv, top.value(), x2 * y2, p);
        lemma_product_congruent(uu, uu, top.value(), x2 * y2, p);
        lemma_sum_congruent(a0b0.value(), x0 * y0, v_cross.value(), vv * (x1 * y2 + x2 * y1), p);
        lemma_sum_congruent(a0b1.value(), x0 * y1, a1b0.value(), x1 * y0, p);
        lemma_sum_congruent(
            low1.value(),
            x0 * y1 + x1 * y0,
            u_cross.value(),
            uu * (x1 * y2 + x2 * y1),
            p,
        );
        lemma_sum_congruent(
            mid1.value(),
            x0 * y1 + x1 * y0 + uu * (x1 * y2 + x2 * y1),
            v_top.value(),
            vv * (x2 * y2),
            p,
        );
        lemma_sum_congruent(a0b2.value(), x0 * y2, a1b1.value(), x1 * y1, p);
        lemma_sum_congruent(low2.value(), x0 * y2 + x1 * y1, a2b0.value(), x2 * y0, p);
        lemma_sum_congruent(
            mid2.value(),
            x0 * y2 + x1 * y1 + x2 * y0,
            u_top.value(),
            uu * (x2 * y2),
            p,
        );
        assert(residues(r@) =~= cubic_mul(residues(a@), residues(b@), uu, vv, p));
    }
    r
}

/// The image of an element of the cubic extension under the linear map that
/// fixes the base field and takes `x` to `f1` and `x^2` to `f2`.
pub fn cubic_frobenius_with<B: StarkField>(x: [B; 3], f1: [B; 3], f2: [B; 3]) -> (r: [B; 3])
    ensures
        residues(r@) == cubic_frobenius(
            residues(x@),
            residues(f1@),
            residues(f2@),
            B::modulus(),
        ),
{
    let f1x0 = f1[0].mul(x[1]);
    let f2x0 = f2[0].mul(x[2]);
    let low0 = x[0].add(f1x0);
    let r0 = low0.add(f2x0);
    let f1x1 = f1[1].mul(x[1]);
    let f2x1 = f2[1].mul(x[2]);
    let r1 = f1x1.add(f2x1);
    let f1x2 = f1[2].mul(x[1]);
    let f2x2 = f2[2].mul(x[2]);
    let r2 = f1x2.add(f2x2);
    let r = [r0, r1, r2];
    proof {
        let p = B::modulus();
        B::lemma_field();
        let (x0, x1, x2) = (x[0].value(), x[1].value(), x[2].value());
        x[0].lemma_value();
        lemma_small_mod(x0 as nat, p as nat);
        lemma_sum_congruent(x0, x0, f1x0.value(), f1[0].value() * x1, p);
        lemma_sum_congruent(
            low0.value(),
            x0 + f1[0].value() * x1,
            f2x0.value(),
            f2[0].value() * x2,
            p,
        );
        lemma_sum_congruent(f1x1.value(), f1[1].value() * x1, f2x1.value(), f2[1].value() * x2, p);
        lemma_sum_congruent(f1x2.value(), f1[2].value() * x1, f2x2.value(), f2[2].value() * x2, p);
        assert(residues(r@) =~= cubic_frobenius(residues(x@), residues(f1@), residues(f2@), p));
    }
    r
}

} // verus!

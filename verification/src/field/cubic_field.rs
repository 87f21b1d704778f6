//! The cubic extension by a root of an irreducible polynomial is a field: the
//! norm of every nonzero element is a nonzero element of the base field.

use vstd::prelude::*;
use vstd::arithmetic::div_mod::*;
use vstd::arithmetic::mul::*;
use vstd::arithmetic::power::*;
use crate::field::cubic_norm::{
    is_frobenius, lemma_frobenius_multiplicative, lemma_norm_in_base, lemma_product_of,
    lemma_unit_annihilates, power_of_root, lemma_powers_of_root,
};
use crate::field::cubic_spec::{
    cubic_frobenius, cubic_mul, cubic_raw, lemma_cubic_associative, lemma_cubic_closed,
    lemma_cubic_commutative, lemma_cubic_one, lemma_cubic_reduce_left, lemma_cubic_scale,
    lemma_frobenius_closed, lemma_mod_dot3, reduce3,
};
use crate::field::modular::{
    finv, fmul, fpow, is_unit, lemma_inverse_of, lemma_unit_mod, lemma_unit_product,
};
use crate::field::traits::{lift_coeffs, scale_coeffs, sub_coeffs, valid_coeffs, zero_coeffs};

verus! {

/// The `k`-fold product of `a` with itself in the cubic extension by a root of
/// `x^3 - u * x - v`.
pub open spec fn cubic_power(a: Seq<int>, k: nat, u: int, v: int, p: int) -> Seq<int>
    decreases k,
{
    if k == 0 {
        lift_coeffs(1, 3)
    } else {
        cubic_mul(a, cubic_power(a, (k - 1) as nat, u, v, p), u, v, p)
    }
}

/// Powers are coefficient vectors.
pub proof fn lemma_cubic_power_valid(a: Seq<int>, k: nat, u: int, v: int, p: int)
    requires
        p > 1,
    ensures
        valid_coeffs(cubic_power(a, k, u, v, p), 3, p),
    decreases k,
{
    if k > 0 {
        lemma_cubic_closed(a, cubic_power(a, (k - 1) as nat, u, v, p), u, v, p);
    }
}

/// A power with a sum as exponent is the product of the powers.
pub proof fn lemma_cubic_power_add(a: Seq<int>, m: nat, n: nat, u: int, v: int, p: int)
    requires
        p > 1,
        valid_coeffs(a, 3, p),
    ensures
        cubic_power(a, m + n, u, v, p) == cubic_mul(
            cubic_power(a, m, u, v, p),
            cubic_power(a, n, u, v, p),
            u,
            v,
            p,
        ),
    decreases m,
{
    let one = lift_coeffs(1, 3);
    let an = cubic_power(a, n, u, v, p);
    lemma_cubic_power_valid(a, n, u, v, p);
    if m == 0 {
        lemma_cubic_commutative(one, an, u, v, p);
        lemma_cubic_one(an, u, v, p);
    } else {
        let m1 = (m - 1) as nat;
        lemma_cubic_power_add(a, m1, n, u, v, p);
        assert(m + n - 1 == m1 + n);
        lemma_cubic_associative(a, cubic_power(a, m1, u, v, p), an, u, v, p);
    }
}

/// Whether the power of the root with the exponent `e` has the coefficients
/// `a0`, `a1` and `a2`.
pub closed spec fn root_power_is(e: nat, a0: int, a1: int, a2: int, u: int, v: int, p: int) -> bool {
    cubic_power(power_of_root(1), e, u, v, p) == seq![a0, a1, a2]
}

/// What it says of a power of the root that its coefficients are given.
pub proof fn lemma_root_power_is(e: nat, a0: int, a1: int, a2: int, u: int, v: int, p: int)
    ensures
        root_power_is(e, a0, a1, a2, u, v, p) == (cubic_power(power_of_root(1), e, u, v, p)
            == seq![a0, a1, a2]),
{
}

/// The first power of the root is the root.
pub proof fn lemma_root_power_first(u: int, v: int, p: int)
    requires
        p > 1,
    ensures
        root_power_is(1, 0, 1, 0, u, v, p),
{
    lemma_powers_of_root();
    reveal_with_fuel(cubic_power, 2);
    lemma_small_mod(0, p as nat);
    lemma_small_mod(1, p as nat);
    assert(valid_coeffs(power_of_root(1), 3, p));
    lemma_cubic_one(power_of_root(1), u, v, p);
}

/// From the power of the root with the exponent `e` to the power with the
/// exponent `2 * e`: its square.
pub proof fn lemma_root_power_square(
    e: nat,
    a0: int,
    a1: int,
    a2: int,
    u: int,
    v: int,
    p: int,
    r0: int,
    r1: int,
    r2: int,
)
    requires
        p > 1,
        root_power_is(e, a0, a1, a2, u, v, p),
        (a0 * a0 + v * (a1 * a2 + a2 * a1)) % p == r0,
        (a0 * a1 + a1 * a0 + u * (a1 * a2 + a2 * a1) + v * (a2 * a2)) % p == r1,
        (a0 * a2 + a1 * a1 + a2 * a0 + u * (a2 * a2)) % p == r2,
    ensures
        root_power_is(2 * e, r0, r1, r2, u, v, p),
{
    lemma_powers_of_root();
    lemma_small_mod(0, p as nat);
    lemma_small_mod(1, p as nat);
    lemma_cubic_power_add(power_of_root(1), e, e, u, v, p);
    lemma_product_of(a0, a1, a2, a0, a1, a2, u, v, p, r0, r1, r2);
}

/// From the power of the root with the exponent `e` to the power with the
/// exponent `e + 1`: its product with the root.
pub proof fn lemma_root_power_next(
    e: nat,
    a0: int,
    a1: int,
    a2: int,
    u: int,
    v: int,
    p: int,
    r0: int,
    r1: int,
    r2: int,
)
    requires
        p > 1,
        root_power_is(e, a0, a1, a2, u, v, p),
        (v * a2) % p == r0,
        (a0 + u * a2) % p == r1,
        a1 % p == r2,
    ensures
        root_power_is(e + 1, r0, r1, r2, u, v, p),
{
    lemma_powers_of_root();
    let x = power_of_root(1);
    let a = seq![a0, a1, a2];
    let raw = cubic_raw(x, a, u, v);
    assert(raw[0] == v * a2 && raw[1] == a0 + u * a2 && raw[2] == a1) by {
        broadcast use group_mul_basics;

    }
    assert(cubic_mul(x, a, u, v, p) =~= seq![r0, r1, r2]);
    reveal_with_fuel(cubic_power, 1);
}

/// The value of the polynomial `x^3 - u * x - v` at `r`, modulo `p`.
pub open spec fn cubic_at(r: int, u: int, v: int, p: int) -> int {
    (r * (r * r) - u * r - v) % p
}

/// The value at `r` of the polynomial with the coefficients `a`, modulo `p`.
pub open spec fn eval_at(a: Seq<int>, r: int, p: int) -> int {
    (a[0] + a[1] * r + a[2] * (r * r)) % p
}

/// The product of two polynomials of degree two, with `x^3` replaced by
/// `u * x + v`, differs from their product as integers at `r` by a multiple of
/// the value of `x^3 - u * x - v` at `r`.
proof fn lemma_eval_raw(
    a0: int,
    a1: int,
    a2: int,
    b0: int,
    b1: int,
    b2: int,
    r: int,
    u: int,
    v: int,
)
    ensures
        (a0 + a1 * r + a2 * (r * r)) * (b0 + b1 * r + b2 * (r * r)) == (a0 * b0 + v * (a1 * b2 + a2
            * b1)) + (a0 * b1 + a1 * b0 + u * (a1 * b2 + a2 * b1) + v * (a2 * b2)) * r + (a0 * b2
            + a1 * b1 + a2 * b0 + u * (a2 * b2)) * (r * r) + ((a1 * b2 + a2 * b1) + (a2 * b2) * r)
            * (r * (r * r) - u * r - v),
{
    broadcast use group_mul_is_commutative_and_distributive, lemma_mul_is_associative;

}

/// Where `r` is a root of `x^3 - u * x - v` modulo `p`, the value at `r` of a
/// product in the cubic extension is the product of the values.
pub proof fn lemma_eval_product(a: Seq<int>, b: Seq<int>, r: int, u: int, v: int, p: int)
    requires
        p > 1,
        a.len() == 3,
        b.len() == 3,
        cubic_at(r, u, v, p) == 0,
    ensures
        eval_at(cubic_mul(a, b, u, v, p), r, p) == fmul(eval_at(a, r, p), eval_at(b, r, p), p),
{
    let c = cubic_raw(a, b, u, v);
    let x = a[0] + a[1] * r + a[2] * (r * r);
    let y = b[0] + b[1] * r + b[2] * (r * r);
    let z = c[0] + c[1] * r + c[2] * (r * r);
    let k = (a[1] * b[2] + a[2] * b[1]) + (a[2] * b[2]) * r;
    let f = r * (r * r) - u * r - v;
    lemma_eval_raw(a[0], a[1], a[2], b[0], b[1], b[2], r, u, v);
    assert(x * y == z + k * f);
    // the values of the reduced and of the unreduced product agree
    lemma_mod_dot3(c[0], 1, c[1], r, c[2], r * r, p);
    assert(eval_at(cubic_mul(a, b, u, v, p), r, p) == z % p) by {
        let m = cubic_mul(a, b, u, v, p);
        assert(m[0] == c[0] % p && m[1] == c[1] % p && m[2] == c[2] % p);
        assert((c[0] % p) * 1 == c[0] % p && c[0] * 1 == c[0]);
    }
    // k * f is a multiple of p
    lemma_mul_mod_noop_right(k, f, p);
    assert(k * 0 == 0);
    lemma_small_mod(0, p as nat);
    lemma_add_mod_noop(z, k * f, p);
    lemma_mod_twice(z, p);
    lemma_mul_mod_noop(x, y, p);
}

/// The value at `r` of a difference is the difference of the values.
pub proof fn lemma_eval_difference(a: Seq<int>, b: Seq<int>, r: int, p: int)
    requires
        p > 1,
        a.len() == 3,
        b.len() == 3,
    ensures
        eval_at(sub_coeffs(a, b, p), r, p) == (eval_at(a, r, p) - eval_at(b, r, p)) % p,
{
    let d = sub_coeffs(a, b, p);
    lemma_mod_dot3(a[0] - b[0], 1, a[1] - b[1], r, a[2] - b[2], r * r, p);
    assert(d[0] == (a[0] - b[0]) % p && d[1] == (a[1] - b[1]) % p && d[2] == (a[2] - b[2]) % p);
    assert(((a[0] - b[0]) % p) * 1 == d[0] && (a[0] - b[0]) * 1 == a[0] - b[0]);
    assert((a[0] - b[0]) + (a[1] - b[1]) * r + (a[2] - b[2]) * (r * r) == (a[0] + a[1] * r + a[2]
        * (r * r)) - (b[0] + b[1] * r + b[2] * (r * r))) by {
        broadcast use group_mul_is_commutative_and_distributive;

    }
    lemma_sub_mod_noop(
        a[0] + a[1] * r + a[2] * (r * r),
        b[0] + b[1] * r + b[2] * (r * r),
        p,
    );
}

/// Where `r` is a root of `x^3 - u * x - v` modulo `p`, the value at `r` of a
/// power of `x` is the power of `r`.
pub proof fn lemma_eval_power(r: int, k: nat, u: int, v: int, p: int)
    requires
        p > 1,
        0 <= r < p,
        cubic_at(r, u, v, p) == 0,
    ensures
        eval_at(cubic_power(power_of_root(1), k, u, v, p), r, p) == fpow(r, k, p),
    decreases k,
{
    lemma_powers_of_root();
    let x = power_of_root(1);
    if k == 0 {
        lemma_pow0(r);
        assert(0 * r == 0 && 0 * (r * r) == 0);
    } else {
        let rest = cubic_power(x, (k - 1) as nat, u, v, p);
        lemma_eval_power(r, (k - 1) as nat, u, v, p);
        lemma_cubic_power_valid(x, (k - 1) as nat, u, v, p);
        lemma_eval_product(x, rest, r, u, v, p);
        assert(eval_at(x, r, p) == r) by {
            assert(1 * r == r && 0 * (r * r) == 0);
            lemma_small_mod(r as nat, p as nat);
        }
        assert(pow(r, k) == r * pow(r, (k - 1) as nat)) by {
            reveal(pow);
        }
        lemma_mul_mod_noop_right(r, pow(r, (k - 1) as nat), p);
    }
}

/// The polynomial `x^3 - u * x - v` has no root modulo `p` where `x` raised to
/// the power `p` differs from `x` by an element that has an inverse.
pub proof fn lemma_no_root(
    r: int,
    u: int,
    v: int,
    p: int,
    image: Seq<int>,
    difference: Seq<int>,
    inverse: Seq<int>,
)
    requires
        p > 1,
        0 <= r < p,
        fpow(r, p as nat, p) == r,
        cubic_power(power_of_root(1), p as nat, u, v, p) == image,
        difference == sub_coeffs(image, power_of_root(1), p),
        inverse.len() == 3,
        cubic_mul(difference, inverse, u, v, p) == lift_coeffs(1, 3),
    ensures
        cubic_at(r, u, v, p) != 0,
{
    if cubic_at(r, u, v, p) == 0 {
        lemma_powers_of_root();
        let x = power_of_root(1);
        lemma_eval_power(r, p as nat, u, v, p);
        lemma_cubic_power_valid(x, p as nat, u, v, p);
        lemma_eval_difference(image, x, r, p);
        assert(eval_at(x, r, p) == r) by {
            assert(1 * r == r && 0 * (r * r) == 0);
            lemma_small_mod(r as nat, p as nat);
        }
        lemma_small_mod(0, p as nat);
        assert(eval_at(difference, r, p) == 0);
        lemma_eval_product(difference, inverse, r, u, v, p);
        assert(0 * eval_at(inverse, r, p) == 0);
        assert(eval_at(lift_coeffs(1, 3), r, p) == 1) by {
            assert(0 * r == 0 && 0 * (r * r) == 0);
            lemma_small_mod(1, p as nat);
        }
    }
}

/// Whether an element of the cubic extension has an inverse.
pub open spec fn is_cubic_unit(a: Seq<int>, u: int, v: int, p: int) -> bool {
    exists|b: Seq<int>|
        valid_coeffs(b, 3, p) && #[trigger] cubic_mul(a, b, u, v, p) == lift_coeffs(1, 3)
}

/// Whether every nonzero residue modulo `p` has an inverse and the polynomial
/// `x^3 - u * x - v` has no root modulo `p`.
pub open spec fn is_irreducible(u: int, v: int, p: int) -> bool {
    &&& p > 1
    &&& forall|x: int| 0 < x < p ==> #[trigger] is_unit(x, p)
    &&& forall|r: int| 0 <= r < p ==> #[trigger] cubic_at(r, u, v, p) != 0
}

/// An element whose product with another is a base element that has an inverse
/// has an inverse itself.
pub proof fn lemma_unit_by_multiple(a: Seq<int>, b: Seq<int>, d: int, u: int, v: int, p: int)
    requires
        p > 1,
        a.len() == 3,
        b.len() == 3,
        cubic_mul(a, b, u, v, p) == lift_coeffs(d % p, 3),
        is_unit(d % p, p),
    ensures
        is_cubic_unit(a, u, v, p),
{
    let w = finv(d % p, p);
    lemma_inverse_of(d % p, p);
    let reduced = reduce3(b, p);
    let inverse = scale_coeffs(reduced, w, p);
    lemma_cubic_commutative(a, b, u, v, p);
    lemma_cubic_reduce_left(b, a, u, v, p);
    lemma_cubic_commutative(reduced, a, u, v, p);
    lemma_cubic_scale(a, reduced, w, u, v, p);
    assert(0 * w == 0);
    lemma_small_mod(0, p as nat);
    assert(scale_coeffs(lift_coeffs(d % p, 3), w, p) =~= lift_coeffs(1, 3));
    assert(valid_coeffs(inverse, 3, p));
    assert(cubic_mul(a, inverse, u, v, p) == lift_coeffs(1, 3));
}

/// The product of two elements that have inverses has an inverse, and so has
/// each factor of a product that has one.
pub proof fn lemma_unit_products(a: Seq<int>, b: Seq<int>, u: int, v: int, p: int)
    requires
        p > 1,
        valid_coeffs(a, 3, p),
        valid_coeffs(b, 3, p),
    ensures
        is_cubic_unit(a, u, v, p) && is_cubic_unit(b, u, v, p) ==> is_cubic_unit(
            cubic_mul(a, b, u, v, p),
            u,
            v,
            p,
        ),
        is_cubic_unit(cubic_mul(a, b, u, v, p), u, v, p) ==> is_cubic_unit(a, u, v, p),
{
    let one = lift_coeffs(1, 3);
    let ab = cubic_mul(a, b, u, v, p);
    lemma_cubic_closed(a, b, u, v, p);
    if is_cubic_unit(a, u, v, p) && is_cubic_unit(b, u, v, p) {
        let c = choose|c: Seq<int>| valid_coeffs(c, 3, p) && #[trigger] cubic_mul(a, c, u, v, p) == one;
        let d = choose|d: Seq<int>| valid_coeffs(d, 3, p) && #[trigger] cubic_mul(b, d, u, v, p) == one;
        let cd = cubic_mul(c, d, u, v, p);
        lemma_cubic_closed(c, d, u, v, p);
        // (a * b) * (c * d) == (a * c) * (b * d) == one
        lemma_interchange(a, b, c, d, u, v, p);
        lemma_cubic_one(one, u, v, p);
        assert(cubic_mul(ab, cd, u, v, p) == one);
    }
    if is_cubic_unit(ab, u, v, p) {
        let c = choose|c: Seq<int>| valid_coeffs(c, 3, p) && #[trigger] cubic_mul(ab, c, u, v, p) == one;
        let bc = cubic_mul(b, c, u, v, p);
        lemma_cubic_closed(b, c, u, v, p);
        lemma_cubic_associative(a, b, c, u, v, p);
        assert(cubic_mul(a, bc, u, v, p) == one);
    }
}

/// In a product of two products the inner factors can change places.
pub proof fn lemma_interchange(
    a: Seq<int>,
    b: Seq<int>,
    c: Seq<int>,
    d: Seq<int>,
    u: int,
    v: int,
    p: int,
)
    requires
        p > 1,
    ensures
        cubic_mul(cubic_mul(a, b, u, v, p), cubic_mul(c, d, u, v, p), u, v, p) == cubic_mul(
            cubic_mul(a, c, u, v, p),
            cubic_mul(b, d, u, v, p),
            u,
            v,
            p,
        ),
{
    let cd = cubic_mul(c, d, u, v, p);
    let bd = cubic_mul(b, d, u, v, p);
    // (a * b) * (c * d) == a * (b * (c * d)) == a * ((b * c) * d) == a * ((c * b) * d)
    //   == a * (c * (b * d)) == (a * c) * (b * d)
    lemma_cubic_associative(a, b, cd, u, v, p);
    lemma_cubic_associative(b, c, d, u, v, p);
    lemma_cubic_commutative(b, c, u, v, p);
    lemma_cubic_associative(c, b, d, u, v, p);
    lemma_cubic_associative(a, c, bd, u, v, p);
}

/// The product of `a0 + a1 * x` and `(a0^2 - u * a1^2) - a0 * a1 * x + a1^2 * x^2`
/// is the base element `a0^3 - u * a0 * a1^2 + v * a1^3`.
proof fn lemma_linear_cofactor(a0: int, a1: int, u: int, v: int)
    ensures
        cubic_raw(seq![a0, a1, 0int], seq![a0 * a0 - u * (a1 * a1), -(a0 * a1), a1 * a1], u, v)
            == seq![a0 * (a0 * a0) - u * (a0 * (a1 * a1)) + v * (a1 * (a1 * a1)), 0int, 0int],
{
    let a = seq![a0, a1, 0int];
    let b = seq![a0 * a0 - u * (a1 * a1), -(a0 * a1), a1 * a1];
    let c = cubic_raw(a, b, u, v);
    lemma_linear_cofactor_terms(a0, a1, a0 * a0 - u * (a1 * a1), -(a0 * a1), a1 * a1, u, v);
    assert(c =~= seq![a0 * (a0 * a0) - u * (a0 * (a1 * a1)) + v * (a1 * (a1 * a1)), 0int, 0int]);
}

/// The coefficients of the product of `a0 + a1 * x` with its cofactor.
proof fn lemma_linear_cofactor_terms(a0: int, a1: int, b0: int, b1: int, b2: int, u: int, v: int)
    requires
        b0 == a0 * a0 - u * (a1 * a1),
        b1 == -(a0 * a1),
        b2 == a1 * a1,
    ensures
        a0 * b0 + v * (a1 * b2 + 0 * b1) == a0 * (a0 * a0) - u * (a0 * (a1 * a1)) + v * (a1 * (a1
            * a1)),
        a0 * b1 + a1 * b0 + u * (a1 * b2 + 0 * b1) + v * (0 * b2) == 0,
        a0 * b2 + a1 * b1 + 0 * b0 + u * (0 * b2) == 0,
{
    assert(0 * b1 == 0 && 0 * b2 == 0 && 0 * b0 == 0 && u * 0 == 0 && v * 0 == 0);
    assert(a0 * b0 == a0 * (a0 * a0) - u * (a0 * (a1 * a1))) by (nonlinear_arith)
        requires
            b0 == a0 * a0 - u * (a1 * a1),
    ;
    assert(a1 * b2 == a1 * (a1 * a1)) by (nonlinear_arith)
        requires
            b2 == a1 * a1,
    ;
    assert(a0 * b1 + a1 * b0 + u * (a1 * b2) == 0) by (nonlinear_arith)
        requires
            b0 == a0 * a0 - u * (a1 * a1),
            b1 == -(a0 * a1),
            b2 == a1 * a1,
    ;
    assert(a0 * b2 + a1 * b1 == 0) by (nonlinear_arith)
        requires
            b1 == -(a0 * a1),
            b2 == a1 * a1,
    ;
}

/// Where the polynomial has no root, the base element in which the product of
/// a nonzero `a0 + a1 * x` with its cofactor lies is not zero modulo `p`.
proof fn lemma_linear_resultant(a0: int, a1: int, u: int, v: int, p: int)
    requires
        is_irreducible(u, v, p),
        0 <= a0 < p,
        0 <= a1 < p,
        a0 != 0 || a1 != 0,
    ensures
        (a0 * (a0 * a0) - u * (a0 * (a1 * a1)) + v * (a1 * (a1 * a1))) % p != 0,
{
    let d = a0 * (a0 * a0) - u * (a0 * (a1 * a1)) + v * (a1 * (a1 * a1));
    if d % p == 0 {
        if a1 == 0 {
            // a0^3 is zero, and so is a0
            assert(d == a0 * (a0 * a0)) by (nonlinear_arith)
                requires
                    d == a0 * (a0 * a0) - u * (a0 * (a1 * a1)) + v * (a1 * (a1 * a1)),
                    a1 == 0,
            ;
            assert(is_unit(a0, p));
            lemma_small_mod(a0 as nat, p as nat);
            lemma_cube_of_unit(a0, p);
        } else {
            assert(is_unit(a1, p));
            let w = finv(a1, p);
            lemma_inverse_of(a1, p);
            let r = (-(a0 * w)) % p;
            let f = r * (r * r) - u * r - v;
            assert(cubic_at(r, u, v, p) != 0);
            // a1 * r is -a0 modulo p, and so a1^3 * f is -d
            let t = a1 * r;
            assert(t % p == (-a0) % p) by {
                lemma_mul_mod_noop_right(a1, -(a0 * w), p);
                assert(a1 * (-(a0 * w)) == (a1 * w) * (-a0)) by (nonlinear_arith);
                lemma_mul_mod_noop_left(a1 * w, -a0, p);
                assert(1 * (-a0) == -a0);
            }
            assert((a1 * (a1 * a1)) * f == t * (t * t) - u * (t * (a1 * a1)) - v * (a1 * (a1 * a1)))
                by (nonlinear_arith)
                requires
                    t == a1 * r,
                    f == r * (r * r) - u * r - v,
            ;
            lemma_congruent_cubic(t, -a0, a1, u, v, p);
            assert((-a0) * ((-a0) * (-a0)) - u * ((-a0) * (a1 * a1)) - v * (a1 * (a1 * a1)) == -d)
                by (nonlinear_arith)
                requires
                    d == a0 * (a0 * a0) - u * (a0 * (a1 * a1)) + v * (a1 * (a1 * a1)),
            ;
            assert(((a1 * (a1 * a1)) * f) % p == 0) by {
                lemma_mod_neg_zero(d, p);
            }
            // a1^3 has an inverse, and so f is zero
            assert(is_unit((a1 * (a1 * a1)) % p, p)) by {
                lemma_small_mod(a1 as nat, p as nat);
                lemma_unit_product(a1, a1, p);
                lemma_unit_product(a1, a1 * a1, p);
                lemma_unit_mod(a1 * (a1 * a1), p);
            }
            lemma_mul_mod_noop_right(a1 * (a1 * a1), f, p);
            lemma_mod_bound(f, p);
            lemma_unit_annihilates(a1 * (a1 * a1), f % p, p);
        }
    }
}

/// The negative of a multiple of `p` is a multiple of `p`.
proof fn lemma_mod_neg_zero(d: int, p: int)
    requires
        p > 1,
        d % p == 0,
    ensures
        (-d) % p == 0,
{
    lemma_fundamental_div_mod(d, p);
    assert(-d == (-(d / p)) * p) by (nonlinear_arith)
        requires
            d == p * (d / p),
    ;
    lemma_mod_multiples_basic(-(d / p), p);
}

/// The cube of a residue that has an inverse is not a multiple of `p`.
proof fn lemma_cube_of_unit(a: int, p: int)
    requires
        p > 1,
        0 < a < p,
        is_unit(a, p),
    ensures
        (a * (a * a)) % p != 0,
{
    if (a * (a * a)) % p == 0 {
        lemma_small_mod(a as nat, p as nat);
        lemma_mul_mod_noop_right(a, a * a, p);
        lemma_mod_bound(a * a, p);
        lemma_unit_annihilates(a, (a * a) % p, p);
        lemma_unit_annihilates(a, a, p);
    }
}

/// The cubic `t^3 - u * t * c^2 - v * c^3` takes congruent values at congruent
/// arguments.
proof fn lemma_congruent_cubic(t: int, s: int, c: int, u: int, v: int, p: int)
    requires
        p > 1,
        t % p == s % p,
    ensures
        (t * (t * t) - u * (t * (c * c)) - v * (c * (c * c))) % p == (s * (s * s) - u * (s * (c
            * c)) - v * (c * (c * c))) % p,
{
    lemma_mul_mod_noop(t, t, p);
    lemma_mul_mod_noop(s, s, p);
    lemma_mul_mod_noop(t, t * t, p);
    lemma_mul_mod_noop(s, s * s, p);
    lemma_mul_mod_noop_left(t, c * c, p);
    lemma_mul_mod_noop_left(s, c * c, p);
    lemma_mul_mod_noop_right(u, t * (c * c), p);
    lemma_mul_mod_noop_right(u, s * (c * c), p);
    let k = v * (c * (c * c));
    lemma_sub_mod_noop(t * (t * t), u * (t * (c * c)), p);
    lemma_sub_mod_noop(s * (s * s), u * (s * (c * c)), p);
    lemma_sub_mod_noop(t * (t * t) - u * (t * (c * c)), k, p);
    lemma_sub_mod_noop(s * (s * s) - u * (s * (c * c)), k, p);
}

/// A nonzero element without a coefficient at `x^2` has an inverse, where the
/// polynomial has no root.
pub proof fn lemma_linear_unit(a: Seq<int>, u: int, v: int, p: int)
    requires
        is_irreducible(u, v, p),
        valid_coeffs(a, 3, p),
        a[2] == 0,
        a != zero_coeffs(3),
    ensures
        is_cubic_unit(a, u, v, p),
{
    let a0 = a[0];
    let a1 = a[1];
    if a0 == 0 && a1 == 0 {
        assert(a =~= zero_coeffs(3));
    }
    let b = seq![a0 * a0 - u * (a1 * a1), -(a0 * a1), a1 * a1];
    let d = a0 * (a0 * a0) - u * (a0 * (a1 * a1)) + v * (a1 * (a1 * a1));
    assert(a =~= seq![a0, a1, 0int]);
    lemma_linear_cofactor(a0, a1, u, v);
    lemma_linear_resultant(a0, a1, u, v, p);
    lemma_mod_bound(d, p);
    lemma_small_mod(0, p as nat);
    assert(cubic_mul(a, b, u, v, p) =~= lift_coeffs(d % p, 3));
    assert(is_unit(d % p, p));
    lemma_mod_twice(d, p);
    lemma_unit_by_multiple(a, b, d, u, v, p);
}

/// The product of zero and any element is zero.
pub proof fn lemma_cubic_zero(a: Seq<int>, u: int, v: int, p: int)
    requires
        p > 1,
    ensures
        cubic_mul(zero_coeffs(3), a, u, v, p) == zero_coeffs(3),
{
    let x = cubic_raw(zero_coeffs(3), a, u, v);
    assert(x[0] == 0 && x[1] == 0 && x[2] == 0) by {
        broadcast use group_mul_basics;

    }
    lemma_small_mod(0, p as nat);
    assert(cubic_mul(zero_coeffs(3), a, u, v, p) =~= zero_coeffs(3));
}

/// Every nonzero element of the extension has an inverse, where the
/// polynomial has no root: the extension is a field.
pub proof fn lemma_every_unit(a: Seq<int>, u: int, v: int, p: int)
    requires
        is_irreducible(u, v, p),
        valid_coeffs(a, 3, p),
        a != zero_coeffs(3),
    ensures
        is_cubic_unit(a, u, v, p),
{
    if a[2] == 0 {
        lemma_linear_unit(a, u, v, p);
    } else {
        // the product of `a` with `-a[1] + a[2] * x` has no coefficient at x^2
        let q = seq![(-a[1]) % p, a[2], 0int];
        lemma_mod_bound(-a[1], p);
        assert(valid_coeffs(q, 3, p));
        assert(q != zero_coeffs(3)) by {
            assert(q[1] != zero_coeffs(3)[1]);
        }
        lemma_linear_unit(q, u, v, p);
        let r = cubic_mul(a, q, u, v, p);
        lemma_cubic_closed(a, q, u, v, p);
        assert(r[2] == 0) by {
            let t = cubic_raw(a, q, u, v)[2];
            assert(a[2] * 0 == 0 && a[1] * 0 == 0 && a[0] * 0 == 0 && u * 0 == 0);
            assert(t == a[1] * a[2] + a[2] * ((-a[1]) % p));
            lemma_mul_mod_noop_right(a[2], -a[1], p);
            lemma_add_mod_noop(a[1] * a[2], a[2] * ((-a[1]) % p), p);
            lemma_add_mod_noop(a[1] * a[2], a[2] * (-a[1]), p);
            assert(a[1] * a[2] + a[2] * (-a[1]) == 0) by (nonlinear_arith);
            lemma_small_mod(0, p as nat);
        }
        if r == zero_coeffs(3) {
            // then a == (a * q) * c == zero for the inverse c of q
            let c = choose|c: Seq<int>|
                valid_coeffs(c, 3, p) && #[trigger] cubic_mul(q, c, u, v, p) == lift_coeffs(1, 3);
            lemma_cubic_associative(a, q, c, u, v, p);
            lemma_cubic_one(a, u, v, p);
            lemma_cubic_zero(c, u, v, p);
            assert(false);
        }
        lemma_linear_unit(r, u, v, p);
        lemma_unit_products(a, q, u, v, p);
    }
}

/// The norm of an element: its product with its images under the map given by
/// `f1` and `f2` and under that map applied twice.
pub open spec fn norm_of(a: Seq<int>, u: int, v: int, f1: Seq<int>, f2: Seq<int>, p: int) -> Seq<
    int,
> {
    let c1 = cubic_frobenius(a, f1, f2, p);
    let c2 = cubic_frobenius(c1, f1, f2, p);
    cubic_mul(a, cubic_mul(c1, c2, u, v, p), u, v, p)
}

/// The norm of a product is the product of the norms.
pub proof fn lemma_norm_multiplicative(
    a: Seq<int>,
    b: Seq<int>,
    u: int,
    v: int,
    f1: Seq<int>,
    f2: Seq<int>,
    p: int,
)
    requires
        p > 1,
        is_frobenius(u, v, f1, f2, p),
        valid_coeffs(a, 3, p),
        valid_coeffs(b, 3, p),
    ensures
        norm_of(cubic_mul(a, b, u, v, p), u, v, f1, f2, p) == cubic_mul(
            norm_of(a, u, v, f1, f2, p),
            norm_of(b, u, v, f1, f2, p),
            u,
            v,
            p,
        ),
{
    let a1 = cubic_frobenius(a, f1, f2, p);
    let a2 = cubic_frobenius(a1, f1, f2, p);
    let b1 = cubic_frobenius(b, f1, f2, p);
    let b2 = cubic_frobenius(b1, f1, f2, p);
    lemma_frobenius_closed(a, f1, f2, p);
    lemma_frobenius_closed(b, f1, f2, p);
    lemma_frobenius_multiplicative(a, b, u, v, f1, f2, p);
    lemma_frobenius_multiplicative(a1, b1, u, v, f1, f2, p);
    lemma_interchange(a1, b1, a2, b2, u, v, p);
    lemma_interchange(
        a,
        b,
        cubic_mul(a1, a2, u, v, p),
        cubic_mul(b1, b2, u, v, p),
        u,
        v,
        p,
    );
}

/// The norm of one is one.
pub proof fn lemma_norm_of_one(u: int, v: int, f1: Seq<int>, f2: Seq<int>, p: int)
    requires
        p > 1,
        f1.len() == 3,
        f2.len() == 3,
    ensures
        norm_of(lift_coeffs(1, 3), u, v, f1, f2, p) == lift_coeffs(1, 3),
{
    let one = lift_coeffs(1, 3);
    assert(f1[0] * 0 == 0 && f1[1] * 0 == 0 && f1[2] * 0 == 0);
    assert(f2[0] * 0 == 0 && f2[1] * 0 == 0 && f2[2] * 0 == 0);
    lemma_small_mod(0, p as nat);
    lemma_small_mod(1, p as nat);
    assert(cubic_frobenius(one, f1, f2, p) =~= one);
    lemma_cubic_one(one, u, v, p);
}

/// Where the polynomial has no root, the norm of a nonzero element is not
/// zero.
pub proof fn lemma_norm_nonzero(a: Seq<int>, u: int, v: int, f1: Seq<int>, f2: Seq<int>, p: int)
    requires
        is_irreducible(u, v, p),
        is_frobenius(u, v, f1, f2, p),
        valid_coeffs(a, 3, p),
        a != zero_coeffs(3),
    ensures
        norm_of(a, u, v, f1, f2, p)[0] != 0,
{
    lemma_every_unit(a, u, v, p);
    let b = choose|b: Seq<int>|
        valid_coeffs(b, 3, p) && #[trigger] cubic_mul(a, b, u, v, p) == lift_coeffs(1, 3);
    let norm = norm_of(a, u, v, f1, f2, p);
    lemma_norm_multiplicative(a, b, u, v, f1, f2, p);
    lemma_norm_of_one(u, v, f1, f2, p);
    lemma_norm_in_base(a, u, v, f1, f2, p);
    lemma_cubic_closed(
        a,
        cubic_mul(
            cubic_frobenius(a, f1, f2, p),
            cubic_frobenius(cubic_frobenius(a, f1, f2, p), f1, f2, p),
            u,
            v,
            p,
        ),
        u,
        v,
        p,
    );
    if norm[0] == 0 {
        assert(norm =~= zero_coeffs(3));
        lemma_cubic_zero(norm_of(b, u, v, f1, f2, p), u, v, p);
        assert(lift_coeffs(1, 3)[0] == 1);
        assert(false);
    }
}

/// A residue that the exponent `p - 1` takes to one, and zero, are taken to
/// themselves by the exponent `p`.
pub proof fn lemma_power_of_modulus(r: int, p: int)
    requires
        p > 1,
        0 <= r < p,
        r != 0 ==> fpow(r, (p - 1) as nat, p) == 1,
    ensures
        fpow(r, p as nat, p) == r,
{
    reveal(pow);
    assert(pow(r, p as nat) == r * pow(r, (p - 1) as nat));
    lemma_small_mod(r as nat, p as nat);
    if r == 0 {
        assert(0 * pow(r, (p - 1) as nat) == 0);
    } else {
        lemma_mul_mod_noop_right(r, pow(r, (p - 1) as nat), p);
        assert(r * 1 == r);
    }
}

} // verus!

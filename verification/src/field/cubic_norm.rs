//! The norm of an element of a cubic extension lies in the base field.
//!
//! The Frobenius map is linear; where it is multiplicative on the powers of the
//! root `x` and its third power is the identity on them, it is multiplicative
//! and of order three on all elements. The norm, the product of an element with
//! its two conjugates, is then a fixed point of the map, and the fixed points
//! are the elements of the base field.

use vstd::prelude::*;
use vstd::arithmetic::div_mod::*;
use vstd::arithmetic::mul::*;
use crate::field::cubic_spec::{
    cubic_frobenius, cubic_mul, cubic_raw, reduce3, lemma_cubic_associative, lemma_cubic_closed,
    lemma_cubic_commutative, lemma_cubic_reduce_left, lemma_cubic_scale, lemma_mod_dot3,
};
use crate::field::modular::{is_unit, is_inverse};
use crate::field::traits::{add_coeffs, scale_coeffs, valid_coeffs};

verus! {

/// The coefficient vector of the power `x^i` of the root, for `i` up to two.
pub open spec fn power_of_root(i: int) -> Seq<int> {
    seq![if i == 0 { 1int } else { 0int }, if i == 1 { 1int } else { 0int }, if i == 2 { 1int } else { 0int }]
}

/// Whether a map on the coefficient vectors of a cubic extension is linear over
/// the base field: it takes sums to sums and multiples to multiples.
pub open spec fn is_linear(f: spec_fn(Seq<int>) -> Seq<int>, p: int) -> bool {
    &&& forall|x: Seq<int>| valid_coeffs(x, 3, p) ==> valid_coeffs(#[trigger] f(x), 3, p)
    &&& forall|x: Seq<int>, y: Seq<int>|
        valid_coeffs(x, 3, p) && valid_coeffs(y, 3, p) ==> #[trigger] f(add_coeffs(x, y, p))
            == add_coeffs(f(x), f(y), p)
    &&& forall|x: Seq<int>, c: int|
        valid_coeffs(x, 3, p) && 0 <= c < p ==> #[trigger] f(scale_coeffs(x, c, p))
            == scale_coeffs(f(x), c, p)
}

/// An element is the sum of the multiples of the powers of the root by its
/// coefficients.
pub proof fn lemma_decompose(a: Seq<int>, p: int)
    requires
        p > 1,
        valid_coeffs(a, 3, p),
    ensures
        a == add_coeffs(
            add_coeffs(
                scale_coeffs(power_of_root(0), a[0], p),
                scale_coeffs(power_of_root(1), a[1], p),
                p,
            ),
            scale_coeffs(power_of_root(2), a[2], p),
            p,
        ),
        valid_coeffs(scale_coeffs(power_of_root(0), a[0], p), 3, p),
        valid_coeffs(scale_coeffs(power_of_root(1), a[1], p), 3, p),
        valid_coeffs(scale_coeffs(power_of_root(2), a[2], p), 3, p),
        valid_coeffs(
            add_coeffs(
                scale_coeffs(power_of_root(0), a[0], p),
                scale_coeffs(power_of_root(1), a[1], p),
                p,
            ),
            3,
            p,
        ),
        valid_coeffs(power_of_root(0), 3, p),
        valid_coeffs(power_of_root(1), 3, p),
        valid_coeffs(power_of_root(2), 3, p),
{
    lemma_small_mod(0, p as nat);
    lemma_small_mod(a[0] as nat, p as nat);
    lemma_small_mod(a[1] as nat, p as nat);
    lemma_small_mod(a[2] as nat, p as nat);
    assert(1 * a[0] == a[0] && 1 * a[1] == a[1] && 1 * a[2] == a[2]);
    assert(0 * a[0] == 0 && 0 * a[1] == 0 && 0 * a[2] == 0);
    let part0 = scale_coeffs(power_of_root(0), a[0], p);
    let part1 = scale_coeffs(power_of_root(1), a[1], p);
    let part2 = scale_coeffs(power_of_root(2), a[2], p);
    assert(part0 =~= seq![a[0], 0int, 0int]);
    assert(part1 =~= seq![0int, a[1], 0int]);
    assert(part2 =~= seq![0int, 0int, a[2]]);
    assert(add_coeffs(part0, part1, p) =~= seq![a[0], a[1], 0int]);
    assert(add_coeffs(add_coeffs(part0, part1, p), part2, p) =~= a);
}

/// Two linear maps that agree on the powers of the root agree on every
/// element.
pub proof fn lemma_linear_maps_agree(
    f: spec_fn(Seq<int>) -> Seq<int>,
    g: spec_fn(Seq<int>) -> Seq<int>,
    a: Seq<int>,
    p: int,
)
    requires
        p > 1,
        is_linear(f, p),
        is_linear(g, p),
        f(power_of_root(0)) == g(power_of_root(0)),
        f(power_of_root(1)) == g(power_of_root(1)),
        f(power_of_root(2)) == g(power_of_root(2)),
        valid_coeffs(a, 3, p),
    ensures
        f(a) == g(a),
{
    lemma_decompose(a, p);
    let part0 = scale_coeffs(power_of_root(0), a[0], p);
    let part1 = scale_coeffs(power_of_root(1), a[1], p);
    let part2 = scale_coeffs(power_of_root(2), a[2], p);
    let low = add_coeffs(part0, part1, p);
    assert(f(part0) == g(part0));
    assert(f(part1) == g(part1));
    assert(f(part2) == g(part2));
    assert(f(low) == g(low));
    assert(f(add_coeffs(low, part2, p)) == g(add_coeffs(low, part2, p)));
}

/// The composition of two linear maps is linear.
pub proof fn lemma_linear_composition(
    f: spec_fn(Seq<int>) -> Seq<int>,
    g: spec_fn(Seq<int>) -> Seq<int>,
    h: spec_fn(Seq<int>) -> Seq<int>,
    p: int,
)
    requires
        is_linear(f, p),
        is_linear(g, p),
        forall|x: Seq<int>| #[trigger] h(x) == g(f(x)),
    ensures
        is_linear(h, p),
{
    assert forall|x: Seq<int>, y: Seq<int>|
        valid_coeffs(x, 3, p) && valid_coeffs(y, 3, p) implies #[trigger] h(add_coeffs(x, y, p))
        == add_coeffs(h(x), h(y), p) by {
        assert(f(add_coeffs(x, y, p)) == add_coeffs(f(x), f(y), p));
        assert(valid_coeffs(f(x), 3, p) && valid_coeffs(f(y), 3, p));
        assert(g(add_coeffs(f(x), f(y), p)) == add_coeffs(g(f(x)), g(f(y)), p));
    }
    assert forall|x: Seq<int>, c: int| valid_coeffs(x, 3, p) && 0 <= c < p implies #[trigger] h(
        scale_coeffs(x, c, p),
    ) == scale_coeffs(h(x), c, p) by {
        assert(f(scale_coeffs(x, c, p)) == scale_coeffs(f(x), c, p));
        assert(valid_coeffs(f(x), 3, p));
        assert(g(scale_coeffs(f(x), c, p)) == scale_coeffs(g(f(x)), c, p));
    }
    assert forall|x: Seq<int>| valid_coeffs(x, 3, p) implies valid_coeffs(#[trigger] h(x), 3, p) by {
        assert(valid_coeffs(f(x), 3, p));
    }
}

/// Multiplication by a fixed element is linear.
pub proof fn lemma_mul_is_linear(b: Seq<int>, u: int, v: int, p: int)
    requires
        p > 1,
        b.len() == 3,
    ensures
        is_linear(|x: Seq<int>| cubic_mul(x, b, u, v, p), p),
        is_linear(|x: Seq<int>| cubic_mul(b, x, u, v, p), p),
{
    let f = |x: Seq<int>| cubic_mul(x, b, u, v, p);
    let g = |x: Seq<int>| cubic_mul(b, x, u, v, p);
    assert forall|x: Seq<int>| valid_coeffs(x, 3, p) implies valid_coeffs(#[trigger] f(x), 3, p) by {
        lemma_cubic_closed(x, b, u, v, p);
    }
    assert forall|x: Seq<int>| valid_coeffs(x, 3, p) implies valid_coeffs(#[trigger] g(x), 3, p) by {
        lemma_cubic_closed(b, x, u, v, p);
    }
    assert forall|x: Seq<int>, y: Seq<int>|
        valid_coeffs(x, 3, p) && valid_coeffs(y, 3, p) implies #[trigger] f(add_coeffs(x, y, p))
        == add_coeffs(f(x), f(y), p) by {
        lemma_mul_additive(x, y, b, u, v, p);
    }
    assert forall|x: Seq<int>, y: Seq<int>|
        valid_coeffs(x, 3, p) && valid_coeffs(y, 3, p) implies #[trigger] g(add_coeffs(x, y, p))
        == add_coeffs(g(x), g(y), p) by {
        lemma_mul_additive(x, y, b, u, v, p);
        lemma_cubic_commutative(b, add_coeffs(x, y, p), u, v, p);
        lemma_cubic_commutative(b, x, u, v, p);
        lemma_cubic_commutative(b, y, u, v, p);
    }
    assert forall|x: Seq<int>, c: int| valid_coeffs(x, 3, p) && 0 <= c < p implies #[trigger] g(
        scale_coeffs(x, c, p),
    ) == scale_coeffs(g(x), c, p) by {
        lemma_cubic_scale(b, x, c, u, v, p);
    }
    assert forall|x: Seq<int>, c: int| valid_coeffs(x, 3, p) && 0 <= c < p implies #[trigger] f(
        scale_coeffs(x, c, p),
    ) == scale_coeffs(f(x), c, p) by {
        lemma_cubic_scale(b, x, c, u, v, p);
        lemma_cubic_commutative(b, scale_coeffs(x, c, p), u, v, p);
        lemma_cubic_commutative(b, x, u, v, p);
    }
}

/// The product with a sum is the sum of the products.
pub proof fn lemma_mul_additive(x: Seq<int>, y: Seq<int>, b: Seq<int>, u: int, v: int, p: int)
    requires
        p > 1,
        x.len() == 3,
        y.len() == 3,
    ensures
        cubic_mul(add_coeffs(x, y, p), b, u, v, p) == add_coeffs(
            cubic_mul(x, b, u, v, p),
            cubic_mul(y, b, u, v, p),
            p,
        ),
{
    let sum = seq![x[0] + y[0], x[1] + y[1], x[2] + y[2]];
    let rs = cubic_raw(sum, b, u, v);
    let rx = cubic_raw(x, b, u, v);
    let ry = cubic_raw(y, b, u, v);
    assert(rs[0] == rx[0] + ry[0] && rs[1] == rx[1] + ry[1] && rs[2] == rx[2] + ry[2]) by {
        broadcast use group_mul_is_commutative_and_distributive, lemma_mul_is_associative;

    }
    assert(add_coeffs(x, y, p) =~= reduce3(sum, p));
    lemma_cubic_reduce_left(sum, b, u, v, p);
    lemma_add_mod_noop(rx[0], ry[0], p);
    lemma_add_mod_noop(rx[1], ry[1], p);
    lemma_add_mod_noop(rx[2], ry[2], p);
    assert(cubic_mul(add_coeffs(x, y, p), b, u, v, p) =~= add_coeffs(
        cubic_mul(x, b, u, v, p),
        cubic_mul(y, b, u, v, p),
        p,
    ));
}

/// The Frobenius map is linear.
pub proof fn lemma_frobenius_is_linear(f1: Seq<int>, f2: Seq<int>, p: int)
    requires
        p > 1,
    ensures
        is_linear(|x: Seq<int>| cubic_frobenius(x, f1, f2, p), p),
{
    let f = |x: Seq<int>| cubic_frobenius(x, f1, f2, p);
    assert forall|x: Seq<int>, y: Seq<int>|
        valid_coeffs(x, 3, p) && valid_coeffs(y, 3, p) implies #[trigger] f(add_coeffs(x, y, p))
        == add_coeffs(f(x), f(y), p) by {
        let s = add_coeffs(x, y, p);
        lemma_frobenius_row(x, y, 1, f1[0], f2[0], p);
        lemma_frobenius_row(x, y, 0, f1[1], f2[1], p);
        lemma_frobenius_row(x, y, 0, f1[2], f2[2], p);
        assert(1 * s[0] == s[0] && 1 * x[0] == x[0] && 1 * y[0] == y[0]);
        assert(0 * s[0] == 0 && 0 * x[0] == 0 && 0 * y[0] == 0);
        assert(f(s) =~= add_coeffs(f(x), f(y), p));
    }
    assert forall|x: Seq<int>, c: int| valid_coeffs(x, 3, p) && 0 <= c < p implies #[trigger] f(
        scale_coeffs(x, c, p),
    ) == scale_coeffs(f(x), c, p) by {
        let s = scale_coeffs(x, c, p);
        lemma_frobenius_row_scaled(x, c, 1, f1[0], f2[0], p);
        lemma_frobenius_row_scaled(x, c, 0, f1[1], f2[1], p);
        lemma_frobenius_row_scaled(x, c, 0, f1[2], f2[2], p);
        assert(1 * s[0] == s[0] && 1 * x[0] == x[0]);
        assert(0 * s[0] == 0 && 0 * x[0] == 0);
        assert(f(s) =~= scale_coeffs(f(x), c, p));
    }
}

/// One coefficient of the Frobenius image of a sum.
proof fn lemma_frobenius_row(x: Seq<int>, y: Seq<int>, k0: int, k1: int, k2: int, p: int)
    requires
        p > 1,
        x.len() == 3,
        y.len() == 3,
    ensures
        (k0 * ((x[0] + y[0]) % p) + k1 * ((x[1] + y[1]) % p) + k2 * ((x[2] + y[2]) % p)) % p == ((
        k0 * x[0] + k1 * x[1] + k2 * x[2]) % p + (k0 * y[0] + k1 * y[1] + k2 * y[2]) % p) % p,
{
    lemma_mod_dot3(x[0] + y[0], k0, x[1] + y[1], k1, x[2] + y[2], k2, p);
    assert(k0 * ((x[0] + y[0]) % p) + k1 * ((x[1] + y[1]) % p) + k2 * ((x[2] + y[2]) % p) == ((x[0]
        + y[0]) % p) * k0 + ((x[1] + y[1]) % p) * k1 + ((x[2] + y[2]) % p) * k2) by {
        broadcast use lemma_mul_is_commutative;

    }
    assert((x[0] + y[0]) * k0 + (x[1] + y[1]) * k1 + (x[2] + y[2]) * k2 == (k0 * x[0] + k1 * x[1]
        + k2 * x[2]) + (k0 * y[0] + k1 * y[1] + k2 * y[2])) by {
        broadcast use group_mul_is_commutative_and_distributive;

    }
    lemma_add_mod_noop(
        k0 * x[0] + k1 * x[1] + k2 * x[2],
        k0 * y[0] + k1 * y[1] + k2 * y[2],
        p,
    );
}

/// One coefficient of the Frobenius image of a multiple.
proof fn lemma_frobenius_row_scaled(x: Seq<int>, c: int, k0: int, k1: int, k2: int, p: int)
    requires
        p > 1,
        x.len() == 3,
    ensures
        (k0 * ((x[0] * c) % p) + k1 * ((x[1] * c) % p) + k2 * ((x[2] * c) % p)) % p == (((k0 * x[0]
            + k1 * x[1] + k2 * x[2]) % p) * c) % p,
{
    lemma_mod_dot3(x[0] * c, k0, x[1] * c, k1, x[2] * c, k2, p);
    assert(k0 * ((x[0] * c) % p) + k1 * ((x[1] * c) % p) + k2 * ((x[2] * c) % p) == ((x[0] * c)
        % p) * k0 + ((x[1] * c) % p) * k1 + ((x[2] * c) % p) * k2) by {
        broadcast use lemma_mul_is_commutative;

    }
    assert((x[0] * c) * k0 + (x[1] * c) * k1 + (x[2] * c) * k2 == (k0 * x[0] + k1 * x[1] + k2
        * x[2]) * c) by {
        broadcast use group_mul_is_commutative_and_distributive, lemma_mul_is_associative;

    }
    lemma_mul_mod_noop_left(k0 * x[0] + k1 * x[1] + k2 * x[2], c, p);
}

/// The identity map is linear.
pub proof fn lemma_identity_is_linear(p: int)
    ensures
        is_linear(|x: Seq<int>| x, p),
{
}

/// What makes the linear map that takes `x` to `f1` and `x^2` to `f2` an
/// automorphism of order three of the extension by a root of `x^3 - u * x - v`
/// that fixes the base field only: it is multiplicative on the powers of the
/// root, applied three times it takes each of them to itself, and the
/// determinant of the map less the identity, on the span of `x` and `x^2`, has
/// an inverse modulo `p`.
pub open spec fn is_frobenius(u: int, v: int, f1: Seq<int>, f2: Seq<int>, p: int) -> bool {
    &&& f1.len() == 3
    &&& f2.len() == 3
    &&& forall|i: int, j: int|
        0 <= i < 3 && 0 <= j < 3 ==> #[trigger] cubic_frobenius(
            cubic_mul(power_of_root(i), power_of_root(j), u, v, p),
            f1,
            f2,
            p,
        ) == cubic_mul(
            cubic_frobenius(power_of_root(i), f1, f2, p),
            cubic_frobenius(power_of_root(j), f1, f2, p),
            u,
            v,
            p,
        )
    &&& forall|i: int|
        0 <= i < 3 ==> cubic_frobenius(
            cubic_frobenius(cubic_frobenius(#[trigger] power_of_root(i), f1, f2, p), f1, f2, p),
            f1,
            f2,
            p,
        ) == power_of_root(i)
    &&& is_unit(((f1[1] - 1) * (f2[2] - 1) - f2[1] * f1[2]) % p, p)
}

/// The Frobenius map is multiplicative.
pub proof fn lemma_frobenius_multiplicative(
    a: Seq<int>,
    b: Seq<int>,
    u: int,
    v: int,
    f1: Seq<int>,
    f2: Seq<int>,
    p: int,
)
    requires
        p > 1,
        is_frobenius(u, v, f1, f2, p),
        valid_coeffs(a, 3, p),
        valid_coeffs(b, 3, p),
    ensures
        cubic_frobenius(cubic_mul(a, b, u, v, p), f1, f2, p) == cubic_mul(
            cubic_frobenius(a, f1, f2, p),
            cubic_frobenius(b, f1, f2, p),
            u,
            v,
            p,
        ),
{
    let phi = |x: Seq<int>| cubic_frobenius(x, f1, f2, p);
    let times_a = |y: Seq<int>| cubic_mul(a, y, u, v, p);
    let times_image = |y: Seq<int>| cubic_mul(phi(a), y, u, v, p);
    let left = |y: Seq<int>| phi(cubic_mul(a, y, u, v, p));
    let right = |y: Seq<int>| cubic_mul(phi(a), phi(y), u, v, p);
    lemma_frobenius_is_linear(f1, f2, p);
    lemma_mul_is_linear(a, u, v, p);
    lemma_mul_is_linear(phi(a), u, v, p);
    lemma_linear_composition(times_a, phi, left, p);
    lemma_linear_composition(phi, times_image, right, p);
    lemma_decompose(b, p);
    lemma_frobenius_multiplicative_on_power(a, 0, u, v, f1, f2, p);
    lemma_frobenius_multiplicative_on_power(a, 1, u, v, f1, f2, p);
    lemma_frobenius_multiplicative_on_power(a, 2, u, v, f1, f2, p);
    lemma_linear_maps_agree(left, right, b, p);
}

/// The Frobenius map is multiplicative where the second factor is a power of
/// the root.
proof fn lemma_frobenius_multiplicative_on_power(
    a: Seq<int>,
    j: int,
    u: int,
    v: int,
    f1: Seq<int>,
    f2: Seq<int>,
    p: int,
)
    requires
        p > 1,
        is_frobenius(u, v, f1, f2, p),
        valid_coeffs(a, 3, p),
        0 <= j < 3,
    ensures
        cubic_frobenius(cubic_mul(a, power_of_root(j), u, v, p), f1, f2, p) == cubic_mul(
            cubic_frobenius(a, f1, f2, p),
            cubic_frobenius(power_of_root(j), f1, f2, p),
            u,
            v,
            p,
        ),
{
    let phi = |x: Seq<int>| cubic_frobenius(x, f1, f2, p);
    let e = power_of_root(j);
    let times_e = |x: Seq<int>| cubic_mul(x, e, u, v, p);
    let times_image = |x: Seq<int>| cubic_mul(x, phi(e), u, v, p);
    let left = |x: Seq<int>| phi(cubic_mul(x, e, u, v, p));
    let right = |x: Seq<int>| cubic_mul(phi(x), phi(e), u, v, p);
    lemma_frobenius_is_linear(f1, f2, p);
    lemma_mul_is_linear(e, u, v, p);
    lemma_mul_is_linear(phi(e), u, v, p);
    lemma_linear_composition(times_e, phi, left, p);
    lemma_linear_composition(phi, times_image, right, p);
    assert(left(power_of_root(0)) == right(power_of_root(0)));
    assert(left(power_of_root(1)) == right(power_of_root(1)));
    assert(left(power_of_root(2)) == right(power_of_root(2)));
    lemma_linear_maps_agree(left, right, a, p);
}

/// The Frobenius map applied three times is the identity.
pub proof fn lemma_frobenius_cubed(a: Seq<int>, u: int, v: int, f1: Seq<int>, f2: Seq<int>, p: int)
    requires
        p > 1,
        is_frobenius(u, v, f1, f2, p),
        valid_coeffs(a, 3, p),
    ensures
        cubic_frobenius(cubic_frobenius(cubic_frobenius(a, f1, f2, p), f1, f2, p), f1, f2, p) == a,
{
    let phi = |x: Seq<int>| cubic_frobenius(x, f1, f2, p);
    let twice = |x: Seq<int>| phi(phi(x));
    let thrice = |x: Seq<int>| phi(phi(phi(x)));
    let same = |x: Seq<int>| x;
    lemma_frobenius_is_linear(f1, f2, p);
    lemma_linear_composition(phi, phi, twice, p);
    lemma_linear_composition(twice, phi, thrice, p);
    lemma_identity_is_linear(p);
    assert(thrice(power_of_root(0)) == same(power_of_root(0)));
    assert(thrice(power_of_root(1)) == same(power_of_root(1)));
    assert(thrice(power_of_root(2)) == same(power_of_root(2)));
    lemma_linear_maps_agree(thrice, same, a, p);
}

/// The norm of an element, its product with its two conjugates, lies in the
/// base field: its coefficients at `x` and at `x^2` are zero.
pub proof fn lemma_norm_in_base(a: Seq<int>, u: int, v: int, f1: Seq<int>, f2: Seq<int>, p: int)
    requires
        p > 1,
        is_frobenius(u, v, f1, f2, p),
        valid_coeffs(a, 3, p),
    ensures
        cubic_mul(
            a,
            cubic_mul(
                cubic_frobenius(a, f1, f2, p),
                cubic_frobenius(cubic_frobenius(a, f1, f2, p), f1, f2, p),
                u,
                v,
                p,
            ),
            u,
            v,
            p,
        )[1] == 0,
        cubic_mul(
            a,
            cubic_mul(
                cubic_frobenius(a, f1, f2, p),
                cubic_frobenius(cubic_frobenius(a, f1, f2, p), f1, f2, p),
                u,
                v,
                p,
            ),
            u,
            v,
            p,
        )[2] == 0,
{
    let c1 = cubic_frobenius(a, f1, f2, p);
    let c2 = cubic_frobenius(c1, f1, f2, p);
    let cofactor = cubic_mul(c1, c2, u, v, p);
    let n = cubic_mul(a, cofactor, u, v, p);
    lemma_cubic_closed(c1, c2, u, v, p);
    lemma_cubic_closed(a, cofactor, u, v, p);
    // the image of the norm is the product of the conjugates of the factors,
    // which are the factors again
    lemma_frobenius_multiplicative(a, cofactor, u, v, f1, f2, p);
    lemma_frobenius_multiplicative(c1, c2, u, v, f1, f2, p);
    lemma_frobenius_cubed(a, u, v, f1, f2, p);
    lemma_cubic_commutative(c2, a, u, v, p);
    lemma_cubic_associative(c1, c2, a, u, v, p);
    lemma_cubic_commutative(cubic_mul(c1, c2, u, v, p), a, u, v, p);
    assert(cubic_frobenius(n, f1, f2, p) == n);
    lemma_fixed_point(n, f1, f2, p);
}

/// An element that the Frobenius map takes to itself lies in the base field.
pub proof fn lemma_fixed_point(n: Seq<int>, f1: Seq<int>, f2: Seq<int>, p: int)
    requires
        p > 1,
        f1.len() == 3,
        f2.len() == 3,
        valid_coeffs(n, 3, p),
        cubic_frobenius(n, f1, f2, p) == n,
        is_unit(((f1[1] - 1) * (f2[2] - 1) - f2[1] * f1[2]) % p, p),
    ensures
        n[1] == 0,
        n[2] == 0,
{
    let (a, b, c, d) = (f1[1] - 1, f2[1], f1[2], f2[2] - 1);
    let det = a * d - b * c;
    let (x, y) = (n[1], n[2]);
    let image = cubic_frobenius(n, f1, f2, p);
    // a * x + b * y and c * x + d * y are multiples of p
    let first = a * x + b * y;
    let second = c * x + d * y;
    assert(first % p == 0) by {
        assert(image[1] == x);
        assert(f1[1] * x + f2[1] * y == first + x) by (nonlinear_arith)
            requires
                first == (f1[1] - 1) * x + f2[1] * y,
        ;
        lemma_small_mod(x as nat, p as nat);
        lemma_sub_mod_noop(first + x, x, p);
        lemma_small_mod(0, p as nat);
    }
    assert(second % p == 0) by {
        assert(image[2] == y);
        assert(f1[2] * x + f2[2] * y == second + y) by (nonlinear_arith)
            requires
                second == f1[2] * x + (f2[2] - 1) * y,
        ;
        lemma_small_mod(y as nat, p as nat);
        lemma_sub_mod_noop(second + y, y, p);
        lemma_small_mod(0, p as nat);
    }
    assert(det * x == d * first - b * second) by (nonlinear_arith)
        requires
            det == a * d - b * c,
            first == a * x + b * y,
            second == c * x + d * y,
    ;
    assert(det * y == a * second - c * first) by (nonlinear_arith)
        requires
            det == a * d - b * c,
            first == a * x + b * y,
            second == c * x + d * y,
    ;
    lemma_mul_mod_noop_right(d, first, p);
    lemma_mul_mod_noop_right(b, second, p);
    lemma_mul_mod_noop_right(a, second, p);
    lemma_mul_mod_noop_right(c, first, p);
    assert(d * 0 == 0 && b * 0 == 0 && a * 0 == 0 && c * 0 == 0);
    lemma_sub_mod_noop(d * first, b * second, p);
    lemma_sub_mod_noop(a * second, c * first, p);
    lemma_small_mod(0, p as nat);
    lemma_unit_annihilates(det, x, p);
    lemma_unit_annihilates(det, y, p);
}

/// A residue whose product with a unit is zero is zero.
pub proof fn lemma_unit_annihilates(d: int, x: int, p: int)
    requires
        p > 1,
        is_unit(d % p, p),
        0 <= x < p,
        (d * x) % p == 0,
    ensures
        x == 0,
{
    let r = d % p;
    let w = choose|w: int| is_inverse(r, w, p);
    // x == (w * d) * x == w * (d * x) == 0
    lemma_mul_mod_noop_left(d, w, p);
    lemma_mul_mod_noop_left(d * w, x, p);
    lemma_mul_mod_noop_right(w, d * x, p);
    assert((d * w) * x == w * (d * x)) by (nonlinear_arith);
    assert(1 * x == x);
    assert(w * 0 == 0);
    lemma_small_mod(x as nat, p as nat);
    lemma_small_mod(0, p as nat);
}

/// The product of two elements given by their coefficients.
pub proof fn lemma_product_of(
    a0: int,
    a1: int,
    a2: int,
    b0: int,
    b1: int,
    b2: int,
    u: int,
    v: int,
    p: int,
    r0: int,
    r1: int,
    r2: int,
)
    requires
        (a0 * b0 + v * (a1 * b2 + a2 * b1)) % p == r0,
        (a0 * b1 + a1 * b0 + u * (a1 * b2 + a2 * b1) + v * (a2 * b2)) % p == r1,
        (a0 * b2 + a1 * b1 + a2 * b0 + u * (a2 * b2)) % p == r2,
    ensures
        cubic_mul(seq![a0, a1, a2], seq![b0, b1, b2], u, v, p) == seq![r0, r1, r2],
{
    assert(cubic_mul(seq![a0, a1, a2], seq![b0, b1, b2], u, v, p) =~= seq![r0, r1, r2]);
}

/// The Frobenius image of an element given by its coefficients.
pub proof fn lemma_image_of(
    a0: int,
    a1: int,
    a2: int,
    f1: Seq<int>,
    f2: Seq<int>,
    p: int,
    r0: int,
    r1: int,
    r2: int,
)
    requires
        f1.len() == 3,
        f2.len() == 3,
        (a0 + f1[0] * a1 + f2[0] * a2) % p == r0,
        (f1[1] * a1 + f2[1] * a2) % p == r1,
        (f1[2] * a1 + f2[2] * a2) % p == r2,
    ensures
        cubic_frobenius(seq![a0, a1, a2], f1, f2, p) == seq![r0, r1, r2],
{
    assert(cubic_frobenius(seq![a0, a1, a2], f1, f2, p) =~= seq![r0, r1, r2]);
}

/// The coefficients of the powers of the root.
pub proof fn lemma_powers_of_root()
    ensures
        power_of_root(0) == seq![1int, 0int, 0int],
        power_of_root(1) == seq![0int, 1int, 0int],
        power_of_root(2) == seq![0int, 0int, 1int],
{
    assert(power_of_root(0) =~= seq![1int, 0int, 0int]);
    assert(power_of_root(1) =~= seq![0int, 1int, 0int]);
    assert(power_of_root(2) =~= seq![0int, 0int, 1int]);
}

} // verus!

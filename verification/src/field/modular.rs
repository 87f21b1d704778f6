//! Arithmetic modulo `p` over mathematical integers, and the facts about it that
//! the field implementations are proved against.

use vstd::prelude::*;
use vstd::arithmetic::div_mod::*;
use vstd::arithmetic::mul::*;
use vstd::arithmetic::power::*;
use vstd::arithmetic::power2::{pow2, lemma_pow2_unfold};

verus! {

/// Sum of two residues modulo `p`.
pub open spec fn fadd(a: int, b: int, p: int) -> int {
    (a + b) % p
}

/// Difference of two residues modulo `p`.
pub open spec fn fsub(a: int, b: int, p: int) -> int {
    (a - b) % p
}

/// Product of two residues modulo `p`.
pub open spec fn fmul(a: int, b: int, p: int) -> int {
    (a * b) % p
}

/// Additive inverse of a residue modulo `p`.
pub open spec fn fneg(a: int, p: int) -> int {
    (-a) % p
}

/// The `k`-fold product of `a` with itself, reduced modulo `p`.
pub open spec fn fpow(a: int, k: nat, p: int) -> int {
    pow(a, k) % p
}

/// `b` is the canonical multiplicative inverse of `a` modulo `p`.
pub open spec fn is_inverse(a: int, b: int, p: int) -> bool {
    0 <= b < p && (a * b) % p == 1
}

/// `a` has a multiplicative inverse modulo `p`.
pub open spec fn is_unit(a: int, p: int) -> bool {
    exists|b: int| is_inverse(a, b, p)
}

/// The multiplicative inverse of `a` modulo `p` where there is one, and zero
/// otherwise (in particular for `a == 0`).
pub open spec fn finv(a: int, p: int) -> int {
    if is_unit(a, p) {
        choose|b: int| is_inverse(a, b, p)
    } else {
        0
    }
}

/// A residue has at most one canonical inverse.
pub proof fn lemma_inverse_unique(a: int, b: int, c: int, p: int)
    requires
        p > 1,
        is_inverse(a, b, p),
        is_inverse(a, c, p),
    ensures
        b == c,
{
    // b = b * (a * c) = (b * a) * c = c  (mod p)
    lemma_mul_mod_noop_right(b, a * c, p);
    lemma_mul_mod_noop_right(c, a * b, p);
    assert(b * (a * c) == c * (a * b)) by (nonlinear_arith);
    assert((b * 1) % p == (c * 1) % p);
    lemma_small_mod(b as nat, p as nat);
    lemma_small_mod(c as nat, p as nat);
}

/// Whenever `a` has the inverse `b`, `finv` is that inverse.
pub proof fn lemma_finv_is(a: int, b: int, p: int)
    requires
        p > 1,
        is_inverse(a, b, p),
    ensures
        is_unit(a, p),
        finv(a, p) == b,
{
    let c = choose|c: int| is_inverse(a, c, p);
    lemma_inverse_unique(a, b, c, p);
}

/// The inverse of a unit multiplies with it to one.
pub proof fn lemma_finv_unit(a: int, p: int)
    requires
        p > 1,
        is_unit(a, p),
    ensures
        fmul(a, finv(a, p), p) == 1,
        0 <= finv(a, p) < p,
{
}

/// Zero, and any multiple of `p`, is no unit.
pub proof fn lemma_zero_not_unit(a: int, p: int)
    requires
        p > 1,
        a % p == 0,
    ensures
        !is_unit(a, p),
        finv(a, p) == 0,
{
    assert forall|b: int| !is_inverse(a, b, p) by {
        lemma_mul_mod_noop_left(a, b, p);
        assert((0 * b) % p == 0) by {
            lemma_small_mod(0, p as nat);
        }
    }
}

/// What `finv` returns multiplies with a residue that has an inverse to one, and
/// is zero for zero.
pub proof fn lemma_inverse_of(a: int, p: int)
    requires
        p > 1,
    ensures
        is_unit(a, p) ==> fmul(a, finv(a, p), p) == 1,
        a == 0 ==> finv(a, p) == 0,
        0 <= finv(a, p) < p,
{
    if a == 0 {
        lemma_small_mod(0, p as nat);
        lemma_zero_not_unit(0, p);
    }
}

/// Invertibility depends on the residue class only.
pub proof fn lemma_unit_mod(a: int, p: int)
    requires
        p > 1,
    ensures
        is_unit(a % p, p) == is_unit(a, p),
        finv(a % p, p) == finv(a, p),
{
    let r = a % p;
    assert forall|b: int| is_inverse(r, b, p) == is_inverse(a, b, p) by {
        lemma_mul_mod_noop_left(a, b, p);
    }
    if is_unit(a, p) {
        let b = choose|b: int| is_inverse(a, b, p);
        assert(is_inverse(r, b, p));
        lemma_finv_is(r, b, p);
    } else {
        if is_unit(r, p) {
            let b = choose|b: int| is_inverse(r, b, p);
            assert(is_inverse(a, b, p));
        }
    }
}

/// The product of two units is a unit, and its inverse is the product of theirs.
pub proof fn lemma_unit_product(a: int, b: int, p: int)
    requires
        p > 1,
        is_unit(a, p),
        is_unit(b, p),
    ensures
        is_unit(a * b, p),
        finv(a * b, p) == fmul(finv(a, p), finv(b, p), p),
{
    let x = finv(a, p);
    let y = finv(b, p);
    let z = (x * y) % p;
    assert(((a * b) * z) % p == 1) by {
        lemma_mul_mod_noop_right(a * b, x * y, p);
        assert((a * b) * (x * y) == (a * x) * (b * y)) by (nonlinear_arith);
        lemma_mul_mod_noop(a * x, b * y, p);
        lemma_small_mod(1, p as nat);
    }
    lemma_finv_is(a * b, z, p);
}

/// A factor of a unit is a unit.
pub proof fn lemma_unit_factor(a: int, b: int, p: int)
    requires
        p > 1,
        is_unit(a * b, p),
    ensures
        is_unit(a, p),
        finv(a, p) == fmul(b, finv(a * b, p), p),
{
    let w = finv(a * b, p);
    let z = (b * w) % p;
    assert((a * z) % p == 1) by {
        lemma_mul_mod_noop_right(a, b * w, p);
        assert(a * (b * w) == (a * b) * w) by (nonlinear_arith);
    }
    lemma_finv_is(a, z, p);
}

/// A residue that shares a factor above one with the modulus is no unit.
pub proof fn lemma_common_factor_no_unit(x: int, p: int, g: int, a: int, c: int)
    requires
        p > 1,
        g > 1,
        p == a * g,
        x == c * g,
    ensures
        !is_unit(x, p),
        finv(x, p) == 0,
{
    if is_unit(x, p) {
        let y = choose|y: int| is_inverse(x, y, p);
        let k = (x * y) / p;
        lemma_fundamental_div_mod(x * y, p);
        assert(x * y == p * k + 1);
        let t = c * y - a * k;
        assert(g * t == 1) by (nonlinear_arith)
            requires
                x * y == p * k + 1,
                p == a * g,
                x == c * g,
                t == c * y - a * k,
        ;
        assert(false) by (nonlinear_arith)
            requires
                g > 1,
                g * t == 1,
        ;
    }
}

/// One step of Euclid's algorithm keeps the residue of a remainder tied to its
/// cofactor: with `r0 = k0 * x` and `r1 = k1 * x` modulo `p`, the next remainder
/// `r0 - q * r1` is `(k0 - q * k1) * x`.
pub proof fn lemma_euclid_step(x: int, p: int, r0: int, r1: int, k0: int, k1: int, q: int, qs: int)
    requires
        p > 1,
        (k0 * x) % p == r0 % p,
        (k1 * x) % p == r1 % p,
        qs == (q * k1) % p,
    ensures
        (((k0 - qs) % p) * x) % p == (r0 - q * r1) % p,
{
    // ((k0 - qs) % p) * x = (k0 - q * k1) * x = k0 * x - q * (k1 * x)  (mod p)
    lemma_mul_mod_noop_left(k0 - qs, x, p);
    lemma_sub_mod_noop_right(k0, q * k1, p);
    lemma_mul_mod_noop_left(k0 - q * k1, x, p);
    assert(((k0 - qs) % p) == ((k0 - q * k1) % p));
    assert((k0 - q * k1) * x == k0 * x - q * (k1 * x)) by (nonlinear_arith);
    lemma_sub_mod_noop(k0 * x, q * (k1 * x), p);
    lemma_mul_mod_noop_right(q, k1 * x, p);
    lemma_mul_mod_noop_right(q, r1, p);
    lemma_sub_mod_noop(r0, q * r1, p);
}

/// Product of two 64-bit integers modulo `p`.
pub fn mul_mod(a: u64, b: u64, p: u64) -> (r: u64)
    requires
        p > 0,
    ensures
        r == fmul(a as int, b as int, p as int),
        r < p,
{
    assert(a * b <= 0xFFFF_FFFF_FFFF_FFFF * 0xFFFF_FFFF_FFFF_FFFF) by (nonlinear_arith)
        requires
            a <= 0xFFFF_FFFF_FFFF_FFFF,
            b <= 0xFFFF_FFFF_FFFF_FFFF,
    ;
    let wide: u128 = a as u128 * b as u128;
    (wide % (p as u128)) as u64
}

/// Multiplicative inverse of `x` modulo `p` by the extended Euclidean algorithm;
/// zero where `x` shares a factor with `p` (zero itself included).
pub fn inv_mod(x: u64, p: u64) -> (r: u64)
    requires
        p > 1,
        x < p,
    ensures
        r == finv(x as int, p as int),
        r < p,
{
    if x == 0 {
        proof {
            lemma_small_mod(0, p as nat);
            lemma_zero_not_unit(0, p as int);
        }
        return 0;
    }
    let mut r0: u64 = p;
    let mut r1: u64 = x;
    let mut k0: u64 = 0;
    let mut k1: u64 = 1;
    let ghost mut a: int = 1;
    let ghost mut b: int = 0;
    let ghost mut c: int = 0;
    let ghost mut d: int = 1;
    proof {
        lemma_mod_self_0(p as int);
        lemma_small_mod(0, p as nat);
        lemma_small_mod(x as nat, p as nat);
        assert(0 * (x as int) == 0);
        assert(1 * (x as int) == x);
    }
    while r1 != 0
        invariant
            p > 1,
            x < p,
            0 < r0 <= p,
            r1 < p,
            k0 < p,
            k1 < p,
            (k0 * x) % (p as int) == (r0 as int) % (p as int),
            (k1 * x) % (p as int) == (r1 as int) % (p as int),
            p == a * r0 + b * r1,
            x == c * r0 + d * r1,
        decreases r1,
    {
        let q: u64 = r0 / r1;
        let r2: u64 = r0 % r1;
        let qs: u64 = mul_mod(q % p, k1, p);
        let k2: u64 = if k0 >= qs {
            k0 - qs
        } else {
            p - qs + k0
        };
        proof {
            let pi = p as int;
            lemma_fundamental_div_mod(r0 as int, r1 as int);
            assert(r2 == r0 - q * r1) by (nonlinear_arith)
                requires
                    r0 == r1 * q + r2,
            ;
            lemma_mul_mod_noop_left(q as int, k1 as int, pi);
            lemma_euclid_step(x as int, pi, r0 as int, r1 as int, k0 as int, k1 as int, q as int, qs as int);
            if k0 >= qs {
                lemma_small_mod((k0 - qs) as nat, p as nat);
            } else {
                lemma_mod_add_multiples_vanish(k0 - qs, pi);
                lemma_small_mod((p - qs + k0) as nat, p as nat);
            }
            assert(k2 == (k0 - qs) % pi);
            assert(p == (a * q + b) * r1 + a * r2) by (nonlinear_arith)
                requires
                    p == a * r0 + b * r1,
                    r0 == r1 * q + r2,
            ;
            assert(x == (c * q + d) * r1 + c * r2) by (nonlinear_arith)
                requires
                    x == c * r0 + d * r1,
                    r0 == r1 * q + r2,
            ;
            let a1 = a * q + b;
            let c1 = c * q + d;
            b = a;
            d = c;
            a = a1;
            c = c1;
        }
        r0 = r1;
        r1 = r2;
        k0 = k1;
        k1 = k2;
    }
    proof {
        assert(p == a * r0) by (nonlinear_arith)
            requires
                p == a * r0 + b * r1,
                r1 == 0,
        ;
        assert(x == c * r0) by (nonlinear_arith)
            requires
                x == c * r0 + d * r1,
                r1 == 0,
        ;
    }
    if r0 == 1 {
        proof {
            lemma_small_mod(1, p as nat);
            assert((x * k0) == (k0 * x)) by (nonlinear_arith);
            lemma_finv_is(x as int, k0 as int, p as int);
        }
        k0
    } else {
        proof {
            lemma_common_factor_no_unit(x as int, p as int, r0 as int, a, c);
        }
        0
    }
}

/// The step of square-and-multiply: with the exponent `e` halved and the base
/// squared, an odd `e` moves one factor of the base into the accumulator.
pub proof fn lemma_exp_step(acc: int, b: int, e: nat, p: int)
    requires
        p > 1,
        e > 0,
    ensures
        e % 2 == 1 ==> (acc * pow(b, e)) % p == (((acc * b) % p) * pow((b * b) % p, e / 2)) % p,
        e % 2 == 0 ==> (acc * pow(b, e)) % p == (acc * pow((b * b) % p, e / 2)) % p,
{
    let k = e / 2;
    let sq = b * b;
    assert(pow(b, 2 * k) == pow(sq, k)) by {
        lemma_pow_multiplies(b, 2, k);
        lemma_square_is_pow2(b);
    }
    // pow(sq % p, k) and pow(sq, k) agree modulo p
    lemma_pow_mod_noop(sq, k, p);
    lemma_mul_mod_noop_right(acc, pow(sq, k), p);
    lemma_mul_mod_noop_right(acc, pow(sq % p, k), p);
    if e % 2 == 1 {
        assert(e == 2 * k + 1);
        assert(pow(b, e) == b * pow(sq, k)) by {
            reveal(pow);
        }
        assert(acc * (b * pow(sq, k)) == (acc * b) * pow(sq, k)) by (nonlinear_arith);
        lemma_mul_mod_noop_left(acc * b, pow(sq, k), p);
        lemma_mul_mod_noop_right((acc * b) % p, pow(sq, k), p);
        lemma_mul_mod_noop_right((acc * b) % p, pow(sq % p, k), p);
    } else {
        assert(e == 2 * k);
    }
}

/// Before the first step of square-and-multiply the accumulator is one.
pub proof fn lemma_exp_start(b: int, e: nat, p: int)
    requires
        p > 1,
    ensures
        (1 * pow(b, e)) % p == fpow(b, e, p),
        (1 * pow(b % p, e)) % p == fpow(b, e, p),
{
    lemma_pow_mod_noop(b, e, p);
    assert(1 * pow(b, e) == pow(b, e));
    assert(1 * pow(b % p, e) == pow(b % p, e));
}

/// After the last step the accumulator holds the power.
pub proof fn lemma_exp_end(acc: int, b: int, p: int)
    requires
        p > 1,
        0 <= acc < p,
    ensures
        (acc * pow(b, 0)) % p == acc,
{
    lemma_pow0(b);
    assert(acc * 1 == acc);
    lemma_small_mod(acc as nat, p as nat);
}

/// Squaring the residue of `g^(2^i)` gives the residue of `g^(2^(i+1))`.
pub proof fn lemma_square_root_step(g: int, i: nat, p: int)
    requires
        p > 1,
    ensures
        fmul(fpow(g, pow2(i), p), fpow(g, pow2(i), p), p) == fpow(g, pow2(i + 1), p),
{
    let e = pow2(i);
    lemma_pow2_unfold(i + 1);
    lemma_pow_adds(g, e, e);
    lemma_mul_mod_noop(pow(g, e), pow(g, e), p);
}

/// A product of three factors, whichever two are multiplied first.
pub open spec fn mul3(x: int, y: int, z: int) -> int {
    x * (y * z)
}

/// Multiplying the sum of two products by a third factor.
pub proof fn lemma_expand2(x0: int, y0: int, x1: int, y1: int, z: int)
    ensures
        (x0 * y0 + x1 * y1) * z == mul3(x0, y0, z) + mul3(x1, y1, z),
        z * (x0 * y0 + x1 * y1) == mul3(z, x0, y0) + mul3(z, x1, y1),
{
    assert((x0 * y0 + x1 * y1) * z == x0 * (y0 * z) + x1 * (y1 * z)) by (nonlinear_arith);
    assert(z * (x0 * y0 + x1 * y1) == z * (x0 * y0) + z * (x1 * y1)) by (nonlinear_arith);
}

/// Multiplying the sum of three products by a fourth factor.
pub proof fn lemma_expand3(x0: int, y0: int, x1: int, y1: int, x2: int, y2: int, z: int)
    ensures
        (x0 * y0 + x1 * y1 + x2 * y2) * z == mul3(x0, y0, z) + mul3(x1, y1, z) + mul3(x2, y2, z),
        z * (x0 * y0 + x1 * y1 + x2 * y2) == mul3(z, x0, y0) + mul3(z, x1, y1) + mul3(z, x2, y2),
{
    assert((x0 * y0 + x1 * y1 + x2 * y2) * z == x0 * (y0 * z) + x1 * (y1 * z) + x2 * (y2 * z))
        by (nonlinear_arith);
    assert(z * (x0 * y0 + x1 * y1 + x2 * y2) == z * (x0 * y0) + z * (x1 * y1) + z * (x2 * y2))
        by (nonlinear_arith);
}

} // verus!

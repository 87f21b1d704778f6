//! Divisibility, primes, and the order of a residue: what it takes to show that
//! every nonzero residue modulo a prime has an inverse.

use vstd::prelude::*;
use vstd::arithmetic::div_mod::*;
use vstd::arithmetic::power::*;
use vstd::set_lib::{set_int_range, lemma_int_range, lemma_subset_equality, lemma_map_size};
use vstd::relations::injective_on;
use crate::field::modular::{fmul, fpow, is_inverse, is_unit};

verus! {

/// Whether the positive integer `d` divides `n`.
pub open spec fn divides(d: int, n: int) -> bool {
    d > 0 && n % d == 0
}

/// Whether `n` is a prime: at least two, with no divisor between one and itself.
pub open spec fn is_prime(n: int) -> bool {
    n >= 2 && forall|d: int| 2 <= d < n ==> !#[trigger] divides(d, n)
}

/// A divisor of a divisor is a divisor.
pub proof fn lemma_divides_transitive(a: int, b: int, c: int)
    requires
        divides(a, b),
        divides(b, c),
    ensures
        divides(a, c),
{
    let k = b / a;
    let q = c / b;
    lemma_fundamental_div_mod(b, a);
    lemma_fundamental_div_mod(c, b);
    assert(c == (k * q) * a) by (nonlinear_arith)
        requires
            b == a * k,
            c == b * q,
    ;
    lemma_mod_multiples_basic(k * q, a);
}

/// A divisor of two integers divides every combination of them.
pub proof fn lemma_divides_combination(d: int, a: int, x: int, b: int, y: int)
    requires
        divides(d, a),
        divides(d, b),
    ensures
        divides(d, a * x + b * y),
{
    let k = a / d;
    let q = b / d;
    lemma_fundamental_div_mod(a, d);
    lemma_fundamental_div_mod(b, d);
    assert(a * x + b * y == (k * x + q * y) * d) by (nonlinear_arith)
        requires
            a == d * k,
            b == d * q,
    ;
    lemma_mod_multiples_basic(k * x + q * y, d);
}

/// A divisor of a positive integer is no larger than it.
pub proof fn lemma_divisor_bound(d: int, n: int)
    requires
        divides(d, n),
        n > 0,
    ensures
        d <= n,
{
    if d > n {
        lemma_small_mod(n as nat, d as nat);
    }
}

/// The product of a divisor with its cofactor.
pub proof fn lemma_divides_cofactor(d: int, n: int)
    requires
        divides(d, n),
    ensures
        n == d * (n / d),
        n == (n / d) * d,
        n > 0 ==> n / d > 0,
        n > 0 ==> divides(n / d, n),
{
    lemma_fundamental_div_mod(n, d);
    assert(d * (n / d) == (n / d) * d) by (nonlinear_arith);
    if n > 0 {
        assert(n / d > 0) by (nonlinear_arith)
            requires
                n == d * (n / d),
                d > 0,
                n > 0,
        ;
        lemma_mod_multiples_basic(d, n / d);
    }
}

/// Every integer from two on has a prime divisor.
pub proof fn lemma_prime_divisor(m: int) -> (s: int)
    requires
        m >= 2,
    ensures
        is_prime(s),
        divides(s, m),
    decreases m,
{
    if is_prime(m) {
        lemma_mod_self_0(m);
        m
    } else {
        let d = choose|d: int| 2 <= d < m && #[trigger] divides(d, m);
        let s = lemma_prime_divisor(d);
        lemma_divides_transitive(s, d, m);
        s
    }
}

/// The greatest common divisor of two natural numbers by Euclid's algorithm,
/// with the coefficients of one combination that gives it: `(g, x, y)` with
/// `a * x + b * y == g`.
pub open spec fn bezout(a: int, b: int) -> (int, int, int)
    decreases b,
{
    if b <= 0 {
        (a, 1, 0)
    } else {
        let (g, x, y) = bezout(b, a % b);
        (g, y, x - (a / b) * y)
    }
}

/// What [`bezout`] returns is a common divisor and the combination it names.
pub proof fn lemma_bezout(a: int, b: int)
    requires
        a > 0,
        b >= 0,
    ensures
        divides(bezout(a, b).0, a),
        b > 0 ==> divides(bezout(a, b).0, b),
        a * bezout(a, b).1 + b * bezout(a, b).2 == bezout(a, b).0,
    decreases b,
{
    if b <= 0 {
        lemma_mod_self_0(a);
    } else {
        let r = a % b;
        let q = a / b;
        let (g, x, y) = bezout(b, r);
        lemma_bezout(b, r);
        lemma_fundamental_div_mod(a, b);
        assert(a * y + b * (x - q * y) == b * x + r * y) by (nonlinear_arith)
            requires
                a == b * q + r,
        ;
        if r > 0 {
            lemma_divides_combination(g, b, q, r, 1);
            assert(b * q + r * 1 == a);
        } else {
            lemma_divides_combination(g, b, q, b, 0);
            assert(b * q + b * 0 == a);
        }
    }
}

/// A prime that divides a product divides one of the factors.
pub proof fn lemma_euclid(s: int, a: int, b: int)
    requires
        is_prime(s),
        a > 0,
        b > 0,
        divides(s, a * b),
    ensures
        divides(s, a) || divides(s, b),
{
    if !divides(s, a) {
        let (g, x, y) = bezout(s, a);
        lemma_bezout(s, a);
        lemma_divisor_bound(g, s);
        // a common divisor of the prime and `a` is the prime itself or one
        assert(g == 1) by {
            if g != 1 {
                assert(!(2 <= g < s && divides(g, s)));
            }
        }
        // b == (s * x + a * y) * b == s * (x * b) + (a * b) * y
        lemma_mod_self_0(s);
        lemma_divides_combination(s, s, x * b, a * b, y);
        assert(s * (x * b) + (a * b) * y == b) by (nonlinear_arith)
            requires
                s * x + a * y == 1,
        ;
    }
}

/// A prime that divides a prime is that prime.
pub proof fn lemma_prime_divides_prime(s: int, q: int)
    requires
        is_prime(s),
        is_prime(q),
        divides(s, q),
    ensures
        s == q,
{
    lemma_divisor_bound(s, q);
    if s < q {
        assert(!(2 <= s < q && divides(s, q)));
    }
}

/// Two is a prime.
pub proof fn lemma_two_is_prime()
    ensures
        is_prime(2),
{
}

/// A prime that divides a power of two is two.
pub proof fn lemma_prime_divides_power_of_two(s: int, e: nat)
    requires
        is_prime(s),
        divides(s, pow(2, e)),
    ensures
        s == 2,
    decreases e,
{
    if e == 0 {
        lemma_pow0(2);
        lemma_divisor_bound(s, 1);
    } else {
        assert(pow(2, e) == 2 * pow(2, (e - 1) as nat)) by {
            reveal(pow);
        }
        lemma_pow_positive(2, (e - 1) as nat);
        lemma_euclid(s, 2, pow(2, (e - 1) as nat));
        if divides(s, 2) {
            lemma_two_is_prime();
            lemma_prime_divides_prime(s, 2);
        } else {
            lemma_prime_divides_power_of_two(s, (e - 1) as nat);
        }
    }
}

/// A power with a sum as exponent is the product of the powers, modulo `p`.
pub proof fn lemma_fpow_add(g: int, a: nat, b: nat, p: int)
    requires
        p > 1,
    ensures
        fpow(g, a + b, p) == fmul(fpow(g, a, p), fpow(g, b, p), p),
{
    lemma_pow_adds(g, a, b);
    lemma_mul_mod_noop(pow(g, a), pow(g, b), p);
}

/// A power of a power: the exponents multiply, modulo `p`.
pub proof fn lemma_fpow_mul(g: int, a: nat, b: nat, p: int)
    requires
        p > 1,
    ensures
        fpow(fpow(g, a, p), b, p) == fpow(g, a * b, p),
{
    lemma_pow_mod_noop(pow(g, a), b, p);
    lemma_pow_multiplies(g, a, b);
}

/// Every power of one is one.
pub proof fn lemma_fpow_of_one(k: nat, p: int)
    requires
        p > 1,
    ensures
        fpow(1, k, p) == 1,
{
    lemma1_pow(k);
    lemma_small_mod(1, p as nat);
}

/// Whether `d` is the order of `g` modulo `p`: the least positive exponent with
/// which `g` is raised to one.
pub open spec fn is_order(g: int, d: nat, p: int) -> bool {
    &&& d > 0
    &&& fpow(g, d, p) == 1
    &&& forall|j: nat| 0 < j < d ==> #[trigger] fpow(g, j, p) != 1
}

/// A residue that some positive power takes to one has an order, which is at
/// most that power's exponent.
pub proof fn lemma_order_exists(g: int, k: nat, p: int) -> (d: nat)
    requires
        p > 1,
        k > 0,
        fpow(g, k, p) == 1,
    ensures
        is_order(g, d, p),
        d <= k,
    decreases k,
{
    if exists|j: nat| 0 < j < k && #[trigger] fpow(g, j, p) == 1 {
        let j = choose|j: nat| 0 < j < k && #[trigger] fpow(g, j, p) == 1;
        lemma_order_exists(g, j, p)
    } else {
        k
    }
}

/// The order of a residue divides every exponent that takes it to one.
pub proof fn lemma_order_divides(g: int, d: nat, n: nat, p: int)
    requires
        p > 1,
        is_order(g, d, p),
        fpow(g, n, p) == 1,
    ensures
        n % d == 0,
{
    let t = n / d;
    let r = n % d;
    lemma_fundamental_div_mod(n as int, d as int);
    // g^n == (g^d)^t * g^r == g^r
    lemma_fpow_add(g, d * t, r, p);
    lemma_fpow_mul(g, d, t, p);
    lemma_fpow_of_one(t, p);
    assert(fpow(g, r, p) == 1) by {
        assert(fpow(g, r, p) == pow(g, r) % p);
        lemma_mod_bound(pow(g, r), p);
        assert(1 * fpow(g, r, p) == fpow(g, r, p));
        lemma_small_mod(fpow(g, r, p) as nat, p as nat);
    }
}

/// A residue that the exponent `n` takes to one, but none of the exponents `n / s`
/// for the primes `s` that divide `n`, has the order `n`.
pub proof fn lemma_full_order(g: int, n: nat, p: int)
    requires
        p > 1,
        n > 0,
        fpow(g, n, p) == 1,
        forall|s: int|
            is_prime(s) && #[trigger] divides(s, n as int) ==> fpow(g, (n as int / s) as nat, p)
                != 1,
    ensures
        is_order(g, n, p),
{
    let d = lemma_order_exists(g, n, p);
    lemma_order_divides(g, d, n, p);
    if d < n {
        let m = n as int / d as int;
        lemma_divides_cofactor(d as int, n as int);
        assert(m >= 2) by (nonlinear_arith)
            requires
                n == d * m,
                d < n,
                d > 0,
        ;
        let s = lemma_prime_divisor(m);
        lemma_divides_transitive(s, m, n as int);
        // n / s == d * (m / s), and so g^(n / s) == (g^d)^(m / s) == 1
        lemma_divides_cofactor(s, m);
        let c = m / s;
        assert(n == s * (d * c) + 0) by (nonlinear_arith)
            requires
                n == d * m,
                m == s * c,
        ;
        lemma_fundamental_div_mod_converse(n as int, s, d * c, 0);
        assert(c > 0);
        lemma_fpow_mul(g, d, c as nat, p);
        lemma_fpow_of_one(c as nat, p);
        assert(false);
    }
}

/// Where a residue `g` has the order `p - 1` modulo `p`, every residue from one
/// to `p - 1` is a power of `g`.
pub proof fn lemma_generated(g: int, p: int, x: int) -> (i: nat)
    requires
        p > 2,
        is_order(g, (p - 1) as nat, p),
        0 < x < p,
    ensures
        i < p - 1,
        fpow(g, i, p) == x,
{
    let n = (p - 1) as nat;
    let f = |i: int| fpow(g, i as nat, p);
    let exponents = set_int_range(0, n as int);
    let residues = set_int_range(1, p);
    let powers = exponents.map(f);
    lemma_int_range(0, n as int);
    lemma_int_range(1, p);
    // no power is zero: the power with the exponent i has the inverse with the
    // exponent n - i
    assert forall|i: int| 0 <= i < n implies 0 < #[trigger] f(i) < p by {
        lemma_fpow_add(g, i as nat, (n - i) as nat, p);
        lemma_mod_bound(pow(g, i as nat), p);
        if f(i) == 0 {
            assert(0 * fpow(g, (n - i) as nat, p) == 0);
            lemma_small_mod(0, p as nat);
        }
    }
    assert(injective_on(f, exponents)) by {
        assert forall|a: int, b: int|
            exponents.contains(a) && exponents.contains(b) && #[trigger] f(a) == #[trigger] f(
                b,
            ) implies a == b by {
            if a < b {
                lemma_powers_differ(g, a as nat, b as nat, p);
            }
            if b < a {
                lemma_powers_differ(g, b as nat, a as nat, p);
            }
        }
    }
    // as many powers as residues, and each power a residue
    lemma_map_size(exponents, powers, f);
    assert(powers.subset_of(residues)) by {
        assert forall|x: int| powers.contains(x) implies residues.contains(x) by {
            let i = choose|i: int| exponents.contains(i) && f(i) == x;
            assert(0 < f(i) < p);
        }
    }
    lemma_subset_equality(powers, residues);
    assert(residues.contains(x));
    assert(powers.contains(x));
    let i = choose|i: int| exponents.contains(i) && f(i) == x;
    i as nat
}

/// Where a residue `g` has the order `p - 1` modulo `p`, every residue from one
/// to `p - 1` has an inverse, and is taken to one by the exponent `p - 1`.
pub proof fn lemma_all_units(g: int, p: int, x: int)
    requires
        p > 2,
        is_order(g, (p - 1) as nat, p),
        0 < x < p,
    ensures
        is_unit(x, p),
        fpow(x, (p - 1) as nat, p) == 1,
{
    let n = (p - 1) as nat;
    let i = lemma_generated(g, p, x);
    let y = fpow(g, (n - i) as nat, p);
    lemma_fpow_add(g, i, (n - i) as nat, p);
    lemma_mod_bound(pow(g, (n - i) as nat), p);
    assert(is_inverse(x, y, p));
    // x^n == (g^i)^n == (g^n)^i == 1
    lemma_fpow_mul(g, i, n, p);
    lemma_fpow_mul(g, n, i, p);
    assert(i * n == n * i) by (nonlinear_arith);
    lemma_fpow_of_one(i, p);
}

/// Two powers of a residue with different exponents below its order differ.
pub proof fn lemma_powers_differ(g: int, a: nat, b: nat, p: int)
    requires
        p > 1,
        a < b,
        exists|n: nat| b < n && is_order(g, n, p),
    ensures
        fpow(g, a, p) != fpow(g, b, p),
{
    let n = choose|n: nat| b < n && is_order(g, n, p);
    if fpow(g, a, p) == fpow(g, b, p) {
        // g^(b - a) == g^(b - a) * g^a * g^(n - a) == g^b * g^(n - a) == g^a * g^(n - a) == 1
        let x = fpow(g, (b - a) as nat, p);
        let u = fpow(g, a, p);
        let w = fpow(g, (n - a) as nat, p);
        lemma_fpow_add(g, a, (n - a) as nat, p);
        lemma_fpow_add(g, (b - a) as nat, a, p);
        assert(fmul(u, w, p) == 1);
        assert(fmul(x, u, p) == u);
        lemma_mul_mod_noop_left(x * u, w, p);
        lemma_mul_mod_noop_right(x, u * w, p);
        assert((x * u) * w == x * (u * w)) by (nonlinear_arith);
        lemma_mod_bound(pow(g, (b - a) as nat), p);
        assert(x * 1 == x);
        lemma_small_mod(x as nat, p as nat);
        assert(x == 1);
        assert(0 < b - a < n);
    }
}

/// A number above one whose nonzero residues all have inverses is a prime.
pub proof fn lemma_units_make_prime(p: int)
    requires
        p >= 2,
        forall|x: int| 0 < x < p ==> #[trigger] is_unit(x, p),
    ensures
        is_prime(p),
{
    assert forall|d: int| 2 <= d < p implies !#[trigger] divides(d, p) by {
        if divides(d, p) {
            // d * (p / d) == 0 modulo p, for all that d has an inverse
            let c = p / d;
            lemma_divides_cofactor(d, p);
            assert(is_unit(d, p));
            let y = choose|y: int| is_inverse(d, y, p);
            lemma_mul_mod_noop_left(d * y, c, p);
            assert((d * y) * c == y * (d * c)) by (nonlinear_arith);
            lemma_mod_multiples_basic(y, p);
            assert(1 * c == c);
            assert(c < p) by (nonlinear_arith)
                requires
                    p == d * c,
                    d >= 2,
                    c > 0,
            ;
            lemma_small_mod(c as nat, p as nat);
        }
    }
}

/// A number from two on is a prime if no number from two up to a bound above
/// its square root divides it.
pub proof fn lemma_prime_by_trial(n: int, bound: int)
    requires
        n >= 2,
        bound >= 2,
        bound * bound > n,
        forall|c: int| 2 <= c < bound ==> !#[trigger] divides(c, n),
    ensures
        is_prime(n),
{
    assert forall|d: int| 2 <= d < n implies !#[trigger] divides(d, n) by {
        if divides(d, n) {
            let c = n / d;
            lemma_divides_cofactor(d, n);
            assert(c >= 2) by (nonlinear_arith)
                requires
                    n == d * c,
                    d < n,
                    d >= 2,
                    c > 0,
            ;
            if d >= bound && c >= bound {
                assert(d * c >= bound * bound) by (nonlinear_arith)
                    requires
                        d >= bound,
                        c >= bound,
                        bound >= 2,
                ;
            }
            if d < bound {
                assert(!divides(d, n));
            } else {
                assert(!divides(c, n));
            }
        }
    }
}

/// The first power of a canonical residue is the residue.
pub proof fn lemma_power_first(g: int, p: int)
    requires
        0 <= g < p,
    ensures
        fpow(g, 1, p) == g,
{
    lemma_pow1(g);
    lemma_small_mod(g as nat, p as nat);
}

/// From the power with the exponent `e` to the power with the exponent `2 * e`:
/// its square.
pub proof fn lemma_power_square(g: int, p: int, e: nat, v: int, w: int)
    requires
        p > 1,
        fpow(g, e, p) == v,
        fmul(v, v, p) == w,
    ensures
        fpow(g, 2 * e, p) == w,
{
    lemma_fpow_add(g, e, e, p);
}

/// From the power with the exponent `e` to the power with the exponent
/// `2 * e + 1`: its square times the residue.
pub proof fn lemma_power_square_times(g: int, p: int, e: nat, v: int, u: int, w: int)
    requires
        p > 1,
        0 <= g < p,
        fpow(g, e, p) == v,
        fmul(v, v, p) == u,
        fmul(u, g, p) == w,
    ensures
        fpow(g, 2 * e + 1, p) == w,
{
    lemma_fpow_add(g, e, e, p);
    lemma_fpow_add(g, 2 * e, 1, p);
    lemma_power_first(g, p);
}

} // verus!

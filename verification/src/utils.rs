//! Helpers on integers and on vectors of field elements.

use vstd::prelude::*;
use vstd::arithmetic::power::{pow, lemma_pow_increases, lemma_pow_adds, lemma_pow1};
use vstd::arithmetic::power2::{is_pow2, is_pow2_equiv, pow2, lemma_pow2_unfold, lemma2_to64};
use vstd::arithmetic::div_mod::lemma_small_mod;
use crate::field::modular::{
    fmul, finv, is_unit, is_inverse, lemma_unit_factor, lemma_unit_product, lemma_zero_not_unit,
    lemma_unit_mod, lemma_inverse_of,
};
use crate::field::power::lemma_pow_closed;
use crate::field::traits::{
    FieldElement, StarkField, lift_coeffs, residues, valid_coeffs, zero_coeffs,
};

verus! {

/// `r` is the smallest power of two that is not below `n`.
pub open spec fn is_next_pow2(n: int, r: int) -> bool {
    is_pow2(r) && r >= n && (r == 1 || r / 2 < n)
}

/// The smallest power of two that is not below `n`.
pub open spec fn next_pow2(n: int) -> int {
    choose|r: int| is_next_pow2(n, r)
}

/// Of two distinct powers of two the larger is at least twice the smaller.
pub proof fn lemma_pow2_gap(a: int, b: int)
    requires
        is_pow2(a),
        is_pow2(b),
        a < b,
    ensures
        2 * a <= b,
        b % a == 0,
{
    is_pow2_equiv(a);
    is_pow2_equiv(b);
    let i = choose|i: nat| pow(2, i) == a;
    let j = choose|j: nat| pow(2, j) == b;
    if j <= i {
        lemma_pow_increases(2, j, i);
    }
    lemma_pow_increases(2, i + 1, j);
    lemma_pow_adds(2, i, 1);
    lemma_pow1(2);
    lemma_pow_adds(2, i, (j - i) as nat);
    let k = pow(2, (j - i) as nat);
    assert(b == a * k);
    assert(a > 0) by {
        reveal(is_pow2);
    }
    vstd::arithmetic::div_mod::lemma_mod_multiples_basic(k, a);
    assert((k * a) % a == 0);
    assert(k * a == a * k) by (nonlinear_arith);
}

/// A power of two that fits the machine word is at most half the word's range
/// plus one.
pub proof fn lemma_pow2_bound(n: int)
    requires
        is_pow2(n),
        n <= usize::MAX,
    ensures
        n <= usize::MAX / 2 + 1,
{
    let top = (usize::MAX / 2 + 1) as int;
    assert(is_pow2(top)) by {
        lemma_pow2_top();
    }
    if top < n {
        lemma_pow2_gap(top, n);
    }
}

/// Half the range of the machine word, plus one, is a power of two.
pub proof fn lemma_pow2_top()
    ensures
        is_pow2((usize::MAX / 2 + 1) as int),
{
    assert(is_pow2(0x8000_0000)) by {
        lemma_is_pow2_32();
    }
    assert(is_pow2(0x8000_0000_0000_0000)) by {
        lemma_is_pow2_64();
    }
    assert(usize::BITS == 32 || usize::BITS == 64);
}

proof fn lemma_is_pow2_32()
    ensures
        is_pow2(0x8000_0000),
{
    is_pow2_equiv(0x8000_0000);
    vstd::arithmetic::power2::lemma2_to64();
    vstd::arithmetic::power2::lemma_pow2(31);
    assert(pow(2, 31) == 0x8000_0000);
}

proof fn lemma_is_pow2_64()
    ensures
        is_pow2(0x8000_0000_0000_0000),
{
    is_pow2_equiv(0x8000_0000_0000_0000);
    vstd::arithmetic::power2::lemma2_to64();
    vstd::arithmetic::power2::lemma2_to64_rest();
    vstd::arithmetic::power2::lemma_pow2(63);
    assert(pow(2, 63) == 0x8000_0000_0000_0000);
}

/// There is exactly one smallest power of two not below `n`.
pub proof fn lemma_next_pow2_unique(n: int, a: int, b: int)
    requires
        is_next_pow2(n, a),
        is_next_pow2(n, b),
    ensures
        a == b,
        next_pow2(n) == a,
{
    if a < b {
        lemma_pow2_gap(a, b);
    }
    if b < a {
        lemma_pow2_gap(b, a);
    }
    let c = next_pow2(n);
    if a < c {
        lemma_pow2_gap(a, c);
    }
    if c < a {
        lemma_pow2_gap(c, a);
    }
}

/// Whether `n` is a power of two.
pub fn is_power_of_two(n: usize) -> (r: bool)
    ensures
        r == is_pow2(n as int),
{
    if n == 0 {
        proof {
            reveal(is_pow2);
        }
        return false;
    }
    let mut m: usize = n;
    while m % 2 == 0
        invariant
            m > 0,
            is_pow2(m as int) == is_pow2(n as int),
        decreases m,
    {
        proof {
            reveal(is_pow2);
        }
        m = m / 2;
    }
    proof {
        reveal(is_pow2);
    }
    m == 1
}

/// The smallest power of two that is not below `n`.
pub fn next_power_of_two(n: usize) -> (r: usize)
    requires
        n <= usize::MAX / 2 + 1,
    ensures
        r == next_pow2(n as int),
        is_next_pow2(n as int, r as int),
{
    let mut p: usize = 1;
    proof {
        reveal(is_pow2);
    }
    while p < n
        invariant
            n <= usize::MAX / 2 + 1,
            p >= 1,
            is_pow2(p as int),
            p == 1 || p / 2 < n,
        decreases usize::MAX - p,
    {
        proof {
            reveal(is_pow2);
            assert(is_pow2(2 * p));
        }
        p = 2 * p;
    }
    proof {
        lemma_next_pow2_unique(n as int, p as int, p as int);
    }
    p
}

/// The exponent of a power of two: the logarithm to base two.
pub open spec fn log2_spec(n: int) -> int {
    vstd::arithmetic::logarithm::log(2, n)
}

/// The exponent of a power of two.
pub fn log2(n: usize) -> (r: u32)
    requires
        is_pow2(n as int),
    ensures
        pow2(r as nat) == n,
        r == log2_spec(n as int),
        r < usize::BITS,
{
    let mut m: usize = n;
    let mut r: u32 = 0;
    proof {
        lemma2_to64();
        reveal(is_pow2);
    }
    while m > 1
        invariant
            is_pow2(m as int),
            m * pow2(r as nat) == n,
            r < usize::BITS,
        decreases m,
    {
        proof {
            reveal(is_pow2);
            lemma_pow2_unfold((r + 1) as nat);
            assert((m / 2) * (2 * pow2(r as nat)) == m * pow2(r as nat)) by (nonlinear_arith)
                requires
                    m % 2 == 0,
            ;
            if r + 1 >= usize::BITS {
                lemma_pow2_large(r as nat);
                assert(m * pow2(r as nat) >= 2 * pow2(r as nat)) by (nonlinear_arith)
                    requires
                        m >= 2,
                ;
            }
        }
        m = m / 2;
        r = r + 1;
    }
    proof {
        reveal(is_pow2);
        assert(m == 1);
        vstd::arithmetic::power2::lemma_pow2(r as nat);
        vstd::arithmetic::logarithm::lemma_log_pow(2, r as nat);
    }
    r
}

/// Twice a power of two whose exponent is the last below the width of the
/// machine word exceeds the word's range.
proof fn lemma_pow2_large(r: nat)
    requires
        r + 1 >= usize::BITS,
        r < usize::BITS,
    ensures
        2 * pow2(r) > usize::MAX,
{
    lemma2_to64();
    vstd::arithmetic::power2::lemma2_to64_rest();
    assert(usize::BITS == 32 || usize::BITS == 64);
}

/// The product modulo `p` of the entries of `s` that are not zero.
pub open spec fn nonzero_product(s: Seq<int>, p: int) -> int
    decreases s.len(),
{
    if s.len() == 0 {
        1
    } else if s.last() == 0 {
        nonzero_product(s.drop_last(), p)
    } else {
        fmul(nonzero_product(s.drop_last(), p), s.last(), p)
    }
}

/// The product of the nonzero entries is a canonical residue.
pub proof fn lemma_nonzero_product_range(s: Seq<int>, p: int)
    requires
        p > 1,
    ensures
        0 <= nonzero_product(s, p) < p,
    decreases s.len(),
{
    if s.len() > 0 {
        lemma_nonzero_product_range(s.drop_last(), p);
    }
}

/// Where every nonzero entry has an inverse, so has the product of the nonzero
/// entries.
pub proof fn lemma_nonzero_product_unit(s: Seq<int>, p: int)
    requires
        p > 1,
        forall|i: int| 0 <= i < s.len() && s[i] != 0 ==> is_unit(#[trigger] s[i], p),
    ensures
        is_unit(nonzero_product(s, p), p),
    decreases s.len(),
{
    if s.len() == 0 {
        lemma_small_mod(1, p as nat);
        assert(1 * 1 == 1);
        assert(is_inverse(1, 1, p));
    } else {
        let t = s.drop_last();
        assert forall|i: int| 0 <= i < t.len() && t[i] != 0 implies is_unit(#[trigger] t[i], p) by {
            assert(t[i] == s[i]);
        }
        lemma_nonzero_product_unit(t, p);
        if s.last() != 0 {
            assert(is_unit(s[s.len() - 1], p));
            lemma_unit_product(nonzero_product(t, p), s.last(), p);
            lemma_unit_mod(nonzero_product(t, p) * s.last(), p);
        }
    }
}

/// One step back in batch inversion: with the inverse of the product up to and
/// including a nonzero entry `x`, the inverse of `x` is that times the product
/// before `x`, and the inverse of the product before `x` is that times `x`.
pub proof fn lemma_batch_step(before: int, x: int, p: int)
    requires
        p > 1,
        is_unit(fmul(before, x, p), p),
    ensures
        finv(x, p) == fmul(before, finv(fmul(before, x, p), p), p),
        finv(before, p) == fmul(finv(fmul(before, x, p), p), x, p),
        is_unit(before, p),
        is_unit(x, p),
{
    lemma_unit_mod(before * x, p);
    lemma_unit_factor(before, x, p);
    assert(x * before == before * x) by (nonlinear_arith);
    lemma_unit_factor(x, before, p);
    let w = finv(before * x, p);
    assert(x * w == w * x) by (nonlinear_arith);
}

/// In a prime field the product of the entries that are not zero has an
/// inverse.
pub proof fn lemma_product_of_values_unit<B: StarkField>(values: Seq<B>)
    ensures
        is_unit(nonzero_product(residues(values), B::modulus()), B::modulus()),
{
    let all = residues(values);
    B::lemma_field();
    assert forall|i: int| 0 <= i < all.len() && all[i] != 0 implies is_unit(
        #[trigger] all[i],
        B::modulus(),
    ) by {
        values[i].lemma_value();
        B::lemma_units(all[i]);
    }
    lemma_nonzero_product_unit(all, B::modulus());
}

/// The inverses of the `values`, each zero where the value is zero, by
/// Montgomery's trick: one inversion of the product of the nonzero values, and
/// three multiplications for each of them.
pub fn batch_inversion<B: StarkField>(values: &[B]) -> (result: Vec<B>)
    ensures
        result@.len() == values@.len(),
        forall|i: int|
            0 <= i < values@.len() ==> (#[trigger] result@[i]).value() == finv(
                values@[i].value(),
                B::modulus(),
            ),
        forall|i: int|
            0 <= i < values@.len() && values@[i].value() != 0 ==> fmul(
                (#[trigger] result@[i]).value(),
                values@[i].value(),
                B::modulus(),
            ) == 1,
        forall|i: int|
            0 <= i < values@.len() && values@[i].value() == 0 ==> (#[trigger] result@[i]).value()
                == 0,
{
    let n = values.len();
    let ghost p = B::modulus();
    let ghost all = residues(values@);
    let zero = B::zero();
    let mut result: Vec<B> = Vec::new();
    let mut last = B::one();
    let mut i: usize = 0;
    proof {
        B::lemma_field();
        assert(all.take(0) =~= Seq::<int>::empty());
    }
    while i < n
        invariant
            n == values@.len(),
            p == B::modulus(),
            p > 1,
            all == residues(values@),
            i <= n,
            zero.value() == 0,
            result@.len() == i,
            last.value() == nonzero_product(all.take(i as int), p),
            forall|j: int|
                0 <= j < i ==> (#[trigger] result@[j]).value() == nonzero_product(all.take(j), p),
        decreases n - i,
    {
        result.push(last);
        proof {
            assert(all.take(i + 1).drop_last() =~= all.take(i as int));
            assert(all.take(i + 1).last() == values@[i as int].value());
            assert(all.take(i + 1).len() > 0);
        }
        if !values[i].equals(&zero) {
            last = last.mul(values[i]);
        }
        assert(last.value() == nonzero_product(all.take(i + 1), p));
        i = i + 1;
    }
    proof {
        assert(all.take(n as int) =~= all);
        lemma_product_of_values_unit(values@);
    }
    last = last.inv();
    let mut k: usize = n;
    while k > 0
        invariant
            n == values@.len(),
            p == B::modulus(),
            p > 1,
            all == residues(values@),
            zero.value() == 0,
            k <= n,
            result@.len() == n,
            last.value() == finv(nonzero_product(all.take(k as int), p), p),
            is_unit(nonzero_product(all.take(k as int), p), p),
            forall|j: int|
                0 <= j < k ==> (#[trigger] result@[j]).value() == nonzero_product(all.take(j), p),
            forall|j: int|
                k <= j < n ==> (#[trigger] result@[j]).value() == finv(values@[j].value(), p),
        decreases k,
    {
        k = k - 1;
        let ghost before = nonzero_product(all.take(k as int), p);
        let ghost x = values@[k as int].value();
        proof {
            assert(all.take(k + 1).drop_last() =~= all.take(k as int));
            assert(all.take(k + 1).last() == x);
            if x != 0 {
                lemma_batch_step(before, x, p);
            } else {
                lemma_small_mod(0, p as nat);
                lemma_zero_not_unit(0, p);
            }
        }
        if values[k].equals(&zero) {
            result.set(k, zero);
        } else {
            let entry = result[k].mul(last);
            result.set(k, entry);
            last = last.mul(values[k]);
        }
    }
    proof {
        assert forall|i: int| 0 <= i < values@.len() implies (values@[i].value() != 0 ==> fmul(
            (#[trigger] result@[i]).value(),
            values@[i].value(),
            p,
        ) == 1) && (values@[i].value() == 0 ==> result@[i].value() == 0) by {
            let x = values@[i].value();
            values@[i].lemma_value();
            lemma_inverse_of(x, p);
            if x != 0 {
                B::lemma_units(x);
                assert(finv(x, p) * x == x * finv(x, p)) by (nonlinear_arith);
            }
        }
    }
    result
}

/// Whether `a` is the coefficient vector of an element of the field of `E`.
pub open spec fn is_element<E: FieldElement>(a: Seq<int>) -> bool {
    valid_coeffs(a, E::degree(), E::BaseField::modulus())
}

/// The coefficient vectors of a sequence of elements.
pub open spec fn coeffs_of<E: FieldElement>(values: Seq<E>) -> Seq<Seq<int>> {
    Seq::new(values.len(), |i: int| values[i].coeffs())
}

/// The product, in the field of `E`, of the entries of `s` that are not zero.
pub open spec fn nonzero_product_in<E: FieldElement>(s: Seq<Seq<int>>) -> Seq<int>
    decreases s.len(),
{
    if s.len() == 0 {
        lift_coeffs(1, E::degree())
    } else if s.last() == zero_coeffs(E::degree()) {
        nonzero_product_in::<E>(s.drop_last())
    } else {
        E::mul_spec(nonzero_product_in::<E>(s.drop_last()), s.last())
    }
}

/// A field has no zero divisors: the product of two elements that are not zero
/// is not zero.
pub proof fn lemma_no_zero_divisors<E: FieldElement>(a: Seq<int>, b: Seq<int>)
    requires
        is_element::<E>(a),
        is_element::<E>(b),
        a != zero_coeffs(E::degree()),
        b != zero_coeffs(E::degree()),
    ensures
        is_element::<E>(E::mul_spec(a, b)),
        E::mul_spec(a, b) != zero_coeffs(E::degree()),
{
    E::lemma_mul_closed(a, b);
    if E::mul_spec(a, b) == zero_coeffs(E::degree()) {
        // a == a * (b * b^-1) == (a * b) * b^-1 == 0
        let inverse = E::inv_spec(b);
        E::lemma_inv_spec(b);
        E::lemma_mul_associative(a, b, inverse);
        E::lemma_mul_one(a);
        E::lemma_mul_zero(inverse);
    }
}

/// An element has one inverse only: what multiplies with it to one is what
/// inversion returns.
pub proof fn lemma_inverse_is_unique<E: FieldElement>(x: Seq<int>, y: Seq<int>)
    requires
        is_element::<E>(x),
        is_element::<E>(y),
        x != zero_coeffs(E::degree()),
        E::mul_spec(x, y) == lift_coeffs(1, E::degree()),
    ensures
        y == E::inv_spec(x),
{
    // y == y * (x * z) == (y * x) * z == z for the inverse z of x
    let one = lift_coeffs(1, E::degree());
    let z = E::inv_spec(x);
    E::BaseField::lemma_field();
    assert(is_element::<E>(one));
    E::lemma_inv_spec(x);
    E::lemma_mul_one(y);
    E::lemma_mul_associative(y, x, z);
    E::lemma_mul_commutative(y, x);
    E::lemma_mul_commutative(one, z);
    E::lemma_mul_one(z);
}

/// The product of the entries that are not zero is an element that is not
/// zero.
pub proof fn lemma_nonzero_product_in<E: FieldElement>(s: Seq<Seq<int>>)
    requires
        E::degree() >= 1,
        forall|i: int| 0 <= i < s.len() ==> is_element::<E>(#[trigger] s[i]),
    ensures
        is_element::<E>(nonzero_product_in::<E>(s)),
        nonzero_product_in::<E>(s) != zero_coeffs(E::degree()),
    decreases s.len(),
{
    E::BaseField::lemma_field();
    if s.len() == 0 {
        assert(lift_coeffs(1, E::degree())[0] != zero_coeffs(E::degree())[0]);
    } else {
        let rest = s.drop_last();
        assert forall|i: int| 0 <= i < rest.len() implies is_element::<E>(#[trigger] rest[i]) by {
            assert(rest[i] == s[i]);
        }
        lemma_nonzero_product_in::<E>(rest);
        if s.last() != zero_coeffs(E::degree()) {
            lemma_no_zero_divisors::<E>(nonzero_product_in::<E>(rest), s.last());
        }
    }
}

/// The step of Montgomery's trick: from the inverse of a product one factor is
/// split off, which leaves the inverse of the other.
pub proof fn lemma_batch_step_in<E: FieldElement>(before: Seq<int>, x: Seq<int>)
    requires
        is_element::<E>(before),
        is_element::<E>(x),
        before != zero_coeffs(E::degree()),
        x != zero_coeffs(E::degree()),
    ensures
        E::mul_spec(before, E::inv_spec(E::mul_spec(before, x))) == E::inv_spec(x),
        E::mul_spec(E::inv_spec(E::mul_spec(before, x)), x) == E::inv_spec(before),
{
    let after = E::mul_spec(before, x);
    let w = E::inv_spec(after);
    lemma_no_zero_divisors::<E>(before, x);
    E::lemma_inv_spec(after);
    E::lemma_mul_closed(before, w);
    E::lemma_mul_closed(w, x);
    // x * (before * w) == (x * before) * w == after * w == 1
    E::lemma_mul_associative(x, before, w);
    E::lemma_mul_commutative(x, before);
    lemma_inverse_is_unique::<E>(x, E::mul_spec(before, w));
    // before * (w * x) == (before * w) * x == (w * before) * x == w * after == 1
    E::lemma_mul_associative(before, w, x);
    E::lemma_mul_commutative(before, w);
    E::lemma_mul_associative(w, before, x);
    E::lemma_mul_commutative(w, after);
    lemma_inverse_is_unique::<E>(before, E::mul_spec(w, x));
}

/// The inverses of the `values` of any field, prime or extended, each zero
/// where the value is zero, by Montgomery's trick: one inversion of the product
/// of the nonzero values, and three multiplications for each of them.
pub fn batch_inversion_over<E: FieldElement>(values: &[E]) -> (result: Vec<E>)
    ensures
        result@.len() == values@.len(),
        forall|i: int|
            0 <= i < values@.len() ==> (#[trigger] result@[i]).coeffs() == E::inv_spec(
                values@[i].coeffs(),
            ),
        forall|i: int|
            0 <= i < values@.len() && values@[i].coeffs() != zero_coeffs(E::degree())
                ==> E::mul_spec((#[trigger] result@[i]).coeffs(), values@[i].coeffs())
                == lift_coeffs(1, E::degree()),
        forall|i: int|
            0 <= i < values@.len() && values@[i].coeffs() == zero_coeffs(E::degree()) ==> (
            #[trigger] result@[i]).coeffs() == zero_coeffs(E::degree()),
{
    let n = values.len();
    let ghost all = coeffs_of::<E>(values@);
    let ghost none = zero_coeffs(E::degree());
    let zero = E::zero();
    let mut result: Vec<E> = Vec::new();
    let mut last = E::one();
    let mut i: usize = 0;
    proof {
        zero.lemma_coeffs();
        assert(all.take(0) =~= Seq::<Seq<int>>::empty());
        assert forall|j: int| 0 <= j < all.len() implies is_element::<E>(#[trigger] all[j]) by {
            values@[j].lemma_coeffs();
        }
    }
    while i < n
        invariant
            n == values@.len(),
            all == coeffs_of::<E>(values@),
            none == zero_coeffs(E::degree()),
            i <= n,
            zero.coeffs() == none,
            result@.len() == i,
            last.coeffs() == nonzero_product_in::<E>(all.take(i as int)),
            forall|j: int|
                0 <= j < i ==> (#[trigger] result@[j]).coeffs() == nonzero_product_in::<E>(
                    all.take(j),
                ),
        decreases n - i,
    {
        result.push(last);
        proof {
            assert(all.take(i + 1).drop_last() =~= all.take(i as int));
            assert(all.take(i + 1).last() == values@[i as int].coeffs());
            assert(all.take(i + 1).len() > 0);
        }
        if !values[i].equals(&zero) {
            last = last.mul(values[i]);
        }
        assert(last.coeffs() == nonzero_product_in::<E>(all.take(i + 1)));
        i = i + 1;
    }
    proof {
        assert(all.take(n as int) =~= all);
        lemma_nonzero_product_in::<E>(all);
        E::lemma_inv_spec(nonzero_product_in::<E>(all));
    }
    last = last.inv();
    let mut k: usize = n;
    while k > 0
        invariant
            n == values@.len(),
            all == coeffs_of::<E>(values@),
            none == zero_coeffs(E::degree()),
            E::degree() >= 1,
            forall|j: int| 0 <= j < all.len() ==> is_element::<E>(#[trigger] all[j]),
            zero.coeffs() == none,
            k <= n,
            result@.len() == n,
            last.coeffs() == E::inv_spec(nonzero_product_in::<E>(all.take(k as int))),
            forall|j: int|
                0 <= j < k ==> (#[trigger] result@[j]).coeffs() == nonzero_product_in::<E>(
                    all.take(j),
                ),
            forall|j: int|
                k <= j < n ==> (#[trigger] result@[j]).coeffs() == E::inv_spec(
                    values@[j].coeffs(),
                ),
        decreases k,
    {
        k = k - 1;
        let ghost before = nonzero_product_in::<E>(all.take(k as int));
        let ghost x = values@[k as int].coeffs();
        proof {
            assert(all.take(k + 1).drop_last() =~= all.take(k as int));
            assert(all.take(k + 1).last() == x);
            assert(is_element::<E>(all[k as int]));
            if x != none {
                assert forall|j: int| 0 <= j < k implies is_element::<E>(
                    #[trigger] all.take(k as int)[j],
                ) by {
                    assert(all.take(k as int)[j] == all[j]);
                }
                lemma_nonzero_product_in::<E>(all.take(k as int));
                lemma_batch_step_in::<E>(before, x);
            } else {
                E::lemma_inv_spec(x);
            }
        }
        if values[k].equals(&zero) {
            result.set(k, zero);
        } else {
            let entry = result[k].mul(last);
            result.set(k, entry);
            last = last.mul(values[k]);
        }
    }
    proof {
        assert forall|i: int| 0 <= i < values@.len() implies (values@[i].coeffs() != none
            ==> E::mul_spec((#[trigger] result@[i]).coeffs(), values@[i].coeffs()) == lift_coeffs(
            1,
            E::degree(),
        )) && (values@[i].coeffs() == none ==> result@[i].coeffs() == none) by {
            let x = values@[i].coeffs();
            assert(is_element::<E>(all[i]));
            E::lemma_inv_spec(x);
            E::lemma_mul_commutative(x, E::inv_spec(x));
        }
    }
    result
}

/// The vector `s, s * b, s * b^2, ...` of `n` entries.
pub fn get_power_series_with_offset<E: FieldElement>(b: E, s: E, n: usize) -> (result: Vec<E>)
    ensures
        result@.len() == n,
        forall|i: int|
            0 <= i < n ==> (#[trigger] result@[i]).coeffs() == E::mul_spec(
                s.coeffs(),
                E::pow_spec(b.coeffs(), i as nat),
            ),
{
    let mut result: Vec<E> = Vec::new();
    let mut current = s;
    let mut i: usize = 0;
    proof {
        s.lemma_coeffs();
        E::lemma_pow_spec(b.coeffs(), 0);
        E::lemma_mul_one(s.coeffs());
    }
    while i < n
        invariant
            i <= n,
            result@.len() == i,
            current.coeffs() == E::mul_spec(s.coeffs(), E::pow_spec(b.coeffs(), i as nat)),
            forall|j: int|
                0 <= j < i ==> (#[trigger] result@[j]).coeffs() == E::mul_spec(
                    s.coeffs(),
                    E::pow_spec(b.coeffs(), j as nat),
                ),
        decreases n - i,
    {
        result.push(current);
        proof {
            // (s * b^i) * b == s * (b * b^i)
            let bi = E::pow_spec(b.coeffs(), i as nat);
            s.lemma_coeffs();
            b.lemma_coeffs();
            lemma_pow_closed::<E>(b.coeffs(), i as nat);
            E::lemma_pow_spec(b.coeffs(), (i + 1) as nat);
            E::lemma_mul_associative(s.coeffs(), bi, b.coeffs());
            E::lemma_mul_commutative(bi, b.coeffs());
        }
        current = current.mul(b);
        i = i + 1;
    }
    result
}

} // verus!

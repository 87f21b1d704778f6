//! Prime fields as fields of degree one over themselves.

use vstd::prelude::*;
use vstd::arithmetic::div_mod::*;
use vstd::arithmetic::power::*;
use crate::field::modular::{
    fmul, fpow, finv, is_unit, lemma_inverse_of, lemma_zero_not_unit,
};
use crate::field::traits::{
    FieldElement, StarkField, valid_coeffs, lift_coeffs, zero_coeffs, add_coeffs, sub_coeffs,
    neg_coeffs,
};
use crate::field::{fp62, fp64, fp128, fp252};

verus! {

/// The product of two elements of a prime field, over coefficient vectors of
/// length one.
pub open spec fn prime_mul(a: Seq<int>, b: Seq<int>, p: int) -> Seq<int> {
    seq![fmul(a[0], b[0], p)]
}

/// The `k`-fold product of an element of a prime field with itself.
pub open spec fn prime_pow(a: Seq<int>, k: nat, p: int) -> Seq<int> {
    seq![fpow(a[0], k, p)]
}

/// The inverse of an element of a prime field.
pub open spec fn prime_inv(a: Seq<int>, p: int) -> Seq<int> {
    seq![finv(a[0], p)]
}

/// The product of zero and an element of a prime field is zero.
pub proof fn lemma_prime_mul_zero(a: Seq<int>, p: int)
    requires
        p > 1,
    ensures
        prime_mul(zero_coeffs(1), a, p) == zero_coeffs(1),
{
    assert(0 * a[0] == 0);
    lemma_small_mod(0, p as nat);
    assert(prime_mul(zero_coeffs(1), a, p) =~= zero_coeffs(1));
}

/// A nonzero element of a prime field multiplies with its inverse to one, and
/// the inverse of zero is zero.
pub proof fn lemma_prime_inv(a: Seq<int>, p: int)
    requires
        p > 1,
        valid_coeffs(a, 1, p),
        a[0] != 0 ==> is_unit(a[0], p),
    ensures
        valid_coeffs(prime_inv(a, p), 1, p),
        a != zero_coeffs(1) ==> prime_mul(a, prime_inv(a, p), p) == lift_coeffs(1, 1),
        a == zero_coeffs(1) ==> prime_inv(a, p) == zero_coeffs(1),
{
    lemma_inverse_of(a[0], p);
    if a[0] != 0 {
        lemma_inverse_of(a[0], p);
        assert(prime_mul(a, prime_inv(a, p), p) =~= lift_coeffs(1, 1));
    } else {
        assert(a =~= zero_coeffs(1));
        lemma_small_mod(0, p as nat);
        lemma_zero_not_unit(0, p);
        assert(prime_inv(a, p) =~= zero_coeffs(1));
    }
}

impl FieldElement for fp128::BaseElement {
    type BaseField = fp128::BaseElement;

    open spec fn degree() -> nat {
        1
    }

    open spec fn coeffs(&self) -> Seq<int> {
        seq![self.as_int()]
    }

    open spec fn mul_spec(a: Seq<int>, b: Seq<int>) -> Seq<int> {
        prime_mul(a, b, fp128::M as int)
    }

    open spec fn pow_spec(a: Seq<int>, k: nat) -> Seq<int> {
        prime_pow(a, k, fp128::M as int)
    }

    open spec fn inv_spec(a: Seq<int>) -> Seq<int> {
        prime_inv(a, fp128::M as int)
    }

    open spec fn conjugate_spec(a: Seq<int>) -> Seq<int> {
        a
    }

    proof fn lemma_coeffs(&self) {
    }

    proof fn lemma_pow_spec(a: Seq<int>, k: nat) {
        lemma_prime_pow(a, k, fp128::M as int);
    }

    proof fn lemma_mul_closed(a: Seq<int>, b: Seq<int>) {
    }

    proof fn lemma_mul_commutative(a: Seq<int>, b: Seq<int>) {
        assert(a[0] * b[0] == b[0] * a[0]) by (nonlinear_arith);
    }

    proof fn lemma_mul_associative(a: Seq<int>, b: Seq<int>, c: Seq<int>) {
        lemma_prime_mul_associative(a, b, c, fp128::M as int);
    }

    proof fn lemma_mul_one(a: Seq<int>) {
        lemma_prime_mul_one(a, fp128::M as int);
    }

    proof fn lemma_mul_zero(a: Seq<int>) {
        <fp128::BaseElement as StarkField>::lemma_field();
        lemma_prime_mul_zero(a, <fp128::BaseElement as StarkField>::modulus());
    }

    proof fn lemma_inv_spec(a: Seq<int>) {
        if a[0] != 0 {
            <fp128::BaseElement as StarkField>::lemma_units(a[0]);
        }
        <fp128::BaseElement as StarkField>::lemma_field();
        lemma_prime_inv(a, <fp128::BaseElement as StarkField>::modulus());
    }

    fn zero() -> (r: Self) {
        let r = <Self as StarkField>::zero();
        proof {
            assert(r.coeffs() =~= zero_coeffs(1));
        }
        r
    }

    fn one() -> (r: Self) {
        let r = <Self as StarkField>::one();
        proof {
            assert(r.coeffs() =~= lift_coeffs(1, 1));
        }
        r
    }

    fn from_base(b: Self) -> (r: Self) {
        proof {
            assert(b.coeffs() =~= lift_coeffs(b.value(), 1));
        }
        b
    }

    fn add(self, rhs: Self) -> (r: Self) {
        let r = StarkField::add(self, rhs);
        proof {
            assert(r.coeffs() =~= add_coeffs(self.coeffs(), rhs.coeffs(), fp128::M as int));
        }
        r
    }

    fn sub(self, rhs: Self) -> (r: Self) {
        let r = StarkField::sub(self, rhs);
        proof {
            assert(r.coeffs() =~= sub_coeffs(self.coeffs(), rhs.coeffs(), fp128::M as int));
        }
        r
    }

    fn mul(self, rhs: Self) -> (r: Self) {
        StarkField::mul(self, rhs)
    }

    fn square(self) -> (r: Self) {
        StarkField::square(self)
    }

    fn neg(self) -> (r: Self) {
        let r = StarkField::neg(self);
        proof {
            assert(r.coeffs() =~= neg_coeffs(self.coeffs(), fp128::M as int));
        }
        r
    }

    fn inv(self) -> (r: Self) {
        proof {
            Self::lemma_inv_spec(self.coeffs());
        }
        StarkField::inv(self)
    }

    fn conjugate(&self) -> (r: Self) {
        *self
    }

    fn equals(&self, other: &Self) -> (r: bool) {
        let r = StarkField::equals(self, other);
        proof {
            if self.coeffs() == other.coeffs() {
                assert(self.coeffs()[0] == other.coeffs()[0]);
            }
        }
        r
    }
}

impl FieldElement for fp252::BaseElement {
    type BaseField = fp252::BaseElement;

    open spec fn degree() -> nat {
        1
    }

    open spec fn coeffs(&self) -> Seq<int> {
        seq![self.as_int()]
    }

    open spec fn mul_spec(a: Seq<int>, b: Seq<int>) -> Seq<int> {
        prime_mul(a, b, fp252::modulus())
    }

    open spec fn pow_spec(a: Seq<int>, k: nat) -> Seq<int> {
        prime_pow(a, k, fp252::modulus())
    }

    open spec fn inv_spec(a: Seq<int>) -> Seq<int> {
        prime_inv(a, fp252::modulus())
    }

    open spec fn conjugate_spec(a: Seq<int>) -> Seq<int> {
        a
    }

    proof fn lemma_coeffs(&self) {
    }

    proof fn lemma_pow_spec(a: Seq<int>, k: nat) {
        lemma_prime_pow(a, k, fp252::modulus());
    }

    proof fn lemma_mul_closed(a: Seq<int>, b: Seq<int>) {
    }

    proof fn lemma_mul_commutative(a: Seq<int>, b: Seq<int>) {
        assert(a[0] * b[0] == b[0] * a[0]) by (nonlinear_arith);
    }

    proof fn lemma_mul_associative(a: Seq<int>, b: Seq<int>, c: Seq<int>) {
        lemma_prime_mul_associative(a, b, c, fp252::modulus());
    }

    proof fn lemma_mul_one(a: Seq<int>) {
        lemma_prime_mul_one(a, fp252::modulus());
    }

    proof fn lemma_mul_zero(a: Seq<int>) {
        <fp252::BaseElement as StarkField>::lemma_field();
        lemma_prime_mul_zero(a, <fp252::BaseElement as StarkField>::modulus());
    }

    proof fn lemma_inv_spec(a: Seq<int>) {
        if a[0] != 0 {
            <fp252::BaseElement as StarkField>::lemma_units(a[0]);
        }
        <fp252::BaseElement as StarkField>::lemma_field();
        lemma_prime_inv(a, <fp252::BaseElement as StarkField>::modulus());
    }

    fn zero() -> (r: Self) {
        let r = <Self as StarkField>::zero();
        proof {
            assert(r.coeffs() =~= zero_coeffs(1));
        }
        r
    }

    fn one() -> (r: Self) {
        let r = <Self as StarkField>::one();
        proof {
            assert(r.coeffs() =~= lift_coeffs(1, 1));
        }
        r
    }

    fn from_base(b: Self) -> (r: Self) {
        proof {
            assert(b.coeffs() =~= lift_coeffs(b.value(), 1));
        }
        b
    }

    fn add(self, rhs: Self) -> (r: Self) {
        let r = StarkField::add(self, rhs);
        proof {
            assert(r.coeffs() =~= add_coeffs(self.coeffs(), rhs.coeffs(), fp252::modulus()));
        }
        r
    }

    fn sub(self, rhs: Self) -> (r: Self) {
        let r = StarkField::sub(self, rhs);
        proof {
            assert(r.coeffs() =~= sub_coeffs(self.coeffs(), rhs.coeffs(), fp252::modulus()));
        }
        r
    }

    fn mul(self, rhs: Self) -> (r: Self) {
        StarkField::mul(self, rhs)
    }

    fn square(self) -> (r: Self) {
        StarkField::square(self)
    }

    fn neg(self) -> (r: Self) {
        let r = StarkField::neg(self);
        proof {
            assert(r.coeffs() =~= neg_coeffs(self.coeffs(), fp252::modulus()));
        }
        r
    }

    fn inv(self) -> (r: Self) {
        proof {
            Self::lemma_inv_spec(self.coeffs());
        }
        StarkField::inv(self)
    }

    fn conjugate(&self) -> (r: Self) {
        *self
    }

    fn equals(&self, other: &Self) -> (r: bool) {
        let r = StarkField::equals(self, other);
        proof {
            if self.coeffs() == other.coeffs() {
                assert(self.coeffs()[0] == other.coeffs()[0]);
            }
        }
        r
    }
}

impl FieldElement for fp64::BaseElement {
    type BaseField = fp64::BaseElement;

    open spec fn degree() -> nat {
        1
    }

    open spec fn coeffs(&self) -> Seq<int> {
        seq![self.as_int()]
    }

    open spec fn mul_spec(a: Seq<int>, b: Seq<int>) -> Seq<int> {
        prime_mul(a, b, fp64::M as int)
    }

    open spec fn pow_spec(a: Seq<int>, k: nat) -> Seq<int> {
        prime_pow(a, k, fp64::M as int)
    }

    open spec fn inv_spec(a: Seq<int>) -> Seq<int> {
        prime_inv(a, fp64::M as int)
    }

    open spec fn conjugate_spec(a: Seq<int>) -> Seq<int> {
        a
    }

    proof fn lemma_coeffs(&self) {
    }

    proof fn lemma_pow_spec(a: Seq<int>, k: nat) {
        lemma_prime_pow(a, k, fp64::M as int);
    }

    proof fn lemma_mul_closed(a: Seq<int>, b: Seq<int>) {
    }

    proof fn lemma_mul_commutative(a: Seq<int>, b: Seq<int>) {
        assert(a[0] * b[0] == b[0] * a[0]) by (nonlinear_arith);
    }

    proof fn lemma_mul_associative(a: Seq<int>, b: Seq<int>, c: Seq<int>) {
        lemma_prime_mul_associative(a, b, c, fp64::M as int);
    }

    proof fn lemma_mul_one(a: Seq<int>) {
        lemma_prime_mul_one(a, fp64::M as int);
    }

    proof fn lemma_mul_zero(a: Seq<int>) {
        <fp64::BaseElement as StarkField>::lemma_field();
        lemma_prime_mul_zero(a, <fp64::BaseElement as StarkField>::modulus());
    }

    proof fn lemma_inv_spec(a: Seq<int>) {
        if a[0] != 0 {
            <fp64::BaseElement as StarkField>::lemma_units(a[0]);
        }
        <fp64::BaseElement as StarkField>::lemma_field();
        lemma_prime_inv(a, <fp64::BaseElement as StarkField>::modulus());
    }

    fn zero() -> (r: Self) {
        let r = <Self as StarkField>::zero();
        proof {
            assert(r.coeffs() =~= zero_coeffs(1));
        }
        r
    }

    fn one() -> (r: Self) {
        let r = <Self as StarkField>::one();
        proof {
            assert(r.coeffs() =~= lift_coeffs(1, 1));
        }
        r
    }

    fn from_base(b: Self) -> (r: Self) {
        proof {
            assert(b.coeffs() =~= lift_coeffs(b.value(), 1));
        }
        b
    }

    fn add(self, rhs: Self) -> (r: Self) {
        let r = StarkField::add(self, rhs);
        proof {
            assert(r.coeffs() =~= add_coeffs(self.coeffs(), rhs.coeffs(), fp64::M as int));
        }
        r
    }

    fn sub(self, rhs: Self) -> (r: Self) {
        let r = StarkField::sub(self, rhs);
        proof {
            assert(r.coeffs() =~= sub_coeffs(self.coeffs(), rhs.coeffs(), fp64::M as int));
        }
        r
    }

    fn mul(self, rhs: Self) -> (r: Self) {
        StarkField::mul(self, rhs)
    }

    fn square(self) -> (r: Self) {
        StarkField::square(self)
    }

    fn neg(self) -> (r: Self) {
        let r = StarkField::neg(self);
        proof {
            assert(r.coeffs() =~= neg_coeffs(self.coeffs(), fp64::M as int));
        }
        r
    }

    fn inv(self) -> (r: Self) {
        proof {
            Self::lemma_inv_spec(self.coeffs());
        }
        StarkField::inv(self)
    }

    fn conjugate(&self) -> (r: Self) {
        *self
    }

    fn equals(&self, other: &Self) -> (r: bool) {
        let r = StarkField::equals(self, other);
        proof {
            if self.coeffs() == other.coeffs() {
                assert(self.coeffs()[0] == other.coeffs()[0]);
            }
        }
        r
    }
}

impl FieldElement for fp62::BaseElement {
    type BaseField = fp62::BaseElement;

    open spec fn degree() -> nat {
        1
    }

    open spec fn coeffs(&self) -> Seq<int> {
        seq![self.as_int()]
    }

    open spec fn mul_spec(a: Seq<int>, b: Seq<int>) -> Seq<int> {
        prime_mul(a, b, fp62::M as int)
    }

    open spec fn pow_spec(a: Seq<int>, k: nat) -> Seq<int> {
        prime_pow(a, k, fp62::M as int)
    }

    open spec fn inv_spec(a: Seq<int>) -> Seq<int> {
        prime_inv(a, fp62::M as int)
    }

    open spec fn conjugate_spec(a: Seq<int>) -> Seq<int> {
        a
    }

    proof fn lemma_coeffs(&self) {
    }

    proof fn lemma_pow_spec(a: Seq<int>, k: nat) {
        lemma_prime_pow(a, k, fp62::M as int);
    }

    proof fn lemma_mul_closed(a: Seq<int>, b: Seq<int>) {
    }

    proof fn lemma_mul_commutative(a: Seq<int>, b: Seq<int>) {
        assert(a[0] * b[0] == b[0] * a[0]) by (nonlinear_arith);
    }

    proof fn lemma_mul_associative(a: Seq<int>, b: Seq<int>, c: Seq<int>) {
        lemma_prime_mul_associative(a, b, c, fp62::M as int);
    }

    proof fn lemma_mul_one(a: Seq<int>) {
        lemma_prime_mul_one(a, fp62::M as int);
    }

    proof fn lemma_mul_zero(a: Seq<int>) {
        <fp62::BaseElement as StarkField>::lemma_field();
        lemma_prime_mul_zero(a, <fp62::BaseElement as StarkField>::modulus());
    }

    proof fn lemma_inv_spec(a: Seq<int>) {
        if a[0] != 0 {
            <fp62::BaseElement as StarkField>::lemma_units(a[0]);
        }
        <fp62::BaseElement as StarkField>::lemma_field();
        lemma_prime_inv(a, <fp62::BaseElement as StarkField>::modulus());
    }

    fn zero() -> (r: Self) {
        let r = <Self as StarkField>::zero();
        proof {
            assert(r.coeffs() =~= zero_coeffs(1));
        }
        r
    }

    fn one() -> (r: Self) {
        let r = <Self as StarkField>::one();
        proof {
            assert(r.coeffs() =~= lift_coeffs(1, 1));
        }
        r
    }

    fn from_base(b: Self) -> (r: Self) {
        proof {
            assert(b.coeffs() =~= lift_coeffs(b.value(), 1));
        }
        b
    }

    fn add(self, rhs: Self) -> (r: Self) {
        let r = StarkField::add(self, rhs);
        proof {
            assert(r.coeffs() =~= add_coeffs(self.coeffs(), rhs.coeffs(), fp62::M as int));
        }
        r
    }

    fn sub(self, rhs: Self) -> (r: Self) {
        let r = StarkField::sub(self, rhs);
        proof {
            assert(r.coeffs() =~= sub_coeffs(self.coeffs(), rhs.coeffs(), fp62::M as int));
        }
        r
    }

    fn mul(self, rhs: Self) -> (r: Self) {
        StarkField::mul(self, rhs)
    }

    fn square(self) -> (r: Self) {
        StarkField::square(self)
    }

    fn neg(self) -> (r: Self) {
        let r = StarkField::neg(self);
        proof {
            assert(r.coeffs() =~= neg_coeffs(self.coeffs(), fp62::M as int));
        }
        r
    }

    fn inv(self) -> (r: Self) {
        proof {
            Self::lemma_inv_spec(self.coeffs());
        }
        StarkField::inv(self)
    }

    fn conjugate(&self) -> (r: Self) {
        *self
    }

    fn equals(&self, other: &Self) -> (r: bool) {
        let r = StarkField::equals(self, other);
        proof {
            if self.coeffs() == other.coeffs() {
                assert(self.coeffs()[0] == other.coeffs()[0]);
            }
        }
        r
    }
}

/// A power in a prime field is the product of as many factors as the exponent
/// says.
pub proof fn lemma_prime_pow(a: Seq<int>, k: nat, p: int)
    requires
        p > 1,
    ensures
        prime_pow(a, 0, p) == lift_coeffs(1, 1),
        k > 0 ==> prime_pow(a, k, p) == prime_mul(a, prime_pow(a, (k - 1) as nat, p), p),
{
    lemma_pow0(a[0]);
    lemma_small_mod(1, p as nat);
    assert(prime_pow(a, 0, p) =~= lift_coeffs(1, 1));
    if k > 0 {
        assert(pow(a[0], k) == a[0] * pow(a[0], (k - 1) as nat)) by {
            reveal(pow);
        }
        lemma_mul_mod_noop_right(a[0], pow(a[0], (k - 1) as nat), p);
    }
}

/// Multiplication in a prime field is associative.
pub proof fn lemma_prime_mul_associative(a: Seq<int>, b: Seq<int>, c: Seq<int>, p: int)
    requires
        p > 1,
    ensures
        prime_mul(prime_mul(a, b, p), c, p) == prime_mul(a, prime_mul(b, c, p), p),
{
    lemma_mul_mod_noop_left(a[0] * b[0], c[0], p);
    lemma_mul_mod_noop_right(a[0], b[0] * c[0], p);
    assert((a[0] * b[0]) * c[0] == a[0] * (b[0] * c[0])) by (nonlinear_arith);
}

/// One is the identity of multiplication in a prime field.
pub proof fn lemma_prime_mul_one(a: Seq<int>, p: int)
    requires
        p > 1,
        valid_coeffs(a, 1, p),
    ensures
        prime_mul(a, lift_coeffs(1, 1), p) == a,
{
    assert(a[0] * 1 == a[0]);
    lemma_small_mod(a[0] as nat, p as nat);
    assert(prime_mul(a, lift_coeffs(1, 1), p) =~= a);
}

} // verus!

//! The quadratic extension of a prime field by a root of `x^2 - x - 1`.

use vstd::prelude::*;
use vstd::std_specs::cmp::PartialEqSpecImpl;
use vstd::std_specs::convert::FromSpecImpl;
use vstd::std_specs::ops::{AddSpecImpl, SubSpecImpl, MulSpecImpl, DivSpecImpl, NegSpecImpl};
use vstd::arithmetic::div_mod::*;
use vstd::string::StringExecFns;
use crate::bytes::start_address;
use crate::errors::SerializationError;
use crate::field::buffers;
use crate::field::buffers::{raw_bytes_of, elements_in, encoding_of, is_encoding_of_many};
use crate::text::decimal;
use crate::field::modular::{finv, lemma_expand2, lemma_expand3};
use crate::field::power::exp_by_repr;
use crate::field::traits::{
    FieldElement, QuadExtensible, StarkField, valid_coeffs, lift_coeffs, zero_coeffs, add_coeffs, sub_coeffs,
    neg_coeffs,
};

verus! {

/// The product of `a[0] + a[1] * x` and `b[0] + b[1] * x` modulo `x^2 - x - 1`,
/// with coefficients modulo `p`.
pub open spec fn quad_mul(a: Seq<int>, b: Seq<int>, p: int) -> Seq<int> {
    seq![(a[0] * b[0] + a[1] * b[1]) % p, (a[0] * b[1] + a[1] * b[0] + a[1] * b[1]) % p]
}

/// The norm of `a[0] + a[1] * x` over the base field: the product of the
/// element with its conjugate.
pub open spec fn quad_norm(a: Seq<int>, p: int) -> int {
    (a[0] * a[0] + a[0] * a[1] - a[1] * a[1]) % p
}

/// The conjugate of `a[0] + a[1] * x`: the element with the other root of
/// `x^2 - x - 1` in place of `x`.
pub open spec fn quad_conjugate(a: Seq<int>, p: int) -> Seq<int> {
    seq![(a[0] + a[1]) % p, (-a[1]) % p]
}

/// The conjugate divided by the norm; zero where the norm has no inverse.
pub open spec fn quad_inv(a: Seq<int>, p: int) -> Seq<int> {
    let d = finv(quad_norm(a, p), p);
    seq![((a[0] + a[1]) * d) % p, ((-a[1]) * d) % p]
}

/// The `k`-fold product of `a` with itself.
pub open spec fn quad_pow(a: Seq<int>, k: nat, p: int) -> Seq<int>
    decreases k,
{
    if k == 0 {
        lift_coeffs(1, 2)
    } else {
        quad_mul(a, quad_pow(a, (k - 1) as nat, p), p)
    }
}

/// An element `a + b * x` of the quadratic extension of the field of `B` by a
/// root `x` of `x^2 - x - 1`, held as the pair `(a, b)`. The extension is a field
/// where five is no square in the field of `B`.
#[derive(Copy, Debug)]
pub struct QuadExtensionA<B: StarkField>(pub B, pub B);

impl<B: StarkField> Clone for QuadExtensionA<B> {
    fn clone(&self) -> (r: Self)
        ensures
            r == *self,
    {
        *self
    }
}

impl<B: StarkField> Default for QuadExtensionA<B> {
    fn default() -> (r: Self)
        ensures
            r@ == zero_coeffs(2),
    {
        let r = QuadExtensionA(B::zero(), B::zero());
        proof {
            assert(r@ =~= zero_coeffs(2));
        }
        r
    }
}

impl<B: StarkField> PartialEq for QuadExtensionA<B> {
    fn eq(&self, other: &Self) -> (r: bool) {
        let r = self.0.equals(&other.0) && self.1.equals(&other.1);
        proof {
            if self@ == other@ {
                assert(self@[0] == other@[0] && self@[1] == other@[1]);
            }
            if r {
                assert(self@ =~= other@);
            }
        }
        r
    }
}

impl<B: StarkField> PartialEqSpecImpl for QuadExtensionA<B> {
    open spec fn obeys_eq_spec() -> bool {
        true
    }

    open spec fn eq_spec(&self, other: &Self) -> bool {
        self@ == other@
    }
}

impl<B: StarkField> Eq for QuadExtensionA<B> {

}

impl<B: StarkField> QuadExtensionA<B> {
    /// The element `a + b * x`.
    pub fn new(a: B, b: B) -> (r: Self)
        ensures
            r == QuadExtensionA(a, b),
    {
        QuadExtensionA(a, b)
    }

    /// The residues of the two coefficients.
    pub open spec fn view(&self) -> Seq<int> {
        seq![self.0.value(), self.1.value()]
    }

}

impl<B: QuadExtensible> QuadExtensionA<B> {
    /// The element raised to `power`; one for `power` zero, whatever the element.
    pub fn exp(self, power: B::Representation) -> (r: Self)
        ensures
            r@ == quad_pow(self@, B::repr_value(power) as nat, B::modulus()),
    {
        exp_by_repr(self, power)
    }
}

/// The product of two valid coefficient vectors is a valid coefficient vector.
pub proof fn lemma_quad_mul_closed(a: Seq<int>, b: Seq<int>, p: int)
    requires
        p > 1,
    ensures
        valid_coeffs(quad_mul(a, b, p), 2, p),
{
}

/// Multiplication in the quadratic extension is commutative.
pub proof fn lemma_quad_mul_commutative(a: Seq<int>, b: Seq<int>, p: int)
    ensures
        quad_mul(a, b, p) == quad_mul(b, a, p),
{
    assert(a[0] * b[0] + a[1] * b[1] == b[0] * a[0] + b[1] * a[1]) by (nonlinear_arith);
    assert(a[0] * b[1] + a[1] * b[0] + a[1] * b[1] == b[0] * a[1] + b[1] * a[0] + b[1] * a[1])
        by (nonlinear_arith);
}

/// Reducing the factors `x` and `z` of `x * y + z * w` does not change its
/// residue.
pub proof fn lemma_mod_dot2(x: int, y: int, z: int, w: int, p: int)
    requires
        p > 1,
    ensures
        ((x % p) * y + (z % p) * w) % p == (x * y + z * w) % p,
        (y * (x % p) + w * (z % p)) % p == (y * x + w * z) % p,
{
    lemma_mul_mod_noop_left(x, y, p);
    lemma_mul_mod_noop_left(z, w, p);
    lemma_add_mod_noop((x % p) * y, (z % p) * w, p);
    lemma_add_mod_noop(x * y, z * w, p);
    lemma_mul_mod_noop_right(y, x, p);
    lemma_mul_mod_noop_right(w, z, p);
    lemma_add_mod_noop(y * (x % p), w * (z % p), p);
    lemma_add_mod_noop(y * x, w * z, p);
}

/// Multiplication in the quadratic extension is associative.
pub proof fn lemma_quad_mul_associative(a: Seq<int>, b: Seq<int>, c: Seq<int>, p: int)
    requires
        p > 1,
    ensures
        quad_mul(quad_mul(a, b, p), c, p) == quad_mul(a, quad_mul(b, c, p), p),
{
    let a0 = a[0];
    let a1 = a[1];
    let b0 = b[0];
    let b1 = b[1];
    let c0 = c[0];
    let c1 = c[1];
    // the products before reduction
    let ab0 = a0 * b0 + a1 * b1;
    let ab1 = a0 * b1 + a1 * b0 + a1 * b1;
    let bc0 = b0 * c0 + b1 * c1;
    let bc1 = b0 * c1 + b1 * c0 + b1 * c1;
    let l = quad_mul(quad_mul(a, b, p), c, p);
    let r = quad_mul(a, quad_mul(b, c, p), p);
    assert(l[0] == r[0]) by {
        lemma_mod_dot2(ab0, c0, ab1, c1, p);
        lemma_mod_dot2(bc0, a0, bc1, a1, p);
        lemma_expand2(a0, b0, a1, b1, c0);
        lemma_expand3(a0, b1, a1, b0, a1, b1, c1);
        lemma_expand2(b0, c0, b1, c1, a0);
        lemma_expand3(b0, c1, b1, c0, b1, c1, a1);
        assert(ab0 * c0 + ab1 * c1 == a0 * bc0 + a1 * bc1);
    }
    assert(l[1] == r[1]) by {
        // (ab0 % p) * c1 + (ab1 % p) * c0 + (ab1 % p) * c1
        lemma_mod_dot2(ab0, c1, ab1, c0 + c1, p);
        assert((ab0 % p) * c1 + (ab1 % p) * c0 + (ab1 % p) * c1 == (ab0 % p) * c1 + (ab1 % p) * (
        c0 + c1)) by (nonlinear_arith);
        // a0 * (bc1 % p) + a1 * (bc0 % p) + a1 * (bc1 % p)
        lemma_mod_dot2(bc1, a0 + a1, bc0, a1, p);
        assert(a0 * (bc1 % p) + a1 * (bc0 % p) + a1 * (bc1 % p) == (a0 + a1) * (bc1 % p) + a1 * (
        bc0 % p)) by (nonlinear_arith);
        lemma_expand2(a0, b0, a1, b1, c1);
        lemma_expand3(a0, b1, a1, b0, a1, b1, c0);
        lemma_expand3(a0, b1, a1, b0, a1, b1, c1);
        lemma_expand3(b0, c1, b1, c0, b1, c1, a0);
        lemma_expand3(b0, c1, b1, c0, b1, c1, a1);
        lemma_expand2(b0, c0, b1, c1, a1);
        assert(ab1 * (c0 + c1) == ab1 * c0 + ab1 * c1) by (nonlinear_arith);
        assert((a0 + a1) * bc1 == a0 * bc1 + a1 * bc1) by (nonlinear_arith);
        assert(ab0 * c1 + ab1 * (c0 + c1) == (a0 + a1) * bc1 + a1 * bc0);
    }
    assert(l =~= r);
}

/// One is the identity of multiplication in the quadratic extension.
pub proof fn lemma_quad_mul_one(a: Seq<int>, p: int)
    requires
        p > 1,
        valid_coeffs(a, 2, p),
    ensures
        quad_mul(a, lift_coeffs(1, 2), p) == a,
{
    let one = lift_coeffs(1, 2);
    assert(a[0] * one[0] + a[1] * one[1] == a[0]) by (nonlinear_arith)
        requires
            one[0] == 1,
            one[1] == 0,
    ;
    assert(a[0] * one[1] + a[1] * one[0] + a[1] * one[1] == a[1]) by (nonlinear_arith)
        requires
            one[0] == 1,
            one[1] == 0,
    ;
    lemma_small_mod(a[0] as nat, p as nat);
    lemma_small_mod(a[1] as nat, p as nat);
    assert(quad_mul(a, one, p) =~= a);
}

impl<B: QuadExtensible> FieldElement for QuadExtensionA<B> {
    type BaseField = B;

    open spec fn degree() -> nat {
        2
    }

    open spec fn coeffs(&self) -> Seq<int> {
        self@
    }

    open spec fn mul_spec(a: Seq<int>, b: Seq<int>) -> Seq<int> {
        quad_mul(a, b, B::modulus())
    }

    open spec fn pow_spec(a: Seq<int>, k: nat) -> Seq<int> {
        quad_pow(a, k, B::modulus())
    }

    open spec fn inv_spec(a: Seq<int>) -> Seq<int> {
        quad_inv(a, B::modulus())
    }

    open spec fn conjugate_spec(a: Seq<int>) -> Seq<int> {
        quad_conjugate(a, B::modulus())
    }

    proof fn lemma_coeffs(&self) {
        self.0.lemma_value();
        self.1.lemma_value();
    }

    proof fn lemma_pow_spec(a: Seq<int>, k: nat) {
        reveal_with_fuel(quad_pow, 2);
    }

    proof fn lemma_mul_closed(a: Seq<int>, b: Seq<int>) {
        B::lemma_field();
        lemma_quad_mul_closed(a, b, B::modulus());
    }

    proof fn lemma_mul_commutative(a: Seq<int>, b: Seq<int>) {
        lemma_quad_mul_commutative(a, b, B::modulus());
    }

    proof fn lemma_mul_associative(a: Seq<int>, b: Seq<int>, c: Seq<int>) {
        B::lemma_field();
        lemma_quad_mul_associative(a, b, c, B::modulus());
    }

    proof fn lemma_mul_one(a: Seq<int>) {
        B::lemma_field();
        lemma_quad_mul_one(a, B::modulus());
    }

    proof fn lemma_mul_zero(a: Seq<int>) {
        let p = B::modulus();
        B::lemma_field();
        assert(0 * a[0] == 0 && 0 * a[1] == 0);
        lemma_small_mod(0, p as nat);
        assert(quad_mul(zero_coeffs(2), a, p) =~= zero_coeffs(2));
    }

    proof fn lemma_inv_spec(a: Seq<int>) {
        let p = B::modulus();
        B::lemma_field();
        let d = finv(quad_norm(a, p), p);
        lemma_mod_bound((a[0] + a[1]) * d, p);
        lemma_mod_bound((-a[1]) * d, p);
        crate::field::laws::lemma_quad_norm_of_nonzero::<B>(a);
        crate::field::laws::lemma_quad_inverse_of::<B>(a);
    }

    fn zero() -> (r: Self) {
        let r = QuadExtensionA(B::zero(), B::zero());
        proof {
            assert(r@ =~= zero_coeffs(2));
        }
        r
    }

    fn one() -> (r: Self) {
        let r = QuadExtensionA(B::one(), B::zero());
        proof {
            assert(r@ =~= lift_coeffs(1, 2));
        }
        r
    }

    fn from_base(b: B) -> (r: Self) {
        let r = QuadExtensionA(b, B::zero());
        proof {
            assert(r@ =~= lift_coeffs(b.value(), 2));
        }
        r
    }

    fn add(self, rhs: Self) -> (r: Self) {
        let r = QuadExtensionA(self.0.add(rhs.0), self.1.add(rhs.1));
        proof {
            assert(r@ =~= add_coeffs(self@, rhs@, B::modulus()));
        }
        r
    }

    fn sub(self, rhs: Self) -> (r: Self) {
        let r = QuadExtensionA(self.0.sub(rhs.0), self.1.sub(rhs.1));
        proof {
            assert(r@ =~= sub_coeffs(self@, rhs@, B::modulus()));
        }
        r
    }

    fn mul(self, rhs: Self) -> (r: Self) {
        let coef0_mul = self.0.mul(rhs.0);
        let r = QuadExtensionA(
            coef0_mul.add(self.1.mul(rhs.1)),
            self.0.add(self.1).mul(rhs.0.add(rhs.1)).sub(coef0_mul),
        );
        proof {
            let p = B::modulus();
            B::lemma_field();
            let a0 = self.0.value();
            let a1 = self.1.value();
            let b0 = rhs.0.value();
            let b1 = rhs.1.value();
            lemma_add_mod_noop(a0 * b0, a1 * b1, p);
            lemma_mul_mod_noop(a0 + a1, b0 + b1, p);
            lemma_sub_mod_noop((a0 + a1) * (b0 + b1), a0 * b0, p);
            assert((a0 + a1) * (b0 + b1) - a0 * b0 == a0 * b1 + a1 * b0 + a1 * b1)
                by (nonlinear_arith);
        }
        r
    }

    fn square(self) -> (r: Self) {
        self.mul(self)
    }

    fn neg(self) -> (r: Self) {
        let r = QuadExtensionA(self.0.neg(), self.1.neg());
        proof {
            assert(r@ =~= neg_coeffs(self@, B::modulus()));
        }
        r
    }

    fn inv(self) -> (r: Self) {
        proof {
            self.lemma_coeffs();
            Self::lemma_inv_spec(self.coeffs());
        }
        let denom = self.0.mul(self.0).add(self.0.mul(self.1)).sub(self.1.mul(self.1));
        let denom_inv = denom.inv();
        let r = QuadExtensionA(self.0.add(self.1).mul(denom_inv), self.1.neg().mul(denom_inv));
        proof {
            let p = B::modulus();
            B::lemma_field();
            let a0 = self.0.value();
            let a1 = self.1.value();
            lemma_add_mod_noop(a0 * a0, a0 * a1, p);
            lemma_sub_mod_noop(a0 * a0 + a0 * a1, a1 * a1, p);
            let d = finv(quad_norm(self@, p), p);
            lemma_mul_mod_noop_left(a0 + a1, d, p);
            lemma_mul_mod_noop_left(-a1, d, p);
        }
        r
    }

    fn conjugate(&self) -> (r: Self) {
        QuadExtensionA(self.0.add(self.1), self.1.neg())
    }

    fn equals(&self, other: &Self) -> (r: bool) {
        let r = self.0.equals(&other.0) && self.1.equals(&other.1);
        proof {
            if self@ == other@ {
                assert(self@[0] == other@[0] && self@[1] == other@[1]);
            }
            if r {
                assert(self@ =~= other@);
            }
        }
        r
    }
}

/// The coefficients of a sequence of elements, one element after the other.
pub open spec fn quad_flatten<B: QuadExtensible>(elements: Seq<QuadExtensionA<B>>) -> Seq<B> {
    Seq::new(
        elements.len() * 2,
        |i: int|
            if i % 2 == 0 {
                elements[i / 2].0
            } else {
                elements[i / 2].1
            },
    )
}

impl<B: QuadExtensible> QuadExtensionA<B> {
    /// The coefficients of the element.
    pub open spec fn components(&self) -> Seq<B> {
        seq![self.0, self.1]
    }

    /// Number of bytes that one element is written in: 2 times that of a base
    /// element.
    pub fn element_bytes() -> (n: usize)
        ensures
            n == 2 * B::num_bytes(),
    {
        proof {
            B::lemma_field();
        }
        2 * B::element_bytes()
    }

    /// Whether the coefficients of every element that the operations return
    /// are held as their canonical residues.
    pub fn is_canonical() -> (r: bool)
        ensures
            r == B::canonical(),
    {
        B::is_canonical()
    }

    /// The coefficients of the element, lowest degree first.
    pub fn to_base_elements(&self) -> (parts: Vec<B>)
        ensures
            parts@ == self.components(),
    {
        let mut parts: Vec<B> = Vec::new();
        parts.push(self.0);
        parts.push(self.1);
        proof {
            assert(parts@ =~= self.components());
        }
        parts
    }

    /// Fuses each 2 adjacent base elements into one element of the extension.
    pub fn base_to_quad_vector(source: Vec<B>) -> (r: Vec<Self>)
        requires
            source@.len() % 2 == 0,
        ensures
            r@.len() == source@.len() / 2,
            quad_flatten(r@) == source@,
    {
        let total = source.len();
        let n = total / 2;
        let mut result: Vec<Self> = Vec::new();
        let mut i: usize = 0;
        while i < n
            invariant
                total == source@.len(),
                n == source@.len() / 2,
                source@.len() % 2 == 0,
                i <= n,
                result@.len() == i,
                forall|k: int| 0 <= k < 2 * i ==> #[trigger] quad_flatten(result@)[k] == source@[k],
            decreases n - i,
        {
            let ghost before = result@;
            result.push(QuadExtensionA(source[2 * i], source[2 * i + 1]));
            proof {
                assert forall|k: int| 0 <= k < 2 * (i + 1) implies #[trigger] quad_flatten(
                    result@,
                )[k] == source@[k] by {
                    if k < 2 * i {
                        assert(quad_flatten(before)[k] == source@[k]);
                        assert(result@[k / 2] == before[k / 2]);
                    }
                }
            }
            i = i + 1;
        }
        proof {
            assert(quad_flatten(result@) =~= source@);
        }
        result
    }

    /// A vector of `n` zeros.
    pub fn zeroed_vector(n: usize) -> (r: Vec<Self>)
        requires
            n * 2 <= usize::MAX,
        ensures
            r@.len() == n,
            forall|i: int| 0 <= i < n ==> (#[trigger] r@[i])@ == zero_coeffs(2),
    {
        let zeros = buffers::zeroed_vector::<B>(n * 2);
        let result = Self::base_to_quad_vector(zeros);
        proof {
            assert forall|i: int| 0 <= i < n implies (#[trigger] result@[i])@ == zero_coeffs(2) by {
                let flat = quad_flatten(result@);
                                assert(flat[2 * i + 0] == result@[i].0);
                assert(flat[2 * i + 1] == result@[i].1);
                assert(result@[i]@ =~= zero_coeffs(2));
            }
        }
        result
    }

    /// The coefficients of the elements as elements of the base field, one
    /// element after the other.
    pub fn as_base_elements(elements: &[Self]) -> (r: Vec<B>)
        ensures
            r@ == quad_flatten(elements@),
    {
        let mut result: Vec<B> = Vec::new();
        let mut i: usize = 0;
        while i < elements.len()
            invariant
                i <= elements@.len(),
                result@.len() == 2 * i,
                forall|k: int| 0 <= k < 2 * i ==> #[trigger] result@[k] == quad_flatten(elements@)[k],
            decreases elements@.len() - i,
        {
            result.push(elements[i].0);
            result.push(elements[i].1);
            i = i + 1;
        }
        proof {
            assert(result@ =~= quad_flatten(elements@));
        }
        result
    }

    /// The bytes that the elements are held in: those of their coefficients,
    /// one after the other.
    pub fn elements_as_bytes(elements: &[Self]) -> (bytes: Vec<u8>)
        requires
            elements@.len() * 2 * B::num_bytes() <= usize::MAX,
        ensures
            bytes@ == raw_bytes_of::<B>(quad_flatten(elements@)),
    {
        let base = Self::as_base_elements(elements);
        buffers::elements_as_bytes(base.as_slice())
    }

    /// The elements held in a buffer that starts at `address`. The buffer must
    /// hold a whole number of elements, or else the length is invalid; and the
    /// address must be a multiple of the size of a base element, or else the
    /// alignment is.
    pub fn bytes_as_elements_at(bytes: &[u8], address: usize) -> (r: Result<
        Vec<Self>,
        SerializationError,
    >)
        ensures
            match r {
                Ok(elements) => bytes@.len() % (2 * B::num_bytes()) == 0 && address as int % (
                B::num_bytes() as int) == 0 && quad_flatten(elements@) == elements_in::<B>(bytes@),
                Err(e) => if bytes@.len() % (2 * B::num_bytes()) != 0 {
                    e == SerializationError::InvalidLength
                } else {
                    e == SerializationError::InvalidAlignment && address as int % (
                    B::num_bytes() as int) != 0
                },
            },
    {
        let nb = B::element_bytes();
        proof {
            B::lemma_field();
        }
        if bytes.len() % (2 * nb) != 0 {
            return Err(SerializationError::InvalidLength);
        }
        proof {
            // the length is a multiple of the size of a base element, and the
            // number of base elements a multiple of 2
            let len = bytes@.len() as int;
            vstd::arithmetic::div_mod::lemma_fundamental_div_mod(len, (2 * nb) as int);
            let q = len / ((2 * nb) as int);
            assert(len == nb * (2 * q) + 0) by (nonlinear_arith)
                requires
                    len == (2 * nb) * q,
            ;
            vstd::arithmetic::div_mod::lemma_fundamental_div_mod_converse(len, nb as int, 2 * q, 0);
            vstd::arithmetic::div_mod::lemma_fundamental_div_mod_converse(2 * q, 2, q, 0);
        }
        match buffers::bytes_as_elements_at::<B>(bytes, address) {
            Ok(base) => Ok(Self::base_to_quad_vector(base)),
            Err(e) => Err(e),
        }
    }

    /// The elements held in a buffer; see [`QuadExtensionA::bytes_as_elements_at`] for
    /// the demands on the buffer.
    pub fn bytes_as_elements(bytes: &[u8]) -> (r: Result<Vec<Self>, SerializationError>)
        ensures
            match r {
                Ok(elements) => bytes@.len() % (2 * B::num_bytes()) == 0 && quad_flatten(
                    elements@,
                ) == elements_in::<B>(bytes@),
                Err(e) => if bytes@.len() % (2 * B::num_bytes()) != 0 {
                    e == SerializationError::InvalidLength
                } else {
                    e == SerializationError::InvalidAlignment
                },
            },
    {
        Self::bytes_as_elements_at(bytes, start_address(bytes))
    }

    /// The element as bytes: the canonical encodings of its coefficients, lowest
    /// degree first, whatever form they are held in, so that
    /// [`QuadExtensionA::try_from`] reads the element back.
    pub fn as_bytes(&self) -> (bytes: Vec<u8>)
        ensures
            bytes@ == encoding_of::<B>(self.components()),
    {
        self.to_bytes()
    }

    /// The canonical encoding of the element: those of its coefficients, lowest
    /// degree first.
    pub fn to_bytes(&self) -> (bytes: Vec<u8>)
        ensures
            bytes@ == encoding_of::<B>(self.components()),
    {
        let parts = self.to_base_elements();
        buffers::elements_to_bytes(parts.as_slice())
    }

    /// Appends the canonical encoding of the element to `target`.
    pub fn write_into(&self, target: &mut Vec<u8>)
        ensures
            final(target)@ == old(target)@ + encoding_of::<B>(self.components()),
    {
        let mut bytes = self.to_bytes();
        target.append(&mut bytes);
    }

    /// Reads an element from its canonical encoding: exactly 2 times the
    /// size of a base element in bytes, each run of which encodes a residue
    /// below the modulus.
    pub fn try_from(bytes: &[u8]) -> (r: Result<Self, SerializationError>)
        ensures
            match r {
                Ok(e) => bytes@ == encoding_of::<B>(e.components()),
                Err(err) => err == SerializationError::InvalidFieldElement && !is_encoding_of_many::<
                    B,
                >(bytes@, 2),
            },
    {
        proof {
            B::lemma_field();
        }
        match buffers::elements_from_encoding::<B>(bytes, 2) {
            Ok(parts) => {
                let e = QuadExtensionA(parts[0], parts[1]);
                proof {
                    assert(parts@ =~= e.components());
                }
                Ok(e)
            },
            Err(err) => Err(err),
        }
    }

    /// Reads an element from the canonical encoding that `source` starts with.
    pub fn read_from(source: &[u8]) -> (r: Result<Self, SerializationError>)
        ensures
            match r {
                Ok(e) => source@.len() >= 2 * B::num_bytes() && source@.subrange(
                    0,
                    2 * B::num_bytes() as int,
                ) == encoding_of::<B>(e.components()),
                Err(err) => err == SerializationError::InvalidFieldElement && (source@.len() < 2
                    * B::num_bytes() || !is_encoding_of_many::<B>(
                    source@.subrange(0, 2 * B::num_bytes() as int),
                    2,
                )),
            },
    {
        let nb = B::element_bytes();
        proof {
            B::lemma_field();
        }
        if source.len() < 2 * nb {
            return Err(SerializationError::InvalidFieldElement);
        }
        Self::try_from(vstd::slice::slice_subrange(source, 0, 2 * nb))
    }

    /// An element read from random bytes as from its canonical encoding; none
    /// where the bytes are no such encoding.
    pub fn from_random_bytes(bytes: &[u8]) -> (r: Option<Self>)
        ensures
            match r {
                Some(e) => bytes@ == encoding_of::<B>(e.components()),
                None => !is_encoding_of_many::<B>(bytes@, 2),
            },
    {
        match Self::try_from(bytes) {
            Ok(e) => Some(e),
            Err(_) => None,
        }
    }

    /// Brings the coefficients to their reduced form; the element stays the
    /// same.
    pub fn normalize(&mut self)
        ensures
            final(self)@ == old(self)@,
            forall|i: int| 0 <= i < 2 ==> (#[trigger] final(self).components()[i]).is_normalized(),
    {
        self.0.normalize();
        self.1.normalize();
    }

    /// The element with the base element `value` as constant coefficient.
    pub fn from_u128(value: u128) -> (r: Self)
        ensures
            r@ == lift_coeffs((value as int) % B::modulus(), 2),
    {
        let r = QuadExtensionA(B::from_u128(value), B::zero());
        proof {
            assert(r@ =~= lift_coeffs((value as int) % B::modulus(), 2));
        }
        r
    }

    /// The quotient: the product with the inverse of `rhs`, and so zero where
    /// `rhs` has none.
    pub fn div(self, rhs: Self) -> (r: Self)
        ensures
            r@ == <Self as FieldElement>::mul_spec(self@, <Self as FieldElement>::inv_spec(rhs@)),
    {
        self.mul(rhs.inv())
    }

    /// The text of the element: the decimal residues of its coefficients, in
    /// parentheses.
    pub fn to_string(&self) -> (s: String)
        ensures
            s@ == "("@ + decimal(self.0.value() as nat) + ", "@ + decimal(self.1.value() as nat) + ")"@,
    {
        let s = String::from_str("(");
        let s = s.concat(self.0.to_string().as_str());
        let s = s.concat(", ");
        let s = s.concat(self.1.to_string().as_str());
        let s = s.concat(")");
        proof {
            assert(s@ =~= "("@ + decimal(self.0.value() as nat) + ", "@ + decimal(self.1.value() as nat) + ")"@);
        }
        s
    }
}

impl<B: QuadExtensible> QuadExtensionA<B> {
    /// The additive identity.
    pub fn zero() -> (r: Self)
        ensures
            r@ == zero_coeffs(2),
    {
        <Self as FieldElement>::zero()
    }

    /// The multiplicative identity.
    pub fn one() -> (r: Self)
        ensures
            r@ == lift_coeffs(1, 2),
    {
        <Self as FieldElement>::one()
    }

    /// Field addition, coefficient by coefficient.
    pub fn add(self, rhs: Self) -> (r: Self)
        ensures
            r@ == add_coeffs(self@, rhs@, B::modulus()),
    {
        FieldElement::add(self, rhs)
    }

    /// Field subtraction, coefficient by coefficient.
    pub fn sub(self, rhs: Self) -> (r: Self)
        ensures
            r@ == sub_coeffs(self@, rhs@, B::modulus()),
    {
        FieldElement::sub(self, rhs)
    }

    /// Field multiplication.
    pub fn mul(self, rhs: Self) -> (r: Self)
        ensures
            r@ == quad_mul(self@, rhs@, B::modulus()),
    {
        FieldElement::mul(self, rhs)
    }

    /// Additive inverse, coefficient by coefficient.
    pub fn neg(self) -> (r: Self)
        ensures
            r@ == neg_coeffs(self@, B::modulus()),
    {
        FieldElement::neg(self)
    }
}

impl<B: QuadExtensible> core::ops::Add for QuadExtensionA<B> {
    type Output = Self;

    fn add(self, rhs: Self) -> (r: Self)
        ensures
            r@ == add_coeffs(self@, rhs@, B::modulus()),
    {
        QuadExtensionA::add(self, rhs)
    }
}

impl<B: QuadExtensible> AddSpecImpl for QuadExtensionA<B> {
    open spec fn obeys_add_spec() -> bool {
        false
    }

    open spec fn add_req(self, rhs: Self) -> bool {
        true
    }

    open spec fn add_spec(self, rhs: Self) -> Self {
        self
    }
}

impl<B: QuadExtensible> core::ops::AddAssign for QuadExtensionA<B> {
    fn add_assign(&mut self, rhs: Self)
        ensures
            final(self)@ == add_coeffs(old(self)@, rhs@, B::modulus()),
    {
        *self = QuadExtensionA::add(*self, rhs);
    }
}

impl<B: QuadExtensible> core::ops::Sub for QuadExtensionA<B> {
    type Output = Self;

    fn sub(self, rhs: Self) -> (r: Self)
        ensures
            r@ == sub_coeffs(self@, rhs@, B::modulus()),
    {
        QuadExtensionA::sub(self, rhs)
    }
}

impl<B: QuadExtensible> SubSpecImpl for QuadExtensionA<B> {
    open spec fn obeys_sub_spec() -> bool {
        false
    }

    open spec fn sub_req(self, rhs: Self) -> bool {
        true
    }

    open spec fn sub_spec(self, rhs: Self) -> Self {
        self
    }
}

impl<B: QuadExtensible> core::ops::SubAssign for QuadExtensionA<B> {
    fn sub_assign(&mut self, rhs: Self)
        ensures
            final(self)@ == sub_coeffs(old(self)@, rhs@, B::modulus()),
    {
        *self = QuadExtensionA::sub(*self, rhs);
    }
}

impl<B: QuadExtensible> core::ops::Mul for QuadExtensionA<B> {
    type Output = Self;

    fn mul(self, rhs: Self) -> (r: Self)
        ensures
            r@ == quad_mul(self@, rhs@, B::modulus()),
    {
        QuadExtensionA::mul(self, rhs)
    }
}

impl<B: QuadExtensible> MulSpecImpl for QuadExtensionA<B> {
    open spec fn obeys_mul_spec() -> bool {
        false
    }

    open spec fn mul_req(self, rhs: Self) -> bool {
        true
    }

    open spec fn mul_spec(self, rhs: Self) -> Self {
        self
    }
}

impl<B: QuadExtensible> core::ops::MulAssign for QuadExtensionA<B> {
    fn mul_assign(&mut self, rhs: Self)
        ensures
            final(self)@ == quad_mul(old(self)@, rhs@, B::modulus()),
    {
        *self = QuadExtensionA::mul(*self, rhs);
    }
}

impl<B: QuadExtensible> core::ops::Div for QuadExtensionA<B> {
    type Output = Self;

    fn div(self, rhs: Self) -> (r: Self)
        ensures
            r@ == quad_mul(self@, quad_inv(rhs@, B::modulus()), B::modulus()),
    {
        QuadExtensionA::div(self, rhs)
    }
}

impl<B: QuadExtensible> DivSpecImpl for QuadExtensionA<B> {
    open spec fn obeys_div_spec() -> bool {
        false
    }

    open spec fn div_req(self, rhs: Self) -> bool {
        true
    }

    open spec fn div_spec(self, rhs: Self) -> Self {
        self
    }
}

impl<B: QuadExtensible> core::ops::DivAssign for QuadExtensionA<B> {
    fn div_assign(&mut self, rhs: Self)
        ensures
            final(self)@ == quad_mul(old(self)@, quad_inv(rhs@, B::modulus()), B::modulus()),
    {
        *self = QuadExtensionA::div(*self, rhs);
    }
}

impl<B: QuadExtensible> core::ops::Neg for QuadExtensionA<B> {
    type Output = Self;

    fn neg(self) -> (r: Self)
        ensures
            r@ == neg_coeffs(self@, B::modulus()),
    {
        QuadExtensionA::neg(self)
    }
}

impl<B: QuadExtensible> NegSpecImpl for QuadExtensionA<B> {
    open spec fn obeys_neg_spec() -> bool {
        false
    }

    open spec fn neg_req(self) -> bool {
        true
    }

    open spec fn neg_spec(self) -> Self {
        self
    }
}

impl<B: QuadExtensible> From<B> for QuadExtensionA<B> {
    fn from(value: B) -> (r: Self)
        ensures
            r@ == lift_coeffs(value.value(), 2),
    {
        FieldElement::from_base(value)
    }
}

impl<B: QuadExtensible> FromSpecImpl<B> for QuadExtensionA<B> {
    open spec fn obeys_from_spec() -> bool {
        false
    }

    open spec fn from_spec(value: B) -> Self {
        arbitrary()
    }
}

impl<B: QuadExtensible> From<u128> for QuadExtensionA<B> {
    fn from(value: u128) -> (r: Self)
        ensures
            r@ == lift_coeffs((value as int) % B::modulus(), 2),
    {
        QuadExtensionA::from_u128(value)
    }
}

impl<B: QuadExtensible> FromSpecImpl<u128> for QuadExtensionA<B> {
    open spec fn obeys_from_spec() -> bool {
        false
    }

    open spec fn from_spec(value: u128) -> Self {
        arbitrary()
    }
}

impl<B: QuadExtensible> From<u64> for QuadExtensionA<B> {
    fn from(value: u64) -> (r: Self)
        ensures
            r@ == lift_coeffs((value as int) % B::modulus(), 2),
    {
        QuadExtensionA::from_u128(value as u128)
    }
}

impl<B: QuadExtensible> FromSpecImpl<u64> for QuadExtensionA<B> {
    open spec fn obeys_from_spec() -> bool {
        false
    }

    open spec fn from_spec(value: u64) -> Self {
        arbitrary()
    }
}

impl<B: QuadExtensible> From<u32> for QuadExtensionA<B> {
    fn from(value: u32) -> (r: Self)
        ensures
            r@ == lift_coeffs((value as int) % B::modulus(), 2),
    {
        QuadExtensionA::from_u128(value as u128)
    }
}

impl<B: QuadExtensible> FromSpecImpl<u32> for QuadExtensionA<B> {
    open spec fn obeys_from_spec() -> bool {
        false
    }

    open spec fn from_spec(value: u32) -> Self {
        arbitrary()
    }
}

impl<B: QuadExtensible> From<u16> for QuadExtensionA<B> {
    fn from(value: u16) -> (r: Self)
        ensures
            r@ == lift_coeffs((value as int) % B::modulus(), 2),
    {
        QuadExtensionA::from_u128(value as u128)
    }
}

impl<B: QuadExtensible> FromSpecImpl<u16> for QuadExtensionA<B> {
    open spec fn obeys_from_spec() -> bool {
        false
    }

    open spec fn from_spec(value: u16) -> Self {
        arbitrary()
    }
}

impl<B: QuadExtensible> From<u8> for QuadExtensionA<B> {
    fn from(value: u8) -> (r: Self)
        ensures
            r@ == lift_coeffs((value as int) % B::modulus(), 2),
    {
        QuadExtensionA::from_u128(value as u128)
    }
}

impl<B: QuadExtensible> FromSpecImpl<u8> for QuadExtensionA<B> {
    open spec fn obeys_from_spec() -> bool {
        false
    }

    open spec fn from_spec(value: u8) -> Self {
        arbitrary()
    }
}

} // verus!

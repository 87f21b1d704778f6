//! The cubic extension of a prime field by a root of the irreducible polynomial
//! that the field supplies.

use vstd::prelude::*;
use vstd::std_specs::cmp::PartialEqSpecImpl;
use vstd::std_specs::convert::FromSpecImpl;
use vstd::std_specs::ops::{AddSpecImpl, SubSpecImpl, MulSpecImpl, DivSpecImpl, NegSpecImpl};
use vstd::arithmetic::div_mod::*;
use vstd::string::StringExecFns;
use crate::bytes::start_address;
use crate::errors::SerializationError;
use crate::field::buffers;
use crate::field::buffers::{raw_bytes_of, elements_in, encoding_of, is_encoding_of_many};
use crate::text::decimal;
use crate::field::modular::finv;
use crate::field::power::exp_by_repr;
use crate::field::traits::{
    ExtensibleField, FieldElement, StarkField, lift_coeffs, zero_coeffs, add_coeffs, sub_coeffs,
    neg_coeffs, residues, scale_coeffs, valid_coeffs,
};

verus! {

/// The `k`-fold product of `a` with itself in the cubic extension of the field
/// of `B`.
pub open spec fn cubic_pow<B: ExtensibleField<3>>(a: Seq<int>, k: nat) -> Seq<int>
    decreases k,
{
    if k == 0 {
        lift_coeffs(1, 3)
    } else {
        B::ext_mul_spec(a, cubic_pow::<B>(a, (k - 1) as nat))
    }
}

/// The product of the two conjugates of `a`: of its images under the Frobenius
/// map and under that map applied twice.
pub open spec fn cubic_cofactor<B: ExtensibleField<3>>(a: Seq<int>) -> Seq<int> {
    let c1 = B::frobenius_spec(a);
    let c2 = B::frobenius_spec(c1);
    B::ext_mul_spec(c1, c2)
}

/// The norm of `a` over the base field: the product of `a` with its two
/// conjugates.
pub open spec fn cubic_norm<B: ExtensibleField<3>>(a: Seq<int>) -> Seq<int> {
    B::ext_mul_spec(a, cubic_cofactor::<B>(a))
}

/// The result of inversion: zero for zero, and else the product of the two
/// conjugates divided by the constant coefficient of the norm.
pub open spec fn cubic_inv<B: ExtensibleField<3>>(a: Seq<int>) -> Seq<int> {
    if a == zero_coeffs(3) {
        a
    } else {
        scale_coeffs(
            cubic_cofactor::<B>(a),
            finv(cubic_norm::<B>(a)[0], B::modulus()),
            B::modulus(),
        )
    }
}

/// An element `a + b * x + c * x^2` of the cubic extension of the field of `B`
/// by a root `x` of the irreducible polynomial that `B` supplies, held as the
/// triple `(a, b, c)`.
#[derive(Copy, Debug)]
pub struct CubeExtension<B: ExtensibleField<3>>(pub B, pub B, pub B);

impl<B: ExtensibleField<3>> Clone for CubeExtension<B> {
    fn clone(&self) -> (r: Self)
        ensures
            r == *self,
    {
        *self
    }
}

impl<B: ExtensibleField<3>> Default for CubeExtension<B> {
    fn default() -> (r: Self)
        ensures
            r@ == zero_coeffs(3),
    {
        let r = CubeExtension(B::zero(), B::zero(), B::zero());
        proof {
            assert(r@ =~= zero_coeffs(3));
        }
        r
    }
}

impl<B: ExtensibleField<3>> PartialEq for CubeExtension<B> {
    fn eq(&self, other: &Self) -> (r: bool) {
        let r = self.0.equals(&other.0) && self.1.equals(&other.1) && self.2.equals(&other.2);
        proof {
            if self@ == other@ {
                assert(self@[0] == other@[0] && self@[1] == other@[1] && self@[2] == other@[2]);
            }
            if r {
                assert(self@ =~= other@);
            }
        }
        r
    }
}

impl<B: ExtensibleField<3>> PartialEqSpecImpl for CubeExtension<B> {
    open spec fn obeys_eq_spec() -> bool {
        true
    }

    open spec fn eq_spec(&self, other: &Self) -> bool {
        self@ == other@
    }
}

impl<B: ExtensibleField<3>> Eq for CubeExtension<B> {

}

impl<B: ExtensibleField<3>> CubeExtension<B> {
    /// The element `a + b * x + c * x^2`.
    pub fn new(a: B, b: B, c: B) -> (r: Self)
        ensures
            r == CubeExtension(a, b, c),
    {
        CubeExtension(a, b, c)
    }

    /// The residues of the three coefficients.
    pub open spec fn view(&self) -> Seq<int> {
        seq![self.0.value(), self.1.value(), self.2.value()]
    }

    /// The element raised to `power`; one for `power` zero, whatever the element.
    pub fn exp(self, power: B::Representation) -> (r: Self)
        ensures
            r@ == cubic_pow::<B>(self@, B::repr_value(power) as nat),
    {
        exp_by_repr(self, power)
    }

    /// Whether the element is zero.
    pub fn is_zero(&self) -> (r: bool)
        ensures
            r == (self@ == zero_coeffs(3)),
    {
        let zero = B::zero();
        let r = self.0.equals(&zero) && self.1.equals(&zero) && self.2.equals(&zero);
        proof {
            if self@ == zero_coeffs(3) {
                assert(self@[0] == 0 && self@[1] == 0 && self@[2] == 0);
            }
            if r {
                assert(self@ =~= zero_coeffs(3));
            }
        }
        r
    }
}

impl<B: ExtensibleField<3>> FieldElement for CubeExtension<B> {
    type BaseField = B;

    open spec fn degree() -> nat {
        3
    }

    open spec fn coeffs(&self) -> Seq<int> {
        self@
    }

    open spec fn mul_spec(a: Seq<int>, b: Seq<int>) -> Seq<int> {
        B::ext_mul_spec(a, b)
    }

    open spec fn pow_spec(a: Seq<int>, k: nat) -> Seq<int> {
        cubic_pow::<B>(a, k)
    }

    open spec fn inv_spec(a: Seq<int>) -> Seq<int> {
        cubic_inv::<B>(a)
    }

    open spec fn conjugate_spec(a: Seq<int>) -> Seq<int> {
        B::frobenius_spec(a)
    }

    proof fn lemma_coeffs(&self) {
        self.0.lemma_value();
        self.1.lemma_value();
        self.2.lemma_value();
    }

    proof fn lemma_pow_spec(a: Seq<int>, k: nat) {
        reveal_with_fuel(cubic_pow, 2);
    }

    proof fn lemma_mul_closed(a: Seq<int>, b: Seq<int>) {
        B::lemma_ext_closed(a, b);
    }

    proof fn lemma_mul_commutative(a: Seq<int>, b: Seq<int>) {
        B::lemma_ext_mul_commutative(a, b);
    }

    proof fn lemma_mul_associative(a: Seq<int>, b: Seq<int>, c: Seq<int>) {
        B::lemma_ext_mul_associative(a, b, c);
    }

    proof fn lemma_mul_one(a: Seq<int>) {
        B::lemma_ext_mul_one(a);
    }

    proof fn lemma_mul_zero(a: Seq<int>) {
        // a * 0 is (a * a) * 0, which is zero
        let p = B::modulus();
        B::lemma_field();
        B::lemma_ext_closed(a, a);
        B::lemma_ext_mul_scale(a, a, 0);
        let product = B::ext_mul_spec(a, a);
        lemma_small_mod(0, p as nat);
        assert forall|i: int| 0 <= i < 3 implies #[trigger] scale_coeffs(a, 0, p)[i] == 0 by {
            assert(a[i] * 0 == 0);
        }
        assert forall|i: int| 0 <= i < 3 implies #[trigger] scale_coeffs(product, 0, p)[i]
            == 0 by {
            assert(product[i] * 0 == 0);
        }
        assert(scale_coeffs(a, 0, p) =~= zero_coeffs(3));
        assert(scale_coeffs(product, 0, p) =~= zero_coeffs(3));
        assert(valid_coeffs(zero_coeffs(3), 3, p));
        B::lemma_ext_mul_commutative(a, zero_coeffs(3));
    }

    proof fn lemma_inv_spec(a: Seq<int>) {
        let p = B::modulus();
        B::lemma_field();
        if a != zero_coeffs(3) {
            let c1 = B::frobenius_spec(a);
            let c2 = B::frobenius_spec(c1);
            B::lemma_ext_closed(a, a);
            B::lemma_ext_closed(c1, c1);
            B::lemma_ext_closed(c1, c2);
            let cofactor = cubic_cofactor::<B>(a);
            let d = finv(cubic_norm::<B>(a)[0], p);
            assert forall|i: int| 0 <= i < 3 implies 0 <= #[trigger] scale_coeffs(
                cofactor,
                d,
                p,
            )[i] < p by {
                lemma_mod_bound(cofactor[i] * d, p);
            }
        }
        crate::field::laws::lemma_cubic_inverse_of::<B>(a);
    }

    fn zero() -> (r: Self) {
        let r = CubeExtension(B::zero(), B::zero(), B::zero());
        proof {
            assert(r@ =~= zero_coeffs(3));
        }
        r
    }

    fn one() -> (r: Self) {
        let r = CubeExtension(B::one(), B::zero(), B::zero());
        proof {
            assert(r@ =~= lift_coeffs(1, 3));
        }
        r
    }

    fn from_base(b: B) -> (r: Self) {
        let r = CubeExtension(b, B::zero(), B::zero());
        proof {
            assert(r@ =~= lift_coeffs(b.value(), 3));
        }
        r
    }

    fn add(self, rhs: Self) -> (r: Self) {
        let r = CubeExtension(self.0.add(rhs.0), self.1.add(rhs.1), self.2.add(rhs.2));
        proof {
            assert(r@ =~= add_coeffs(self@, rhs@, B::modulus()));
        }
        r
    }

    fn sub(self, rhs: Self) -> (r: Self) {
        let r = CubeExtension(self.0.sub(rhs.0), self.1.sub(rhs.1), self.2.sub(rhs.2));
        proof {
            assert(r@ =~= sub_coeffs(self@, rhs@, B::modulus()));
        }
        r
    }

    fn mul(self, rhs: Self) -> (r: Self) {
        let a = [self.0, self.1, self.2];
        let b = [rhs.0, rhs.1, rhs.2];
        let result = B::ext_mul(a, b);
        let r = CubeExtension(result[0], result[1], result[2]);
        proof {
            assert(residues(a@) =~= self@);
            assert(residues(b@) =~= rhs@);
            assert(r@ =~= residues(result@));
        }
        r
    }

    fn square(self) -> (r: Self) {
        self.mul(self)
    }

    fn neg(self) -> (r: Self) {
        let r = CubeExtension(self.0.neg(), self.1.neg(), self.2.neg());
        proof {
            assert(r@ =~= neg_coeffs(self@, B::modulus()));
        }
        r
    }

    fn inv(self) -> (r: Self) {
        proof {
            self.lemma_coeffs();
            Self::lemma_inv_spec(self.coeffs());
        }
        if self.is_zero() {
            return self;
        }
        let x = [self.0, self.1, self.2];
        let c1 = B::frobenius(x);
        let c2 = B::frobenius(c1);
        let numerator = B::ext_mul(c1, c2);
        let norm = B::ext_mul(x, numerator);
        let denom_inv = norm[0].inv();
        let r = CubeExtension(
            numerator[0].mul(denom_inv),
            numerator[1].mul(denom_inv),
            numerator[2].mul(denom_inv),
        );
        proof {
            assert(residues(x@) =~= self@);
            assert(r@ =~= cubic_inv::<B>(self@));
        }
        r
    }

    fn conjugate(&self) -> (r: Self) {
        let x = [self.0, self.1, self.2];
        let result = B::frobenius(x);
        let r = CubeExtension(result[0], result[1], result[2]);
        proof {
            assert(residues(x@) =~= self@);
            assert(r@ =~= residues(result@));
        }
        r
    }

    fn equals(&self, other: &Self) -> (r: bool) {
        let r = self.0.equals(&other.0) && self.1.equals(&other.1) && self.2.equals(&other.2);
        proof {
            if self@ == other@ {
                assert(self@[0] == other@[0] && self@[1] == other@[1] && self@[2] == other@[2]);
            }
            if r {
                assert(self@ =~= other@);
            }
        }
        r
    }
}

/// The coefficients of a sequence of elements, one element after the other.
pub open spec fn cubic_flatten<B: ExtensibleField<3>>(elements: Seq<CubeExtension<B>>) -> Seq<B> {
    Seq::new(
        elements.len() * 3,
        |i: int|
            if i % 3 == 0 {
                elements[i / 3].0
            } else if i % 3 == 1 {
                elements[i / 3].1
            } else {
                elements[i / 3].2
            },
    )
}

impl<B: ExtensibleField<3>> CubeExtension<B> {
    /// The coefficients of the element.
    pub open spec fn components(&self) -> Seq<B> {
        seq![self.0, self.1, self.2]
    }

    /// Number of bytes that one element is written in: 3 times that of a base
    /// element.
    pub fn element_bytes() -> (n: usize)
        ensures
            n == 3 * B::num_bytes(),
    {
        proof {
            B::lemma_field();
        }
        3 * B::element_bytes()
    }

    /// Whether the coefficients of every element that the operations return
    /// are held as their canonical residues.
    pub fn is_canonical() -> (r: bool)
        ensures
            r == B::canonical(),
    {
        B::is_canonical()
    }

    /// The coefficients of the element, lowest degree first.
    pub fn to_base_elements(&self) -> (parts: Vec<B>)
        ensures
            parts@ == self.components(),
    {
        let mut parts: Vec<B> = Vec::new();
        parts.push(self.0);
        parts.push(self.1);
        parts.push(self.2);
        proof {
            assert(parts@ =~= self.components());
        }
        parts
    }

    /// Fuses each 3 adjacent base elements into one element of the extension.
    pub fn base_to_quad_vector(source: Vec<B>) -> (r: Vec<Self>)
        requires
            source@.len() % 3 == 0,
        ensures
            r@.len() == source@.len() / 3,
            cubic_flatten(r@) == source@,
    {
        let total = source.len();
        let n = total / 3;
        let mut result: Vec<Self> = Vec::new();
        let mut i: usize = 0;
        while i < n
            invariant
                total == source@.len(),
                n == source@.len() / 3,
                source@.len() % 3 == 0,
                i <= n,
                result@.len() == i,
                forall|k: int| 0 <= k < 3 * i ==> #[trigger] cubic_flatten(result@)[k] == source@[k],
            decreases n - i,
        {
            let ghost before = result@;
            result.push(CubeExtension(source[3 * i], source[3 * i + 1], source[3 * i + 2]));
            proof {
                assert forall|k: int| 0 <= k < 3 * (i + 1) implies #[trigger] cubic_flatten(
                    result@,
                )[k] == source@[k] by {
                    if k < 3 * i {
                        assert(cubic_flatten(before)[k] == source@[k]);
                        assert(result@[k / 3] == before[k / 3]);
                    }
                }
            }
            i = i + 1;
        }
        proof {
            assert(cubic_flatten(result@) =~= source@);
        }
        result
    }

    /// A vector of `n` zeros.
    pub fn zeroed_vector(n: usize) -> (r: Vec<Self>)
        requires
            n * 3 <= usize::MAX,
        ensures
            r@.len() == n,
            forall|i: int| 0 <= i < n ==> (#[trigger] r@[i])@ == zero_coeffs(3),
    {
        let zeros = buffers::zeroed_vector::<B>(n * 3);
        let result = Self::base_to_quad_vector(zeros);
        proof {
            assert forall|i: int| 0 <= i < n implies (#[trigger] result@[i])@ == zero_coeffs(3) by {
                let flat = cubic_flatten(result@);
                                assert(flat[3 * i + 0] == result@[i].0);
                assert(flat[3 * i + 1] == result@[i].1);
                assert(flat[3 * i + 2] == result@[i].2);
                assert(result@[i]@ =~= zero_coeffs(3));
            }
        }
        result
    }

    /// The coefficients of the elements as elements of the base field, one
    /// element after the other.
    pub fn as_base_elements(elements: &[Self]) -> (r: Vec<B>)
        ensures
            r@ == cubic_flatten(elements@),
    {
        let mut result: Vec<B> = Vec::new();
        let mut i: usize = 0;
        while i < elements.len()
            invariant
                i <= elements@.len(),
                result@.len() == 3 * i,
                forall|k: int| 0 <= k < 3 * i ==> #[trigger] result@[k] == cubic_flatten(elements@)[k],
            decreases elements@.len() - i,
        {
            result.push(elements[i].0);
            result.push(elements[i].1);
            result.push(elements[i].2);
            i = i + 1;
        }
        proof {
            assert(result@ =~= cubic_flatten(elements@));
        }
        result
    }

    /// The bytes that the elements are held in: those of their coefficients,
    /// one after the other.
    pub fn elements_as_bytes(elements: &[Self]) -> (bytes: Vec<u8>)
        requires
            elements@.len() * 3 * B::num_bytes() <= usize::MAX,
        ensures
            bytes@ == raw_bytes_of::<B>(cubic_flatten(elements@)),
    {
        let base = Self::as_base_elements(elements);
        buffers::elements_as_bytes(base.as_slice())
    }

    /// The elements held in a buffer that starts at `address`. The buffer must
    /// hold a whole number of elements, or else the length is invalid; and the
    /// address must be a multiple of the size of a base element, or else the
    /// alignment is.
    pub fn bytes_as_elements_at(bytes: &[u8], address: usize) -> (r: Result<
        Vec<Self>,
        SerializationError,
    >)
        ensures
            match r {
                Ok(elements) => bytes@.len() % (3 * B::num_bytes()) == 0 && address as int % (
                B::num_bytes() as int) == 0 && cubic_flatten(elements@) == elements_in::<B>(bytes@),
                Err(e) => if bytes@.len() % (3 * B::num_bytes()) != 0 {
                    e == SerializationError::InvalidLength
                } else {
                    e == SerializationError::InvalidAlignment && address as int % (
                    B::num_bytes() as int) != 0
                },
            },
    {
        let nb = B::element_bytes();
        proof {
            B::lemma_field();
        }
        if bytes.len() % (3 * nb) != 0 {
            return Err(SerializationError::InvalidLength);
        }
        proof {
            // the length is a multiple of the size of a base element, and the
            // number of base elements a multiple of 3
            let len = bytes@.len() as int;
            vstd::arithmetic::div_mod::lemma_fundamental_div_mod(len, (3 * nb) as int);
            let q = len / ((3 * nb) as int);
            assert(len == nb * (3 * q) + 0) by (nonlinear_arith)
                requires
                    len == (3 * nb) * q,
            ;
            vstd::arithmetic::div_mod::lemma_fundamental_div_mod_converse(len, nb as int, 3 * q, 0);
            vstd::arithmetic::div_mod::lemma_fundamental_div_mod_converse(3 * q, 3, q, 0);
        }
        match buffers::bytes_as_elements_at::<B>(bytes, address) {
            Ok(base) => Ok(Self::base_to_quad_vector(base)),
            Err(e) => Err(e),
        }
    }

    /// The elements held in a buffer; see [`CubeExtension::bytes_as_elements_at`] for
    /// the demands on the buffer.
    pub fn bytes_as_elements(bytes: &[u8]) -> (r: Result<Vec<Self>, SerializationError>)
        ensures
            match r {
                Ok(elements) => bytes@.len() % (3 * B::num_bytes()) == 0 && cubic_flatten(
                    elements@,
                ) == elements_in::<B>(bytes@),
                Err(e) => if bytes@.len() % (3 * B::num_bytes()) != 0 {
                    e == SerializationError::InvalidLength
                } else {
                    e == SerializationError::InvalidAlignment
                },
            },
    {
        Self::bytes_as_elements_at(bytes, start_address(bytes))
    }

    /// The element as bytes: the canonical encodings of its coefficients, lowest
    /// degree first, whatever form they are held in, so that
    /// [`CubeExtension::try_from`] reads the element back.
    pub fn as_bytes(&self) -> (bytes: Vec<u8>)
        ensures
            bytes@ == encoding_of::<B>(self.components()),
    {
        self.to_bytes()
    }

    /// The canonical encoding of the element: those of its coefficients, lowest
    /// degree first.
    pub fn to_bytes(&self) -> (bytes: Vec<u8>)
        ensures
            bytes@ == encoding_of::<B>(self.components()),
    {
        let parts = self.to_base_elements();
        buffers::elements_to_bytes(parts.as_slice())
    }

    /// Appends the canonical encoding of the element to `target`.
    pub fn write_into(&self, target: &mut Vec<u8>)
        ensures
            final(target)@ == old(target)@ + encoding_of::<B>(self.components()),
    {
        let mut bytes = self.to_bytes();
        target.append(&mut bytes);
    }

    /// Reads an element from its canonical encoding: exactly 3 times the
    /// size of a base element in bytes, each run of which encodes a residue
    /// below the modulus.
    pub fn try_from(bytes: &[u8]) -> (r: Result<Self, SerializationError>)
        ensures
            match r {
                Ok(e) => bytes@ == encoding_of::<B>(e.components()),
                Err(err) => err == SerializationError::InvalidFieldElement && !is_encoding_of_many::<
                    B,
                >(bytes@, 3),
            },
    {
        proof {
            B::lemma_field();
        }
        match buffers::elements_from_encoding::<B>(bytes, 3) {
            Ok(parts) => {
                let e = CubeExtension(parts[0], parts[1], parts[2]);
                proof {
                    assert(parts@ =~= e.components());
                }
                Ok(e)
            },
            Err(err) => Err(err),
        }
    }

    /// Reads an element from the canonical encoding that `source` starts with.
    pub fn read_from(source: &[u8]) -> (r: Result<Self, SerializationError>)
        ensures
            match r {
                Ok(e) => source@.len() >= 3 * B::num_bytes() && source@.subrange(
                    0,
                    3 * B::num_bytes() as int,
                ) == encoding_of::<B>(e.components()),
                Err(err) => err == SerializationError::InvalidFieldElement && (source@.len() < 3
                    * B::num_bytes() || !is_encoding_of_many::<B>(
                    source@.subrange(0, 3 * B::num_bytes() as int),
                    3,
                )),
            },
    {
        let nb = B::element_bytes();
        proof {
            B::lemma_field();
        }
        if source.len() < 3 * nb {
            return Err(SerializationError::InvalidFieldElement);
        }
        Self::try_from(vstd::slice::slice_subrange(source, 0, 3 * nb))
    }

    /// An element read from random bytes as from its canonical encoding; none
    /// where the bytes are no such encoding.
    pub fn from_random_bytes(bytes: &[u8]) -> (r: Option<Self>)
        ensures
            match r {
                Some(e) => bytes@ == encoding_of::<B>(e.components()),
                None => !is_encoding_of_many::<B>(bytes@, 3),
            },
    {
        match Self::try_from(bytes) {
            Ok(e) => Some(e),
            Err(_) => None,
        }
    }

    /// Brings the coefficients to their reduced form; the element stays the
    /// same.
    pub fn normalize(&mut self)
        ensures
            final(self)@ == old(self)@,
            forall|i: int| 0 <= i < 3 ==> (#[trigger] final(self).components()[i]).is_normalized(),
    {
        self.0.normalize();
        self.1.normalize();
        self.2.normalize();
    }

    /// The element with the base element `value` as constant coefficient.
    pub fn from_u128(value: u128) -> (r: Self)
        ensures
            r@ == lift_coeffs((value as int) % B::modulus(), 3),
    {
        let r = CubeExtension(B::from_u128(value), B::zero(), B::zero());
        proof {
            assert(r@ =~= lift_coeffs((value as int) % B::modulus(), 3));
        }
        r
    }

    /// The quotient: the product with the inverse of `rhs`, and so zero where
    /// `rhs` has none.
    pub fn div(self, rhs: Self) -> (r: Self)
        ensures
            r@ == <Self as FieldElement>::mul_spec(self@, <Self as FieldElement>::inv_spec(rhs@)),
    {
        self.mul(rhs.inv())
    }

    /// The text of the element: the decimal residues of its coefficients, in
    /// parentheses.
    pub fn to_string(&self) -> (s: String)
        ensures
            s@ == "("@ + decimal(self.0.value() as nat) + ", "@ + decimal(self.1.value() as nat) + ", "@ + decimal(self.2.value() as nat) + ")"@,
    {
        let s = String::from_str("(");
        let s = s.concat(self.0.to_string().as_str());
        let s = s.concat(", ");
        let s = s.concat(self.1.to_string().as_str());
        let s = s.concat(", ");
        let s = s.concat(self.2.to_string().as_str());
        let s = s.concat(")");
        proof {
            assert(s@ =~= "("@ + decimal(self.0.value() as nat) + ", "@ + decimal(self.1.value() as nat) + ", "@ + decimal(self.2.value() as nat) + ")"@);
        }
        s
    }
}

impl<B: ExtensibleField<3>> CubeExtension<B> {
    /// The additive identity.
    pub fn zero() -> (r: Self)
        ensures
            r@ == zero_coeffs(3),
    {
        <Self as FieldElement>::zero()
    }

    /// The multiplicative identity.
    pub fn one() -> (r: Self)
        ensures
            r@ == lift_coeffs(1, 3),
    {
        <Self as FieldElement>::one()
    }

    /// Field addition, coefficient by coefficient.
    pub fn add(self, rhs: Self) -> (r: Self)
        ensures
            r@ == add_coeffs(self@, rhs@, B::modulus()),
    {
        FieldElement::add(self, rhs)
    }

    /// Field subtraction, coefficient by coefficient.
    pub fn sub(self, rhs: Self) -> (r: Self)
        ensures
            r@ == sub_coeffs(self@, rhs@, B::modulus()),
    {
        FieldElement::sub(self, rhs)
    }

    /// Field multiplication.
    pub fn mul(self, rhs: Self) -> (r: Self)
        ensures
            r@ == B::ext_mul_spec(self@, rhs@),
    {
        FieldElement::mul(self, rhs)
    }

    /// Additive inverse, coefficient by coefficient.
    pub fn neg(self) -> (r: Self)
        ensures
            r@ == neg_coeffs(self@, B::modulus()),
    {
        FieldElement::neg(self)
    }
}

impl<B: ExtensibleField<3>> core::ops::Add for CubeExtension<B> {
    type Output = Self;

    fn add(self, rhs: Self) -> (r: Self)
        ensures
            r@ == add_coeffs(self@, rhs@, B::modulus()),
    {
        CubeExtension::add(self, rhs)
    }
}

impl<B: ExtensibleField<3>> AddSpecImpl for CubeExtension<B> {
    open spec fn obeys_add_spec() -> bool {
        false
    }

    open spec fn add_req(self, rhs: Self) -> bool {
        true
    }

    open spec fn add_spec(self, rhs: Self) -> Self {
        self
    }
}

impl<B: ExtensibleField<3>> core::ops::AddAssign for CubeExtension<B> {
    fn add_assign(&mut self, rhs: Self)
        ensures
            final(self)@ == add_coeffs(old(self)@, rhs@, B::modulus()),
    {
        *self = CubeExtension::add(*self, rhs);
    }
}

impl<B: ExtensibleField<3>> core::ops::Sub for CubeExtension<B> {
    type Output = Self;

    fn sub(self, rhs: Self) -> (r: Self)
        ensures
            r@ == sub_coeffs(self@, rhs@, B::modulus()),
    {
        CubeExtension::sub(self, rhs)
    }
}

impl<B: ExtensibleField<3>> SubSpecImpl for CubeExtension<B> {
    open spec fn obeys_sub_spec() -> bool {
        false
    }

    open spec fn sub_req(self, rhs: Self) -> bool {
        true
    }

    open spec fn sub_spec(self, rhs: Self) -> Self {
        self
    }
}

impl<B: ExtensibleField<3>> core::ops::SubAssign for CubeExtension<B> {
    fn sub_assign(&mut self, rhs: Self)
        ensures
            final(self)@ == sub_coeffs(old(self)@, rhs@, B::modulus()),
    {
        *self = CubeExtension::sub(*self, rhs);
    }
}

impl<B: ExtensibleField<3>> core::ops::Mul for CubeExtension<B> {
    type Output = Self;

    fn mul(self, rhs: Self) -> (r: Self)
        ensures
            r@ == B::ext_mul_spec(self@, rhs@),
    {
        CubeExtension::mul(self, rhs)
    }
}

impl<B: ExtensibleField<3>> MulSpecImpl for CubeExtension<B> {
    open spec fn obeys_mul_spec() -> bool {
        false
    }

    open spec fn mul_req(self, rhs: Self) -> bool {
        true
    }

    open spec fn mul_spec(self, rhs: Self) -> Self {
        self
    }
}

impl<B: ExtensibleField<3>> core::ops::MulAssign for CubeExtension<B> {
    fn mul_assign(&mut self, rhs: Self)
        ensures
            final(self)@ == B::ext_mul_spec(old(self)@, rhs@),
    {
        *self = CubeExtension::mul(*self, rhs);
    }
}

impl<B: ExtensibleField<3>> core::ops::Div for CubeExtension<B> {
    type Output = Self;

    fn div(self, rhs: Self) -> (r: Self)
        ensures
            r@ == B::ext_mul_spec(self@, cubic_inv::<B>(rhs@)),
    {
        CubeExtension::div(self, rhs)
    }
}

impl<B: ExtensibleField<3>> DivSpecImpl for CubeExtension<B> {
    open spec fn obeys_div_spec() -> bool {
        false
    }

    open spec fn div_req(self, rhs: Self) -> bool {
        true
    }

    open spec fn div_spec(self, rhs: Self) -> Self {
        self
    }
}

impl<B: ExtensibleField<3>> core::ops::DivAssign for CubeExtension<B> {
    fn div_assign(&mut self, rhs: Self)
        ensures
            final(self)@ == B::ext_mul_spec(old(self)@, cubic_inv::<B>(rhs@)),
    {
        *self = CubeExtension::div(*self, rhs);
    }
}

impl<B: ExtensibleField<3>> core::ops::Neg for CubeExtension<B> {
    type Output = Self;

    fn neg(self) -> (r: Self)
        ensures
            r@ == neg_coeffs(self@, B::modulus()),
    {
        CubeExtension::neg(self)
    }
}

impl<B: ExtensibleField<3>> NegSpecImpl for CubeExtension<B> {
    open spec fn obeys_neg_spec() -> bool {
        false
    }

    open spec fn neg_req(self) -> bool {
        true
    }

    open spec fn neg_spec(self) -> Self {
        self
    }
}

impl<B: ExtensibleField<3>> From<B> for CubeExtension<B> {
    fn from(value: B) -> (r: Self)
        ensures
            r@ == lift_coeffs(value.value(), 3),
    {
        FieldElement::from_base(value)
    }
}

impl<B: ExtensibleField<3>> FromSpecImpl<B> for CubeExtension<B> {
    open spec fn obeys_from_spec() -> bool {
        false
    }

    open spec fn from_spec(value: B) -> Self {
        arbitrary()
    }
}

impl<B: ExtensibleField<3>> From<u128> for CubeExtension<B> {
    fn from(value: u128) -> (r: Self)
        ensures
            r@ == lift_coeffs((value as int) % B::modulus(), 3),
    {
        CubeExtension::from_u128(value)
    }
}

impl<B: ExtensibleField<3>> FromSpecImpl<u128> for CubeExtension<B> {
    open spec fn obeys_from_spec() -> bool {
        false
    }

    open spec fn from_spec(value: u128) -> Self {
        arbitrary()
    }
}

impl<B: ExtensibleField<3>> From<u64> for CubeExtension<B> {
    fn from(value: u64) -> (r: Self)
        ensures
            r@ == lift_coeffs((value as int) % B::modulus(), 3),
    {
        CubeExtension::from_u128(value as u128)
    }
}

impl<B: ExtensibleField<3>> FromSpecImpl<u64> for CubeExtension<B> {
    open spec fn obeys_from_spec() -> bool {
        false
    }

    open spec fn from_spec(value: u64) -> Self {
        arbitrary()
    }
}

impl<B: ExtensibleField<3>> From<u32> for CubeExtension<B> {
    fn from(value: u32) -> (r: Self)
        ensures
            r@ == lift_coeffs((value as int) % B::modulus(), 3),
    {
        CubeExtension::from_u128(value as u128)
    }
}

impl<B: ExtensibleField<3>> FromSpecImpl<u32> for CubeExtension<B> {
    open spec fn obeys_from_spec() -> bool {
        false
    }

    open spec fn from_spec(value: u32) -> Self {
        arbitrary()
    }
}

impl<B: ExtensibleField<3>> From<u16> for CubeExtension<B> {
    fn from(value: u16) -> (r: Self)
        ensures
            r@ == lift_coeffs((value as int) % B::modulus(), 3),
    {
        CubeExtension::from_u128(value as u128)
    }
}

impl<B: ExtensibleField<3>> FromSpecImpl<u16> for CubeExtension<B> {
    open spec fn obeys_from_spec() -> bool {
        false
    }

    open spec fn from_spec(value: u16) -> Self {
        arbitrary()
    }
}

impl<B: ExtensibleField<3>> From<u8> for CubeExtension<B> {
    fn from(value: u8) -> (r: Self)
        ensures
            r@ == lift_coeffs((value as int) % B::modulus(), 3),
    {
        CubeExtension::from_u128(value as u128)
    }
}

impl<B: ExtensibleField<3>> FromSpecImpl<u8> for CubeExtension<B> {
    open spec fn obeys_from_spec() -> bool {
        false
    }

    open spec fn from_spec(value: u8) -> Self {
        arbitrary()
    }
}

} // verus!

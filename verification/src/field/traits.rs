//! The interfaces that field elements implement.

use vstd::prelude::*;
use vstd::arithmetic::power2::pow2;
use crate::errors::SerializationError;
use crate::field::modular::{fadd, fsub, fmul, fneg, fpow, finv, is_unit};
use crate::text::decimal;

verus! {

/// An element of a prime field: the integers modulo [`StarkField::modulus`].
///
/// An element may be held in a form that is not reduced; [`StarkField::value`] is
/// the canonical residue it stands for, and every operation is specified over it.
pub trait StarkField: Copy {
    /// Unsigned integer that holds any canonical residue; also the exponent type.
    type Representation: Copy;

    /// The prime modulus.
    spec fn modulus() -> int;

    /// The canonical residue of this element.
    spec fn value(&self) -> int;

    /// The number a representation stands for.
    spec fn repr_value(r: Self::Representation) -> int;

    /// Number of bytes that one element is written in.
    spec fn num_bytes() -> nat;

    /// The largest `k` for which the field has a root of unity of order `2^k`.
    spec fn two_adicity() -> nat;

    /// Residue of the chosen root of unity of order `2^two_adicity()`.
    spec fn two_adic_root() -> int;

    /// The bytes this element is held in, least significant first; they depend on
    /// the internal form, so equal elements may differ in them.
    spec fn raw_bytes(&self) -> Seq<u8>;

    /// The canonical little-endian encoding of a residue.
    spec fn encode(v: int) -> Seq<u8>;

    /// The element that is held in the given bytes.
    spec fn from_raw(bytes: Seq<u8>) -> Self;

    /// Whether the internal form of this element is the reduced one.
    spec fn is_normalized(&self) -> bool;

    /// Whether the reduced internal form is the canonical residue itself, and
    /// every element that the field's operations return is held in it.
    spec fn canonical() -> bool;

    /// The modulus exceeds one, an element takes at least one byte, and the root
    /// of unity is a canonical residue.
    proof fn lemma_field()
        ensures
            Self::modulus() > 1,
            0 < Self::num_bytes() <= 32,
            Self::two_adicity() < 256,
            0 <= Self::two_adic_root() < Self::modulus(),
    ;

    /// The residue of an element is canonical, and its encodings have the
    /// element size.
    proof fn lemma_value(&self)
        ensures
            0 <= self.value() < Self::modulus(),
            self.raw_bytes().len() == Self::num_bytes(),
            Self::encode(self.value()).len() == Self::num_bytes(),
            Self::canonical() && self.is_normalized() ==> self.raw_bytes() == Self::encode(
                self.value(),
            ),
    ;

    /// Holding an element in bytes and taking it out of them are inverse to
    /// each other.
    proof fn lemma_raw(x: Self, bytes: Seq<u8>)
        ensures
            Self::from_raw(x.raw_bytes()) == x,
            bytes.len() == Self::num_bytes() ==> Self::from_raw(bytes).raw_bytes() == bytes,
    ;

    /// The modulus is a prime: every nonzero residue has an inverse, and is
    /// taken to one by the exponent `modulus() - 1`.
    proof fn lemma_units(x: int)
        requires
            0 < x < Self::modulus(),
        ensures
            is_unit(x, Self::modulus()),
            fpow(x, (Self::modulus() - 1) as nat, Self::modulus()) == 1,
    ;

    /// The root of unity of order `2^n` that [`StarkField::get_root_of_unity`]
    /// returns has that order exactly: raised to `2^n` it is one, and raised to
    /// `2^(n - 1)` it is not.
    proof fn lemma_root_of_unity(n: nat)
        requires
            1 <= n <= Self::two_adicity(),
        ensures
            fpow(
                fpow(Self::two_adic_root(), pow2((Self::two_adicity() - n) as nat), Self::modulus()),
                pow2(n),
                Self::modulus(),
            ) == 1,
            fpow(
                fpow(Self::two_adic_root(), pow2((Self::two_adicity() - n) as nat), Self::modulus()),
                pow2((n - 1) as nat),
                Self::modulus(),
            ) != 1,
    ;

    /// Distinct canonical residues have distinct encodings.
    proof fn lemma_encode_injective(a: int, b: int)
        requires
            0 <= a < Self::modulus(),
            0 <= b < Self::modulus(),
            Self::encode(a) == Self::encode(b),
        ensures
            a == b,
    ;

    /// A representation stands for a natural number.
    proof fn lemma_repr(r: Self::Representation)
        ensures
            0 <= Self::repr_value(r),
    ;

    /// The additive identity.
    fn zero() -> (r: Self)
        ensures
            r.value() == 0,
            Self::canonical() ==> r.is_normalized(),
    ;

    /// The multiplicative identity.
    fn one() -> (r: Self)
        ensures
            r.value() == 1,
            Self::canonical() ==> r.is_normalized(),
    ;

    /// Number of bytes that one element is written in.
    fn element_bytes() -> (n: usize)
        ensures
            n == Self::num_bytes(),
    ;

    /// The largest `k` for which the field has a root of unity of order `2^k`.
    fn get_two_adicity() -> (k: u32)
        ensures
            k == Self::two_adicity(),
    ;

    /// Whether the field's operations hold every element they return as its
    /// canonical residue.
    fn is_canonical() -> (r: bool)
        ensures
            r == Self::canonical(),
    ;

    /// Field addition.
    fn add(self, rhs: Self) -> (r: Self)
        ensures
            r.value() == fadd(self.value(), rhs.value(), Self::modulus()),
            Self::canonical() ==> r.is_normalized(),
    ;

    /// Field subtraction.
    fn sub(self, rhs: Self) -> (r: Self)
        ensures
            r.value() == fsub(self.value(), rhs.value(), Self::modulus()),
            Self::canonical() ==> r.is_normalized(),
    ;

    /// Field multiplication.
    fn mul(self, rhs: Self) -> (r: Self)
        ensures
            r.value() == fmul(self.value(), rhs.value(), Self::modulus()),
            Self::canonical() ==> r.is_normalized(),
    ;

    /// The product of the element with itself.
    fn square(self) -> (r: Self)
        ensures
            r.value() == fmul(self.value(), self.value(), Self::modulus()),
            Self::canonical() ==> r.is_normalized(),
    ;

    /// Additive inverse.
    fn neg(self) -> (r: Self)
        ensures
            r.value() == fneg(self.value(), Self::modulus()),
            Self::canonical() ==> r.is_normalized(),
    ;

    /// Multiplicative inverse, and zero for zero.
    fn inv(self) -> (r: Self)
        ensures
            r.value() == finv(self.value(), Self::modulus()),
            self.value() != 0 ==> fmul(self.value(), r.value(), Self::modulus()) == 1,
            self.value() == 0 ==> r.value() == 0,
            Self::canonical() ==> r.is_normalized(),
    ;

    /// The element raised to `power`; one for `power` zero, whatever the element.
    fn exp(self, power: Self::Representation) -> (r: Self)
        ensures
            r.value() == fpow(self.value(), Self::repr_value(power) as nat, Self::modulus()),
            Self::canonical() ==> r.is_normalized(),
    ;

    /// Whether two elements stand for the same residue.
    fn equals(&self, other: &Self) -> (r: bool)
        ensures
            r == (self.value() == other.value()),
    ;

    /// Brings the internal form to the reduced one; the element stays the same.
    fn normalize(&mut self)
        ensures
            final(self).value() == old(self).value(),
            final(self).is_normalized(),
            old(self).is_normalized() ==> *final(self) == *old(self),
    ;

    /// The canonical residue as an integer.
    fn to_repr(&self) -> (r: Self::Representation)
        ensures
            Self::repr_value(r) == self.value(),
    ;

    /// The element that an integer stands for, reduced modulo the modulus.
    fn from_repr(r: Self::Representation) -> (e: Self)
        ensures
            e.value() == Self::repr_value(r) % Self::modulus(),
            Self::canonical() ==> e.is_normalized(),
    ;

    /// The element that a 128-bit integer stands for, reduced modulo the modulus.
    fn from_u128(v: u128) -> (e: Self)
        ensures
            e.value() == (v as int) % Self::modulus(),
            Self::canonical() ==> e.is_normalized(),
    ;

    /// The exponent with the same numeric value as `v`.
    fn repr_from_u64(v: u64) -> (r: Self::Representation)
        ensures
            Self::repr_value(r) == v,
    ;

    /// Half of a representation, rounded down, and whether the representation
    /// is odd.
    fn repr_halve(r: Self::Representation) -> (h: (Self::Representation, bool))
        ensures
            Self::repr_value(h.0) == Self::repr_value(r) / 2,
            h.1 == (Self::repr_value(r) % 2 == 1),
    ;

    /// Whether a representation stands for zero.
    fn repr_is_zero(r: Self::Representation) -> (z: bool)
        ensures
            z == (Self::repr_value(r) == 0),
    ;

    /// A primitive root of unity of order `2^n`: the chosen root of order
    /// `2^two_adicity()`, squared `two_adicity() - n` times.
    fn get_root_of_unity(n: u32) -> (r: Self)
        requires
            n <= Self::two_adicity(),
        ensures
            r.value() == fpow(
                Self::two_adic_root(),
                pow2((Self::two_adicity() - n) as nat),
                Self::modulus(),
            ),
            Self::canonical() ==> r.is_normalized(),
    ;

    /// The canonical little-endian encoding of the element.
    fn to_bytes(&self) -> (bytes: Vec<u8>)
        ensures
            bytes@ == Self::encode(self.value()),
    ;

    /// The element as bytes: its canonical little-endian encoding, whatever
    /// form the element is held in, so that [`StarkField::try_from_bytes`]
    /// reads the element back.
    fn as_bytes(&self) -> (bytes: Vec<u8>)
        ensures
            bytes@ == Self::encode(self.value()),
    ;

    /// The bytes the element is held in, least significant first, without
    /// reducing them.
    fn to_raw_bytes(&self) -> (bytes: Vec<u8>)
        ensures
            bytes@ == self.raw_bytes(),
    ;

    /// Reads an element from its canonical encoding: exactly `num_bytes()` bytes
    /// that encode a residue below the modulus.
    fn try_from_bytes(bytes: &[u8]) -> (r: Result<Self, SerializationError>)
        ensures
            match r {
                Ok(e) => bytes@ == Self::encode(e.value()) && e.is_normalized(),
                Err(err) => err == SerializationError::InvalidFieldElement && forall|v: int|
                    0 <= v < Self::modulus() ==> bytes@ != #[trigger] Self::encode(v),
            },
    ;

    /// The decimal text of the canonical residue.
    fn to_string(&self) -> (s: String)
        ensures
            s@ == decimal(self.value() as nat),
    ;

    /// Takes `num_bytes()` bytes as the internal form of an element, without
    /// reducing them.
    fn from_raw_bytes(bytes: &[u8]) -> (e: Self)
        requires
            bytes@.len() == Self::num_bytes(),
        ensures
            e == Self::from_raw(bytes@),
    ;

}

/// The coefficient vector of zero at degree `n`.
pub open spec fn zero_coeffs(n: nat) -> Seq<int> {
    Seq::new(n, |i: int| 0int)
}

/// The coefficient vector of the base residue `v` at degree `n`: `v` followed by
/// zeros.
pub open spec fn lift_coeffs(v: int, n: nat) -> Seq<int> {
    Seq::new(n, |i: int| if i == 0 { v } else { 0int })
}

/// Sum of two coefficient vectors, coefficient by coefficient modulo `p`.
pub open spec fn add_coeffs(a: Seq<int>, b: Seq<int>, p: int) -> Seq<int> {
    Seq::new(a.len(), |i: int| fadd(a[i], b[i], p))
}

/// Difference of two coefficient vectors, coefficient by coefficient modulo `p`.
pub open spec fn sub_coeffs(a: Seq<int>, b: Seq<int>, p: int) -> Seq<int> {
    Seq::new(a.len(), |i: int| fsub(a[i], b[i], p))
}

/// Additive inverse of a coefficient vector, coefficient by coefficient.
pub open spec fn neg_coeffs(a: Seq<int>, p: int) -> Seq<int> {
    Seq::new(a.len(), |i: int| fneg(a[i], p))
}

/// A coefficient vector with each coefficient multiplied by the residue `d`.
pub open spec fn scale_coeffs(a: Seq<int>, d: int, p: int) -> Seq<int> {
    Seq::new(a.len(), |i: int| fmul(a[i], d, p))
}

/// A coefficient vector of `n` canonical residues modulo `p`.
pub open spec fn valid_coeffs(a: Seq<int>, n: nat, p: int) -> bool {
    a.len() == n && forall|i: int| 0 <= i < n ==> 0 <= #[trigger] a[i] < p
}

/// An element of a field that is a prime field or an extension of one.
///
/// The element `c[0] + c[1] * x + ... ` is modelled by the vector of the
/// canonical residues of its coefficients over the base field. Addition is
/// coefficient by coefficient; multiplication is given by each field.
pub trait FieldElement: Copy {
    /// The prime field that the coefficients are taken from.
    type BaseField: StarkField;

    /// Number of coefficients of an element.
    spec fn degree() -> nat;

    /// The canonical residues of the coefficients of this element.
    spec fn coeffs(&self) -> Seq<int>;

    /// The product of two elements, over their coefficient vectors.
    spec fn mul_spec(a: Seq<int>, b: Seq<int>) -> Seq<int>;

    /// The `k`-fold product of `a` with itself; one for `k` zero.
    spec fn pow_spec(a: Seq<int>, k: nat) -> Seq<int>;

    /// The result of inversion, over coefficient vectors.
    spec fn inv_spec(a: Seq<int>) -> Seq<int>;

    /// The conjugate, over coefficient vectors.
    spec fn conjugate_spec(a: Seq<int>) -> Seq<int>;

    /// The degree is positive and an element has that many canonical
    /// coefficients.
    proof fn lemma_coeffs(&self)
        ensures
            Self::degree() >= 1,
            valid_coeffs(self.coeffs(), Self::degree(), Self::BaseField::modulus()),
    ;

    /// A power is the product of as many factors as the exponent says.
    proof fn lemma_pow_spec(a: Seq<int>, k: nat)
        ensures
            Self::pow_spec(a, 0) == lift_coeffs(1, Self::degree()),
            k > 0 ==> Self::pow_spec(a, k) == Self::mul_spec(a, Self::pow_spec(a, (k - 1) as nat)),
    ;

    /// Products of coefficient vectors are coefficient vectors.
    proof fn lemma_mul_closed(a: Seq<int>, b: Seq<int>)
        requires
            valid_coeffs(a, Self::degree(), Self::BaseField::modulus()),
            valid_coeffs(b, Self::degree(), Self::BaseField::modulus()),
        ensures
            valid_coeffs(Self::mul_spec(a, b), Self::degree(), Self::BaseField::modulus()),
    ;

    /// Multiplication is commutative.
    proof fn lemma_mul_commutative(a: Seq<int>, b: Seq<int>)
        requires
            valid_coeffs(a, Self::degree(), Self::BaseField::modulus()),
            valid_coeffs(b, Self::degree(), Self::BaseField::modulus()),
        ensures
            Self::mul_spec(a, b) == Self::mul_spec(b, a),
    ;

    /// Multiplication is associative.
    proof fn lemma_mul_associative(a: Seq<int>, b: Seq<int>, c: Seq<int>)
        requires
            valid_coeffs(a, Self::degree(), Self::BaseField::modulus()),
            valid_coeffs(b, Self::degree(), Self::BaseField::modulus()),
            valid_coeffs(c, Self::degree(), Self::BaseField::modulus()),
        ensures
            Self::mul_spec(Self::mul_spec(a, b), c) == Self::mul_spec(a, Self::mul_spec(b, c)),
    ;

    /// One is the identity of multiplication.
    proof fn lemma_mul_one(a: Seq<int>)
        requires
            valid_coeffs(a, Self::degree(), Self::BaseField::modulus()),
        ensures
            Self::mul_spec(a, lift_coeffs(1, Self::degree())) == a,
    ;

    /// The product of zero and any element is zero.
    proof fn lemma_mul_zero(a: Seq<int>)
        requires
            valid_coeffs(a, Self::degree(), Self::BaseField::modulus()),
        ensures
            Self::mul_spec(zero_coeffs(Self::degree()), a) == zero_coeffs(Self::degree()),
    ;

    /// The elements make a field: every element but zero multiplies with its
    /// inverse to one. The inverse of zero is zero.
    proof fn lemma_inv_spec(a: Seq<int>)
        requires
            valid_coeffs(a, Self::degree(), Self::BaseField::modulus()),
        ensures
            valid_coeffs(Self::inv_spec(a), Self::degree(), Self::BaseField::modulus()),
            a != zero_coeffs(Self::degree()) ==> Self::mul_spec(a, Self::inv_spec(a))
                == lift_coeffs(1, Self::degree()),
            a == zero_coeffs(Self::degree()) ==> Self::inv_spec(a) == zero_coeffs(Self::degree()),
    ;

    /// The additive identity.
    fn zero() -> (r: Self)
        ensures
            r.coeffs() == zero_coeffs(Self::degree()),
    ;

    /// The multiplicative identity.
    fn one() -> (r: Self)
        ensures
            r.coeffs() == lift_coeffs(1, Self::degree()),
    ;

    /// The element of this field that a base element stands for.
    fn from_base(b: Self::BaseField) -> (r: Self)
        ensures
            r.coeffs() == lift_coeffs(b.value(), Self::degree()),
    ;

    /// Field addition.
    fn add(self, rhs: Self) -> (r: Self)
        ensures
            r.coeffs() == add_coeffs(self.coeffs(), rhs.coeffs(), Self::BaseField::modulus()),
    ;

    /// Field subtraction.
    fn sub(self, rhs: Self) -> (r: Self)
        ensures
            r.coeffs() == sub_coeffs(self.coeffs(), rhs.coeffs(), Self::BaseField::modulus()),
    ;

    /// Field multiplication.
    fn mul(self, rhs: Self) -> (r: Self)
        ensures
            r.coeffs() == Self::mul_spec(self.coeffs(), rhs.coeffs()),
    ;

    /// The product of the element with itself.
    fn square(self) -> (r: Self)
        ensures
            r.coeffs() == Self::mul_spec(self.coeffs(), self.coeffs()),
    ;

    /// Additive inverse.
    fn neg(self) -> (r: Self)
        ensures
            r.coeffs() == neg_coeffs(self.coeffs(), Self::BaseField::modulus()),
    ;

    /// Multiplicative inverse, with zero for zero.
    fn inv(self) -> (r: Self)
        ensures
            r.coeffs() == Self::inv_spec(self.coeffs()),
            self.coeffs() != zero_coeffs(Self::degree()) ==> Self::mul_spec(
                self.coeffs(),
                r.coeffs(),
            ) == lift_coeffs(1, Self::degree()),
            self.coeffs() == zero_coeffs(Self::degree()) ==> r.coeffs() == zero_coeffs(
                Self::degree(),
            ),
    ;

    /// The conjugate of the element over the base field.
    fn conjugate(&self) -> (r: Self)
        ensures
            r.coeffs() == Self::conjugate_spec(self.coeffs()),
    ;

    /// Whether two elements are the same element of the field.
    fn equals(&self, other: &Self) -> (r: bool)
        ensures
            r == (self.coeffs() == other.coeffs()),
    ;
}

/// A prime field in which five is no square, so that the polynomial
/// `x^2 - x - 1`, whose discriminant is five, has no root in it and the field
/// has a quadratic extension by a root of that polynomial.
pub trait QuadExtensible: StarkField {
    /// Five raised to half the number of nonzero residues is minus one; were
    /// five a square it would be one.
    proof fn lemma_five_is_no_square()
        ensures
            Self::modulus() > 5,
            Self::modulus() % 2 == 1,
            fpow(5, ((Self::modulus() - 1) / 2) as nat, Self::modulus()) == Self::modulus() - 1,
    ;
}

/// The canonical residues of a sequence of base elements.
pub open spec fn residues<B: StarkField>(s: Seq<B>) -> Seq<int> {
    Seq::new(s.len(), |i: int| s[i].value())
}

/// A prime field with an extension of degree `N` by a root `x` of a fixed
/// irreducible polynomial: the field supplies the product of two elements of the
/// extension, each given by its `N` coefficients, the Frobenius map on them, and
/// the coefficients of `x^N`.
pub trait ExtensibleField<const N: usize>: StarkField {
    /// The product of two elements of the extension, over the residues of their
    /// coefficients.
    spec fn ext_mul_spec(a: Seq<int>, b: Seq<int>) -> Seq<int>;

    /// The Frobenius map, which raises an element of the extension to the power
    /// of the modulus, over the residues of its coefficients.
    spec fn frobenius_spec(a: Seq<int>) -> Seq<int>;

    /// The coefficients of `x^N`.
    spec fn reduction_spec() -> Seq<int>;

    /// Products and Frobenius images of coefficient vectors are coefficient
    /// vectors.
    proof fn lemma_ext_closed(a: Seq<int>, b: Seq<int>)
        requires
            valid_coeffs(a, N as nat, Self::modulus()),
            valid_coeffs(b, N as nat, Self::modulus()),
        ensures
            N >= 1,
            valid_coeffs(Self::ext_mul_spec(a, b), N as nat, Self::modulus()),
            valid_coeffs(Self::frobenius_spec(a), N as nat, Self::modulus()),
    ;

    /// Multiplication in the extension is commutative.
    proof fn lemma_ext_mul_commutative(a: Seq<int>, b: Seq<int>)
        requires
            valid_coeffs(a, N as nat, Self::modulus()),
            valid_coeffs(b, N as nat, Self::modulus()),
        ensures
            Self::ext_mul_spec(a, b) == Self::ext_mul_spec(b, a),
    ;

    /// Multiplication in the extension is associative.
    proof fn lemma_ext_mul_associative(a: Seq<int>, b: Seq<int>, c: Seq<int>)
        requires
            valid_coeffs(a, N as nat, Self::modulus()),
            valid_coeffs(b, N as nat, Self::modulus()),
            valid_coeffs(c, N as nat, Self::modulus()),
        ensures
            Self::ext_mul_spec(Self::ext_mul_spec(a, b), c) == Self::ext_mul_spec(
                a,
                Self::ext_mul_spec(b, c),
            ),
    ;

    /// Multiplying a factor by a residue of the base field multiplies the
    /// product by it.
    proof fn lemma_ext_mul_scale(a: Seq<int>, b: Seq<int>, d: int)
        requires
            valid_coeffs(a, N as nat, Self::modulus()),
            valid_coeffs(b, N as nat, Self::modulus()),
        ensures
            Self::ext_mul_spec(a, scale_coeffs(b, d, Self::modulus())) == scale_coeffs(
                Self::ext_mul_spec(a, b),
                d,
                Self::modulus(),
            ),
    ;

    /// In an extension of degree three the norm of an element, its product
    /// with its images under the Frobenius map and under that map applied
    /// twice, lies in the base field: only its first coefficient can be other
    /// than zero.
    proof fn lemma_norm_in_base(a: Seq<int>)
        requires
            N == 3,
            valid_coeffs(a, 3, Self::modulus()),
        ensures
            Self::ext_mul_spec(
                a,
                Self::ext_mul_spec(
                    Self::frobenius_spec(a),
                    Self::frobenius_spec(Self::frobenius_spec(a)),
                ),
            )[1] == 0,
            Self::ext_mul_spec(
                a,
                Self::ext_mul_spec(
                    Self::frobenius_spec(a),
                    Self::frobenius_spec(Self::frobenius_spec(a)),
                ),
            )[2] == 0,
    ;

    /// In an extension of degree three the norm of a nonzero element is not
    /// zero: the polynomial of the extension has no root in the field, and the
    /// extension is a field.
    proof fn lemma_norm_nonzero(a: Seq<int>)
        requires
            N == 3,
            valid_coeffs(a, 3, Self::modulus()),
            a != zero_coeffs(3),
        ensures
            Self::ext_mul_spec(
                a,
                Self::ext_mul_spec(
                    Self::frobenius_spec(a),
                    Self::frobenius_spec(Self::frobenius_spec(a)),
                ),
            )[0] != 0,
    ;

    /// One is the identity of multiplication in the extension.
    proof fn lemma_ext_mul_one(a: Seq<int>)
        requires
            valid_coeffs(a, N as nat, Self::modulus()),
        ensures
            Self::ext_mul_spec(a, lift_coeffs(1, N as nat)) == a,
    ;

    /// The product of two elements of the extension.
    fn ext_mul(a: [Self; N], b: [Self; N]) -> (r: [Self; N])
        ensures
            residues(r@) == Self::ext_mul_spec(residues(a@), residues(b@)),
    ;

    /// The Frobenius image of an element of the extension.
    fn frobenius(x: [Self; N]) -> (r: [Self; N])
        ensures
            residues(r@) == Self::frobenius_spec(residues(x@)),
    ;

    /// The coefficients of `x^N`, by which products are reduced.
    fn reduction() -> (r: [Self; N])
        ensures
            residues(r@) == Self::reduction_spec(),
    ;
}

} // verus!

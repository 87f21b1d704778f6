//! The prime field with modulus `2^64 - 2^32 + 1`.
//!
//! An element is held as a 64-bit integer that need not be reduced: the integers
//! at and above the modulus stand for the same elements as those below it.

use vstd::prelude::*;
use vstd::arithmetic::div_mod::*;
use vstd::arithmetic::power::*;
use vstd::arithmetic::power2::*;
use vstd::bytes::*;
use crate::bytes::decode_u64;
use crate::errors::SerializationError;
use crate::field::modular::{
    finv, fneg, fmul, fsub, fadd, fpow, inv_mod, lemma_inverse_of, lemma_exp_step, lemma_exp_start,
    lemma_exp_end, lemma_square_root_step,
};
use crate::field::buffers;
use crate::field::buffers::{raw_bytes_of, elements_in};
use crate::field::traits::StarkField;
use crate::text::decimal_string;
use vstd::std_specs::cmp::PartialEqSpecImpl;
use vstd::std_specs::ops::{AddSpecImpl, SubSpecImpl, MulSpecImpl, DivSpecImpl, NegSpecImpl};
use vstd::std_specs::convert::FromSpecImpl;

verus! {

/// The modulus of the field.
pub const M: u64 = 0xFFFF_FFFF_0000_0001;

/// Number of bytes of one element.
pub const ELEMENT_BYTES: usize = 8;

/// The field has roots of unity of order `2^32`.
pub const TWO_ADICITY: u32 = 32;

/// A primitive root of unity of order `2^32`.
pub const G: u64 = 1753635133440165772;

// 2^64 mod M
const E: u64 = 0xFFFF_FFFF;

const TWO32: u64 = 0x1_0000_0000;

const TWO64: u128 = 0x1_0000_0000_0000_0000;

/// The canonical residue of a 64-bit integer.
pub fn reduce(v: u64) -> (r: u64)
    ensures
        r == (v as int) % (M as int),
        r < M,
{
    if v >= M {
        proof {
            lemma_mod_sub_multiples_vanish(v as int, M as int);
            lemma_small_mod((v - M) as nat, M as nat);
        }
        v - M
    } else {
        proof {
            lemma_small_mod(v as nat, M as nat);
        }
        v
    }
}

/// A 64-bit integer congruent to `x` modulo the field modulus.
///
/// With `x = ab + 2^64 * c + 2^96 * d`, where `ab` is below `2^64` and `c` and
/// `d` are below `2^32`, the result is `ab - d + (2^32 - 1) * c`, brought into
/// 64 bits by adding or subtracting the modulus once; it need not be reduced.
pub fn mod_reduce(x: u128) -> (r: u64)
    ensures
        (r as int) % (M as int) == (x as int) % (M as int),
        r == reduced_form(x),
{
    let ab: u64 = (x % TWO64) as u64;
    let cd: u64 = (x / TWO64) as u64;
    let c: u64 = cd % TWO32;
    let d: u64 = cd / TWO32;
    let tmp0: u64 = if ab >= d {
        ab - d
    } else {
        M - d + ab
    };
    assert(c * E <= 0xFFFF_FFFF * 0xFFFF_FFFF) by (nonlinear_arith)
        requires
            c <= 0xFFFF_FFFF,
            E == 0xFFFF_FFFF,
    ;
    let tmp1: u64 = c * E;
    let sum: u128 = tmp0 as u128 + tmp1 as u128;
    let r: u64 = if sum >= TWO64 {
        (sum - M as u128) as u64
    } else {
        sum as u64
    };
    proof {
        let m = M as int;
        let k0: int = if ab >= d { 0 } else { 1 };
        let k1: int = if sum >= TWO64 { 1 } else { 0 };
        assert(r == ab - d + c * E + k0 * m - k1 * m);
        // x = ab - d + c * E + (c + d * (2^32 + 1)) * M
        assert(x == (ab - d + c * E) + (c + d * 0x1_0000_0001) * m) by (nonlinear_arith)
            requires
                x == cd * 0x1_0000_0000_0000_0000 + ab,
                cd == d * 0x1_0000_0000 + c,
                E == 0xFFFF_FFFF,
                m == 0xFFFF_FFFF_0000_0001,
        ;
        let y = ab - d + c * E;
        lemma_mod_multiples_vanish(c + d * 0x1_0000_0001, y, m);
        lemma_mod_multiples_vanish(k0 - k1, y, m);
        assert((k0 - k1) * m + y == r) by (nonlinear_arith)
            requires
                r == y + k0 * m - k1 * m,
        ;
    }
    r
}

/// The integer that [`mod_reduce`] brings `x` to.
pub open spec fn reduced_form(x: u128) -> int {
    let ab = (x as int) % 0x1_0000_0000_0000_0000;
    let cd = (x as int) / 0x1_0000_0000_0000_0000;
    let c = cd % 0x1_0000_0000;
    let d = cd / 0x1_0000_0000;
    let low = if ab >= d {
        ab - d
    } else {
        ab - d + (M as int)
    };
    let sum = low + c * 0xFFFF_FFFF;
    if sum >= 0x1_0000_0000_0000_0000 {
        sum - (M as int)
    } else {
        sum
    }
}

/// An element of the field.
#[derive(Copy, Clone, Debug)]
pub struct BaseElement(u64);

impl BaseElement {
    /// The modulus of the field.
    pub const MODULUS: u64 = M;

    /// Number of bytes of one element.
    pub const ELEMENT_BYTES: usize = ELEMENT_BYTES;

    /// The field has roots of unity of every order `2^n` up to this `n`.
    pub const TWO_ADICITY: u32 = TWO_ADICITY;

    /// Whether the operations hold every element they return as its canonical
    /// residue.
    pub const IS_CANONICAL: bool = false;

    /// The integer this element is held as.
    pub closed spec fn raw(self) -> u64 {
        self.0
    }

    /// The canonical residue of this element.
    pub open spec fn as_int(self) -> int {
        (self.raw() as int) % (M as int)
    }

    /// The element that `value` stands for, in reduced form.
    pub fn new(value: u64) -> (r: Self)
        ensures
            r.as_int() == (value as int) % (M as int),
            r.raw() == (value as int) % (M as int),
    {
        let v = value % M;
        proof {
            lemma_small_mod(v as nat, M as nat);
        }
        BaseElement(v)
    }

    /// The element that stands for the integer `v`, in reduced form.
    pub closed spec fn element_of(v: int) -> Self {
        BaseElement((v % (M as int)) as u64)
    }

    /// The integer this element is held as.
    pub fn inner(&self) -> (v: u64)
        ensures
            v == self.raw(),
    {
        self.0
    }
}

impl StarkField for BaseElement {
    type Representation = u64;

    open spec fn modulus() -> int {
        M as int
    }

    open spec fn value(&self) -> int {
        self.as_int()
    }

    open spec fn repr_value(r: u64) -> int {
        r as int
    }

    open spec fn num_bytes() -> nat {
        8
    }

    open spec fn two_adicity() -> nat {
        32
    }

    open spec fn two_adic_root() -> int {
        G as int
    }

    open spec fn raw_bytes(&self) -> Seq<u8> {
        spec_u64_to_le_bytes(self.raw())
    }

    open spec fn encode(v: int) -> Seq<u8> {
        spec_u64_to_le_bytes(v as u64)
    }

    closed spec fn from_raw(bytes: Seq<u8>) -> Self {
        BaseElement(spec_u64_from_le_bytes(bytes))
    }

    open spec fn is_normalized(&self) -> bool {
        self.raw() < M
    }

    open spec fn canonical() -> bool {
        false
    }

    proof fn lemma_field() {
    }

    proof fn lemma_value(&self) {
        lemma_auto_spec_u64_to_from_le_bytes();
    }

    proof fn lemma_repr(r: u64) {
    }

    proof fn lemma_raw(x: Self, bytes: Seq<u8>) {
        lemma_auto_spec_u64_to_from_le_bytes();
        assert(spec_u64_to_le_bytes(x.raw()).len() == 8);
    }

    proof fn lemma_units(x: int) {
        crate::field::fp64_units::lemma_units(x);
    }

    proof fn lemma_root_of_unity(n: nat) {
        crate::field::roots::lemma_fp64_root_of_unity(n);
    }

    proof fn lemma_encode_injective(a: int, b: int) {
        lemma_auto_spec_u64_to_from_le_bytes();
        let x: u64 = a as u64;
        let y: u64 = b as u64;
        assert(spec_u64_to_le_bytes(x).len() == 8 && spec_u64_to_le_bytes(y).len() == 8);
    }

    fn zero() -> (r: Self) {
        proof {
            lemma_small_mod(0, M as nat);
        }
        BaseElement(0)
    }

    fn one() -> (r: Self) {
        proof {
            lemma_small_mod(1, M as nat);
        }
        BaseElement(1)
    }

    fn element_bytes() -> (n: usize) {
        ELEMENT_BYTES
    }

    fn get_two_adicity() -> (k: u32) {
        TWO_ADICITY
    }

    fn is_canonical() -> (r: bool) {
        false
    }

    fn add(self, rhs: Self) -> (r: Self) {
        let b = reduce(rhs.0);
        let sum: u128 = self.0 as u128 + b as u128;
        let v: u64 = if sum >= TWO64 {
            (sum - M as u128) as u64
        } else {
            sum as u64
        };
        proof {
            let m = M as int;
            lemma_add_mod_noop_right(self.0 as int, rhs.0 as int, m);
            if sum >= TWO64 {
                lemma_mod_sub_multiples_vanish(sum as int, m);
            }
        }
        BaseElement(v)
    }

    fn sub(self, rhs: Self) -> (r: Self) {
        let b = reduce(rhs.0);
        let v: u64 = if self.0 >= b {
            self.0 - b
        } else {
            M - b + self.0
        };
        proof {
            let m = M as int;
            lemma_sub_mod_noop_right(self.0 as int, rhs.0 as int, m);
            if self.0 < b {
                lemma_mod_add_multiples_vanish(self.0 - b, m);
            }
        }
        BaseElement(v)
    }

    fn mul(self, rhs: Self) -> (r: Self) {
        assert(self.0 * rhs.0 <= 0xFFFF_FFFF_FFFF_FFFF * 0xFFFF_FFFF_FFFF_FFFF) by (nonlinear_arith)
            requires
                self.0 <= 0xFFFF_FFFF_FFFF_FFFF,
                rhs.0 <= 0xFFFF_FFFF_FFFF_FFFF,
        ;
        let v = mod_reduce(self.0 as u128 * rhs.0 as u128);
        proof {
            lemma_mul_mod_noop(self.0 as int, rhs.0 as int, M as int);
        }
        BaseElement(v)
    }

    fn square(self) -> (r: Self) {
        self.mul(self)
    }

    fn neg(self) -> (r: Self) {
        let b = reduce(self.0);
        let v: u64 = if b == 0 {
            0
        } else {
            M - b
        };
        proof {
            let m = M as int;
            lemma_sub_mod_noop_right(0, self.0 as int, m);
            if b == 0 {
                lemma_small_mod(0, M as nat);
            } else {
                lemma_mod_add_multiples_vanish(0 - b, m);
                lemma_small_mod((M - b) as nat, M as nat);
            }
        }
        BaseElement(v)
    }

    fn inv(self) -> (r: Self) {
        let v = inv_mod(reduce(self.0), M);
        proof {
            lemma_small_mod(v as nat, M as nat);
            lemma_inverse_of(self.value(), M as int);
            if self.value() != 0 {
                Self::lemma_units(self.value());
            }
        }
        BaseElement(v)
    }

    fn exp(self, power: u64) -> (r: Self) {
        let mut acc = Self::one();
        let mut b = self;
        let mut e: u64 = power;
        proof {
            lemma_exp_start(self.0 as int, power as nat, M as int);
            lemma_pow_mod_noop(self.0 as int, power as nat, M as int);
            assert(1 * pow(self.value(), power as nat) == pow(self.value(), power as nat));
        }
        while e > 0
            invariant
                (acc.value() * pow(b.value(), e as nat)) % (M as int) == fpow(
                    self.value(),
                    power as nat,
                    M as int,
                ),
            decreases e,
        {
            proof {
                lemma_exp_step(acc.value(), b.value(), e as nat, M as int);
            }
            if e % 2 == 1 {
                acc = acc.mul(b);
            }
            b = b.mul(b);
            e = e / 2;
        }
        proof {
            lemma_exp_end(acc.value(), b.value(), M as int);
        }
        acc
    }

    fn equals(&self, other: &Self) -> (r: bool) {
        reduce(self.0) == reduce(other.0)
    }

    fn normalize(&mut self) {
        let v = reduce(self.0);
        proof {
            lemma_small_mod(v as nat, M as nat);
            if self.0 < M {
                lemma_small_mod(self.0 as nat, M as nat);
            }
        }
        self.0 = v;
    }

    fn to_repr(&self) -> (r: u64) {
        reduce(self.0)
    }

    fn from_repr(r: u64) -> (e: Self) {
        BaseElement::new(r)
    }

    fn from_u128(v: u128) -> (e: Self)
        ensures
            e == Self::element_of(v as int),
    {
        let r: u64 = (v % (M as u128)) as u64;
        proof {
            lemma_small_mod(r as nat, M as nat);
        }
        BaseElement(r)
    }

    fn repr_from_u64(v: u64) -> (r: u64) {
        v
    }

    fn repr_halve(r: u64) -> (h: (u64, bool)) {
        (r / 2, r % 2 == 1)
    }

    fn repr_is_zero(r: u64) -> (z: bool) {
        r == 0
    }

    fn get_root_of_unity(n: u32) -> (r: Self) {
        let mut root = BaseElement(G);
        let mut i: u32 = 0;
        proof {
            lemma_pow1(G as int);
            lemma2_to64();
            lemma_small_mod(G as nat, M as nat);
        }
        while i < TWO_ADICITY - n
            invariant
                n <= TWO_ADICITY,
                i <= TWO_ADICITY - n,
                root.value() == fpow(G as int, pow2(i as nat), M as int),
            decreases TWO_ADICITY - n - i,
        {
            proof {
                lemma_square_root_step(G as int, i as nat, M as int);
            }
            root = root.mul(root);
            i = i + 1;
        }
        root
    }

    fn to_bytes(&self) -> (bytes: Vec<u8>) {
        u64_to_le_bytes(reduce(self.0))
    }

    fn as_bytes(&self) -> (bytes: Vec<u8>) {
        self.to_bytes()
    }

    fn to_raw_bytes(&self) -> (bytes: Vec<u8>) {
        u64_to_le_bytes(self.0)
    }

    fn try_from_bytes(bytes: &[u8]) -> (r: Result<Self, SerializationError>) {
        proof {
            lemma_auto_spec_u64_to_from_le_bytes();
        }
        match decode_u64(bytes) {
            Some(v) => {
                if v < M {
                    proof {
                        lemma_small_mod(v as nat, M as nat);
                    }
                    Ok(BaseElement(v))
                } else {
                    assert forall|w: int| 0 <= w < M as int implies bytes@
                        != #[trigger] spec_u64_to_le_bytes(w as u64) by {
                        let x: u64 = w as u64;
                        assert(spec_u64_to_le_bytes(x).len() == 8);
                    }
                    Err(SerializationError::InvalidFieldElement)
                }
            },
            None => {
                assert forall|w: int| 0 <= w < M as int implies bytes@
                    != #[trigger] spec_u64_to_le_bytes(w as u64) by {
                    let x: u64 = w as u64;
                    assert(spec_u64_to_le_bytes(x).len() == 8);
                }
                Err(SerializationError::InvalidFieldElement)
            },
        }
    }

    fn to_string(&self) -> (s: String) {
        decimal_string(self.to_repr() as u128)
    }

    fn from_raw_bytes(bytes: &[u8]) -> (e: Self) {
        proof {
            lemma_auto_spec_u64_to_from_le_bytes();
        }
        match decode_u64(bytes) {
            Some(v) => BaseElement(v),
            None => BaseElement(0),
        }
    }
}

impl BaseElement {
    /// The additive identity.
    pub fn zero() -> (r: Self)
        ensures
            r.as_int() == 0,
    {
        <Self as StarkField>::zero()
    }

    /// The multiplicative identity.
    pub fn one() -> (r: Self)
        ensures
            r.as_int() == 1,
    {
        <Self as StarkField>::one()
    }

    /// Field addition.
    pub fn add(self, rhs: Self) -> (r: Self)
        ensures
            r.as_int() == fadd(self.as_int(), rhs.as_int(), M as int),
    {
        StarkField::add(self, rhs)
    }

    /// Field subtraction.
    pub fn sub(self, rhs: Self) -> (r: Self)
        ensures
            r.as_int() == fsub(self.as_int(), rhs.as_int(), M as int),
    {
        StarkField::sub(self, rhs)
    }

    /// Field multiplication.
    pub fn mul(self, rhs: Self) -> (r: Self)
        ensures
            r.as_int() == fmul(self.as_int(), rhs.as_int(), M as int),
    {
        StarkField::mul(self, rhs)
    }

    /// The product of the element with itself.
    pub fn square(self) -> (r: Self)
        ensures
            r.as_int() == fmul(self.as_int(), self.as_int(), M as int),
    {
        StarkField::square(self)
    }

    /// Additive inverse.
    pub fn neg(self) -> (r: Self)
        ensures
            r.as_int() == fneg(self.as_int(), M as int),
    {
        StarkField::neg(self)
    }

    /// Multiplicative inverse, and zero for zero.
    pub fn inv(self) -> (r: Self)
        ensures
            r.as_int() == finv(self.as_int(), M as int),
            self.as_int() != 0 ==> fmul(self.as_int(), r.as_int(), M as int) == 1,
            self.as_int() == 0 ==> r.as_int() == 0,
    {
        StarkField::inv(self)
    }

    /// The quotient: the product with the inverse of `rhs`, and so zero where
    /// `rhs` is zero.
    pub fn div(self, rhs: Self) -> (r: Self)
        ensures
            r.as_int() == fmul(self.as_int(), finv(rhs.as_int(), M as int), M as int),
    {
        StarkField::mul(self, StarkField::inv(rhs))
    }

    /// Whether two elements stand for the same residue.
    pub fn equals(&self, other: &Self) -> (r: bool)
        ensures
            r == (self.as_int() == other.as_int()),
    {
        StarkField::equals(self, other)
    }

    /// A vector of `n` zeros.
    pub fn zeroed_vector(n: usize) -> (r: Vec<Self>)
        ensures
            r@.len() == n,
            forall|i: int| 0 <= i < n ==> (#[trigger] r@[i]).value() == 0,
    {
        buffers::zeroed_vector(n)
    }

    /// The bytes that the elements are held in, one element after the other.
    pub fn elements_as_bytes(elements: &[Self]) -> (bytes: Vec<u8>)
        requires
            elements@.len() * ELEMENT_BYTES <= usize::MAX,
        ensures
            bytes@ == raw_bytes_of::<Self>(elements@),
    {
        buffers::elements_as_bytes(elements)
    }

    /// The elements held in a buffer. The buffer must hold a whole number of
    /// elements, or else the length is invalid; and it must start at an address
    /// that is a multiple of the element size, or else the alignment is.
    pub fn bytes_as_elements(bytes: &[u8]) -> (r: Result<Vec<Self>, SerializationError>)
        ensures
            match r {
                Ok(elements) => bytes@.len() % (ELEMENT_BYTES as nat) == 0 && elements@
                    == elements_in::<Self>(bytes@),
                Err(e) => if bytes@.len() % (ELEMENT_BYTES as nat) != 0 {
                    e == SerializationError::InvalidLength
                } else {
                    e == SerializationError::InvalidAlignment
                },
            },
    {
        buffers::bytes_as_elements(bytes)
    }

    /// The elements as elements of the base field: themselves.
    pub fn as_base_elements(elements: &[Self]) -> (r: Vec<Self>)
        ensures
            r@ == elements@,
    {
        buffers::copy_elements(elements)
    }

    /// Reads an element from its canonical encoding: exactly as many bytes as
    /// an element takes, which encode a residue below the modulus.
    pub fn try_from(bytes: &[u8]) -> (r: Result<Self, SerializationError>)
        ensures
            match r {
                Ok(e) => bytes@ == Self::encode(e.value()) && e.is_normalized(),
                Err(err) => err == SerializationError::InvalidFieldElement && forall|v: int|
                    0 <= v < M ==> bytes@ != #[trigger] Self::encode(v),
            },
    {
        Self::try_from_bytes(bytes)
    }

    /// An element read from random bytes as from its canonical encoding; none
    /// where the bytes encode no residue.
    pub fn from_random_bytes(bytes: &[u8]) -> (r: Option<Self>)
        ensures
            match r {
                Some(e) => bytes@ == Self::encode(e.value()) && e.is_normalized(),
                None => forall|v: int| 0 <= v < M ==> bytes@ != #[trigger] Self::encode(v),
            },
    {
        buffers::from_random_bytes(bytes)
    }
}

impl Default for BaseElement {
    fn default() -> (r: Self)
        ensures
            r.as_int() == 0,
    {
        <Self as StarkField>::zero()
    }
}

impl PartialEq for BaseElement {
    fn eq(&self, other: &Self) -> (r: bool) {
        self.equals(other)
    }
}

impl PartialEqSpecImpl for BaseElement {
    open spec fn obeys_eq_spec() -> bool {
        true
    }

    open spec fn eq_spec(&self, other: &Self) -> bool {
        self.as_int() == other.as_int()
    }
}

impl Eq for BaseElement {

}

impl From<u128> for BaseElement {
    fn from(value: u128) -> (r: Self) {
        Self::from_u128(value as u128)
    }
}

impl FromSpecImpl<u128> for BaseElement {
    open spec fn obeys_from_spec() -> bool {
        true
    }

    open spec fn from_spec(value: u128) -> Self {
        Self::element_of(value as int)
    }
}

impl From<u64> for BaseElement {
    fn from(value: u64) -> (r: Self) {
        Self::from_u128(value as u128)
    }
}

impl FromSpecImpl<u64> for BaseElement {
    open spec fn obeys_from_spec() -> bool {
        true
    }

    open spec fn from_spec(value: u64) -> Self {
        Self::element_of(value as int)
    }
}

impl From<u32> for BaseElement {
    fn from(value: u32) -> (r: Self) {
        Self::from_u128(value as u128)
    }
}

impl FromSpecImpl<u32> for BaseElement {
    open spec fn obeys_from_spec() -> bool {
        true
    }

    open spec fn from_spec(value: u32) -> Self {
        Self::element_of(value as int)
    }
}

impl From<u16> for BaseElement {
    fn from(value: u16) -> (r: Self) {
        Self::from_u128(value as u128)
    }
}

impl FromSpecImpl<u16> for BaseElement {
    open spec fn obeys_from_spec() -> bool {
        true
    }

    open spec fn from_spec(value: u16) -> Self {
        Self::element_of(value as int)
    }
}

impl From<u8> for BaseElement {
    fn from(value: u8) -> (r: Self) {
        Self::from_u128(value as u128)
    }
}

impl FromSpecImpl<u8> for BaseElement {
    open spec fn obeys_from_spec() -> bool {
        true
    }

    open spec fn from_spec(value: u8) -> Self {
        Self::element_of(value as int)
    }
}

impl core::ops::Add for BaseElement {
    type Output = Self;

    fn add(self, rhs: Self) -> (r: Self)
        ensures
            r.as_int() == fadd(self.as_int(), rhs.as_int(), M as int),
    {
        BaseElement::add(self, rhs)
    }
}

impl AddSpecImpl for BaseElement {
    open spec fn obeys_add_spec() -> bool {
        false
    }

    open spec fn add_req(self, rhs: Self) -> bool {
        true
    }

    open spec fn add_spec(self, rhs: Self) -> Self {
        self
    }
}

impl core::ops::AddAssign for BaseElement {
    fn add_assign(&mut self, rhs: Self)
        ensures
            final(self).as_int() == fadd(old(self).as_int(), rhs.as_int(), M as int),
    {
        *self = BaseElement::add(*self, rhs);
    }
}

impl core::ops::Sub for BaseElement {
    type Output = Self;

    fn sub(self, rhs: Self) -> (r: Self)
        ensures
            r.as_int() == fsub(self.as_int(), rhs.as_int(), M as int),
    {
        BaseElement::sub(self, rhs)
    }
}

impl SubSpecImpl for BaseElement {
    open spec fn obeys_sub_spec() -> bool {
        false
    }

    open spec fn sub_req(self, rhs: Self) -> bool {
        true
    }

    open spec fn sub_spec(self, rhs: Self) -> Self {
        self
    }
}

impl core::ops::SubAssign for BaseElement {
    fn sub_assign(&mut self, rhs: Self)
        ensures
            final(self).as_int() == fsub(old(self).as_int(), rhs.as_int(), M as int),
    {
        *self = BaseElement::sub(*self, rhs);
    }
}

impl core::ops::Mul for BaseElement {
    type Output = Self;

    fn mul(self, rhs: Self) -> (r: Self)
        ensures
            r.as_int() == fmul(self.as_int(), rhs.as_int(), M as int),
    {
        BaseElement::mul(self, rhs)
    }
}

impl MulSpecImpl for BaseElement {
    open spec fn obeys_mul_spec() -> bool {
        false
    }

    open spec fn mul_req(self, rhs: Self) -> bool {
        true
    }

    open spec fn mul_spec(self, rhs: Self) -> Self {
        self
    }
}

impl core::ops::MulAssign for BaseElement {
    fn mul_assign(&mut self, rhs: Self)
        ensures
            final(self).as_int() == fmul(old(self).as_int(), rhs.as_int(), M as int),
    {
        *self = BaseElement::mul(*self, rhs);
    }
}

impl core::ops::Div for BaseElement {
    type Output = Self;

    fn div(self, rhs: Self) -> (r: Self)
        ensures
            r.as_int() == fmul(self.as_int(), finv(rhs.as_int(), M as int), M as int),
    {
        BaseElement::div(self, rhs)
    }
}

impl DivSpecImpl for BaseElement {
    open spec fn obeys_div_spec() -> bool {
        false
    }

    open spec fn div_req(self, rhs: Self) -> bool {
        true
    }

    open spec fn div_spec(self, rhs: Self) -> Self {
        self
    }
}

impl core::ops::DivAssign for BaseElement {
    fn div_assign(&mut self, rhs: Self)
        ensures
            final(self).as_int() == fmul(old(self).as_int(), finv(rhs.as_int(), M as int), M as int),
    {
        *self = BaseElement::div(*self, rhs);
    }
}

impl core::ops::Neg for BaseElement {
    type Output = Self;

    fn neg(self) -> (r: Self)
        ensures
            r.as_int() == fneg(self.as_int(), M as int),
    {
        BaseElement::neg(self)
    }
}

impl NegSpecImpl for BaseElement {
    open spec fn obeys_neg_spec() -> bool {
        false
    }

    open spec fn neg_req(self) -> bool {
        true
    }

    open spec fn neg_spec(self) -> Self {
        self
    }
}

} // verus!

//! The prime field with modulus `2^62 - 111 * 2^39 + 1`.
//!
//! An element is held in Montgomery form: the 64-bit integer `x * 2^64` modulo
//! the modulus stands for the residue `x`. Products are reduced by Montgomery's
//! method and may be left one modulus above the reduced form.

use vstd::prelude::*;
use vstd::arithmetic::div_mod::*;
use vstd::arithmetic::power::*;
use vstd::arithmetic::power2::*;
use vstd::bytes::*;
use crate::bytes::decode_u64;
use crate::errors::SerializationError;
use crate::field::modular::{
    finv, fneg, fadd, fsub, fmul, fpow, inv_mod, lemma_inverse_of, lemma_exp_step, lemma_exp_start,
    lemma_exp_end, lemma_square_root_step,
};
use crate::field::buffers;
use crate::field::buffers::{raw_bytes_of, elements_in};
use crate::field::traits::{QuadExtensible, StarkField};
use crate::text::decimal_string;
use vstd::std_specs::cmp::PartialEqSpecImpl;
use vstd::std_specs::ops::{AddSpecImpl, SubSpecImpl, MulSpecImpl, DivSpecImpl, NegSpecImpl};
use vstd::std_specs::convert::FromSpecImpl;

verus! {

/// The modulus of the field.
pub const M: u64 = 4611624995532046337;

/// Number of bytes of one element.
pub const ELEMENT_BYTES: usize = 8;

/// The field has roots of unity of order `2^39`.
pub const TWO_ADICITY: u32 = 39;

/// A primitive root of unity of order `2^39`.
pub const G: u64 = 4421547261963328785;

// 2^128 mod M: the Montgomery form of 2^64
const R2: u64 = 630444561284293700;

// -M^(-1) mod 2^64
const U: u64 = 4611624995532046335;

const TWO64: u128 = 0x1_0000_0000_0000_0000;

/// The inverse of `2^64` modulo the modulus: `2^64 * R_INV == 1 + U * M`.
pub const R_INV: u64 = 1152890993361043456;

/// The residue that the integer `x` stands for in Montgomery form.
pub open spec fn from_mont(x: int) -> int {
    (x * R_INV) % (M as int)
}

/// Dividing by `2^64` modulo the modulus is multiplying by [`R_INV`].
pub proof fn lemma_mont_quotient(r: int, z: int)
    requires
        (r * 0x1_0000_0000_0000_0000) % (M as int) == z % (M as int),
    ensures
        r % (M as int) == (z * R_INV) % (M as int),
{
    let m = M as int;
    let big = 0x1_0000_0000_0000_0000int;
    // r = r * (big * R_INV) = (r * big) * R_INV = z * R_INV  (mod M)
    assert(big * R_INV == 1 + U * m) by (nonlinear_arith)
        requires
            big == 0x1_0000_0000_0000_0000,
            R_INV == 1152890993361043456,
            U == 4611624995532046335,
            m == 4611624995532046337,
    ;
    assert((r * big) * R_INV == r + (r * U) * m) by (nonlinear_arith)
        requires
            big * R_INV == 1 + U * m,
    ;
    lemma_mod_multiples_vanish(r * U, r, m);
    lemma_mul_mod_noop_left(r * big, R_INV as int, m);
    lemma_mul_mod_noop_left(z, R_INV as int, m);
}

/// Montgomery product: an integer below twice the modulus that is congruent to
/// `a * b / 2^64` modulo the modulus.
pub fn mont_mul(a: u64, b: u64) -> (r: u64)
    requires
        a < M,
        b < M,
    ensures
        r < 2 * M,
        (r as int) % (M as int) == (a * b * R_INV) % (M as int),
{
    let ghost m = M as int;
    let ghost big = 0x1_0000_0000_0000_0000int;
    assert(a * b < m * m) by (nonlinear_arith)
        requires
            0 <= a < m,
            0 <= b < m,
    ;
    let z: u128 = a as u128 * b as u128;
    let z_lo: u128 = z % TWO64;
    assert(z_lo * U < big * big) by (nonlinear_arith)
        requires
            0 <= z_lo < big,
            0 <= U < big,
    ;
    let q: u128 = (z_lo * (U as u128)) % TWO64;
    assert(q * m < big * m) by (nonlinear_arith)
        requires
            0 <= q < big,
            m > 0,
    ;
    let t: u128 = z + q * (M as u128);
    let r: u64 = (t / TWO64) as u64;
    proof {
        let zh = (z / TWO64) as int;
        let k = (z_lo * U) / big;
        assert(z == zh * big + z_lo);
        assert(z_lo * U == k * big + q);
        // big * R_INV == 1 + U * M, so z_lo * (1 + U * M) is a multiple of big
        assert(t == (zh - k * m + z_lo * R_INV) * big) by (nonlinear_arith)
            requires
                t == z + q * m,
                z == zh * big + z_lo,
                z_lo * U == k * big + q,
                big == 0x1_0000_0000_0000_0000,
                R_INV == 1152890993361043456,
                U == 4611624995532046335,
                m == 4611624995532046337,
        ;
        let n = zh - k * m + z_lo * R_INV;
        lemma_fundamental_div_mod_converse(t as int, big, n, 0);
        assert(r == n);
        assert(r * big == z + q * m);
        lemma_mod_multiples_vanish(q as int, z as int, m);
        assert(q * m + z == z + q * m);
        lemma_mont_quotient(r as int, z as int);
        assert(r < 2 * m) by (nonlinear_arith)
            requires
                r * big == z + q * m,
                z < m * m,
                q * m < big * m,
                m < big,
                big > 0,
                m > 0,
        ;
    }
    r
}

/// The residue that an integer stands for depends on its class modulo the
/// modulus only, and is additive and multiplicative in it.
pub proof fn lemma_from_mont(x: int, y: int)
    ensures
        from_mont(x % (M as int)) == from_mont(x),
        from_mont(x + y) == fadd(from_mont(x), from_mont(y), M as int),
        from_mont(x - y) == fsub(from_mont(x), from_mont(y), M as int),
        from_mont(x * y * R_INV) == fmul(from_mont(x), from_mont(y), M as int),
        0 <= from_mont(x) < M,
{
    let m = M as int;
    let ri = R_INV as int;
    lemma_mul_mod_noop_left(x, ri, m);
    assert((x + y) * ri == x * ri + y * ri) by (nonlinear_arith);
    lemma_add_mod_noop(x * ri, y * ri, m);
    assert((x - y) * ri == x * ri - y * ri) by (nonlinear_arith);
    lemma_sub_mod_noop(x * ri, y * ri, m);
    assert((x * y * ri) * ri == (x * ri) * (y * ri)) by (nonlinear_arith);
    lemma_mul_mod_noop(x * ri, y * ri, m);
}

/// The Montgomery form of a canonical residue, reduced.
pub fn to_mont(v: u64) -> (r: u64)
    requires
        v < M,
    ensures
        r < M,
        from_mont(r as int) == v,
        r == (v * 0x1_0000_0000_0000_0000) % (M as int),
{
    let t = mont_mul(v, R2);
    let r = t % M;
    proof {
        let m = M as int;
        let ri = R_INV as int;
        // r * R_INV = v * (R2 * R_INV * R_INV) = v  (mod M)
        lemma_mul_mod_noop_left(t as int, ri, m);
        lemma_mul_mod_noop_left(r as int, ri, m);
        lemma_mul_mod_noop_left(v * R2 * ri, ri, m);
        assert((v * R2 * ri) * ri == v + (v * 181706059721131669368806661924323327) * m)
            by (nonlinear_arith)
            requires
                R2 == 630444561284293700,
                ri == 1152890993361043456,
                m == 4611624995532046337,
        ;
        lemma_mod_multiples_vanish(v * 181706059721131669368806661924323327, v as int, m);
        lemma_small_mod(v as nat, m as nat);
        // v * 2^64 = (r * R_INV) * 2^64 = r * (1 + U * M) = r  (mod M)
        let big = 0x1_0000_0000_0000_0000int;
        lemma_mul_mod_noop_left(r * ri, big, m);
        assert((r * ri) * big == r + (r * U) * m) by (nonlinear_arith)
            requires
                big == 0x1_0000_0000_0000_0000,
                ri == 1152890993361043456,
                U == 4611624995532046335,
                m == 4611624995532046337,
        ;
        lemma_mod_multiples_vanish(r * U, r as int, m);
        lemma_small_mod(r as nat, m as nat);
    }
    r
}

/// An element of the field.
#[derive(Copy, Clone, Debug)]
pub struct BaseElement(u64);

impl BaseElement {
    /// The modulus of the field.
    pub const MODULUS: u64 = M;

    /// Number of bytes of one element.
    pub const ELEMENT_BYTES: usize = ELEMENT_BYTES;

    /// The field has roots of unity of every order `2^n` up to this `n`.
    pub const TWO_ADICITY: u32 = TWO_ADICITY;

    /// Whether the operations hold every element they return as its canonical
    /// residue.
    pub const IS_CANONICAL: bool = false;

    /// The integer this element is held as.
    pub closed spec fn raw(self) -> u64 {
        self.0
    }

    /// The canonical residue of this element.
    pub open spec fn as_int(self) -> int {
        from_mont(self.raw() as int)
    }

    /// The element that `value` stands for, in reduced form.
    pub fn new(value: u64) -> (r: Self)
        ensures
            r.as_int() == (value as int) % (M as int),
            r.raw() < M,
    {
        BaseElement(to_mont(value % M))
    }

    /// The element that stands for the integer `v`, in reduced Montgomery form.
    pub closed spec fn element_of(v: int) -> Self {
        BaseElement((((v % (M as int)) * 0x1_0000_0000_0000_0000) % (M as int)) as u64)
    }

    /// The integer this element is held as.
    pub fn inner(&self) -> (v: u64)
        ensures
            v == self.raw(),
    {
        self.0
    }
}

impl StarkField for BaseElement {
    type Representation = u64;

    open spec fn modulus() -> int {
        M as int
    }

    open spec fn value(&self) -> int {
        self.as_int()
    }

    open spec fn repr_value(r: u64) -> int {
        r as int
    }

    open spec fn num_bytes() -> nat {
        8
    }

    open spec fn two_adicity() -> nat {
        39
    }

    open spec fn two_adic_root() -> int {
        G as int
    }

    open spec fn raw_bytes(&self) -> Seq<u8> {
        spec_u64_to_le_bytes(self.raw())
    }

    open spec fn encode(v: int) -> Seq<u8> {
        spec_u64_to_le_bytes(v as u64)
    }

    closed spec fn from_raw(bytes: Seq<u8>) -> Self {
        BaseElement(spec_u64_from_le_bytes(bytes))
    }

    open spec fn is_normalized(&self) -> bool {
        self.raw() < M
    }

    open spec fn canonical() -> bool {
        false
    }

    proof fn lemma_field() {
    }

    proof fn lemma_value(&self) {
        lemma_auto_spec_u64_to_from_le_bytes();
    }

    proof fn lemma_repr(r: u64) {
    }

    proof fn lemma_raw(x: Self, bytes: Seq<u8>) {
        lemma_auto_spec_u64_to_from_le_bytes();
        assert(spec_u64_to_le_bytes(x.raw()).len() == 8);
    }

    proof fn lemma_units(x: int) {
        crate::field::fp62_units::lemma_units(x);
    }

    proof fn lemma_root_of_unity(n: nat) {
        crate::field::roots::lemma_fp62_root_of_unity(n);
    }

    proof fn lemma_encode_injective(a: int, b: int) {
        lemma_auto_spec_u64_to_from_le_bytes();
        let x: u64 = a as u64;
        let y: u64 = b as u64;
        assert(spec_u64_to_le_bytes(x).len() == 8 && spec_u64_to_le_bytes(y).len() == 8);
    }

    fn zero() -> (r: Self) {
        proof {
            assert(0 * (R_INV as int) == 0);
            lemma_small_mod(0, M as nat);
        }
        BaseElement(0)
    }

    fn one() -> (r: Self) {
        BaseElement(to_mont(1))
    }

    fn element_bytes() -> (n: usize) {
        ELEMENT_BYTES
    }

    fn get_two_adicity() -> (k: u32) {
        TWO_ADICITY
    }

    fn is_canonical() -> (r: bool) {
        false
    }

    fn add(self, rhs: Self) -> (r: Self) {
        let a = self.0 % M;
        let b = rhs.0 % M;
        let sum = a + b;
        let v = if sum >= M {
            sum - M
        } else {
            sum
        };
        proof {
            let m = M as int;
            lemma_from_mont(self.0 as int, rhs.0 as int);
            lemma_from_mont(rhs.0 as int, 0);
            lemma_from_mont(a as int, b as int);
            lemma_from_mont(sum as int, 0);
            if sum >= M {
                lemma_mod_sub_multiples_vanish(sum as int, m);
            }
            lemma_small_mod(v as nat, m as nat);
        }
        BaseElement(v)
    }

    fn sub(self, rhs: Self) -> (r: Self) {
        let a = self.0 % M;
        let b = rhs.0 % M;
        let v = if a >= b {
            a - b
        } else {
            M - b + a
        };
        proof {
            let m = M as int;
            lemma_from_mont(self.0 as int, rhs.0 as int);
            lemma_from_mont(rhs.0 as int, 0);
            lemma_from_mont(a as int, b as int);
            lemma_from_mont(a - b, 0);
            if a < b {
                lemma_mod_add_multiples_vanish(a - b, m);
            }
            lemma_small_mod(v as nat, m as nat);
        }
        BaseElement(v)
    }

    fn mul(self, rhs: Self) -> (r: Self) {
        let a = self.0 % M;
        let b = rhs.0 % M;
        let v = mont_mul(a, b);
        proof {
            lemma_from_mont(self.0 as int, rhs.0 as int);
            lemma_from_mont(rhs.0 as int, 0);
            lemma_from_mont(a as int, b as int);
            lemma_from_mont(v as int, 0);
            lemma_from_mont(a * b * R_INV, 0);
        }
        BaseElement(v)
    }

    fn square(self) -> (r: Self) {
        self.mul(self)
    }

    fn neg(self) -> (r: Self) {
        Self::zero().sub(self)
    }

    fn inv(self) -> (r: Self) {
        let v = self.to_repr();
        proof {
            lemma_inverse_of(self.value(), M as int);
            if self.value() != 0 {
                Self::lemma_units(self.value());
            }
        }
        BaseElement(to_mont(inv_mod(v, M)))
    }

    fn exp(self, power: u64) -> (r: Self) {
        let mut acc = Self::one();
        let mut b = self;
        let mut e: u64 = power;
        proof {
            lemma_from_mont(self.0 as int, 0);
            lemma_exp_start(self.value(), power as nat, M as int);
        }
        while e > 0
            invariant
                (acc.value() * pow(b.value(), e as nat)) % (M as int) == fpow(
                    self.value(),
                    power as nat,
                    M as int,
                ),
            decreases e,
        {
            proof {
                lemma_exp_step(acc.value(), b.value(), e as nat, M as int);
            }
            if e % 2 == 1 {
                acc = acc.mul(b);
            }
            b = b.mul(b);
            e = e / 2;
        }
        proof {
            lemma_from_mont(acc.0 as int, 0);
            lemma_exp_end(acc.value(), b.value(), M as int);
        }
        acc
    }

    fn equals(&self, other: &Self) -> (r: bool) {
        self.to_repr() == other.to_repr()
    }

    fn normalize(&mut self) {
        let v = self.0 % M;
        proof {
            lemma_from_mont(self.0 as int, 0);
            if self.0 < M {
                lemma_small_mod(self.0 as nat, M as nat);
            }
        }
        self.0 = v;
    }

    fn to_repr(&self) -> (r: u64) {
        let t = mont_mul(self.0 % M, 1);
        proof {
            lemma_from_mont(self.0 as int, 0);
            assert((self.0 % M) * 1 * R_INV == (self.0 % M) * R_INV) by (nonlinear_arith);
        }
        t % M
    }

    fn from_repr(r: u64) -> (e: Self) {
        BaseElement::new(r)
    }

    fn from_u128(v: u128) -> (e: Self)
        ensures
            e == Self::element_of(v as int),
    {
        let r: u64 = (v % (M as u128)) as u64;
        BaseElement(to_mont(r))
    }

    fn repr_from_u64(v: u64) -> (r: u64) {
        v
    }

    fn repr_halve(r: u64) -> (h: (u64, bool)) {
        (r / 2, r % 2 == 1)
    }

    fn repr_is_zero(r: u64) -> (z: bool) {
        r == 0
    }

    fn get_root_of_unity(n: u32) -> (r: Self) {
        let mut root = BaseElement(to_mont(G));
        let mut i: u32 = 0;
        proof {
            lemma_pow1(G as int);
            lemma2_to64();
            lemma_small_mod(G as nat, M as nat);
        }
        while i < TWO_ADICITY - n
            invariant
                n <= TWO_ADICITY,
                i <= TWO_ADICITY - n,
                root.value() == fpow(G as int, pow2(i as nat), M as int),
            decreases TWO_ADICITY - n - i,
        {
            proof {
                lemma_square_root_step(G as int, i as nat, M as int);
            }
            root = root.mul(root);
            i = i + 1;
        }
        root
    }

    fn to_bytes(&self) -> (bytes: Vec<u8>) {
        u64_to_le_bytes(self.to_repr())
    }

    fn as_bytes(&self) -> (bytes: Vec<u8>) {
        self.to_bytes()
    }

    fn to_raw_bytes(&self) -> (bytes: Vec<u8>) {
        u64_to_le_bytes(self.0)
    }

    fn try_from_bytes(bytes: &[u8]) -> (r: Result<Self, SerializationError>) {
        proof {
            lemma_auto_spec_u64_to_from_le_bytes();
        }
        match decode_u64(bytes) {
            Some(v) => {
                if v < M {
                    Ok(BaseElement(to_mont(v)))
                } else {
                    assert forall|w: int| 0 <= w < M as int implies bytes@
                        != #[trigger] spec_u64_to_le_bytes(w as u64) by {
                        let x: u64 = w as u64;
                        assert(spec_u64_to_le_bytes(x).len() == 8);
                    }
                    Err(SerializationError::InvalidFieldElement)
                }
            },
            None => {
                assert forall|w: int| 0 <= w < M as int implies bytes@
                    != #[trigger] spec_u64_to_le_bytes(w as u64) by {
                    let x: u64 = w as u64;
                    assert(spec_u64_to_le_bytes(x).len() == 8);
                }
                Err(SerializationError::InvalidFieldElement)
            },
        }
    }

    fn to_string(&self) -> (s: String) {
        decimal_string(self.to_repr() as u128)
    }

    fn from_raw_bytes(bytes: &[u8]) -> (e: Self) {
        proof {
            lemma_auto_spec_u64_to_from_le_bytes();
        }
        match decode_u64(bytes) {
            Some(v) => BaseElement(v),
            None => BaseElement(0),
        }
    }
}

impl BaseElement {
    /// The additive identity.
    pub fn zero() -> (r: Self)
        ensures
            r.as_int() == 0,
    {
        <Self as StarkField>::zero()
    }

    /// The multiplicative identity.
    pub fn one() -> (r: Self)
        ensures
            r.as_int() == 1,
    {
        <Self as StarkField>::one()
    }

    /// Field addition.
    pub fn add(self, rhs: Self) -> (r: Self)
        ensures
            r.as_int() == fadd(self.as_int(), rhs.as_int(), M as int),
    {
        StarkField::add(self, rhs)
    }

    /// Field subtraction.
    pub fn sub(self, rhs: Self) -> (r: Self)
        ensures
            r.as_int() == fsub(self.as_int(), rhs.as_int(), M as int),
    {
        StarkField::sub(self, rhs)
    }

    /// Field multiplication.
    pub fn mul(self, rhs: Self) -> (r: Self)
        ensures
            r.as_int() == fmul(self.as_int(), rhs.as_int(), M as int),
    {
        StarkField::mul(self, rhs)
    }

    /// The product of the element with itself.
    pub fn square(self) -> (r: Self)
        ensures
            r.as_int() == fmul(self.as_int(), self.as_int(), M as int),
    {
        StarkField::square(self)
    }

    /// Additive inverse.
    pub fn neg(self) -> (r: Self)
        ensures
            r.as_int() == fneg(self.as_int(), M as int),
    {
        StarkField::neg(self)
    }

    /// Multiplicative inverse, and zero for zero.
    pub fn inv(self) -> (r: Self)
        ensures
            r.as_int() == finv(self.as_int(), M as int),
            self.as_int() != 0 ==> fmul(self.as_int(), r.as_int(), M as int) == 1,
            self.as_int() == 0 ==> r.as_int() == 0,
    {
        StarkField::inv(self)
    }

    /// The quotient: the product with the inverse of `rhs`, and so zero where
    /// `rhs` is zero.
    pub fn div(self, rhs: Self) -> (r: Self)
        ensures
            r.as_int() == fmul(self.as_int(), finv(rhs.as_int(), M as int), M as int),
    {
        StarkField::mul(self, StarkField::inv(rhs))
    }

    /// Whether two elements stand for the same residue.
    pub fn equals(&self, other: &Self) -> (r: bool)
        ensures
            r == (self.as_int() == other.as_int()),
    {
        StarkField::equals(self, other)
    }

    /// A vector of `n` zeros.
    pub fn zeroed_vector(n: usize) -> (r: Vec<Self>)
        ensures
            r@.len() == n,
            forall|i: int| 0 <= i < n ==> (#[trigger] r@[i]).value() == 0,
    {
        buffers::zeroed_vector(n)
    }

    /// The bytes that the elements are held in, one element after the other.
    pub fn elements_as_bytes(elements: &[Self]) -> (bytes: Vec<u8>)
        requires
            elements@.len() * ELEMENT_BYTES <= usize::MAX,
        ensures
            bytes@ == raw_bytes_of::<Self>(elements@),
    {
        buffers::elements_as_bytes(elements)
    }

    /// The elements held in a buffer. The buffer must hold a whole number of
    /// elements, or else the length is invalid; and it must start at an address
    /// that is a multiple of the element size, or else the alignment is.
    pub fn bytes_as_elements(bytes: &[u8]) -> (r: Result<Vec<Self>, SerializationError>)
        ensures
            match r {
                Ok(elements) => bytes@.len() % (ELEMENT_BYTES as nat) == 0 && elements@
                    == elements_in::<Self>(bytes@),
                Err(e) => if bytes@.len() % (ELEMENT_BYTES as nat) != 0 {
                    e == SerializationError::InvalidLength
                } else {
                    e == SerializationError::InvalidAlignment
                },
            },
    {
        buffers::bytes_as_elements(bytes)
    }

    /// The elements as elements of the base field: themselves.
    pub fn as_base_elements(elements: &[Self]) -> (r: Vec<Self>)
        ensures
            r@ == elements@,
    {
        buffers::copy_elements(elements)
    }

    /// Reads an element from its canonical encoding: exactly as many bytes as
    /// an element takes, which encode a residue below the modulus.
    pub fn try_from(bytes: &[u8]) -> (r: Result<Self, SerializationError>)
        ensures
            match r {
                Ok(e) => bytes@ == Self::encode(e.value()) && e.is_normalized(),
                Err(err) => err == SerializationError::InvalidFieldElement && forall|v: int|
                    0 <= v < M ==> bytes@ != #[trigger] Self::encode(v),
            },
    {
        Self::try_from_bytes(bytes)
    }

    /// An element read from random bytes as from its canonical encoding; none
    /// where the bytes encode no residue.
    pub fn from_random_bytes(bytes: &[u8]) -> (r: Option<Self>)
        ensures
            match r {
                Some(e) => bytes@ == Self::encode(e.value()) && e.is_normalized(),
                None => forall|v: int| 0 <= v < M ==> bytes@ != #[trigger] Self::encode(v),
            },
    {
        buffers::from_random_bytes(bytes)
    }
}

impl Default for BaseElement {
    fn default() -> (r: Self)
        ensures
            r.as_int() == 0,
    {
        <Self as StarkField>::zero()
    }
}

impl PartialEq for BaseElement {
    fn eq(&self, other: &Self) -> (r: bool) {
        self.equals(other)
    }
}

impl PartialEqSpecImpl for BaseElement {
    open spec fn obeys_eq_spec() -> bool {
        true
    }

    open spec fn eq_spec(&self, other: &Self) -> bool {
        self.as_int() == other.as_int()
    }
}

impl Eq for BaseElement {

}

impl From<u128> for BaseElement {
    fn from(value: u128) -> (r: Self) {
        Self::from_u128(value as u128)
    }
}

impl FromSpecImpl<u128> for BaseElement {
    open spec fn obeys_from_spec() -> bool {
        true
    }

    open spec fn from_spec(value: u128) -> Self {
        Self::element_of(value as int)
    }
}

impl From<u64> for BaseElement {
    fn from(value: u64) -> (r: Self) {
        Self::from_u128(value as u128)
    }
}

impl FromSpecImpl<u64> for BaseElement {
    open spec fn obeys_from_spec() -> bool {
        true
    }

    open spec fn from_spec(value: u64) -> Self {
        Self::element_of(value as int)
    }
}

impl From<u32> for BaseElement {
    fn from(value: u32) -> (r: Self) {
        Self::from_u128(value as u128)
    }
}

impl FromSpecImpl<u32> for BaseElement {
    open spec fn obeys_from_spec() -> bool {
        true
    }

    open spec fn from_spec(value: u32) -> Self {
        Self::element_of(value as int)
    }
}

impl From<u16> for BaseElement {
    fn from(value: u16) -> (r: Self) {
        Self::from_u128(value as u128)
    }
}

impl FromSpecImpl<u16> for BaseElement {
    open spec fn obeys_from_spec() -> bool {
        true
    }

    open spec fn from_spec(value: u16) -> Self {
        Self::element_of(value as int)
    }
}

impl From<u8> for BaseElement {
    fn from(value: u8) -> (r: Self) {
        Self::from_u128(value as u128)
    }
}

impl FromSpecImpl<u8> for BaseElement {
    open spec fn obeys_from_spec() -> bool {
        true
    }

    open spec fn from_spec(value: u8) -> Self {
        Self::element_of(value as int)
    }
}

impl QuadExtensible for BaseElement {
    proof fn lemma_five_is_no_square() {
        crate::field::fp62_units::lemma_five_is_no_square();
    }
}

impl core::ops::Add for BaseElement {
    type Output = Self;

    fn add(self, rhs: Self) -> (r: Self)
        ensures
            r.as_int() == fadd(self.as_int(), rhs.as_int(), M as int),
    {
        BaseElement::add(self, rhs)
    }
}

impl AddSpecImpl for BaseElement {
    open spec fn obeys_add_spec() -> bool {
        false
    }

    open spec fn add_req(self, rhs: Self) -> bool {
        true
    }

    open spec fn add_spec(self, rhs: Self) -> Self {
        self
    }
}

impl core::ops::AddAssign for BaseElement {
    fn add_assign(&mut self, rhs: Self)
        ensures
            final(self).as_int() == fadd(old(self).as_int(), rhs.as_int(), M as int),
    {
        *self = BaseElement::add(*self, rhs);
    }
}

impl core::ops::Sub for BaseElement {
    type Output = Self;

    fn sub(self, rhs: Self) -> (r: Self)
        ensures
            r.as_int() == fsub(self.as_int(), rhs.as_int(), M as int),
    {
        BaseElement::sub(self, rhs)
    }
}

impl SubSpecImpl for BaseElement {
    open spec fn obeys_sub_spec() -> bool {
        false
    }

    open spec fn sub_req(self, rhs: Self) -> bool {
        true
    }

    open spec fn sub_spec(self, rhs: Self) -> Self {
        self
    }
}

impl core::ops::SubAssign for BaseElement {
    fn sub_assign(&mut self, rhs: Self)
        ensures
            final(self).as_int() == fsub(old(self).as_int(), rhs.as_int(), M as int),
    {
        *self = BaseElement::sub(*self, rhs);
    }
}

impl core::ops::Mul for BaseElement {
    type Output = Self;

    fn mul(self, rhs: Self) -> (r: Self)
        ensures
            r.as_int() == fmul(self.as_int(), rhs.as_int(), M as int),
    {
        BaseElement::mul(self, rhs)
    }
}

impl MulSpecImpl for BaseElement {
    open spec fn obeys_mul_spec() -> bool {
        false
    }

    open spec fn mul_req(self, rhs: Self) -> bool {
        true
    }

    open spec fn mul_spec(self, rhs: Self) -> Self {
        self
    }
}

impl core::ops::MulAssign for BaseElement {
    fn mul_assign(&mut self, rhs: Self)
        ensures
            final(self).as_int() == fmul(old(self).as_int(), rhs.as_int(), M as int),
    {
        *self = BaseElement::mul(*self, rhs);
    }
}

impl core::ops::Div for BaseElement {
    type Output = Self;

    fn div(self, rhs: Self) -> (r: Self)
        ensures
            r.as_int() == fmul(self.as_int(), finv(rhs.as_int(), M as int), M as int),
    {
        BaseElement::div(self, rhs)
    }
}

impl DivSpecImpl for BaseElement {
    open spec fn obeys_div_spec() -> bool {
        false
    }

    open spec fn div_req(self, rhs: Self) -> bool {
        true
    }

    open spec fn div_spec(self, rhs: Self) -> Self {
        self
    }
}

impl core::ops::DivAssign for BaseElement {
    fn div_assign(&mut self, rhs: Self)
        ensures
            final(self).as_int() == fmul(old(self).as_int(), finv(rhs.as_int(), M as int), M as int),
    {
        *self = BaseElement::div(*self, rhs);
    }
}

impl core::ops::Neg for BaseElement {
    type Output = Self;

    fn neg(self) -> (r: Self)
        ensures
            r.as_int() == fneg(self.as_int(), M as int),
    {
        BaseElement::neg(self)
    }
}

impl NegSpecImpl for BaseElement {
    open spec fn obeys_neg_spec() -> bool {
        false
    }

    open spec fn neg_req(self) -> bool {
        true
    }

    open spec fn neg_spec(self) -> Self {
        self
    }
}

} // verus!

//! The prime field with modulus `2^128 - 45 * 2^40 + 1`.
//!
//! An element is held as a 128-bit integer. The operations of the field return
//! the canonical residue, and accept any 128-bit integer as an operand.

use vstd::prelude::*;
use vstd::arithmetic::div_mod::*;
use vstd::arithmetic::power::*;
use vstd::arithmetic::power2::*;
use vstd::bytes::*;
use crate::bytes::decode_u128;
use crate::errors::SerializationError;
use crate::field::buffers;
use crate::field::buffers::{raw_bytes_of, elements_in};
use crate::field::traits::{QuadExtensible, StarkField};
use crate::text::decimal_string;
use vstd::std_specs::cmp::PartialEqSpecImpl;
use vstd::std_specs::ops::{AddSpecImpl, SubSpecImpl, MulSpecImpl, DivSpecImpl, NegSpecImpl};
use vstd::std_specs::convert::FromSpecImpl;
use crate::field::modular::{
    fneg, fadd, fsub, fmul, fpow, finv, lemma_zero_not_unit, lemma_euclid_step, lemma_finv_is,
    lemma_common_factor_no_unit, lemma_inverse_of, lemma_exp_step, lemma_exp_start, lemma_exp_end,
    lemma_square_root_step,
};

verus! {

/// The modulus of the field.
pub const M: u128 = 340282366920938463463374557953744961537;

/// Number of bytes of one element.
pub const ELEMENT_BYTES: usize = 16;

/// The field has roots of unity of order `2^40`.
pub const TWO_ADICITY: u32 = 40;

/// A primitive root of unity of order `2^40`.
pub const G: u128 = 23953097886125630542083529559205016746;

// 2^128 - M
const C: u128 = 49478023249919;

const TWO64: u128 = 0x1_0000_0000_0000_0000;

/// The canonical residue of a 128-bit integer.
pub fn reduce(v: u128) -> (r: u128)
    ensures
        r == (v as int) % (M as int),
        r < M,
{
    if v >= M {
        proof {
            lemma_mod_sub_multiples_vanish(v as int, M as int);
            lemma_small_mod((v - M) as nat, M as nat);
        }
        v - M
    } else {
        proof {
            lemma_small_mod(v as nat, M as nat);
        }
        v
    }
}

/// Sum of two canonical residues.
pub fn add_mod(a: u128, b: u128) -> (r: u128)
    requires
        a < M,
        b < M,
    ensures
        r == fadd(a as int, b as int, M as int),
        r < M,
{
    let gap: u128 = M - b;
    if a >= gap {
        proof {
            lemma_mod_sub_multiples_vanish(a + b, M as int);
            lemma_small_mod((a + b - M) as nat, M as nat);
        }
        a - gap
    } else {
        proof {
            lemma_small_mod((a + b) as nat, M as nat);
        }
        a + b
    }
}

/// Difference of two canonical residues.
pub fn sub_mod(a: u128, b: u128) -> (r: u128)
    requires
        a < M,
        b < M,
    ensures
        r == fsub(a as int, b as int, M as int),
        r < M,
{
    if a >= b {
        proof {
            lemma_small_mod((a - b) as nat, M as nat);
        }
        a - b
    } else {
        proof {
            lemma_mod_add_multiples_vanish(a - b, M as int);
            lemma_small_mod((M - b + a) as nat, M as nat);
        }
        M - b + a
    }
}

/// The product of two integers that are each split at a power `t` into a high
/// and a low part.
pub proof fn lemma_split_product(a1: int, a0: int, b1: int, b0: int, t: int)
    ensures
        (a1 * t + a0) * (b1 * t + b0) == (a1 * b1) * (t * t) + (a0 * b1 + a1 * b0) * t + a0 * b0,
{
    broadcast use
        vstd::arithmetic::mul::group_mul_is_commutative_and_distributive,
        vstd::arithmetic::mul::lemma_mul_is_associative,
    ;

}

/// The full 256-bit product of two 128-bit integers, as its high and low halves.
pub fn mul_wide(a: u128, b: u128) -> (r: (u128, u128))
    ensures
        r.0 * 0x1_0000_0000_0000_0000_0000_0000_0000_0000 + r.1 == a * b,
{
    let a0: u128 = a % TWO64;
    let a1: u128 = a / TWO64;
    let b0: u128 = b % TWO64;
    let b1: u128 = b / TWO64;
    let ghost t = TWO64 as int;
    proof {
        assert(a0 * b0 <= (t - 1) * (t - 1)) by (nonlinear_arith)
            requires 0 <= a0 <= t - 1, 0 <= b0 <= t - 1;
        assert(a0 * b1 <= (t - 1) * (t - 1)) by (nonlinear_arith)
            requires 0 <= a0 <= t - 1, 0 <= b1 <= t - 1;
        assert(a1 * b0 <= (t - 1) * (t - 1)) by (nonlinear_arith)
            requires 0 <= a1 <= t - 1, 0 <= b0 <= t - 1;
        assert(a1 * b1 <= (t - 1) * (t - 1)) by (nonlinear_arith)
            requires 0 <= a1 <= t - 1, 0 <= b1 <= t - 1;
    }
    let low_low: u128 = a0 * b0;
    let low_high: u128 = a0 * b1;
    let high_low: u128 = a1 * b0;
    let high_high: u128 = a1 * b1;
    let carry: u128 = low_low / TWO64 + low_high % TWO64 + high_low % TWO64;
    let lo: u128 = (carry % TWO64) * TWO64 + low_low % TWO64;
    proof {
        let h = high_high + low_high / TWO64 + high_low / TWO64 + carry / TWO64;
        assert(a == a1 * t + a0);
        assert(b == b1 * t + b0);
        lemma_split_product(a1 as int, a0 as int, b1 as int, b0 as int, t);
        assert(a * b == high_high * (t * t) + (low_high + high_low) * t + low_low);
        assert(h * (t * t) + lo == high_high * (t * t) + (low_high + high_low) * t + low_low) by (nonlinear_arith)
            requires
                h == high_high + low_high / TWO64 + high_low / TWO64 + carry / TWO64,
                lo == (carry % TWO64) * t + low_low % TWO64,
                carry == low_low / TWO64 + low_high % TWO64 + high_low % TWO64,
                carry == (carry / TWO64) * t + carry % TWO64,
                low_low == (low_low / TWO64) * t + low_low % TWO64,
                low_high == (low_high / TWO64) * t + low_high % TWO64,
                high_low == (high_low / TWO64) * t + high_low % TWO64,
        ;
        assert(a * b < (t * t) * (t * t)) by (nonlinear_arith)
            requires
                0 <= a < t * t,
                0 <= b < t * t,
        ;
        assert(h < t * t) by (nonlinear_arith)
            requires
                h * (t * t) + lo == a * b,
                a * b < (t * t) * (t * t),
                lo >= 0,
                t * t > 0,
        ;
    }
    let hi: u128 = high_high + low_high / TWO64 + high_low / TWO64 + carry / TWO64;
    (hi, lo)
}

/// Product of two 128-bit integers modulo the field modulus.
pub fn mul_mod(a: u128, b: u128) -> (r: u128)
    ensures
        r == fmul(a as int, b as int, M as int),
        r < M,
{
    let (hi, lo) = mul_wide(a, b);
    let (hi2, lo2) = mul_wide(hi, C);
    let ghost t2 = 0x1_0000_0000_0000_0000_0000_0000_0000_0000int;
    proof {
        assert(hi2 < C) by (nonlinear_arith)
            requires
                hi2 * t2 + lo2 == hi * C,
                0 <= hi < t2,
                lo2 >= 0,
                C > 0,
                t2 > 0,
        ;
        assert(hi2 * C < C * C) by (nonlinear_arith)
            requires
                0 <= hi2 < C,
        ;
    }
    let tail: u128 = hi2 * C;
    let r: u128 = add_mod(add_mod(reduce(lo), reduce(lo2)), tail);
    proof {
        let m = M as int;
        // a * b = hi * 2^128 + lo = hi * M + (hi * C + lo)
        //       = hi * M + hi2 * M + (hi2 * C + lo2 + lo)
        assert(a * b == (hi + hi2) * m + (lo + lo2 + tail)) by (nonlinear_arith)
            requires
                hi * t2 + lo == a * b,
                hi2 * t2 + lo2 == hi * C,
                tail == hi2 * C,
                t2 == m + C,
        ;
        lemma_mod_multiples_vanish((hi + hi2) as int, (lo + lo2 + tail) as int, m);
        lemma_add_mod_noop(lo as int, lo2 as int, m);
        lemma_small_mod(tail as nat, m as nat);
        lemma_add_mod_noop((lo + lo2) as int, tail as int, m);
    }
    r
}

/// Multiplicative inverse of a canonical residue by the extended Euclidean
/// algorithm; zero where the residue shares a factor with the modulus.
pub fn inv_mod(x: u128) -> (r: u128)
    requires
        x < M,
    ensures
        r == finv(x as int, M as int),
        r < M,
{
    if x == 0 {
        proof {
            lemma_small_mod(0, M as nat);
            lemma_zero_not_unit(0, M as int);
        }
        return 0;
    }
    let mut r0: u128 = M;
    let mut r1: u128 = x;
    let mut k0: u128 = 0;
    let mut k1: u128 = 1;
    let ghost mut a: int = 1;
    let ghost mut b: int = 0;
    let ghost mut c: int = 0;
    let ghost mut d: int = 1;
    proof {
        lemma_mod_self_0(M as int);
        lemma_small_mod(0, M as nat);
        lemma_small_mod(x as nat, M as nat);
        assert(0 * (x as int) == 0);
        assert(1 * (x as int) == x);
    }
    while r1 != 0
        invariant
            x < M,
            0 < r0 <= M,
            r1 < M,
            k0 < M,
            k1 < M,
            (k0 * x) % (M as int) == (r0 as int) % (M as int),
            (k1 * x) % (M as int) == (r1 as int) % (M as int),
            M == a * r0 + b * r1,
            x == c * r0 + d * r1,
        decreases r1,
    {
        let q: u128 = r0 / r1;
        let r2: u128 = r0 % r1;
        let qs: u128 = mul_mod(q, k1);
        let k2: u128 = sub_mod(k0, qs);
        proof {
            let m = M as int;
            lemma_fundamental_div_mod(r0 as int, r1 as int);
            assert(r2 == r0 - q * r1) by (nonlinear_arith)
                requires
                    r0 == r1 * q + r2,
            ;
            lemma_euclid_step(x as int, m, r0 as int, r1 as int, k0 as int, k1 as int, q as int, qs as int);
            assert(M == (a * q + b) * r1 + a * r2) by (nonlinear_arith)
                requires
                    M == a * r0 + b * r1,
                    r0 == r1 * q + r2,
            ;
            assert(x == (c * q + d) * r1 + c * r2) by (nonlinear_arith)
                requires
                    x == c * r0 + d * r1,
                    r0 == r1 * q + r2,
            ;
            let a1 = a * q + b;
            let c1 = c * q + d;
            b = a;
            d = c;
            a = a1;
            c = c1;
        }
        r0 = r1;
        r1 = r2;
        k0 = k1;
        k1 = k2;
    }
    proof {
        assert(M == a * r0) by (nonlinear_arith)
            requires
                M == a * r0 + b * r1,
                r1 == 0,
        ;
        assert(x == c * r0) by (nonlinear_arith)
            requires
                x == c * r0 + d * r1,
                r1 == 0,
        ;
    }
    if r0 == 1 {
        proof {
            lemma_small_mod(1, M as nat);
            assert((x * k0) == (k0 * x)) by (nonlinear_arith);
            lemma_finv_is(x as int, k0 as int, M as int);
        }
        k0
    } else {
        proof {
            lemma_common_factor_no_unit(x as int, M as int, r0 as int, a, c);
        }
        0
    }
}

/// An element of the field.
#[derive(Copy, Clone, Debug)]
pub struct BaseElement(u128);

impl BaseElement {
    /// The modulus of the field.
    pub const MODULUS: u128 = M;

    /// Number of bytes of one element.
    pub const ELEMENT_BYTES: usize = ELEMENT_BYTES;

    /// The field has roots of unity of every order `2^n` up to this `n`.
    pub const TWO_ADICITY: u32 = TWO_ADICITY;

    /// Whether the operations hold every element they return as its canonical
    /// residue.
    pub const IS_CANONICAL: bool = true;

    /// The integer this element is held as.
    pub closed spec fn raw(self) -> u128 {
        self.0
    }

    /// The canonical residue of this element.
    pub open spec fn as_int(self) -> int {
        (self.raw() as int) % (M as int)
    }

    /// The element that `value` stands for.
    pub fn new(value: u128) -> (r: Self)
        ensures
            r.as_int() == (value as int) % (M as int),
            r.raw() < M,
            r == Self::element_of(value as int),
    {
        let v = reduce(value);
        proof {
            lemma_small_mod(v as nat, M as nat);
        }
        BaseElement(v)
    }

    /// The element that stands for the integer `v`, in reduced form.
    pub closed spec fn element_of(v: int) -> Self {
        BaseElement((v % (M as int)) as u128)
    }

    /// The integer this element is held as.
    pub fn inner(&self) -> (v: u128)
        ensures
            v == self.raw(),
    {
        self.0
    }
}

impl StarkField for BaseElement {
    type Representation = u128;

    open spec fn modulus() -> int {
        M as int
    }

    open spec fn value(&self) -> int {
        self.as_int()
    }

    open spec fn repr_value(r: u128) -> int {
        r as int
    }

    open spec fn num_bytes() -> nat {
        16
    }

    open spec fn two_adicity() -> nat {
        40
    }

    open spec fn two_adic_root() -> int {
        G as int
    }

    open spec fn raw_bytes(&self) -> Seq<u8> {
        spec_u128_to_le_bytes(self.raw())
    }

    open spec fn encode(v: int) -> Seq<u8> {
        spec_u128_to_le_bytes(v as u128)
    }

    closed spec fn from_raw(bytes: Seq<u8>) -> Self {
        BaseElement(spec_u128_from_le_bytes(bytes))
    }

    open spec fn is_normalized(&self) -> bool {
        self.raw() < M
    }

    open spec fn canonical() -> bool {
        true
    }

    proof fn lemma_field() {
    }

    proof fn lemma_value(&self) {
        lemma_auto_spec_u128_to_from_le_bytes();
        if self.raw() < M {
            lemma_small_mod(self.raw() as nat, M as nat);
        }
    }

    proof fn lemma_repr(r: u128) {
    }

    proof fn lemma_raw(x: Self, bytes: Seq<u8>) {
        lemma_auto_spec_u128_to_from_le_bytes();
        assert(spec_u128_to_le_bytes(x.raw()).len() == 16);
    }

    proof fn lemma_units(x: int) {
        crate::field::fp128_units::lemma_units(x);
    }

    proof fn lemma_root_of_unity(n: nat) {
        crate::field::roots::lemma_fp128_root_of_unity(n);
    }

    proof fn lemma_encode_injective(a: int, b: int) {
        lemma_auto_spec_u128_to_from_le_bytes();
        let x: u128 = a as u128;
        let y: u128 = b as u128;
        assert(spec_u128_to_le_bytes(x).len() == 16 && spec_u128_to_le_bytes(y).len() == 16);
    }

    fn zero() -> (r: Self) {
        proof {
            lemma_small_mod(0, M as nat);
        }
        BaseElement(0)
    }

    fn one() -> (r: Self) {
        proof {
            lemma_small_mod(1, M as nat);
        }
        BaseElement(1)
    }

    fn element_bytes() -> (n: usize) {
        ELEMENT_BYTES
    }

    fn get_two_adicity() -> (k: u32) {
        TWO_ADICITY
    }

    fn is_canonical() -> (r: bool) {
        true
    }

    fn add(self, rhs: Self) -> (r: Self) {
        let v = add_mod(reduce(self.0), reduce(rhs.0));
        proof {
            lemma_add_mod_noop(self.0 as int, rhs.0 as int, M as int);
            lemma_small_mod(v as nat, M as nat);
        }
        BaseElement(v)
    }

    fn sub(self, rhs: Self) -> (r: Self) {
        let v = sub_mod(reduce(self.0), reduce(rhs.0));
        proof {
            lemma_sub_mod_noop(self.0 as int, rhs.0 as int, M as int);
            lemma_small_mod(v as nat, M as nat);
        }
        BaseElement(v)
    }

    fn mul(self, rhs: Self) -> (r: Self) {
        let v = mul_mod(self.0, rhs.0);
        proof {
            lemma_mul_mod_noop(self.0 as int, rhs.0 as int, M as int);
            lemma_small_mod(v as nat, M as nat);
        }
        BaseElement(v)
    }

    fn square(self) -> (r: Self) {
        let v = mul_mod(self.0, self.0);
        proof {
            lemma_mul_mod_noop(self.0 as int, self.0 as int, M as int);
            lemma_small_mod(v as nat, M as nat);
        }
        BaseElement(v)
    }

    fn neg(self) -> (r: Self) {
        let v = sub_mod(0, reduce(self.0));
        proof {
            lemma_sub_mod_noop_right(0, self.0 as int, M as int);
            lemma_small_mod(v as nat, M as nat);
        }
        BaseElement(v)
    }

    fn inv(self) -> (r: Self) {
        let v = inv_mod(reduce(self.0));
        proof {
            lemma_small_mod(v as nat, M as nat);
            lemma_inverse_of(self.value(), M as int);
            if self.value() != 0 {
                Self::lemma_units(self.value());
            }
        }
        BaseElement(v)
    }

    fn exp(self, power: u128) -> (r: Self) {
        let mut acc: u128 = 1;
        let mut b: u128 = reduce(self.0);
        let mut e: u128 = power;
        proof {
            lemma_exp_start(self.0 as int, power as nat, M as int);
        }
        while e > 0
            invariant
                acc < M,
                b < M,
                (acc * pow(b as int, e as nat)) % (M as int) == fpow(
                    self.value(),
                    power as nat,
                    M as int,
                ),
            decreases e,
        {
            proof {
                lemma_exp_step(acc as int, b as int, e as nat, M as int);
            }
            if e % 2 == 1 {
                acc = mul_mod(acc, b);
            }
            b = mul_mod(b, b);
            e = e / 2;
        }
        proof {
            lemma_exp_end(acc as int, b as int, M as int);
            lemma_small_mod(acc as nat, M as nat);
            lemma_pow_mod_noop(self.0 as int, power as nat, M as int);
        }
        BaseElement(acc)
    }

    fn equals(&self, other: &Self) -> (r: bool) {
        reduce(self.0) == reduce(other.0)
    }

    fn normalize(&mut self) {
        let v = reduce(self.0);
        proof {
            lemma_small_mod(v as nat, M as nat);
            if self.0 < M {
                lemma_small_mod(self.0 as nat, M as nat);
            }
        }
        self.0 = v;
    }

    fn to_repr(&self) -> (r: u128) {
        reduce(self.0)
    }

    fn from_repr(r: u128) -> (e: Self) {
        BaseElement::new(r)
    }

    fn from_u128(v: u128) -> (e: Self)
        ensures
            e == Self::element_of(v as int),
    {
        BaseElement::new(v)
    }

    fn repr_from_u64(v: u64) -> (r: u128) {
        v as u128
    }

    fn repr_halve(r: u128) -> (h: (u128, bool)) {
        (r / 2, r % 2 == 1)
    }

    fn repr_is_zero(r: u128) -> (z: bool) {
        r == 0
    }

    fn get_root_of_unity(n: u32) -> (r: Self) {
        let mut root: u128 = G;
        let mut i: u32 = 0;
        proof {
            lemma_pow1(G as int);
            lemma2_to64();
            lemma_small_mod(G as nat, M as nat);
        }
        while i < TWO_ADICITY - n
            invariant
                n <= TWO_ADICITY,
                i <= TWO_ADICITY - n,
                root < M,
                root == fpow(G as int, pow2(i as nat), M as int),
            decreases TWO_ADICITY - n - i,
        {
            proof {
                lemma_square_root_step(G as int, i as nat, M as int);
            }
            root = mul_mod(root, root);
            i = i + 1;
        }
        proof {
            lemma_small_mod(root as nat, M as nat);
        }
        BaseElement(root)
    }

    fn to_bytes(&self) -> (bytes: Vec<u8>) {
        u128_to_le_bytes(reduce(self.0))
    }

    fn as_bytes(&self) -> (bytes: Vec<u8>) {
        self.to_bytes()
    }

    fn to_raw_bytes(&self) -> (bytes: Vec<u8>) {
        u128_to_le_bytes(self.0)
    }

    fn try_from_bytes(bytes: &[u8]) -> (r: Result<Self, SerializationError>) {
        proof {
            lemma_auto_spec_u128_to_from_le_bytes();
        }
        match decode_u128(bytes) {
            Some(v) => {
                if v < M {
                    proof {
                        lemma_small_mod(v as nat, M as nat);
                    }
                    Ok(BaseElement(v))
                } else {
                    assert forall|w: int| 0 <= w < M as int implies bytes@
                        != #[trigger] spec_u128_to_le_bytes(w as u128) by {
                        let x: u128 = w as u128;
                        assert(spec_u128_to_le_bytes(x).len() == 16);
                    }
                    Err(SerializationError::InvalidFieldElement)
                }
            },
            None => {
                assert forall|w: int| 0 <= w < M as int implies bytes@
                    != #[trigger] spec_u128_to_le_bytes(w as u128) by {
                    let x: u128 = w as u128;
                    assert(spec_u128_to_le_bytes(x).len() == 16);
                }
                Err(SerializationError::InvalidFieldElement)
            },
        }
    }

    fn to_string(&self) -> (s: String) {
        decimal_string(self.to_repr())
    }

    fn from_raw_bytes(bytes: &[u8]) -> (e: Self) {
        proof {
            lemma_auto_spec_u128_to_from_le_bytes();
        }
        match decode_u128(bytes) {
            Some(v) => BaseElement(v),
            None => BaseElement(0),
        }
    }
}

impl BaseElement {
    /// The additive identity.
    pub fn zero() -> (r: Self)
        ensures
            r.as_int() == 0,
    {
        <Self as StarkField>::zero()
    }

    /// The multiplicative identity.
    pub fn one() -> (r: Self)
        ensures
            r.as_int() == 1,
    {
        <Self as StarkField>::one()
    }

    /// Field addition.
    pub fn add(self, rhs: Self) -> (r: Self)
        ensures
            r.as_int() == fadd(self.as_int(), rhs.as_int(), M as int),
    {
        StarkField::add(self, rhs)
    }

    /// Field subtraction.
    pub fn sub(self, rhs: Self) -> (r: Self)
        ensures
            r.as_int() == fsub(self.as_int(), rhs.as_int(), M as int),
    {
        StarkField::sub(self, rhs)
    }

    /// Field multiplication.
    pub fn mul(self, rhs: Self) -> (r: Self)
        ensures
            r.as_int() == fmul(self.as_int(), rhs.as_int(), M as int),
    {
        StarkField::mul(self, rhs)
    }

    /// The product of the element with itself.
    pub fn square(self) -> (r: Self)
        ensures
            r.as_int() == fmul(self.as_int(), self.as_int(), M as int),
    {
        StarkField::square(self)
    }

    /// Additive inverse.
    pub fn neg(self) -> (r: Self)
        ensures
            r.as_int() == fneg(self.as_int(), M as int),
    {
        StarkField::neg(self)
    }

    /// Multiplicative inverse, and zero for zero.
    pub fn inv(self) -> (r: Self)
        ensures
            r.as_int() == finv(self.as_int(), M as int),
            self.as_int() != 0 ==> fmul(self.as_int(), r.as_int(), M as int) == 1,
            self.as_int() == 0 ==> r.as_int() == 0,
    {
        StarkField::inv(self)
    }

    /// The quotient: the product with the inverse of `rhs`, and so zero where
    /// `rhs` is zero.
    pub fn div(self, rhs: Self) -> (r: Self)
        ensures
            r.as_int() == fmul(self.as_int(), finv(rhs.as_int(), M as int), M as int),
    {
        StarkField::mul(self, StarkField::inv(rhs))
    }

    /// Whether two elements stand for the same residue.
    pub fn equals(&self, other: &Self) -> (r: bool)
        ensures
            r == (self.as_int() == other.as_int()),
    {
        StarkField::equals(self, other)
    }

    /// A vector of `n` zeros.
    pub fn zeroed_vector(n: usize) -> (r: Vec<Self>)
        ensures
            r@.len() == n,
            forall|i: int| 0 <= i < n ==> (#[trigger] r@[i]).value() == 0,
    {
        buffers::zeroed_vector(n)
    }

    /// The bytes that the elements are held in, one element after the other.
    pub fn elements_as_bytes(elements: &[Self]) -> (bytes: Vec<u8>)
        requires
            elements@.len() * ELEMENT_BYTES <= usize::MAX,
        ensures
            bytes@ == raw_bytes_of::<Self>(elements@),
    {
        buffers::elements_as_bytes(elements)
    }

    /// The elements held in a buffer. The buffer must hold a whole number of
    /// elements, or else the length is invalid; and it must start at an address
    /// that is a multiple of the element size, or else the alignment is.
    pub fn bytes_as_elements(bytes: &[u8]) -> (r: Result<Vec<Self>, SerializationError>)
        ensures
            match r {
                Ok(elements) => bytes@.len() % (ELEMENT_BYTES as nat) == 0 && elements@
                    == elements_in::<Self>(bytes@),
                Err(e) => if bytes@.len() % (ELEMENT_BYTES as nat) != 0 {
                    e == SerializationError::InvalidLength
                } else {
                    e == SerializationError::InvalidAlignment
                },
            },
    {
        buffers::bytes_as_elements(bytes)
    }

    /// The elements as elements of the base field: themselves.
    pub fn as_base_elements(elements: &[Self]) -> (r: Vec<Self>)
        ensures
            r@ == elements@,
    {
        buffers::copy_elements(elements)
    }

    /// Reads an element from its canonical encoding: exactly as many bytes as
    /// an element takes, which encode a residue below the modulus.
    pub fn try_from(bytes: &[u8]) -> (r: Result<Self, SerializationError>)
        ensures
            match r {
                Ok(e) => bytes@ == Self::encode(e.value()) && e.is_normalized(),
                Err(err) => err == SerializationError::InvalidFieldElement && forall|v: int|
                    0 <= v < M ==> bytes@ != #[trigger] Self::encode(v),
            },
    {
        Self::try_from_bytes(bytes)
    }

    /// An element read from random bytes as from its canonical encoding; none
    /// where the bytes encode no residue.
    pub fn from_random_bytes(bytes: &[u8]) -> (r: Option<Self>)
        ensures
            match r {
                Some(e) => bytes@ == Self::encode(e.value()) && e.is_normalized(),
                None => forall|v: int| 0 <= v < M ==> bytes@ != #[trigger] Self::encode(v),
            },
    {
        buffers::from_random_bytes(bytes)
    }
}

impl Default for BaseElement {
    fn default() -> (r: Self)
        ensures
            r.as_int() == 0,
    {
        <Self as StarkField>::zero()
    }
}

impl PartialEq for BaseElement {
    fn eq(&self, other: &Self) -> (r: bool) {
        self.equals(other)
    }
}

impl PartialEqSpecImpl for BaseElement {
    open spec fn obeys_eq_spec() -> bool {
        true
    }

    open spec fn eq_spec(&self, other: &Self) -> bool {
        self.as_int() == other.as_int()
    }
}

impl Eq for BaseElement {

}

impl From<u128> for BaseElement {
    fn from(value: u128) -> (r: Self) {
        Self::from_u128(value as u128)
    }
}

impl FromSpecImpl<u128> for BaseElement {
    open spec fn obeys_from_spec() -> bool {
        true
    }

    open spec fn from_spec(value: u128) -> Self {
        Self::element_of(value as int)
    }
}

impl From<u64> for BaseElement {
    fn from(value: u64) -> (r: Self) {
        Self::from_u128(value as u128)
    }
}

impl FromSpecImpl<u64> for BaseElement {
    open spec fn obeys_from_spec() -> bool {
        true
    }

    open spec fn from_spec(value: u64) -> Self {
        Self::element_of(value as int)
    }
}

impl From<u32> for BaseElement {
    fn from(value: u32) -> (r: Self) {
        Self::from_u128(value as u128)
    }
}

impl FromSpecImpl<u32> for BaseElement {
    open spec fn obeys_from_spec() -> bool {
        true
    }

    open spec fn from_spec(value: u32) -> Self {
        Self::element_of(value as int)
    }
}

impl From<u16> for BaseElement {
    fn from(value: u16) -> (r: Self) {
        Self::from_u128(value as u128)
    }
}

impl FromSpecImpl<u16> for BaseElement {
    open spec fn obeys_from_spec() -> bool {
        true
    }

    open spec fn from_spec(value: u16) -> Self {
        Self::element_of(value as int)
    }
}

impl From<u8> for BaseElement {
    fn from(value: u8) -> (r: Self) {
        Self::from_u128(value as u128)
    }
}

impl FromSpecImpl<u8> for BaseElement {
    open spec fn obeys_from_spec() -> bool {
        true
    }

    open spec fn from_spec(value: u8) -> Self {
        Self::element_of(value as int)
    }
}

impl QuadExtensible for BaseElement {
    proof fn lemma_five_is_no_square() {
        crate::field::fp128_units::lemma_five_is_no_square();
    }
}

impl core::ops::Add for BaseElement {
    type Output = Self;

    fn add(self, rhs: Self) -> (r: Self)
        ensures
            r.as_int() == fadd(self.as_int(), rhs.as_int(), M as int),
    {
        BaseElement::add(self, rhs)
    }
}

impl AddSpecImpl for BaseElement {
    open spec fn obeys_add_spec() -> bool {
        false
    }

    open spec fn add_req(self, rhs: Self) -> bool {
        true
    }

    open spec fn add_spec(self, rhs: Self) -> Self {
        self
    }
}

impl core::ops::AddAssign for BaseElement {
    fn add_assign(&mut self, rhs: Self)
        ensures
            final(self).as_int() == fadd(old(self).as_int(), rhs.as_int(), M as int),
    {
        *self = BaseElement::add(*self, rhs);
    }
}

impl core::ops::Sub for BaseElement {
    type Output = Self;

    fn sub(self, rhs: Self) -> (r: Self)
        ensures
            r.as_int() == fsub(self.as_int(), rhs.as_int(), M as int),
    {
        BaseElement::sub(self, rhs)
    }
}

impl SubSpecImpl for BaseElement {
    open spec fn obeys_sub_spec() -> bool {
        false
    }

    open spec fn sub_req(self, rhs: Self) -> bool {
        true
    }

    open spec fn sub_spec(self, rhs: Self) -> Self {
        self
    }
}

impl core::ops::SubAssign for BaseElement {
    fn sub_assign(&mut self, rhs: Self)
        ensures
            final(self).as_int() == fsub(old(self).as_int(), rhs.as_int(), M as int),
    {
        *self = BaseElement::sub(*self, rhs);
    }
}

impl core::ops::Mul for BaseElement {
    type Output = Self;

    fn mul(self, rhs: Self) -> (r: Self)
        ensures
            r.as_int() == fmul(self.as_int(), rhs.as_int(), M as int),
    {
        BaseElement::mul(self, rhs)
    }
}

impl MulSpecImpl for BaseElement {
    open spec fn obeys_mul_spec() -> bool {
        false
    }

    open spec fn mul_req(self, rhs: Self) -> bool {
        true
    }

    open spec fn mul_spec(self, rhs: Self) -> Self {
        self
    }
}

impl core::ops::MulAssign for BaseElement {
    fn mul_assign(&mut self, rhs: Self)
        ensures
            final(self).as_int() == fmul(old(self).as_int(), rhs.as_int(), M as int),
    {
        *self = BaseElement::mul(*self, rhs);
    }
}

impl core::ops::Div for BaseElement {
    type Output = Self;

    fn div(self, rhs: Self) -> (r: Self)
        ensures
            r.as_int() == fmul(self.as_int(), finv(rhs.as_int(), M as int), M as int),
    {
        BaseElement::div(self, rhs)
    }
}

impl DivSpecImpl for BaseElement {
    open spec fn obeys_div_spec() -> bool {
        false
    }

    open spec fn div_req(self, rhs: Self) -> bool {
        true
    }

    open spec fn div_spec(self, rhs: Self) -> Self {
        self
    }
}

impl core::ops::DivAssign for BaseElement {
    fn div_assign(&mut self, rhs: Self)
        ensures
            final(self).as_int() == fmul(old(self).as_int(), finv(rhs.as_int(), M as int), M as int),
    {
        *self = BaseElement::div(*self, rhs);
    }
}

impl core::ops::Neg for BaseElement {
    type Output = Self;

    fn neg(self) -> (r: Self)
        ensures
            r.as_int() == fneg(self.as_int(), M as int),
    {
        BaseElement::neg(self)
    }
}

impl NegSpecImpl for BaseElement {
    open spec fn obeys_neg_spec() -> bool {
        false
    }

    open spec fn neg_req(self) -> bool {
        true
    }

    open spec fn neg_spec(self) -> Self {
        self
    }
}

} // verus!

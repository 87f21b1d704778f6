//! The prime field with modulus `2^251 + 17 * 2^192 + 1`.
//!
//! An element is held as an integer of 256 bits, in two halves of 128 bits. The
//! operations of the field return the canonical residue, and accept any integer
//! of 256 bits as an operand.

use vstd::prelude::*;
use vstd::arithmetic::div_mod::*;
use vstd::arithmetic::power::*;
use vstd::arithmetic::power2::*;
use vstd::bytes::*;
use vstd::slice::slice_subrange;
use vstd::string::StringExecFns;
use crate::bytes::decode_u128;
use crate::errors::SerializationError;
use crate::field::modular::{
    fadd, fsub, fmul, fneg, fpow, finv, lemma_exp_step, lemma_exp_start, lemma_exp_end,
    lemma_finv_is, lemma_inverse_of, lemma_square_root_step,
};
use crate::field::number_theory::lemma_fpow_add;
use crate::field::buffers;
use crate::field::buffers::{raw_bytes_of, elements_in};
use crate::field::traits::StarkField;
use vstd::std_specs::cmp::PartialEqSpecImpl;
use vstd::std_specs::convert::FromSpecImpl;
use vstd::std_specs::ops::{AddSpecImpl, SubSpecImpl, MulSpecImpl, DivSpecImpl, NegSpecImpl};
use crate::text::{decimal, decimal_string, digit, digit_text};

verus! {

/// Number of bytes of one element.
pub const ELEMENT_BYTES: usize = 32;

/// The field has roots of unity of order `2^192`.
pub const TWO_ADICITY: u32 = 192;

/// The high half of the modulus.
pub const M_HI: u128 = 0x0800_0000_0000_0011_0000_0000_0000_0000;

/// The low half of the modulus.
pub const M_LO: u128 = 1;

/// The high half of a primitive root of unity of order `2^192`.
pub const G_HI: u128 = 0x0052_82db_8752_9cfa_3f04_6451_9c8b_0fa5;

/// The low half of a primitive root of unity of order `2^192`.
pub const G_LO: u128 = 0xad18_7148_e11a_6161_6070_024f_42f8_ef94;

/// The modulus of the field.
pub open spec fn modulus() -> int {
    0x0800_0000_0000_0011_0000_0000_0000_0000_0000_0000_0000_0000_0000_0000_0000_0001int
}

/// A primitive root of unity of order `2^192`.
pub open spec fn root() -> int {
    0x0052_82db_8752_9cfa_3f04_6451_9c8b_0fa5_ad18_7148_e11a_6161_6070_024f_42f8_ef94int
}

/// Two to the power of 128.
pub open spec fn two128() -> int {
    0x1_0000_0000_0000_0000_0000_0000_0000_0000int
}

/// An unsigned integer of 256 bits, as its high and low halves.
#[derive(Copy, Clone, Debug, PartialEq, Eq, Default, Structural)]
pub struct U256 {
    pub hi: u128,
    pub lo: u128,
}

impl U256 {
    /// The integer that the two halves stand for.
    pub open spec fn value(self) -> int {
        self.hi * two128() + self.lo
    }

    /// The integer with the given halves.
    pub fn new(hi: u128, lo: u128) -> (r: Self)
        ensures
            r.hi == hi,
            r.lo == lo,
    {
        U256 { hi, lo }
    }

    /// Whether this integer is below `other`.
    pub fn lt(self, other: Self) -> (r: bool)
        ensures
            r == (self.value() < other.value()),
    {
        self.hi < other.hi || (self.hi == other.hi && self.lo < other.lo)
    }

    /// Whether this integer is zero.
    pub fn is_zero(self) -> (r: bool)
        ensures
            r == (self.value() == 0),
    {
        self.hi == 0 && self.lo == 0
    }

    /// The sum of two integers that is below `2^256`.
    pub fn plus(self, other: Self) -> (r: Self)
        requires
            self.value() + other.value() < two128() * two128(),
        ensures
            r.value() == self.value() + other.value(),
    {
        let room: u128 = u128::MAX - other.lo;
        proof {
            assert(self.hi + other.hi < two128()) by (nonlinear_arith)
                requires
                    self.hi * two128() + self.lo + (other.hi * two128() + other.lo) < two128()
                        * two128(),
                    self.lo >= 0,
                    other.lo >= 0,
                    two128() > 0,
            ;
        }
        if self.lo > room {
            proof {
                assert(self.hi + other.hi + 1 < two128()) by (nonlinear_arith)
                    requires
                        self.hi * two128() + self.lo + (other.hi * two128() + other.lo) < two128()
                            * two128(),
                        self.lo + other.lo >= two128(),
                        two128() > 0,
                ;
                assert((self.hi + other.hi + 1) * two128() + (self.lo + other.lo - two128()) == (
                self.hi * two128() + self.lo) + (other.hi * two128() + other.lo))
                    by (nonlinear_arith);
            }
            U256 { hi: self.hi + other.hi + 1, lo: self.lo - room - 1 }
        } else {
            proof {
                assert((self.hi + other.hi) * two128() + (self.lo + other.lo) == (self.hi * two128()
                    + self.lo) + (other.hi * two128() + other.lo)) by (nonlinear_arith);
            }
            U256 { hi: self.hi + other.hi, lo: self.lo + other.lo }
        }
    }

    /// The difference of two integers of which the first is not below the
    /// second.
    pub fn minus(self, other: Self) -> (r: Self)
        requires
            self.value() >= other.value(),
        ensures
            r.value() == self.value() - other.value(),
    {
        proof {
            assert(self.hi >= other.hi) by (nonlinear_arith)
                requires
                    self.hi * two128() + self.lo >= other.hi * two128() + other.lo,
                    0 <= self.lo < two128(),
                    0 <= other.lo < two128(),
            ;
        }
        if self.lo >= other.lo {
            proof {
                assert((self.hi - other.hi) * two128() + (self.lo - other.lo) == (self.hi * two128()
                    + self.lo) - (other.hi * two128() + other.lo)) by (nonlinear_arith);
            }
            U256 { hi: self.hi - other.hi, lo: self.lo - other.lo }
        } else {
            proof {
                assert(self.hi > other.hi) by (nonlinear_arith)
                    requires
                        self.hi * two128() + self.lo >= other.hi * two128() + other.lo,
                        self.lo < other.lo,
                        self.hi >= other.hi,
                        two128() > 0,
                ;
                assert((self.hi - other.hi - 1) * two128() + (two128() - other.lo + self.lo) == (
                self.hi * two128() + self.lo) - (other.hi * two128() + other.lo))
                    by (nonlinear_arith);
            }
            U256 { hi: self.hi - other.hi - 1, lo: u128::MAX - other.lo + self.lo + 1 }
        }
    }

    /// Half of the integer, rounded down, and whether the integer is odd.
    pub fn halve(self) -> (r: (Self, bool))
        ensures
            r.0.value() == self.value() / 2,
            r.1 == (self.value() % 2 == 1),
    {
        let carry: u128 = if self.hi % 2 == 1 {
            0x8000_0000_0000_0000_0000_0000_0000_0000
        } else {
            0
        };
        let half = U256 { hi: self.hi / 2, lo: self.lo / 2 + carry };
        let odd = self.lo % 2 == 1;
        proof {
            let bit: int = if odd { 1 } else { 0 };
            assert(self.value() == 2 * half.value() + bit) by (nonlinear_arith)
                requires
                    self.value() == self.hi * two128() + self.lo,
                    half.value() == (self.hi / 2) * two128() + (self.lo / 2 + carry),
                    self.lo == 2 * (self.lo / 2) + bit,
                    self.hi == 2 * (self.hi / 2) + (self.hi % 2),
                    carry == (self.hi % 2) * 0x8000_0000_0000_0000_0000_0000_0000_0000int,
                    two128() == 2 * 0x8000_0000_0000_0000_0000_0000_0000_0000int,
            ;
            lemma_fundamental_div_mod_converse(self.value(), 2, half.value(), bit);
        }
        (half, odd)
    }
}

/// The modulus as an integer of 256 bits.
pub fn modulus_repr() -> (m: U256)
    ensures
        m.value() == modulus(),
{
    U256 { hi: M_HI, lo: M_LO }
}

/// The canonical residue of an integer of 256 bits.
pub fn reduce(v: U256) -> (r: U256)
    ensures
        r.value() == v.value() % modulus(),
        r.value() < modulus(),
{
    let m1 = modulus_repr();
    let m2 = m1.plus(m1);
    let m4 = m2.plus(m2);
    let m8 = m4.plus(m4);
    let m16 = m8.plus(m8);
    let mut r = v;
    let ghost mut taken: int = 0;
    assert(v.value() < 32 * modulus()) by (nonlinear_arith)
        requires
            v.value() == v.hi * two128() + v.lo,
            v.hi < two128(),
            v.lo < two128(),
            two128() == 0x1_0000_0000_0000_0000_0000_0000_0000_0000int,
            modulus()
                == 0x0800_0000_0000_0011_0000_0000_0000_0000_0000_0000_0000_0000_0000_0000_0000_0001int,
    ;
    if !r.lt(m16) {
        r = r.minus(m16);
        proof {
            taken = taken + 16;
        }
    }
    if !r.lt(m8) {
        r = r.minus(m8);
        proof {
            taken = taken + 8;
        }
    }
    if !r.lt(m4) {
        r = r.minus(m4);
        proof {
            taken = taken + 4;
        }
    }
    if !r.lt(m2) {
        r = r.minus(m2);
        proof {
            taken = taken + 2;
        }
    }
    if !r.lt(m1) {
        r = r.minus(m1);
        proof {
            taken = taken + 1;
        }
    }
    proof {
        assert(v.value() == taken * modulus() + r.value());
        lemma_mod_multiples_vanish(taken, r.value(), modulus());
        lemma_small_mod(r.value() as nat, modulus() as nat);
    }
    r
}

/// Sum of two canonical residues.
pub fn add_mod(a: U256, b: U256) -> (r: U256)
    requires
        a.value() < modulus(),
        b.value() < modulus(),
    ensures
        r.value() == fadd(a.value(), b.value(), modulus()),
        r.value() < modulus(),
{
    let m = modulus_repr();
    let sum = a.plus(b);
    if sum.lt(m) {
        proof {
            lemma_small_mod(sum.value() as nat, modulus() as nat);
        }
        sum
    } else {
        proof {
            lemma_mod_sub_multiples_vanish(sum.value(), modulus());
            lemma_small_mod((sum.value() - modulus()) as nat, modulus() as nat);
        }
        sum.minus(m)
    }
}

/// Difference of two canonical residues.
pub fn sub_mod(a: U256, b: U256) -> (r: U256)
    requires
        a.value() < modulus(),
        b.value() < modulus(),
    ensures
        r.value() == fsub(a.value(), b.value(), modulus()),
        r.value() < modulus(),
{
    if a.lt(b) {
        proof {
            lemma_mod_add_multiples_vanish(a.value() - b.value(), modulus());
            lemma_small_mod((a.value() + modulus() - b.value()) as nat, modulus() as nat);
        }
        a.plus(modulus_repr()).minus(b)
    } else {
        proof {
            lemma_small_mod((a.value() - b.value()) as nat, modulus() as nat);
        }
        a.minus(b)
    }
}

/// The step of double-and-add: with the factor `e` halved and the other factor
/// doubled, an odd `e` adds the other factor to the sum.
pub proof fn lemma_double_and_add(r: int, x: int, e: int, p: int)
    requires
        p > 1,
        e >= 0,
    ensures
        e % 2 == 1 ==> (((r + x) % p) + ((x + x) % p) * (e / 2)) % p == (r + x * e) % p,
        e % 2 == 0 ==> (r + ((x + x) % p) * (e / 2)) % p == (r + x * e) % p,
{
    let h = e / 2;
    lemma_fundamental_div_mod(e, 2);
    lemma_mul_mod_noop_left(x + x, h, p);
    if e % 2 == 1 {
        assert(r + x * e == (r + x) + (x + x) * h) by (nonlinear_arith)
            requires
                e == 2 * h + 1,
        ;
        lemma_add_mod_noop((r + x), (x + x) * h, p);
        lemma_add_mod_noop((r + x) % p, ((x + x) % p) * h, p);
        lemma_mod_twice(r + x, p);
    } else {
        assert(r + x * e == r + (x + x) * h) by (nonlinear_arith)
            requires
                e == 2 * h,
        ;
        lemma_add_mod_noop_right(r, (x + x) * h, p);
        lemma_add_mod_noop_right(r, ((x + x) % p) * h, p);
    }
}

/// Product of a canonical residue and an integer of 256 bits modulo the field
/// modulus, by doubling and adding.
pub fn mul_mod(a: U256, b: U256) -> (r: U256)
    requires
        a.value() < modulus(),
    ensures
        r.value() == fmul(a.value(), b.value(), modulus()),
        r.value() < modulus(),
{
    let mut sum = U256 { hi: 0, lo: 0 };
    let mut x = a;
    let mut e = b;
    proof {
        assert(0 + a.value() * b.value() == a.value() * b.value());
    }
    while !e.is_zero()
        invariant
            sum.value() < modulus(),
            x.value() < modulus(),
            e.value() >= 0,
            (sum.value() + x.value() * e.value()) % modulus() == (a.value() * b.value())
                % modulus(),
        decreases e.value(),
    {
        proof {
            lemma_double_and_add(sum.value(), x.value(), e.value(), modulus());
        }
        let (half, odd) = e.halve();
        if odd {
            sum = add_mod(sum, x);
        }
        x = add_mod(x, x);
        e = half;
    }
    proof {
        assert(x.value() * 0 == 0);
        lemma_small_mod(sum.value() as nat, modulus() as nat);
    }
    sum
}

/// The quotient and the remainder of an integer of 256 bits divided by ten.
pub fn div10(v: U256) -> (r: (U256, u8))
    ensures
        r.0.value() == v.value() / 10,
        r.1 == v.value() % 10,
{
    // 2^128 == 10 * TENTH + 6
    let tenth: u128 = 34028236692093846346337460743176821145;
    let qh: u128 = v.hi / 10;
    let rh: u128 = v.hi % 10;
    let ql: u128 = v.lo / 10;
    let rl: u128 = v.lo % 10;
    let rest: u128 = 6 * rh + rl;
    let low: u128 = rh * tenth + ql + rest / 10;
    let q = U256 { hi: qh, lo: low };
    let r: u8 = (rest % 10) as u8;
    proof {
        assert(v.value() == 10 * q.value() + r) by (nonlinear_arith)
            requires
                v.value() == v.hi * two128() + v.lo,
                q.value() == qh * two128() + low,
                v.hi == 10 * qh + rh,
                v.lo == 10 * ql + rl,
                rest == 6 * rh + rl,
                low == rh * tenth + ql + rest / 10,
                rest == 10 * (rest / 10) + r,
                two128() == 10 * tenth + 6,
        ;
        lemma_fundamental_div_mod_converse(v.value(), 10, q.value(), r as int);
    }
    (q, r)
}

/// The decimal text of an integer of 256 bits.
pub fn decimal_string_256(v: U256) -> (s: String)
    ensures
        s@ == decimal(v.value() as nat),
    decreases v.value(),
{
    if v.hi == 0 {
        decimal_string(v.lo)
    } else {
        let (q, r) = div10(v);
        proof {
            assert(v.value() >= two128()) by (nonlinear_arith)
                requires
                    v.value() == v.hi * two128() + v.lo,
                    v.hi >= 1,
                    v.lo >= 0,
                    two128() > 0,
            ;
        }
        let head = decimal_string_256(q);
        let s = head.concat(digit_text(r));
        proof {
            assert(s@ =~= decimal((v.value() / 10) as nat).push(digit((v.value() % 10) as int)));
        }
        s
    }
}

/// An element of the field.
#[derive(Copy, Clone, Debug)]
pub struct BaseElement(U256);

impl BaseElement {
    /// Number of bytes of one element.
    pub const ELEMENT_BYTES: usize = ELEMENT_BYTES;

    /// The field has roots of unity of every order `2^n` up to this `n`.
    pub const TWO_ADICITY: u32 = TWO_ADICITY;

    /// Whether the operations hold every element they return as its canonical
    /// residue.
    pub const IS_CANONICAL: bool = true;

    /// The integer this element is held as.
    pub closed spec fn raw(self) -> U256 {
        self.0
    }

    /// The canonical residue of this element.
    pub open spec fn as_int(self) -> int {
        self.raw().value() % modulus()
    }

    /// The element that stands for the integer `v`, in reduced form.
    pub closed spec fn element_of(v: int) -> Self {
        BaseElement(
            U256 {
                hi: ((v % modulus()) / two128()) as u128,
                lo: ((v % modulus()) % two128()) as u128,
            },
        )
    }

    /// The element that `value` stands for.
    pub fn new(value: U256) -> (r: Self)
        ensures
            r.as_int() == value.value() % modulus(),
            r.raw().value() < modulus(),
            r == Self::element_of(value.value()),
    {
        let v = reduce(value);
        proof {
            lemma_small_mod(v.value() as nat, modulus() as nat);
            lemma_fundamental_div_mod_converse(v.value(), two128(), v.hi as int, v.lo as int);
        }
        BaseElement(v)
    }

    /// The integer this element is held as.
    pub fn inner(&self) -> (v: U256)
        ensures
            v == self.raw(),
    {
        self.0
    }
}

/// The canonical encoding of a residue: its low half and then its high half,
/// each least significant byte first.
pub open spec fn encode_256(v: int) -> Seq<u8> {
    spec_u128_to_le_bytes((v % two128()) as u128) + spec_u128_to_le_bytes((v / two128()) as u128)
}

/// The bytes of an integer of 256 bits, least significant first.
pub open spec fn bytes_256(v: U256) -> Seq<u8> {
    spec_u128_to_le_bytes(v.lo) + spec_u128_to_le_bytes(v.hi)
}

/// The integer of 256 bits with the given bytes, least significant first.
pub open spec fn from_bytes_256(bytes: Seq<u8>) -> U256 {
    U256 {
        hi: spec_u128_from_le_bytes(bytes.subrange(16, 32)),
        lo: spec_u128_from_le_bytes(bytes.subrange(0, 16)),
    }
}

/// Writing an integer of 256 bits to bytes and reading it back are inverse to
/// each other.
pub proof fn lemma_bytes_256(v: U256, bytes: Seq<u8>)
    ensures
        bytes_256(v).len() == 32,
        from_bytes_256(bytes_256(v)) == v,
        bytes.len() == 32 ==> bytes_256(from_bytes_256(bytes)) == bytes,
        bytes_256(v) == encode_256(v.value()),
{
    lemma_auto_spec_u128_to_from_le_bytes();
    let lo = spec_u128_to_le_bytes(v.lo);
    let hi = spec_u128_to_le_bytes(v.hi);
    assert(lo.len() == 16 && hi.len() == 16);
    assert((lo + hi).subrange(0, 16) =~= lo);
    assert((lo + hi).subrange(16, 32) =~= hi);
    if bytes.len() == 32 {
        let a = bytes.subrange(0, 16);
        let b = bytes.subrange(16, 32);
        assert(spec_u128_to_le_bytes(spec_u128_from_le_bytes(a)) == a);
        assert(spec_u128_to_le_bytes(spec_u128_from_le_bytes(b)) == b);
        assert(a + b =~= bytes);
    }
    lemma_fundamental_div_mod_converse(v.value(), two128(), v.hi as int, v.lo as int);
}

/// The integer of 256 bits that exactly 32 bytes encode, least significant byte
/// first.
pub fn decode_256(bytes: &[u8]) -> (r: Option<U256>)
    ensures
        r == if bytes@.len() == 32 {
            Some(from_bytes_256(bytes@))
        } else {
            None
        },
{
    if bytes.len() != 32 {
        return None;
    }
    let lo = decode_u128(slice_subrange(bytes, 0, 16));
    let hi = decode_u128(slice_subrange(bytes, 16, 32));
    match (hi, lo) {
        (Some(hi), Some(lo)) => Some(U256 { hi, lo }),
        _ => None,
    }
}

/// The bytes of an integer of 256 bits, least significant first.
pub fn encode_bytes(v: U256) -> (bytes: Vec<u8>)
    ensures
        bytes@ == bytes_256(v),
{
    let mut bytes = u128_to_le_bytes(v.lo);
    let mut high = u128_to_le_bytes(v.hi);
    bytes.append(&mut high);
    bytes
}

impl StarkField for BaseElement {
    type Representation = U256;

    open spec fn modulus() -> int {
        modulus()
    }

    open spec fn value(&self) -> int {
        self.as_int()
    }

    open spec fn repr_value(r: U256) -> int {
        r.value()
    }

    open spec fn num_bytes() -> nat {
        32
    }

    open spec fn two_adicity() -> nat {
        192
    }

    open spec fn two_adic_root() -> int {
        root()
    }

    open spec fn raw_bytes(&self) -> Seq<u8> {
        bytes_256(self.raw())
    }

    open spec fn encode(v: int) -> Seq<u8> {
        encode_256(v)
    }

    closed spec fn from_raw(bytes: Seq<u8>) -> Self {
        BaseElement(from_bytes_256(bytes))
    }

    open spec fn is_normalized(&self) -> bool {
        self.raw().value() < modulus()
    }

    open spec fn canonical() -> bool {
        true
    }

    proof fn lemma_field() {
    }

    proof fn lemma_value(&self) {
        lemma_bytes_256(self.raw(), Seq::empty());
        lemma_auto_spec_u128_to_from_le_bytes();
        let v = self.as_int();
        let lo = (v % two128()) as u128;
        let hi = (v / two128()) as u128;
        assert(spec_u128_to_le_bytes(lo).len() == 16 && spec_u128_to_le_bytes(hi).len() == 16);
        if self.raw().value() < modulus() {
            lemma_small_mod(self.raw().value() as nat, modulus() as nat);
        }
    }

    proof fn lemma_repr(r: U256) {
    }

    proof fn lemma_raw(x: Self, bytes: Seq<u8>) {
        lemma_bytes_256(x.raw(), bytes);
    }

    proof fn lemma_units(x: int) {
        crate::field::fp252_units::lemma_units(x);
    }

    proof fn lemma_root_of_unity(n: nat) {
        crate::field::roots::lemma_fp252_root_of_unity(n);
    }

    proof fn lemma_encode_injective(a: int, b: int) {
        lemma_auto_spec_u128_to_from_le_bytes();
        let (alo, ahi) = ((a % two128()) as u128, (a / two128()) as u128);
        let (blo, bhi) = ((b % two128()) as u128, (b / two128()) as u128);
        let (x, y) = (spec_u128_to_le_bytes(alo), spec_u128_to_le_bytes(ahi));
        let (z, w) = (spec_u128_to_le_bytes(blo), spec_u128_to_le_bytes(bhi));
        assert(x.len() == 16 && y.len() == 16 && z.len() == 16 && w.len() == 16);
        assert((x + y).subrange(0, 16) =~= x);
        assert((x + y).subrange(16, 32) =~= y);
        assert((z + w).subrange(0, 16) =~= z);
        assert((z + w).subrange(16, 32) =~= w);
        lemma_fundamental_div_mod(a, two128());
        lemma_fundamental_div_mod(b, two128());
    }

    fn zero() -> (r: Self) {
        proof {
            lemma_small_mod(0, modulus() as nat);
        }
        BaseElement(U256 { hi: 0, lo: 0 })
    }

    fn one() -> (r: Self) {
        proof {
            lemma_small_mod(1, modulus() as nat);
        }
        BaseElement(U256 { hi: 0, lo: 1 })
    }

    fn element_bytes() -> (n: usize) {
        ELEMENT_BYTES
    }

    fn get_two_adicity() -> (k: u32) {
        TWO_ADICITY
    }

    fn is_canonical() -> (r: bool) {
        true
    }

    fn add(self, rhs: Self) -> (r: Self) {
        let v = add_mod(reduce(self.0), reduce(rhs.0));
        proof {
            lemma_add_mod_noop(self.0.value(), rhs.0.value(), modulus());
            lemma_small_mod(v.value() as nat, modulus() as nat);
        }
        BaseElement(v)
    }

    fn sub(self, rhs: Self) -> (r: Self) {
        let v = sub_mod(reduce(self.0), reduce(rhs.0));
        proof {
            lemma_sub_mod_noop(self.0.value(), rhs.0.value(), modulus());
            lemma_small_mod(v.value() as nat, modulus() as nat);
        }
        BaseElement(v)
    }

    fn mul(self, rhs: Self) -> (r: Self) {
        let v = mul_mod(reduce(self.0), rhs.0);
        proof {
            lemma_mul_mod_noop(self.0.value(), rhs.0.value(), modulus());
            lemma_mul_mod_noop_right(self.0.value() % modulus(), rhs.0.value(), modulus());
            lemma_small_mod(v.value() as nat, modulus() as nat);
        }
        BaseElement(v)
    }

    fn square(self) -> (r: Self) {
        StarkField::mul(self, self)
    }

    fn neg(self) -> (r: Self) {
        let v = sub_mod(U256 { hi: 0, lo: 0 }, reduce(self.0));
        proof {
            lemma_sub_mod_noop_right(0, self.0.value(), modulus());
            lemma_small_mod(v.value() as nat, modulus() as nat);
        }
        BaseElement(v)
    }

    fn inv(self) -> (r: Self) {
        let x = reduce(self.0);
        if x.is_zero() {
            proof {
                lemma_inverse_of(0, modulus());
                lemma_small_mod(0, modulus() as nat);
            }
            return BaseElement(x);
        }
        // the power with the exponent M - 2
        let power = U256 { hi: M_HI - 1, lo: u128::MAX };
        let r = BaseElement(x).exp(power);
        proof {
            let p = modulus();
            let a = self.value();
            lemma_small_mod(a as nat, p as nat);
            assert(power.value() == p - 2);
            Self::lemma_units(a);
            lemma_fpow_add(a, 1, (p - 2) as nat, p);
            lemma_pow1(a);
            r.lemma_value();
            lemma_small_mod(r.value() as nat, p as nat);
            lemma_mul_mod_noop_right(a, pow(a, (p - 2) as nat), p);
            lemma_finv_is(a, r.value(), p);
        }
        r
    }

    fn exp(self, power: U256) -> (r: Self) {
        let mut acc = U256 { hi: 0, lo: 1 };
        let mut b = reduce(self.0);
        let mut e = power;
        proof {
            lemma_exp_start(self.0.value(), power.value() as nat, modulus());
        }
        while !e.is_zero()
            invariant
                acc.value() < modulus(),
                b.value() < modulus(),
                e.value() >= 0,
                (acc.value() * pow(b.value(), e.value() as nat)) % modulus() == fpow(
                    self.value(),
                    power.value() as nat,
                    modulus(),
                ),
            decreases e.value(),
        {
            proof {
                lemma_exp_step(acc.value(), b.value(), e.value() as nat, modulus());
            }
            let (half, odd) = e.halve();
            if odd {
                acc = mul_mod(acc, b);
            }
            b = mul_mod(b, b);
            e = half;
        }
        proof {
            lemma_exp_end(acc.value(), b.value(), modulus());
            lemma_small_mod(acc.value() as nat, modulus() as nat);
            lemma_pow_mod_noop(self.0.value(), power.value() as nat, modulus());
        }
        BaseElement(acc)
    }

    fn equals(&self, other: &Self) -> (r: bool) {
        let a = reduce(self.0);
        let b = reduce(other.0);
        proof {
            lemma_fundamental_div_mod_converse(a.value(), two128(), a.hi as int, a.lo as int);
            lemma_fundamental_div_mod_converse(b.value(), two128(), b.hi as int, b.lo as int);
        }
        a.hi == b.hi && a.lo == b.lo
    }

    fn normalize(&mut self) {
        let v = reduce(self.0);
        proof {
            lemma_small_mod(v.value() as nat, modulus() as nat);
            if self.0.value() < modulus() {
                lemma_small_mod(self.0.value() as nat, modulus() as nat);
                lemma_fundamental_div_mod_converse(v.value(), two128(), v.hi as int, v.lo as int);
                lemma_fundamental_div_mod_converse(
                    self.0.value(),
                    two128(),
                    self.0.hi as int,
                    self.0.lo as int,
                );
            }
        }
        self.0 = v;
    }

    fn to_repr(&self) -> (r: U256) {
        reduce(self.0)
    }

    fn from_repr(r: U256) -> (e: Self) {
        BaseElement::new(r)
    }

    fn from_u128(v: u128) -> (e: Self)
        ensures
            e == Self::element_of(v as int),
    {
        BaseElement::new(U256 { hi: 0, lo: v })
    }

    fn repr_from_u64(v: u64) -> (r: U256) {
        U256 { hi: 0, lo: v as u128 }
    }

    fn repr_halve(r: U256) -> (h: (U256, bool)) {
        r.halve()
    }

    fn repr_is_zero(r: U256) -> (z: bool) {
        r.is_zero()
    }

    fn get_root_of_unity(n: u32) -> (r: Self) {
        let mut root_now = U256 { hi: G_HI, lo: G_LO };
        let mut i: u32 = 0;
        proof {
            lemma_pow1(root());
            lemma2_to64();
            lemma_small_mod(root() as nat, modulus() as nat);
        }
        while i < TWO_ADICITY - n
            invariant
                n <= TWO_ADICITY,
                i <= TWO_ADICITY - n,
                root_now.value() < modulus(),
                root_now.value() == fpow(root(), pow2(i as nat), modulus()),
            decreases TWO_ADICITY - n - i,
        {
            proof {
                lemma_square_root_step(root(), i as nat, modulus());
            }
            root_now = mul_mod(root_now, root_now);
            i = i + 1;
        }
        proof {
            lemma_small_mod(root_now.value() as nat, modulus() as nat);
        }
        BaseElement(root_now)
    }

    fn to_bytes(&self) -> (bytes: Vec<u8>) {
        let v = reduce(self.0);
        proof {
            lemma_bytes_256(v, Seq::empty());
        }
        encode_bytes(v)
    }

    fn as_bytes(&self) -> (bytes: Vec<u8>) {
        self.to_bytes()
    }

    fn to_raw_bytes(&self) -> (bytes: Vec<u8>) {
        encode_bytes(self.0)
    }

    fn try_from_bytes(bytes: &[u8]) -> (r: Result<Self, SerializationError>) {
        match decode_256(bytes) {
            Some(v) => {
                if v.lt(modulus_repr()) {
                    proof {
                        lemma_small_mod(v.value() as nat, modulus() as nat);
                        lemma_bytes_256(v, bytes@);
                    }
                    Ok(BaseElement(v))
                } else {
                    assert forall|w: int| 0 <= w < modulus() implies bytes@ != #[trigger] encode_256(
                        w,
                    ) by {
                        if bytes@ == encode_256(w) {
                            let u = U256 { hi: (w / two128()) as u128, lo: (w % two128()) as u128 };
                            lemma_fundamental_div_mod(w, two128());
                            assert(w / two128() < two128()) by (nonlinear_arith)
                                requires
                                    w == two128() * (w / two128()) + w % two128(),
                                    w % two128() >= 0,
                                    w < two128() * two128(),
                                    two128() > 0,
                            ;
                            lemma_bytes_256(u, bytes@);
                            assert(u.value() == w) by (nonlinear_arith)
                                requires
                                    u.value() == (w / two128()) * two128() + w % two128(),
                                    w == two128() * (w / two128()) + w % two128(),
                            ;
                        }
                    }
                    Err(SerializationError::InvalidFieldElement)
                }
            },
            None => {
                assert forall|w: int| 0 <= w < modulus() implies bytes@ != #[trigger] encode_256(
                    w,
                ) by {
                    lemma_auto_spec_u128_to_from_le_bytes();
                    let lo = (w % two128()) as u128;
                    let hi = (w / two128()) as u128;
                    assert(spec_u128_to_le_bytes(lo).len() == 16 && spec_u128_to_le_bytes(hi).len()
                        == 16);
                }
                Err(SerializationError::InvalidFieldElement)
            },
        }
    }

    fn to_string(&self) -> (s: String) {
        decimal_string_256(reduce(self.0))
    }

    fn from_raw_bytes(bytes: &[u8]) -> (e: Self) {
        match decode_256(bytes) {
            Some(v) => BaseElement(v),
            None => BaseElement(U256 { hi: 0, lo: 0 }),
        }
    }
}

impl BaseElement {
    /// The additive identity.
    pub fn zero() -> (r: Self)
        ensures
            r.as_int() == 0,
    {
        <Self as StarkField>::zero()
    }

    /// The multiplicative identity.
    pub fn one() -> (r: Self)
        ensures
            r.as_int() == 1,
    {
        <Self as StarkField>::one()
    }

    /// Field addition.
    pub fn add(self, rhs: Self) -> (r: Self)
        ensures
            r.as_int() == fadd(self.as_int(), rhs.as_int(), modulus()),
    {
        StarkField::add(self, rhs)
    }

    /// Field subtraction.
    pub fn sub(self, rhs: Self) -> (r: Self)
        ensures
            r.as_int() == fsub(self.as_int(), rhs.as_int(), modulus()),
    {
        StarkField::sub(self, rhs)
    }

    /// Field multiplication.
    pub fn mul(self, rhs: Self) -> (r: Self)
        ensures
            r.as_int() == fmul(self.as_int(), rhs.as_int(), modulus()),
    {
        StarkField::mul(self, rhs)
    }

    /// The product of the element with itself.
    pub fn square(self) -> (r: Self)
        ensures
            r.as_int() == fmul(self.as_int(), self.as_int(), modulus()),
    {
        StarkField::square(self)
    }

    /// Additive inverse.
    pub fn neg(self) -> (r: Self)
        ensures
            r.as_int() == fneg(self.as_int(), modulus()),
    {
        StarkField::neg(self)
    }

    /// Multiplicative inverse, and zero for zero.
    pub fn inv(self) -> (r: Self)
        ensures
            r.as_int() == finv(self.as_int(), modulus()),
            self.as_int() != 0 ==> fmul(self.as_int(), r.as_int(), modulus()) == 1,
            self.as_int() == 0 ==> r.as_int() == 0,
    {
        StarkField::inv(self)
    }

    /// The quotient: the product with the inverse of `rhs`, and so zero where
    /// `rhs` is zero.
    pub fn div(self, rhs: Self) -> (r: Self)
        ensures
            r.as_int() == fmul(self.as_int(), finv(rhs.as_int(), modulus()), modulus()),
    {
        StarkField::mul(self, StarkField::inv(rhs))
    }

    /// Whether two elements stand for the same residue.
    pub fn equals(&self, other: &Self) -> (r: bool)
        ensures
            r == (self.as_int() == other.as_int()),
    {
        StarkField::equals(self, other)
    }

    /// A vector of `n` zeros.
    pub fn zeroed_vector(n: usize) -> (r: Vec<Self>)
        ensures
            r@.len() == n,
            forall|i: int| 0 <= i < n ==> (#[trigger] r@[i]).value() == 0,
    {
        buffers::zeroed_vector(n)
    }

    /// The bytes that the elements are held in, one element after the other.
    pub fn elements_as_bytes(elements: &[Self]) -> (bytes: Vec<u8>)
        requires
            elements@.len() * ELEMENT_BYTES <= usize::MAX,
        ensures
            bytes@ == raw_bytes_of::<Self>(elements@),
    {
        buffers::elements_as_bytes(elements)
    }

    /// The elements held in a buffer. The buffer must hold a whole number of
    /// elements, or else the length is invalid; and it must start at an address
    /// that is a multiple of the element size, or else the alignment is.
    pub fn bytes_as_elements(bytes: &[u8]) -> (r: Result<Vec<Self>, SerializationError>)
        ensures
            match r {
                Ok(elements) => bytes@.len() % (ELEMENT_BYTES as nat) == 0 && elements@
                    == elements_in::<Self>(bytes@),
                Err(e) => if bytes@.len() % (ELEMENT_BYTES as nat) != 0 {
                    e == SerializationError::InvalidLength
                } else {
                    e == SerializationError::InvalidAlignment
                },
            },
    {
        buffers::bytes_as_elements(bytes)
    }

    /// The elements as elements of the base field: themselves.
    pub fn as_base_elements(elements: &[Self]) -> (r: Vec<Self>)
        ensures
            r@ == elements@,
    {
        buffers::copy_elements(elements)
    }

    /// Reads an element from its canonical encoding: exactly as many bytes as
    /// an element takes, which encode a residue below the modulus.
    pub fn try_from(bytes: &[u8]) -> (r: Result<Self, SerializationError>)
        ensures
            match r {
                Ok(e) => bytes@ == Self::encode(e.value()) && e.is_normalized(),
                Err(err) => err == SerializationError::InvalidFieldElement && forall|v: int|
                    0 <= v < modulus() ==> bytes@ != #[trigger] Self::encode(v),
            },
    {
        Self::try_from_bytes(bytes)
    }

    /// An element read from random bytes as from its canonical encoding; none
    /// where the bytes encode no residue.
    pub fn from_random_bytes(bytes: &[u8]) -> (r: Option<Self>)
        ensures
            match r {
                Some(e) => bytes@ == Self::encode(e.value()) && e.is_normalized(),
                None => forall|v: int| 0 <= v < modulus() ==> bytes@ != #[trigger] Self::encode(v),
            },
    {
        buffers::from_random_bytes(bytes)
    }
}

impl Default for BaseElement {
    fn default() -> (r: Self)
        ensures
            r.as_int() == 0,
    {
        <Self as StarkField>::zero()
    }
}

impl PartialEq for BaseElement {
    fn eq(&self, other: &Self) -> (r: bool) {
        self.equals(other)
    }
}

impl PartialEqSpecImpl for BaseElement {
    open spec fn obeys_eq_spec() -> bool {
        true
    }

    open spec fn eq_spec(&self, other: &Self) -> bool {
        self.as_int() == other.as_int()
    }
}

impl Eq for BaseElement {

}

impl From<u128> for BaseElement {
    fn from(value: u128) -> (r: Self) {
        Self::from_u128(value as u128)
    }
}

impl FromSpecImpl<u128> for BaseElement {
    open spec fn obeys_from_spec() -> bool {
        true
    }

    open spec fn from_spec(value: u128) -> Self {
        Self::element_of(value as int)
    }
}

impl From<u64> for BaseElement {
    fn from(value: u64) -> (r: Self) {
        Self::from_u128(value as u128)
    }
}

impl FromSpecImpl<u64> for BaseElement {
    open spec fn obeys_from_spec() -> bool {
        true
    }

    open spec fn from_spec(value: u64) -> Self {
        Self::element_of(value as int)
    }
}

impl From<u32> for BaseElement {
    fn from(value: u32) -> (r: Self) {
        Self::from_u128(value as u128)
    }
}

impl FromSpecImpl<u32> for BaseElement {
    open spec fn obeys_from_spec() -> bool {
        true
    }

    open spec fn from_spec(value: u32) -> Self {
        Self::element_of(value as int)
    }
}

impl From<u16> for BaseElement {
    fn from(value: u16) -> (r: Self) {
        Self::from_u128(value as u128)
    }
}

impl FromSpecImpl<u16> for BaseElement {
    open spec fn obeys_from_spec() -> bool {
        true
    }

    open spec fn from_spec(value: u16) -> Self {
        Self::element_of(value as int)
    }
}

impl From<u8> for BaseElement {
    fn from(value: u8) -> (r: Self) {
        Self::from_u128(value as u128)
    }
}

impl FromSpecImpl<u8> for BaseElement {
    open spec fn obeys_from_spec() -> bool {
        true
    }

    open spec fn from_spec(value: u8) -> Self {
        Self::element_of(value as int)
    }
}

impl core::ops::Add for BaseElement {
    type Output = Self;

    fn add(self, rhs: Self) -> (r: Self)
        ensures
            r.as_int() == fadd(self.as_int(), rhs.as_int(), modulus()),
    {
        BaseElement::add(self, rhs)
    }
}

impl AddSpecImpl for BaseElement {
    open spec fn obeys_add_spec() -> bool {
        false
    }

    open spec fn add_req(self, rhs: Self) -> bool {
        true
    }

    open spec fn add_spec(self, rhs: Self) -> Self {
        self
    }
}

impl core::ops::AddAssign for BaseElement {
    fn add_assign(&mut self, rhs: Self)
        ensures
            final(self).as_int() == fadd(old(self).as_int(), rhs.as_int(), modulus()),
    {
        *self = BaseElement::add(*self, rhs);
    }
}

impl core::ops::Sub for BaseElement {
    type Output = Self;

    fn sub(self, rhs: Self) -> (r: Self)
        ensures
            r.as_int() == fsub(self.as_int(), rhs.as_int(), modulus()),
    {
        BaseElement::sub(self, rhs)
    }
}

impl SubSpecImpl for BaseElement {
    open spec fn obeys_sub_spec() -> bool {
        false
    }

    open spec fn sub_req(self, rhs: Self) -> bool {
        true
    }

    open spec fn sub_spec(self, rhs: Self) -> Self {
        self
    }
}

impl core::ops::SubAssign for BaseElement {
    fn sub_assign(&mut self, rhs: Self)
        ensures
            final(self).as_int() == fsub(old(self).as_int(), rhs.as_int(), modulus()),
    {
        *self = BaseElement::sub(*self, rhs);
    }
}

impl core::ops::Mul for BaseElement {
    type Output = Self;

    fn mul(self, rhs: Self) -> (r: Self)
        ensures
            r.as_int() == fmul(self.as_int(), rhs.as_int(), modulus()),
    {
        BaseElement::mul(self, rhs)
    }
}

impl MulSpecImpl for BaseElement {
    open spec fn obeys_mul_spec() -> bool {
        false
    }

    open spec fn mul_req(self, rhs: Self) -> bool {
        true
    }

    open spec fn mul_spec(self, rhs: Self) -> Self {
        self
    }
}

impl core::ops::MulAssign for BaseElement {
    fn mul_assign(&mut self, rhs: Self)
        ensures
            final(self).as_int() == fmul(old(self).as_int(), rhs.as_int(), modulus()),
    {
        *self = BaseElement::mul(*self, rhs);
    }
}

impl core::ops::Div for BaseElement {
    type Output = Self;

    fn div(self, rhs: Self) -> (r: Self)
        ensures
            r.as_int() == fmul(self.as_int(), finv(rhs.as_int(), modulus()), modulus()),
    {
        BaseElement::div(self, rhs)
    }
}

impl DivSpecImpl for BaseElement {
    open spec fn obeys_div_spec() -> bool {
        false
    }

    open spec fn div_req(self, rhs: Self) -> bool {
        true
    }

    open spec fn div_spec(self, rhs: Self) -> Self {
        self
    }
}

impl core::ops::DivAssign for BaseElement {
    fn div_assign(&mut self, rhs: Self)
        ensures
            final(self).as_int() == fmul(old(self).as_int(), finv(rhs.as_int(), modulus()), modulus()),
    {
        *self = BaseElement::div(*self, rhs);
    }
}

impl core::ops::Neg for BaseElement {
    type Output = Self;

    fn neg(self) -> (r: Self)
        ensures
            r.as_int() == fneg(self.as_int(), modulus()),
    {
        BaseElement::neg(self)
    }
}

impl NegSpecImpl for BaseElement {
    open spec fn obeys_neg_spec() -> bool {
        false
    }

    open spec fn neg_req(self) -> bool {
        true
    }

    open spec fn neg_spec(self) -> Self {
        self
    }
}

} // verus!

//! The cubic extensions of the prime fields: for each field the irreducible
//! polynomial `x^3 - u * x - v` by whose root it is extended, and the images of
//! `x` and `x^2` under the Frobenius map.

use vstd::prelude::*;
use vstd::arithmetic::div_mod::lemma_small_mod;
use crate::field::cubic_spec::{
    cubic_mul, cubic_frobenius, cubic_mul_with, cubic_frobenius_with, lemma_cubic_closed,
    lemma_frobenius_closed, lemma_cubic_commutative, lemma_cubic_associative, lemma_cubic_one,
    lemma_cubic_scale,
};
use crate::field::traits::{ExtensibleField, StarkField, residues};
use crate::field::{fp62, fp64, fp128};

verus! {

/// The 62-bit field is extended by a root of `x^3 + 2 * x + 2`: `x^3` is
/// `FP62_U * x + FP62_V`. This is the coefficient of `x`.
pub const FP62_U: u64 = 4611624995532046335;

/// The constant coefficient of `x^3` in the cubic extension of the 62-bit field.
pub const FP62_V: u64 = 4611624995532046335;

/// The coefficients of the image of `x` under the Frobenius map.
pub const FP62_F1: [u64; 3] = [
    2061766055618274781,
    2868591307402993000,
    2699230790596717670,
];

/// The coefficients of the image of `x^2` under the Frobenius map.
pub const FP62_F2: [u64; 3] = [
    786836585661389001,
    3336695525575160559,
    1743033688129053336,
];

impl ExtensibleField<3> for fp62::BaseElement {
    open spec fn ext_mul_spec(a: Seq<int>, b: Seq<int>) -> Seq<int> {
        cubic_mul(a, b, FP62_U as int, FP62_V as int, fp62::M as int)
    }

    open spec fn frobenius_spec(a: Seq<int>) -> Seq<int> {
        cubic_frobenius(
            a,
            seq![FP62_F1[0] as int, FP62_F1[1] as int, FP62_F1[2] as int],
            seq![FP62_F2[0] as int, FP62_F2[1] as int, FP62_F2[2] as int],
            fp62::M as int,
        )
    }

    open spec fn reduction_spec() -> Seq<int> {
        seq![FP62_V as int, FP62_U as int, 0int]
    }

    proof fn lemma_ext_closed(a: Seq<int>, b: Seq<int>) {
        lemma_cubic_closed(a, b, FP62_U as int, FP62_V as int, fp62::M as int);
        lemma_frobenius_closed(
            a,
            seq![FP62_F1[0] as int, FP62_F1[1] as int, FP62_F1[2] as int],
            seq![FP62_F2[0] as int, FP62_F2[1] as int, FP62_F2[2] as int],
            fp62::M as int,
        );
    }

    proof fn lemma_ext_mul_commutative(a: Seq<int>, b: Seq<int>) {
        lemma_cubic_commutative(a, b, FP62_U as int, FP62_V as int, fp62::M as int);
    }

    proof fn lemma_ext_mul_associative(a: Seq<int>, b: Seq<int>, c: Seq<int>) {
        lemma_cubic_associative(a, b, c, FP62_U as int, FP62_V as int, fp62::M as int);
    }

    proof fn lemma_ext_mul_scale(a: Seq<int>, b: Seq<int>, d: int) {
        lemma_cubic_scale(a, b, d, FP62_U as int, FP62_V as int, fp62::M as int);
    }

    proof fn lemma_norm_in_base(a: Seq<int>) {
        crate::field::frobenius::lemma_fp62_frobenius();
        crate::field::cubic_norm::lemma_norm_in_base(
            a,
            FP62_U as int,
            FP62_V as int,
            crate::field::frobenius::fp62_f1(),
            crate::field::frobenius::fp62_f2(),
            fp62::M as int,
        );
    }

    proof fn lemma_norm_nonzero(a: Seq<int>) {
        crate::field::frobenius::lemma_fp62_norm_nonzero(a);
    }

    proof fn lemma_ext_mul_one(a: Seq<int>) {
        lemma_cubic_one(a, FP62_U as int, FP62_V as int, fp62::M as int);
    }

    fn ext_mul(a: [Self; 3], b: [Self; 3]) -> (r: [Self; 3]) {
        let u = fp62::BaseElement::new(FP62_U);
        let v = fp62::BaseElement::new(FP62_V);
        proof {
            lemma_small_mod(FP62_U as nat, fp62::M as nat);
            lemma_small_mod(FP62_V as nat, fp62::M as nat);
        }
        cubic_mul_with(a, b, u, v)
    }

    fn frobenius(x: [Self; 3]) -> (r: [Self; 3]) {
        let f1 = [
            fp62::BaseElement::new(FP62_F1[0]),
            fp62::BaseElement::new(FP62_F1[1]),
            fp62::BaseElement::new(FP62_F1[2]),
        ];
        let f2 = [
            fp62::BaseElement::new(FP62_F2[0]),
            fp62::BaseElement::new(FP62_F2[1]),
            fp62::BaseElement::new(FP62_F2[2]),
        ];
        proof {
            lemma_small_mod(FP62_F1[0] as nat, fp62::M as nat);
            lemma_small_mod(FP62_F1[1] as nat, fp62::M as nat);
            lemma_small_mod(FP62_F1[2] as nat, fp62::M as nat);
            lemma_small_mod(FP62_F2[0] as nat, fp62::M as nat);
            lemma_small_mod(FP62_F2[1] as nat, fp62::M as nat);
            lemma_small_mod(FP62_F2[2] as nat, fp62::M as nat);
            assert(residues(f1@) =~= seq![FP62_F1[0] as int, FP62_F1[1] as int, FP62_F1[2] as int]);
            assert(residues(f2@) =~= seq![FP62_F2[0] as int, FP62_F2[1] as int, FP62_F2[2] as int]);
        }
        cubic_frobenius_with(x, f1, f2)
    }

    fn reduction() -> (r: [Self; 3]) {
        let r = [
            fp62::BaseElement::new(FP62_V),
            fp62::BaseElement::new(FP62_U),
            fp62::BaseElement::new(0),
        ];
        proof {
            lemma_small_mod(FP62_U as nat, fp62::M as nat);
            lemma_small_mod(FP62_V as nat, fp62::M as nat);
            lemma_small_mod(0, fp62::M as nat);
            assert(residues(r@) =~= seq![FP62_V as int, FP62_U as int, 0int]);
        }
        r
    }
}

/// The 64-bit field is extended by a root of `x^3 - x - 1`: `x^3` is
/// `FP64_U * x + FP64_V`. This is the coefficient of `x`.
pub const FP64_U: u64 = 1;

/// The constant coefficient of `x^3` in the cubic extension of the 64-bit field.
pub const FP64_V: u64 = 1;

/// The coefficients of the image of `x` under the Frobenius map.
pub const FP64_F1: [u64; 3] = [
    10615703402128488253,
    10050274602728160328,
    11746561000929144102,
];

/// The coefficients of the image of `x^2` under the Frobenius map.
pub const FP64_F2: [u64; 3] = [
    6700183068485440220,
    14531223735771536287,
    8396469466686423992,
];

impl ExtensibleField<3> for fp64::BaseElement {
    open spec fn ext_mul_spec(a: Seq<int>, b: Seq<int>) -> Seq<int> {
        cubic_mul(a, b, FP64_U as int, FP64_V as int, fp64::M as int)
    }

    open spec fn frobenius_spec(a: Seq<int>) -> Seq<int> {
        cubic_frobenius(
            a,
            seq![FP64_F1[0] as int, FP64_F1[1] as int, FP64_F1[2] as int],
            seq![FP64_F2[0] as int, FP64_F2[1] as int, FP64_F2[2] as int],
            fp64::M as int,
        )
    }

    open spec fn reduction_spec() -> Seq<int> {
        seq![FP64_V as int, FP64_U as int, 0int]
    }

    proof fn lemma_ext_closed(a: Seq<int>, b: Seq<int>) {
        lemma_cubic_closed(a, b, FP64_U as int, FP64_V as int, fp64::M as int);
        lemma_frobenius_closed(
            a,
            seq![FP64_F1[0] as int, FP64_F1[1] as int, FP64_F1[2] as int],
            seq![FP64_F2[0] as int, FP64_F2[1] as int, FP64_F2[2] as int],
            fp64::M as int,
        );
    }

    proof fn lemma_ext_mul_commutative(a: Seq<int>, b: Seq<int>) {
        lemma_cubic_commutative(a, b, FP64_U as int, FP64_V as int, fp64::M as int);
    }

    proof fn lemma_ext_mul_associative(a: Seq<int>, b: Seq<int>, c: Seq<int>) {
        lemma_cubic_associative(a, b, c, FP64_U as int, FP64_V as int, fp64::M as int);
    }

    proof fn lemma_ext_mul_scale(a: Seq<int>, b: Seq<int>, d: int) {
        lemma_cubic_scale(a, b, d, FP64_U as int, FP64_V as int, fp64::M as int);
    }

    proof fn lemma_norm_in_base(a: Seq<int>) {
        crate::field::frobenius::lemma_fp64_frobenius();
        crate::field::cubic_norm::lemma_norm_in_base(
            a,
            FP64_U as int,
            FP64_V as int,
            crate::field::frobenius::fp64_f1(),
            crate::field::frobenius::fp64_f2(),
            fp64::M as int,
        );
    }

    proof fn lemma_norm_nonzero(a: Seq<int>) {
        crate::field::frobenius::lemma_fp64_norm_nonzero(a);
    }

    proof fn lemma_ext_mul_one(a: Seq<int>) {
        lemma_cubic_one(a, FP64_U as int, FP64_V as int, fp64::M as int);
    }

    fn ext_mul(a: [Self; 3], b: [Self; 3]) -> (r: [Self; 3]) {
        let u = fp64::BaseElement::new(FP64_U);
        let v = fp64::BaseElement::new(FP64_V);
        proof {
            lemma_small_mod(FP64_U as nat, fp64::M as nat);
            lemma_small_mod(FP64_V as nat, fp64::M as nat);
        }
        cubic_mul_with(a, b, u, v)
    }

    fn frobenius(x: [Self; 3]) -> (r: [Self; 3]) {
        let f1 = [
            fp64::BaseElement::new(FP64_F1[0]),
            fp64::BaseElement::new(FP64_F1[1]),
            fp64::BaseElement::new(FP64_F1[2]),
        ];
        let f2 = [
            fp64::BaseElement::new(FP64_F2[0]),
            fp64::BaseElement::new(FP64_F2[1]),
            fp64::BaseElement::new(FP64_F2[2]),
        ];
        proof {
            lemma_small_mod(FP64_F1[0] as nat, fp64::M as nat);
            lemma_small_mod(FP64_F1[1] as nat, fp64::M as nat);
            lemma_small_mod(FP64_F1[2] as nat, fp64::M as nat);
            lemma_small_mod(FP64_F2[0] as nat, fp64::M as nat);
            lemma_small_mod(FP64_F2[1] as nat, fp64::M as nat);
            lemma_small_mod(FP64_F2[2] as nat, fp64::M as nat);
            assert(residues(f1@) =~= seq![FP64_F1[0] as int, FP64_F1[1] as int, FP64_F1[2] as int]);
            assert(residues(f2@) =~= seq![FP64_F2[0] as int, FP64_F2[1] as int, FP64_F2[2] as int]);
        }
        cubic_frobenius_with(x, f1, f2)
    }

    fn reduction() -> (r: [Self; 3]) {
        let r = [
            fp64::BaseElement::new(FP64_V),
            fp64::BaseElement::new(FP64_U),
            fp64::BaseElement::new(0),
        ];
        proof {
            lemma_small_mod(FP64_U as nat, fp64::M as nat);
            lemma_small_mod(FP64_V as nat, fp64::M as nat);
            lemma_small_mod(0, fp64::M as nat);
            assert(residues(r@) =~= seq![FP64_V as int, FP64_U as int, 0int]);
        }
        r
    }
}

/// The 128-bit field is extended by a root of `x^3 + 2 * x + 2`: `x^3` is
/// `FP128_U * x + FP128_V`. This is the coefficient of `x`.
pub const FP128_U: u128 = 340282366920938463463374557953744961535;

/// The constant coefficient of `x^3` in the cubic extension of the 128-bit field.
pub const FP128_V: u128 = 340282366920938463463374557953744961535;

/// The coefficients of the image of `x` under the Frobenius map.
pub const FP128_F1: [u128; 3] = [
    112067274102834481137912936240124974988,
    214206683555249672183222504683604364675,
    84050455577125860853434702180093731241,
];

/// The coefficients of the image of `x^2` under the Frobenius map.
pub const FP128_F2: [u128; 3] = [
    168100911154251721706869404360187462480,
    56033637051417240568956468120062487494,
    126075683365688791280152053270140596861,
];

impl ExtensibleField<3> for fp128::BaseElement {
    open spec fn ext_mul_spec(a: Seq<int>, b: Seq<int>) -> Seq<int> {
        cubic_mul(a, b, FP128_U as int, FP128_V as int, fp128::M as int)
    }

    open spec fn frobenius_spec(a: Seq<int>) -> Seq<int> {
        cubic_frobenius(
            a,
            seq![FP128_F1[0] as int, FP128_F1[1] as int, FP128_F1[2] as int],
            seq![FP128_F2[0] as int, FP128_F2[1] as int, FP128_F2[2] as int],
            fp128::M as int,
        )
    }

    open spec fn reduction_spec() -> Seq<int> {
        seq![FP128_V as int, FP128_U as int, 0int]
    }

    proof fn lemma_ext_closed(a: Seq<int>, b: Seq<int>) {
        lemma_cubic_closed(a, b, FP128_U as int, FP128_V as int, fp128::M as int);
        lemma_frobenius_closed(
            a,
            seq![FP128_F1[0] as int, FP128_F1[1] as int, FP128_F1[2] as int],
            seq![FP128_F2[0] as int, FP128_F2[1] as int, FP128_F2[2] as int],
            fp128::M as int,
        );
    }

    proof fn lemma_ext_mul_commutative(a: Seq<int>, b: Seq<int>) {
        lemma_cubic_commutative(a, b, FP128_U as int, FP128_V as int, fp128::M as int);
    }

    proof fn lemma_ext_mul_associative(a: Seq<int>, b: Seq<int>, c: Seq<int>) {
        lemma_cubic_associative(a, b, c, FP128_U as int, FP128_V as int, fp128::M as int);
    }

    proof fn lemma_ext_mul_scale(a: Seq<int>, b: Seq<int>, d: int) {
        lemma_cubic_scale(a, b, d, FP128_U as int, FP128_V as int, fp128::M as int);
    }

    proof fn lemma_norm_in_base(a: Seq<int>) {
        crate::field::frobenius::lemma_fp128_frobenius();
        crate::field::cubic_norm::lemma_norm_in_base(
            a,
            FP128_U as int,
            FP128_V as int,
            crate::field::frobenius::fp128_f1(),
            crate::field::frobenius::fp128_f2(),
            fp128::M as int,
        );
    }

    proof fn lemma_norm_nonzero(a: Seq<int>) {
        crate::field::frobenius::lemma_fp128_norm_nonzero(a);
    }

    proof fn lemma_ext_mul_one(a: Seq<int>) {
        lemma_cubic_one(a, FP128_U as int, FP128_V as int, fp128::M as int);
    }

    fn ext_mul(a: [Self; 3], b: [Self; 3]) -> (r: [Self; 3]) {
        let u = fp128::BaseElement::new(FP128_U);
        let v = fp128::BaseElement::new(FP128_V);
        proof {
            lemma_small_mod(FP128_U as nat, fp128::M as nat);
            lemma_small_mod(FP128_V as nat, fp128::M as nat);
        }
        cubic_mul_with(a, b, u, v)
    }

    fn frobenius(x: [Self; 3]) -> (r: [Self; 3]) {
        let f1 = [
            fp128::BaseElement::new(FP128_F1[0]),
            fp128::BaseElement::new(FP128_F1[1]),
            fp128::BaseElement::new(FP128_F1[2]),
        ];
        let f2 = [
            fp128::BaseElement::new(FP128_F2[0]),
            fp128::BaseElement::new(FP128_F2[1]),
            fp128::BaseElement::new(FP128_F2[2]),
        ];
        proof {
            lemma_small_mod(FP128_F1[0] as nat, fp128::M as nat);
            lemma_small_mod(FP128_F1[1] as nat, fp128::M as nat);
            lemma_small_mod(FP128_F1[2] as nat, fp128::M as nat);
            lemma_small_mod(FP128_F2[0] as nat, fp128::M as nat);
            lemma_small_mod(FP128_F2[1] as nat, fp128::M as nat);
            lemma_small_mod(FP128_F2[2] as nat, fp128::M as nat);
            assert(residues(f1@) =~= seq![FP128_F1[0] as int, FP128_F1[1] as int, FP128_F1[2] as int]);
            assert(residues(f2@) =~= seq![FP128_F2[0] as int, FP128_F2[1] as int, FP128_F2[2] as int]);
        }
        cubic_frobenius_with(x, f1, f2)
    }

    fn reduction() -> (r: [Self; 3]) {
        let r = [
            fp128::BaseElement::new(FP128_V),
            fp128::BaseElement::new(FP128_U),
            fp128::BaseElement::new(0),
        ];
        proof {
            lemma_small_mod(FP128_U as nat, fp128::M as nat);
            lemma_small_mod(FP128_V as nat, fp128::M as nat);
            lemma_small_mod(0, fp128::M as nat);
            assert(residues(r@) =~= seq![FP128_V as int, FP128_U as int, 0int]);
        }
        r
    }
}

} // verus!

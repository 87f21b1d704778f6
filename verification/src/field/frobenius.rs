//! The Frobenius maps of the cubic extensions of the prime fields.
//!
//! For each field the images of `x` and `x^2` are shown to make an automorphism
//! of order three of the extension, and the image of `x` to be the power of `x`
//! with the modulus as exponent. From this the polynomial of the extension has
//! no root in the field, and the norm of a nonzero element is not zero. The
//! products and powers on which this rests are listed here.

use vstd::prelude::*;
use crate::field::cubic_norm::{
    is_frobenius, power_of_root, lemma_image_of, lemma_powers_of_root, lemma_product_of,
};
use crate::field::cubic_spec::{cubic_frobenius, cubic_mul};
use crate::field::extensible::{
    FP128_F1, FP128_F2, FP128_U, FP128_V, FP62_F1, FP62_F2, FP62_U, FP62_V, FP64_F1, FP64_F2,
    FP64_U, FP64_V,
};
use crate::field::cubic_field::{
    cubic_at, cubic_power, is_irreducible, lemma_no_root, lemma_norm_nonzero,
    lemma_power_of_modulus, lemma_root_power_first, lemma_root_power_is,
    lemma_root_power_next, lemma_root_power_square, norm_of, root_power_is,
};
use crate::field::modular::is_unit;
use crate::field::traits::{sub_coeffs, valid_coeffs, zero_coeffs};
use crate::field::{fp62, fp64, fp128};

verus! {

/// The image of `x` under the Frobenius map of the cubic extension of the
/// 62-bit field.
pub open spec fn fp62_f1() -> Seq<int> {
    seq![FP62_F1[0] as int, FP62_F1[1] as int, FP62_F1[2] as int]
}

/// The image of `x^2` under the Frobenius map of the cubic extension of the
/// 62-bit field.
pub open spec fn fp62_f2() -> Seq<int> {
    seq![FP62_F2[0] as int, FP62_F2[1] as int, FP62_F2[2] as int]
}

/// The images of the powers of the root.
proof fn lemma_fp62_images()
    ensures
        cubic_frobenius(power_of_root(0), fp62_f1(), fp62_f2(), fp62::M as int) == seq![1int, 0int, 0int],
        cubic_frobenius(power_of_root(1), fp62_f1(), fp62_f2(), fp62::M as int) == seq![2061766055618274781int, 2868591307402993000int, 2699230790596717670int],
        cubic_frobenius(power_of_root(2), fp62_f1(), fp62_f2(), fp62::M as int) == seq![786836585661389001int, 3336695525575160559int, 1743033688129053336int],
{
    lemma_powers_of_root();
    lemma_image_of(1int, 0int, 0int, fp62_f1(), fp62_f2(), fp62::M as int, 1int, 0int, 0int);
    lemma_image_of(0int, 1int, 0int, fp62_f1(), fp62_f2(), fp62::M as int, 2061766055618274781int, 2868591307402993000int, 2699230790596717670int);
    lemma_image_of(0int, 0int, 1int, fp62_f1(), fp62_f2(), fp62::M as int, 786836585661389001int, 3336695525575160559int, 1743033688129053336int);
}

/// The image of `x^0 * x^0` is the product of the images.
#[verifier::rlimit(60)]
proof fn lemma_fp62_product_0_0()
    ensures
        cubic_frobenius(
            cubic_mul(power_of_root(0), power_of_root(0), FP62_U as int, FP62_V as int, fp62::M as int),
            fp62_f1(),
            fp62_f2(),
            fp62::M as int,
        ) == cubic_mul(
            cubic_frobenius(power_of_root(0), fp62_f1(), fp62_f2(), fp62::M as int),
            cubic_frobenius(power_of_root(0), fp62_f1(), fp62_f2(), fp62::M as int),
            FP62_U as int,
            FP62_V as int,
            fp62::M as int,
        ),
{
    lemma_fp62_images();
    lemma_powers_of_root();
    lemma_product_of(1int, 0int, 0int, 1int, 0int, 0int, FP62_U as int, FP62_V as int, fp62::M as int, 1int, 0int, 0int);
    lemma_image_of(1int, 0int, 0int, fp62_f1(), fp62_f2(), fp62::M as int, 1int, 0int, 0int);
    lemma_product_of(1int, 0int, 0int, 1int, 0int, 0int, FP62_U as int, FP62_V as int, fp62::M as int, 1int, 0int, 0int);
}

/// The image of `x^0 * x^1` is the product of the images.
#[verifier::rlimit(60)]
proof fn lemma_fp62_product_0_1()
    ensures
        cubic_frobenius(
            cubic_mul(power_of_root(0), power_of_root(1), FP62_U as int, FP62_V as int, fp62::M as int),
            fp62_f1(),
            fp62_f2(),
            fp62::M as int,
        ) == cubic_mul(
            cubic_frobenius(power_of_root(0), fp62_f1(), fp62_f2(), fp62::M as int),
            cubic_frobenius(power_of_root(1), fp62_f1(), fp62_f2(), fp62::M as int),
            FP62_U as int,
            FP62_V as int,
            fp62::M as int,
        ),
{
    lemma_fp62_images();
    lemma_powers_of_root();
    lemma_product_of(1int, 0int, 0int, 0int, 1int, 0int, FP62_U as int, FP62_V as int, fp62::M as int, 0int, 1int, 0int);
    lemma_image_of(0int, 1int, 0int, fp62_f1(), fp62_f2(), fp62::M as int, 2061766055618274781int, 2868591307402993000int, 2699230790596717670int);
    lemma_product_of(1int, 0int, 0int, 2061766055618274781int, 2868591307402993000int, 2699230790596717670int, FP62_U as int, FP62_V as int, fp62::M as int, 2061766055618274781int, 2868591307402993000int, 2699230790596717670int);
}

/// The image of `x^0 * x^2` is the product of the images.
#[verifier::rlimit(60)]
proof fn lemma_fp62_product_0_2()
    ensures
        cubic_frobenius(
            cubic_mul(power_of_root(0), power_of_root(2), FP62_U as int, FP62_V as int, fp62::M as int),
            fp62_f1(),
            fp62_f2(),
            fp62::M as int,
        ) == cubic_mul(
            cubic_frobenius(power_of_root(0), fp62_f1(), fp62_f2(), fp62::M as int),
            cubic_frobenius(power_of_root(2), fp62_f1(), fp62_f2(), fp62::M as int),
            FP62_U as int,
            FP62_V as int,
            fp62::M as int,
        ),
{
    lemma_fp62_images();
    lemma_powers_of_root();
    lemma_product_of(1int, 0int, 0int, 0int, 0int, 1int, FP62_U as int, FP62_V as int, fp62::M as int, 0int, 0int, 1int);
    lemma_image_of(0int, 0int, 1int, fp62_f1(), fp62_f2(), fp62::M as int, 786836585661389001int, 3336695525575160559int, 1743033688129053336int);
    lemma_product_of(1int, 0int, 0int, 786836585661389001int, 3336695525575160559int, 1743033688129053336int, FP62_U as int, FP62_V as int, fp62::M as int, 786836585661389001int, 3336695525575160559int, 1743033688129053336int);
}

/// The image of `x^1 * x^0` is the product of the images.
#[verifier::rlimit(60)]
proof fn lemma_fp62_product_1_0()
    ensures
        cubic_frobenius(
            cubic_mul(power_of_root(1), power_of_root(0), FP62_U as int, FP62_V as int, fp62::M as int),
            fp62_f1(),
            fp62_f2(),
            fp62::M as int,
        ) == cubic_mul(
            cubic_frobenius(power_of_root(1), fp62_f1(), fp62_f2(), fp62::M as int),
            cubic_frobenius(power_of_root(0), fp62_f1(), fp62_f2(), fp62::M as int),
            FP62_U as int,
            FP62_V as int,
            fp62::M as int,
        ),
{
    lemma_fp62_images();
    lemma_powers_of_root();
    lemma_product_of(0int, 1int, 0int, 1int, 0int, 0int, FP62_U as int, FP62_V as int, fp62::M as int, 0int, 1int, 0int);
    lemma_image_of(0int, 1int, 0int, fp62_f1(), fp62_f2(), fp62::M as int, 2061766055618274781int, 2868591307402993000int, 2699230790596717670int);
    lemma_product_of(2061766055618274781int, 2868591307402993000int, 2699230790596717670int, 1int, 0int, 0int, FP62_U as int, FP62_V as int, fp62::M as int, 2061766055618274781int, 2868591307402993000int, 2699230790596717670int);
}

/// The image of `x^1 * x^1` is the product of the images.
#[verifier::rlimit(60)]
proof fn lemma_fp62_product_1_1()
    ensures
        cubic_frobenius(
            cubic_mul(power_of_root(1), power_of_root(1), FP62_U as int, FP62_V as int, fp62::M as int),
            fp62_f1(),
            fp62_f2(),
            fp62::M as int,
        ) == cubic_mul(
            cubic_frobenius(power_of_root(1), fp62_f1(), fp62_f2(), fp62::M as int),
            cubic_frobenius(power_of_root(1), fp62_f1(), fp62_f2(), fp62::M as int),
            FP62_U as int,
            FP62_V as int,
            fp62::M as int,
        ),
{
    lemma_fp62_images();
    lemma_powers_of_root();
    lemma_product_of(0int, 1int, 0int, 0int, 1int, 0int, FP62_U as int, FP62_V as int, fp62::M as int, 0int, 0int, 1int);
    lemma_image_of(0int, 0int, 1int, fp62_f1(), fp62_f2(), fp62::M as int, 786836585661389001int, 3336695525575160559int, 1743033688129053336int);
    lemma_product_of(2061766055618274781int, 2868591307402993000int, 2699230790596717670int, 2061766055618274781int, 2868591307402993000int, 2699230790596717670int, FP62_U as int, FP62_V as int, fp62::M as int, 786836585661389001int, 3336695525575160559int, 1743033688129053336int);
}

/// The image of `x^1 * x^2` is the product of the images.
#[verifier::rlimit(60)]
proof fn lemma_fp62_product_1_2()
    ensures
        cubic_frobenius(
            cubic_mul(power_of_root(1), power_of_root(2), FP62_U as int, FP62_V as int, fp62::M as int),
            fp62_f1(),
            fp62_f2(),
            fp62::M as int,
        ) == cubic_mul(
            cubic_frobenius(power_of_root(1), fp62_f1(), fp62_f2(), fp62::M as int),
            cubic_frobenius(power_of_root(2), fp62_f1(), fp62_f2(), fp62::M as int),
            FP62_U as int,
            FP62_V as int,
            fp62::M as int,
        ),
{
    lemma_fp62_images();
    lemma_powers_of_root();
    lemma_product_of(0int, 1int, 0int, 0int, 0int, 1int, FP62_U as int, FP62_V as int, fp62::M as int, 4611624995532046335int, 4611624995532046335int, 0int);
    lemma_image_of(4611624995532046335int, 4611624995532046335int, 0int, fp62_f1(), fp62_f2(), fp62::M as int, 488092884295496773int, 3486067376258106674int, 3824788409870657334int);
    lemma_product_of(2061766055618274781int, 2868591307402993000int, 2699230790596717670int, 786836585661389001int, 3336695525575160559int, 1743033688129053336int, FP62_U as int, FP62_V as int, fp62::M as int, 488092884295496773int, 3486067376258106674int, 3824788409870657334int);
}

/// The image of `x^2 * x^0` is the product of the images.
#[verifier::rlimit(60)]
proof fn lemma_fp62_product_2_0()
    ensures
        cubic_frobenius(
            cubic_mul(power_of_root(2), power_of_root(0), FP62_U as int, FP62_V as int, fp62::M as int),
            fp62_f1(),
            fp62_f2(),
            fp62::M as int,
        ) == cubic_mul(
            cubic_frobenius(power_of_root(2), fp62_f1(), fp62_f2(), fp62::M as int),
            cubic_frobenius(power_of_root(0), fp62_f1(), fp62_f2(), fp62::M as int),
            FP62_U as int,
            FP62_V as int,
            fp62::M as int,
        ),
{
    lemma_fp62_images();
    lemma_powers_of_root();
    lemma_product_of(0int, 0int, 1int, 1int, 0int, 0int, FP62_U as int, FP62_V as int, fp62::M as int, 0int, 0int, 1int);
    lemma_image_of(0int, 0int, 1int, fp62_f1(), fp62_f2(), fp62::M as int, 786836585661389001int, 3336695525575160559int, 1743033688129053336int);
    lemma_product_of(786836585661389001int, 3336695525575160559int, 1743033688129053336int, 1int, 0int, 0int, FP62_U as int, FP62_V as int, fp62::M as int, 786836585661389001int, 3336695525575160559int, 1743033688129053336int);
}

/// The image of `x^2 * x^1` is the product of the images.
#[verifier::rlimit(60)]
proof fn lemma_fp62_product_2_1()
    ensures
        cubic_frobenius(
            cubic_mul(power_of_root(2), power_of_root(1), FP62_U as int, FP62_V as int, fp62::M as int),
            fp62_f1(),
            fp62_f2(),
            fp62::M as int,
        ) == cubic_mul(
            cubic_frobenius(power_of_root(2), fp62_f1(), fp62_f2(), fp62::M as int),
            cubic_frobenius(power_of_root(1), fp62_f1(), fp62_f2(), fp62::M as int),
            FP62_U as int,
            FP62_V as int,
            fp62::M as int,
        ),
{
    lemma_fp62_images();
    lemma_powers_of_root();
    lemma_product_of(0int, 0int, 1int, 0int, 1int, 0int, FP62_U as int, FP62_V as int, fp62::M as int, 4611624995532046335int, 4611624995532046335int, 0int);
    lemma_image_of(4611624995532046335int, 4611624995532046335int, 0int, fp62_f1(), fp62_f2(), fp62::M as int, 488092884295496773int, 3486067376258106674int, 3824788409870657334int);
    lemma_product_of(786836585661389001int, 3336695525575160559int, 1743033688129053336int, 2061766055618274781int, 2868591307402993000int, 2699230790596717670int, FP62_U as int, FP62_V as int, fp62::M as int, 488092884295496773int, 3486067376258106674int, 3824788409870657334int);
}

/// The image of `x^2 * x^2` is the product of the images.
#[verifier::rlimit(60)]
proof fn lemma_fp62_product_2_2()
    ensures
        cubic_frobenius(
            cubic_mul(power_of_root(2), power_of_root(2), FP62_U as int, FP62_V as int, fp62::M as int),
            fp62_f1(),
            fp62_f2(),
            fp62::M as int,
        ) == cubic_mul(
            cubic_frobenius(power_of_root(2), fp62_f1(), fp62_f2(), fp62::M as int),
            cubic_frobenius(power_of_root(2), fp62_f1(), fp62_f2(), fp62::M as int),
            FP62_U as int,
            FP62_V as int,
            fp62::M as int,
        ),
{
    lemma_fp62_images();
    lemma_powers_of_root();
    lemma_product_of(0int, 0int, 1int, 0int, 0int, 1int, FP62_U as int, FP62_V as int, fp62::M as int, 0int, 4611624995532046335int, 4611624995532046335int);
    lemma_image_of(0int, 4611624995532046335int, 4611624995532046335int, fp62_f1(), fp62_f2(), fp62::M as int, 3526044708504765110int, 1424301320639831893int, 338721033612550662int);
    lemma_product_of(786836585661389001int, 3336695525575160559int, 1743033688129053336int, 786836585661389001int, 3336695525575160559int, 1743033688129053336int, FP62_U as int, FP62_V as int, fp62::M as int, 3526044708504765110int, 1424301320639831893int, 338721033612550662int);
}

/// The image of the image of the image of `x^0` is `x^0`.
#[verifier::rlimit(60)]
proof fn lemma_fp62_cubed_0()
    ensures
        cubic_frobenius(
            cubic_frobenius(
                cubic_frobenius(power_of_root(0), fp62_f1(), fp62_f2(), fp62::M as int),
                fp62_f1(),
                fp62_f2(),
                fp62::M as int,
            ),
            fp62_f1(),
            fp62_f2(),
            fp62::M as int,
        ) == power_of_root(0),
{
    lemma_fp62_images();
    lemma_powers_of_root();
    lemma_image_of(1int, 0int, 0int, fp62_f1(), fp62_f2(), fp62::M as int, 1int, 0int, 0int);
    lemma_image_of(1int, 0int, 0int, fp62_f1(), fp62_f2(), fp62::M as int, 1int, 0int, 0int);
}

/// The image of the image of the image of `x^1` is `x^1`.
#[verifier::rlimit(60)]
proof fn lemma_fp62_cubed_1()
    ensures
        cubic_frobenius(
            cubic_frobenius(
                cubic_frobenius(power_of_root(1), fp62_f1(), fp62_f2(), fp62::M as int),
                fp62_f1(),
                fp62_f2(),
                fp62::M as int,
            ),
            fp62_f1(),
            fp62_f2(),
            fp62::M as int,
        ) == power_of_root(1),
{
    lemma_fp62_images();
    lemma_powers_of_root();
    lemma_image_of(2061766055618274781int, 2868591307402993000int, 2699230790596717670int, fp62_f1(), fp62_f2(), fp62::M as int, 2549858939913771556int, 1743033688129053336int, 1912394204935328667int);
    lemma_image_of(2549858939913771556int, 1743033688129053336int, 1912394204935328667int, fp62_f1(), fp62_f2(), fp62::M as int, 0int, 1int, 0int);
}

/// The image of the image of the image of `x^2` is `x^2`.
#[verifier::rlimit(60)]
proof fn lemma_fp62_cubed_2()
    ensures
        cubic_frobenius(
            cubic_frobenius(
                cubic_frobenius(power_of_root(2), fp62_f1(), fp62_f2(), fp62::M as int),
                fp62_f1(),
                fp62_f2(),
                fp62::M as int,
            ),
            fp62_f1(),
            fp62_f2(),
            fp62::M as int,
        ) == power_of_root(2),
{
    lemma_fp62_images();
    lemma_powers_of_root();
    lemma_image_of(786836585661389001int, 3336695525575160559int, 1743033688129053336int, fp62_f1(), fp62_f2(), fp62::M as int, 3824788409870657332int, 1274929469956885778int, 2868591307402993000int);
    lemma_image_of(3824788409870657332int, 1274929469956885778int, 2868591307402993000int, fp62_f1(), fp62_f2(), fp62::M as int, 0int, 0int, 1int);
}

/// A part of the chain of squares and products that raises the root to the
/// power of the modulus.
proof fn lemma_fp62_root_power_1()
    requires
        root_power_is(1, 0int, 1int, 0int, 4611624995532046335int, 4611624995532046335int, 4611624995532046337int),
    ensures
        root_power_is(31, 4611624995531036673int, 4611624995531095041int, 464896int, 4611624995532046335int, 4611624995532046335int, 4611624995532046337int),
{
    lemma_root_power_square(1, 0int, 1int, 0int, 4611624995532046335int, 4611624995532046335int, 4611624995532046337int, 0int, 0int, 1int);
    lemma_root_power_next(2, 0int, 0int, 1int, 4611624995532046335int, 4611624995532046335int, 4611624995532046337int, 4611624995532046335int, 4611624995532046335int, 0int);
    lemma_root_power_square(3, 4611624995532046335int, 4611624995532046335int, 0int, 4611624995532046335int, 4611624995532046335int, 4611624995532046337int, 4int, 8int, 4int);
    lemma_root_power_next(6, 4int, 8int, 4int, 4611624995532046335int, 4611624995532046335int, 4611624995532046337int, 4611624995532046329int, 4611624995532046333int, 8int);
    lemma_root_power_square(7, 4611624995532046329int, 4611624995532046333int, 8int, 4611624995532046335int, 4611624995532046335int, 4611624995532046337int, 192int, 64int, 4611624995532046097int);
    lemma_root_power_next(14, 192int, 64int, 4611624995532046097int, 4611624995532046335int, 4611624995532046335int, 4611624995532046337int, 480int, 672int, 64int);
    lemma_root_power_square(15, 480int, 672int, 64int, 4611624995532046335int, 4611624995532046335int, 4611624995532046337int, 58368int, 464896int, 504832int);
    lemma_root_power_next(30, 58368int, 464896int, 504832int, 4611624995532046335int, 4611624995532046335int, 4611624995532046337int, 4611624995531036673int, 4611624995531095041int, 464896int);
}

/// A part of the chain of squares and products that raises the root to the
/// power of the modulus.
proof fn lemma_fp62_root_power_2()
    requires
        root_power_is(31, 4611624995531036673int, 4611624995531095041int, 464896int, 4611624995532046335int, 4611624995532046335int, 4611624995532046337int),
    ensures
        root_power_is(511, 902947870247667796int, 3309024934531285027int, 2447448519002763003int, 4611624995532046335int, 4611624995532046335int, 4611624995532046337int),
{
    lemma_root_power_square(31, 4611624995531036673int, 4611624995531095041int, 464896int, 4611624995532046335int, 4611624995532046335int, 4611624995532046337int, 2788436213760int, 3257736888320int, 4611624529462034433int);
    lemma_root_power_next(62, 2788436213760int, 3257736888320int, 4611624529462034433int, 4611624995532046335int, 4611624995532046335int, 4611624995532046337int, 932140023808int, 3720576237568int, 3257736888320int);
    lemma_root_power_square(63, 932140023808int, 3720576237568int, 3257736888320int, 4611624995532046335int, 4611624995532046335int, 4611624995532046337int, 1863000957241887475int, 1919495513947747014int, 594397635243431259int);
    lemma_root_power_next(126, 1863000957241887475int, 1919495513947747014int, 594397635243431259int, 4611624995532046335int, 4611624995532046335int, 4611624995532046337int, 3422829725045183819int, 674205686755024957int, 1919495513947747014int);
    lemma_root_power_square(127, 3422829725045183819int, 674205686755024957int, 1919495513947747014int, 4611624995532046335int, 4611624995532046335int, 4611624995532046337int, 3930502842398216563int, 4246097304091433361int, 4400884715064528740int);
    lemma_root_power_next(254, 3930502842398216563int, 4246097304091433361int, 4400884715064528740int, 4611624995532046335int, 4611624995532046335int, 4611624995532046337int, 421480560935035194int, 4351983403333251757int, 4246097304091433361int);
    lemma_root_power_square(255, 421480560935035194int, 4351983403333251757int, 4246097304091433361int, 4611624995532046335int, 4611624995532046335int, 4611624995532046337int, 2406077064283617231int, 2447448519002763003int, 4160151060408212439int);
    lemma_root_power_next(510, 2406077064283617231int, 2447448519002763003int, 4160151060408212439int, 4611624995532046335int, 4611624995532046335int, 4611624995532046337int, 902947870247667796int, 3309024934531285027int, 2447448519002763003int);
}

/// A part of the chain of squares and products that raises the root to the
/// power of the modulus.
proof fn lemma_fp62_root_power_3()
    requires
        root_power_is(511, 902947870247667796int, 3309024934531285027int, 2447448519002763003int, 4611624995532046335int, 4611624995532046335int, 4611624995532046337int),
    ensures
        root_power_is(8191, 2686210809339560663int, 2291703329203391884int, 3901003768538403387int, 4611624995532046335int, 4611624995532046335int, 4611624995532046337int),
{
    lemma_root_power_square(511, 902947870247667796int, 3309024934531285027int, 2447448519002763003int, 4611624995532046335int, 4611624995532046335int, 4611624995532046337int, 1593011938965657995int, 1532894766857382802int, 3165840974248107412int);
    lemma_root_power_next(1022, 1593011938965657995int, 1532894766857382802int, 3165840974248107412int, 4611624995532046335int, 4611624995532046335int, 4611624995532046337int, 2891568042567877850int, 4484579981533535845int, 1532894766857382802int);
    lemma_root_power_square(1023, 2891568042567877850int, 4484579981533535845int, 1532894766857382802int, 4611624995532046335int, 4611624995532046335int, 4611624995532046337int, 4162461934883911822int, 1464477564347652215int, 489665925233589633int);
    lemma_root_power_next(2046, 4162461934883911822int, 1464477564347652215int, 489665925233589633int, 4611624995532046335int, 4611624995532046335int, 4611624995532046337int, 3632293145064867071int, 3183130084416732556int, 1464477564347652215int);
    lemma_root_power_square(2047, 3632293145064867071int, 3183130084416732556int, 1464477564347652215int, 4611624995532046335int, 4611624995532046335int, 4611624995532046337int, 262943784105582132int, 902652950499129524int, 4580132681333327729int);
    lemma_root_power_next(4094, 262943784105582132int, 902652950499129524int, 4580132681333327729int, 4611624995532046335int, 4611624995532046335int, 4611624995532046337int, 62984628397437216int, 325928412503019348int, 902652950499129524int);
    lemma_root_power_square(4095, 62984628397437216int, 325928412503019348int, 902652950499129524int, 4611624995532046335int, 4611624995532046335int, 4611624995532046337int, 4217117515395877558int, 3901003768538403387int, 962707093096242837int);
    lemma_root_power_next(8190, 4217117515395877558int, 3901003768538403387int, 962707093096242837int, 4611624995532046335int, 4611624995532046335int, 4611624995532046337int, 2686210809339560663int, 2291703329203391884int, 3901003768538403387int);
}

/// A part of the chain of squares and products that raises the root to the
/// power of the modulus.
proof fn lemma_fp62_root_power_4()
    requires
        root_power_is(8191, 2686210809339560663int, 2291703329203391884int, 3901003768538403387int, 4611624995532046335int, 4611624995532046335int, 4611624995532046337int),
    ensures
        root_power_is(262140, 2532491657314167953int, 2069194469239675990int, 972313534974381333int, 4611624995532046335int, 4611624995532046335int, 4611624995532046337int),
{
    lemma_root_power_square(8191, 2686210809339560663int, 2291703329203391884int, 3901003768538403387int, 4611624995532046335int, 4611624995532046335int, 4611624995532046337int, 2470936670662854310int, 1946816786184010160int, 2004922307857478424int);
    lemma_root_power_next(16382, 2470936670662854310int, 1946816786184010160int, 2004922307857478424int, 4611624995532046335int, 4611624995532046335int, 4611624995532046337int, 601780379817089489int, 3072717050479943799int, 1946816786184010160int);
    lemma_root_power_square(16383, 601780379817089489int, 3072717050479943799int, 1946816786184010160int, 4611624995532046335int, 4611624995532046335int, 4611624995532046337int, 850259172619731535int, 51903735803738253int, 2599720132628373661int);
    lemma_root_power_next(32766, 850259172619731535int, 51903735803738253int, 2599720132628373661int, 4611624995532046335int, 4611624995532046335int, 4611624995532046337int, 4023809725807345352int, 262443902895030550int, 51903735803738253int);
    lemma_root_power_square(32767, 4023809725807345352int, 262443902895030550int, 51903735803738253int, 4611624995532046335int, 4611624995532046335int, 4611624995532046337int, 131413786558753884int, 3599848633928480360int, 3654524847168560394int);
    lemma_root_power_next(65534, 131413786558753884int, 3599848633928480360int, 3654524847168560394int, 4611624995532046335int, 4611624995532046335int, 4611624995532046337int, 1914200296726971886int, 2045614083285725770int, 3599848633928480360int);
    lemma_root_power_square(65535, 1914200296726971886int, 2045614083285725770int, 3599848633928480360int, 4611624995532046335int, 4611624995532046335int, 4611624995532046337int, 589265357700342453int, 1217916164871658212int, 971930800888119174int);
    lemma_root_power_square(131070, 589265357700342453int, 1217916164871658212int, 971930800888119174int, 4611624995532046335int, 4611624995532046335int, 4611624995532046337int, 2532491657314167953int, 2069194469239675990int, 972313534974381333int);
}

/// A part of the chain of squares and products that raises the root to the
/// power of the modulus.
proof fn lemma_fp62_root_power_5()
    requires
        root_power_is(262140, 2532491657314167953int, 2069194469239675990int, 972313534974381333int, 4611624995532046335int, 4611624995532046335int, 4611624995532046337int),
    ensures
        root_power_is(16776994, 3714960427471571377int, 756770230383567805int, 3044592421287491942int, 4611624995532046335int, 4611624995532046335int, 4611624995532046337int),
{
    lemma_root_power_square(262140, 2532491657314167953int, 2069194469239675990int, 972313534974381333int, 4611624995532046335int, 4611624995532046335int, 4611624995532046337int, 3923470472460381659int, 4495005674301768003int, 710316265152270117int);
    lemma_root_power_next(524280, 3923470472460381659int, 4495005674301768003int, 710316265152270117int, 4611624995532046335int, 4611624995532046335int, 4611624995532046337int, 3190992465227506103int, 2502837942155841425int, 4495005674301768003int);
    lemma_root_power_square(524281, 3190992465227506103int, 2502837942155841425int, 4495005674301768003int, 4611624995532046335int, 4611624995532046335int, 4611624995532046337int, 2101025661200268010int, 2547075219795426503int, 1475717330201960713int);
    lemma_root_power_square(1048562, 2101025661200268010int, 2547075219795426503int, 1475717330201960713int, 4611624995532046335int, 4611624995532046335int, 4611624995532046337int, 509868620189083358int, 868337535103490900int, 131249859393261848int);
    lemma_root_power_square(2097124, 509868620189083358int, 868337535103490900int, 131249859393261848int, 4611624995532046335int, 4611624995532046335int, 4611624995532046337int, 337911097310906039int, 1984034035129699269int, 788725613546044742int);
    lemma_root_power_square(4194248, 337911097310906039int, 1984034035129699269int, 788725613546044742int, 4611624995532046335int, 4611624995532046335int, 4611624995532046337int, 444923770057783003int, 3373907554378823184int, 1400994933274921244int);
    lemma_root_power_next(8388496, 444923770057783003int, 3373907554378823184int, 1400994933274921244int, 4611624995532046335int, 4611624995532046335int, 4611624995532046337int, 1809635128982203849int, 2254558899039986852int, 3373907554378823184int);
    lemma_root_power_square(8388497, 1809635128982203849int, 2254558899039986852int, 3373907554378823184int, 4611624995532046335int, 4611624995532046335int, 4611624995532046337int, 3714960427471571377int, 756770230383567805int, 3044592421287491942int);
}

/// A part of the chain of squares and products that raises the root to the
/// power of the modulus.
proof fn lemma_fp62_root_power_6()
    requires
        root_power_is(16776994, 3714960427471571377int, 756770230383567805int, 3044592421287491942int, 4611624995532046335int, 4611624995532046335int, 4611624995532046337int),
    ensures
        root_power_is(4294910464, 3231970002564914302int, 3729750666421411918int, 2317853469986321379int, 4611624995532046335int, 4611624995532046335int, 4611624995532046337int),
{
    lemma_root_power_square(16776994, 3714960427471571377int, 756770230383567805int, 3044592421287491942int, 4611624995532046335int, 4611624995532046335int, 4611624995532046337int, 2673707149871915047int, 317529323643899787int, 1149459182585446016int);
    lemma_root_power_square(33553988, 2673707149871915047int, 317529323643899787int, 1149459182585446016int, 4611624995532046335int, 4611624995532046335int, 4611624995532046337int, 1584151552619624681int, 455484763717433177int, 2227033374123100176int);
    lemma_root_power_square(67107976, 1584151552619624681int, 455484763717433177int, 2227033374123100176int, 4611624995532046335int, 4611624995532046335int, 4611624995532046337int, 192949242316079002int, 3075897090209922744int, 757840487051224543int);
    lemma_root_power_square(134215952, 192949242316079002int, 3075897090209922744int, 757840487051224543int, 4611624995532046335int, 4611624995532046335int, 4611624995532046337int, 2481239995567060927int, 1386999954699864152int, 2519267494037299066int);
    lemma_root_power_square(268431904, 2481239995567060927int, 1386999954699864152int, 2519267494037299066int, 4611624995532046335int, 4611624995532046335int, 4611624995532046337int, 1276977197100578312int, 2787906863465223464int, 2246439070470081270int);
    lemma_root_power_square(536863808, 1276977197100578312int, 2787906863465223464int, 2246439070470081270int, 4611624995532046335int, 4611624995532046335int, 4611624995532046337int, 1639819464418661976int, 410604785602818286int, 3752787991834132776int);
    lemma_root_power_square(1073727616, 1639819464418661976int, 410604785602818286int, 3752787991834132776int, 4611624995532046335int, 4611624995532046335int, 4611624995532046337int, 1828804320251578452int, 1038904114530255086int, 3925343504860622050int);
    lemma_root_power_square(2147455232, 1828804320251578452int, 1038904114530255086int, 3925343504860622050int, 4611624995532046335int, 4611624995532046335int, 4611624995532046337int, 3231970002564914302int, 3729750666421411918int, 2317853469986321379int);
}

/// A part of the chain of squares and products that raises the root to the
/// power of the modulus.
proof fn lemma_fp62_root_power_7()
    requires
        root_power_is(4294910464, 3231970002564914302int, 3729750666421411918int, 2317853469986321379int, 4611624995532046335int, 4611624995532046335int, 4611624995532046337int),
    ensures
        root_power_is(1099497078784, 3466677844955524632int, 3081538705199980871int, 2561348732148114185int, 4611624995532046335int, 4611624995532046335int, 4611624995532046337int),
{
    lemma_root_power_square(4294910464, 3231970002564914302int, 3729750666421411918int, 2317853469986321379int, 4611624995532046335int, 4611624995532046335int, 4611624995532046337int, 357976380214352814int, 1777181567158255092int, 1541143054625105412int);
    lemma_root_power_square(8589820928, 357976380214352814int, 1777181567158255092int, 1541143054625105412int, 4611624995532046335int, 4611624995532046335int, 4611624995532046337int, 1338051858135984246int, 2393395470687301143int, 764283944046008207int);
    lemma_root_power_square(17179641856, 1338051858135984246int, 2393395470687301143int, 764283944046008207int, 4611624995532046335int, 4611624995532046335int, 4611624995532046337int, 4107951654982154380int, 1687398021240964711int, 1425242601219060313int);
    lemma_root_power_square(34359283712, 4107951654982154380int, 1687398021240964711int, 1425242601219060313int, 4611624995532046335int, 4611624995532046335int, 4611624995532046337int, 3971749346861790857int, 345026682760549299int, 811356813234754544int);
    lemma_root_power_square(68718567424, 3971749346861790857int, 345026682760549299int, 811356813234754544int, 4611624995532046335int, 4611624995532046335int, 4611624995532046337int, 4566136353586036488int, 1637843874745064252int, 742359172595049868int);
    lemma_root_power_square(137437134848, 4566136353586036488int, 1637843874745064252int, 742359172595049868int, 4611624995532046335int, 4611624995532046335int, 4611624995532046337int, 2122158279464287241int, 3266742096704283439int, 1455351049822782477int);
    lemma_root_power_square(274874269696, 2122158279464287241int, 3266742096704283439int, 1455351049822782477int, 4611624995532046335int, 4611624995532046335int, 4611624995532046337int, 2077098100782781868int, 946977039436820547int, 1396094124546344986int);
    lemma_root_power_square(549748539392, 2077098100782781868int, 946977039436820547int, 1396094124546344986int, 4611624995532046335int, 4611624995532046335int, 4611624995532046337int, 3466677844955524632int, 3081538705199980871int, 2561348732148114185int);
}

/// A part of the chain of squares and products that raises the root to the
/// power of the modulus.
proof fn lemma_fp62_root_power_8()
    requires
        root_power_is(1099497078784, 3466677844955524632int, 3081538705199980871int, 2561348732148114185int, 4611624995532046335int, 4611624995532046335int, 4611624995532046337int),
    ensures
        root_power_is(281471252168704, 1311366340027891439int, 3396506027848335640int, 3642301564508155928int, 4611624995532046335int, 4611624995532046335int, 4611624995532046337int),
{
    lemma_root_power_square(1099497078784, 3466677844955524632int, 3081538705199980871int, 2561348732148114185int, 4611624995532046335int, 4611624995532046335int, 4611624995532046337int, 4179646558743802913int, 1133694581755453270int, 398584842403959165int);
    lemma_root_power_square(2198994157568, 4179646558743802913int, 1133694581755453270int, 398584842403959165int, 4611624995532046335int, 4611624995532046335int, 4611624995532046337int, 4497335135267762355int, 1527414773759946500int, 2037374200779408336int);
    lemma_root_power_square(4397988315136, 4497335135267762355int, 1527414773759946500int, 2037374200779408336int, 4611624995532046335int, 4611624995532046335int, 4611624995532046337int, 2841515125188203946int, 4098498408815301341int, 2124833723970573522int);
    lemma_root_power_square(8795976630272, 2841515125188203946int, 4098498408815301341int, 2124833723970573522int, 4611624995532046335int, 4611624995532046335int, 4611624995532046337int, 3421425446954973290int, 907441594385742437int, 1334849718966135205int);
    lemma_root_power_square(17591953260544, 3421425446954973290int, 907441594385742437int, 1334849718966135205int, 4611624995532046335int, 4611624995532046335int, 4611624995532046337int, 4094041936623004071int, 3724880903183822179int, 1354076405574390459int);
    lemma_root_power_square(35183906521088, 4094041936623004071int, 3724880903183822179int, 1354076405574390459int, 4611624995532046335int, 4611624995532046335int, 4611624995532046337int, 4337227785079378231int, 1105936957887468228int, 1091420343625037573int);
    lemma_root_power_square(70367813042176, 4337227785079378231int, 1105936957887468228int, 1091420343625037573int, 4611624995532046335int, 4611624995532046335int, 4611624995532046337int, 2605443207189367141int, 3526576062681758301int, 3987595594951975728int);
    lemma_root_power_square(140735626084352, 2605443207189367141int, 3526576062681758301int, 3987595594951975728int, 4611624995532046335int, 4611624995532046335int, 4611624995532046337int, 1311366340027891439int, 3396506027848335640int, 3642301564508155928int);
}

/// A part of the chain of squares and products that raises the root to the
/// power of the modulus.
proof fn lemma_fp62_root_power_9()
    requires
        root_power_is(281471252168704, 1311366340027891439int, 3396506027848335640int, 3642301564508155928int, 4611624995532046335int, 4611624995532046335int, 4611624995532046337int),
    ensures
        root_power_is(72056640555188224, 1914266816643939086int, 2240145208355103890int, 54162771335710893int, 4611624995532046335int, 4611624995532046335int, 4611624995532046337int),
{
    lemma_root_power_square(281471252168704, 1311366340027891439int, 3396506027848335640int, 3642301564508155928int, 4611624995532046335int, 4611624995532046335int, 4611624995532046337int, 1096160946399506057int, 1925454281529391581int, 1142806726918174053int);
    lemma_root_power_square(562942504337408, 1096160946399506057int, 1925454281529391581int, 1142806726918174053int, 4611624995532046335int, 4611624995532046335int, 4611624995532046337int, 4294749826102965105int, 3205174020367595746int, 1170339193773965789int);
    lemma_root_power_square(1125885008674816, 4294749826102965105int, 3205174020367595746int, 1170339193773965789int, 4611624995532046335int, 4611624995532046335int, 4611624995532046337int, 3627842667185197219int, 814634692042267408int, 3165225255429053338int);
    lemma_root_power_square(2251770017349632, 3627842667185197219int, 814634692042267408int, 3165225255429053338int, 4611624995532046335int, 4611624995532046335int, 4611624995532046337int, 1727983273273409436int, 3955710831901147221int, 3842068936241863048int);
    lemma_root_power_square(4503540034699264, 1727983273273409436int, 3955710831901147221int, 3842068936241863048int, 4611624995532046335int, 4611624995532046335int, 4611624995532046337int, 95140295843457007int, 1229460622781268218int, 2762737730279380953int);
    lemma_root_power_square(9007080069398528, 95140295843457007int, 1229460622781268218int, 2762737730279380953int, 4611624995532046335int, 4611624995532046335int, 4611624995532046337int, 1058378152864678592int, 4588820236372134857int, 1230807843384208336int);
    lemma_root_power_square(18014160138797056, 1058378152864678592int, 4588820236372134857int, 1230807843384208336int, 4611624995532046335int, 4611624995532046335int, 4611624995532046337int, 705965692252740397int, 3177472228764056347int, 1291715253880846472int);
    lemma_root_power_square(36028320277594112, 705965692252740397int, 3177472228764056347int, 1291715253880846472int, 4611624995532046335int, 4611624995532046335int, 4611624995532046337int, 1914266816643939086int, 2240145208355103890int, 54162771335710893int);
}

/// A part of the chain of squares and products that raises the root to the
/// power of the modulus.
proof fn lemma_fp62_root_power_10()
    requires
        root_power_is(72056640555188224, 1914266816643939086int, 2240145208355103890int, 54162771335710893int, 4611624995532046335int, 4611624995532046335int, 4611624995532046337int),
    ensures
        root_power_is(4611624995532046337, 2061766055618274781int, 2868591307402993000int, 2699230790596717670int, 4611624995532046335int, 4611624995532046335int, 4611624995532046337int),
{
    lemma_root_power_square(72056640555188224, 1914266816643939086int, 2240145208355103890int, 54162771335710893int, 4611624995532046335int, 4611624995532046335int, 4611624995532046337int, 4222313183495932731int, 3934700134598062092int, 4305625325257798163int);
    lemma_root_power_square(144113281110376448, 4222313183495932731int, 3934700134598062092int, 4305625325257798163int, 4611624995532046335int, 4611624995532046335int, 4611624995532046337int, 2678290114138027984int, 2657365244808362860int, 2186590878991450881int);
    lemma_root_power_square(288226562220752896, 2678290114138027984int, 2657365244808362860int, 2186590878991450881int, 4611624995532046335int, 4611624995532046335int, 4611624995532046337int, 667112332892170624int, 2632822607301384723int, 4241512514299174787int);
    lemma_root_power_square(576453124441505792, 667112332892170624int, 2632822607301384723int, 4241512514299174787int, 4611624995532046335int, 4611624995532046335int, 4611624995532046337int, 2029521689001618082int, 1773236788759874362int, 4425845089786949136int);
    lemma_root_power_square(1152906248883011584, 2029521689001618082int, 1773236788759874362int, 4425845089786949136int, 4611624995532046335int, 4611624995532046335int, 4611624995532046337int, 1978026225960283601int, 768014935937005826int, 2427547257756875109int);
    lemma_root_power_square(2305812497766023168, 1978026225960283601int, 768014935937005826int, 2427547257756875109int, 4611624995532046335int, 4611624995532046335int, 4611624995532046337int, 806825251784718219int, 2699230790596717670int, 1274929469956885778int);
    lemma_root_power_next(4611624995532046336, 806825251784718219int, 2699230790596717670int, 1274929469956885778int, 4611624995532046335int, 4611624995532046335int, 4611624995532046337int, 2061766055618274781int, 2868591307402993000int, 2699230790596717670int);
}

/// The root raised to the power of the modulus is its image under the
/// Frobenius map.
pub proof fn lemma_fp62_root_to_modulus()
    ensures
        cubic_power(power_of_root(1), fp62::M as nat, FP62_U as int, FP62_V as int, fp62::M as int) == cubic_frobenius(
            power_of_root(1),
            fp62_f1(),
            fp62_f2(),
            fp62::M as int,
        ),
{
    lemma_fp62_images();
    lemma_root_power_first(4611624995532046335int, 4611624995532046335int, 4611624995532046337int);
    lemma_fp62_root_power_1();
    lemma_fp62_root_power_2();
    lemma_fp62_root_power_3();
    lemma_fp62_root_power_4();
    lemma_fp62_root_power_5();
    lemma_fp62_root_power_6();
    lemma_fp62_root_power_7();
    lemma_fp62_root_power_8();
    lemma_fp62_root_power_9();
    lemma_fp62_root_power_10();
    lemma_root_power_is(4611624995532046337, 2061766055618274781int, 2868591307402993000int, 2699230790596717670int, 4611624995532046335int, 4611624995532046335int, 4611624995532046337int);
}

/// The polynomial by whose root the 62-bit field is extended has no root
/// in that field: the root and its image under the Frobenius map differ by an
/// element that has an inverse.
pub proof fn lemma_fp62_no_root(r: int)
    requires
        0 <= r < fp62::M,
    ensures
        cubic_at(r, FP62_U as int, FP62_V as int, fp62::M as int) != 0,
{
    if r != 0 {
        crate::field::fp62_units::lemma_units(r);
    }
    lemma_power_of_modulus(r, fp62::M as int);
    lemma_fp62_root_to_modulus();
    lemma_fp62_images();
    lemma_powers_of_root();
    let image = seq![2061766055618274781int, 2868591307402993000int, 2699230790596717670int];
    let difference = seq![2061766055618274781int, 2868591307402992999int, 2699230790596717670int];
    let inverse = seq![4305425895592230514int, 4084582138899812470int, 3903877119343352303int];
    assert(sub_coeffs(image, power_of_root(1), fp62::M as int) =~= difference);
    lemma_product_of(2061766055618274781int, 2868591307402992999int, 2699230790596717670int, 4305425895592230514int, 4084582138899812470int, 3903877119343352303int, FP62_U as int, FP62_V as int, fp62::M as int, 1, 0, 0);
    assert(seq![1int, 0int, 0int] =~= crate::field::traits::lift_coeffs(1, 3));
    lemma_no_root(r, FP62_U as int, FP62_V as int, fp62::M as int, image, difference, inverse);
}

/// The polynomial by whose root the 62-bit field is extended is
/// irreducible over that field.
pub proof fn lemma_fp62_irreducible()
    ensures
        is_irreducible(FP62_U as int, FP62_V as int, fp62::M as int),
{
    assert forall|x: int| 0 < x < fp62::M as int implies #[trigger] is_unit(x, fp62::M as int) by {
        crate::field::fp62_units::lemma_units(x);
    }
    assert forall|r: int| 0 <= r < fp62::M as int implies #[trigger] cubic_at(r, FP62_U as int, FP62_V as int, fp62::M as int) != 0 by {
        lemma_fp62_no_root(r);
    }
}

/// The norm of a nonzero element of the cubic extension of the 62-bit field
/// is not zero.
pub proof fn lemma_fp62_norm_nonzero(a: Seq<int>)
    requires
        valid_coeffs(a, 3, fp62::M as int),
        a != zero_coeffs(3),
    ensures
        norm_of(a, FP62_U as int, FP62_V as int, fp62_f1(), fp62_f2(), fp62::M as int)[0] != 0,
{
    lemma_fp62_irreducible();
    lemma_fp62_frobenius();
    lemma_norm_nonzero(a, FP62_U as int, FP62_V as int, fp62_f1(), fp62_f2(), fp62::M as int);
}

/// The Frobenius map of the cubic extension of the 62-bit field is an
/// automorphism of order three that fixes the base field only.
pub proof fn lemma_fp62_frobenius()
    ensures
        is_frobenius(FP62_U as int, FP62_V as int, fp62_f1(), fp62_f2(), fp62::M as int),
{
    let (f1, f2) = (fp62_f1(), fp62_f2());
    assert forall|i: int, j: int| 0 <= i < 3 && 0 <= j < 3 implies #[trigger] cubic_frobenius(
        cubic_mul(power_of_root(i), power_of_root(j), FP62_U as int, FP62_V as int, fp62::M as int),
        f1,
        f2,
        fp62::M as int,
    ) == cubic_mul(
        cubic_frobenius(power_of_root(i), f1, f2, fp62::M as int),
        cubic_frobenius(power_of_root(j), f1, f2, fp62::M as int),
        FP62_U as int,
        FP62_V as int,
        fp62::M as int,
    ) by {
        if i == 0 && j == 0 {
            lemma_fp62_product_0_0();
        }
        if i == 0 && j == 1 {
            lemma_fp62_product_0_1();
        }
        if i == 0 && j == 2 {
            lemma_fp62_product_0_2();
        }
        if i == 1 && j == 0 {
            lemma_fp62_product_1_0();
        }
        if i == 1 && j == 1 {
            lemma_fp62_product_1_1();
        }
        if i == 1 && j == 2 {
            lemma_fp62_product_1_2();
        }
        if i == 2 && j == 0 {
            lemma_fp62_product_2_0();
        }
        if i == 2 && j == 1 {
            lemma_fp62_product_2_1();
        }
        if i == 2 && j == 2 {
            lemma_fp62_product_2_2();
        }
    }
    assert forall|i: int| 0 <= i < 3 implies cubic_frobenius(
        cubic_frobenius(cubic_frobenius(#[trigger] power_of_root(i), f1, f2, fp62::M as int), f1, f2, fp62::M as int),
        f1,
        f2,
        fp62::M as int,
    ) == power_of_root(i) by {
        if i == 0 {
            lemma_fp62_cubed_0();
        }
        if i == 1 {
            lemma_fp62_cubed_1();
        }
        if i == 2 {
            lemma_fp62_cubed_2();
        }
    }
    assert(f1[1] == 2868591307402993000int && f2[2] == 1743033688129053336int && f2[1] == 3336695525575160559int && f1[2] == 2699230790596717670int);
    assert(((2868591307402993000int - 1) * (1743033688129053336int - 1) - 3336695525575160559int * 2699230790596717670int) % 4611624995532046337int == 3int);
    crate::field::fp62_units::lemma_units(3int);
}

/// The image of `x` under the Frobenius map of the cubic extension of the
/// 64-bit field.
pub open spec fn fp64_f1() -> Seq<int> {
    seq![FP64_F1[0] as int, FP64_F1[1] as int, FP64_F1[2] as int]
}

/// The image of `x^2` under the Frobenius map of the cubic extension of the
/// 64-bit field.
pub open spec fn fp64_f2() -> Seq<int> {
    seq![FP64_F2[0] as int, FP64_F2[1] as int, FP64_F2[2] as int]
}

/// The images of the powers of the root.
proof fn lemma_fp64_images()
    ensures
        cubic_frobenius(power_of_root(0), fp64_f1(), fp64_f2(), fp64::M as int) == seq![1int, 0int, 0int],
        cubic_frobenius(power_of_root(1), fp64_f1(), fp64_f2(), fp64::M as int) == seq![10615703402128488253int, 10050274602728160328int, 11746561000929144102int],
        cubic_frobenius(power_of_root(2), fp64_f1(), fp64_f2(), fp64::M as int) == seq![6700183068485440220int, 14531223735771536287int, 8396469466686423992int],
{
    lemma_powers_of_root();
    lemma_image_of(1int, 0int, 0int, fp64_f1(), fp64_f2(), fp64::M as int, 1int, 0int, 0int);
    lemma_image_of(0int, 1int, 0int, fp64_f1(), fp64_f2(), fp64::M as int, 10615703402128488253int, 10050274602728160328int, 11746561000929144102int);
    lemma_image_of(0int, 0int, 1int, fp64_f1(), fp64_f2(), fp64::M as int, 6700183068485440220int, 14531223735771536287int, 8396469466686423992int);
}

/// The image of `x^0 * x^0` is the product of the images.
#[verifier::rlimit(60)]
proof fn lemma_fp64_product_0_0()
    ensures
        cubic_frobenius(
            cubic_mul(power_of_root(0), power_of_root(0), FP64_U as int, FP64_V as int, fp64::M as int),
            fp64_f1(),
            fp64_f2(),
            fp64::M as int,
        ) == cubic_mul(
            cubic_frobenius(power_of_root(0), fp64_f1(), fp64_f2(), fp64::M as int),
            cubic_frobenius(power_of_root(0), fp64_f1(), fp64_f2(), fp64::M as int),
            FP64_U as int,
            FP64_V as int,
            fp64::M as int,
        ),
{
    lemma_fp64_images();
    lemma_powers_of_root();
    lemma_product_of(1int, 0int, 0int, 1int, 0int, 0int, FP64_U as int, FP64_V as int, fp64::M as int, 1int, 0int, 0int);
    lemma_image_of(1int, 0int, 0int, fp64_f1(), fp64_f2(), fp64::M as int, 1int, 0int, 0int);
    lemma_product_of(1int, 0int, 0int, 1int, 0int, 0int, FP64_U as int, FP64_V as int, fp64::M as int, 1int, 0int, 0int);
}

/// The image of `x^0 * x^1` is the product of the images.
#[verifier::rlimit(60)]
proof fn lemma_fp64_product_0_1()
    ensures
        cubic_frobenius(
            cubic_mul(power_of_root(0), power_of_root(1), FP64_U as int, FP64_V as int, fp64::M as int),
            fp64_f1(),
            fp64_f2(),
            fp64::M as int,
        ) == cubic_mul(
            cubic_frobenius(power_of_root(0), fp64_f1(), fp64_f2(), fp64::M as int),
            cubic_frobenius(power_of_root(1), fp64_f1(), fp64_f2(), fp64::M as int),
            FP64_U as int,
            FP64_V as int,
            fp64::M as int,
        ),
{
    lemma_fp64_images();
    lemma_powers_of_root();
    lemma_product_of(1int, 0int, 0int, 0int, 1int, 0int, FP64_U as int, FP64_V as int, fp64::M as int, 0int, 1int, 0int);
    lemma_image_of(0int, 1int, 0int, fp64_f1(), fp64_f2(), fp64::M as int, 10615703402128488253int, 10050274602728160328int, 11746561000929144102int);
    lemma_product_of(1int, 0int, 0int, 10615703402128488253int, 10050274602728160328int, 11746561000929144102int, FP64_U as int, FP64_V as int, fp64::M as int, 10615703402128488253int, 10050274602728160328int, 11746561000929144102int);
}

/// The image of `x^0 * x^2` is the product of the images.
#[verifier::rlimit(60)]
proof fn lemma_fp64_product_0_2()
    ensures
        cubic_frobenius(
            cubic_mul(power_of_root(0), power_of_root(2), FP64_U as int, FP64_V as int, fp64::M as int),
            fp64_f1(),
            fp64_f2(),
            fp64::M as int,
        ) == cubic_mul(
            cubic_frobenius(power_of_root(0), fp64_f1(), fp64_f2(), fp64::M as int),
            cubic_frobenius(power_of_root(2), fp64_f1(), fp64_f2(), fp64::M as int),
            FP64_U as int,
            FP64_V as int,
            fp64::M as int,
        ),
{
    lemma_fp64_images();
    lemma_powers_of_root();
    lemma_product_of(1int, 0int, 0int, 0int, 0int, 1int, FP64_U as int, FP64_V as int, fp64::M as int, 0int, 0int, 1int);
    lemma_image_of(0int, 0int, 1int, fp64_f1(), fp64_f2(), fp64::M as int, 6700183068485440220int, 14531223735771536287int, 8396469466686423992int);
    lemma_product_of(1int, 0int, 0int, 6700183068485440220int, 14531223735771536287int, 8396469466686423992int, FP64_U as int, FP64_V as int, fp64::M as int, 6700183068485440220int, 14531223735771536287int, 8396469466686423992int);
}

/// The image of `x^1 * x^0` is the product of the images.
#[verifier::rlimit(60)]
proof fn lemma_fp64_product_1_0()
    ensures
        cubic_frobenius(
            cubic_mul(power_of_root(1), power_of_root(0), FP64_U as int, FP64_V as int, fp64::M as int),
            fp64_f1(),
            fp64_f2(),
            fp64::M as int,
        ) == cubic_mul(
            cubic_frobenius(power_of_root(1), fp64_f1(), fp64_f2(), fp64::M as int),
            cubic_frobenius(power_of_root(0), fp64_f1(), fp64_f2(), fp64::M as int),
            FP64_U as int,
            FP64_V as int,
            fp64::M as int,
        ),
{
    lemma_fp64_images();
    lemma_powers_of_root();
    lemma_product_of(0int, 1int, 0int, 1int, 0int, 0int, FP64_U as int, FP64_V as int, fp64::M as int, 0int, 1int, 0int);
    lemma_image_of(0int, 1int, 0int, fp64_f1(), fp64_f2(), fp64::M as int, 10615703402128488253int, 10050274602728160328int, 11746561000929144102int);
    lemma_product_of(10615703402128488253int, 10050274602728160328int, 11746561000929144102int, 1int, 0int, 0int, FP64_U as int, FP64_V as int, fp64::M as int, 10615703402128488253int, 10050274602728160328int, 11746561000929144102int);
}

/// The image of `x^1 * x^1` is the product of the images.
#[verifier::rlimit(60)]
proof fn lemma_fp64_product_1_1()
    ensures
        cubic_frobenius(
            cubic_mul(power_of_root(1), power_of_root(1), FP64_U as int, FP64_V as int, fp64::M as int),
            fp64_f1(),
            fp64_f2(),
            fp64::M as int,
        ) == cubic_mul(
            cubic_frobenius(power_of_root(1), fp64_f1(), fp64_f2(), fp64::M as int),
            cubic_frobenius(power_of_root(1), fp64_f1(), fp64_f2(), fp64::M as int),
            FP64_U as int,
            FP64_V as int,
            fp64::M as int,
        ),
{
    lemma_fp64_images();
    lemma_powers_of_root();
    lemma_product_of(0int, 1int, 0int, 0int, 1int, 0int, FP64_U as int, FP64_V as int, fp64::M as int, 0int, 0int, 1int);
    lemma_image_of(0int, 0int, 1int, fp64_f1(), fp64_f2(), fp64::M as int, 6700183068485440220int, 14531223735771536287int, 8396469466686423992int);
    lemma_product_of(10615703402128488253int, 10050274602728160328int, 11746561000929144102int, 10615703402128488253int, 10050274602728160328int, 11746561000929144102int, FP64_U as int, FP64_V as int, fp64::M as int, 6700183068485440220int, 14531223735771536287int, 8396469466686423992int);
}

/// The image of `x^1 * x^2` is the product of the images.
#[verifier::rlimit(60)]
proof fn lemma_fp64_product_1_2()
    ensures
        cubic_frobenius(
            cubic_mul(power_of_root(1), power_of_root(2), FP64_U as int, FP64_V as int, fp64::M as int),
            fp64_f1(),
            fp64_f2(),
            fp64::M as int,
        ) == cubic_mul(
            cubic_frobenius(power_of_root(1), fp64_f1(), fp64_f2(), fp64::M as int),
            cubic_frobenius(power_of_root(2), fp64_f1(), fp64_f2(), fp64::M as int),
            FP64_U as int,
            FP64_V as int,
            fp64::M as int,
        ),
{
    lemma_fp64_images();
    lemma_powers_of_root();
    lemma_product_of(0int, 1int, 0int, 0int, 0int, 1int, FP64_U as int, FP64_V as int, fp64::M as int, 1int, 1int, 0int);
    lemma_image_of(1int, 1int, 0int, fp64_f1(), fp64_f2(), fp64::M as int, 10615703402128488254int, 10050274602728160328int, 11746561000929144102int);
    lemma_product_of(10615703402128488253int, 10050274602728160328int, 11746561000929144102int, 6700183068485440220int, 14531223735771536287int, 8396469466686423992int, FP64_U as int, FP64_V as int, fp64::M as int, 10615703402128488254int, 10050274602728160328int, 11746561000929144102int);
}

/// The image of `x^2 * x^0` is the product of the images.
#[verifier::rlimit(60)]
proof fn lemma_fp64_product_2_0()
    ensures
        cubic_frobenius(
            cubic_mul(power_of_root(2), power_of_root(0), FP64_U as int, FP64_V as int, fp64::M as int),
            fp64_f1(),
            fp64_f2(),
            fp64::M as int,
        ) == cubic_mul(
            cubic_frobenius(power_of_root(2), fp64_f1(), fp64_f2(), fp64::M as int),
            cubic_frobenius(power_of_root(0), fp64_f1(), fp64_f2(), fp64::M as int),
            FP64_U as int,
            FP64_V as int,
            fp64::M as int,
        ),
{
    lemma_fp64_images();
    lemma_powers_of_root();
    lemma_product_of(0int, 0int, 1int, 1int, 0int, 0int, FP64_U as int, FP64_V as int, fp64::M as int, 0int, 0int, 1int);
    lemma_image_of(0int, 0int, 1int, fp64_f1(), fp64_f2(), fp64::M as int, 6700183068485440220int, 14531223735771536287int, 8396469466686423992int);
    lemma_product_of(6700183068485440220int, 14531223735771536287int, 8396469466686423992int, 1int, 0int, 0int, FP64_U as int, FP64_V as int, fp64::M as int, 6700183068485440220int, 14531223735771536287int, 8396469466686423992int);
}

/// The image of `x^2 * x^1` is the product of the images.
#[verifier::rlimit(60)]
proof fn lemma_fp64_product_2_1()
    ensures
        cubic_frobenius(
            cubic_mul(power_of_root(2), power_of_root(1), FP64_U as int, FP64_V as int, fp64::M as int),
            fp64_f1(),
            fp64_f2(),
            fp64::M as int,
        ) == cubic_mul(
            cubic_frobenius(power_of_root(2), fp64_f1(), fp64_f2(), fp64::M as int),
            cubic_frobenius(power_of_root(1), fp64_f1(), fp64_f2(), fp64::M as int),
            FP64_U as int,
            FP64_V as int,
            fp64::M as int,
        ),
{
    lemma_fp64_images();
    lemma_powers_of_root();
    lemma_product_of(0int, 0int, 1int, 0int, 1int, 0int, FP64_U as int, FP64_V as int, fp64::M as int, 1int, 1int, 0int);
    lemma_image_of(1int, 1int, 0int, fp64_f1(), fp64_f2(), fp64::M as int, 10615703402128488254int, 10050274602728160328int, 11746561000929144102int);
    lemma_product_of(6700183068485440220int, 14531223735771536287int, 8396469466686423992int, 10615703402128488253int, 10050274602728160328int, 11746561000929144102int, FP64_U as int, FP64_V as int, fp64::M as int, 10615703402128488254int, 10050274602728160328int, 11746561000929144102int);
}

/// The image of `x^2 * x^2` is the product of the images.
#[verifier::rlimit(60)]
proof fn lemma_fp64_product_2_2()
    ensures
        cubic_frobenius(
            cubic_mul(power_of_root(2), power_of_root(2), FP64_U as int, FP64_V as int, fp64::M as int),
            fp64_f1(),
            fp64_f2(),
            fp64::M as int,
        ) == cubic_mul(
            cubic_frobenius(power_of_root(2), fp64_f1(), fp64_f2(), fp64::M as int),
            cubic_frobenius(power_of_root(2), fp64_f1(), fp64_f2(), fp64::M as int),
            FP64_U as int,
            FP64_V as int,
            fp64::M as int,
        ),
{
    lemma_fp64_images();
    lemma_powers_of_root();
    lemma_product_of(0int, 0int, 1int, 0int, 0int, 1int, FP64_U as int, FP64_V as int, fp64::M as int, 0int, 1int, 1int);
    lemma_image_of(0int, 1int, 1int, fp64_f1(), fp64_f2(), fp64::M as int, 17315886470613928473int, 6134754269085112294int, 1696286398200983773int);
    lemma_product_of(6700183068485440220int, 14531223735771536287int, 8396469466686423992int, 6700183068485440220int, 14531223735771536287int, 8396469466686423992int, FP64_U as int, FP64_V as int, fp64::M as int, 17315886470613928473int, 6134754269085112294int, 1696286398200983773int);
}

/// The image of the image of the image of `x^0` is `x^0`.
#[verifier::rlimit(60)]
proof fn lemma_fp64_cubed_0()
    ensures
        cubic_frobenius(
            cubic_frobenius(
                cubic_frobenius(power_of_root(0), fp64_f1(), fp64_f2(), fp64::M as int),
                fp64_f1(),
                fp64_f2(),
                fp64::M as int,
            ),
            fp64_f1(),
            fp64_f2(),
            fp64::M as int,
        ) == power_of_root(0),
{
    lemma_fp64_images();
    lemma_powers_of_root();
    lemma_image_of(1int, 0int, 0int, fp64_f1(), fp64_f2(), fp64::M as int, 1int, 0int, 0int);
    lemma_image_of(1int, 0int, 0int, fp64_f1(), fp64_f2(), fp64::M as int, 1int, 0int, 0int);
}

/// The image of the image of the image of `x^1` is `x^1`.
#[verifier::rlimit(60)]
proof fn lemma_fp64_cubed_1()
    ensures
        cubic_frobenius(
            cubic_frobenius(
                cubic_frobenius(power_of_root(1), fp64_f1(), fp64_f2(), fp64::M as int),
                fp64_f1(),
                fp64_f2(),
                fp64::M as int,
            ),
            fp64_f1(),
            fp64_f2(),
            fp64::M as int,
        ) == power_of_root(1),
{
    lemma_fp64_images();
    lemma_powers_of_root();
    lemma_image_of(10615703402128488253int, 10050274602728160328int, 11746561000929144102int, fp64_f1(), fp64_f2(), fp64::M as int, 7831040667286096068int, 8396469466686423992int, 6700183068485440219int);
    lemma_image_of(7831040667286096068int, 8396469466686423992int, 6700183068485440219int, fp64_f1(), fp64_f2(), fp64::M as int, 0int, 1int, 0int);
}

/// The image of the image of the image of `x^2` is `x^2`.
#[verifier::rlimit(60)]
proof fn lemma_fp64_cubed_2()
    ensures
        cubic_frobenius(
            cubic_frobenius(
                cubic_frobenius(power_of_root(2), fp64_f1(), fp64_f2(), fp64::M as int),
                fp64_f1(),
                fp64_f2(),
                fp64::M as int,
            ),
            fp64_f1(),
            fp64_f2(),
            fp64::M as int,
        ) == power_of_root(2),
{
    lemma_fp64_images();
    lemma_powers_of_root();
    lemma_image_of(6700183068485440220int, 14531223735771536287int, 8396469466686423992int, fp64_f1(), fp64_f2(), fp64::M as int, 11746561000929144103int, 3915520333643048034int, 10050274602728160328int);
    lemma_image_of(11746561000929144103int, 3915520333643048034int, 10050274602728160328int, fp64_f1(), fp64_f2(), fp64::M as int, 0int, 0int, 1int);
}

/// A part of the chain of squares and products that raises the root to the
/// power of the modulus.
proof fn lemma_fp64_root_power_1()
    requires
        root_power_is(1, 0int, 1int, 0int, 1int, 1int, 18446744069414584321int),
    ensures
        root_power_is(31, 1081int, 1897int, 1432int, 1int, 1int, 18446744069414584321int),
{
    lemma_root_power_square(1, 0int, 1int, 0int, 1int, 1int, 18446744069414584321int, 0int, 0int, 1int);
    lemma_root_power_next(2, 0int, 0int, 1int, 1int, 1int, 18446744069414584321int, 1int, 1int, 0int);
    lemma_root_power_square(3, 1int, 1int, 0int, 1int, 1int, 18446744069414584321int, 1int, 2int, 1int);
    lemma_root_power_next(6, 1int, 2int, 1int, 1int, 1int, 18446744069414584321int, 1int, 2int, 2int);
    lemma_root_power_square(7, 1int, 2int, 2int, 1int, 1int, 18446744069414584321int, 9int, 16int, 12int);
    lemma_root_power_next(14, 9int, 16int, 12int, 1int, 1int, 18446744069414584321int, 12int, 21int, 16int);
    lemma_root_power_square(15, 12int, 21int, 16int, 1int, 1int, 18446744069414584321int, 816int, 1432int, 1081int);
    lemma_root_power_next(30, 816int, 1432int, 1081int, 1int, 1int, 18446744069414584321int, 1081int, 1897int, 1432int);
}

/// A part of the chain of squares and products that raises the root to the
/// power of the modulus.
proof fn lemma_fp64_root_power_2()
    requires
        root_power_is(31, 1081int, 1897int, 1432int, 1int, 1int, 18446744069414584321int),
    ensures
        root_power_is(511, 8005352931033794961int, 1200991702222341375int, 3509459721280925154int, 1int, 1int, 18446744069414584321int),
{
    lemma_root_power_square(31, 1081int, 1897int, 1432int, 1int, 1int, 18446744069414584321int, 6601569int, 11584946int, 8745217int);
    lemma_root_power_next(62, 6601569int, 11584946int, 8745217int, 1int, 1int, 18446744069414584321int, 8745217int, 15346786int, 11584946int);
    lemma_root_power_square(63, 8745217int, 15346786int, 11584946int, 1int, 1int, 18446744069414584321int, 432062194544201int, 758216295635152int, 572360547759276int);
    lemma_root_power_next(126, 432062194544201int, 758216295635152int, 572360547759276int, 1int, 1int, 18446744069414584321int, 572360547759276int, 1004422742303477int, 758216295635152int);
    lemma_root_power_square(127, 572360547759276int, 1004422742303477int, 758216295635152int, 1int, 1int, 18446744069414584321int, 4723382314260604413int, 17372766340139064469int, 10631063647363966784int);
    lemma_root_power_next(254, 4723382314260604413int, 17372766340139064469int, 10631063647363966784int, 1int, 1int, 18446744069414584321int, 10631063647363966784int, 15354445961624571197int, 17372766340139064469int);
    lemma_root_power_square(255, 10631063647363966784int, 15354445961624571197int, 17372766340139064469int, 1int, 1int, 18446744069414584321int, 11642382840603130735int, 3509459721280925154int, 8005352931033794961int);
    lemma_root_power_next(510, 11642382840603130735int, 3509459721280925154int, 8005352931033794961int, 1int, 1int, 18446744069414584321int, 8005352931033794961int, 1200991702222341375int, 3509459721280925154int);
}

/// A part of the chain of squares and products that raises the root to the
/// power of the modulus.
proof fn lemma_fp64_root_power_3()
    requires
        root_power_is(511, 8005352931033794961int, 1200991702222341375int, 3509459721280925154int, 1int, 1int, 18446744069414584321int),
    ensures
        root_power_is(8191, 15472473593400302188int, 17152841575636035006int, 17140222094744348464int, 1int, 1int, 18446744069414584321int),
{
    lemma_root_power_square(511, 8005352931033794961int, 1200991702222341375int, 3509459721280925154int, 1int, 1int, 18446744069414584321int, 11182464282885782675int, 6841103724816679185int, 4381046542902941993int);
    lemma_root_power_next(1022, 11182464282885782675int, 6841103724816679185int, 4381046542902941993int, 1int, 1int, 18446744069414584321int, 4381046542902941993int, 15563510825788724668int, 6841103724816679185int);
    lemma_root_power_square(1023, 4381046542902941993int, 15563510825788724668int, 6841103724816679185int, 1int, 1int, 18446744069414584321int, 13173005440264411916int, 9440462931311328392int, 4416627570905576152int);
    lemma_root_power_next(2046, 13173005440264411916int, 9440462931311328392int, 4416627570905576152int, 1int, 1int, 18446744069414584321int, 4416627570905576152int, 17589633011169988068int, 9440462931311328392int);
    lemma_root_power_square(2047, 4416627570905576152int, 17589633011169988068int, 9440462931311328392int, 1int, 1int, 18446744069414584321int, 8773705488955657289int, 16819528958367300955int, 10242271213295500900int);
    lemma_root_power_next(4094, 8773705488955657289int, 16819528958367300955int, 10242271213295500900int, 1int, 1int, 18446744069414584321int, 10242271213295500900int, 569232632836573868int, 16819528958367300955int);
    lemma_root_power_square(4095, 10242271213295500900int, 569232632836573868int, 16819528958367300955int, 1int, 1int, 18446744069414584321int, 1680367982235732818int, 17140222094744348464int, 15472473593400302188int);
    lemma_root_power_next(8190, 1680367982235732818int, 17140222094744348464int, 15472473593400302188int, 1int, 1int, 18446744069414584321int, 15472473593400302188int, 17152841575636035006int, 17140222094744348464int);
}

/// A part of the chain of squares and products that raises the root to the
/// power of the modulus.
proof fn lemma_fp64_root_power_4()
    requires
        root_power_is(8191, 15472473593400302188int, 17152841575636035006int, 17140222094744348464int, 1int, 1int, 18446744069414584321int),
    ensures
        root_power_is(131071, 4659076516666767726int, 16971451762190044101int, 2853122117199794220int, 1int, 1int, 18446744069414584321int),
{
    lemma_root_power_square(8191, 15472473593400302188int, 17152841575636035006int, 17140222094744348464int, 1int, 1int, 18446744069414584321int, 14978249881875965102int, 8418318907588004139int, 10050853865464236239int);
    lemma_root_power_next(16382, 14978249881875965102int, 8418318907588004139int, 10050853865464236239int, 1int, 1int, 18446744069414584321int, 10050853865464236239int, 6582359677925617020int, 8418318907588004139int);
    lemma_root_power_square(16383, 10050853865464236239int, 6582359677925617020int, 8418318907588004139int, 1int, 1int, 18446744069414584321int, 13297505101344811801int, 767722960220274515int, 13859650854970288498int);
    lemma_root_power_next(32766, 13297505101344811801int, 767722960220274515int, 13859650854970288498int, 1int, 1int, 18446744069414584321int, 13859650854970288498int, 8710411886900515978int, 767722960220274515int);
    lemma_root_power_square(32767, 13859650854970288498int, 8710411886900515978int, 767722960220274515int, 1int, 1int, 18446744069414584321int, 16352744068009574974int, 385693368393256935int, 8218110925392235342int);
    lemma_root_power_next(65534, 16352744068009574974int, 385693368393256935int, 8218110925392235342int, 1int, 1int, 18446744069414584321int, 8218110925392235342int, 6124110923987225995int, 385693368393256935int);
    lemma_root_power_square(65535, 8218110925392235342int, 6124110923987225995int, 385693368393256935int, 1int, 1int, 18446744069414584321int, 12312375245523276375int, 2853122117199794220int, 4659076516666767726int);
    lemma_root_power_next(131070, 12312375245523276375int, 2853122117199794220int, 4659076516666767726int, 1int, 1int, 18446744069414584321int, 4659076516666767726int, 16971451762190044101int, 2853122117199794220int);
}

/// A part of the chain of squares and products that raises the root to the
/// power of the modulus.
proof fn lemma_fp64_root_power_5()
    requires
        root_power_is(131071, 4659076516666767726int, 16971451762190044101int, 2853122117199794220int, 1int, 1int, 18446744069414584321int),
    ensures
        root_power_is(2097151, 16549214662035820590int, 16917761466840770533int, 10696057721481665275int, 1int, 1int, 18446744069414584321int),
{
    lemma_root_power_square(131071, 4659076516666767726int, 16971451762190044101int, 2853122117199794220int, 1int, 1int, 18446744069414584321int, 2249364476716211174int, 12151902958023338546int, 1332939883077806734int);
    lemma_root_power_next(262142, 2249364476716211174int, 12151902958023338546int, 1332939883077806734int, 1int, 1int, 18446744069414584321int, 1332939883077806734int, 3582304359794017908int, 12151902958023338546int);
    lemma_root_power_square(262143, 1332939883077806734int, 3582304359794017908int, 12151902958023338546int, 1int, 1int, 18446744069414584321int, 6624960006292430121int, 10224992181480688384int, 6408461823668415096int);
    lemma_root_power_next(524286, 6624960006292430121int, 10224992181480688384int, 6408461823668415096int, 1int, 1int, 18446744069414584321int, 6408461823668415096int, 13033421829960845217int, 10224992181480688384int);
    lemma_root_power_square(524287, 6408461823668415096int, 13033421829960845217int, 10224992181480688384int, 1int, 1int, 18446744069414584321int, 11920659186074669114int, 13449938289856480782int, 12371480694682002297int);
    lemma_root_power_next(1048574, 11920659186074669114int, 13449938289856480782int, 12371480694682002297int, 1int, 1int, 18446744069414584321int, 12371480694682002297int, 5845395811342087090int, 13449938289856480782int);
    lemma_root_power_square(1048575, 12371480694682002297int, 5845395811342087090int, 13449938289856480782int, 1int, 1int, 18446744069414584321int, 368546804804949943int, 10696057721481665275int, 16549214662035820590int);
    lemma_root_power_next(2097150, 368546804804949943int, 10696057721481665275int, 16549214662035820590int, 1int, 1int, 18446744069414584321int, 16549214662035820590int, 16917761466840770533int, 10696057721481665275int);
}

/// A part of the chain of squares and products that raises the root to the
/// power of the modulus.
proof fn lemma_fp64_root_power_6()
    requires
        root_power_is(2097151, 16549214662035820590int, 16917761466840770533int, 10696057721481665275int, 1int, 1int, 18446744069414584321int),
    ensures
        root_power_is(33554431, 11736193079448443421int, 2427710258508434300int, 4003639200154987791int, 1int, 1int, 18446744069414584321int),
{
    lemma_root_power_square(2097151, 16549214662035820590int, 16917761466840770533int, 10696057721481665275int, 1int, 1int, 18446744069414584321int, 17864169230389287275int, 13537386044881551521int, 8615035198431337228int);
    lemma_root_power_next(4194302, 17864169230389287275int, 13537386044881551521int, 8615035198431337228int, 1int, 1int, 18446744069414584321int, 8615035198431337228int, 8032460359406040182int, 13537386044881551521int);
    lemma_root_power_square(4194303, 8615035198431337228int, 8032460359406040182int, 13537386044881551521int, 1int, 1int, 18446744069414584321int, 14992497623084630008int, 13859138746956445181int, 6363680645293138005int);
    lemma_root_power_next(8388606, 14992497623084630008int, 13859138746956445181int, 6363680645293138005int, 1int, 1int, 18446744069414584321int, 6363680645293138005int, 2909434198963183692int, 13859138746956445181int);
    lemma_root_power_square(8388607, 6363680645293138005int, 2909434198963183692int, 13859138746956445181int, 1int, 1int, 18446744069414584321int, 9126158421128146083int, 14764577181388025928int, 2982004494653196154int);
    lemma_root_power_next(16777214, 9126158421128146083int, 14764577181388025928int, 2982004494653196154int, 1int, 1int, 18446744069414584321int, 2982004494653196154int, 12108162915781342237int, 14764577181388025928int);
    lemma_root_power_square(16777215, 2982004494653196154int, 12108162915781342237int, 14764577181388025928int, 1int, 1int, 18446744069414584321int, 9138261248474575200int, 4003639200154987791int, 11736193079448443421int);
    lemma_root_power_next(33554430, 9138261248474575200int, 4003639200154987791int, 11736193079448443421int, 1int, 1int, 18446744069414584321int, 11736193079448443421int, 2427710258508434300int, 4003639200154987791int);
}

/// A part of the chain of squares and products that raises the root to the
/// power of the modulus.
proof fn lemma_fp64_root_power_7()
    requires
        root_power_is(33554431, 11736193079448443421int, 2427710258508434300int, 4003639200154987791int, 1int, 1int, 18446744069414584321int),
    ensures
        root_power_is(536870911, 7531307421049392081int, 13450600588678059457int, 9799591891816256491int, 1int, 1int, 18446744069414584321int),
{
    lemma_root_power_square(33554431, 11736193079448443421int, 2427710258508434300int, 4003639200154987791int, 1int, 1int, 18446744069414584321int, 14257655493096534565int, 1428184821664116465int, 2058511649857893875int);
    lemma_root_power_next(67108862, 14257655493096534565int, 1428184821664116465int, 2058511649857893875int, 1int, 1int, 18446744069414584321int, 2058511649857893875int, 16316167142954428440int, 1428184821664116465int);
    lemma_root_power_square(67108863, 2058511649857893875int, 16316167142954428440int, 1428184821664116465int, 1int, 1int, 18446744069414584321int, 5247491905079661158int, 13079628040886172071int, 5924860730595288534int);
    lemma_root_power_next(134217726, 5247491905079661158int, 13079628040886172071int, 5924860730595288534int, 1int, 1int, 18446744069414584321int, 5924860730595288534int, 11172352635674949692int, 13079628040886172071int);
    lemma_root_power_square(134217727, 5924860730595288534int, 11172352635674949692int, 13079628040886172071int, 1int, 1int, 18446744069414584321int, 18418706426046569770int, 9787163918615041340int, 5359329889124103912int);
    lemma_root_power_next(268435454, 18418706426046569770int, 9787163918615041340int, 5359329889124103912int, 1int, 1int, 18446744069414584321int, 5359329889124103912int, 5331292245756089361int, 9787163918615041340int);
    lemma_root_power_square(268435455, 5359329889124103912int, 5331292245756089361int, 9787163918615041340int, 1int, 1int, 18446744069414584321int, 5919293167628667376int, 9799591891816256491int, 7531307421049392081int);
    lemma_root_power_next(536870910, 5919293167628667376int, 9799591891816256491int, 7531307421049392081int, 1int, 1int, 18446744069414584321int, 7531307421049392081int, 13450600588678059457int, 9799591891816256491int);
}

/// A part of the chain of squares and products that raises the root to the
/// power of the modulus.
proof fn lemma_fp64_root_power_8()
    requires
        root_power_is(536870911, 7531307421049392081int, 13450600588678059457int, 9799591891816256491int, 1int, 1int, 18446744069414584321int),
    ensures
        root_power_is(17179869180, 6536060914437731233int, 14802847150513102660int, 4569251470381443657int, 1int, 1int, 18446744069414584321int),
{
    lemma_root_power_square(536870911, 7531307421049392081int, 13450600588678059457int, 9799591891816256491int, 1int, 1int, 18446744069414584321int, 10921553344712665742int, 15598322179228703257int, 12173465370472780316int);
    lemma_root_power_next(1073741822, 10921553344712665742int, 15598322179228703257int, 12173465370472780316int, 1int, 1int, 18446744069414584321int, 12173465370472780316int, 4648274645770861737int, 15598322179228703257int);
    lemma_root_power_square(1073741823, 12173465370472780316int, 4648274645770861737int, 15598322179228703257int, 1int, 1int, 18446744069414584321int, 1941956182172907656int, 628221846932513290int, 3965881024553603884int);
    lemma_root_power_next(2147483646, 1941956182172907656int, 628221846932513290int, 3965881024553603884int, 1int, 1int, 18446744069414584321int, 3965881024553603884int, 5907837206726511540int, 628221846932513290int);
    lemma_root_power_square(2147483647, 3965881024553603884int, 5907837206726511540int, 628221846932513290int, 1int, 1int, 18446744069414584321int, 13945282359095416024int, 4313033625783026847int, 18257467011001150059int);
    lemma_root_power_next(4294967294, 13945282359095416024int, 4313033625783026847int, 18257467011001150059int, 1int, 1int, 18446744069414584321int, 18257467011001150059int, 13756005300681981762int, 4313033625783026847int);
    lemma_root_power_square(4294967295, 18257467011001150059int, 13756005300681981762int, 4313033625783026847int, 1int, 1int, 18446744069414584321int, 17014327679150878234int, 12607646404735112778int, 719963853502925156int);
    lemma_root_power_square(8589934590, 17014327679150878234int, 12607646404735112778int, 719963853502925156int, 1int, 1int, 18446744069414584321int, 6536060914437731233int, 14802847150513102660int, 4569251470381443657int);
}

/// A part of the chain of squares and products that raises the root to the
/// power of the modulus.
proof fn lemma_fp64_root_power_9()
    requires
        root_power_is(17179869180, 6536060914437731233int, 14802847150513102660int, 4569251470381443657int, 1int, 1int, 18446744069414584321int),
    ensures
        root_power_is(4398046510080, 13478154773546286730int, 16903680727800946941int, 5561652030637103799int, 1int, 1int, 18446744069414584321int),
{
    lemma_root_power_square(17179869180, 6536060914437731233int, 14802847150513102660int, 4569251470381443657int, 1int, 1int, 18446744069414584321int, 4911856645428035848int, 14708006208730003151int, 9714945969397219739int);
    lemma_root_power_square(34359738360, 4911856645428035848int, 14708006208730003151int, 9714945969397219739int, 1int, 1int, 18446744069414584321int, 14292518544408152065int, 13269242333066123618int, 7030524943306024153int);
    lemma_root_power_square(68719476720, 14292518544408152065int, 13269242333066123618int, 7030524943306024153int, 1int, 1int, 18446744069414584321int, 14349349722776201078int, 4079828368592850461int, 10033683277415949707int);
    lemma_root_power_square(137438953440, 14349349722776201078int, 4079828368592850461int, 10033683277415949707int, 1int, 1int, 18446744069414584321int, 2391313368065354046int, 15835810848328576636int, 4870656255852043891int);
    lemma_root_power_square(274877906880, 2391313368065354046int, 15835810848328576636int, 4870656255852043891int, 1int, 1int, 18446744069414584321int, 8292492632139951228int, 17245460825811921168int, 18423858443108432591int);
    lemma_root_power_square(549755813760, 8292492632139951228int, 17245460825811921168int, 18423858443108432591int, 1int, 1int, 18446744069414584321int, 14796088139877651157int, 1693463098193796028int, 14062111816298843526int);
    lemma_root_power_square(1099511627520, 14796088139877651157int, 1693463098193796028int, 14062111816298843526int, 1int, 1int, 18446744069414584321int, 841263094355012209int, 8109473162865757601int, 16373445232156981938int);
    lemma_root_power_square(2199023255040, 841263094355012209int, 8109473162865757601int, 16373445232156981938int, 1int, 1int, 18446744069414584321int, 13478154773546286730int, 16903680727800946941int, 5561652030637103799int);
}

/// A part of the chain of squares and products that raises the root to the
/// power of the modulus.
proof fn lemma_fp64_root_power_10()
    requires
        root_power_is(4398046510080, 13478154773546286730int, 16903680727800946941int, 5561652030637103799int, 1int, 1int, 18446744069414584321int),
    ensures
        root_power_is(1125899906580480, 59770504549512050int, 7971993996122119733int, 6342428284262850828int, 1int, 1int, 18446744069414584321int),
{
    lemma_root_power_square(4398046510080, 13478154773546286730int, 16903680727800946941int, 5561652030637103799int, 1int, 1int, 18446744069414584321int, 5477011168738302849int, 10165165692343603765int, 17166566317511879892int);
    lemma_root_power_square(8796093020160, 5477011168738302849int, 10165165692343603765int, 17166566317511879892int, 1int, 1int, 18446744069414584321int, 13629797061167796708int, 6319691714332995199int, 18186267925883894336int);
    lemma_root_power_square(17592186040320, 13629797061167796708int, 6319691714332995199int, 18186267925883894336int, 1int, 1int, 18446744069414584321int, 17188729530031364938int, 5598299681150408498int, 4423674743041695813int);
    lemma_root_power_square(35184372080640, 17188729530031364938int, 5598299681150408498int, 4423674743041695813int, 1int, 1int, 18446744069414584321int, 16393786127884735934int, 17655134797719117740int, 3870802745629922731int);
    lemma_root_power_square(70368744161280, 16393786127884735934int, 17655134797719117740int, 3870802745629922731int, 1int, 1int, 18446744069414584321int, 1810135185655154611int, 14067342876410122968int, 9257028593542338537int);
    lemma_root_power_square(140737488322560, 1810135185655154611int, 14067342876410122968int, 9257028593542338537int, 1int, 1int, 18446744069414584321int, 10629920536230044341int, 8385338063830083634int, 367283264183613029int);
    lemma_root_power_square(281474976645120, 10629920536230044341int, 8385338063830083634int, 367283264183613029int, 1int, 1int, 18446744069414584321int, 10042142244375803560int, 7072582969817231855int, 9357497855393547019int);
    lemma_root_power_square(562949953290240, 10042142244375803560int, 7072582969817231855int, 9357497855393547019int, 1int, 1int, 18446744069414584321int, 59770504549512050int, 7971993996122119733int, 6342428284262850828int);
}

/// A part of the chain of squares and products that raises the root to the
/// power of the modulus.
proof fn lemma_fp64_root_power_11()
    requires
        root_power_is(1125899906580480, 59770504549512050int, 7971993996122119733int, 6342428284262850828int, 1int, 1int, 18446744069414584321int),
    ensures
        root_power_is(288230376084602880, 1328844093254793213int, 16757782996432176529int, 6187720237288532511int, 1int, 1int, 18446744069414584321int),
{
    lemma_root_power_square(1125899906580480, 59770504549512050int, 7971993996122119733int, 6342428284262850828int, 1int, 1int, 18446744069414584321int, 2622868630606559356int, 2445845814755350016int, 7294939645723340231int);
    lemma_root_power_square(2251799813160960, 2622868630606559356int, 2445845814755350016int, 7294939645723340231int, 1int, 1int, 18446744069414584321int, 325843287025805937int, 941189506340762823int, 4936306696661642492int);
    lemma_root_power_square(4503599626321920, 325843287025805937int, 941189506340762823int, 4936306696661642492int, 1int, 1int, 18446744069414584321int, 5709830688519504325int, 5294837087033189454int, 13789788311344091380int);
    lemma_root_power_square(9007199252643840, 5709830688519504325int, 5294837087033189454int, 13789788311344091380int, 1int, 1int, 18446744069414584321int, 10141470528471579244int, 9885284929890285965int, 17377392563805199104int);
    lemma_root_power_square(18014398505287680, 10141470528471579244int, 9885284929890285965int, 17377392563805199104int, 1int, 1int, 18446744069414584321int, 618545735250886487int, 4730301220672711454int, 4975800268008024812int);
    lemma_root_power_square(36028797010575360, 618545735250886487int, 4730301220672711454int, 4975800268008024812int, 1int, 1int, 18446744069414584321int, 2750817074336557468int, 17258942863299204220int, 11170078648365466503int);
    lemma_root_power_square(72057594021150720, 2750817074336557468int, 17258942863299204220int, 11170078648365466503int, 1int, 1int, 18446744069414584321int, 6906452560844364261int, 12864089469506070517int, 3709527049109576701int);
    lemma_root_power_square(144115188042301440, 6906452560844364261int, 12864089469506070517int, 3709527049109576701int, 1int, 1int, 18446744069414584321int, 1328844093254793213int, 16757782996432176529int, 6187720237288532511int);
}

/// A part of the chain of squares and products that raises the root to the
/// power of the modulus.
proof fn lemma_fp64_root_power_12()
    requires
        root_power_is(288230376084602880, 1328844093254793213int, 16757782996432176529int, 6187720237288532511int, 1int, 1int, 18446744069414584321int),
    ensures
        root_power_is(18446744069414584321, 10615703402128488253int, 10050274602728160328int, 11746561000929144102int, 1int, 1int, 18446744069414584321int),
{
    lemma_root_power_square(288230376084602880, 1328844093254793213int, 16757782996432176529int, 6187720237288532511int, 1int, 1int, 18446744069414584321int, 8285684540255011865int, 961706330252454747int, 2301801694352089067int);
    lemma_root_power_square(576460752169205760, 8285684540255011865int, 961706330252454747int, 2301801694352089067int, 1int, 1int, 18446744069414584321int, 3412694788194576059int, 9438949368517925696int, 2618429826639837760int);
    lemma_root_power_square(1152921504338411520, 3412694788194576059int, 9438949368517925696int, 2618429826639837760int, 1int, 1int, 18446744069414584321int, 13044716511520563032int, 8154453814481524962int, 396018648220892799int);
    lemma_root_power_square(2305843008676823040, 13044716511520563032int, 8154453814481524962int, 396018648220892799int, 1int, 1int, 18446744069414584321int, 10323009335397958739int, 10652717226799117098int, 13326952731142629115int);
    lemma_root_power_square(4611686017353646080, 10323009335397958739int, 10652717226799117098int, 13326952731142629115int, 1int, 1int, 18446744069414584321int, 365860228024675213int, 4999439635928348976int, 8426174225170048632int);
    lemma_root_power_square(9223372034707292160, 365860228024675213int, 4999439635928348976int, 8426174225170048632int, 1int, 1int, 18446744069414584321int, 17881315270014256396int, 11746561000929144102int, 10615703402128488253int);
    lemma_root_power_next(18446744069414584320, 17881315270014256396int, 11746561000929144102int, 10615703402128488253int, 1int, 1int, 18446744069414584321int, 10615703402128488253int, 10050274602728160328int, 11746561000929144102int);
}

/// The root raised to the power of the modulus is its image under the
/// Frobenius map.
pub proof fn lemma_fp64_root_to_modulus()
    ensures
        cubic_power(power_of_root(1), fp64::M as nat, FP64_U as int, FP64_V as int, fp64::M as int) == cubic_frobenius(
            power_of_root(1),
            fp64_f1(),
            fp64_f2(),
            fp64::M as int,
        ),
{
    lemma_fp64_images();
    lemma_root_power_first(1int, 1int, 18446744069414584321int);
    lemma_fp64_root_power_1();
    lemma_fp64_root_power_2();
    lemma_fp64_root_power_3();
    lemma_fp64_root_power_4();
    lemma_fp64_root_power_5();
    lemma_fp64_root_power_6();
    lemma_fp64_root_power_7();
    lemma_fp64_root_power_8();
    lemma_fp64_root_power_9();
    lemma_fp64_root_power_10();
    lemma_fp64_root_power_11();
    lemma_fp64_root_power_12();
    lemma_root_power_is(18446744069414584321, 10615703402128488253int, 10050274602728160328int, 11746561000929144102int, 1int, 1int, 18446744069414584321int);
}

/// The polynomial by whose root the 64-bit field is extended has no root
/// in that field: the root and its image under the Frobenius map differ by an
/// element that has an inverse.
pub proof fn lemma_fp64_no_root(r: int)
    requires
        0 <= r < fp64::M,
    ensures
        cubic_at(r, FP64_U as int, FP64_V as int, fp64::M as int) != 0,
{
    if r != 0 {
        crate::field::fp64_units::lemma_units(r);
    }
    lemma_power_of_modulus(r, fp64::M as int);
    lemma_fp64_root_to_modulus();
    lemma_fp64_images();
    lemma_powers_of_root();
    let image = seq![10615703402128488253int, 10050274602728160328int, 11746561000929144102int];
    let difference = seq![10615703402128488253int, 10050274602728160327int, 11746561000929144102int];
    let inverse = seq![991315191999139912int, 15238614666038134874int, 11086490780951302402int];
    assert(sub_coeffs(image, power_of_root(1), fp64::M as int) =~= difference);
    lemma_product_of(10615703402128488253int, 10050274602728160327int, 11746561000929144102int, 991315191999139912int, 15238614666038134874int, 11086490780951302402int, FP64_U as int, FP64_V as int, fp64::M as int, 1, 0, 0);
    assert(seq![1int, 0int, 0int] =~= crate::field::traits::lift_coeffs(1, 3));
    lemma_no_root(r, FP64_U as int, FP64_V as int, fp64::M as int, image, difference, inverse);
}

/// The polynomial by whose root the 64-bit field is extended is
/// irreducible over that field.
pub proof fn lemma_fp64_irreducible()
    ensures
        is_irreducible(FP64_U as int, FP64_V as int, fp64::M as int),
{
    assert forall|x: int| 0 < x < fp64::M as int implies #[trigger] is_unit(x, fp64::M as int) by {
        crate::field::fp64_units::lemma_units(x);
    }
    assert forall|r: int| 0 <= r < fp64::M as int implies #[trigger] cubic_at(r, FP64_U as int, FP64_V as int, fp64::M as int) != 0 by {
        lemma_fp64_no_root(r);
    }
}

/// The norm of a nonzero element of the cubic extension of the 64-bit field
/// is not zero.
pub proof fn lemma_fp64_norm_nonzero(a: Seq<int>)
    requires
        valid_coeffs(a, 3, fp64::M as int),
        a != zero_coeffs(3),
    ensures
        norm_of(a, FP64_U as int, FP64_V as int, fp64_f1(), fp64_f2(), fp64::M as int)[0] != 0,
{
    lemma_fp64_irreducible();
    lemma_fp64_frobenius();
    lemma_norm_nonzero(a, FP64_U as int, FP64_V as int, fp64_f1(), fp64_f2(), fp64::M as int);
}

/// The Frobenius map of the cubic extension of the 64-bit field is an
/// automorphism of order three that fixes the base field only.
pub proof fn lemma_fp64_frobenius()
    ensures
        is_frobenius(FP64_U as int, FP64_V as int, fp64_f1(), fp64_f2(), fp64::M as int),
{
    let (f1, f2) = (fp64_f1(), fp64_f2());
    assert forall|i: int, j: int| 0 <= i < 3 && 0 <= j < 3 implies #[trigger] cubic_frobenius(
        cubic_mul(power_of_root(i), power_of_root(j), FP64_U as int, FP64_V as int, fp64::M as int),
        f1,
        f2,
        fp64::M as int,
    ) == cubic_mul(
        cubic_frobenius(power_of_root(i), f1, f2, fp64::M as int),
        cubic_frobenius(power_of_root(j), f1, f2, fp64::M as int),
        FP64_U as int,
        FP64_V as int,
        fp64::M as int,
    ) by {
        if i == 0 && j == 0 {
            lemma_fp64_product_0_0();
        }
        if i == 0 && j == 1 {
            lemma_fp64_product_0_1();
        }
        if i == 0 && j == 2 {
            lemma_fp64_product_0_2();
        }
        if i == 1 && j == 0 {
            lemma_fp64_product_1_0();
        }
        if i == 1 && j == 1 {
            lemma_fp64_product_1_1();
        }
        if i == 1 && j == 2 {
            lemma_fp64_product_1_2();
        }
        if i == 2 && j == 0 {
            lemma_fp64_product_2_0();
        }
        if i == 2 && j == 1 {
            lemma_fp64_product_2_1();
        }
        if i == 2 && j == 2 {
            lemma_fp64_product_2_2();
        }
    }
    assert forall|i: int| 0 <= i < 3 implies cubic_frobenius(
        cubic_frobenius(cubic_frobenius(#[trigger] power_of_root(i), f1, f2, fp64::M as int), f1, f2, fp64::M as int),
        f1,
        f2,
        fp64::M as int,
    ) == power_of_root(i) by {
        if i == 0 {
            lemma_fp64_cubed_0();
        }
        if i == 1 {
            lemma_fp64_cubed_1();
        }
        if i == 2 {
            lemma_fp64_cubed_2();
        }
    }
    assert(f1[1] == 10050274602728160328int && f2[2] == 8396469466686423992int && f2[1] == 14531223735771536287int && f1[2] == 11746561000929144102int);
    assert(((10050274602728160328int - 1) * (8396469466686423992int - 1) - 14531223735771536287int * 11746561000929144102int) % 18446744069414584321int == 3int);
    crate::field::fp64_units::lemma_units(3int);
}

/// The image of `x` under the Frobenius map of the cubic extension of the
/// 128-bit field.
pub open spec fn fp128_f1() -> Seq<int> {
    seq![FP128_F1[0] as int, FP128_F1[1] as int, FP128_F1[2] as int]
}

/// The image of `x^2` under the Frobenius map of the cubic extension of the
/// 128-bit field.
pub open spec fn fp128_f2() -> Seq<int> {
    seq![FP128_F2[0] as int, FP128_F2[1] as int, FP128_F2[2] as int]
}

/// The images of the powers of the root.
proof fn lemma_fp128_images()
    ensures
        cubic_frobenius(power_of_root(0), fp128_f1(), fp128_f2(), fp128::M as int) == seq![1int, 0int, 0int],
        cubic_frobenius(power_of_root(1), fp128_f1(), fp128_f2(), fp128::M as int) == seq![112067274102834481137912936240124974988int, 214206683555249672183222504683604364675int, 84050455577125860853434702180093731241int],
        cubic_frobenius(power_of_root(2), fp128_f1(), fp128_f2(), fp128::M as int) == seq![168100911154251721706869404360187462480int, 56033637051417240568956468120062487494int, 126075683365688791280152053270140596861int],
{
    lemma_powers_of_root();
    lemma_image_of(1int, 0int, 0int, fp128_f1(), fp128_f2(), fp128::M as int, 1int, 0int, 0int);
    lemma_image_of(0int, 1int, 0int, fp128_f1(), fp128_f2(), fp128::M as int, 112067274102834481137912936240124974988int, 214206683555249672183222504683604364675int, 84050455577125860853434702180093731241int);
    lemma_image_of(0int, 0int, 1int, fp128_f1(), fp128_f2(), fp128::M as int, 168100911154251721706869404360187462480int, 56033637051417240568956468120062487494int, 126075683365688791280152053270140596861int);
}

/// The image of `x^0 * x^0` is the product of the images.
#[verifier::rlimit(60)]
proof fn lemma_fp128_product_0_0()
    ensures
        cubic_frobenius(
            cubic_mul(power_of_root(0), power_of_root(0), FP128_U as int, FP128_V as int, fp128::M as int),
            fp128_f1(),
            fp128_f2(),
            fp128::M as int,
        ) == cubic_mul(
            cubic_frobenius(power_of_root(0), fp128_f1(), fp128_f2(), fp128::M as int),
            cubic_frobenius(power_of_root(0), fp128_f1(), fp128_f2(), fp128::M as int),
            FP128_U as int,
            FP128_V as int,
            fp128::M as int,
        ),
{
    lemma_fp128_images();
    lemma_powers_of_root();
    lemma_product_of(1int, 0int, 0int, 1int, 0int, 0int, FP128_U as int, FP128_V as int, fp128::M as int, 1int, 0int, 0int);
    lemma_image_of(1int, 0int, 0int, fp128_f1(), fp128_f2(), fp128::M as int, 1int, 0int, 0int);
    lemma_product_of(1int, 0int, 0int, 1int, 0int, 0int, FP128_U as int, FP128_V as int, fp128::M as int, 1int, 0int, 0int);
}

/// The image of `x^0 * x^1` is the product of the images.
#[verifier::rlimit(60)]
proof fn lemma_fp128_product_0_1()
    ensures
        cubic_frobenius(
            cubic_mul(power_of_root(0), power_of_root(1), FP128_U as int, FP128_V as int, fp128::M as int),
            fp128_f1(),
            fp128_f2(),
            fp128::M as int,
        ) == cubic_mul(
            cubic_frobenius(power_of_root(0), fp128_f1(), fp128_f2(), fp128::M as int),
            cubic_frobenius(power_of_root(1), fp128_f1(), fp128_f2(), fp128::M as int),
            FP128_U as int,
            FP128_V as int,
            fp128::M as int,
        ),
{
    lemma_fp128_images();
    lemma_powers_of_root();
    lemma_product_of(1int, 0int, 0int, 0int, 1int, 0int, FP128_U as int, FP128_V as int, fp128::M as int, 0int, 1int, 0int);
    lemma_image_of(0int, 1int, 0int, fp128_f1(), fp128_f2(), fp128::M as int, 112067274102834481137912936240124974988int, 214206683555249672183222504683604364675int, 84050455577125860853434702180093731241int);
    lemma_product_of(1int, 0int, 0int, 112067274102834481137912936240124974988int, 214206683555249672183222504683604364675int, 84050455577125860853434702180093731241int, FP128_U as int, FP128_V as int, fp128::M as int, 112067274102834481137912936240124974988int, 214206683555249672183222504683604364675int, 84050455577125860853434702180093731241int);
}

/// The image of `x^0 * x^2` is the product of the images.
#[verifier::rlimit(60)]
proof fn lemma_fp128_product_0_2()
    ensures
        cubic_frobenius(
            cubic_mul(power_of_root(0), power_of_root(2), FP128_U as int, FP128_V as int, fp128::M as int),
            fp128_f1(),
            fp128_f2(),
            fp128::M as int,
        ) == cubic_mul(
            cubic_frobenius(power_of_root(0), fp128_f1(), fp128_f2(), fp128::M as int),
            cubic_frobenius(power_of_root(2), fp128_f1(), fp128_f2(), fp128::M as int),
            FP128_U as int,
            FP128_V as int,
            fp128::M as int,
        ),
{
    lemma_fp128_images();
    lemma_powers_of_root();
    lemma_product_of(1int, 0int, 0int, 0int, 0int, 1int, FP128_U as int, FP128_V as int, fp128::M as int, 0int, 0int, 1int);
    lemma_image_of(0int, 0int, 1int, fp128_f1(), fp128_f2(), fp128::M as int, 168100911154251721706869404360187462480int, 56033637051417240568956468120062487494int, 126075683365688791280152053270140596861int);
    lemma_product_of(1int, 0int, 0int, 168100911154251721706869404360187462480int, 56033637051417240568956468120062487494int, 126075683365688791280152053270140596861int, FP128_U as int, FP128_V as int, fp128::M as int, 168100911154251721706869404360187462480int, 56033637051417240568956468120062487494int, 126075683365688791280152053270140596861int);
}

/// The image of `x^1 * x^0` is the product of the images.
#[verifier::rlimit(60)]
proof fn lemma_fp128_product_1_0()
    ensures
        cubic_frobenius(
            cubic_mul(power_of_root(1), power_of_root(0), FP128_U as int, FP128_V as int, fp128::M as int),
            fp128_f1(),
            fp128_f2(),
            fp128::M as int,
        ) == cubic_mul(
            cubic_frobenius(power_of_root(1), fp128_f1(), fp128_f2(), fp128::M as int),
            cubic_frobenius(power_of_root(0), fp128_f1(), fp128_f2(), fp128::M as int),
            FP128_U as int,
            FP128_V as int,
            fp128::M as int,
        ),
{
    lemma_fp128_images();
    lemma_powers_of_root();
    lemma_product_of(0int, 1int, 0int, 1int, 0int, 0int, FP128_U as int, FP128_V as int, fp128::M as int, 0int, 1int, 0int);
    lemma_image_of(0int, 1int, 0int, fp128_f1(), fp128_f2(), fp128::M as int, 112067274102834481137912936240124974988int, 214206683555249672183222504683604364675int, 84050455577125860853434702180093731241int);
    lemma_product_of(112067274102834481137912936240124974988int, 214206683555249672183222504683604364675int, 84050455577125860853434702180093731241int, 1int, 0int, 0int, FP128_U as int, FP128_V as int, fp128::M as int, 112067274102834481137912936240124974988int, 214206683555249672183222504683604364675int, 84050455577125860853434702180093731241int);
}

/// The image of `x^1 * x^1` is the product of the images.
#[verifier::rlimit(60)]
proof fn lemma_fp128_product_1_1()
    ensures
        cubic_frobenius(
            cubic_mul(power_of_root(1), power_of_root(1), FP128_U as int, FP128_V as int, fp128::M as int),
            fp128_f1(),
            fp128_f2(),
            fp128::M as int,
        ) == cubic_mul(
            cubic_frobenius(power_of_root(1), fp128_f1(), fp128_f2(), fp128::M as int),
            cubic_frobenius(power_of_root(1), fp128_f1(), fp128_f2(), fp128::M as int),
            FP128_U as int,
            FP128_V as int,
            fp128::M as int,
        ),
{
    lemma_fp128_images();
    lemma_powers_of_root();
    lemma_product_of(0int, 1int, 0int, 0int, 1int, 0int, FP128_U as int, FP128_V as int, fp128::M as int, 0int, 0int, 1int);
    lemma_image_of(0int, 0int, 1int, fp128_f1(), fp128_f2(), fp128::M as int, 168100911154251721706869404360187462480int, 56033637051417240568956468120062487494int, 126075683365688791280152053270140596861int);
    lemma_product_of(112067274102834481137912936240124974988int, 214206683555249672183222504683604364675int, 84050455577125860853434702180093731241int, 112067274102834481137912936240124974988int, 214206683555249672183222504683604364675int, 84050455577125860853434702180093731241int, FP128_U as int, FP128_V as int, fp128::M as int, 168100911154251721706869404360187462480int, 56033637051417240568956468120062487494int, 126075683365688791280152053270140596861int);
}

/// The image of `x^1 * x^2` is the product of the images.
#[verifier::rlimit(60)]
proof fn lemma_fp128_product_1_2()
    ensures
        cubic_frobenius(
            cubic_mul(power_of_root(1), power_of_root(2), FP128_U as int, FP128_V as int, fp128::M as int),
            fp128_f1(),
            fp128_f2(),
            fp128::M as int,
        ) == cubic_mul(
            cubic_frobenius(power_of_root(1), fp128_f1(), fp128_f2(), fp128::M as int),
            cubic_frobenius(power_of_root(2), fp128_f1(), fp128_f2(), fp128::M as int),
            FP128_U as int,
            FP128_V as int,
            fp128::M as int,
        ),
{
    lemma_fp128_images();
    lemma_powers_of_root();
    lemma_product_of(0int, 1int, 0int, 0int, 0int, 1int, FP128_U as int, FP128_V as int, fp128::M as int, 340282366920938463463374557953744961535int, 340282366920938463463374557953744961535int, 0int);
    lemma_image_of(340282366920938463463374557953744961535int, 340282366920938463463374557953744961535int, 0int, fp128_f1(), fp128_f2(), fp128::M as int, 116147818715269501187548685473495011559int, 252151366731377582560304106540281193724int, 172181455766686741756505153593557499055int);
    lemma_product_of(112067274102834481137912936240124974988int, 214206683555249672183222504683604364675int, 84050455577125860853434702180093731241int, 168100911154251721706869404360187462480int, 56033637051417240568956468120062487494int, 126075683365688791280152053270140596861int, FP128_U as int, FP128_V as int, fp128::M as int, 116147818715269501187548685473495011559int, 252151366731377582560304106540281193724int, 172181455766686741756505153593557499055int);
}

/// The image of `x^2 * x^0` is the product of the images.
#[verifier::rlimit(60)]
proof fn lemma_fp128_product_2_0()
    ensures
        cubic_frobenius(
            cubic_mul(power_of_root(2), power_of_root(0), FP128_U as int, FP128_V as int, fp128::M as int),
            fp128_f1(),
            fp128_f2(),
            fp128::M as int,
        ) == cubic_mul(
            cubic_frobenius(power_of_root(2), fp128_f1(), fp128_f2(), fp128::M as int),
            cubic_frobenius(power_of_root(0), fp128_f1(), fp128_f2(), fp128::M as int),
            FP128_U as int,
            FP128_V as int,
            fp128::M as int,
        ),
{
    lemma_fp128_images();
    lemma_powers_of_root();
    lemma_product_of(0int, 0int, 1int, 1int, 0int, 0int, FP128_U as int, FP128_V as int, fp128::M as int, 0int, 0int, 1int);
    lemma_image_of(0int, 0int, 1int, fp128_f1(), fp128_f2(), fp128::M as int, 168100911154251721706869404360187462480int, 56033637051417240568956468120062487494int, 126075683365688791280152053270140596861int);
    lemma_product_of(168100911154251721706869404360187462480int, 56033637051417240568956468120062487494int, 126075683365688791280152053270140596861int, 1int, 0int, 0int, FP128_U as int, FP128_V as int, fp128::M as int, 168100911154251721706869404360187462480int, 56033637051417240568956468120062487494int, 126075683365688791280152053270140596861int);
}

/// The image of `x^2 * x^1` is the product of the images.
#[verifier::rlimit(60)]
proof fn lemma_fp128_product_2_1()
    ensures
        cubic_frobenius(
            cubic_mul(power_of_root(2), power_of_root(1), FP128_U as int, FP128_V as int, fp128::M as int),
            fp128_f1(),
            fp128_f2(),
            fp128::M as int,
        ) == cubic_mul(
            cubic_frobenius(power_of_root(2), fp128_f1(), fp128_f2(), fp128::M as int),
            cubic_frobenius(power_of_root(1), fp128_f1(), fp128_f2(), fp128::M as int),
            FP128_U as int,
            FP128_V as int,
            fp128::M as int,
        ),
{
    lemma_fp128_images();
    lemma_powers_of_root();
    lemma_product_of(0int, 0int, 1int, 0int, 1int, 0int, FP128_U as int, FP128_V as int, fp128::M as int, 340282366920938463463374557953744961535int, 340282366920938463463374557953744961535int, 0int);
    lemma_image_of(340282366920938463463374557953744961535int, 340282366920938463463374557953744961535int, 0int, fp128_f1(), fp128_f2(), fp128::M as int, 116147818715269501187548685473495011559int, 252151366731377582560304106540281193724int, 172181455766686741756505153593557499055int);
    lemma_product_of(168100911154251721706869404360187462480int, 56033637051417240568956468120062487494int, 126075683365688791280152053270140596861int, 112067274102834481137912936240124974988int, 214206683555249672183222504683604364675int, 84050455577125860853434702180093731241int, FP128_U as int, FP128_V as int, fp128::M as int, 116147818715269501187548685473495011559int, 252151366731377582560304106540281193724int, 172181455766686741756505153593557499055int);
}

/// The image of `x^2 * x^2` is the product of the images.
#[verifier::rlimit(60)]
proof fn lemma_fp128_product_2_2()
    ensures
        cubic_frobenius(
            cubic_mul(power_of_root(2), power_of_root(2), FP128_U as int, FP128_V as int, fp128::M as int),
            fp128_f1(),
            fp128_f2(),
            fp128::M as int,
        ) == cubic_mul(
            cubic_frobenius(power_of_root(2), fp128_f1(), fp128_f2(), fp128::M as int),
            cubic_frobenius(power_of_root(2), fp128_f1(), fp128_f2(), fp128::M as int),
            FP128_U as int,
            FP128_V as int,
            fp128::M as int,
        ),
{
    lemma_fp128_images();
    lemma_powers_of_root();
    lemma_product_of(0int, 0int, 1int, 0int, 0int, 1int, FP128_U as int, FP128_V as int, fp128::M as int, 0int, 340282366920938463463374557953744961535int, 340282366920938463463374557953744961535int);
    lemma_image_of(0int, 340282366920938463463374557953744961535int, 340282366920938463463374557953744961535int, fp128_f1(), fp128_f2(), fp128::M as int, 120228363327704521237184434706865048138int, 140084092628543101422391170300156218736int, 260312455956247622659575605007021266870int);
    lemma_product_of(168100911154251721706869404360187462480int, 56033637051417240568956468120062487494int, 126075683365688791280152053270140596861int, 168100911154251721706869404360187462480int, 56033637051417240568956468120062487494int, 126075683365688791280152053270140596861int, FP128_U as int, FP128_V as int, fp128::M as int, 120228363327704521237184434706865048138int, 140084092628543101422391170300156218736int, 260312455956247622659575605007021266870int);
}

/// The image of the image of the image of `x^0` is `x^0`.
#[verifier::rlimit(60)]
proof fn lemma_fp128_cubed_0()
    ensures
        cubic_frobenius(
            cubic_frobenius(
                cubic_frobenius(power_of_root(0), fp128_f1(), fp128_f2(), fp128::M as int),
                fp128_f1(),
                fp128_f2(),
                fp128::M as int,
            ),
            fp128_f1(),
            fp128_f2(),
            fp128::M as int,
        ) == power_of_root(0),
{
    lemma_fp128_images();
    lemma_powers_of_root();
    lemma_image_of(1int, 0int, 0int, fp128_f1(), fp128_f2(), fp128::M as int, 1int, 0int, 0int);
    lemma_image_of(1int, 0int, 0int, fp128_f1(), fp128_f2(), fp128::M as int, 1int, 0int, 0int);
}

/// The image of the image of the image of `x^1` is `x^1`.
#[verifier::rlimit(60)]
proof fn lemma_fp128_cubed_1()
    ensures
        cubic_frobenius(
            cubic_frobenius(
                cubic_frobenius(power_of_root(1), fp128_f1(), fp128_f2(), fp128::M as int),
                fp128_f1(),
                fp128_f2(),
                fp128::M as int,
            ),
            fp128_f1(),
            fp128_f2(),
            fp128::M as int,
        ) == power_of_root(1),
{
    lemma_fp128_images();
    lemma_powers_of_root();
    lemma_image_of(112067274102834481137912936240124974988int, 214206683555249672183222504683604364675int, 84050455577125860853434702180093731241int, fp128_f1(), fp128_f2(), fp128::M as int, 228215092818103982325461621713619986549int, 126075683365688791280152053270140596861int, 256231911343812602609939855773651230296int);
    lemma_image_of(228215092818103982325461621713619986549int, 126075683365688791280152053270140596861int, 256231911343812602609939855773651230296int, fp128_f1(), fp128_f2(), fp128::M as int, 0int, 1int, 0int);
}

/// The image of the image of the image of `x^2` is `x^2`.
#[verifier::rlimit(60)]
proof fn lemma_fp128_cubed_2()
    ensures
        cubic_frobenius(
            cubic_frobenius(
                cubic_frobenius(power_of_root(2), fp128_f1(), fp128_f2(), fp128::M as int),
                fp128_f1(),
                fp128_f2(),
                fp128::M as int,
            ),
            fp128_f1(),
            fp128_f2(),
            fp128::M as int,
        ) == power_of_root(2),
{
    lemma_fp128_images();
    lemma_powers_of_root();
    lemma_image_of(168100911154251721706869404360187462480int, 56033637051417240568956468120062487494int, 126075683365688791280152053270140596861int, fp128_f1(), fp128_f2(), fp128::M as int, 172181455766686741756505153593557499053int, 284248729869521222894418089833682474043int, 214206683555249672183222504683604364675int);
    lemma_image_of(172181455766686741756505153593557499053int, 284248729869521222894418089833682474043int, 214206683555249672183222504683604364675int, fp128_f1(), fp128_f2(), fp128::M as int, 0int, 0int, 1int);
}

/// A part of the chain of squares and products that raises the root to the
/// power of the modulus.
proof fn lemma_fp128_root_power_1()
    requires
        root_power_is(1, 0int, 1int, 0int, 340282366920938463463374557953744961535int, 340282366920938463463374557953744961535int, 340282366920938463463374557953744961537int),
    ensures
        root_power_is(31, 340282366920938463463374557953743951873int, 340282366920938463463374557953744010241int, 464896int, 340282366920938463463374557953744961535int, 340282366920938463463374557953744961535int, 340282366920938463463374557953744961537int),
{
    lemma_root_power_square(1, 0int, 1int, 0int, 340282366920938463463374557953744961535int, 340282366920938463463374557953744961535int, 340282366920938463463374557953744961537int, 0int, 0int, 1int);
    lemma_root_power_next(2, 0int, 0int, 1int, 340282366920938463463374557953744961535int, 340282366920938463463374557953744961535int, 340282366920938463463374557953744961537int, 340282366920938463463374557953744961535int, 340282366920938463463374557953744961535int, 0int);
    lemma_root_power_square(3, 340282366920938463463374557953744961535int, 340282366920938463463374557953744961535int, 0int, 340282366920938463463374557953744961535int, 340282366920938463463374557953744961535int, 340282366920938463463374557953744961537int, 4int, 8int, 4int);
    lemma_root_power_next(6, 4int, 8int, 4int, 340282366920938463463374557953744961535int, 340282366920938463463374557953744961535int, 340282366920938463463374557953744961537int, 340282366920938463463374557953744961529int, 340282366920938463463374557953744961533int, 8int);
    lemma_root_power_square(7, 340282366920938463463374557953744961529int, 340282366920938463463374557953744961533int, 8int, 340282366920938463463374557953744961535int, 340282366920938463463374557953744961535int, 340282366920938463463374557953744961537int, 192int, 64int, 340282366920938463463374557953744961297int);
    lemma_root_power_next(14, 192int, 64int, 340282366920938463463374557953744961297int, 340282366920938463463374557953744961535int, 340282366920938463463374557953744961535int, 340282366920938463463374557953744961537int, 480int, 672int, 64int);
    lemma_root_power_square(15, 480int, 672int, 64int, 340282366920938463463374557953744961535int, 340282366920938463463374557953744961535int, 340282366920938463463374557953744961537int, 58368int, 464896int, 504832int);
    lemma_root_power_next(30, 58368int, 464896int, 504832int, 340282366920938463463374557953744961535int, 340282366920938463463374557953744961535int, 340282366920938463463374557953744961537int, 340282366920938463463374557953743951873int, 340282366920938463463374557953744010241int, 464896int);
}

/// A part of the chain of squares and products that raises the root to the
/// power of the modulus.
proof fn lemma_fp128_root_power_2()
    requires
        root_power_is(31, 340282366920938463463374557953743951873int, 340282366920938463463374557953744010241int, 464896int, 340282366920938463463374557953744961535int, 340282366920938463463374557953744961535int, 340282366920938463463374557953744961537int),
    ensures
        root_power_is(511, 292231745688595090481202197561221781723int, 171740181205829503121299413023564255271int, 159369682520442645857779239320707916495int, 340282366920938463463374557953744961535int, 340282366920938463463374557953744961535int, 340282366920938463463374557953744961537int),
{
    lemma_root_power_square(31, 340282366920938463463374557953743951873int, 340282366920938463463374557953744010241int, 464896int, 340282366920938463463374557953744961535int, 340282366920938463463374557953744961535int, 340282366920938463463374557953744961537int, 2788436213760int, 3257736888320int, 340282366920938463463374557487674949633int);
    lemma_root_power_next(62, 2788436213760int, 3257736888320int, 340282366920938463463374557487674949633int, 340282366920938463463374557953744961535int, 340282366920938463463374557953744961535int, 340282366920938463463374557953744961537int, 932140023808int, 3720576237568int, 3257736888320int);
    lemma_root_power_square(63, 932140023808int, 3720576237568int, 3257736888320int, 340282366920938463463374557953744961535int, 340282366920938463463374557953744961535int, 340282366920938463463374557953744961537int, 340282366920890849714578814294934159361int, 340282366920875691326333119992990531585int, 340282366920937153785528349465488916481int);
    lemma_root_power_next(126, 340282366920890849714578814294934159361int, 340282366920875691326333119992990531585int, 340282366920937153785528349465488916481int, 340282366920938463463374557953744961535int, 340282366920938463463374557953744961535int, 340282366920938463463374557953744961537int, 2619355692416976512090112int, 340282366920893469070271231271446249473int, 340282366920875691326333119992990531585int);
    lemma_root_power_square(127, 2619355692416976512090112int, 340282366920893469070271231271446249473int, 340282366920875691326333119992990531585int, 340282366920938463463374557953744961535int, 340282366920938463463374557953744961535int, 340282366920938463463374557953744961537int, 33169319797754718155689109422769404382int, 287541892535545032448330862072149467519int, 186498970335698592236239102065317405307int);
    lemma_root_power_next(254, 33169319797754718155689109422769404382int, 287541892535545032448330862072149467519int, 186498970335698592236239102065317405307int, 340282366920938463463374557953744961535int, 340282366920938463463374557953744961535int, 340282366920938463463374557953744961537int, 307566793170479742454270911776855112460int, 453746047295997146585463245879555305int, 287541892535545032448330862072149467519int);
    lemma_root_power_square(255, 307566793170479742454270911776855112460int, 453746047295997146585463245879555305int, 287541892535545032448330862072149467519int, 340282366920938463463374557953744961535int, 340282366920938463463374557953744961535int, 340282366920938463463374557953744961537int, 219790802438172876103471773416087435085int, 159369682520442645857779239320707916495int, 24025310616171686491086180196261589907int);
    lemma_root_power_next(510, 219790802438172876103471773416087435085int, 159369682520442645857779239320707916495int, 24025310616171686491086180196261589907int, 340282366920938463463374557953744961535int, 340282366920938463463374557953744961535int, 340282366920938463463374557953744961537int, 292231745688595090481202197561221781723int, 171740181205829503121299413023564255271int, 159369682520442645857779239320707916495int);
}

/// A part of the chain of squares and products that raises the root to the
/// power of the modulus.
proof fn lemma_fp128_root_power_3()
    requires
        root_power_is(511, 292231745688595090481202197561221781723int, 171740181205829503121299413023564255271int, 159369682520442645857779239320707916495int, 340282366920938463463374557953744961535int, 340282366920938463463374557953744961535int, 340282366920938463463374557953744961537int),
    ensures
        root_power_is(8191, 132795381492885270058203617491740075351int, 159350500631988556910203850925796352172int, 66592754288417546053425986903580156219int, 340282366920938463463374557953744961535int, 340282366920938463463374557953744961535int, 340282366920938463463374557953744961537int),
{
    lemma_root_power_square(511, 292231745688595090481202197561221781723int, 171740181205829503121299413023564255271int, 159369682520442645857779239320707916495int, 340282366920938463463374557953744961535int, 340282366920938463463374557953744961535int, 340282366920938463463374557953744961537int, 104266287712567354103041895369390252993int, 189512663221658619714775278935043687960int, 331200047508717933763317634332481613371int);
    lemma_root_power_next(1022, 104266287712567354103041895369390252993int, 189512663221658619714775278935043687960int, 331200047508717933763317634332481613371int, 340282366920938463463374557953744961535int, 340282366920938463463374557953744961535int, 340282366920938463463374557953744961537int, 18164638824441059400113847242526696332int, 122430926537008413503155742611916949325int, 189512663221658619714775278935043687960int);
    lemma_root_power_square(1023, 18164638824441059400113847242526696332int, 122430926537008413503155742611916949325int, 189512663221658619714775278935043687960int, 340282366920938463463374557953744961535int, 340282366920938463463374557953744961535int, 340282366920938463463374557953744961537int, 15605671363394541881041800376934341604int, 165537112478657575485405230065895880363int, 155119978059401876099192005548375244973int);
    lemma_root_power_next(2046, 15605671363394541881041800376934341604int, 165537112478657575485405230065895880363int, 155119978059401876099192005548375244973int, 340282366920938463463374557953744961535int, 340282366920938463463374557953744961535int, 340282366920938463463374557953744961537int, 30042410802134711264990546856994471591int, 45648082165529253146032347233928813195int, 165537112478657575485405230065895880363int);
    lemma_root_power_square(2047, 30042410802134711264990546856994471591int, 45648082165529253146032347233928813195int, 165537112478657575485405230065895880363int, 340282366920938463463374557953744961535int, 340282366920938463463374557953744961535int, 340282366920938463463374557953744961537int, 187913388803960214217435723812842896095int, 292473837600303494230809664973835483174int, 258507002871517199702484326884161619242int);
    lemma_root_power_next(4094, 187913388803960214217435723812842896095int, 292473837600303494230809664973835483174int, 258507002871517199702484326884161619242int, 340282366920938463463374557953744961535int, 340282366920938463463374557953744961535int, 340282366920938463463374557953744961537int, 163550728098842527521780462139166684590int, 11181749981864278275841627998264619148int, 292473837600303494230809664973835483174int);
    lemma_root_power_square(4095, 163550728098842527521780462139166684590int, 11181749981864278275841627998264619148int, 292473837600303494230809664973835483174int, 340282366920938463463374557953744961535int, 340282366920938463463374557953744961535int, 340282366920938463463374557953744961537int, 26555119139103286852000233434056276821int, 66592754288417546053425986903580156219int, 103743492714026596702585470231002443093int);
    lemma_root_power_next(8190, 26555119139103286852000233434056276821int, 66592754288417546053425986903580156219int, 103743492714026596702585470231002443093int, 340282366920938463463374557953744961535int, 340282366920938463463374557953744961535int, 340282366920938463463374557953744961537int, 132795381492885270058203617491740075351int, 159350500631988556910203850925796352172int, 66592754288417546053425986903580156219int);
}

/// A part of the chain of squares and products that raises the root to the
/// power of the modulus.
proof fn lemma_fp128_root_power_4()
    requires
        root_power_is(8191, 132795381492885270058203617491740075351int, 159350500631988556910203850925796352172int, 66592754288417546053425986903580156219int, 340282366920938463463374557953744961535int, 340282366920938463463374557953744961535int, 340282366920938463463374557953744961537int),
    ensures
        root_power_is(131071, 140715679268139379108152946815558810816int, 98541497141826105965727570653308650756int, 191465542065593895669159308506909496088int, 340282366920938463463374557953744961535int, 340282366920938463463374557953744961535int, 340282366920938463463374557953744961537int),
{
    lemma_root_power_square(8191, 132795381492885270058203617491740075351int, 159350500631988556910203850925796352172int, 66592754288417546053425986903580156219int, 340282366920938463463374557953744961535int, 340282366920938463463374557953744961535int, 340282366920938463463374557953744961537int, 199197964673505274584026906250693822545int, 179995515592842434690947946817983269124int, 239226706443695430290070832770488133525int);
    lemma_root_power_next(16382, 199197964673505274584026906250693822545int, 179995515592842434690947946817983269124int, 239226706443695430290070832770488133525int, 340282366920938463463374557953744961535int, 340282366920938463463374557953744961535int, 340282366920938463463374557953744961537int, 202111320954486066346607450366513656024int, 61026918707052877467259798663462517032int, 179995515592842434690947946817983269124int);
    lemma_root_power_square(16383, 202111320954486066346607450366513656024int, 61026918707052877467259798663462517032int, 179995515592842434690947946817983269124int, 340282366920938463463374557953744961535int, 340282366920938463463374557953744961535int, 340282366920938463463374557953744961537int, 36447375986502305339911817395919858859int, 101075087773579129689344665614710413819int, 286911140517846636468660577478680097877int);
    lemma_root_power_next(32766, 36447375986502305339911817395919858859int, 101075087773579129689344665614710413819int, 286911140517846636468660577478680097877int, 340282366920938463463374557953744961535int, 340282366920938463463374557953744961535int, 340282366920938463463374557953744961537int, 106742452806183653989427960950129727320int, 143189828792685959329339778346049586179int, 101075087773579129689344665614710413819int);
    lemma_root_power_square(32767, 106742452806183653989427960950129727320int, 143189828792685959329339778346049586179int, 101075087773579129689344665614710413819int, 340282366920938463463374557953744961535int, 340282366920938463463374557953744961535int, 340282366920938463463374557953744961537int, 270575120607894588724154534875999105453int, 122956275806175317594126598890990241335int, 270854811871186652758202690733215232909int);
    lemma_root_power_next(65534, 270575120607894588724154534875999105453int, 122956275806175317594126598890990241335int, 270854811871186652758202690733215232909int, 340282366920938463463374557953744961535int, 340282366920938463463374557953744961535int, 340282366920938463463374557953744961537int, 138855110099503621410343734441059457256int, 69147863786459746671123711363313601172int, 122956275806175317594126598890990241335int);
    lemma_root_power_square(65535, 138855110099503621410343734441059457256int, 69147863786459746671123711363313601172int, 122956275806175317594126598890990241335int, 340282366920938463463374557953744961535int, 340282366920938463463374557953744961535int, 340282366920938463463374557953744961537int, 298108184794625190320949181791494801477int, 191465542065593895669159308506909496088int, 269924527286868773909298084545965556129int);
    lemma_root_power_next(131070, 298108184794625190320949181791494801477int, 191465542065593895669159308506909496088int, 269924527286868773909298084545965556129int, 340282366920938463463374557953744961535int, 340282366920938463463374557953744961535int, 340282366920938463463374557953744961537int, 140715679268139379108152946815558810816int, 98541497141826105965727570653308650756int, 191465542065593895669159308506909496088int);
}

/// A part of the chain of squares and products that raises the root to the
/// power of the modulus.
proof fn lemma_fp128_root_power_5()
    requires
        root_power_is(131071, 140715679268139379108152946815558810816int, 98541497141826105965727570653308650756int, 191465542065593895669159308506909496088int, 340282366920938463463374557953744961535int, 340282366920938463463374557953744961535int, 340282366920938463463374557953744961537int),
    ensures
        root_power_is(2097151, 331109844042369179842406255185587464752int, 62157918615519202509381537392590721577int, 75341911478856805608728690200494471563int, 340282366920938463463374557953744961535int, 340282366920938463463374557953744961535int, 340282366920938463463374557953744961537int),
{
    lemma_root_power_square(131071, 140715679268139379108152946815558810816int, 98541497141826105965727570653308650756int, 191465542065593895669159308506909496088int, 340282366920938463463374557953744961535int, 340282366920938463463374557953744961535int, 340282366920938463463374557953744961537int, 332033050710891472671044368085206680634int, 256847551464712682156288131078957158927int, 339739110642405320674229929392745921991int);
    lemma_root_power_next(262142, 332033050710891472671044368085206680634int, 256847551464712682156288131078957158927int, 339739110642405320674229929392745921991int, 340282366920938463463374557953744961535int, 340282366920938463463374557953744961535int, 340282366920938463463374557953744961537int, 1086512557066285578289257121998079092int, 333119563267957758249333625207204759726int, 256847551464712682156288131078957158927int);
    lemma_root_power_square(262143, 1086512557066285578289257121998079092int, 333119563267957758249333625207204759726int, 256847551464712682156288131078957158927int, 340282366920938463463374557953744961535int, 340282366920938463463374557953744961535int, 340282366920938463463374557953744961537int, 204696533587307167196155915792503321268int, 1559813049125028299110942390754843216int, 104390729122852365930788248179639188225int);
    lemma_root_power_next(524286, 204696533587307167196155915792503321268int, 1559813049125028299110942390754843216int, 104390729122852365930788248179639188225int, 340282366920938463463374557953744961535int, 340282366920938463463374557953744961535int, 340282366920938463463374557953744961537int, 131500908675233731601798061594466585087int, 336197442262540898797953977386969906355int, 1559813049125028299110942390754843216int);
    lemma_root_power_square(524287, 131500908675233731601798061594466585087int, 336197442262540898797953977386969906355int, 1559813049125028299110942390754843216int, 340282366920938463463374557953744961535int, 340282366920938463463374557953744961535int, 340282366920938463463374557953744961537int, 242098588125098177151990036398582452126int, 247720858832394284015428696197349304391int, 194567781522414496535147058235107648244int);
    lemma_root_power_next(1048574, 242098588125098177151990036398582452126int, 247720858832394284015428696197349304391int, 194567781522414496535147058235107648244int, 340282366920938463463374557953744961535int, 340282366920938463463374557953744961535int, 340282366920938463463374557953744961537int, 291429170797047933856454999437274626586int, 193245392001207647545070477882112117175int, 247720858832394284015428696197349304391int);
    lemma_root_power_square(1048575, 291429170797047933856454999437274626586int, 193245392001207647545070477882112117175int, 247720858832394284015428696197349304391int, 340282366920938463463374557953744961535int, 340282366920938463463374557953744961535int, 340282366920938463463374557953744961537int, 71330441494088486130349840160748218362int, 75341911478856805608728690200494471563int, 174727444899753873542171430360951229161int);
    lemma_root_power_next(2097150, 71330441494088486130349840160748218362int, 75341911478856805608728690200494471563int, 174727444899753873542171430360951229161int, 340282366920938463463374557953744961535int, 340282366920938463463374557953744961535int, 340282366920938463463374557953744961537int, 331109844042369179842406255185587464752int, 62157918615519202509381537392590721577int, 75341911478856805608728690200494471563int);
}

/// A part of the chain of squares and products that raises the root to the
/// power of the modulus.
proof fn lemma_fp128_root_power_6()
    requires
        root_power_is(2097151, 331109844042369179842406255185587464752int, 62157918615519202509381537392590721577int, 75341911478856805608728690200494471563int, 340282366920938463463374557953744961535int, 340282366920938463463374557953744961535int, 340282366920938463463374557953744961537int),
    ensures
        root_power_is(33554431, 76498782776236981881923950860134223708int, 252668748251793745804915611655442680512int, 233109298766657352461272678015527086656int, 340282366920938463463374557953744961535int, 340282366920938463463374557953744961535int, 340282366920938463463374557953744961537int),
{
    lemma_root_power_square(2097151, 331109844042369179842406255185587464752int, 62157918615519202509381537392590721577int, 75341911478856805608728690200494471563int, 340282366920938463463374557953744961535int, 340282366920938463463374557953744961535int, 340282366920938463463374557953744961537int, 82844908330929553877055687877554898941int, 308801355374652534035307464246672169147int, 64866944249653065460710661250383010695int);
    lemma_root_power_next(4194302, 82844908330929553877055687877554898941int, 308801355374652534035307464246672169147int, 64866944249653065460710661250383010695int, 340282366920938463463374557953744961535int, 340282366920938463463374557953744961535int, 340282366920938463463374557953744961537int, 210548478421632332541953235452978940147int, 293393386752561886419008923330533839088int, 308801355374652534035307464246672169147int);
    lemma_root_power_square(4194303, 210548478421632332541953235452978940147int, 293393386752561886419008923330533839088int, 308801355374652534035307464246672169147int, 340282366920938463463374557953744961535int, 340282366920938463463374557953744961535int, 340282366920938463463374557953744961537int, 284042380937199659759236489207081400936int, 2606447264220034709176263861389512987int, 180268419020948423742571879971063313167int);
    lemma_root_power_next(8388606, 284042380937199659759236489207081400936int, 2606447264220034709176263861389512987int, 180268419020948423742571879971063313167int, 340282366920938463463374557953744961535int, 340282366920938463463374557953744961535int, 340282366920938463463374557953744961537int, 320027895799980079441605355965363296740int, 263787909816241275737467287218699736139int, 2606447264220034709176263861389512987int);
    lemma_root_power_square(8388607, 320027895799980079441605355965363296740int, 263787909816241275737467287218699736139int, 2606447264220034709176263861389512987int, 340282366920938463463374557953744961535int, 340282366920938463463374557953744961535int, 340282366920938463463374557953744961537int, 96213246161857394992273708392990108225int, 337788556176743817383485937385267748952int, 161851520876873096396198363780269598629int);
    lemma_root_power_next(16777214, 96213246161857394992273708392990108225int, 337788556176743817383485937385267748952int, 161851520876873096396198363780269598629int, 340282366920938463463374557953744961535int, 340282366920938463463374557953744961535int, 340282366920938463463374557953744961537int, 16579325167192270670977830393205764279int, 112792571329049665663251538786195872504int, 337788556176743817383485937385267748952int);
    lemma_root_power_square(16777215, 16579325167192270670977830393205764279int, 112792571329049665663251538786195872504int, 337788556176743817383485937385267748952int, 340282366920938463463374557953744961535int, 340282366920938463463374557953744961535int, 340282366920938463463374557953744961537int, 176169965475556763922991660795308456804int, 233109298766657352461272678015527086656int, 302032975532819972522412582523677849683int);
    lemma_root_power_next(33554430, 176169965475556763922991660795308456804int, 233109298766657352461272678015527086656int, 302032975532819972522412582523677849683int, 340282366920938463463374557953744961535int, 340282366920938463463374557953744961535int, 340282366920938463463374557953744961537int, 76498782776236981881923950860134223708int, 252668748251793745804915611655442680512int, 233109298766657352461272678015527086656int);
}

/// A part of the chain of squares and products that raises the root to the
/// power of the modulus.
proof fn lemma_fp128_root_power_7()
    requires
        root_power_is(33554431, 76498782776236981881923950860134223708int, 252668748251793745804915611655442680512int, 233109298766657352461272678015527086656int, 340282366920938463463374557953744961535int, 340282366920938463463374557953744961535int, 340282366920938463463374557953744961537int),
    ensures
        root_power_is(536870911, 24151346445077692131897995613591400971int, 137749217446762959176568369885811743378int, 257735517663988602734450579391204800669int, 340282366920938463463374557953744961535int, 340282366920938463463374557953744961535int, 340282366920938463463374557953744961537int),
{
    lemma_root_power_square(33554431, 76498782776236981881923950860134223708int, 252668748251793745804915611655442680512int, 233109298766657352461272678015527086656int, 340282366920938463463374557953744961535int, 340282366920938463463374557953744961535int, 340282366920938463463374557953744961537int, 271439203804988232242352523595025252792int, 248788764674196402618579869352545130102int, 166562449428954453257174797084380863820int);
    lemma_root_power_next(67108862, 271439203804988232242352523595025252792int, 248788764674196402618579869352545130102int, 166562449428954453257174797084380863820int, 340282366920938463463374557953744961535int, 340282366920938463463374557953744961535int, 340282366920938463463374557953744961537int, 7157468063029556949024963784983233897int, 278596671868017789191377487380008486689int, 248788764674196402618579869352545130102int);
    lemma_root_power_square(67108863, 7157468063029556949024963784983233897int, 278596671868017789191377487380008486689int, 248788764674196402618579869352545130102int, 340282366920938463463374557953744961535int, 340282366920938463463374557953744961535int, 340282366920938463463374557953744961537int, 111534221298379699582947512000962092095int, 229396482731184044249449188342494173298int, 184555637550545228204276193636826773168int);
    lemma_root_power_next(134217726, 111534221298379699582947512000962092095int, 229396482731184044249449188342494173298int, 184555637550545228204276193636826773168int, 340282366920938463463374557953744961535int, 340282366920938463463374557953744961535int, 340282366920938463463374557953744961537int, 311453458740786470518196728633836376738int, 82705313118227706637769682681053507296int, 229396482731184044249449188342494173298int);
    lemma_root_power_square(134217727, 311453458740786470518196728633836376738int, 82705313118227706637769682681053507296int, 229396482731184044249449188342494173298int, 340282366920938463463374557953744961535int, 340282366920938463463374557953744961535int, 340282366920938463463374557953744961537int, 40930023033430451649426317454614910504int, 159537062331534343048253463390841226905int, 327267408234450939546698108337326625036int);
    lemma_root_power_next(268435454, 40930023033430451649426317454614910504int, 159537062331534343048253463390841226905int, 327267408234450939546698108337326625036int, 340282366920938463463374557953744961535int, 340282366920938463463374557953744961535int, 340282366920938463463374557953744961537int, 26029917372975047833352899232836673002int, 66959940406405499482779216687451583506int, 159537062331534343048253463390841226905int);
    lemma_root_power_square(268435455, 26029917372975047833352899232836673002int, 66959940406405499482779216687451583506int, 159537062331534343048253463390841226905int, 340282366920938463463374557953744961535int, 340282366920938463463374557953744961535int, 340282366920938463463374557953744961537int, 113597871001685267044670374272220342407int, 257735517663988602734450579391204800669int, 158065510237930385665738281170076780283int);
    lemma_root_power_next(536870910, 113597871001685267044670374272220342407int, 257735517663988602734450579391204800669int, 158065510237930385665738281170076780283int, 340282366920938463463374557953744961535int, 340282366920938463463374557953744961535int, 340282366920938463463374557953744961537int, 24151346445077692131897995613591400971int, 137749217446762959176568369885811743378int, 257735517663988602734450579391204800669int);
}

/// A part of the chain of squares and products that raises the root to the
/// power of the modulus.
proof fn lemma_fp128_root_power_8()
    requires
        root_power_is(536870911, 24151346445077692131897995613591400971int, 137749217446762959176568369885811743378int, 257735517663988602734450579391204800669int, 340282366920938463463374557953744961535int, 340282366920938463463374557953744961535int, 340282366920938463463374557953744961537int),
    ensures
        root_power_is(8589934591, 280653134485099596241583588560328394298int, 63190531995118664321736579173402181046int, 136619016875695777426042603921956369746int, 340282366920938463463374557953744961535int, 340282366920938463463374557953744961535int, 340282366920938463463374557953744961537int),
{
    lemma_root_power_square(536870911, 24151346445077692131897995613591400971int, 137749217446762959176568369885811743378int, 257735517663988602734450579391204800669int, 340282366920938463463374557953744961535int, 340282366920938463463374557953744961535int, 340282366920938463463374557953744961537int, 331803527883284355827408991147789695951int, 319874429989258840646547119226198538658int, 202692275979842170559332143080715896056int);
    lemma_root_power_next(1073741822, 331803527883284355827408991147789695951int, 319874429989258840646547119226198538658int, 202692275979842170559332143080715896056int, 340282366920938463463374557953744961535int, 340282366920938463463374557953744961535int, 340282366920938463463374557953744961537int, 275180181882192585808084829746058130962int, 266701342844538478172119262940102865376int, 319874429989258840646547119226198538658int);
    lemma_root_power_square(1073741823, 275180181882192585808084829746058130962int, 266701342844538478172119262940102865376int, 319874429989258840646547119226198538658int, 340282366920938463463374557953744961535int, 340282366920938463463374557953744961535int, 340282366920938463463374557953744961537int, 38458681286470218881455001645789325386int, 294182952551677081690815000789763964966int, 5167598167766148529480824295652667477int);
    lemma_root_power_next(2147483646, 38458681286470218881455001645789325386int, 294182952551677081690815000789763964966int, 5167598167766148529480824295652667477int, 340282366920938463463374557953744961535int, 340282366920938463463374557953744961535int, 340282366920938463463374557953744961537int, 329947170585406166404412909362439626583int, 28123484950937921822493353054483990432int, 294182952551677081690815000789763964966int);
    lemma_root_power_square(2147483647, 329947170585406166404412909362439626583int, 28123484950937921822493353054483990432int, 294182952551677081690815000789763964966int, 340282366920938463463374557953744961535int, 340282366920938463463374557953744961535int, 340282366920938463463374557953744961537int, 242477288691033979157487194043850915588int, 296476317552820765937062149545440891091int, 143993345062825840049864443941644295627int);
    lemma_root_power_next(4294967294, 242477288691033979157487194043850915588int, 296476317552820765937062149545440891091int, 143993345062825840049864443941644295627int, 340282366920938463463374557953744961535int, 340282366920938463463374557953744961535int, 340282366920938463463374557953744961537int, 52295676795286783363645670070456370283int, 294772965486320762521132864114307285871int, 296476317552820765937062149545440891091int);
    lemma_root_power_square(4294967295, 52295676795286783363645670070456370283int, 294772965486320762521132864114307285871int, 296476317552820765937062149545440891091int, 340282366920938463463374557953744961535int, 340282366920938463463374557953744961535int, 340282366920938463463374557953744961537int, 122819764430957531543527548566818748285int, 136619016875695777426042603921956369746int, 199955799678388665342582763673580764388int);
    lemma_root_power_next(8589934590, 122819764430957531543527548566818748285int, 136619016875695777426042603921956369746int, 199955799678388665342582763673580764388int, 340282366920938463463374557953744961535int, 340282366920938463463374557953744961535int, 340282366920938463463374557953744961537int, 280653134485099596241583588560328394298int, 63190531995118664321736579173402181046int, 136619016875695777426042603921956369746int);
}

/// A part of the chain of squares and products that raises the root to the
/// power of the modulus.
proof fn lemma_fp128_root_power_9()
    requires
        root_power_is(8589934591, 280653134485099596241583588560328394298int, 63190531995118664321736579173402181046int, 136619016875695777426042603921956369746int, 340282366920938463463374557953744961535int, 340282366920938463463374557953744961535int, 340282366920938463463374557953744961537int),
    ensures
        root_power_is(137438953471, 208609944113158114070355167913164281015int, 126305376697719296922627599916070973175int, 92246421377785782682179532568999270064int, 340282366920938463463374557953744961535int, 340282366920938463463374557953744961535int, 340282366920938463463374557953744961537int),
{
    lemma_root_power_square(8589934591, 280653134485099596241583588560328394298int, 63190531995118664321736579173402181046int, 136619016875695777426042603921956369746int, 340282366920938463463374557953744961535int, 340282366920938463463374557953744961535int, 340282366920938463463374557953744961537int, 45536892006146109022998546652133777174int, 213518101543832681026132938744287161517int, 335742432235591264638263630718302983837int);
    lemma_root_power_next(17179869182, 45536892006146109022998546652133777174int, 213518101543832681026132938744287161517int, 335742432235591264638263630718302983837int, 340282366920938463463374557953744961535int, 340282366920938463463374557953744961535int, 340282366920938463463374557953744961537int, 9079869370694397650221854470883955400int, 54616761376840506673220401123017732574int, 213518101543832681026132938744287161517int);
    lemma_root_power_square(17179869183, 9079869370694397650221854470883955400int, 54616761376840506673220401123017732574int, 213518101543832681026132938744287161517int, 340282366920938463463374557953744961535int, 340282366920938463463374557953744961535int, 340282366920938463463374557953744961537int, 289594451912368233249392036384992086438int, 283986174987021624756862892651931377933int, 223951815619441644877035443199829700695int);
    lemma_root_power_next(34359738366, 289594451912368233249392036384992086438int, 283986174987021624756862892651931377933int, 223951815619441644877035443199829700695int, 340282366920938463463374557953744961535int, 340282366920938463463374557953744961535int, 340282366920938463463374557953744961537int, 232661102602993637172678229507830521684int, 181973187594423406958695707939077646585int, 283986174987021624756862892651931377933int);
    lemma_root_power_square(34359738367, 232661102602993637172678229507830521684int, 181973187594423406958695707939077646585int, 283986174987021624756862892651931377933int, 340282366920938463463374557953744961535int, 340282366920938463463374557953744961535int, 340282366920938463463374557953744961537int, 126036961432208061501829657900303334803int, 87239288270666828975632721878739548196int, 3936683471289905367653721644857036931int);
    lemma_root_power_next(68719476734, 126036961432208061501829657900303334803int, 87239288270666828975632721878739548196int, 3936683471289905367653721644857036931int, 340282366920938463463374557953744961535int, 340282366920938463463374557953744961535int, 340282366920938463463374557953744961537int, 332408999978358652728067114664030887675int, 118163594489628250766522214610589260941int, 87239288270666828975632721878739548196int);
    lemma_root_power_square(68719476735, 332408999978358652728067114664030887675int, 118163594489628250766522214610589260941int, 87239288270666828975632721878739548196int, 340282366920938463463374557953744961535int, 340282366920938463463374557953744961535int, 340282366920938463463374557953744961537int, 257977799505499646315646989956651653697int, 92246421377785782682179532568999270064int, 65836211403890174696509695020290340261int);
    lemma_root_power_next(137438953470, 257977799505499646315646989956651653697int, 92246421377785782682179532568999270064int, 65836211403890174696509695020290340261int, 340282366920938463463374557953744961535int, 340282366920938463463374557953744961535int, 340282366920938463463374557953744961537int, 208609944113158114070355167913164281015int, 126305376697719296922627599916070973175int, 92246421377785782682179532568999270064int);
}

/// A part of the chain of squares and products that raises the root to the
/// power of the modulus.
proof fn lemma_fp128_root_power_10()
    requires
        root_power_is(137438953471, 208609944113158114070355167913164281015int, 126305376697719296922627599916070973175int, 92246421377785782682179532568999270064int, 340282366920938463463374557953744961535int, 340282366920938463463374557953744961535int, 340282366920938463463374557953744961537int),
    ensures
        root_power_is(2199023255551, 288373333049479416533961380117977358684int, 188602384355851507436565981812611727048int, 289632044268391301716555661779009550610int, 340282366920938463463374557953744961535int, 340282366920938463463374557953744961535int, 340282366920938463463374557953744961537int),
{
    lemma_root_power_square(137438953471, 208609944113158114070355167913164281015int, 126305376697719296922627599916070973175int, 92246421377785782682179532568999270064int, 340282366920938463463374557953744961535int, 340282366920938463463374557953744961535int, 340282366920938463463374557953744961537int, 328946408651558159767741412905694704613int, 168455584352743177855165368521709912217int, 256561226362763328028293000422857801337int);
    lemma_root_power_next(274877906942, 328946408651558159767741412905694704613int, 168455584352743177855165368521709912217int, 256561226362763328028293000422857801337int, 340282366920938463463374557953744961535int, 340282366920938463463374557953744961535int, 340282366920938463463374557953744961537int, 167442281116350270870163115061774320400int, 156106322846969967174529970013724063476int, 168455584352743177855165368521709912217int);
    lemma_root_power_square(274877906943, 167442281116350270870163115061774320400int, 156106322846969967174529970013724063476int, 168455584352743177855165368521709912217int, 340282366920938463463374557953744961535int, 340282366920938463463374557953744961535int, 340282366920938463463374557953744961537int, 170624660404235034148666353353123963690int, 175325886450370438557473564111962738304int, 61490703619982986245465399379539165087int);
    lemma_root_power_next(549755813886, 170624660404235034148666353353123963690int, 175325886450370438557473564111962738304int, 61490703619982986245465399379539165087int, 340282366920938463463374557953744961535int, 340282366920938463463374557953744961535int, 340282366920938463463374557953744961537int, 217300959680972490972443759194666631363int, 47643253164269061657735554594045633516int, 175325886450370438557473564111962738304int);
    lemma_root_power_square(549755813887, 217300959680972490972443759194666631363int, 47643253164269061657735554594045633516int, 175325886450370438557473564111962738304int, 340282366920938463463374557953744961535int, 340282366920938463463374557953744961535int, 340282366920938463463374557953744961537int, 147067921620669110511143003907122634275int, 204572636497625674801274140984092871578int, 278180129930923139299406029493331349531int);
    lemma_root_power_next(1099511627774, 147067921620669110511143003907122634275int, 204572636497625674801274140984092871578int, 278180129930923139299406029493331349531int, 340282366920938463463374557953744961535int, 340282366920938463463374557953744961535int, 340282366920938463463374557953744961537int, 124204473980030648327937056920827224012int, 271272395600699758839080060827949858287int, 204572636497625674801274140984092871578int);
    lemma_root_power_square(1099511627775, 124204473980030648327937056920827224012int, 271272395600699758839080060827949858287int, 204572636497625674801274140984092871578int, 340282366920938463463374557953744961535int, 340282366920938463463374557953744961535int, 340282366920938463463374557953744961537int, 240511418227310554365979159648379329901int, 289632044268391301716555661779009550610int, 196095700396198755196393867894756282195int);
    lemma_root_power_next(2199023255550, 240511418227310554365979159648379329901int, 289632044268391301716555661779009550610int, 196095700396198755196393867894756282195int, 340282366920938463463374557953744961535int, 340282366920938463463374557953744961535int, 340282366920938463463374557953744961537int, 288373333049479416533961380117977358684int, 188602384355851507436565981812611727048int, 289632044268391301716555661779009550610int);
}

/// A part of the chain of squares and products that raises the root to the
/// power of the modulus.
proof fn lemma_fp128_root_power_11()
    requires
        root_power_is(2199023255551, 288373333049479416533961380117977358684int, 188602384355851507436565981812611727048int, 289632044268391301716555661779009550610int, 340282366920938463463374557953744961535int, 340282366920938463463374557953744961535int, 340282366920938463463374557953744961537int),
    ensures
        root_power_is(35184372088831, 247447100458305476525658213598810843988int, 225194994224043192933293045291543750686int, 178130372136021102855686278089432190195int, 340282366920938463463374557953744961535int, 340282366920938463463374557953744961535int, 340282366920938463463374557953744961537int),
{
    lemma_root_power_square(2199023255551, 288373333049479416533961380117977358684int, 188602384355851507436565981812611727048int, 289632044268391301716555661779009550610int, 340282366920938463463374557953744961535int, 340282366920938463463374557953744961535int, 340282366920938463463374557953744961537int, 80055459876799006843460037096575745316int, 221447493503535547097919462243873786874int, 299744090149556829562449571548291042031int);
    lemma_root_power_next(4398046511102, 80055459876799006843460037096575745316int, 221447493503535547097919462243873786874int, 299744090149556829562449571548291042031int, 340282366920938463463374557953744961535int, 340282366920938463463374557953744961535int, 340282366920938463463374557953744961537int, 81076553542763267801849972810907839012int, 161132013419562274645310009907483584328int, 221447493503535547097919462243873786874int);
    lemma_root_power_square(4398046511103, 81076553542763267801849972810907839012int, 161132013419562274645310009907483584328int, 221447493503535547097919462243873786874int, 340282366920938463463374557953744961535int, 340282366920938463463374557953744961535int, 340282366920938463463374557953744961537int, 55009806998066511547697444864471131290int, 331234940782741973221344698259037998075int, 148946146127806137973944858126589083826int);
    lemma_root_power_next(8796093022206, 55009806998066511547697444864471131290int, 331234940782741973221344698259037998075int, 148946146127806137973944858126589083826int, 340282366920938463463374557953744961535int, 340282366920938463463374557953744961535int, 340282366920938463463374557953744961537int, 42390074665326187515484841700566793885int, 97399881663392699063182286565037925175int, 331234940782741973221344698259037998075int);
    lemma_root_power_square(8796093022207, 42390074665326187515484841700566793885int, 97399881663392699063182286565037925175int, 331234940782741973221344698259037998075int, 340282366920938463463374557953744961535int, 340282366920938463463374557953744961535int, 340282366920938463463374557953744961537int, 64185595719393396432904568022034842782int, 223307036759041646877820470264433657758int, 178000066548907376958369192498454045029int);
    lemma_root_power_next(17592186044414, 64185595719393396432904568022034842782int, 223307036759041646877820470264433657758int, 178000066548907376958369192498454045029int, 340282366920938463463374557953744961535int, 340282366920938463463374557953744961535int, 340282366920938463463374557953744961537int, 324564600744062173010010730910581833016int, 48467829542517105979540740978871714261int, 223307036759041646877820470264433657758int);
    lemma_root_power_square(17592186044415, 324564600744062173010010730910581833016int, 48467829542517105979540740978871714261int, 223307036759041646877820470264433657758int, 340282366920938463463374557953744961535int, 340282366920938463463374557953744961535int, 340282366920938463463374557953744961537int, 318030260686676179871009389646477868235int, 178130372136021102855686278089432190195int, 216558816691785725200545451154339539543int);
    lemma_root_power_next(35184372088830, 318030260686676179871009389646477868235int, 178130372136021102855686278089432190195int, 216558816691785725200545451154339539543int, 340282366920938463463374557953744961535int, 340282366920938463463374557953744961535int, 340282366920938463463374557953744961537int, 247447100458305476525658213598810843988int, 225194994224043192933293045291543750686int, 178130372136021102855686278089432190195int);
}

/// A part of the chain of squares and products that raises the root to the
/// power of the modulus.
proof fn lemma_fp128_root_power_12()
    requires
        root_power_is(35184372088831, 247447100458305476525658213598810843988int, 225194994224043192933293045291543750686int, 178130372136021102855686278089432190195int, 340282366920938463463374557953744961535int, 340282366920938463463374557953744961535int, 340282366920938463463374557953744961537int),
    ensures
        root_power_is(562949953421311, 95855084723062603971322568087754545368int, 43683091407991328842708112766577766907int, 225743435156796127593394208517280678590int, 340282366920938463463374557953744961535int, 340282366920938463463374557953744961535int, 340282366920938463463374557953744961537int),
{
    lemma_root_power_square(35184372088831, 247447100458305476525658213598810843988int, 225194994224043192933293045291543750686int, 178130372136021102855686278089432190195int, 340282366920938463463374557953744961535int, 340282366920938463463374557953744961535int, 340282366920938463463374557953744961537int, 9202016360394789869389794349407844819int, 190067431343074603275241424368052312865int, 274661013960684128634950300977105943368int);
    lemma_root_power_next(70368744177662, 9202016360394789869389794349407844819int, 190067431343074603275241424368052312865int, 274661013960684128634950300977105943368int, 340282366920938463463374557953744961535int, 340282366920938463463374557953744961535int, 340282366920938463463374557953744961537int, 131242705920508669656848513953278036338int, 140444722280903459526238308302685881157int, 190067431343074603275241424368052312865int);
    lemma_root_power_square(70368744177663, 131242705920508669656848513953278036338int, 140444722280903459526238308302685881157int, 190067431343074603275241424368052312865int, 340282366920938463463374557953744961535int, 340282366920938463463374557953744961535int, 340282366920938463463374557953744961537int, 35735816673076530232912536715695273903int, 184689269357351396248661401665586256839int, 153224718809884550834336016165227574066int);
    lemma_root_power_next(140737488355326, 35735816673076530232912536715695273903int, 184689269357351396248661401665586256839int, 153224718809884550834336016165227574066int, 340282366920938463463374557953744961535int, 340282366920938463463374557953744961535int, 340282366920938463463374557953744961537int, 33832929301169361794702525623289813405int, 69568745974245892027615062338985087308int, 184689269357351396248661401665586256839int);
    lemma_root_power_square(140737488355327, 33832929301169361794702525623289813405int, 69568745974245892027615062338985087308int, 184689269357351396248661401665586256839int, 340282366920938463463374557953744961535int, 340282366920938463463374557953744961535int, 340282366920938463463374557953744961537int, 212841427540111656207004214792872838276int, 265603690046065142454416899577408944100int, 249105828784940887267593835709367464614int);
    lemma_root_power_next(281474976710654, 212841427540111656207004214792872838276int, 265603690046065142454416899577408944100int, 249105828784940887267593835709367464614int, 340282366920938463463374557953744961535int, 340282366920938463463374557953744961535int, 340282366920938463463374557953744961537int, 182353076271995152391561444488754993846int, 54912136891168345135191101327882870585int, 265603690046065142454416899577408944100int);
    lemma_root_power_square(281474976710655, 182353076271995152391561444488754993846int, 54912136891168345135191101327882870585int, 265603690046065142454416899577408944100int, 340282366920938463463374557953744961535int, 340282366920938463463374557953744961535int, 340282366920938463463374557953744961537int, 288110373605867188334760102632568183076int, 225743435156796127593394208517280678590int, 292354824559407161477713273909867688853int);
    lemma_root_power_next(562949953421310, 288110373605867188334760102632568183076int, 225743435156796127593394208517280678590int, 292354824559407161477713273909867688853int, 340282366920938463463374557953744961535int, 340282366920938463463374557953744961535int, 340282366920938463463374557953744961537int, 95855084723062603971322568087754545368int, 43683091407991328842708112766577766907int, 225743435156796127593394208517280678590int);
}

/// A part of the chain of squares and products that raises the root to the
/// power of the modulus.
proof fn lemma_fp128_root_power_13()
    requires
        root_power_is(562949953421311, 95855084723062603971322568087754545368int, 43683091407991328842708112766577766907int, 225743435156796127593394208517280678590int, 340282366920938463463374557953744961535int, 340282366920938463463374557953744961535int, 340282366920938463463374557953744961537int),
    ensures
        root_power_is(9007199254740991, 71003469105649739504197113487560602954int, 255479482551635868676481472730786373957int, 296419657040557800182992852131526087457int, 340282366920938463463374557953744961535int, 340282366920938463463374557953744961535int, 340282366920938463463374557953744961537int),
{
    lemma_root_power_square(562949953421311, 95855084723062603971322568087754545368int, 43683091407991328842708112766577766907int, 225743435156796127593394208517280678590int, 340282366920938463463374557953744961535int, 340282366920938463463374557953744961535int, 340282366920938463463374557953744961537int, 12576186530236777732305732146072337883int, 42663997056168318762226192121480569765int, 215554309857602990802608470069945597735int);
    lemma_root_power_next(1125899906842622, 12576186530236777732305732146072337883int, 42663997056168318762226192121480569765int, 215554309857602990802608470069945597735int, 340282366920938463463374557953744961535int, 340282366920938463463374557953744961535int, 340282366920938463463374557953744961537int, 249456114126670945321532175767598727604int, 262032300656907723053837907913671065487int, 42663997056168318762226192121480569765int);
    lemma_root_power_square(1125899906842623, 249456114126670945321532175767598727604int, 262032300656907723053837907913671065487int, 42663997056168318762226192121480569765int, 340282366920938463463374557953744961535int, 340282366920938463463374557953744961535int, 340282366920938463463374557953744961537int, 235702565220242689557959482592070807840int, 246240562117624764105178784454247961168int, 169137943823853714186275091090437411278int);
    lemma_root_power_next(2251799813685246, 235702565220242689557959482592070807840int, 246240562117624764105178784454247961168int, 169137943823853714186275091090437411278int, 340282366920938463463374557953744961535int, 340282366920938463463374557953744961535int, 340282366920938463463374557953744961537int, 2006479273231035090824375772870138981int, 237709044493473724648783858364940946821int, 246240562117624764105178784454247961168int);
    lemma_root_power_square(2251799813685247, 2006479273231035090824375772870138981int, 237709044493473724648783858364940946821int, 246240562117624764105178784454247961168int, 340282366920938463463374557953744961535int, 340282366920938463463374557953744961535int, 340282366920938463463374557953744961537int, 272619862089899926454669252625202303570int, 265251651908668378226706096551566199396int, 161224657191962881944538917453833929647int);
    lemma_root_power_next(4503599627370494, 272619862089899926454669252625202303570int, 265251651908668378226706096551566199396int, 161224657191962881944538917453833929647int, 340282366920938463463374557953744961535int, 340282366920938463463374557953744961535int, 340282366920938463463374557953744961537int, 17833052537012699574296723046077102243int, 290452914626912626028965975671279405813int, 265251651908668378226706096551566199396int);
    lemma_root_power_square(4503599627370495, 17833052537012699574296723046077102243int, 290452914626912626028965975671279405813int, 265251651908668378226706096551566199396int, 340282366920938463463374557953744961535int, 340282366920938463463374557953744961535int, 340282366920938463463374557953744961537int, 184476013445986129172284359243225771003int, 296419657040557800182992852131526087457int, 304780632368113593711276001209964660060int);
    lemma_root_power_next(9007199254740990, 184476013445986129172284359243225771003int, 296419657040557800182992852131526087457int, 304780632368113593711276001209964660060int, 340282366920938463463374557953744961535int, 340282366920938463463374557953744961535int, 340282366920938463463374557953744961537int, 71003469105649739504197113487560602954int, 255479482551635868676481472730786373957int, 296419657040557800182992852131526087457int);
}

/// A part of the chain of squares and products that raises the root to the
/// power of the modulus.
proof fn lemma_fp128_root_power_14()
    requires
        root_power_is(9007199254740991, 71003469105649739504197113487560602954int, 255479482551635868676481472730786373957int, 296419657040557800182992852131526087457int, 340282366920938463463374557953744961535int, 340282366920938463463374557953744961535int, 340282366920938463463374557953744961537int),
    ensures
        root_power_is(144115188075855871, 297444175683432621499878233666443407122int, 251597832471864969304850086591532149359int, 111583350296833439195357190343814587803int, 340282366920938463463374557953744961535int, 340282366920938463463374557953744961535int, 340282366920938463463374557953744961537int),
{
    lemma_root_power_square(9007199254740991, 71003469105649739504197113487560602954int, 255479482551635868676481472730786373957int, 296419657040557800182992852131526087457int, 340282366920938463463374557953744961535int, 340282366920938463463374557953744961535int, 340282366920938463463374557953744961537int, 78584127101218049321499376991030895850int, 34451628977519305356730532789361256373int, 98084793613646216714980332717820649604int);
    lemma_root_power_next(18014398509481982, 78584127101218049321499376991030895850int, 34451628977519305356730532789361256373int, 98084793613646216714980332717820649604int, 340282366920938463463374557953744961535int, 340282366920938463463374557953744961535int, 340282366920938463463374557953744961537int, 144112779693646030033413892518103662329int, 222696906794864079354913269509134558179int, 34451628977519305356730532789361256373int);
    lemma_root_power_square(18014398509481983, 144112779693646030033413892518103662329int, 222696906794864079354913269509134558179int, 34451628977519305356730532789361256373int, 340282366920938463463374557953744961535int, 340282366920938463463374557953744961535int, 340282366920938463463374557953744961537int, 39843164854937188284462878994116781805int, 207348082259119381285517003137764027079int, 47700050156349059529744195962214895090int);
    lemma_root_power_next(36028797018963966, 39843164854937188284462878994116781805int, 207348082259119381285517003137764027079int, 47700050156349059529744195962214895090int, 340282366920938463463374557953744961535int, 340282366920938463463374557953744961535int, 340282366920938463463374557953744961537int, 244882266608240344403886166029315171357int, 284725431463177532688349045023431953162int, 207348082259119381285517003137764027079int);
    lemma_root_power_square(36028797018963967, 244882266608240344403886166029315171357int, 284725431463177532688349045023431953162int, 207348082259119381285517003137764027079int, 340282366920938463463374557953744961535int, 340282366920938463463374557953744961535int, 340282366920938463463374557953744961537int, 187499053112823776865963353568449830333int, 52058336482493195408380312662384809721int, 108668333943214964118157563279409213034int);
    lemma_root_power_next(72057594037927934, 187499053112823776865963353568449830333int, 52058336482493195408380312662384809721int, 108668333943214964118157563279409213034int, 340282366920938463463374557953744961535int, 340282366920938463463374557953744961535int, 340282366920938463463374557953744961537int, 122945699034508535227059431394926535469int, 310444752147332312093022784963376365802int, 52058336482493195408380312662384809721int);
    lemma_root_power_square(72057594037927935, 122945699034508535227059431394926535469int, 310444752147332312093022784963376365802int, 52058336482493195408380312662384809721int, 340282366920938463463374557953744961535int, 340282366920938463463374557953744961535int, 340282366920938463463374557953744961537int, 294436023709370811268346410878833703774int, 111583350296833439195357190343814587803int, 191560279079222152713435441120523257976int);
    lemma_root_power_next(144115188075855870, 294436023709370811268346410878833703774int, 111583350296833439195357190343814587803int, 191560279079222152713435441120523257976int, 340282366920938463463374557953744961535int, 340282366920938463463374557953744961535int, 340282366920938463463374557953744961537int, 297444175683432621499878233666443407122int, 251597832471864969304850086591532149359int, 111583350296833439195357190343814587803int);
}

/// A part of the chain of squares and products that raises the root to the
/// power of the modulus.
proof fn lemma_fp128_root_power_15()
    requires
        root_power_is(144115188075855871, 297444175683432621499878233666443407122int, 251597832471864969304850086591532149359int, 111583350296833439195357190343814587803int, 340282366920938463463374557953744961535int, 340282366920938463463374557953744961535int, 340282366920938463463374557953744961537int),
    ensures
        root_power_is(2305843009213693951, 232060774415871842122786790937463085825int, 178009759814975941976415169807959534582int, 25141588431516298395185002010547162116int, 340282366920938463463374557953744961535int, 340282366920938463463374557953744961535int, 340282366920938463463374557953744961537int),
{
    lemma_root_power_square(144115188075855871, 297444175683432621499878233666443407122int, 251597832471864969304850086591532149359int, 111583350296833439195357190343814587803int, 340282366920938463463374557953744961535int, 340282366920938463463374557953744961535int, 340282366920938463463374557953744961537int, 289248617005397407310793107154072767163int, 104608818499866701931982944701883483560int, 167563454797065850424537291591209361352int);
    lemma_root_power_next(288230376151711742, 289248617005397407310793107154072767163int, 104608818499866701931982944701883483560int, 167563454797065850424537291591209361352int, 340282366920938463463374557953744961535int, 340282366920938463463374557953744961535int, 340282366920938463463374557953744961537int, 5155457326806762614299974771326238833int, 294404074332204169925093081925399005996int, 104608818499866701931982944701883483560int);
    lemma_root_power_square(288230376151711743, 5155457326806762614299974771326238833int, 294404074332204169925093081925399005996int, 104608818499866701931982944701883483560int, 340282366920938463463374557953744961535int, 340282366920938463463374557953744961535int, 340282366920938463463374557953744961537int, 23925602817762078254341827810549223391int, 260954215428769469327093524371208350953int, 180164534855382250667414771049108366780int);
    lemma_root_power_next(576460752303423486, 23925602817762078254341827810549223391int, 260954215428769469327093524371208350953int, 180164534855382250667414771049108366780int, 340282366920938463463374557953744961535int, 340282366920938463463374557953744961535int, 340282366920938463463374557953744961537int, 320235664131112425591919573809273189514int, 3878900027936040382886843666077451368int, 260954215428769469327093524371208350953int);
    lemma_root_power_square(576460752303423487, 320235664131112425591919573809273189514int, 3878900027936040382886843666077451368int, 260954215428769469327093524371208350953int, 340282366920938463463374557953744961535int, 340282366920938463463374557953744961535int, 340282366920938463463374557953744961537int, 178925925844462649445400852397734418555int, 70279979340458586828406436344364961501int, 331009412284198800976907873027011554329int);
    lemma_root_power_next(1152921504606846974, 178925925844462649445400852397734418555int, 70279979340458586828406436344364961501int, 331009412284198800976907873027011554329int, 340282366920938463463374557953744961535int, 340282366920938463463374557953744961535int, 340282366920938463463374557953744961537int, 18545909273479324972933369853466814416int, 197471835117941974418334222251201232971int, 70279979340458586828406436344364961501int);
    lemma_root_power_square(1152921504606846975, 18545909273479324972933369853466814416int, 197471835117941974418334222251201232971int, 70279979340458586828406436344364961501int, 340282366920938463463374557953744961535int, 340282366920938463463374557953744961535int, 340282366920938463463374557953744961537int, 286231352320042563317002936824241410294int, 25141588431516298395185002010547162116int, 54110796252533310670293883508140937856int);
    lemma_root_power_next(2305843009213693950, 286231352320042563317002936824241410294int, 25141588431516298395185002010547162116int, 54110796252533310670293883508140937856int, 340282366920938463463374557953744961535int, 340282366920938463463374557953744961535int, 340282366920938463463374557953744961537int, 232060774415871842122786790937463085825int, 178009759814975941976415169807959534582int, 25141588431516298395185002010547162116int);
}

/// A part of the chain of squares and products that raises the root to the
/// power of the modulus.
proof fn lemma_fp128_root_power_16()
    requires
        root_power_is(2305843009213693951, 232060774415871842122786790937463085825int, 178009759814975941976415169807959534582int, 25141588431516298395185002010547162116int, 340282366920938463463374557953744961535int, 340282366920938463463374557953744961535int, 340282366920938463463374557953744961537int),
    ensures
        root_power_is(36893488147419103231, 93358496610656223984444970874870384361int, 311351295366606189190229034889243545649int, 298405720607700667355120237366410277789int, 340282366920938463463374557953744961535int, 340282366920938463463374557953744961535int, 340282366920938463463374557953744961537int),
{
    lemma_root_power_square(2305843009213693951, 232060774415871842122786790937463085825int, 178009759814975941976415169807959534582int, 25141588431516298395185002010547162116int, 340282366920938463463374557953744961535int, 340282366920938463463374557953744961535int, 340282366920938463463374557953744961537int, 3056225534237723199646556581507265436int, 269828481674826012776290490759235687770int, 312888723298432243291737776699834184197int);
    lemma_root_power_next(4611686018427387902, 3056225534237723199646556581507265436int, 269828481674826012776290490759235687770int, 312888723298432243291737776699834184197int, 340282366920938463463374557953744961535int, 340282366920938463463374557953744961535int, 340282366920938463463374557953744961537int, 54787287245012440343273562507821554680int, 57843512779250163542920119089328820116int, 269828481674826012776290490759235687770int);
    lemma_root_power_square(4611686018427387903, 54787287245012440343273562507821554680int, 57843512779250163542920119089328820116int, 269828481674826012776290490759235687770int, 340282366920938463463374557953744961535int, 340282366920938463463374557953744961535int, 340282366920938463463374557953744961537int, 90162134726461361042841734406349311148int, 298161446169713299593127833857902341730int, 96070900000776970683334139194497386198int);
    lemma_root_power_next(9223372036854775806, 90162134726461361042841734406349311148int, 298161446169713299593127833857902341730int, 96070900000776970683334139194497386198int, 340282366920938463463374557953744961535int, 340282366920938463463374557953744961535int, 340282366920938463463374557953744961537int, 148140566919384522096706279564750189141int, 238302701645845883139548013971099500289int, 298161446169713299593127833857902341730int);
    lemma_root_power_square(9223372036854775807, 148140566919384522096706279564750189141int, 238302701645845883139548013971099500289int, 298161446169713299593127833857902341730int, 340282366920938463463374557953744961535int, 340282366920938463463374557953744961535int, 340282366920938463463374557953744961537int, 121881963237176831926717479497033343534int, 178699910935750176015514013180745744600int, 209191060186698458745469355914729332689int);
    lemma_root_power_next(18446744073709551614, 121881963237176831926717479497033343534int, 178699910935750176015514013180745744600int, 209191060186698458745469355914729332689int, 340282366920938463463374557953744961535int, 340282366920938463463374557953744961535int, 340282366920938463463374557953744961537int, 262182613468480009435810404078031257696int, 43782209784718377899153325621319639693int, 178699910935750176015514013180745744600int);
    lemma_root_power_square(18446744073709551615, 262182613468480009435810404078031257696int, 43782209784718377899153325621319639693int, 178699910935750176015514013180745744600int, 340282366920938463463374557953744961535int, 340282366920938463463374557953744961535int, 340282366920938463463374557953744961537int, 217992798755949965205784064014373161288int, 298405720607700667355120237366410277789int, 123461935155141119739464793539437288588int);
    lemma_root_power_next(36893488147419103230, 217992798755949965205784064014373161288int, 298405720607700667355120237366410277789int, 123461935155141119739464793539437288588int, 340282366920938463463374557953744961535int, 340282366920938463463374557953744961535int, 340282366920938463463374557953744961537int, 93358496610656223984444970874870384361int, 311351295366606189190229034889243545649int, 298405720607700667355120237366410277789int);
}

/// A part of the chain of squares and products that raises the root to the
/// power of the modulus.
proof fn lemma_fp128_root_power_17()
    requires
        root_power_is(36893488147419103231, 93358496610656223984444970874870384361int, 311351295366606189190229034889243545649int, 298405720607700667355120237366410277789int, 340282366920938463463374557953744961535int, 340282366920938463463374557953744961535int, 340282366920938463463374557953744961537int),
    ensures
        root_power_is(590295810358705651711, 3289276280069332633767797186212753152int, 93445166276306148575741333989495676735int, 270320580052505117394061108861053915572int, 340282366920938463463374557953744961535int, 340282366920938463463374557953744961535int, 340282366920938463463374557953744961537int),
{
    lemma_root_power_square(36893488147419103231, 93358496610656223984444970874870384361int, 311351295366606189190229034889243545649int, 298405720607700667355120237366410277789int, 340282366920938463463374557953744961535int, 340282366920938463463374557953744961535int, 340282366920938463463374557953744961537int, 106190701650577593175612153077344490976int, 170054572756489269709698901546284346705int, 41827665991847688544787940650495428151int);
    lemma_root_power_next(73786976294838206462, 106190701650577593175612153077344490976int, 170054572756489269709698901546284346705int, 41827665991847688544787940650495428151int, 340282366920938463463374557953744961535int, 340282366920938463463374557953744961535int, 340282366920938463463374557953744961537int, 256627034937243086373798676652754105235int, 22535369666882216086036271776353634674int, 170054572756489269709698901546284346705int);
    lemma_root_power_square(73786976294838206463, 256627034937243086373798676652754105235int, 22535369666882216086036271776353634674int, 170054572756489269709698901546284346705int, 340282366920938463463374557953744961535int, 340282366920938463463374557953744961535int, 340282366920938463463374557953744961537int, 100203139135454724183712967052220928704int, 64786615094620946200600430399024925742int, 274308660796592938667171788921643537100int);
    lemma_root_power_next(147573952589676412926, 100203139135454724183712967052220928704int, 64786615094620946200600430399024925742int, 274308660796592938667171788921643537100int, 340282366920938463463374557953744961535int, 340282366920938463463374557953744961535int, 340282366920938463463374557953744961537int, 131947412248691049592405538064202848874int, 232150551384145773776118505116423777578int, 64786615094620946200600430399024925742int);
    lemma_root_power_square(147573952589676412927, 131947412248691049592405538064202848874int, 232150551384145773776118505116423777578int, 64786615094620946200600430399024925742int, 340282366920938463463374557953744961535int, 340282366920938463463374557953744961535int, 340282366920938463463374557953744961537int, 75688499492396249083070495276512290172int, 75249861606496885764862740703136141645int, 32173087283809654536650823552936970243int);
    lemma_root_power_next(295147905179352825854, 75688499492396249083070495276512290172int, 75249861606496885764862740703136141645int, 32173087283809654536650823552936970243int, 340282366920938463463374557953744961535int, 340282366920938463463374557953744961535int, 340282366920938463463374557953744961537int, 275936192353319154390072910847871021051int, 11342324924776940009768848170638349686int, 75249861606496885764862740703136141645int);
    lemma_root_power_square(295147905179352825855, 275936192353319154390072910847871021051int, 11342324924776940009768848170638349686int, 75249861606496885764862740703136141645int, 340282366920938463463374557953744961535int, 340282366920938463463374557953744961535int, 340282366920938463463374557953744961537int, 90155889996236815941973536803282923583int, 270320580052505117394061108861053915572int, 338637728780903797146490659360638584961int);
    lemma_root_power_next(590295810358705651710, 90155889996236815941973536803282923583int, 270320580052505117394061108861053915572int, 338637728780903797146490659360638584961int, 340282366920938463463374557953744961535int, 340282366920938463463374557953744961535int, 340282366920938463463374557953744961537int, 3289276280069332633767797186212753152int, 93445166276306148575741333989495676735int, 270320580052505117394061108861053915572int);
}

/// A part of the chain of squares and products that raises the root to the
/// power of the modulus.
proof fn lemma_fp128_root_power_18()
    requires
        root_power_is(590295810358705651711, 3289276280069332633767797186212753152int, 93445166276306148575741333989495676735int, 270320580052505117394061108861053915572int, 340282366920938463463374557953744961535int, 340282366920938463463374557953744961535int, 340282366920938463463374557953744961537int),
    ensures
        root_power_is(9444732965739290427391, 118757000514110457834874390573383035752int, 229664091498436574766735265290777435889int, 177293916091791719052640831587417083674int, 340282366920938463463374557953744961535int, 340282366920938463463374557953744961535int, 340282366920938463463374557953744961537int),
{
    lemma_root_power_square(590295810358705651711, 3289276280069332633767797186212753152int, 93445166276306148575741333989495676735int, 270320580052505117394061108861053915572int, 340282366920938463463374557953744961535int, 340282366920938463463374557953744961535int, 340282366920938463463374557953744961537int, 84310247323858131608041843080185824926int, 38766435546687648438799298429243728860int, 209349651242364840185758036162149511433int);
    lemma_root_power_next(1180591620717411303422, 84310247323858131608041843080185824926int, 38766435546687648438799298429243728860int, 209349651242364840185758036162149511433int, 340282366920938463463374557953744961535int, 340282366920938463463374557953744961535int, 340282366920938463463374557953744961537int, 261865431357147246555233043583190900208int, 5893311760066914699900328709631763597int, 38766435546687648438799298429243728860int);
    lemma_root_power_square(1180591620717411303423, 261865431357147246555233043583190900208int, 5893311760066914699900328709631763597int, 38766435546687648438799298429243728860int, 340282366920938463463374557953744961535int, 340282366920938463463374557953744961535int, 340282366920938463463374557953744961537int, 89270685390313444049863847587117934457int, 50915050735130695251917767890993033755int, 35587918793311547448181532856945961348int);
    lemma_root_power_next(2361183241434822606846, 89270685390313444049863847587117934457int, 50915050735130695251917767890993033755int, 35587918793311547448181532856945961348int, 340282366920938463463374557953744961535int, 340282366920938463463374557953744961535int, 340282366920938463463374557953744961537int, 269106529334315368567011492239853038841int, 18094847803690349153500781873226011761int, 50915050735130695251917767890993033755int);
    lemma_root_power_square(2361183241434822606847, 269106529334315368567011492239853038841int, 18094847803690349153500781873226011761int, 50915050735130695251917767890993033755int, 340282366920938463463374557953744961535int, 340282366920938463463374557953744961535int, 340282366920938463463374557953744961537int, 230267544620963126069107846350362204714int, 12949826447280891445507772195340639402int, 60013257641877843728648919488896595106int);
    lemma_root_power_next(4722366482869645213694, 230267544620963126069107846350362204714int, 12949826447280891445507772195340639402int, 60013257641877843728648919488896595106int, 340282366920938463463374557953744961535int, 340282366920938463463374557953744961535int, 340282366920938463463374557953744961537int, 220255851637182776006076718975951771325int, 110241029337207438611810007372569014502int, 12949826447280891445507772195340639402int);
    lemma_root_power_square(4722366482869645213695, 220255851637182776006076718975951771325int, 110241029337207438611810007372569014502int, 12949826447280891445507772195340639402int, 340282366920938463463374557953744961535int, 340282366920938463463374557953744961535int, 340282366920938463463374557953744961537int, 110907090984326116931860874717394400137int, 177293916091791719052640831587417083674int, 280903866663883234545937362667053443661int);
    lemma_root_power_next(9444732965739290427390, 110907090984326116931860874717394400137int, 177293916091791719052640831587417083674int, 280903866663883234545937362667053443661int, 340282366920938463463374557953744961535int, 340282366920938463463374557953744961535int, 340282366920938463463374557953744961537int, 118757000514110457834874390573383035752int, 229664091498436574766735265290777435889int, 177293916091791719052640831587417083674int);
}

/// A part of the chain of squares and products that raises the root to the
/// power of the modulus.
proof fn lemma_fp128_root_power_19()
    requires
        root_power_is(9444732965739290427391, 118757000514110457834874390573383035752int, 229664091498436574766735265290777435889int, 177293916091791719052640831587417083674int, 340282366920938463463374557953744961535int, 340282366920938463463374557953744961535int, 340282366920938463463374557953744961537int),
    ensures
        root_power_is(151115727451828646838271, 204686943941879123471850600772184058614int, 292812282197835820359638464864360268266int, 169555246781187742007252783084986558777int, 340282366920938463463374557953744961535int, 340282366920938463463374557953744961535int, 340282366920938463463374557953744961537int),
{
    lemma_root_power_square(9444732965739290427391, 118757000514110457834874390573383035752int, 229664091498436574766735265290777435889int, 177293916091791719052640831587417083674int, 340282366920938463463374557953744961535int, 340282366920938463463374557953744961535int, 340282366920938463463374557953744961537int, 126021779189331553189037163755251030375int, 213189189352016903807682609760811167609int, 83270477729958224226766081796912295783int);
    lemma_root_power_next(18889465931478580854782, 126021779189331553189037163755251030375int, 213189189352016903807682609760811167609int, 83270477729958224226766081796912295783int, 340282366920938463463374557953744961535int, 340282366920938463463374557953744961535int, 340282366920938463463374557953744961537int, 173741411461022015009842394359920369971int, 299763190650353568198879558115171400346int, 213189189352016903807682609760811167609int);
    lemma_root_power_square(18889465931478580854783, 173741411461022015009842394359920369971int, 299763190650353568198879558115171400346int, 213189189352016903807682609760811167609int, 340282366920938463463374557953744961535int, 340282366920938463463374557953744961535int, 340282366920938463463374557953744961537int, 84620491105026065701739535471309750227int, 132520034115859037610775156575720838269int, 287885383786474144219155293751054882508int);
    lemma_root_power_next(37778931862957161709566, 84620491105026065701739535471309750227int, 132520034115859037610775156575720838269int, 287885383786474144219155293751054882508int, 340282366920938463463374557953744961535int, 340282366920938463463374557953744961535int, 340282366920938463463374557953744961537int, 104793966268928638488438528405380158058int, 189414457373954704190178063876689908285int, 132520034115859037610775156575720838269int);
    lemma_root_power_square(37778931862957161709567, 104793966268928638488438528405380158058int, 189414457373954704190178063876689908285int, 132520034115859037610775156575720838269int, 340282366920938463463374557953744961535int, 340282366920938463463374557953744961535int, 340282366920938463463374557953744961537int, 299180130478208875050708963452455828501int, 300615144206563709216935487044533792740int, 192298000539904717049090549816277550699int);
    lemma_root_power_next(75557863725914323419134, 299180130478208875050708963452455828501int, 300615144206563709216935487044533792740int, 192298000539904717049090549816277550699int, 340282366920938463463374557953744961535int, 340282366920938463463374557953744961535int, 340282366920938463463374557953744961537int, 295968732762067492828568016274934821676int, 254866496319337904415902421773645688640int, 300615144206563709216935487044533792740int);
    lemma_root_power_square(75557863725914323419135, 295968732762067492828568016274934821676int, 254866496319337904415902421773645688640int, 300615144206563709216935487044533792740int, 340282366920938463463374557953744961535int, 340282366920938463463374557953744961535int, 340282366920938463463374557953744961537int, 88125338255956696887787864092176209652int, 169555246781187742007252783084986558777int, 237938894949998901727449257567652932230int);
    lemma_root_power_next(151115727451828646838270, 88125338255956696887787864092176209652int, 169555246781187742007252783084986558777int, 237938894949998901727449257567652932230int, 340282366920938463463374557953744961535int, 340282366920938463463374557953744961535int, 340282366920938463463374557953744961537int, 204686943941879123471850600772184058614int, 292812282197835820359638464864360268266int, 169555246781187742007252783084986558777int);
}

/// A part of the chain of squares and products that raises the root to the
/// power of the modulus.
proof fn lemma_fp128_root_power_20()
    requires
        root_power_is(151115727451828646838271, 204686943941879123471850600772184058614int, 292812282197835820359638464864360268266int, 169555246781187742007252783084986558777int, 340282366920938463463374557953744961535int, 340282366920938463463374557953744961535int, 340282366920938463463374557953744961537int),
    ensures
        root_power_is(2417851639229258349412351, 328131352072457731116555478273885228319int, 86905873091264741312995484452558405198int, 5738466262833696701135026777833820284int, 340282366920938463463374557953744961535int, 340282366920938463463374557953744961535int, 340282366920938463463374557953744961537int),
{
    lemma_root_power_square(151115727451828646838271, 204686943941879123471850600772184058614int, 292812282197835820359638464864360268266int, 169555246781187742007252783084986558777int, 340282366920938463463374557953744961535int, 340282366920938463463374557953744961535int, 340282366920938463463374557953744961537int, 123439586199757178465680201348556640444int, 235568928987572340134645217903901054612int, 326121498446020146697019399270966181222int);
    lemma_root_power_next(302231454903657293676542, 123439586199757178465680201348556640444int, 235568928987572340134645217903901054612int, 326121498446020146697019399270966181222int, 340282366920938463463374557953744961535int, 340282366920938463463374557953744961535int, 340282366920938463463374557953744961537int, 28321736949836633532710317365557560630int, 151761323149593811998390518714114201074int, 235568928987572340134645217903901054612int);
    lemma_root_power_square(302231454903657293676543, 28321736949836633532710317365557560630int, 151761323149593811998390518714114201074int, 235568928987572340134645217903901054612int, 340282366920938463463374557953744961535int, 340282366920938463463374557953744961535int, 340282366920938463463374557953744961537int, 316601780497556076380856629009092828946int, 166551244941388684541716018806978157673int, 239847790846793996914943859579067467344int);
    lemma_root_power_next(604462909807314587353086, 316601780497556076380856629009092828946int, 166551244941388684541716018806978157673int, 239847790846793996914943859579067467344int, 340282366920938463463374557953744961535int, 340282366920938463463374557953744961535int, 340282366920938463463374557953744961537int, 200869152148288933096861396749354988386int, 177188565724906546014343467804702855795int, 166551244941388684541716018806978157673int);
    lemma_root_power_square(604462909807314587353087, 200869152148288933096861396749354988386int, 177188565724906546014343467804702855795int, 166551244941388684541716018806978157673int, 340282366920938463463374557953744961535int, 340282366920938463463374557953744961535int, 340282366920938463463374557953744961537int, 220917271466368347661564788490222239912int, 119957348516457403098204617359554832945int, 230682795549376325407321379693405059496int);
    lemma_root_power_next(1208925819614629174706174, 220917271466368347661564788490222239912int, 119957348516457403098204617359554832945int, 230682795549376325407321379693405059496int, 340282366920938463463374557953744961535int, 340282366920938463463374557953744961535int, 340282366920938463463374557953744961537int, 219199142743124276112106356520679804082int, 99834047288554160310296587057157082457int, 119957348516457403098204617359554832945int);
    lemma_root_power_square(1208925819614629174706175, 219199142743124276112106356520679804082int, 99834047288554160310296587057157082457int, 119957348516457403098204617359554832945int, 340282366920938463463374557953744961535int, 340282366920938463463374557953744961535int, 340282366920938463463374557953744961537int, 99056887939745473659814564132418138416int, 5738466262833696701135026777833820284int, 6075507424240366173409539839929866609int);
    lemma_root_power_next(2417851639229258349412350, 99056887939745473659814564132418138416int, 5738466262833696701135026777833820284int, 6075507424240366173409539839929866609int, 340282366920938463463374557953744961535int, 340282366920938463463374557953744961535int, 340282366920938463463374557953744961537int, 328131352072457731116555478273885228319int, 86905873091264741312995484452558405198int, 5738466262833696701135026777833820284int);
}

/// A part of the chain of squares and products that raises the root to the
/// power of the modulus.
proof fn lemma_fp128_root_power_21()
    requires
        root_power_is(2417851639229258349412351, 328131352072457731116555478273885228319int, 86905873091264741312995484452558405198int, 5738466262833696701135026777833820284int, 340282366920938463463374557953744961535int, 340282366920938463463374557953744961535int, 340282366920938463463374557953744961537int),
    ensures
        root_power_is(154742504910672534362390504, 244927547268223826265229289592228274633int, 46000950585512056114149412800461741807int, 10703634799300983179722090298946679965int, 340282366920938463463374557953744961535int, 340282366920938463463374557953744961535int, 340282366920938463463374557953744961537int),
{
    lemma_root_power_square(2417851639229258349412351, 328131352072457731116555478273885228319int, 86905873091264741312995484452558405198int, 5738466262833696701135026777833820284int, 340282366920938463463374557953744961535int, 340282366920938463463374557953744961535int, 340282366920938463463374557953744961537int, 16889354116673055802125772480873986765int, 253299447921670151270078100688781183508int, 8629477420297621333777786551000425560int);
    lemma_root_power_next(4835703278458516698824702, 16889354116673055802125772480873986765int, 253299447921670151270078100688781183508int, 8629477420297621333777786551000425560int, 340282366920938463463374557953744961535int, 340282366920938463463374557953744961535int, 340282366920938463463374557953744961537int, 323023412080343220795818984851744110417int, 339912766197016276597944757332618097182int, 253299447921670151270078100688781183508int);
    lemma_root_power_square(4835703278458516698824703, 323023412080343220795818984851744110417int, 339912766197016276597944757332618097182int, 253299447921670151270078100688781183508int, 340282366920938463463374557953744961535int, 340282366920938463463374557953744961535int, 340282366920938463463374557953744961537int, 339500928503796409954813355225053760143int, 66637529185774012316332910991947925021int, 263602966278499464728853353650008075520int);
    lemma_root_power_square(9671406556917033397649406, 339500928503796409954813355225053760143int, 66637529185774012316332910991947925021int, 263602966278499464728853353650008075520int, 340282366920938463463374557953744961535int, 340282366920938463463374557953744961535int, 340282366920938463463374557953744961537int, 55740404252785259369994233208788473792int, 249183638384961554032158621704442266980int, 250128092459760571950534052153845471538int);
    lemma_root_power_next(19342813113834066795298812, 55740404252785259369994233208788473792int, 249183638384961554032158621704442266980int, 250128092459760571950534052153845471538int, 340282366920938463463374557953744961535int, 340282366920938463463374557953744961535int, 340282366920938463463374557953744961537int, 180308548922355783025681011599798979998int, 236048953175141042395675244808587453790int, 249183638384961554032158621704442266980int);
    lemma_root_power_square(19342813113834066795298813, 180308548922355783025681011599798979998int, 236048953175141042395675244808587453790int, 249183638384961554032158621704442266980int, 340282366920938463463374557953744961535int, 340282366920938463463374557953744961535int, 340282366920938463463374557953744961537int, 118451278841998573009903771078051902591int, 265120776916941422865485462623037992080int, 233364268398473848439789271170482496419int);
    lemma_root_power_square(38685626227668133590597626, 118451278841998573009903771078051902591int, 265120776916941422865485462623037992080int, 233364268398473848439789271170482496419int, 340282366920938463463374557953744961535int, 340282366920938463463374557953744961535int, 340282366920938463463374557953744961537int, 129090536543347533489092417975284235225int, 173254055242607978020982724356006475944int, 78924627329472941574119121028280767918int);
    lemma_root_power_square(77371252455336267181195252, 129090536543347533489092417975284235225int, 173254055242607978020982724356006475944int, 78924627329472941574119121028280767918int, 340282366920938463463374557953744961535int, 340282366920938463463374557953744961535int, 340282366920938463463374557953744961537int, 244927547268223826265229289592228274633int, 46000950585512056114149412800461741807int, 10703634799300983179722090298946679965int);
}

/// A part of the chain of squares and products that raises the root to the
/// power of the modulus.
proof fn lemma_fp128_root_power_22()
    requires
        root_power_is(154742504910672534362390504, 244927547268223826265229289592228274633int, 46000950585512056114149412800461741807int, 10703634799300983179722090298946679965int, 340282366920938463463374557953744961535int, 340282366920938463463374557953744961535int, 340282366920938463463374557953744961537int),
    ensures
        root_power_is(9903520314283042199192992352, 5080244243486400409829117011116015261int, 204109678143654898687834647007784705416int, 49886094850454229542910114162868834567int, 340282366920938463463374557953744961535int, 340282366920938463463374557953744961535int, 340282366920938463463374557953744961537int),
{
    lemma_root_power_next(154742504910672534362390504, 244927547268223826265229289592228274633int, 46000950585512056114149412800461741807int, 10703634799300983179722090298946679965int, 340282366920938463463374557953744961535int, 340282366920938463463374557953744961535int, 340282366920938463463374557953744961537int, 318875097322336497103930377355851601607int, 223520277669621859905785108994334914703int, 46000950585512056114149412800461741807int);
    lemma_root_power_square(154742504910672534362390505, 318875097322336497103930377355851601607int, 223520277669621859905785108994334914703int, 46000950585512056114149412800461741807int, 340282366920938463463374557953744961535int, 340282366920938463463374557953744961535int, 340282366920938463463374557953744961537int, 90131398887302981636594554564812734285int, 4521963891030471956966013354986337300int, 42612436096244125363586518715850019419int);
    lemma_root_power_next(309485009821345068724781010, 90131398887302981636594554564812734285int, 4521963891030471956966013354986337300int, 42612436096244125363586518715850019419int, 340282366920938463463374557953744961535int, 340282366920938463463374557953744961535int, 340282366920938463463374557953744961537int, 255057494728450212736201520522044922699int, 4906526694814730909421517133112695447int, 4521963891030471956966013354986337300int);
    lemma_root_power_square(309485009821345068724781011, 255057494728450212736201520522044922699int, 4906526694814730909421517133112695447int, 4521963891030471956966013354986337300int, 340282366920938463463374557953744961535int, 340282366920938463463374557953744961535int, 340282366920938463463374557953744961537int, 228338867995691885175061201519812652686int, 339673435429951180589743793069046222692int, 137970449226434095152695151096137114216int);
    lemma_root_power_square(618970019642690137449562022, 228338867995691885175061201519812652686int, 339673435429951180589743793069046222692int, 137970449226434095152695151096137114216int, 340282366920938463463374557953744961535int, 340282366920938463463374557953744961535int, 340282366920938463463374557953744961537int, 83100486915762440596229364658070811840int, 338184554755556122501269847876871945int, 60051008146422436919884559099917952925int);
    lemma_root_power_square(1237940039285380274899124044, 83100486915762440596229364658070811840int, 338184554755556122501269847876871945int, 60051008146422436919884559099917952925int, 340282366920938463463374557953744961535int, 340282366920938463463374557953744961535int, 340282366920938463463374557953744961537int, 133302348280542564469091003137625182318int, 263180620794078787276531057883053034085int, 100284920664791917896810787988033136069int);
    lemma_root_power_square(2475880078570760549798248088, 133302348280542564469091003137625182318int, 263180620794078787276531057883053034085int, 100284920664791917896810787988033136069int, 340282366920938463463374557953744961535int, 340282366920938463463374557953744961535int, 340282366920938463463374557953744961537int, 181075403182831828852782703731513077147int, 190557902383465982362715593094770155079int, 46684704370005361080157515146050593417int);
    lemma_root_power_square(4951760157141521099596496176, 181075403182831828852782703731513077147int, 190557902383465982362715593094770155079int, 46684704370005361080157515146050593417int, 340282366920938463463374557953744961535int, 340282366920938463463374557953744961535int, 340282366920938463463374557953744961537int, 5080244243486400409829117011116015261int, 204109678143654898687834647007784705416int, 49886094850454229542910114162868834567int);
}

/// A part of the chain of squares and products that raises the root to the
/// power of the modulus.
proof fn lemma_fp128_root_power_23()
    requires
        root_power_is(9903520314283042199192992352, 5080244243486400409829117011116015261int, 204109678143654898687834647007784705416int, 49886094850454229542910114162868834567int, 340282366920938463463374557953744961535int, 340282366920938463463374557953744961535int, 340282366920938463463374557953744961537int),
    ensures
        root_power_is(2535301200456458802993406042112, 108641985299264710035445623573158522138int, 284095258497444503484905872510835057682int, 302297337285308874957218102685993968760int, 340282366920938463463374557953744961535int, 340282366920938463463374557953744961535int, 340282366920938463463374557953744961537int),
{
    lemma_root_power_square(9903520314283042199192992352, 5080244243486400409829117011116015261int, 204109678143654898687834647007784705416int, 49886094850454229542910114162868834567int, 340282366920938463463374557953744961535int, 340282366920938463463374557953744961535int, 340282366920938463463374557953744961537int, 91932317031651826451423744879907751716int, 44284869348173385233969594002460220464int, 3363963083760682277886922288059501943int);
    lemma_root_power_square(19807040628566084398385984704, 91932317031651826451423744879907751716int, 44284869348173385233969594002460220464int, 3363963083760682277886922288059501943int, 340282366920938463463374557953744961535int, 340282366920938463463374557953744961535int, 340282366920938463463374557953744961537int, 303033843631368368817017111645656666568int, 294467257799180319616179807576966860070int, 76701236919639965516568285679029288555int);
    lemma_root_power_square(39614081257132168796771969408, 303033843631368368817017111645656666568int, 294467257799180319616179807576966860070int, 76701236919639965516568285679029288555int, 340282366920938463463374557953744961535int, 340282366920938463463374557953744961535int, 340282366920938463463374557953744961537int, 321924005991419825494681532895902422558int, 234820515994887628373778883336692714874int, 224083940396841017520041190252974177854int);
    lemma_root_power_square(79228162514264337593543938816, 321924005991419825494681532895902422558int, 234820515994887628373778883336692714874int, 224083940396841017520041190252974177854int, 340282366920938463463374557953744961535int, 340282366920938463463374557953744961535int, 340282366920938463463374557953744961537int, 293304355430707307401979371019075546367int, 210143245484309387229293260782476527016int, 221661890082788948917237876686253689499int);
    lemma_root_power_square(158456325028528675187087877632, 293304355430707307401979371019075546367int, 210143245484309387229293260782476527016int, 221661890082788948917237876686253689499int, 340282366920938463463374557953744961535int, 340282366920938463463374557953744961535int, 340282366920938463463374557953744961537int, 299452120801931127438382213852440577670int, 7317083803326600285957869279684684028int, 106716475734016465606404384274939962070int);
    lemma_root_power_square(316912650057057350374175755264, 299452120801931127438382213852440577670int, 7317083803326600285957869279684684028int, 106716475734016465606404384274939962070int, 340282366920938463463374557953744961535int, 340282366920938463463374557953744961535int, 340282366920938463463374557953744961537int, 214976121148346713944507021716630476368int, 160774979667036267236685302349520249847int, 81233935670642798857402698138915380531int);
    lemma_root_power_square(633825300114114700748351510528, 214976121148346713944507021716630476368int, 160774979667036267236685302349520249847int, 81233935670642798857402698138915380531int, 340282366920938463463374557953744961535int, 340282366920938463463374557953744961535int, 340282366920938463463374557953744961537int, 81980942629956654350188415565003833649int, 302054113841569703963142943936031081285int, 210229775001678549891583985451747144466int);
    lemma_root_power_square(1267650600228229401496703021056, 81980942629956654350188415565003833649int, 302054113841569703963142943936031081285int, 210229775001678549891583985451747144466int, 340282366920938463463374557953744961535int, 340282366920938463463374557953744961535int, 340282366920938463463374557953744961537int, 108641985299264710035445623573158522138int, 284095258497444503484905872510835057682int, 302297337285308874957218102685993968760int);
}

/// A part of the chain of squares and products that raises the root to the
/// power of the modulus.
proof fn lemma_fp128_root_power_24()
    requires
        root_power_is(2535301200456458802993406042112, 108641985299264710035445623573158522138int, 284095258497444503484905872510835057682int, 302297337285308874957218102685993968760int, 340282366920938463463374557953744961535int, 340282366920938463463374557953744961535int, 340282366920938463463374557953744961537int),
    ensures
        root_power_is(649037107316853453566311946780672, 332594177495200335303112028258898419107int, 39102391700246654374405633278372626531int, 25868901478359178486907922259464996932int, 340282366920938463463374557953744961535int, 340282366920938463463374557953744961535int, 340282366920938463463374557953744961537int),
{
    lemma_root_power_square(2535301200456458802993406042112, 108641985299264710035445623573158522138int, 284095258497444503484905872510835057682int, 302297337285308874957218102685993968760int, 340282366920938463463374557953744961535int, 340282366920938463463374557953744961535int, 340282366920938463463374557953744961537int, 245894791025016500873579528119568760887int, 24022256613861821355790408312106615690int, 208244220304290522140518164470801580642int);
    lemma_root_power_square(5070602400912917605986812084224, 245894791025016500873579528119568760887int, 24022256613861821355790408312106615690int, 208244220304290522140518164470801580642int, 340282366920938463463374557953744961535int, 340282366920938463463374557953744961535int, 340282366920938463463374557953744961537int, 121051895250712703534416666003611781467int, 35309930982921342765614013245924108704int, 189473265961453142545045479227879603841int);
    lemma_root_power_square(10141204801825835211973624168448, 121051895250712703534416666003611781467int, 35309930982921342765614013245924108704int, 189473265961453142545045479227879603841int, 340282366920938463463374557953744961535int, 340282366920938463463374557953744961535int, 340282366920938463463374557953744961537int, 153654889598421711304178694274217338106int, 126629442706099668319914407717113310923int, 113020532943176419743853545077958126287int);
    lemma_root_power_square(20282409603651670423947248336896, 153654889598421711304178694274217338106int, 126629442706099668319914407717113310923int, 113020532943176419743853545077958126287int, 340282366920938463463374557953744961535int, 340282366920938463463374557953744961535int, 340282366920938463463374557953744961537int, 271687792461653784659441351904637052840int, 75528763458558952135376154936571107288int, 36085969737284786873800635999472784700int);
    lemma_root_power_square(40564819207303340847894496673792, 271687792461653784659441351904637052840int, 75528763458558952135376154936571107288int, 36085969737284786873800635999472784700int, 340282366920938463463374557953744961535int, 340282366920938463463374557953744961535int, 340282366920938463463374557953744961537int, 179166491612284556780904168921459539784int, 204484791965213138411143439009125716014int, 303108709435411891235387532874218603617int);
    lemma_root_power_square(81129638414606681695788993347584, 179166491612284556780904168921459539784int, 204484791965213138411143439009125716014int, 303108709435411891235387532874218603617int, 340282366920938463463374557953744961535int, 340282366920938463463374557953744961535int, 340282366920938463463374557953744961537int, 105151090833647779412924367541275595438int, 278606773736365700761489813187650735703int, 199458986331872960421477984056309413217int);
    lemma_root_power_square(162259276829213363391577986695168, 105151090833647779412924367541275595438int, 278606773736365700761489813187650735703int, 199458986331872960421477984056309413217int, 340282366920938463463374557953744961535int, 340282366920938463463374557953744961535int, 340282366920938463463374557953744961537int, 212280003724280067498633829674159315290int, 250750463964647822770947946385928909054int, 139354299011588920397285058427560267254int);
    lemma_root_power_square(324518553658426726783155973390336, 212280003724280067498633829674159315290int, 250750463964647822770947946385928909054int, 139354299011588920397285058427560267254int, 340282366920938463463374557953744961535int, 340282366920938463463374557953744961535int, 340282366920938463463374557953744961537int, 332594177495200335303112028258898419107int, 39102391700246654374405633278372626531int, 25868901478359178486907922259464996932int);
}

/// A part of the chain of squares and products that raises the root to the
/// power of the modulus.
proof fn lemma_fp128_root_power_25()
    requires
        root_power_is(649037107316853453566311946780672, 332594177495200335303112028258898419107int, 39102391700246654374405633278372626531int, 25868901478359178486907922259464996932int, 340282366920938463463374557953744961535int, 340282366920938463463374557953744961535int, 340282366920938463463374557953744961537int),
    ensures
        root_power_is(166153499473114484112975858375852032, 255883477368879083376646536864714418712int, 167190390945349130226479510203815634342int, 333042542374788833243476668336966830676int, 340282366920938463463374557953744961535int, 340282366920938463463374557953744961535int, 340282366920938463463374557953744961537int),
{
    lemma_root_power_square(649037107316853453566311946780672, 332594177495200335303112028258898419107int, 39102391700246654374405633278372626531int, 25868901478359178486907922259464996932int, 340282366920938463463374557953744961535int, 340282366920938463463374557953744961535int, 340282366920938463463374557953744961537int, 268297849533156906332145876927829239671int, 245469116185310632374859445376848026630int, 33775795745912194782428691645913736764int);
    lemma_root_power_square(1298074214633706907132623893561344, 268297849533156906332145876927829239671int, 245469116185310632374859445376848026630int, 33775795745912194782428691645913736764int, 340282366920938463463374557953744961535int, 340282366920938463463374557953744961535int, 340282366920938463463374557953744961537int, 147832768198599244231284415493301477166int, 305252791440343539777885610967151210934int, 289745658591578781899376310130102802432int);
    lemma_root_power_square(2596148429267413814265247787122688, 147832768198599244231284415493301477166int, 305252791440343539777885610967151210934int, 289745658591578781899376310130102802432int, 340282366920938463463374557953744961535int, 340282366920938463463374557953744961535int, 340282366920938463463374557953744961537int, 3369451401317795554437765350543963250int, 14473638508114940029087177525459771082int, 229224803613368729215952895162873479759int);
    lemma_root_power_square(5192296858534827628530495574245376, 3369451401317795554437765350543963250int, 14473638508114940029087177525459771082int, 229224803613368729215952895162873479759int, 340282366920938463463374557953744961535int, 340282366920938463463374557953744961535int, 340282366920938463463374557953744961537int, 203094292691433021132402537357164094346int, 175713159681948657831024256791634927641int, 245172799465392046591727196447433513662int);
    lemma_root_power_square(10384593717069655257060991148490752, 203094292691433021132402537357164094346int, 175713159681948657831024256791634927641int, 245172799465392046591727196447433513662int, 340282366920938463463374557953744961535int, 340282366920938463463374557953744961535int, 340282366920938463463374557953744961537int, 185408082924070044123087008201820861745int, 245368479801989858672619105628195881943int, 45353595279756203563825354947887182162int);
    lemma_root_power_square(20769187434139310514121982296981504, 185408082924070044123087008201820861745int, 245368479801989858672619105628195881943int, 45353595279756203563825354947887182162int, 340282366920938463463374557953744961535int, 340282366920938463463374557953744961535int, 340282366920938463463374557953744961537int, 78207799785887532001099522073476498606int, 35879661339330912752959847154199600216int, 254297509933967077733978754781355317988int);
    lemma_root_power_square(41538374868278621028243964593963008, 78207799785887532001099522073476498606int, 35879661339330912752959847154199600216int, 254297509933967077733978754781355317988int, 340282366920938463463374557953744961535int, 340282366920938463463374557953744961535int, 340282366920938463463374557953744961537int, 318754559094437177212202556061719670138int, 51742908624514729618608640054153107221int, 316437063589082337570457314404014425689int);
    lemma_root_power_square(83076749736557242056487929187926016, 318754559094437177212202556061719670138int, 51742908624514729618608640054153107221int, 316437063589082337570457314404014425689int, 340282366920938463463374557953744961535int, 340282366920938463463374557953744961535int, 340282366920938463463374557953744961537int, 255883477368879083376646536864714418712int, 167190390945349130226479510203815634342int, 333042542374788833243476668336966830676int);
}

/// A part of the chain of squares and products that raises the root to the
/// power of the modulus.
proof fn lemma_fp128_root_power_26()
    requires
        root_power_is(166153499473114484112975858375852032, 255883477368879083376646536864714418712int, 167190390945349130226479510203815634342int, 333042542374788833243476668336966830676int, 340282366920938463463374557953744961535int, 340282366920938463463374557953744961535int, 340282366920938463463374557953744961537int),
    ensures
        root_power_is(42535295865117307932921819744218120192, 207607431669525597186182658050062033399int, 236010508536292545959080220735668811554int, 69910835785104754546287961658643392802int, 340282366920938463463374557953744961535int, 340282366920938463463374557953744961535int, 340282366920938463463374557953744961537int),
{
    lemma_root_power_square(166153499473114484112975858375852032, 255883477368879083376646536864714418712int, 167190390945349130226479510203815634342int, 333042542374788833243476668336966830676int, 340282366920938463463374557953744961535int, 340282366920938463463374557953744961535int, 340282366920938463463374557953744961537int, 79117005691316840240231187519002421360int, 57548693395441182539558413670872739983int, 71353557621930379040199352604784447675int);
    lemma_root_power_square(332306998946228968225951716751704064, 79117005691316840240231187519002421360int, 57548693395441182539558413670872739983int, 71353557621930379040199352604784447675int, 340282366920938463463374557953744961535int, 340282366920938463463374557953744961535int, 340282366920938463463374557953744961537int, 188195694703819227834865675465417613267int, 145141890405193910492369619649194516944int, 105373113693762110706545531410387844850int);
    lemma_root_power_square(664613997892457936451903433503408128, 188195694703819227834865675465417613267int, 145141890405193910492369619649194516944int, 105373113693762110706545531410387844850int, 340282366920938463463374557953744961535int, 340282366920938463463374557953744961535int, 340282366920938463463374557953744961537int, 144484197365483712178810506983521698592int, 261569720212081014540403277959271920099int, 261390630733206743369056171394478524285int);
    lemma_root_power_square(1329227995784915872903806867006816256, 144484197365483712178810506983521698592int, 261569720212081014540403277959271920099int, 261390630733206743369056171394478524285int, 340282366920938463463374557953744961535int, 340282366920938463463374557953744961535int, 340282366920938463463374557953744961537int, 15968621069909440750846588652136896687int, 271085571353104498623365509385520429433int, 47682412199902687399839265649371003081int);
    lemma_root_power_square(2658455991569831745807613734013632512, 15968621069909440750846588652136896687int, 271085571353104498623365509385520429433int, 47682412199902687399839265649371003081int, 340282366920938463463374557953744961535int, 340282366920938463463374557953744961535int, 340282366920938463463374557953744961537int, 51774453217667363896506400730930764276int, 156738818214812189696873172163562457672int, 257725258496744120889135739320793502815int);
    lemma_root_power_square(5316911983139663491615227468027265024, 51774453217667363896506400730930764276int, 156738818214812189696873172163562457672int, 257725258496744120889135739320793502815int, 340282366920938463463374557953744961535int, 340282366920938463463374557953744961535int, 340282366920938463463374557953744961537int, 91398928404708845210684983909423458914int, 92196330074777869282429889729351050965int, 55233022176529375597193559102547009282int);
    lemma_root_power_square(10633823966279326983230454936054530048, 91398928404708845210684983909423458914int, 92196330074777869282429889729351050965int, 55233022176529375597193559102547009282int, 340282366920938463463374557953744961535int, 340282366920938463463374557953744961535int, 340282366920938463463374557953744961537int, 53271731162348118681423860303575287697int, 28705733288320568838811838689329425699int, 296181671123725156477273751237252915991int);
    lemma_root_power_square(21267647932558653966460909872109060096, 53271731162348118681423860303575287697int, 28705733288320568838811838689329425699int, 296181671123725156477273751237252915991int, 340282366920938463463374557953744961535int, 340282366920938463463374557953744961535int, 340282366920938463463374557953744961537int, 207607431669525597186182658050062033399int, 236010508536292545959080220735668811554int, 69910835785104754546287961658643392802int);
}

/// A part of the chain of squares and products that raises the root to the
/// power of the modulus.
proof fn lemma_fp128_root_power_27()
    requires
        root_power_is(42535295865117307932921819744218120192, 207607431669525597186182658050062033399int, 236010508536292545959080220735668811554int, 69910835785104754546287961658643392802int, 340282366920938463463374557953744961535int, 340282366920938463463374557953744961535int, 340282366920938463463374557953744961537int),
    ensures
        root_power_is(340282366920938463463374557953744961537, 112067274102834481137912936240124974988int, 214206683555249672183222504683604364675int, 84050455577125860853434702180093731241int, 340282366920938463463374557953744961535int, 340282366920938463463374557953744961535int, 340282366920938463463374557953744961537int),
{
    lemma_root_power_square(42535295865117307932921819744218120192, 207607431669525597186182658050062033399int, 236010508536292545959080220735668811554int, 69910835785104754546287961658643392802int, 340282366920938463463374557953744961535int, 340282366920938463463374557953744961535int, 340282366920938463463374557953744961537int, 11550611036427946361888273218467465939int, 276641862331917644579512766372884337218int, 216421164679396667613610801273720281993int);
    lemma_root_power_square(85070591730234615865843639488436240384, 11550611036427946361888273218467465939int, 276641862331917644579512766372884337218int, 216421164679396667613610801273720281993int, 340282366920938463463374557953744961535int, 340282366920938463463374557953744961535int, 340282366920938463463374557953744961537int, 211888712327291975311009525365721059731int, 293911751748790385587669520568472618157int, 162129718768958427155783874589123773845int);
    lemma_root_power_square(170141183460469231731687278976872480768, 211888712327291975311009525365721059731int, 293911751748790385587669520568472618157int, 162129718768958427155783874589123773845int, 340282366920938463463374557953744961535int, 340282366920938463463374557953744961535int, 340282366920938463463374557953744961537int, 102139409452415191045309568443479389687int, 84050455577125860853434702180093731241int, 284248729869521222894418089833682474043int);
    lemma_root_power_next(340282366920938463463374557953744961536, 102139409452415191045309568443479389687int, 84050455577125860853434702180093731241int, 284248729869521222894418089833682474043int, 340282366920938463463374557953744961535int, 340282366920938463463374557953744961535int, 340282366920938463463374557953744961537int, 112067274102834481137912936240124974988int, 214206683555249672183222504683604364675int, 84050455577125860853434702180093731241int);
}

/// The root raised to the power of the modulus is its image under the
/// Frobenius map.
pub proof fn lemma_fp128_root_to_modulus()
    ensures
        cubic_power(power_of_root(1), fp128::M as nat, FP128_U as int, FP128_V as int, fp128::M as int) == cubic_frobenius(
            power_of_root(1),
            fp128_f1(),
            fp128_f2(),
            fp128::M as int,
        ),
{
    lemma_fp128_images();
    lemma_root_power_first(340282366920938463463374557953744961535int, 340282366920938463463374557953744961535int, 340282366920938463463374557953744961537int);
    lemma_fp128_root_power_1();
    lemma_fp128_root_power_2();
    lemma_fp128_root_power_3();
    lemma_fp128_root_power_4();
    lemma_fp128_root_power_5();
    lemma_fp128_root_power_6();
    lemma_fp128_root_power_7();
    lemma_fp128_root_power_8();
    lemma_fp128_root_power_9();
    lemma_fp128_root_power_10();
    lemma_fp128_root_power_11();
    lemma_fp128_root_power_12();
    lemma_fp128_root_power_13();
    lemma_fp128_root_power_14();
    lemma_fp128_root_power_15();
    lemma_fp128_root_power_16();
    lemma_fp128_root_power_17();
    lemma_fp128_root_power_18();
    lemma_fp128_root_power_19();
    lemma_fp128_root_power_20();
    lemma_fp128_root_power_21();
    lemma_fp128_root_power_22();
    lemma_fp128_root_power_23();
    lemma_fp128_root_power_24();
    lemma_fp128_root_power_25();
    lemma_fp128_root_power_26();
    lemma_fp128_root_power_27();
    lemma_root_power_is(340282366920938463463374557953744961537, 112067274102834481137912936240124974988int, 214206683555249672183222504683604364675int, 84050455577125860853434702180093731241int, 340282366920938463463374557953744961535int, 340282366920938463463374557953744961535int, 340282366920938463463374557953744961537int);
}

/// The polynomial by whose root the 128-bit field is extended has no root
/// in that field: the root and its image under the Frobenius map differ by an
/// element that has an inverse.
pub proof fn lemma_fp128_no_root(r: int)
    requires
        0 <= r < fp128::M,
    ensures
        cubic_at(r, FP128_U as int, FP128_V as int, fp128::M as int) != 0,
{
    if r != 0 {
        crate::field::fp128_units::lemma_units(r);
    }
    lemma_power_of_modulus(r, fp128::M as int);
    lemma_fp128_root_to_modulus();
    lemma_fp128_images();
    lemma_powers_of_root();
    let image = seq![112067274102834481137912936240124974988int, 214206683555249672183222504683604364675int, 84050455577125860853434702180093731241int];
    let difference = seq![112067274102834481137912936240124974988int, 214206683555249672183222504683604364674int, 84050455577125860853434702180093731241int];
    let inverse = seq![167580489782342321135546812820969915802int, 301392953558545496210417465616174108790int, 231768572961272821930862424649187110046int];
    assert(sub_coeffs(image, power_of_root(1), fp128::M as int) =~= difference);
    lemma_product_of(112067274102834481137912936240124974988int, 214206683555249672183222504683604364674int, 84050455577125860853434702180093731241int, 167580489782342321135546812820969915802int, 301392953558545496210417465616174108790int, 231768572961272821930862424649187110046int, FP128_U as int, FP128_V as int, fp128::M as int, 1, 0, 0);
    assert(seq![1int, 0int, 0int] =~= crate::field::traits::lift_coeffs(1, 3));
    lemma_no_root(r, FP128_U as int, FP128_V as int, fp128::M as int, image, difference, inverse);
}

/// The polynomial by whose root the 128-bit field is extended is
/// irreducible over that field.
pub proof fn lemma_fp128_irreducible()
    ensures
        is_irreducible(FP128_U as int, FP128_V as int, fp128::M as int),
{
    assert forall|x: int| 0 < x < fp128::M as int implies #[trigger] is_unit(x, fp128::M as int) by {
        crate::field::fp128_units::lemma_units(x);
    }
    assert forall|r: int| 0 <= r < fp128::M as int implies #[trigger] cubic_at(r, FP128_U as int, FP128_V as int, fp128::M as int) != 0 by {
        lemma_fp128_no_root(r);
    }
}

/// The norm of a nonzero element of the cubic extension of the 128-bit field
/// is not zero.
pub proof fn lemma_fp128_norm_nonzero(a: Seq<int>)
    requires
        valid_coeffs(a, 3, fp128::M as int),
        a != zero_coeffs(3),
    ensures
        norm_of(a, FP128_U as int, FP128_V as int, fp128_f1(), fp128_f2(), fp128::M as int)[0] != 0,
{
    lemma_fp128_irreducible();
    lemma_fp128_frobenius();
    lemma_norm_nonzero(a, FP128_U as int, FP128_V as int, fp128_f1(), fp128_f2(), fp128::M as int);
}

/// The Frobenius map of the cubic extension of the 128-bit field is an
/// automorphism of order three that fixes the base field only.
pub proof fn lemma_fp128_frobenius()
    ensures
        is_frobenius(FP128_U as int, FP128_V as int, fp128_f1(), fp128_f2(), fp128::M as int),
{
    let (f1, f2) = (fp128_f1(), fp128_f2());
    assert forall|i: int, j: int| 0 <= i < 3 && 0 <= j < 3 implies #[trigger] cubic_frobenius(
        cubic_mul(power_of_root(i), power_of_root(j), FP128_U as int, FP128_V as int, fp128::M as int),
        f1,
        f2,
        fp128::M as int,
    ) == cubic_mul(
        cubic_frobenius(power_of_root(i), f1, f2, fp128::M as int),
        cubic_frobenius(power_of_root(j), f1, f2, fp128::M as int),
        FP128_U as int,
        FP128_V as int,
        fp128::M as int,
    ) by {
        if i == 0 && j == 0 {
            lemma_fp128_product_0_0();
        }
        if i == 0 && j == 1 {
            lemma_fp128_product_0_1();
        }
        if i == 0 && j == 2 {
            lemma_fp128_product_0_2();
        }
        if i == 1 && j == 0 {
            lemma_fp128_product_1_0();
        }
        if i == 1 && j == 1 {
            lemma_fp128_product_1_1();
        }
        if i == 1 && j == 2 {
            lemma_fp128_product_1_2();
        }
        if i == 2 && j == 0 {
            lemma_fp128_product_2_0();
        }
        if i == 2 && j == 1 {
            lemma_fp128_product_2_1();
        }
        if i == 2 && j == 2 {
            lemma_fp128_product_2_2();
        }
    }
    assert forall|i: int| 0 <= i < 3 implies cubic_frobenius(
        cubic_frobenius(cubic_frobenius(#[trigger] power_of_root(i), f1, f2, fp128::M as int), f1, f2, fp128::M as int),
        f1,
        f2,
        fp128::M as int,
    ) == power_of_root(i) by {
        if i == 0 {
            lemma_fp128_cubed_0();
        }
        if i == 1 {
            lemma_fp128_cubed_1();
        }
        if i == 2 {
            lemma_fp128_cubed_2();
        }
    }
    assert(f1[1] == 214206683555249672183222504683604364675int && f2[2] == 126075683365688791280152053270140596861int && f2[1] == 56033637051417240568956468120062487494int && f1[2] == 84050455577125860853434702180093731241int);
    assert(((214206683555249672183222504683604364675int - 1) * (126075683365688791280152053270140596861int - 1) - 56033637051417240568956468120062487494int * 84050455577125860853434702180093731241int) % 340282366920938463463374557953744961537int == 3int);
    crate::field::fp128_units::lemma_units(3int);
}

} // verus!

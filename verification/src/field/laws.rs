//! What holds in every prime field of the library, and in its extensions.

use vstd::prelude::*;
use vstd::arithmetic::div_mod::*;
use vstd::arithmetic::power::{pow, lemma_pow0};
use crate::errors::SerializationError;
use crate::field::buffers::{
    elements_in, encoding_of, is_encoding, is_encoding_of_many, raw_bytes_of,
};
use crate::field::modular::{
    fadd, fsub, fmul, fneg, fpow, finv, is_unit, lemma_finv_unit, lemma_inverse_of,
    lemma_unit_mod,
};
use crate::field::quadratic::{QuadExtensionA, quad_mul, quad_inv, quad_norm};
use crate::field::number_theory::lemma_fpow_mul;
use crate::field::cubic::{CubeExtension, cubic_cofactor, cubic_inv, cubic_norm};
use crate::field::traits::{
    ExtensibleField, FieldElement, QuadExtensible, StarkField, lift_coeffs, residues, scale_coeffs,
    valid_coeffs, zero_coeffs,
};

verus! {

/// Subtracting what was added gives the element back: `(x + y) - y == x`.
pub proof fn lemma_add_then_sub<B: StarkField>(x: B, y: B)
    ensures
        fsub(fadd(x.value(), y.value(), B::modulus()), y.value(), B::modulus()) == x.value(),
{
    let p = B::modulus();
    B::lemma_field();
    x.lemma_value();
    y.lemma_value();
    lemma_sub_mod_noop(x.value() + y.value(), y.value(), p);
    lemma_small_mod(x.value() as nat, p as nat);
    lemma_small_mod(y.value() as nat, p as nat);
}

/// Adding the negation gives zero, and negating twice gives the element back.
pub proof fn lemma_neg<B: StarkField>(x: B)
    ensures
        fadd(x.value(), fneg(x.value(), B::modulus()), B::modulus()) == 0,
        fneg(fneg(x.value(), B::modulus()), B::modulus()) == x.value(),
{
    let p = B::modulus();
    B::lemma_field();
    x.lemma_value();
    lemma_add_mod_noop_right(x.value(), -x.value(), p);
    lemma_small_mod(0, p as nat);
    lemma_sub_mod_noop_right(0, -x.value(), p);
    lemma_small_mod(x.value() as nat, p as nat);
}

/// A nonzero element multiplies with what inversion returns to one; what
/// inversion returns for zero is zero.
pub proof fn lemma_inverse<B: StarkField>(x: B)
    ensures
        x.value() != 0 ==> fmul(x.value(), finv(x.value(), B::modulus()), B::modulus()) == 1,
        x.value() == 0 ==> finv(x.value(), B::modulus()) == 0,
{
    let p = B::modulus();
    B::lemma_field();
    x.lemma_value();
    lemma_inverse_of(x.value(), p);
    if x.value() != 0 {
        B::lemma_units(x.value());
    }
}

/// A power is the product of as many factors as the exponent says: one for the
/// exponent zero, also of zero, and else the element times the power with the
/// exponent one less.
pub proof fn lemma_power<B: StarkField>(x: B, k: nat)
    ensures
        fpow(x.value(), 0, B::modulus()) == 1,
        fpow(x.value(), k + 1, B::modulus()) == fmul(
            x.value(),
            fpow(x.value(), k, B::modulus()),
            B::modulus(),
        ),
        k > 0 && x.value() == 0 ==> fpow(x.value(), k, B::modulus()) == 0,
{
    let p = B::modulus();
    let a = x.value();
    B::lemma_field();
    lemma_pow0(a);
    lemma_small_mod(1, p as nat);
    assert(pow(a, k + 1) == a * pow(a, k)) by {
        reveal(pow);
    }
    lemma_mul_mod_noop_right(a, pow(a, k), p);
    if k > 0 && a == 0 {
        vstd::arithmetic::power::lemma0_pow(k);
        lemma_small_mod(0, p as nat);
    }
}

/// The product of `a0 + a1 * x` with its conjugate scaled by `d` is the norm
/// times `d`, with no part in `x`.
proof fn lemma_quad_conjugate_product(a0: int, a1: int, d: int)
    ensures
        a0 * ((a0 + a1) * d) + a1 * ((-a1) * d) == (a0 * a0 + a0 * a1 - a1 * a1) * d,
        (a0 + a1) * ((-a1) * d) + a1 * ((a0 + a1) * d) == 0,
{
    let s = a0 + a1;
    let sd = s * d;
    let ad = a1 * d;
    assert((-a1) * d == -ad) by (nonlinear_arith)
        requires
            ad == a1 * d,
    ;
    assert(s * (-ad) == -(s * ad)) by (nonlinear_arith);
    assert(a1 * (-ad) == -(a1 * ad)) by (nonlinear_arith);
    assert(s * ad == a1 * sd) by (nonlinear_arith)
        requires
            ad == a1 * d,
            sd == s * d,
    ;
    assert(a0 * sd == (a0 * a0) * d + (a0 * a1) * d) by (nonlinear_arith)
        requires
            sd == (a0 + a1) * d,
    ;
    assert(a1 * ad == (a1 * a1) * d) by (nonlinear_arith)
        requires
            ad == a1 * d,
    ;
    let (x, y, z) = (a0 * a0, a0 * a1, a1 * a1);
    assert((x + y - z) * d == x * d + y * d - z * d) by (nonlinear_arith);
}

/// An element of a quadratic extension whose norm is not zero multiplies with
/// what inversion returns to one, and the inverse of zero is zero.
pub proof fn lemma_quad_inverse<B: StarkField>(a: QuadExtensionA<B>)
    ensures
        quad_norm(a@, B::modulus()) != 0 ==> quad_mul(a@, quad_inv(a@, B::modulus()), B::modulus())
            == lift_coeffs(1, 2),
        a@ == zero_coeffs(2) ==> quad_inv(a@, B::modulus()) == zero_coeffs(2),
{
    B::lemma_field();
    a.0.lemma_value();
    a.1.lemma_value();
    lemma_quad_inverse_of::<B>(a@);
}

/// A pair of residues whose norm is not zero multiplies with what inversion
/// returns to one, and the inverse of zero is zero.
pub proof fn lemma_quad_inverse_of<B: StarkField>(a: Seq<int>)
    requires
        valid_coeffs(a, 2, B::modulus()),
    ensures
        quad_norm(a, B::modulus()) != 0 ==> quad_mul(a, quad_inv(a, B::modulus()), B::modulus())
            == lift_coeffs(1, 2),
        a == zero_coeffs(2) ==> quad_inv(a, B::modulus()) == zero_coeffs(2),
{
    let p = B::modulus();
    B::lemma_field();
    let n = quad_norm(a, p);
    if n != 0 {
        B::lemma_units(n);
        lemma_quad_inverse_of_unit(a, p);
    }
    if a == zero_coeffs(2) {
        assert(a[0] == 0 && a[1] == 0);
        lemma_inverse_of(n, p);
        lemma_small_mod(0, p as nat);
        assert(quad_inv(a, p) =~= zero_coeffs(2));
    }
}

/// An element of the quadratic extension whose norm has an inverse multiplies
/// with what inversion returns to one.
pub proof fn lemma_quad_inverse_of_unit(a: Seq<int>, p: int)
    requires
        p > 1,
        valid_coeffs(a, 2, p),
        is_unit(quad_norm(a, p), p),
    ensures
        quad_mul(a, quad_inv(a, p), p) == lift_coeffs(1, 2),
{
    let a0 = a[0];
    let a1 = a[1];
    let n = a0 * a0 + a0 * a1 - a1 * a1;
    let d = finv(quad_norm(a, p), p);
    lemma_unit_mod(n, p);
    lemma_finv_unit(n, p);
    let b0 = (a0 + a1) * d;
    let b1 = (-a1) * d;
    let r = quad_mul(a, quad_inv(a, p), p);
    lemma_quad_conjugate_product(a0, a1, d);
    assert(r[0] == 1) by {
        lemma_mul_mod_noop_right(a0, b0, p);
        lemma_mul_mod_noop_right(a1, b1, p);
        lemma_add_mod_noop(a0 * (b0 % p), a1 * (b1 % p), p);
        lemma_add_mod_noop(a0 * b0, a1 * b1, p);
        lemma_mul_mod_noop_left(n, d, p);
    }
    assert(r[1] == 0) by {
        let x = b0 % p;
        let y = b1 % p;
        assert(a0 * y + a1 * x + a1 * y == (a0 + a1) * y + a1 * x) by (nonlinear_arith);
        lemma_mul_mod_noop_right(a0 + a1, b1, p);
        lemma_mul_mod_noop_right(a1, b0, p);
        lemma_add_mod_noop((a0 + a1) * y, a1 * x, p);
        lemma_add_mod_noop((a0 + a1) * b1, a1 * b0, p);
        lemma_small_mod(0, p as nat);
    }
    assert(r =~= lift_coeffs(1, 2));
}

/// Where the norm `a0^2 + a0 * a1 - a1^2` vanishes modulo `p` and `w` is the
/// inverse of `a1`, the residue of `(2 * a0 + a1) * w` is a square root of five.
proof fn lemma_root_of_five(a0: int, a1: int, w: int, p: int)
    requires
        p > 5,
        (a0 * a0 + a0 * a1 - a1 * a1) % p == 0,
        (a1 * w) % p == 1,
    ensures
        fmul(((2 * a0 + a1) * w) % p, ((2 * a0 + a1) * w) % p, p) == 5,
{
    let n = a0 * a0 + a0 * a1 - a1 * a1;
    let s = 2 * a0 + a1;
    let t = (s * w) % p;
    // s^2 == 4 * n + 5 * a1^2, and n is a multiple of p
    assert(s * s == 4 * n + 5 * (a1 * a1)) by (nonlinear_arith)
        requires
            n == a0 * a0 + a0 * a1 - a1 * a1,
            s == 2 * a0 + a1,
    ;
    lemma_fundamental_div_mod(n, p);
    assert(4 * n + 5 * (a1 * a1) == (4 * (n / p)) * p + 5 * (a1 * a1)) by (nonlinear_arith)
        requires
            n == p * (n / p),
    ;
    lemma_mod_multiples_vanish(4 * (n / p), 5 * (a1 * a1), p);
    // t^2 == s^2 * w^2 == 5 * a1^2 * w^2 == 5 * (a1 * w)^2 == 5
    lemma_mul_mod_noop(s * w, s * w, p);
    assert((s * w) * (s * w) == (s * s) * (w * w)) by (nonlinear_arith);
    lemma_mul_mod_noop_left(s * s, w * w, p);
    lemma_mul_mod_noop_left(5 * (a1 * a1), w * w, p);
    assert((5 * (a1 * a1)) * (w * w) == 5 * ((a1 * w) * (a1 * w))) by (nonlinear_arith);
    lemma_mul_mod_noop_right(5, (a1 * w) * (a1 * w), p);
    lemma_mul_mod_noop(a1 * w, a1 * w, p);
    assert(1 * 1 == 1);
    lemma_small_mod(1, p as nat);
    lemma_small_mod(5, p as nat);
}

/// In a quadratic extension of a field in which five is no square, only zero
/// has the norm zero.
pub proof fn lemma_quad_norm_nonzero<B: QuadExtensible>(a: QuadExtensionA<B>)
    ensures
        a@ != zero_coeffs(2) ==> quad_norm(a@, B::modulus()) != 0,
{
    B::lemma_field();
    a.0.lemma_value();
    a.1.lemma_value();
    lemma_quad_norm_of_nonzero::<B>(a@);
}

/// Over a field in which five is no square, only the zero pair of residues has
/// the norm zero.
pub proof fn lemma_quad_norm_of_nonzero<B: QuadExtensible>(a: Seq<int>)
    requires
        valid_coeffs(a, 2, B::modulus()),
    ensures
        a != zero_coeffs(2) ==> quad_norm(a, B::modulus()) != 0,
{
    let p = B::modulus();
    let a0 = a[0];
    let a1 = a[1];
    B::lemma_field();
    B::lemma_five_is_no_square();
    if a != zero_coeffs(2) && quad_norm(a, p) == 0 {
        if a1 == 0 {
            // a0 is not zero, yet its square is
            assert(a0 != 0) by {
                if a0 == 0 {
                    assert(a =~= zero_coeffs(2));
                }
            }
            assert(a0 * a0 + a0 * a1 - a1 * a1 == a0 * a0) by (nonlinear_arith)
                requires
                    a1 == 0,
            ;
            B::lemma_units(a0);
            let y = finv(a0, p);
            lemma_inverse_of(a0, p);
            lemma_mul_mod_noop(a0 * y, a0 * y, p);
            assert((a0 * y) * (a0 * y) == (a0 * a0) * (y * y)) by (nonlinear_arith);
            lemma_mul_mod_noop_left(a0 * a0, y * y, p);
            assert(0 * (y * y) == 0);
            assert(1 * 1 == 1);
            lemma_small_mod(0, p as nat);
            lemma_small_mod(1, p as nat);
        } else {
            B::lemma_units(a1);
            let w = finv(a1, p);
            lemma_inverse_of(a1, p);
            lemma_root_of_five(a0, a1, w, p);
            let t = ((2 * a0 + a1) * w) % p;
            assert(t != 0) by {
                if t == 0 {
                    assert(0 * 0 == 0);
                    lemma_small_mod(0, p as nat);
                }
            }
            // five is a square, and so taken to one by half of p - 1
            let h = ((p - 1) / 2) as nat;
            B::lemma_units(t);
            lemma_fpow_mul(t, 2, h, p);
            assert(fpow(t, 2, p) == 5) by {
                vstd::arithmetic::power::lemma_square_is_pow2(t);
            }
            assert(2 * h == p - 1);
        }
    }
}

/// A nonzero element of a quadratic extension of a field in which five is no
/// square multiplies with what inversion returns to one.
pub proof fn lemma_quad_inverse_nonzero<B: QuadExtensible>(a: QuadExtensionA<B>)
    ensures
        a@ != zero_coeffs(2) ==> quad_mul(a@, quad_inv(a@, B::modulus()), B::modulus())
            == lift_coeffs(1, 2),
{
    lemma_quad_norm_nonzero(a);
    lemma_quad_inverse(a);
}

/// In every field, prime or extended, an element that is not zero multiplies
/// with its inverse to one, and the inverse of zero is zero.
pub proof fn lemma_field_inverse<E: FieldElement>(a: E)
    ensures
        a.coeffs() != zero_coeffs(E::degree()) ==> E::mul_spec(a.coeffs(), E::inv_spec(a.coeffs()))
            == lift_coeffs(1, E::degree()),
        a.coeffs() == zero_coeffs(E::degree()) ==> E::inv_spec(a.coeffs()) == zero_coeffs(
            E::degree(),
        ),
{
    a.lemma_coeffs();
    E::lemma_inv_spec(a.coeffs());
}

/// The norm of an element of a cubic extension lies in the base field.
pub proof fn lemma_cubic_norm_in_base<B: ExtensibleField<3>>(a: CubeExtension<B>)
    ensures
        cubic_norm::<B>(a@)[1] == 0,
        cubic_norm::<B>(a@)[2] == 0,
{
    a.0.lemma_value();
    a.1.lemma_value();
    a.2.lemma_value();
    B::lemma_norm_in_base(a@);
}

/// The norm of a nonzero element of a cubic extension is not zero.
pub proof fn lemma_cubic_norm_nonzero<B: ExtensibleField<3>>(a: CubeExtension<B>)
    requires
        a@ != zero_coeffs(3),
    ensures
        cubic_norm::<B>(a@)[0] != 0,
{
    B::lemma_field();
    a.0.lemma_value();
    a.1.lemma_value();
    a.2.lemma_value();
    B::lemma_norm_nonzero(a@);
}

/// A nonzero element of a cubic extension multiplies with what inversion
/// returns to one, and the inverse of zero is zero.
pub proof fn lemma_cubic_inverse<B: ExtensibleField<3>>(a: CubeExtension<B>)
    ensures
        a@ != zero_coeffs(3) ==> B::ext_mul_spec(a@, cubic_inv::<B>(a@)) == lift_coeffs(1, 3),
        a@ == zero_coeffs(3) ==> cubic_inv::<B>(a@) == zero_coeffs(3),
{
    B::lemma_field();
    a.0.lemma_value();
    a.1.lemma_value();
    a.2.lemma_value();
    lemma_cubic_inverse_of::<B>(a@);
}

/// A nonzero triple of residues multiplies with what inversion returns to one,
/// and the inverse of zero is zero.
pub proof fn lemma_cubic_inverse_of<B: ExtensibleField<3>>(a: Seq<int>)
    requires
        valid_coeffs(a, 3, B::modulus()),
    ensures
        a != zero_coeffs(3) ==> B::ext_mul_spec(a, cubic_inv::<B>(a)) == lift_coeffs(1, 3),
        a == zero_coeffs(3) ==> cubic_inv::<B>(a) == zero_coeffs(3),
{
    if a != zero_coeffs(3) {
        let p = B::modulus();
        B::lemma_field();
        B::lemma_norm_nonzero(a);
        B::lemma_norm_in_base(a);
        let c1 = B::frobenius_spec(a);
        let c2 = B::frobenius_spec(c1);
        B::lemma_ext_closed(a, a);
        B::lemma_ext_closed(c1, c1);
        B::lemma_ext_closed(c1, c2);
        let cofactor = cubic_cofactor::<B>(a);
        let norm = cubic_norm::<B>(a);
        B::lemma_ext_closed(a, cofactor);
        let d = finv(norm[0], p);
        B::lemma_units(norm[0]);
        lemma_inverse_of(norm[0], p);
        B::lemma_ext_mul_scale(a, cofactor, d);
        assert(0 * d == 0);
        lemma_small_mod(0, p as nat);
        assert(scale_coeffs(norm, d, p) =~= lift_coeffs(1, 3));
    }
}

/// Taking elements out of a buffer and holding them in bytes again gives the
/// buffer back, and holding elements in bytes and taking them out again gives
/// the elements back.
pub proof fn lemma_elements_round_trip<B: StarkField>(bytes: Seq<u8>, elements: Seq<B>)
    ensures
        bytes.len() % B::num_bytes() == 0 ==> raw_bytes_of::<B>(elements_in::<B>(bytes)) == bytes,
        elements_in::<B>(raw_bytes_of::<B>(elements)) == elements,
{
    B::lemma_field();
    let nb = B::num_bytes() as int;
    if bytes.len() % B::num_bytes() == 0 {
        let decoded = elements_in::<B>(bytes);
        let back = raw_bytes_of::<B>(decoded);
        let n = bytes.len() as int / nb;
        lemma_fundamental_div_mod(bytes.len() as int, nb);
        assert(n * nb == bytes.len()) by (nonlinear_arith)
            requires
                bytes.len() == nb * n + 0,
        ;
        assert forall|k: int| 0 <= k < bytes.len() implies back[k] == bytes[k] by {
            let q = k / nb;
            let w = k % nb;
            lemma_fundamental_div_mod(k, nb);
            assert(0 <= q) by (nonlinear_arith)
                requires
                    k == nb * q + w,
                    w < nb,
                    k >= 0,
                    nb > 0,
            ;
            assert(q < n) by (nonlinear_arith)
                requires
                    k == nb * q + w,
                    0 <= w,
                    k < n * nb,
                    nb > 0,
            ;
            assert((q + 1) * nb == q * nb + nb) by (nonlinear_arith);
            assert(q * nb == nb * q) by (nonlinear_arith);
            assert((q + 1) * nb <= n * nb) by (nonlinear_arith)
                requires
                    q + 1 <= n,
                    nb > 0,
            ;
            let chunk = bytes.subrange(q * nb, (q + 1) * nb);
            B::lemma_raw(decoded[q], chunk);
            assert(chunk[w] == bytes[k]);
        }
        assert(back =~= bytes);
    }
    let held = raw_bytes_of::<B>(elements);
    let taken = elements_in::<B>(held);
    assert(held.len() == elements.len() * nb);
    assert(held.len() as int / nb == elements.len()) by {
        lemma_fundamental_div_mod_converse(held.len() as int, nb, elements.len() as int, 0);
        assert(elements.len() * nb == nb * elements.len()) by (nonlinear_arith);
    }
    assert forall|i: int| 0 <= i < elements.len() implies taken[i] == elements[i] by {
        let chunk = held.subrange(i * nb, (i + 1) * nb);
        elements[i].lemma_value();
        assert((i + 1) * nb == i * nb + nb) by (nonlinear_arith);
        assert((i + 1) * nb <= elements.len() * nb) by (nonlinear_arith)
            requires
                i + 1 <= elements.len(),
                nb > 0,
        ;
        assert(0 <= i * nb) by (nonlinear_arith)
            requires
                i >= 0,
                nb > 0,
        ;
        assert forall|w: int| 0 <= w < nb implies chunk[w] == elements[i].raw_bytes()[w] by {
            lemma_fundamental_div_mod_converse(i * nb + w, nb, i, w);
            assert(i * nb == nb * i) by (nonlinear_arith);
        }
        assert(chunk =~= elements[i].raw_bytes());
        B::lemma_raw(elements[i], chunk);
    }
    assert(taken =~= elements);
}

/// Reading the bytes of an element gives the element back: every result of
/// `try_from_bytes` on the canonical encoding of `x`, which is what `as_bytes`
/// and `to_bytes` return for `x`, is an element with the residue of `x`.
pub proof fn lemma_encoding_round_trip<B: StarkField>(
    x: B,
    bytes: &[u8],
    r: Result<B, SerializationError>,
)
    requires
        bytes@ == B::encode(x.value()),
        call_ensures(B::try_from_bytes, (bytes,), r),
    ensures
        r is Ok,
        r->Ok_0.value() == x.value(),
{
    x.lemma_value();
    match r {
        Ok(e) => {
            e.lemma_value();
            B::lemma_encode_injective(e.value(), x.value());
        },
        Err(_) => {
            assert(bytes@ == B::encode(x.value()));
        },
    }
}

/// The canonical encodings of a sequence of elements, one after the other, are
/// encodings of as many residues, and only sequences of the same residues have
/// the same encodings.
pub proof fn lemma_encodings<B: StarkField>(elements: Seq<B>, other: Seq<B>)
    ensures
        is_encoding_of_many::<B>(encoding_of::<B>(elements), elements.len()),
        other.len() == elements.len() && encoding_of::<B>(other) == encoding_of::<B>(elements)
            ==> residues(other) == residues(elements),
{
    B::lemma_field();
    let nb = B::num_bytes() as int;
    let held = encoding_of::<B>(elements);
    assert forall|i: int| 0 <= i < elements.len() implies is_encoding::<B>(
        #[trigger] held.subrange(i * nb, (i + 1) * nb),
    ) by {
        lemma_encoding_chunk(elements, i);
        elements[i].lemma_value();
    }
    if other.len() == elements.len() && encoding_of::<B>(other) == held {
        assert forall|i: int| 0 <= i < elements.len() implies other[i].value()
            == elements[i].value() by {
            lemma_encoding_chunk(elements, i);
            lemma_encoding_chunk(other, i);
            elements[i].lemma_value();
            other[i].lemma_value();
            B::lemma_encode_injective(other[i].value(), elements[i].value());
        }
        assert(residues(other) =~= residues(elements));
    }
}

/// The run of bytes at which an element stands among the encodings of a
/// sequence is its own encoding.
proof fn lemma_encoding_chunk<B: StarkField>(elements: Seq<B>, i: int)
    requires
        0 <= i < elements.len(),
    ensures
        encoding_of::<B>(elements).subrange(i * B::num_bytes(), (i + 1) * B::num_bytes())
            == B::encode(elements[i].value()),
{
    B::lemma_field();
    let nb = B::num_bytes() as int;
    let held = encoding_of::<B>(elements);
    elements[i].lemma_value();
    assert((i + 1) * nb == i * nb + nb) by (nonlinear_arith);
    assert((i + 1) * nb <= elements.len() * nb) by (nonlinear_arith)
        requires
            i + 1 <= elements.len(),
            nb > 0,
    ;
    assert(0 <= i * nb) by (nonlinear_arith)
        requires
            i >= 0,
            nb > 0,
    ;
    let chunk = held.subrange(i * nb, (i + 1) * nb);
    assert forall|w: int| 0 <= w < nb implies chunk[w] == B::encode(elements[i].value())[w] by {
        lemma_fundamental_div_mod_converse(i * nb + w, nb, i, w);
        assert(i * nb == nb * i) by (nonlinear_arith);
    }
    assert(chunk =~= B::encode(elements[i].value()));
}

/// Reading the bytes of an element of a quadratic extension gives the element
/// back: every result of `try_from` on what `as_bytes` returns for `x` is `x`.
pub proof fn lemma_quad_bytes_round_trip<B: QuadExtensible>(
    x: QuadExtensionA<B>,
    bytes: &[u8],
    r: Result<QuadExtensionA<B>, SerializationError>,
)
    requires
        bytes@ == encoding_of::<B>(x.components()),
        call_ensures(QuadExtensionA::<B>::try_from, (bytes,), r),
    ensures
        r is Ok,
        r->Ok_0@ == x@,
{
    match r {
        Ok(e) => {
            lemma_encodings::<B>(x.components(), e.components());
            assert(residues(e.components())[0] == residues(x.components())[0]);
            assert(residues(e.components())[1] == residues(x.components())[1]);
            assert(e@ =~= x@);
        },
        Err(_) => {
            lemma_encodings::<B>(x.components(), x.components());
        },
    }
}

/// Reading the bytes of an element of a cubic extension gives the element
/// back: every result of `try_from` on what `as_bytes` returns for `x` is `x`.
pub proof fn lemma_cubic_bytes_round_trip<B: ExtensibleField<3>>(
    x: CubeExtension<B>,
    bytes: &[u8],
    r: Result<CubeExtension<B>, SerializationError>,
)
    requires
        bytes@ == encoding_of::<B>(x.components()),
        call_ensures(CubeExtension::<B>::try_from, (bytes,), r),
    ensures
        r is Ok,
        r->Ok_0@ == x@,
{
    match r {
        Ok(e) => {
            lemma_encodings::<B>(x.components(), e.components());
            assert(residues(e.components())[0] == residues(x.components())[0]);
            assert(residues(e.components())[1] == residues(x.components())[1]);
            assert(residues(e.components())[2] == residues(x.components())[2]);
            assert(e@ =~= x@);
        },
        Err(_) => {
            lemma_encodings::<B>(x.components(), x.components());
        },
    }
}

/// Where the field holds residues as they are, reading the bytes that a reduced
/// element is held in gives the element back.
pub proof fn lemma_raw_round_trip<B: StarkField>(
    x: B,
    bytes: &[u8],
    r: Result<B, SerializationError>,
)
    requires
        B::canonical(),
        x.is_normalized(),
        bytes@ == x.raw_bytes(),
        call_ensures(B::try_from_bytes, (bytes,), r),
    ensures
        r is Ok,
        r->Ok_0.value() == x.value(),
{
    x.lemma_value();
    lemma_encoding_round_trip(x, bytes, r);
}

} // verus!

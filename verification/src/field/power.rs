//! Powers in an arbitrary field, and the step of square-and-multiply.

use vstd::prelude::*;
use crate::field::traits::{FieldElement, StarkField, valid_coeffs, lift_coeffs};

verus! {

/// The coefficient vector of one is a coefficient vector.
pub proof fn lemma_one_valid(n: nat, p: int)
    requires
        p > 1,
    ensures
        valid_coeffs(lift_coeffs(1, n), n, p),
{
}

/// Powers of coefficient vectors are coefficient vectors.
pub proof fn lemma_pow_closed<E: FieldElement>(a: Seq<int>, k: nat)
    requires
        valid_coeffs(a, E::degree(), E::BaseField::modulus()),
    ensures
        valid_coeffs(E::pow_spec(a, k), E::degree(), E::BaseField::modulus()),
    decreases k,
{
    E::lemma_pow_spec(a, k);
    E::BaseField::lemma_field();
    if k == 0 {
        lemma_one_valid(E::degree(), E::BaseField::modulus());
    } else {
        lemma_pow_closed::<E>(a, (k - 1) as nat);
        E::lemma_mul_closed(a, E::pow_spec(a, (k - 1) as nat));
    }
}

/// A power with a sum as exponent is the product of the powers.
pub proof fn lemma_pow_add<E: FieldElement>(a: Seq<int>, m: nat, n: nat)
    requires
        valid_coeffs(a, E::degree(), E::BaseField::modulus()),
    ensures
        E::pow_spec(a, m + n) == E::mul_spec(E::pow_spec(a, m), E::pow_spec(a, n)),
    decreases m,
{
    E::lemma_pow_spec(a, m);
    E::lemma_pow_spec(a, m + n);
    lemma_pow_closed::<E>(a, n);
    if m == 0 {
        // one * a^n == a^n
        let one = lift_coeffs(1, E::degree());
        E::BaseField::lemma_field();
        lemma_one_valid(E::degree(), E::BaseField::modulus());
        E::lemma_mul_commutative(one, E::pow_spec(a, n));
        E::lemma_mul_one(E::pow_spec(a, n));
    } else {
        let m1 = (m - 1) as nat;
        lemma_pow_add::<E>(a, m1, n);
        lemma_pow_closed::<E>(a, m1);
        assert(m + n - 1 == m1 + n);
        E::lemma_mul_associative(a, E::pow_spec(a, m1), E::pow_spec(a, n));
    }
}

/// The `k`-th power of a square is the `2k`-th power.
pub proof fn lemma_pow_of_square<E: FieldElement>(a: Seq<int>, k: nat)
    requires
        valid_coeffs(a, E::degree(), E::BaseField::modulus()),
    ensures
        E::pow_spec(E::mul_spec(a, a), k) == E::pow_spec(a, 2 * k),
    decreases k,
{
    let sq = E::mul_spec(a, a);
    E::lemma_pow_spec(sq, k);
    E::lemma_pow_spec(a, 2 * k);
    if k > 0 {
        let k1 = (k - 1) as nat;
        lemma_pow_of_square::<E>(a, k1);
        // a^2 == a * a^1, and a^(2 + 2 * k1) == a^2 * a^(2 * k1)
        lemma_pow_add::<E>(a, 2, 2 * k1);
        assert(2 + 2 * k1 == 2 * k);
        E::lemma_pow_spec(a, 2);
        E::lemma_pow_spec(a, 1);
        E::lemma_mul_one(a);
    }
}

/// The step of square-and-multiply: with the exponent `e` halved and the base
/// squared, an odd `e` moves one factor of the base into the accumulator.
pub proof fn lemma_ext_exp_step<E: FieldElement>(acc: Seq<int>, b: Seq<int>, e: nat)
    requires
        valid_coeffs(acc, E::degree(), E::BaseField::modulus()),
        valid_coeffs(b, E::degree(), E::BaseField::modulus()),
        e > 0,
    ensures
        e % 2 == 1 ==> E::mul_spec(acc, E::pow_spec(b, e)) == E::mul_spec(
            E::mul_spec(acc, b),
            E::pow_spec(E::mul_spec(b, b), e / 2),
        ),
        e % 2 == 0 ==> E::mul_spec(acc, E::pow_spec(b, e)) == E::mul_spec(
            acc,
            E::pow_spec(E::mul_spec(b, b), e / 2),
        ),
{
    let k = e / 2;
    lemma_pow_of_square::<E>(b, k);
    if e % 2 == 1 {
        assert(e == 2 * k + 1);
        E::lemma_pow_spec(b, e);
        lemma_pow_closed::<E>(b, 2 * k);
        E::lemma_mul_associative(acc, b, E::pow_spec(b, 2 * k));
    } else {
        assert(e == 2 * k);
    }
}

/// Before the first step the accumulator is one; after the last it holds the
/// power.
pub proof fn lemma_ext_exp_ends<E: FieldElement>(a: Seq<int>, k: nat)
    requires
        valid_coeffs(a, E::degree(), E::BaseField::modulus()),
    ensures
        E::mul_spec(lift_coeffs(1, E::degree()), E::pow_spec(a, k)) == E::pow_spec(a, k),
        E::mul_spec(a, E::pow_spec(a, 0)) == a,
{
    let one = lift_coeffs(1, E::degree());
    E::BaseField::lemma_field();
    lemma_one_valid(E::degree(), E::BaseField::modulus());
    lemma_pow_closed::<E>(a, k);
    E::lemma_mul_commutative(one, E::pow_spec(a, k));
    E::lemma_mul_one(E::pow_spec(a, k));
    E::lemma_pow_spec(a, 0);
    E::lemma_mul_one(a);
}

/// The element raised to `power` by square-and-multiply; one for `power` zero,
/// whatever the element.
pub fn exp_by_squaring<E: FieldElement>(base: E, power: u128) -> (r: E)
    ensures
        r.coeffs() == E::pow_spec(base.coeffs(), power as nat),
{
    let mut acc = E::one();
    let mut b = base;
    let mut e: u128 = power;
    proof {
        base.lemma_coeffs();
        lemma_ext_exp_ends::<E>(base.coeffs(), e as nat);
    }
    while e > 0
        invariant
            E::mul_spec(acc.coeffs(), E::pow_spec(b.coeffs(), e as nat)) == E::pow_spec(
                base.coeffs(),
                power as nat,
            ),
        decreases e,
    {
        proof {
            acc.lemma_coeffs();
            b.lemma_coeffs();
            lemma_ext_exp_step::<E>(acc.coeffs(), b.coeffs(), e as nat);
        }
        if e % 2 == 1 {
            acc = acc.mul(b);
        }
        b = b.mul(b);
        e = e / 2;
    }
    proof {
        acc.lemma_coeffs();
        lemma_ext_exp_ends::<E>(acc.coeffs(), 0);
        E::lemma_pow_spec(acc.coeffs(), 0);
        E::lemma_pow_spec(b.coeffs(), 0);
    }
    acc
}

/// The element raised to `power`, an exponent in the representation of the base
/// field, by square-and-multiply; one for `power` zero, whatever the element.
pub fn exp_by_repr<E: FieldElement>(
    base: E,
    power: <E::BaseField as StarkField>::Representation,
) -> (r: E)
    ensures
        r.coeffs() == E::pow_spec(base.coeffs(), E::BaseField::repr_value(power) as nat),
{
    let mut acc = E::one();
    let mut b = base;
    let mut e = power;
    proof {
        base.lemma_coeffs();
        E::BaseField::lemma_repr(power);
        lemma_ext_exp_ends::<E>(base.coeffs(), E::BaseField::repr_value(power) as nat);
    }
    while !E::BaseField::repr_is_zero(e)
        invariant
            0 <= E::BaseField::repr_value(e),
            E::mul_spec(acc.coeffs(), E::pow_spec(b.coeffs(), E::BaseField::repr_value(e) as nat))
                == E::pow_spec(base.coeffs(), E::BaseField::repr_value(power) as nat),
        decreases E::BaseField::repr_value(e),
    {
        proof {
            acc.lemma_coeffs();
            b.lemma_coeffs();
            lemma_ext_exp_step::<E>(acc.coeffs(), b.coeffs(), E::BaseField::repr_value(e) as nat);
        }
        let (half, odd) = E::BaseField::repr_halve(e);
        if odd {
            acc = acc.mul(b);
        }
        b = b.mul(b);
        proof {
            E::BaseField::lemma_repr(half);
        }
        e = half;
    }
    proof {
        acc.lemma_coeffs();
        lemma_ext_exp_ends::<E>(acc.coeffs(), 0);
        E::lemma_pow_spec(acc.coeffs(), 0);
        E::lemma_pow_spec(b.coeffs(), 0);
    }
    acc
}

} // verus!

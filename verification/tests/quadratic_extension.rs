use stark_core::errors::SerializationError;
use stark_core::field::fp128::BaseElement;
use stark_core::field::fp62;
use stark_core::field::quadratic::QuadExtensionA;
use stark_core::field::traits::{FieldElement, StarkField};
use winter_rand_utils::{rand_value, rand_vector};

fn rand_element() -> QuadExtensionA<BaseElement> {
    QuadExtensionA(
        BaseElement::new(rand_value::<u128>()),
        BaseElement::new(rand_value::<u128>()),
    )
}

fn zero() -> QuadExtensionA<BaseElement> {
    QuadExtensionA::<BaseElement>::zero()
}

fn one() -> QuadExtensionA<BaseElement> {
    QuadExtensionA::<BaseElement>::one()
}

// BASIC ALGEBRA
// ------------------------------------------------------------------------------------------------

#[test]
fn quadratic_add() {
    // identity
    let r = rand_element();
    assert_eq!(r, r + zero());

    // test random values
    let r1 = rand_element();
    let r2 = rand_element();

    let expected = QuadExtensionA(r1.0 + r2.0, r1.1 + r2.1);
    assert_eq!(expected, r1 + r2);
}

#[test]
fn quadratic_sub() {
    // identity
    let r = rand_element();
    assert_eq!(r, r - zero());

    // test random values
    let r1 = rand_element();
    let r2 = rand_element();

    let expected = QuadExtensionA(r1.0 - r2.0, r1.1 - r2.1);
    assert_eq!(expected, r1 - r2);
}

#[test]
fn quadratic_mul() {
    // identity
    let r = rand_element();
    assert_eq!(zero(), r * zero());
    assert_eq!(r, r * one());

    // test random values
    let r1 = rand_element();
    let r2 = rand_element();

    let expected = QuadExtensionA(
        r1.0 * r2.0 + r1.1 * r2.1,
        (r1.0 + r1.1) * (r2.0 + r2.1) - r1.0 * r2.0,
    );
    assert_eq!(expected, r1 * r2);
}

#[test]
fn quadratic_inv() {
    // identity
    assert_eq!(one(), QuadExtensionA::<BaseElement>::inv(one()));
    assert_eq!(zero(), QuadExtensionA::<BaseElement>::inv(zero()));

    // test random values
    let parts: Vec<u128> = rand_vector(2000);
    let x: Vec<QuadExtensionA<BaseElement>> = parts
        .chunks(2)
        .map(|c| QuadExtensionA(BaseElement::new(c[0]), BaseElement::new(c[1])))
        .collect();
    assert_eq!(1000, x.len());
    for i in 0..x.len() {
        let y = QuadExtensionA::<BaseElement>::inv(x[i]);
        assert_eq!(one(), x[i] * y);
    }
}

#[test]
fn conjugate() {
    let a = rand_element();
    let b = a.conjugate();
    let expected = QuadExtensionA(a.0 + a.1, -a.1);
    assert_eq!(expected, b);
}

// INITIALIZATION
// ------------------------------------------------------------------------------------------------

#[test]
fn quadratic_zeroed_vector() {
    let result = QuadExtensionA::<BaseElement>::zeroed_vector(4);
    assert_eq!(4, result.len());
    for element in result.into_iter() {
        assert_eq!(zero(), element);
    }
}

// SERIALIZATION / DESERIALIZATION
// ------------------------------------------------------------------------------------------------

#[test]
fn quadratic_elements_as_bytes() {
    let source = vec![
        QuadExtensionA(BaseElement::new(1), BaseElement::new(2)),
        QuadExtensionA(BaseElement::new(3), BaseElement::new(4)),
    ];

    let expected: Vec<u8> = vec![
        1, 0, 0, 0, 0, 0, 0, 0, 0, 0, 0, 0, 0, 0, 0, 0, 2, 0, 0, 0, 0, 0, 0, 0, 0, 0, 0, 0, 0,
        0, 0, 0, 3, 0, 0, 0, 0, 0, 0, 0, 0, 0, 0, 0, 0, 0, 0, 0, 4, 0, 0, 0, 0, 0, 0, 0, 0, 0,
        0, 0, 0, 0, 0, 0,
    ];

    assert_eq!(
        expected,
        QuadExtensionA::<BaseElement>::elements_as_bytes(&source)
    );
}

#[test]
fn quadratic_bytes_as_elements() {
    let bytes: Vec<u8> = vec![
        1, 0, 0, 0, 0, 0, 0, 0, 0, 0, 0, 0, 0, 0, 0, 0, 2, 0, 0, 0, 0, 0, 0, 0, 0, 0, 0, 0, 0,
        0, 0, 0, 3, 0, 0, 0, 0, 0, 0, 0, 0, 0, 0, 0, 0, 0, 0, 0, 4, 0, 0, 0, 0, 0, 0, 0, 0, 0,
        0, 0, 0, 0, 0, 0, 5,
    ];

    let expected = vec![
        QuadExtensionA(BaseElement::new(1), BaseElement::new(2)),
        QuadExtensionA(BaseElement::new(3), BaseElement::new(4)),
    ];

    let result = QuadExtensionA::<BaseElement>::bytes_as_elements(&bytes[..64]);
    assert!(result.is_ok());
    assert_eq!(expected, result.unwrap());

    let result = QuadExtensionA::<BaseElement>::bytes_as_elements(&bytes);
    assert!(matches!(result, Err(SerializationError::InvalidLength)));

    let result = QuadExtensionA::<BaseElement>::bytes_as_elements(&bytes[1..]);
    assert!(matches!(result, Err(SerializationError::InvalidAlignment)));
}

#[test]
fn quadratic_bytes_as_elements_at_address() {
    let bytes: Vec<u8> = vec![7; 64];
    let result = QuadExtensionA::<BaseElement>::bytes_as_elements_at(&bytes, 32);
    assert_eq!(2, result.unwrap().len());
    let result = QuadExtensionA::<BaseElement>::bytes_as_elements_at(&bytes, 24);
    assert_eq!(Err(SerializationError::InvalidAlignment), result);
    let result = QuadExtensionA::<BaseElement>::bytes_as_elements_at(&bytes[..48], 24);
    assert_eq!(Err(SerializationError::InvalidLength), result);
}

// UTILITIES
// ------------------------------------------------------------------------------------------------

#[test]
fn as_base_elements() {
    let elements = vec![
        QuadExtensionA(BaseElement::new(1), BaseElement::new(2)),
        QuadExtensionA(BaseElement::new(3), BaseElement::new(4)),
    ];

    let expected = vec![
        BaseElement::new(1),
        BaseElement::new(2),
        BaseElement::new(3),
        BaseElement::new(4),
    ];

    assert_eq!(
        expected,
        QuadExtensionA::<BaseElement>::as_base_elements(&elements)
    );
}

// FURTHER CASES
// ------------------------------------------------------------------------------------------------

#[test]
fn quadratic_root_squares_to_itself_plus_one() {
    // x^2 == x + 1
    let x = QuadExtensionA(BaseElement::new(0), BaseElement::new(1));
    assert_eq!(QuadExtensionA(BaseElement::new(1), BaseElement::new(1)), x.mul(x));
}

#[test]
fn quadratic_mul_is_commutative_and_associative() {
    for _ in 0..100 {
        let (a, b, c) = (rand_element(), rand_element(), rand_element());
        assert_eq!(a.mul(b), b.mul(a));
        assert_eq!(a.mul(b).mul(c), a.mul(b.mul(c)));
    }
}

#[test]
fn quadratic_exp_matches_repeated_product() {
    let a = rand_element();
    assert_eq!(one(), a.exp(0));
    assert_eq!(one(), zero().exp(0));
    assert_eq!(zero(), zero().exp(5));
    assert_eq!(a, a.exp(1));
    let mut expected = one();
    for _ in 0..13 {
        expected = expected.mul(a);
    }
    assert_eq!(expected, a.exp(13));
}

#[test]
fn quadratic_norm_is_conjugate_product() {
    // the product with the conjugate lies in the base field and is never zero
    for _ in 0..100 {
        let a = rand_element();
        let n = a.mul(a.conjugate());
        assert_eq!(BaseElement::new(0), n.1);
        if a != zero() {
            assert_ne!(BaseElement::new(0), n.0);
        }
    }
}

#[test]
fn quadratic_div_undoes_mul() {
    let a = rand_element();
    let b = rand_element();
    assert_eq!(a, a * b / b);
    assert_eq!(zero(), a / zero());
    let mut c = a;
    c += b;
    c -= b;
    c *= b;
    c /= b;
    assert_eq!(a, c);
}

#[test]
fn quadratic_bytes_round_trip() {
    let a = rand_element();
    let bytes = a.to_bytes();
    assert_eq!(32, bytes.len());
    assert_eq!(Ok(a), QuadExtensionA::<BaseElement>::try_from(&bytes));
    assert_eq!(bytes, a.as_bytes());
    assert_eq!(Some(a), QuadExtensionA::<BaseElement>::from_random_bytes(&bytes));

    let mut target = vec![9u8];
    a.write_into(&mut target);
    assert_eq!(33, target.len());
    assert_eq!(Ok(a), QuadExtensionA::<BaseElement>::read_from(&target[1..]));
    assert_eq!(
        Err(SerializationError::InvalidFieldElement),
        QuadExtensionA::<BaseElement>::read_from(&target[2..])
    );
    assert_eq!(
        Err(SerializationError::InvalidFieldElement),
        QuadExtensionA::<BaseElement>::try_from(&target)
    );
    // a coefficient at the modulus is no residue
    let mut bad = bytes.clone();
    bad[..16].copy_from_slice(&stark_core::field::fp128::M.to_le_bytes());
    assert_eq!(
        Err(SerializationError::InvalidFieldElement),
        QuadExtensionA::<BaseElement>::try_from(&bad)
    );
    assert_eq!(None, QuadExtensionA::<BaseElement>::from_random_bytes(&bad));
}

#[test]
fn quadratic_text_and_conversions() {
    let a = QuadExtensionA(BaseElement::new(12), BaseElement::new(345));
    assert_eq!("(12, 345)", a.to_string());
    assert_eq!(
        QuadExtensionA(BaseElement::new(7), BaseElement::new(0)),
        QuadExtensionA::<BaseElement>::from_u128(7)
    );
    assert_eq!(
        QuadExtensionA(BaseElement::new(7), BaseElement::new(0)),
        QuadExtensionA::<BaseElement>::from_base(BaseElement::new(7))
    );
    assert_eq!(vec![BaseElement::new(12), BaseElement::new(345)], a.to_base_elements());
    let fused = QuadExtensionA::<BaseElement>::base_to_quad_vector(vec![
        BaseElement::new(1),
        BaseElement::new(2),
        BaseElement::new(3),
        BaseElement::new(4),
    ]);
    assert_eq!(
        vec![
            QuadExtensionA(BaseElement::new(1), BaseElement::new(2)),
            QuadExtensionA(BaseElement::new(3), BaseElement::new(4)),
        ],
        fused
    );
}

#[test]
fn quadratic_normalize_keeps_the_element() {
    // over the 62-bit field products are left unreduced
    let x = fp62::BaseElement::new(fp62::M - 1);
    let mut a = QuadExtensionA(x * x, x * x);
    let before = a;
    a.normalize();
    assert_eq!(before, a);
    assert!(a.0.inner() < fp62::M && a.1.inner() < fp62::M);
}

#[test]
fn quadratic_over_62_bit_field_inverts() {
    for i in 1..50u64 {
        let a = QuadExtensionA(fp62::BaseElement::new(i), fp62::BaseElement::new(i * i + 3));
        assert_eq!(QuadExtensionA::<fp62::BaseElement>::one(), a.mul(a.inv()));
    }
}

#[test]
fn quadratic_from_base_and_integers() {
    let five = BaseElement::new(5);
    let lifted = QuadExtensionA::<BaseElement>::from(five);
    assert_eq!(QuadExtensionA(five, BaseElement::zero()), lifted);
    assert_eq!(lifted, QuadExtensionA::<BaseElement>::from(5u128));
    assert_eq!(lifted, QuadExtensionA::<BaseElement>::from(5u64));
    assert_eq!(lifted, QuadExtensionA::<BaseElement>::from(5u32));
    assert_eq!(lifted, QuadExtensionA::<BaseElement>::from(5u16));
    assert_eq!(lifted, QuadExtensionA::<BaseElement>::from(5u8));
    let small = QuadExtensionA::<fp62::BaseElement>::from(u128::MAX);
    let expected = (u128::MAX % 4611624995532046337u128) as u64;
    assert_eq!(
        QuadExtensionA(fp62::BaseElement::new(expected), fp62::BaseElement::zero()),
        small
    );
}

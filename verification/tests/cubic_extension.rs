use stark_core::errors::SerializationError;
use stark_core::field::cubic::CubeExtension;
use stark_core::field::extensible::{FP128_U, FP128_V, FP62_U, FP62_V, FP64_U, FP64_V};
use stark_core::field::traits::{ExtensibleField, FieldElement, StarkField};
use stark_core::field::{fp128, fp62, fp64};
use winter_rand_utils::rand_value;

type Cube64 = CubeExtension<fp64::BaseElement>;
type Cube62 = CubeExtension<fp62::BaseElement>;
type Cube128 = CubeExtension<fp128::BaseElement>;

fn b64(v: u64) -> fp64::BaseElement {
    fp64::BaseElement::new(v)
}

fn b62(v: u64) -> fp62::BaseElement {
    fp62::BaseElement::new(v)
}

fn b128(v: u128) -> fp128::BaseElement {
    fp128::BaseElement::new(v)
}

fn rand64() -> Cube64 {
    CubeExtension::new(
        b64(rand_value::<u64>()),
        b64(rand_value::<u64>()),
        b64(rand_value::<u64>()),
    )
}

fn rand62() -> Cube62 {
    CubeExtension::new(
        b62(rand_value::<u64>()),
        b62(rand_value::<u64>()),
        b62(rand_value::<u64>()),
    )
}

fn rand128() -> Cube128 {
    CubeExtension::new(
        b128(rand_value::<u128>()),
        b128(rand_value::<u128>()),
        b128(rand_value::<u128>()),
    )
}

#[test]
fn cubic_new_holds_the_coefficients() {
    let a = CubeExtension::new(
        b64(1),
        b64(2),
        b64(3),
    );
    assert_eq!(b64(1), a.0);
    assert_eq!(b64(2), a.1);
    assert_eq!(b64(3), a.2);
    assert_eq!("(1, 2, 3)", a.to_string());
}

#[test]
fn cubic_add_sub_neg() {
    let a = rand64();
    let b = rand64();
    assert_eq!(a, a.add(Cube64::zero()));
    assert_eq!(a, a.add(b).sub(b));
    assert_eq!(Cube64::zero(), a.add(a.neg()));
    let expected = CubeExtension::new(
        StarkField::add(a.0, b.0),
        StarkField::add(a.1, b.1),
        StarkField::add(a.2, b.2),
    );
    assert_eq!(expected, a.add(b));
}

#[test]
fn cubic_root_cubes_to_its_reduction() {
    // x * x^2 == u * x + v
    let zero = b64(0);
    let one = b64(1);
    let x = CubeExtension::new(zero, one, zero);
    let expected = CubeExtension::new(b64(FP64_V), b64(FP64_U), zero);
    assert_eq!(expected, x.mul(x).mul(x));
    let r = <fp64::BaseElement as ExtensibleField<3>>::reduction();
    assert_eq!(expected, CubeExtension::new(r[0], r[1], r[2]));

    let zero = b62(0);
    let x = CubeExtension::new(zero, b62(1), zero);
    let expected = CubeExtension::new(b62(FP62_V), b62(FP62_U), zero);
    assert_eq!(expected, x.mul(x).mul(x));

    let zero = b128(0);
    let x = CubeExtension::new(zero, b128(1), zero);
    let expected = CubeExtension::new(b128(FP128_V), b128(FP128_U), zero);
    assert_eq!(expected, x.mul(x).mul(x));
}

#[test]
fn cubic_mul_is_commutative_and_associative() {
    for _ in 0..50 {
        let (a, b, c) = (rand64(), rand64(), rand64());
        assert_eq!(a, a.mul(Cube64::one()));
        assert_eq!(Cube64::zero(), a.mul(Cube64::zero()));
        assert_eq!(a.mul(b), b.mul(a));
        assert_eq!(a.mul(b).mul(c), a.mul(b.mul(c)));
        let (a, b, c) = (rand62(), rand62(), rand62());
        assert_eq!(a.mul(b), b.mul(a));
        assert_eq!(a.mul(b).mul(c), a.mul(b.mul(c)));
        let (a, b, c) = (rand128(), rand128(), rand128());
        assert_eq!(a.mul(b), b.mul(a));
        assert_eq!(a.mul(b).mul(c), a.mul(b.mul(c)));
    }
}

#[test]
fn cubic_conjugate_is_the_power_of_the_modulus() {
    for _ in 0..5 {
        let a = rand64();
        assert_eq!(a.exp(fp64::M), a.conjugate());
        let a = rand62();
        assert_eq!(a.exp(fp62::M), a.conjugate());
        let a = rand128();
        assert_eq!(a.exp(fp128::M), a.conjugate());
    }
}

#[test]
fn cubic_norm_lies_in_the_base_field() {
    for _ in 0..20 {
        let a = rand64();
        let c1 = a.conjugate();
        let c2 = c1.conjugate();
        let norm = a.mul(c1).mul(c2);
        assert_eq!(b64(0), norm.1);
        assert_eq!(b64(0), norm.2);
        assert_ne!(b64(0), norm.0);
    }
}

#[test]
fn cubic_inv() {
    assert_eq!(Cube64::one(), Cube64::one().inv());
    assert_eq!(Cube64::zero(), Cube64::zero().inv());
    for _ in 0..100 {
        let a = rand64();
        assert_eq!(Cube64::one(), a.mul(a.inv()));
        let a = rand62();
        assert_eq!(Cube62::one(), a.mul(a.inv()));
        let a = rand128();
        assert_eq!(Cube128::one(), a.mul(a.inv()));
    }
    let a = rand64();
    let b = rand64();
    assert_eq!(a, a.mul(b).div(b));
}

#[test]
fn cubic_exp() {
    let a = rand64();
    assert_eq!(Cube64::one(), a.exp(0));
    assert_eq!(Cube64::one(), Cube64::zero().exp(0));
    assert_eq!(Cube64::zero(), Cube64::zero().exp(3));
    assert_eq!(a.mul(a).mul(a), a.exp(3));
}

#[test]
fn cubic_zeroed_vector_and_base_elements() {
    let result = Cube64::zeroed_vector(4);
    assert_eq!(4, result.len());
    for element in result.into_iter() {
        assert_eq!(Cube64::zero(), element);
        assert!(element.is_zero());
    }
    let elements = vec![
        CubeExtension::new(b64(1), b64(2), b64(3)),
        CubeExtension::new(b64(4), b64(5), b64(6)),
    ];
    let expected: Vec<fp64::BaseElement> = (1..=6u64).map(b64).collect();
    assert_eq!(expected, Cube64::as_base_elements(&elements));
    assert_eq!(elements, Cube64::base_to_quad_vector(expected));
}

#[test]
fn cubic_bytes() {
    let elements = vec![
        CubeExtension::new(b64(1), b64(2), b64(3)),
        CubeExtension::new(b64(4), b64(5), b64(6)),
    ];
    let mut expected: Vec<u8> = Vec::new();
    for i in 1..=6u64 {
        expected.extend_from_slice(&i.to_le_bytes());
    }
    let bytes = Cube64::elements_as_bytes(&elements);
    assert_eq!(expected, bytes);
    assert_eq!(Ok(elements.clone()), Cube64::bytes_as_elements(&bytes));
    assert_eq!(Ok(elements.clone()), Cube64::bytes_as_elements_at(&bytes, 8));
    assert_eq!(Err(SerializationError::InvalidAlignment), Cube64::bytes_as_elements_at(&bytes, 4));
    assert_eq!(Err(SerializationError::InvalidLength), Cube64::bytes_as_elements(&bytes[..40]));

    let a = rand64();
    let encoded = a.to_bytes();
    assert_eq!(24, encoded.len());
    assert_eq!(Ok(a), Cube64::try_from(&encoded));
    assert_eq!(Some(a), Cube64::from_random_bytes(&encoded));
    assert_eq!(Err(SerializationError::InvalidFieldElement), Cube64::try_from(&encoded[..23]));
    let mut longer = encoded.clone();
    longer.push(0);
    assert_eq!(Err(SerializationError::InvalidFieldElement), Cube64::try_from(&longer));
    assert_eq!(Ok(a), Cube64::read_from(&longer));
    let mut bad = encoded.clone();
    bad[8..16].copy_from_slice(&u64::MAX.to_le_bytes());
    assert_eq!(Err(SerializationError::InvalidFieldElement), Cube64::try_from(&bad));
    let mut target = Vec::new();
    a.write_into(&mut target);
    assert_eq!(encoded, target);
}

#[test]
fn cubic_normalize_and_equals() {
    let x = b64(fp64::M - 1);
    let unreduced = StarkField::mul(x, x);
    assert!(unreduced.inner() >= fp64::M);
    let mut a = CubeExtension::new(unreduced, unreduced, unreduced);
    let b = Cube64::from_u128(1).add(CubeExtension::new(
        b64(0),
        b64(1),
        b64(1),
    ));
    assert!(a.equals(&b));
    assert_eq!(a, b);
    assert_ne!(a.0.inner(), b.0.inner());
    assert_ne!(Cube64::elements_as_bytes(&[a]), Cube64::elements_as_bytes(&[b]));
    assert_eq!(a.as_bytes(), b.as_bytes());
    assert_eq!(a.to_bytes(), b.to_bytes());
    assert_eq!(Ok(a), Cube64::try_from(&a.as_bytes()));
    a.normalize();
    assert_eq!(a.0.inner(), b.0.inner());
    assert_eq!(Cube64::elements_as_bytes(&[a]), Cube64::elements_as_bytes(&[b]));
    assert_eq!(a.as_bytes(), b.as_bytes());
}

#[test]
fn cubic_bytes_of_unreduced_coefficients_read_back() {
    // a coefficient held as the modulus is zero
    let held_as_modulus = fp64::BaseElement::from_raw_bytes(&fp64::M.to_le_bytes());
    assert_eq!(fp64::M, held_as_modulus.inner());
    let x = CubeExtension::new(held_as_modulus, b64(7), held_as_modulus);
    let bytes = x.as_bytes();
    let mut expected = vec![0u8; 24];
    expected[8] = 7;
    assert_eq!(expected, bytes);
    assert_eq!(Ok(x), Cube64::try_from(&bytes));
    assert_eq!(Ok(CubeExtension::new(b64(0), b64(7), b64(0))), Cube64::try_from(&bytes));
    // elements held in Montgomery form
    let y = CubeExtension::new(b62(1), b62(2), b62(3));
    let bytes = y.as_bytes();
    assert_eq!(1, bytes[0]);
    assert_eq!(2, bytes[8]);
    assert_eq!(3, bytes[16]);
    assert_eq!(Ok(y), Cube62::try_from(&bytes));
}

#[test]
fn cubic_from_base_and_integers() {
    let five = b64(5);
    let lifted = Cube64::from(five);
    assert_eq!(CubeExtension(five, b64(0), b64(0)), lifted);
    assert_eq!(lifted, Cube64::from(5u128));
    assert_eq!(lifted, Cube64::from(5u64));
    assert_eq!(lifted, Cube64::from(5u32));
    assert_eq!(lifted, Cube64::from(5u16));
    assert_eq!(lifted, Cube64::from(5u8));
    let wrapped = Cube64::from(u128::MAX);
    let expected = (u128::MAX % 0xFFFFFFFF00000001u128) as u64;
    assert_eq!(CubeExtension(b64(expected), b64(0), b64(0)), wrapped);
}

#[test]
fn cubic_nonzero_elements_have_inverses() {
    // elements with one, two and three nonzero coefficients
    let samples = [
        CubeExtension(b64(0), b64(1), b64(0)),
        CubeExtension(b64(0), b64(0), b64(1)),
        CubeExtension(b64(3), b64(0), b64(7)),
        CubeExtension(b64(0xFFFFFFFF00000000), b64(1), b64(0)),
        CubeExtension(b64(1), b64(2), b64(3)),
    ];
    for a in samples {
        assert_eq!(Cube64::one(), a * a.inv());
    }
    let samples = [
        CubeExtension(b62(0), b62(1), b62(0)),
        CubeExtension(b62(0), b62(0), b62(1)),
        CubeExtension(b62(2), b62(2), b62(1)),
    ];
    for a in samples {
        assert_eq!(Cube62::one(), a * a.inv());
    }
    let samples = [
        CubeExtension(b128(0), b128(1), b128(0)),
        CubeExtension(b128(0), b128(0), b128(1)),
        CubeExtension(b128(2), b128(2), b128(1)),
    ];
    for a in samples {
        assert_eq!(Cube128::one(), a * a.inv());
    }
}

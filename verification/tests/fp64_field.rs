use num_bigint::BigUint;
use proptest::arbitrary::any;
use proptest::test_runner::TestRunner;
use stark_core::errors::SerializationError;
use stark_core::field::fp64::{BaseElement, G, M};
use stark_core::field::traits::StarkField;
use winter_rand_utils::rand_value;

fn rand_element() -> BaseElement {
    BaseElement::from(rand_value::<u64>())
}

// MANUAL TESTS
// ================================================================================================

#[test]
fn tests_add() {
    // identity
    let r: BaseElement = rand_element();
    assert_eq!(r, r + BaseElement::zero());

    // test addition within bounds
    assert_eq!(
        BaseElement::from(5u8),
        BaseElement::from(2u8) + BaseElement::from(3u8)
    );

    // test overflow
    let t = BaseElement::from(BaseElement::MODULUS - 1);
    assert_eq!(BaseElement::zero(), t + BaseElement::one());
    assert_eq!(BaseElement::one(), t + BaseElement::from(2u8));
}

#[test]
fn tests_sub() {
    // identity
    let r: BaseElement = rand_element();
    assert_eq!(r, r - BaseElement::zero());

    // test subtraction within bounds
    assert_eq!(
        BaseElement::from(2u8),
        BaseElement::from(5u8) - BaseElement::from(3u8)
    );

    // test underflow
    let expected = BaseElement::from(BaseElement::MODULUS - 2);
    assert_eq!(expected, BaseElement::from(3u8) - BaseElement::from(5u8));
}

#[test]
fn neg() {
    assert_eq!(BaseElement::zero(), -BaseElement::zero());
    assert_eq!(BaseElement::from(M - 1), -BaseElement::one());

    let r: BaseElement = rand_element();
    assert_eq!(r, -(-r));
}

#[test]
fn tests_mul() {
    // identity
    let r: BaseElement = rand_element();
    assert_eq!(BaseElement::zero(), r * BaseElement::zero());
    assert_eq!(r, r * BaseElement::one());

    // test multiplication within bounds
    assert_eq!(
        BaseElement::from(15u8),
        BaseElement::from(5u8) * BaseElement::from(3u8)
    );

    // test overflow
    let m = BaseElement::MODULUS;
    let t = BaseElement::from(m - 1);
    assert_eq!(BaseElement::one(), t * t);
    assert_eq!(BaseElement::from(m - 2), t * BaseElement::from(2u8));
    assert_eq!(BaseElement::from(m - 4), t * BaseElement::from(4u8));

    let t = (m + 1) / 2;
    assert_eq!(
        BaseElement::one(),
        BaseElement::from(t) * BaseElement::from(2u8)
    );
}

#[test]
fn exp() {
    let a = BaseElement::zero();
    assert_eq!(a.exp(0), BaseElement::one());
    assert_eq!(a.exp(1), BaseElement::zero());

    let a = BaseElement::one();
    assert_eq!(a.exp(0), BaseElement::one());
    assert_eq!(a.exp(1), BaseElement::one());
    assert_eq!(a.exp(3), BaseElement::one());

    let a: BaseElement = rand_element();
    assert_eq!(a.exp(3), a * a * a);
}

#[test]
fn tests_inv() {
    // identity
    assert_eq!(BaseElement::one(), BaseElement::inv(BaseElement::one()));
    assert_eq!(BaseElement::zero(), BaseElement::inv(BaseElement::zero()));
}

#[test]
fn element_to_repr() {
    let v = u64::MAX;
    let e = BaseElement::new(v);
    assert_eq!(v % M, e.to_repr());
}

#[test]
fn equals() {
    let a = BaseElement::one();
    let b = BaseElement::new(M - 1) * BaseElement::new(M - 1);

    // elements are equal
    assert_eq!(a, b);
    assert_eq!(a.to_repr(), b.to_repr());
    assert_eq!(a.to_bytes(), b.to_bytes());

    // but their internal representation is not
    assert_ne!(a.inner(), b.inner());
    assert_ne!(a.to_raw_bytes(), b.to_raw_bytes());

    // the bytes of an element are those of its reduced form, which reads back
    assert_eq!(a.as_bytes(), b.as_bytes());
    assert_eq!(Ok(b), BaseElement::try_from(&b.as_bytes()));
}

// ROOTS OF UNITY
// ------------------------------------------------------------------------------------------------

#[test]
fn get_root_of_unity() {
    let root_32 = BaseElement::get_root_of_unity(32);
    assert_eq!(BaseElement::new(G), root_32);
    assert_eq!(BaseElement::one(), root_32.exp(1u64 << 32));

    let root_31 = BaseElement::get_root_of_unity(31);
    let expected = root_32.exp(2);
    assert_eq!(expected, root_31);
    assert_eq!(BaseElement::one(), root_31.exp(1u64 << 31));
}

// SERIALIZATION AND DESERIALIZATION
// ------------------------------------------------------------------------------------------------

#[test]
fn from_u128() {
    let v = u128::MAX;
    let e = BaseElement::from(v);
    assert_eq!((v % M as u128) as u64, e.to_repr());
}

#[test]
fn try_from_slice() {
    let bytes = vec![1, 0, 0, 0, 0, 0, 0, 0];
    let result = BaseElement::try_from(bytes.as_slice());
    assert!(result.is_ok());
    assert_eq!(1, result.unwrap().to_repr());

    let bytes = vec![1, 0, 0, 0, 0, 0, 0];
    let result = BaseElement::try_from(bytes.as_slice());
    assert!(result.is_err());

    let bytes = vec![1, 0, 0, 0, 0, 0, 0, 0, 0];
    let result = BaseElement::try_from(bytes.as_slice());
    assert!(result.is_err());

    let bytes = vec![255, 255, 255, 255, 255, 255, 255, 255];
    let result = BaseElement::try_from(bytes.as_slice());
    assert!(result.is_err());
    assert_eq!(Err(SerializationError::InvalidFieldElement), result);
}

#[test]
fn tests_elements_as_bytes() {
    let source = vec![
        BaseElement::new(1),
        BaseElement::new(2),
        BaseElement::new(3),
        BaseElement::new(4),
    ];

    let mut expected = vec![];
    expected.extend_from_slice(&source[0].inner().to_le_bytes());
    expected.extend_from_slice(&source[1].inner().to_le_bytes());
    expected.extend_from_slice(&source[2].inner().to_le_bytes());
    expected.extend_from_slice(&source[3].inner().to_le_bytes());

    assert_eq!(expected, BaseElement::elements_as_bytes(&source));
}

#[test]
fn tests_bytes_as_elements() {
    let elements = vec![
        BaseElement::new(1),
        BaseElement::new(2),
        BaseElement::new(3),
        BaseElement::new(4),
    ];

    let mut bytes = vec![];
    bytes.extend_from_slice(&elements[0].inner().to_le_bytes());
    bytes.extend_from_slice(&elements[1].inner().to_le_bytes());
    bytes.extend_from_slice(&elements[2].inner().to_le_bytes());
    bytes.extend_from_slice(&elements[3].inner().to_le_bytes());
    bytes.extend_from_slice(&BaseElement::new(5).inner().to_le_bytes());

    let result = BaseElement::bytes_as_elements(&bytes[..32]);
    assert!(result.is_ok());
    assert_eq!(elements, result.unwrap());

    let result = BaseElement::bytes_as_elements(&bytes[..33]);
    assert!(matches!(result, Err(SerializationError::InvalidLength)));

    let result = BaseElement::bytes_as_elements(&bytes[1..33]);
    assert!(matches!(result, Err(SerializationError::InvalidAlignment)));
}

// INITIALIZATION
// ------------------------------------------------------------------------------------------------

#[test]
fn tests_zeroed_vector() {
    let result = BaseElement::zeroed_vector(4);
    assert_eq!(4, result.len());
    for element in result.into_iter() {
        assert_eq!(BaseElement::zero(), element);
    }
}

// RANDOMIZED TESTS
// ================================================================================================

#[test]
fn add_proptest() {
    let mut runner = TestRunner::default();
    runner
        .run(&(any::<u64>(), any::<u64>()), |(a, b)| {
            let v1 = BaseElement::from(a);
            let v2 = BaseElement::from(b);
            let result = v1 + v2;

            let expected = (((a as u128) + (b as u128)) % (M as u128)) as u64;
            assert_eq!(expected, result.to_repr());
            Ok(())
        })
        .unwrap();
}

#[test]
fn sub_proptest() {
    let mut runner = TestRunner::default();
    runner
        .run(&(any::<u64>(), any::<u64>()), |(a, b)| {
            let v1 = BaseElement::from(a);
            let v2 = BaseElement::from(b);
            let result = v1 - v2;

            let a = a % M;
            let b = b % M;
            let expected = if a < b { M - b + a } else { a - b };

            assert_eq!(expected, result.to_repr());
            Ok(())
        })
        .unwrap();
}

#[test]
fn neg_proptest() {
    let mut runner = TestRunner::default();
    runner
        .run(&any::<u64>(), |a| {
            let v = BaseElement::from(a);
            let expected = (M - (a % M)) % M;

            assert_eq!(expected, (-v).to_repr());
            Ok(())
        })
        .unwrap();
}

#[test]
fn mul_proptest() {
    let mut runner = TestRunner::default();
    runner
        .run(&(any::<u64>(), any::<u64>()), |(a, b)| {
            let v1 = BaseElement::from(a);
            let v2 = BaseElement::from(b);
            let result = v1 * v2;

            let expected = (((a as u128) * (b as u128)) % M as u128) as u64;
            assert_eq!(expected, result.to_repr());
            Ok(())
        })
        .unwrap();
}

#[test]
fn exp_proptest() {
    let mut runner = TestRunner::default();
    runner
        .run(&(any::<u64>(), any::<u64>()), |(a, b)| {
            let result = BaseElement::from(a).exp(b);

            let b = BigUint::from(b);
            let m = BigUint::from(M);
            let expected = BigUint::from(a).modpow(&b, &m);
            assert_eq!(expected, BigUint::from(result.to_repr()));
            Ok(())
        })
        .unwrap();
}

#[test]
fn inv_proptest() {
    let mut runner = TestRunner::default();
    runner
        .run(&any::<u64>(), |a| {
            let a = BaseElement::from(a);
            let b = a.inv();

            let expected = if a == BaseElement::zero() {
                BaseElement::zero()
            } else {
                BaseElement::one()
            };
            assert_eq!(expected, a * b);
            Ok(())
        })
        .unwrap();
}

#[test]
fn element_to_repr_proptest() {
    let mut runner = TestRunner::default();
    runner
        .run(&any::<u64>(), |a| {
            let e = BaseElement::new(a);
            assert_eq!(a % M, e.to_repr());
            Ok(())
        })
        .unwrap();
}

#[test]
fn from_u128_proptest() {
    let mut runner = TestRunner::default();
    runner
        .run(&any::<u128>(), |v| {
            let e = BaseElement::from(v);
            assert_eq!((v % M as u128) as u64, e.to_repr());
            Ok(())
        })
        .unwrap();
}

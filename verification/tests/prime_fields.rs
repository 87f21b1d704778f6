use num_bigint::BigUint;
use proptest::arbitrary::any;
use proptest::test_runner::TestRunner;
use stark_core::errors::SerializationError;
use stark_core::field::traits::StarkField;
use stark_core::field::{fp128, fp62, fp64};
use winter_rand_utils::rand_value;

fn big(v: u128) -> BigUint {
    BigUint::from(v)
}

// THE 128-BIT FIELD
// ------------------------------------------------------------------------------------------------

#[test]
fn fp128_arithmetic_matches_big_integers() {
    let m = big(fp128::M);
    let mut runner = TestRunner::default();
    runner
        .run(&(any::<u128>(), any::<u128>()), |(a, b)| {
            let (x, y) = (fp128::BaseElement::new(a), fp128::BaseElement::new(b));
            assert_eq!(big(x.to_repr()), big(a) % &m);
            assert_eq!(big(x.add(y).to_repr()), (big(a) + big(b)) % &m);
            assert_eq!(big(x.sub(y).to_repr()), (big(a) + &m - big(b) % &m) % &m);
            assert_eq!(big(x.mul(y).to_repr()), (big(a) * big(b)) % &m);
            assert_eq!(big(x.square().to_repr()), (big(a) * big(a)) % &m);
            assert_eq!(big(x.neg().to_repr()), (&m - big(a) % &m) % &m);
            assert_eq!(big(x.exp(b).to_repr()), big(a).modpow(&big(b), &m));
            let expected = if x == fp128::BaseElement::new(0) { 0 } else { 1 };
            assert_eq!(fp128::BaseElement::new(expected), x.mul(x.inv()));
            Ok(())
        })
        .unwrap();
}

#[test]
fn fp128_edges() {
    let zero = fp128::BaseElement::new(0);
    let one = fp128::BaseElement::new(1);
    let top = fp128::BaseElement::new(fp128::M - 1);
    assert_eq!(zero, fp128::BaseElement::new(fp128::M));
    assert_eq!(zero, top.add(one));
    assert_eq!(one, top.mul(top));
    assert_eq!(top, zero.sub(one));
    assert_eq!(top, one.neg());
    assert_eq!(one, zero.exp(0));
    assert_eq!(zero, zero.exp(1));
    assert_eq!(zero, zero.inv());
    assert_eq!(one, one.inv());
    assert!(fp128::BaseElement::is_canonical());
    assert_eq!(16, fp128::BaseElement::element_bytes());
    assert_eq!("340282366920938463463374557953744961536", top.to_string());
    assert_eq!(fp128::M - 1, top.inner());
    assert_eq!(fp128::BaseElement::from(5u8), fp128::BaseElement::from(5u128));
    assert_eq!(fp128::BaseElement::from(5u16), fp128::BaseElement::from(5u32));
    assert_eq!(fp128::BaseElement::from(5u64), fp128::BaseElement::from_repr(5));
    assert_eq!(fp128::BaseElement::default(), zero);
    assert_eq!((3, true), fp128::BaseElement::repr_halve(fp128::BaseElement::repr_from_u64(7)));
    assert!(fp128::BaseElement::repr_is_zero(0));
    assert!(!fp128::BaseElement::repr_is_zero(1));
}

#[test]
fn fp128_wide_product() {
    assert_eq!((0, 0), fp128::mul_wide(0, u128::MAX));
    assert_eq!((0, u128::MAX), fp128::mul_wide(1, u128::MAX));
    assert_eq!((u128::MAX - 1, 1), fp128::mul_wide(u128::MAX, u128::MAX));
    assert_eq!((1, 0), fp128::mul_wide(1 << 64, 1 << 64));
    let (a, b): (u128, u128) = (rand_value(), rand_value());
    let (hi, lo) = fp128::mul_wide(a, b);
    assert_eq!(big(a) * big(b), (big(hi) << 128) + big(lo));
    assert_eq!(fp128::M - 1, fp128::reduce(u128::MAX - (u128::MAX - fp128::M) - 1));
    assert_eq!(u128::MAX - fp128::M, fp128::reduce(u128::MAX));
    assert_eq!(1, fp128::add_mod(fp128::M - 1, 2));
    assert_eq!(fp128::M - 1, fp128::sub_mod(1, 2));
    assert_eq!(big(fp128::mul_mod(a, b)), (big(a) * big(b)) % big(fp128::M));
    let x = a % fp128::M;
    if x != 0 {
        assert_eq!(1, fp128::mul_mod(x, fp128::inv_mod(x)));
    }
}

#[test]
fn fp128_roots_of_unity() {
    let one = fp128::BaseElement::new(1);
    let root = fp128::BaseElement::get_root_of_unity(40);
    assert_eq!(fp128::BaseElement::new(fp128::G), root);
    assert_eq!(one, root.exp(1u128 << 40));
    assert_ne!(one, root.exp(1u128 << 39));
    let root = fp128::BaseElement::get_root_of_unity(3);
    assert_eq!(one, root.exp(8));
    assert_ne!(one, root.exp(4));
    assert_eq!(one, fp128::BaseElement::get_root_of_unity(0));
    assert_eq!(one.neg(), fp128::BaseElement::get_root_of_unity(1));
}

#[test]
fn fp128_bytes() {
    let a = fp128::BaseElement::new(rand_value::<u128>());
    assert_eq!(a.to_repr().to_le_bytes().to_vec(), a.to_bytes());
    assert_eq!(a.to_bytes(), a.as_bytes());
    assert_eq!(Ok(a), fp128::BaseElement::try_from(&a.to_bytes()));
    assert_eq!(Ok(a), fp128::BaseElement::try_from_bytes(&a.as_bytes()));
    assert_eq!(Some(a), fp128::BaseElement::from_random_bytes(&a.to_bytes()));
    assert_eq!(
        Err(SerializationError::InvalidFieldElement),
        fp128::BaseElement::try_from(&fp128::M.to_le_bytes())
    );
    assert_eq!(None, fp128::BaseElement::from_random_bytes(&[0u8; 15]));
    // bytes taken as they are may hold an integer above the modulus
    let raw = fp128::BaseElement::from_raw_bytes(&u128::MAX.to_le_bytes());
    assert_eq!(u128::MAX, raw.inner());
    assert_eq!(fp128::BaseElement::new(u128::MAX - fp128::M), raw);
    assert_eq!(u128::MAX.to_le_bytes().to_vec(), raw.to_raw_bytes());
    assert_eq!((u128::MAX - fp128::M).to_le_bytes().to_vec(), raw.as_bytes());
    assert_eq!(Ok(raw), fp128::BaseElement::try_from(&raw.as_bytes()));
    let mut normalized = raw;
    normalized.normalize();
    assert_eq!(u128::MAX - fp128::M, normalized.inner());
    assert_eq!(raw.add(raw), normalized.add(normalized));
    assert_eq!(raw.mul(raw), normalized.mul(normalized));
    assert_eq!(raw.sub(a), normalized.sub(a));
    assert_eq!(raw.neg(), normalized.neg());
    assert_eq!(raw.inv(), normalized.inv());
    assert_eq!(raw.exp(5), normalized.exp(5));
    let elements = vec![a, raw, normalized];
    let bytes = fp128::BaseElement::elements_as_bytes(&elements);
    let back = fp128::BaseElement::bytes_as_elements(&bytes).unwrap();
    assert_eq!(bytes, fp128::BaseElement::elements_as_bytes(&back));
    assert_eq!(u128::MAX, back[1].inner());
    assert_eq!(elements, fp128::BaseElement::as_base_elements(&elements));
    assert_eq!(vec![fp128::BaseElement::new(0); 3], fp128::BaseElement::zeroed_vector(3));
}

// THE 62-BIT FIELD
// ------------------------------------------------------------------------------------------------

#[test]
fn fp62_arithmetic_matches_big_integers() {
    let m = fp62::M as u128;
    let mut runner = TestRunner::default();
    runner
        .run(&(any::<u64>(), any::<u64>()), |(a, b)| {
            let (x, y) = (fp62::BaseElement::new(a), fp62::BaseElement::new(b));
            let (a, b) = (a as u128 % m, b as u128 % m);
            assert_eq!(a, x.to_repr() as u128);
            assert_eq!((a + b) % m, x.add(y).to_repr() as u128);
            assert_eq!((a + m - b) % m, x.sub(y).to_repr() as u128);
            assert_eq!((a * b) % m, x.mul(y).to_repr() as u128);
            assert_eq!((a * a) % m, x.square().to_repr() as u128);
            assert_eq!((m - a) % m, x.neg().to_repr() as u128);
            assert_eq!(
                big(a).modpow(&big(b), &big(m)),
                big(x.exp(b as u64).to_repr() as u128)
            );
            let expected = if a == 0 { 0 } else { 1 };
            assert_eq!(fp62::BaseElement::new(expected), x.mul(x.inv()));
            Ok(())
        })
        .unwrap();
}

#[test]
fn fp62_montgomery_form() {
    let one = fp62::BaseElement::new(1);
    // one is held as 2^64 modulo the modulus
    assert_eq!(((1u128 << 64) % fp62::M as u128) as u64, one.inner());
    assert_eq!(one.inner(), fp62::to_mont(1));
    assert_eq!(0, fp62::to_mont(0));
    assert_eq!(1, one.to_repr());
    assert_eq!("1", one.to_string());
    assert_ne!(one.to_bytes(), one.to_raw_bytes());
    assert_eq!(one.to_bytes(), one.as_bytes());
    assert_eq!(Ok(one), fp62::BaseElement::try_from(&one.as_bytes()));
    assert_eq!(vec![1, 0, 0, 0, 0, 0, 0, 0], one.to_bytes());
    assert!(!fp62::BaseElement::is_canonical());
    // the Montgomery product of the forms of a and b is the form of a * b
    let (a, b) = (rand_value::<u64>() % fp62::M, rand_value::<u64>() % fp62::M);
    let product = fp62::mont_mul(fp62::to_mont(a), fp62::to_mont(b));
    assert!(product < 2 * fp62::M);
    let expected = ((a as u128 * b as u128) % fp62::M as u128) as u64;
    assert_eq!(fp62::to_mont(expected), product % fp62::M);
    // products may be left above the modulus, and still compare equal
    let top = fp62::BaseElement::new(fp62::M - 1);
    assert_eq!(one, top.mul(top));
    let mut x = top.mul(top);
    x.normalize();
    assert_eq!(one.inner(), x.inner());
    assert_eq!(fp62::BaseElement::from(9u8), fp62::BaseElement::from(9u128));
    assert_eq!(fp62::BaseElement::from(9u16), fp62::BaseElement::from(9u32));
    assert_eq!(fp62::BaseElement::from(9u64), fp62::BaseElement::from_repr(9));
    assert_eq!(fp62::BaseElement::default(), fp62::BaseElement::new(0));
}

#[test]
fn fp62_roots_of_unity_and_bytes() {
    let one = fp62::BaseElement::new(1);
    let root = fp62::BaseElement::get_root_of_unity(39);
    assert_eq!(fp62::BaseElement::new(fp62::G), root);
    assert_eq!(one, root.exp(1u64 << 39));
    assert_ne!(one, root.exp(1u64 << 38));
    assert_eq!(one, fp62::BaseElement::get_root_of_unity(0));

    let a = fp62::BaseElement::new(rand_value::<u64>());
    assert_eq!(Ok(a), fp62::BaseElement::try_from(&a.to_bytes()));
    assert_eq!(
        Err(SerializationError::InvalidFieldElement),
        fp62::BaseElement::try_from(&fp62::M.to_le_bytes())
    );
    let elements = vec![a, one, a.mul(a)];
    let bytes = fp62::BaseElement::elements_as_bytes(&elements);
    assert_eq!(24, bytes.len());
    let back = fp62::BaseElement::bytes_as_elements(&bytes).unwrap();
    assert_eq!(elements, back);
    assert_eq!(bytes, fp62::BaseElement::elements_as_bytes(&back));
    assert_eq!(a.inner(), fp62::BaseElement::from_raw_bytes(&a.to_raw_bytes()).inner());
}

// THE 64-BIT FIELD, FURTHER CASES
// ------------------------------------------------------------------------------------------------

#[test]
fn fp64_reduction() {
    assert_eq!(0, fp64::reduce(fp64::M));
    assert_eq!(fp64::M - 1, fp64::reduce(fp64::M - 1));
    assert_eq!(u64::MAX - fp64::M, fp64::reduce(u64::MAX));
    assert_eq!(0, fp64::mod_reduce(0));
    assert_eq!(fp64::M + 1, fp64::mod_reduce((fp64::M as u128 - 1) * (fp64::M as u128 - 1)));
    let mut runner = TestRunner::default();
    runner
        .run(&any::<u128>(), |x| {
            assert_eq!((x % fp64::M as u128) as u64, fp64::mod_reduce(x) % fp64::M);
            Ok(())
        })
        .unwrap();
    let a = fp64::BaseElement::new(rand_value::<u64>());
    assert_eq!(a.to_repr().to_string(), a.to_string());
    assert!(!fp64::BaseElement::is_canonical());
    assert_eq!(8, fp64::BaseElement::element_bytes());
    assert_eq!(a.mul(a), a.square());
    let mut x = fp64::BaseElement::new(fp64::M - 1).mul(fp64::BaseElement::new(fp64::M - 1));
    x.normalize();
    assert_eq!(1, x.inner());
    assert_eq!(fp64::BaseElement::from(9u16), fp64::BaseElement::from(9u32));
    assert_eq!(Some(a), fp64::BaseElement::from_random_bytes(&a.to_bytes()));
    assert_eq!(None, fp64::BaseElement::from_random_bytes(&[255u8; 8]));
    assert_eq!(vec![a], fp64::BaseElement::as_base_elements(&[a]));
    assert_eq!(u64::MAX, fp64::BaseElement::from_raw_bytes(&[255u8; 8]).inner());
    assert_eq!(fp64::BaseElement::default(), fp64::BaseElement::new(0));
}

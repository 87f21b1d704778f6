use num_bigint::BigUint;
use proptest::arbitrary::any;
use proptest::test_runner::TestRunner;
use stark_core::errors::SerializationError;
use stark_core::field::buffers::bytes_as_elements_at;
use stark_core::field::fp252::{
    add_mod, decimal_string_256, decode_256, div10, encode_bytes, modulus_repr, mul_mod, reduce,
    sub_mod, BaseElement, G_HI, G_LO, M_HI, M_LO, U256,
};
use stark_core::field::traits::StarkField;
use stark_core::utils::batch_inversion;

fn big(v: U256) -> BigUint {
    (BigUint::from(v.hi) << 128) + BigUint::from(v.lo)
}

fn modulus() -> BigUint {
    (BigUint::from(1u8) << 251) + (BigUint::from(17u8) << 192) + BigUint::from(1u8)
}

fn small(v: u128) -> BaseElement {
    BaseElement::from(v)
}

#[test]
fn fp252_modulus() {
    assert_eq!(modulus(), big(modulus_repr()));
    assert_eq!(U256 { hi: M_HI, lo: M_LO }, modulus_repr());
    assert_eq!(32, BaseElement::element_bytes());
    assert_eq!(32, BaseElement::ELEMENT_BYTES);
    assert_eq!(192, BaseElement::get_two_adicity());
    assert!(BaseElement::is_canonical());
}

#[test]
fn fp252_integers_of_256_bits() {
    let a = U256 { hi: 3, lo: u128::MAX };
    let b = U256 { hi: 1, lo: 2 };
    assert_eq!(U256 { hi: 5, lo: 1 }, a.plus(b));
    assert_eq!(U256 { hi: 2, lo: u128::MAX - 2 }, a.minus(b));
    assert_eq!(U256 { hi: 0, lo: u128::MAX }, U256 { hi: 1, lo: 0 }.minus(U256 { hi: 0, lo: 1 }));
    assert!(b.lt(a));
    assert!(!a.lt(b));
    assert!(!a.lt(a));
    assert!(U256 { hi: 1, lo: 0 }.lt(U256 { hi: 1, lo: 1 }));
    assert!(U256::new(0, 0).is_zero());
    assert!(!U256::new(1, 0).is_zero());
    assert_eq!((U256 { hi: 1, lo: (1 << 127) + (u128::MAX >> 1) }, true), a.halve());
    assert_eq!((U256 { hi: 0, lo: (1 << 127) + 1 }, false), b.halve());
    assert_eq!((U256 { hi: 0, lo: 0 }, true), U256::new(0, 1).halve());
}

#[test]
fn fp252_arithmetic_matches_big_integers() {
    let m = modulus();
    let mut runner = TestRunner::default();
    runner
        .run(
            &(any::<u128>(), any::<u128>(), any::<u128>(), any::<u128>()),
            |(ah, al, bh, bl)| {
                let (a, b) = (U256 { hi: ah, lo: al }, U256 { hi: bh, lo: bl });
                let (x, y) = (BaseElement::new(a), BaseElement::new(b));
                assert_eq!(big(reduce(a)), big(a) % &m);
                assert_eq!(big(x.to_repr()), big(a) % &m);
                assert_eq!(big(x.add(y).to_repr()), (big(a) + big(b)) % &m);
                assert_eq!(big(x.sub(y).to_repr()), (big(a) % &m + &m - big(b) % &m) % &m);
                assert_eq!(big(x.mul(y).to_repr()), (big(a) * big(b)) % &m);
                assert_eq!(big(x.square().to_repr()), (big(a) * big(a)) % &m);
                assert_eq!(big(x.neg().to_repr()), (&m - big(a) % &m) % &m);
                assert_eq!(big((x + y).to_repr()), (big(a) + big(b)) % &m);
                assert_eq!(big((x * y).to_repr()), (big(a) * big(b)) % &m);
                assert_eq!(x - y, x + (-y));
                let (p, q) = (reduce(a), reduce(b));
                assert_eq!(big(add_mod(p, q)), (big(p) + big(q)) % &m);
                assert_eq!(big(sub_mod(p, q)), (big(p) + &m - big(q)) % &m);
                assert_eq!(big(mul_mod(p, b)), (big(p) * big(b)) % &m);
                Ok(())
            },
        )
        .unwrap();
}

#[test]
fn fp252_exp_and_inv() {
    let m = modulus();
    let zero = small(0);
    let one = small(1);
    assert_eq!(one, zero.exp(U256::new(0, 0)));
    assert_eq!(zero, zero.exp(U256::new(0, 1)));
    assert_eq!(zero, zero.inv());
    assert_eq!(one, one.inv());
    let mut runner = TestRunner::default();
    runner
        .run(&(any::<u128>(), any::<u128>(), any::<u128>()), |(ah, al, e)| {
            let a = U256 { hi: ah, lo: al };
            let x = BaseElement::new(a);
            let power = U256 { hi: e >> 100, lo: e };
            assert_eq!(big(x.exp(power).to_repr()), big(a).modpow(&big(power), &m));
            Ok(())
        })
        .unwrap();
    for v in [1u128, 2, 3, 12345678901234567890, u128::MAX] {
        let x = BaseElement::new(U256 { hi: v >> 5, lo: v });
        assert_eq!(one, x * x.inv());
        assert_eq!(one, x / x);
        assert_eq!(x.inv(), one / x);
    }
    let values = vec![small(1), small(2), small(0), small(3)];
    let inverses = batch_inversion(&values);
    assert_eq!(vec![one, small(2).inv(), zero, small(3).inv()], inverses);
}

#[test]
fn fp252_roots_of_unity() {
    let one = small(1);
    let root = BaseElement::get_root_of_unity(192);
    assert_eq!(U256 { hi: G_HI, lo: G_LO }, root.inner());
    assert_eq!(one, root.exp(U256 { hi: 1 << 64, lo: 0 }));
    assert_eq!(one.neg(), root.exp(U256 { hi: 1 << 63, lo: 0 }));
    let root = BaseElement::get_root_of_unity(3);
    assert_eq!(one, root.exp(U256::new(0, 8)));
    assert_ne!(one, root.exp(U256::new(0, 4)));
    assert_eq!(one, BaseElement::get_root_of_unity(0));
    assert_eq!(one.neg(), BaseElement::get_root_of_unity(1));
    assert_eq!(
        BaseElement::get_root_of_unity(150),
        BaseElement::get_root_of_unity(151).square()
    );
}

#[test]
fn fp252_bytes() {
    let a = BaseElement::new(U256 { hi: 0x0123_4567_89ab_cdef, lo: 0xfedc_ba98_7654_3210 });
    let bytes = a.to_bytes();
    assert_eq!(32, bytes.len());
    assert_eq!(0x10, bytes[0]);
    assert_eq!(0xef, bytes[16]);
    assert_eq!(bytes, a.as_bytes());
    assert_eq!(bytes, encode_bytes(a.inner()));
    assert_eq!(Some(a.inner()), decode_256(&bytes));
    assert_eq!(None, decode_256(&bytes[..31]));
    assert_eq!(Ok(a), BaseElement::try_from(&bytes));
    assert_eq!(Some(a), BaseElement::from_random_bytes(&bytes));
    assert_eq!(
        Err(SerializationError::InvalidFieldElement),
        BaseElement::try_from(&bytes[..31])
    );
    let at_modulus = encode_bytes(modulus_repr());
    assert_eq!(
        Err(SerializationError::InvalidFieldElement),
        BaseElement::try_from(&at_modulus)
    );
    let below = encode_bytes(modulus_repr().minus(U256::new(0, 1)));
    assert_eq!(Ok(small(1).neg()), BaseElement::try_from(&below));
    // bytes taken as they are may hold an integer above the modulus
    let raw = BaseElement::from_raw_bytes(&[255u8; 32]);
    assert_eq!(U256 { hi: u128::MAX, lo: u128::MAX }, raw.inner());
    assert_eq!(vec![255u8; 32], raw.to_raw_bytes());
    assert_ne!(raw.to_raw_bytes(), raw.to_bytes());
    assert_eq!(raw.as_bytes(), raw.to_bytes());
    assert_eq!(Ok(raw), BaseElement::try_from(&raw.as_bytes()));
    let mut normalized = raw;
    normalized.normalize();
    assert_eq!(raw, normalized);
    assert!(normalized.inner().lt(modulus_repr()));
    let elements = vec![a, raw, normalized];
    let held = BaseElement::elements_as_bytes(&elements);
    assert_eq!(96, held.len());
    let back = bytes_as_elements_at::<BaseElement>(&held, 64).unwrap();
    assert_eq!(
        Err(SerializationError::InvalidAlignment),
        bytes_as_elements_at::<BaseElement>(&held, 16)
    );
    assert_eq!(
        Err(SerializationError::InvalidLength),
        BaseElement::bytes_as_elements(&held[..95])
    );
    assert_eq!(held, BaseElement::elements_as_bytes(&back));
    assert_eq!(raw.inner(), back[1].inner());
    assert_eq!(vec![small(0); 2], BaseElement::zeroed_vector(2));
}

#[test]
fn fp252_text() {
    assert_eq!("0", small(0).to_string());
    assert_eq!(
        "340282366920938463463374607431768211456",
        small(u128::MAX).add(small(1)).to_string()
    );
    assert_eq!(
        "3618502788666131213697322783095070105623107215331596699973092056135872020480",
        small(1).neg().to_string()
    );
    assert_eq!(modulus().to_string(), decimal_string_256(modulus_repr()));
    let v = U256 { hi: 123456789, lo: 987654321 };
    let (q, r) = div10(v);
    assert_eq!(big(v) / 10u8, big(q));
    assert_eq!(big(v) % 10u8, BigUint::from(r));
    let top = U256 { hi: u128::MAX, lo: u128::MAX };
    let (q, r) = div10(top);
    assert_eq!(big(top) / 10u8, big(q));
    assert_eq!(5, r);
}

use stark_core::field::fp128;
use stark_core::field::fp62;
use stark_core::field::fp64;
use stark_core::field::modular::{inv_mod, mul_mod};
use stark_core::field::power::exp_by_squaring;
use stark_core::field::quadratic::QuadExtensionA;
use stark_core::field::traits::{FieldElement, StarkField};
use stark_core::text::{decimal_string, digit_text};
use stark_core::field::cubic::CubeExtension;
use stark_core::utils::{
    batch_inversion, batch_inversion_over, get_power_series_with_offset, is_power_of_two, log2,
    next_power_of_two,
};
use winter_rand_utils::rand_vector;

#[test]
fn powers_of_two() {
    assert!(!is_power_of_two(0));
    assert!(is_power_of_two(1));
    assert!(is_power_of_two(2));
    assert!(!is_power_of_two(3));
    assert!(is_power_of_two(1 << 40));
    assert!(!is_power_of_two((1 << 40) + 2));
    assert!(is_power_of_two(usize::MAX / 2 + 1));
    assert!(!is_power_of_two(usize::MAX));

    assert_eq!(1, next_power_of_two(0));
    assert_eq!(1, next_power_of_two(1));
    assert_eq!(2, next_power_of_two(2));
    assert_eq!(4, next_power_of_two(3));
    assert_eq!(8, next_power_of_two(8));
    assert_eq!(16, next_power_of_two(9));
    assert_eq!(usize::MAX / 2 + 1, next_power_of_two(usize::MAX / 2));
    assert_eq!(usize::MAX / 2 + 1, next_power_of_two(usize::MAX / 2 + 1));
    for n in 0..1000usize {
        assert_eq!(n.next_power_of_two(), next_power_of_two(n));
        assert_eq!(n.is_power_of_two(), is_power_of_two(n));
    }

    assert_eq!(0, log2(1));
    assert_eq!(1, log2(2));
    assert_eq!(3, log2(8));
    assert_eq!(40, log2(1 << 40));
}

#[test]
fn batch_inversion_of_one_two_zero_three() {
    fn check<B: StarkField + PartialEq + core::fmt::Debug>() {
        let input = vec![B::from_u128(1), B::from_u128(2), B::from_u128(0), B::from_u128(3)];
        let result = batch_inversion(&input);
        assert_eq!(
            vec![B::one(), B::from_u128(2).inv(), B::zero(), B::from_u128(3).inv()],
            result
        );
        let products: Vec<B> = input.iter().zip(result.iter()).map(|(x, y)| x.mul(*y)).collect();
        assert_eq!(vec![B::one(), B::one(), B::zero(), B::one()], products);
    }
    check::<fp62::BaseElement>();
    check::<fp64::BaseElement>();
    check::<fp128::BaseElement>();
}

#[test]
fn batch_inversion_edge_cases() {
    let empty: Vec<fp64::BaseElement> = Vec::new();
    assert!(batch_inversion(&empty).is_empty());
    let zeros = vec![fp64::BaseElement::new(0); 3];
    assert_eq!(zeros, batch_inversion(&zeros));
    let values: Vec<fp128::BaseElement> =
        rand_vector::<u128>(200).into_iter().map(fp128::BaseElement::new).collect();
    let inverses = batch_inversion(&values);
    for (x, y) in values.iter().zip(inverses.iter()) {
        assert_eq!(StarkField::inv(*x), *y);
    }
}

#[test]
fn batch_inversion_over_prime_fields() {
    fn check<B: StarkField + FieldElement + PartialEq + core::fmt::Debug>() {
        let input = vec![B::from_u128(1), B::from_u128(2), B::from_u128(0), B::from_u128(3)];
        let result = batch_inversion_over(&input);
        assert_eq!(batch_inversion(&input), result);
        let products: Vec<B> =
            input.iter().zip(result.iter()).map(|(x, y)| StarkField::mul(*x, *y)).collect();
        assert_eq!(
            vec![
                <B as StarkField>::one(),
                <B as StarkField>::one(),
                <B as StarkField>::zero(),
                <B as StarkField>::one()
            ],
            products
        );
    }
    check::<fp62::BaseElement>();
    check::<fp64::BaseElement>();
    check::<fp128::BaseElement>();
    let empty: Vec<fp64::BaseElement> = Vec::new();
    assert!(batch_inversion_over(&empty).is_empty());
}

#[test]
fn batch_inversion_over_quadratic_extension() {
    type Quad = QuadExtensionA<fp128::BaseElement>;
    let b = fp128::BaseElement::new;
    let zero = Quad::zero();
    let one = Quad::one();
    let input = vec![
        zero,
        QuadExtensionA(b(1), b(0)),
        QuadExtensionA(b(0), b(1)),
        zero,
        QuadExtensionA(b(7), b(9)),
        QuadExtensionA(b(u128::MAX), b(3)),
        zero,
    ];
    let result = batch_inversion_over(&input);
    assert_eq!(input.len(), result.len());
    for (x, y) in input.iter().zip(result.iter()) {
        assert_eq!(FieldElement::inv(*x), *y);
        if *x == zero {
            assert_eq!(zero, *y);
            assert_eq!(zero, *x * *y);
        } else {
            assert_eq!(one, *x * *y);
        }
    }
    assert_eq!(one, result[1]);
    let zeros = vec![zero; 3];
    assert_eq!(zeros, batch_inversion_over(&zeros));
}

#[test]
fn batch_inversion_over_cubic_extension() {
    type Cube = CubeExtension<fp64::BaseElement>;
    let b = fp64::BaseElement::new;
    let zero = Cube::zero();
    let one = Cube::one();
    let input = vec![
        CubeExtension(b(1), b(2), b(3)),
        zero,
        CubeExtension(b(0), b(1), b(0)),
        CubeExtension(b(0), b(0), b(5)),
        CubeExtension(b(u64::MAX), b(0), b(0)),
    ];
    let result = batch_inversion_over(&input);
    assert_eq!(input.len(), result.len());
    for (x, y) in input.iter().zip(result.iter()) {
        assert_eq!(FieldElement::inv(*x), *y);
        if *x == zero {
            assert_eq!(zero, *y);
        } else {
            assert_eq!(one, *x * *y);
        }
    }
}

#[test]
fn power_series_with_offset() {
    let b = fp64::BaseElement::new(3);
    let s = fp64::BaseElement::new(5);
    let series = get_power_series_with_offset(b, s, 5);
    let expected: Vec<fp64::BaseElement> =
        [5u64, 15, 45, 135, 405].iter().map(|v| fp64::BaseElement::new(*v)).collect();
    assert_eq!(expected, series);
    assert!(get_power_series_with_offset(b, s, 0).is_empty());

    let b = QuadExtensionA(fp128::BaseElement::new(2), fp128::BaseElement::new(1));
    let s = QuadExtensionA(fp128::BaseElement::new(7), fp128::BaseElement::new(9));
    let series = get_power_series_with_offset(b, s, 4);
    assert_eq!(s, series[0]);
    assert_eq!(s.mul(b), series[1]);
    assert_eq!(s.mul(b.mul(b)), series[2]);
    assert_eq!(s.mul(exp_by_squaring(b, 3)), series[3]);
}

#[test]
fn modular_helpers() {
    assert_eq!(6, mul_mod(4, 5, 7));
    assert_eq!(0, mul_mod(u64::MAX, 0, 7));
    assert_eq!(1, mul_mod(u64::MAX, u64::MAX, u64::MAX - 1));
    // 3 * 5 == 15 == 1 (mod 7)
    assert_eq!(5, inv_mod(3, 7));
    assert_eq!(0, inv_mod(0, 7));
    // shares the factor 3 with the modulus
    assert_eq!(0, inv_mod(6, 9));
    assert_eq!(5, inv_mod(2, 9));
    for x in 1..fp64::M.min(2000) {
        assert_eq!(1, mul_mod(x, inv_mod(x, fp64::M), fp64::M));
    }
}

#[test]
fn decimal_text() {
    assert_eq!("0", decimal_string(0));
    assert_eq!("7", decimal_string(7));
    assert_eq!("10", decimal_string(10));
    assert_eq!("1234567890", decimal_string(1234567890));
    assert_eq!(u128::MAX.to_string(), decimal_string(u128::MAX));
    assert_eq!("9", digit_text(9));
    assert_eq!("0", digit_text(0));
}

use core::cmp::Ordering;
use stark_core::assertions::sorting::sort;
use stark_core::assertions::{validate_stride, Assertion};
use stark_core::errors::{AssertionError, StrideError};
use stark_core::field::fp128::BaseElement;

fn e(v: u128) -> BaseElement {
    BaseElement::new(v)
}

fn applied(a: &Assertion<BaseElement>, trace_length: usize) -> Vec<(usize, BaseElement)> {
    let mut calls = Vec::new();
    a.apply(trace_length, |step, value| calls.push((step, value)));
    calls
}

// KINDS OF ASSERTIONS
// ------------------------------------------------------------------------------------------------

#[test]
fn single_assertion_on_a_trace_of_16_steps() {
    let a = Assertion::single(2, 5, e(7));
    assert_eq!(2, a.register());
    assert_eq!(5, a.first_step());
    assert_eq!(0, a.stride());
    assert_eq!(&[e(7)], a.values());
    assert!(a.is_single());
    assert!(!a.is_periodic());
    assert!(!a.is_sequence());

    assert_eq!(Ok(()), a.validate_trace_width(4));
    assert_eq!(Ok(()), a.validate_trace_width(3));
    assert_eq!(Err(AssertionError::TraceWidthTooShort(2, 2)), a.validate_trace_width(2));
    assert_eq!(Ok(()), a.validate_trace_length(16));
    assert_eq!(Ok(()), a.validate_trace_length(8));
    assert_eq!(
        Err(AssertionError::TraceLengthNotPowerOfTwo(15)),
        a.validate_trace_length(15)
    );
    assert_eq!(Err(AssertionError::TraceLengthNotPowerOfTwo(0)), a.validate_trace_length(0));
    assert_eq!(Err(AssertionError::TraceLengthTooShort(8, 4)), a.validate_trace_length(4));
    assert_eq!(vec![(5, e(7))], applied(&a, 16));
    assert_eq!(1, a.get_num_steps(16));
    assert_eq!(vec![(5, e(7))], a.steps(16));
}

#[test]
fn single_assertion_too_short_trace_names_next_power_of_two() {
    // the step itself a power of two: the trace must be twice as long
    let a = Assertion::single(0, 8, e(1));
    assert_eq!(Err(AssertionError::TraceLengthTooShort(16, 8)), a.validate_trace_length(8));
    let a = Assertion::single(0, 7, e(1));
    assert_eq!(Err(AssertionError::TraceLengthTooShort(8, 4)), a.validate_trace_length(4));
    let a = Assertion::single(0, 1, e(1));
    assert_eq!(Err(AssertionError::TraceLengthTooShort(2, 1)), a.validate_trace_length(1));
    let a = Assertion::single(0, 0, e(1));
    assert_eq!(Ok(()), a.validate_trace_length(1));
}

#[test]
fn periodic_assertion() {
    let a = Assertion::periodic(0, 1, 8, e(42));
    assert!(a.is_periodic());
    assert!(!a.is_single());
    assert!(!a.is_sequence());
    assert_eq!(8, a.stride());
    assert_eq!(Ok(()), a.validate_trace_length(32));
    assert_eq!(Ok(()), a.validate_trace_length(8));
    assert_eq!(Err(AssertionError::TraceLengthTooShort(8, 4)), a.validate_trace_length(4));
    assert_eq!(
        vec![(1, e(42)), (9, e(42)), (17, e(42)), (25, e(42))],
        applied(&a, 32)
    );
    assert_eq!(4, a.get_num_steps(32));
    assert_eq!(1, a.get_num_steps(8));
    assert_eq!((17, e(42)), a.get_step(32, 2));
}

#[test]
fn stride_validation() {
    assert_eq!(Ok(()), validate_stride(8, 1, 0));
    assert_eq!(Ok(()), validate_stride(2, 1, 0));
    assert_eq!(Err(StrideError::NotPowerOfTwo(3, 6)), validate_stride(6, 1, 3));
    assert_eq!(Err(StrideError::NotPowerOfTwo(3, 0)), validate_stride(0, 0, 3));
    assert_eq!(Err(StrideError::TooSmall(3, 1)), validate_stride(1, 0, 3));
    assert_eq!(Err(StrideError::FirstStepTooLarge(3, 8, 8)), validate_stride(8, 8, 3));
    assert_eq!(Err(StrideError::FirstStepTooLarge(3, 8, 9)), validate_stride(8, 9, 3));
}

#[test]
fn sequence_assertion() {
    let a = Assertion::sequence(1, 0, 4, vec![e(10), e(20), e(30), e(40)]);
    assert!(a.is_sequence());
    assert!(!a.is_single());
    assert!(!a.is_periodic());
    assert_eq!(Ok(()), a.validate_trace_length(16));
    assert_eq!(Err(AssertionError::TraceLengthNotExact(16, 8)), a.validate_trace_length(8));
    assert_eq!(Err(AssertionError::TraceLengthNotExact(16, 32)), a.validate_trace_length(32));
    assert_eq!(
        vec![(0, e(10)), (4, e(20)), (8, e(30)), (12, e(40))],
        applied(&a, 16)
    );
    assert_eq!(4, a.get_num_steps(16));

    let a = Assertion::sequence(1, 0, 4, vec![e(7)]);
    assert!(a.is_single());
    assert_eq!(0, a.first_step());
    assert_eq!(0, a.stride());
    assert_eq!(&[e(7)], a.values());
    assert_eq!(Assertion::single(1, 0, e(7)), a);
}

#[test]
fn overlap() {
    let p = |first_step: usize, stride: usize| Assertion::periodic(0, first_step, stride, e(1));
    // equal first steps
    assert!(p(0, 4).overlaps_with(&p(0, 8)));
    // the later start is reached by the finer stride
    assert!(p(0, 4).overlaps_with(&p(4, 8)));
    assert!(p(4, 8).overlaps_with(&p(0, 4)));
    // equal strides, different first steps
    assert!(!p(1, 4).overlaps_with(&p(2, 4)));
    // the later start is not reached
    assert!(!p(0, 4).overlaps_with(&p(5, 8)));
    // the coarser stride starts first
    assert!(!p(1, 8).overlaps_with(&p(3, 4)));
    // different registers
    assert!(!p(0, 4).overlaps_with(&Assertion::periodic(1, 0, 4, e(1))));

    let s = |step: usize| Assertion::single(0, step, e(1));
    assert!(s(3).overlaps_with(&s(3)));
    assert!(!s(3).overlaps_with(&s(4)));
    assert!(!s(3).overlaps_with(&Assertion::single(1, 3, e(1))));
    assert!(p(1, 4).overlaps_with(&s(9)));
    assert!(s(9).overlaps_with(&p(1, 4)));
    assert!(!p(1, 4).overlaps_with(&s(10)));
    assert!(!s(0).overlaps_with(&p(1, 4)));
    assert!(!p(1, 4).overlaps_with(&s(0)));

    let q = Assertion::sequence(0, 1, 4, vec![e(1), e(2)]);
    assert!(q.overlaps_with(&s(5)));
    assert!(q.overlaps_with(&q.clone()));
}

#[test]
fn overlap_matches_shared_steps() {
    // against traces of 32 steps, assertions overlap exactly when they share a step
    let mut all = Vec::new();
    for step in 0..32 {
        all.push(Assertion::single(0, step, e(1)));
    }
    for stride in [2usize, 4, 8, 16, 32] {
        for first in 0..stride {
            all.push(Assertion::periodic(0, first, stride, e(1)));
        }
    }
    for a in all.iter() {
        for b in all.iter() {
            let sa: Vec<usize> = a.steps(32).into_iter().map(|p| p.0).collect();
            let sb: Vec<usize> = b.steps(32).into_iter().map(|p| p.0).collect();
            let shared = sa.iter().any(|s| sb.contains(s));
            assert_eq!(shared, a.overlaps_with(b), "{} {}", a.to_string(), b.to_string());
            assert_eq!(a.overlaps_with(b), b.overlaps_with(a));
        }
        assert!(a.overlaps_with(a));
    }
}

#[test]
fn steps_are_distinct_within_trace_and_congruent() {
    let cases = vec![
        (Assertion::single(0, 5, e(1)), 16usize),
        (Assertion::periodic(0, 3, 4, e(1)), 64),
        (Assertion::periodic(0, 0, 2, e(1)), 2),
        (Assertion::sequence(0, 1, 8, vec![e(1), e(2), e(3), e(4)]), 32),
    ];
    for (a, len) in cases {
        let steps: Vec<usize> = applied(&a, len).into_iter().map(|p| p.0).collect();
        assert_eq!(a.get_num_steps(len), steps.len());
        for i in 0..steps.len() {
            assert!(steps[i] < len);
            if a.stride() > 0 {
                assert_eq!(a.first_step() % a.stride(), steps[i] % a.stride());
            }
            for j in 0..i {
                assert!(steps[j] < steps[i]);
            }
        }
    }
}

// ORDER AND TEXT
// ------------------------------------------------------------------------------------------------

#[test]
fn order_is_by_stride_then_first_step_then_register() {
    let a = Assertion::single(5, 9, e(1));
    let b = Assertion::periodic(0, 0, 2, e(1));
    let c = Assertion::periodic(0, 1, 2, e(1));
    let d = Assertion::periodic(1, 1, 2, e(1));
    let f = Assertion::periodic(0, 0, 4, e(1));
    assert_eq!(Ordering::Less, a.compare_to(&b));
    assert_eq!(Ordering::Less, b.compare_to(&c));
    assert_eq!(Ordering::Less, c.compare_to(&d));
    assert_eq!(Ordering::Less, d.compare_to(&f));
    assert_eq!(Ordering::Greater, f.compare_to(&a));
    assert_eq!(Ordering::Equal, c.compare_to(&Assertion::periodic(0, 1, 2, e(9))));
    assert_eq!(Some(Ordering::Less), a.partial_cmp(&b));
    assert!(a < b && b < c && c < d && d < f);

    // a stable sort keeps assertions that compare equal in their order
    let mut list = vec![
        f.clone(),
        Assertion::periodic(0, 1, 2, e(2)),
        d.clone(),
        a.clone(),
        Assertion::periodic(0, 1, 2, e(3)),
        b.clone(),
    ];
    list.sort_by(|x, y| x.compare_to(y));
    assert_eq!(
        vec![
            a,
            b,
            Assertion::periodic(0, 1, 2, e(2)),
            Assertion::periodic(0, 1, 2, e(3)),
            d,
            f
        ],
        list
    );
}

#[test]
fn text() {
    assert_eq!(
        "(register=2, step=5, value=7)",
        Assertion::single(2, 5, e(7)).to_string()
    );
    assert_eq!(
        "(register=0, steps=[1, 9, ...], value=42)",
        Assertion::periodic(0, 1, 8, e(42)).to_string()
    );
    assert_eq!(
        "(register=1, steps=[0, 4, ...], values=[10, 20])",
        Assertion::sequence(1, 0, 4, vec![e(10), e(20)]).to_string()
    );
    assert_eq!(
        "(register=1, steps=[0, 4, ...], values=[10, 20, ...])",
        Assertion::sequence(1, 0, 4, vec![e(10), e(20), e(30), e(40)]).to_string()
    );
}

#[test]
fn sort_is_stable_and_by_stride_first_step_register() {
    let list = vec![
        Assertion::periodic(0, 0, 4, e(1)),
        Assertion::periodic(0, 1, 2, e(2)),
        Assertion::periodic(1, 1, 2, e(3)),
        Assertion::single(5, 9, e(4)),
        Assertion::periodic(0, 1, 2, e(5)),
        Assertion::periodic(0, 0, 2, e(6)),
        Assertion::single(5, 9, e(7)),
        Assertion::single(4, 9, e(8)),
        Assertion::sequence(3, 0, 2, vec![e(9), e(10)]),
    ];
    let sorted = sort(&list);
    let values: Vec<BaseElement> = sorted.iter().map(|a| a.values()[0]).collect();
    assert_eq!(vec![e(8), e(4), e(7), e(6), e(9), e(2), e(5), e(3), e(1)], values);
    for pair in sorted.windows(2) {
        assert_ne!(Ordering::Greater, pair[0].compare_to(&pair[1]));
        assert!(!pair[0].comes_after(&pair[1]));
    }
    let mut by_std = list.clone();
    by_std.sort_by(|x, y| x.compare_to(y));
    assert_eq!(by_std, sorted);
    assert!(sort::<BaseElement>(&[]).is_empty());
    assert_eq!(vec![list[0].clone()], sort(&list[..1]));
}

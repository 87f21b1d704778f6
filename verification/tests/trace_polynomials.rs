use stark_core::field::fp128::BaseElement;
use stark_core::field::fp64;
use stark_core::field::quadratic::QuadExtensionA;
use stark_core::field::traits::{FieldElement, StarkField};
use stark_core::matrix::Matrix;
use stark_core::polynom::{eval, eval_lifted};
use stark_core::trace::poly_table::TracePolyTable;

type Quad = QuadExtensionA<BaseElement>;

fn b(v: u128) -> BaseElement {
    BaseElement::new(v)
}

fn naive(p: &[BaseElement], x: Quad) -> Quad {
    let mut power = Quad::one();
    let mut sum = Quad::zero();
    for c in p {
        sum = sum.add(power.mul(Quad::from_base(*c)));
        power = power.mul(x);
    }
    sum
}

fn main_polys() -> Vec<Vec<BaseElement>> {
    vec![
        (1..=8u128).map(b).collect(),
        (1..=8u128).map(|v| b(v * v + 7)).collect(),
    ]
}

#[test]
fn polynomial_evaluation() {
    let x = QuadExtensionA(b(3), b(5));
    let p: Vec<BaseElement> = vec![b(4), b(0), b(2)];
    // 4 + 2 * x^2
    let expected = Quad::from_base(b(4)).add(Quad::from_base(b(2)).mul(x.mul(x)));
    assert_eq!(expected, eval_lifted(&p, x));
    let lifted: Vec<Quad> = p.iter().map(|c| Quad::from_base(*c)).collect();
    assert_eq!(expected, eval(&lifted, x));
    assert_eq!(Quad::zero(), eval_lifted::<Quad>(&[], x));
    assert_eq!(Quad::from_base(b(4)), eval_lifted(&[b(4)], x));
    // over the base field itself
    let y = fp64::BaseElement::new(10);
    let q: Vec<fp64::BaseElement> = [1u64, 2, 3].iter().map(|v| fp64::BaseElement::new(*v)).collect();
    assert_eq!(fp64::BaseElement::new(321), eval(&q, y));
    assert_eq!(fp64::BaseElement::new(321), eval_lifted::<fp64::BaseElement>(&q, y));
}

#[test]
fn matrix() {
    assert!(Matrix::is_valid(&main_polys()));
    assert!(!Matrix::<BaseElement>::is_valid(&vec![]));
    assert!(!Matrix::<BaseElement>::is_valid(&vec![vec![]]));
    assert!(!Matrix::is_valid(&vec![vec![b(1), b(2)], vec![b(1)]]));
    let m = Matrix::new(main_polys());
    assert_eq!(2, m.num_cols());
    assert_eq!(8, m.num_rows());
    assert_eq!(main_polys()[1].as_slice(), m.get_column(1));
    assert_eq!(b(3 * 3 + 7), m.get(1, 2));
    assert_eq!(&main_polys(), m.columns());
}

#[test]
fn table_accessors() {
    let mut table = TracePolyTable::<Quad>::new(Matrix::new(main_polys()));
    assert_eq!(8, table.poly_size());
    assert_eq!(2, table.num_main_trace_polys());
    assert_eq!(main_polys()[0].as_slice(), table.get_main_trace_poly(0));
    assert_eq!(&main_polys(), table.main_trace_polys());
    assert_eq!(0, table.num_aux_segments());
    assert!(table.aux_trace_polys().is_empty());

    let first: Vec<Vec<Quad>> = vec![(0..8u128).map(|v| QuadExtensionA(b(v), b(v + 1))).collect()];
    let second: Vec<Vec<Quad>> = vec![
        (0..8u128).map(|v| QuadExtensionA(b(2 * v), b(3))).collect(),
        (0..8u128).map(|v| QuadExtensionA(b(5), b(v * v))).collect(),
    ];
    table.add_aux_segment(Matrix::new(first.clone()));
    table.add_aux_segment(Matrix::new(second.clone()));
    assert_eq!(2, table.num_aux_segments());
    assert_eq!(&second, table.get_aux_segment(1));
    assert_eq!(
        vec![first[0].clone(), second[0].clone(), second[1].clone()],
        table.aux_trace_polys()
    );
    assert_eq!(8, table.poly_size());
}

#[test]
fn evaluation_at_a_point() {
    let mut table = TracePolyTable::<Quad>::new(Matrix::new(main_polys()));
    let z = QuadExtensionA(b(11), b(13));
    assert_eq!(
        vec![naive(&main_polys()[0], z), naive(&main_polys()[1], z)],
        table.evaluate_at(z)
    );
    let aux: Vec<Vec<Quad>> = vec![(0..8u128).map(|v| QuadExtensionA(b(v), b(v + 1))).collect()];
    table.add_aux_segment(Matrix::new(aux.clone()));
    assert_eq!(
        vec![naive(&main_polys()[0], z), naive(&main_polys()[1], z), eval(&aux[0], z)],
        table.evaluate_at(z)
    );
}

#[test]
fn out_of_domain_frame() {
    let table = TracePolyTable::<Quad>::new(Matrix::new(main_polys()));
    let z = QuadExtensionA(b(11), b(13));
    let g = Quad::from_base(BaseElement::get_root_of_unity(3));
    assert_eq!(Quad::one(), g.exp(8));
    assert_ne!(Quad::one(), g.exp(4));
    let p = main_polys();

    let frame = table.get_ood_frame(z, 2, 1);
    assert_eq!(
        vec![
            vec![naive(&p[0], z), naive(&p[1], z), naive(&p[0], z.mul(g)), naive(&p[1], z.mul(g))],
            vec![naive(&p[0], z.mul(g)), naive(&p[1], z.mul(g))],
        ],
        frame
    );

    // no power: nothing in the first part; no shift: the second part is at the point itself
    let frame = table.get_ood_frame(z, 0, 0);
    assert_eq!(2, frame.len());
    assert!(frame[0].is_empty());
    assert_eq!(vec![naive(&p[0], z), naive(&p[1], z)], frame[1]);

    let frame = table.get_ood_frame(z, 3, 5);
    assert_eq!(6, frame[0].len());
    assert_eq!(naive(&p[1], z.mul(g.mul(g))), frame[0][5]);
    assert_eq!(vec![naive(&p[0], z.mul(g.exp(5))), naive(&p[1], z.mul(g.exp(5)))], frame[1]);
}

#[test]
fn out_of_domain_frame_over_the_base_field() {
    let columns: Vec<Vec<fp64::BaseElement>> =
        vec![[3u64, 1, 4, 1].iter().map(|v| fp64::BaseElement::new(*v)).collect()];
    let table = TracePolyTable::<fp64::BaseElement>::new(Matrix::new(columns.clone()));
    let z = fp64::BaseElement::new(12345);
    let g = fp64::BaseElement::get_root_of_unity(2);
    let frame = table.get_ood_frame(z, 1, 2);
    assert_eq!(vec![eval(&columns[0], z)], frame[0]);
    assert_eq!(vec![eval(&columns[0], StarkField::mul(z, StarkField::mul(g, g)))], frame[1]);
}

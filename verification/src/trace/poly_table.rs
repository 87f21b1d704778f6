//! The table of trace polynomials: for each column of each segment of an
//! execution trace the polynomial that interpolates it, in coefficient form.

use vstd::prelude::*;
use vstd::arithmetic::power2::{is_pow2, pow2};
use crate::field::modular::fpow;
use crate::field::power::exp_by_squaring;
use crate::field::traits::{FieldElement, StarkField, lift_coeffs};
use crate::matrix::Matrix;
use crate::polynom::{eval, eval_lifted, eval_spec, lifted_coeffs, poly_coeffs};
use crate::utils::{get_power_series_with_offset, log2, log2_spec};

verus! {

/// The coefficient vectors of the polynomials of a segment over the base field
/// of `E`, each coefficient taken into the field of `E`.
pub open spec fn main_polys<E: FieldElement>(segment: Seq<Seq<E::BaseField>>) -> Seq<Seq<Seq<int>>> {
    Seq::new(segment.len(), |j: int| lifted_coeffs::<E>(segment[j]))
}

/// The coefficient vectors of the polynomials of a segment over the field of
/// `E`.
pub open spec fn segment_polys<E: FieldElement>(segment: Seq<Seq<E>>) -> Seq<Seq<Seq<int>>> {
    Seq::new(segment.len(), |j: int| poly_coeffs(segment[j]))
}

/// The columns of all the segments, those of an earlier segment first.
pub open spec fn all_columns<E>(segments: Seq<Seq<Seq<E>>>) -> Seq<Seq<E>>
    decreases segments.len(),
{
    if segments.len() == 0 {
        Seq::empty()
    } else {
        all_columns(segments.drop_last()) + segments.last()
    }
}

/// The polynomials of all the segments, those of an earlier segment first.
pub open spec fn aux_polys<E: FieldElement>(segments: Seq<Seq<Seq<E>>>) -> Seq<Seq<Seq<int>>>
    decreases segments.len(),
{
    if segments.len() == 0 {
        Seq::empty()
    } else {
        aux_polys(segments.drop_last()) + segment_polys(segments.last())
    }
}

/// The polynomials of all the segments are those of all their columns.
pub proof fn lemma_aux_polys<E: FieldElement>(segments: Seq<Seq<Seq<E>>>)
    ensures
        aux_polys(segments) == segment_polys(all_columns(segments)),
    decreases segments.len(),
{
    if segments.len() == 0 {
        assert(segment_polys::<E>(Seq::empty()) =~= Seq::empty());
    } else {
        lemma_aux_polys(segments.drop_last());
        assert(segment_polys(all_columns(segments.drop_last()) + segments.last())
            =~= segment_polys(all_columns(segments.drop_last())) + segment_polys(
            segments.last(),
        ));
    }
}

/// The values of the polynomials at `x`, in the order of the polynomials.
pub open spec fn evaluations<E: FieldElement>(polys: Seq<Seq<Seq<int>>>, x: Seq<int>) -> Seq<
    Seq<int>,
> {
    Seq::new(polys.len(), |j: int| eval_spec::<E>(polys[j], x))
}

/// The point `z * g^i`.
pub open spec fn frame_point<E: FieldElement>(z: Seq<int>, g: Seq<int>, i: nat) -> Seq<int> {
    E::mul_spec(z, E::pow_spec(g, i))
}

/// The values of the polynomials at `z`, then at `z * g`, and so on up to
/// `z * g^(k - 1)`.
pub open spec fn frame_rows<E: FieldElement>(
    polys: Seq<Seq<Seq<int>>>,
    z: Seq<int>,
    g: Seq<int>,
    k: nat,
) -> Seq<Seq<int>>
    decreases k,
{
    if k == 0 {
        Seq::empty()
    } else {
        frame_rows::<E>(polys, z, g, (k - 1) as nat) + evaluations::<E>(
            polys,
            frame_point::<E>(z, g, (k - 1) as nat),
        )
    }
}

/// The generator of the trace domain of `size` steps, in the field of `E`: the
/// root of unity of order `size` of the base field.
pub open spec fn domain_generator<E: FieldElement>(size: int) -> Seq<int> {
    lift_coeffs(
        fpow(
            E::BaseField::two_adic_root(),
            pow2((E::BaseField::two_adicity() - log2_spec(size)) as nat),
            E::BaseField::modulus(),
        ),
        E::degree(),
    )
}

/// Trace polynomials in coefficient form for all segments of the execution
/// trace: those of the main segment over the base field, and those of the
/// auxiliary segments over the field of `E`.
pub struct TracePolyTable<E: FieldElement> {
    main_segment_polys: Matrix<E::BaseField>,
    aux_segment_polys: Vec<Matrix<E>>,
}

impl<E: FieldElement> TracePolyTable<E> {
    /// The polynomials of the main segment.
    pub closed spec fn main_segment(&self) -> Seq<Seq<E::BaseField>> {
        self.main_segment_polys@
    }

    /// The auxiliary segments, in the order in which they were added.
    pub closed spec fn aux_segments(&self) -> Seq<Seq<Seq<E>>> {
        Seq::new(self.aux_segment_polys@.len(), |k: int| self.aux_segment_polys@[k]@)
    }

    /// Number of coefficients of each polynomial: the length of the trace.
    pub closed spec fn size(&self) -> nat {
        self.main_segment_polys.rows()
    }

    /// All polynomials of the table over the field of `E`: those of the main
    /// segment, then those of each auxiliary segment.
    pub open spec fn polys(&self) -> Seq<Seq<Seq<int>>> {
        main_polys::<E>(self.main_segment()) + aux_polys::<E>(self.aux_segments())
    }

    /// The invariant of the table: the number of coefficients of the
    /// polynomials is a power of two and the same in every segment.
    pub closed spec fn wf(&self) -> bool {
        &&& is_pow2(self.main_segment_polys.rows() as int)
        &&& self.main_segment_polys@.len() > 0
        &&& forall|k: int|
            0 <= k < self.aux_segment_polys@.len() ==> (
            #[trigger] self.aux_segment_polys@[k]).rows() == self.main_segment_polys.rows()
    }

    /// A table with the given polynomials of the main segment and no auxiliary
    /// segment.
    pub fn new(main_trace_polys: Matrix<E::BaseField>) -> (r: Self)
        requires
            is_pow2(main_trace_polys.rows() as int),
        ensures
            r.wf(),
            r.main_segment() == main_trace_polys@,
            r.aux_segments() == Seq::<Seq<Seq<E>>>::empty(),
            r.size() == main_trace_polys.rows(),
    {
        let ghost n = main_trace_polys@.len();
        let cols = main_trace_polys.num_cols();
        let r = TracePolyTable { main_segment_polys: main_trace_polys, aux_segment_polys: Vec::new() };
        proof {
            assert(r.aux_segments() =~= Seq::<Seq<Seq<E>>>::empty());
        }
        r
    }

    /// Adds the polynomials of one more auxiliary segment; they must have as
    /// many coefficients as those of the main segment.
    pub fn add_aux_segment(&mut self, aux_segment_polys: Matrix<E>)
        requires
            old(self).wf(),
            aux_segment_polys.rows() == old(self).size(),
        ensures
            final(self).wf(),
            final(self).main_segment() == old(self).main_segment(),
            final(self).aux_segments() == old(self).aux_segments().push(aux_segment_polys@),
            final(self).size() == old(self).size(),
    {
        self.aux_segment_polys.push(aux_segment_polys);
        proof {
            assert(self.aux_segments() =~= old(self).aux_segments().push(aux_segment_polys@));
        }
    }

    /// Number of coefficients of each polynomial.
    pub fn poly_size(&self) -> (r: usize)
        requires
            self.wf(),
        ensures
            r == self.size(),
            is_pow2(r as int),
    {
        self.main_segment_polys.num_rows()
    }

    /// Number of polynomials of the main segment.
    pub fn num_main_trace_polys(&self) -> (r: usize)
        ensures
            r == self.main_segment().len(),
    {
        self.main_segment_polys.num_cols()
    }

    /// The polynomial of the main segment at `idx`.
    pub fn get_main_trace_poly(&self, idx: usize) -> (r: &[E::BaseField])
        requires
            idx < self.main_segment().len(),
        ensures
            r@ == self.main_segment()[idx as int],
    {
        self.main_segment_polys.get_column(idx)
    }

    /// The polynomials of the main segment, in order.
    pub fn main_trace_polys(&self) -> (r: &Vec<Vec<E::BaseField>>)
        ensures
            r@.len() == self.main_segment().len(),
            forall|i: int| 0 <= i < r@.len() ==> (#[trigger] r@[i])@ == self.main_segment()[i],
    {
        self.main_segment_polys.columns()
    }

    /// Number of auxiliary segments.
    pub fn num_aux_segments(&self) -> (r: usize)
        ensures
            r == self.aux_segments().len(),
    {
        self.aux_segment_polys.len()
    }

    /// The polynomials of the auxiliary segment at `idx`, in order.
    pub fn get_aux_segment(&self, idx: usize) -> (r: &Vec<Vec<E>>)
        requires
            idx < self.aux_segments().len(),
        ensures
            r@.len() == self.aux_segments()[idx as int].len(),
            forall|i: int|
                0 <= i < r@.len() ==> (#[trigger] r@[i])@ == self.aux_segments()[idx as int][i],
    {
        self.aux_segment_polys[idx].columns()
    }

    /// The polynomials of all auxiliary segments, those of an earlier segment
    /// first.
    pub fn aux_trace_polys(&self) -> (r: Vec<Vec<E>>)
        ensures
            Seq::new(r@.len(), |i: int| r@[i]@) == all_columns(self.aux_segments()),
    {
        let mut result: Vec<Vec<E>> = Vec::new();
        let ghost segments = self.aux_segments();
        let mut k: usize = 0;
        proof {
            assert(segments.take(0) =~= Seq::<Seq<Seq<E>>>::empty());
            assert(Seq::new(result@.len(), |i: int| result@[i]@) =~= all_columns(segments.take(0)));
        }
        while k < self.aux_segment_polys.len()
            invariant
                segments == self.aux_segments(),
                k <= segments.len(),
                Seq::new(result@.len(), |i: int| result@[i]@) == all_columns(
                    segments.take(k as int),
                ),
            decreases segments.len() - k,
        {
            let segment = &self.aux_segment_polys[k];
            let ghost before = Seq::new(result@.len(), |i: int| result@[i]@);
            let mut j: usize = 0;
            proof {
                assert(before + segment@.take(0) =~= before);
            }
            while j < segment.num_cols()
                invariant
                    j <= segment@.len(),
                    Seq::new(result@.len(), |i: int| result@[i]@) == before + segment@.take(
                        j as int,
                    ),
                decreases segment@.len() - j,
            {
                let column = segment.get_column(j);
                let mut copy: Vec<E> = Vec::new();
                let mut i: usize = 0;
                while i < column.len()
                    invariant
                        i <= column@.len(),
                        copy@ == column@.take(i as int),
                    decreases column@.len() - i,
                {
                    copy.push(column[i]);
                    proof {
                        assert(copy@ =~= column@.take(i + 1));
                    }
                    i = i + 1;
                }
                proof {
                    assert(column@.take(column@.len() as int) =~= column@);
                }
                let ghost previous = Seq::new(result@.len(), |i: int| result@[i]@);
                result.push(copy);
                proof {
                    let now = Seq::new(result@.len(), |i: int| result@[i]@);
                    assert(now =~= previous.push(column@));
                    assert(segment@.take(j + 1) =~= segment@.take(j as int).push(column@));
                    assert(now =~= before + segment@.take(j + 1));
                }
                j = j + 1;
            }
            proof {
                assert(segment@.take(segment@.len() as int) =~= segment@);
                assert(segments.take(k + 1).drop_last() =~= segments.take(k as int));
                assert(segments.take(k + 1).last() == segment@);
            }
            k = k + 1;
        }
        proof {
            assert(segments.take(segments.len() as int) =~= segments);
        }
        result
    }

    /// The values of all polynomials of the table at `x`: those of the main
    /// segment, with their coefficients taken into the field of `x`, and then
    /// those of each auxiliary segment.
    pub fn evaluate_at(&self, x: E) -> (r: Vec<E>)
        ensures
            poly_coeffs(r@) == evaluations::<E>(self.polys(), x.coeffs()),
    {
        let mut result: Vec<E> = Vec::new();
        let ghost main = main_polys::<E>(self.main_segment());
        let ghost segments = self.aux_segments();
        let mut j: usize = 0;
        proof {
            assert(poly_coeffs(result@) =~= evaluations::<E>(main.take(0), x.coeffs()));
        }
        while j < self.main_segment_polys.num_cols()
            invariant
                main == main_polys::<E>(self.main_segment()),
                j <= main.len(),
                poly_coeffs(result@) == evaluations::<E>(main.take(j as int), x.coeffs()),
            decreases main.len() - j,
        {
            let value = eval_lifted(self.main_segment_polys.get_column(j), x);
            let ghost previous = result@;
            result.push(value);
            proof {
                assert(poly_coeffs(result@) =~= poly_coeffs(previous).push(value.coeffs()));
                assert(evaluations::<E>(main.take(j + 1), x.coeffs()) =~= evaluations::<E>(
                    main.take(j as int),
                    x.coeffs(),
                ).push(eval_spec::<E>(main[j as int], x.coeffs())));
            }
            j = j + 1;
        }
        proof {
            assert(main.take(main.len() as int) =~= main);
            assert(segments.take(0) =~= Seq::<Seq<Seq<E>>>::empty());
            assert(main + aux_polys::<E>(segments.take(0)) =~= main);
        }
        let mut k: usize = 0;
        while k < self.aux_segment_polys.len()
            invariant
                main == main_polys::<E>(self.main_segment()),
                segments == self.aux_segments(),
                k <= segments.len(),
                poly_coeffs(result@) == evaluations::<E>(
                    main + aux_polys::<E>(segments.take(k as int)),
                    x.coeffs(),
                ),
            decreases segments.len() - k,
        {
            let segment = &self.aux_segment_polys[k];
            let ghost before = main + aux_polys::<E>(segments.take(k as int));
            let ghost these = segment_polys::<E>(segment@);
            let mut j: usize = 0;
            proof {
                assert(before + these.take(0) =~= before);
            }
            while j < segment.num_cols()
                invariant
                    these == segment_polys::<E>(segment@),
                    j <= these.len(),
                    poly_coeffs(result@) == evaluations::<E>(
                        before + these.take(j as int),
                        x.coeffs(),
                    ),
                decreases these.len() - j,
            {
                let value = eval(segment.get_column(j), x);
                let ghost previous = result@;
                result.push(value);
                proof {
                    assert(poly_coeffs(result@) =~= poly_coeffs(previous).push(value.coeffs()));
                    assert(before + these.take(j + 1) =~= (before + these.take(j as int)).push(
                        these[j as int],
                    ));
                    assert(evaluations::<E>(before + these.take(j + 1), x.coeffs())
                        =~= evaluations::<E>(before + these.take(j as int), x.coeffs()).push(
                        eval_spec::<E>(these[j as int], x.coeffs()),
                    ));
                }
                j = j + 1;
            }
            proof {
                assert(these.take(these.len() as int) =~= these);
                assert(segments.take(k + 1).drop_last() =~= segments.take(k as int));
                assert(segments.take(k + 1).last() == segment@);
                assert(before + these =~= main + aux_polys::<E>(segments.take(k + 1)));
            }
            k = k + 1;
        }
        proof {
            assert(segments.take(segments.len() as int) =~= segments);
        }
        result
    }

    /// The out-of-domain evaluation frame at `z`: first the values of all
    /// polynomials at `z`, at `z * g`, and so on up to `z * g^(max_pow - 1)`,
    /// one point after the other, and second their values at `z * g^ratio`.
    /// Here `g` is the generator of the trace domain: the root of unity whose
    /// order is the number of coefficients of the polynomials.
    pub fn get_ood_frame(&self, z: E, max_pow: usize, ratio: usize) -> (r: Vec<Vec<E>>)
        requires
            self.wf(),
            log2_spec(self.size() as int) <= E::BaseField::two_adicity(),
        ensures
            r@.len() == 2,
            poly_coeffs(r@[0]@) == frame_rows::<E>(
                self.polys(),
                z.coeffs(),
                domain_generator::<E>(self.size() as int),
                max_pow as nat,
            ),
            poly_coeffs(r@[1]@) == evaluations::<E>(
                self.polys(),
                frame_point::<E>(
                    z.coeffs(),
                    domain_generator::<E>(self.size() as int),
                    ratio as nat,
                ),
            ),
    {
        let order = log2(self.poly_size());
        let g = E::from_base(E::BaseField::get_root_of_unity(order));
        let points = get_power_series_with_offset(g, z, max_pow);
        let ghost polys = self.polys();
        let mut current: Vec<E> = Vec::new();
        let mut i: usize = 0;
        proof {
            assert(poly_coeffs(current@) =~= frame_rows::<E>(polys, z.coeffs(), g.coeffs(), 0));
        }
        while i < max_pow
            invariant
                polys == self.polys(),
                i <= max_pow,
                points@.len() == max_pow,
                forall|t: int|
                    0 <= t < max_pow ==> (#[trigger] points@[t]).coeffs() == frame_point::<E>(
                        z.coeffs(),
                        g.coeffs(),
                        t as nat,
                    ),
                poly_coeffs(current@) == frame_rows::<E>(polys, z.coeffs(), g.coeffs(), i as nat),
            decreases max_pow - i,
        {
            let row = self.evaluate_at(points[i]);
            let ghost before = current@;
            let mut j: usize = 0;
            while j < row.len()
                invariant
                    j <= row@.len(),
                    current@ == before + row@.take(j as int),
                decreases row@.len() - j,
            {
                current.push(row[j]);
                proof {
                    assert(current@ =~= before + row@.take(j + 1));
                }
                j = j + 1;
            }
            proof {
                assert(row@.take(row@.len() as int) =~= row@);
                assert(poly_coeffs(current@) =~= poly_coeffs(before) + poly_coeffs(row@));
            }
            i = i + 1;
        }
        let shift = exp_by_squaring(g, ratio as u128);
        let next = self.evaluate_at(z.mul(shift));
        let mut frame: Vec<Vec<E>> = Vec::new();
        frame.push(current);
        frame.push(next);
        frame
    }
}

} // verus!

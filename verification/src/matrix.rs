//! A matrix of field elements held column by column.

use vstd::prelude::*;

verus! {

/// Whether `columns` are the columns of a matrix: at least one, all of the same
/// length, with at least one row.
pub open spec fn is_matrix<E>(columns: Seq<Vec<E>>) -> bool {
    &&& columns.len() > 0
    &&& columns[0]@.len() > 0
    &&& forall|i: int| 0 <= i < columns.len() ==> (#[trigger] columns[i])@.len() == columns[0]@.len()
}

/// A matrix with at least one column and one row; each column holds the
/// coefficients of one polynomial, or the values of one register.
pub struct Matrix<E: Copy> {
    columns: Vec<Vec<E>>,
}

impl<E: Copy> Matrix<E> {
    /// The columns of the matrix.
    pub closed spec fn view(&self) -> Seq<Seq<E>> {
        Seq::new(self.columns@.len(), |i: int| self.columns@[i]@)
    }

    /// Number of rows: the length of every column.
    pub open spec fn rows(&self) -> nat {
        self@[0].len()
    }

    #[verifier::type_invariant]
    pub closed spec fn wf(&self) -> bool {
        is_matrix(self.columns@)
    }

    /// The matrix with the given columns.
    pub fn new(columns: Vec<Vec<E>>) -> (r: Self)
        requires
            is_matrix(columns@),
        ensures
            r@ == Seq::new(columns@.len(), |i: int| columns@[i]@),
            r@.len() > 0,
            r.rows() > 0,
    {
        Matrix { columns }
    }

    /// Whether `columns` can be made a matrix.
    pub fn is_valid(columns: &Vec<Vec<E>>) -> (r: bool)
        ensures
            r == is_matrix(columns@),
    {
        if columns.len() == 0 {
            return false;
        }
        let num_rows = columns[0].len();
        if num_rows == 0 {
            return false;
        }
        let mut i: usize = 1;
        while i < columns.len()
            invariant
                1 <= i <= columns@.len(),
                num_rows == columns@[0]@.len(),
                forall|j: int| 0 <= j < i ==> (#[trigger] columns@[j])@.len() == num_rows,
            decreases columns@.len() - i,
        {
            if columns[i].len() != num_rows {
                return false;
            }
            i = i + 1;
        }
        true
    }

    /// Number of columns.
    pub fn num_cols(&self) -> (r: usize)
        ensures
            r == self@.len(),
            r > 0,
    {
        proof {
            use_type_invariant(self);
        }
        self.columns.len()
    }

    /// Number of rows.
    pub fn num_rows(&self) -> (r: usize)
        ensures
            r == self.rows(),
            r > 0,
            forall|i: int| 0 <= i < self@.len() ==> (#[trigger] self@[i]).len() == r,
    {
        proof {
            use_type_invariant(self);
        }
        self.columns[0].len()
    }

    /// The column at `index`.
    pub fn get_column(&self, index: usize) -> (r: &[E])
        requires
            index < self@.len(),
        ensures
            r@ == self@[index as int],
            r@.len() == self.rows(),
    {
        proof {
            use_type_invariant(self);
        }
        self.columns[index].as_slice()
    }

    /// The element in column `col` and row `row`.
    pub fn get(&self, col: usize, row: usize) -> (r: E)
        requires
            col < self@.len(),
            row < self.rows(),
        ensures
            r == self@[col as int][row as int],
    {
        proof {
            use_type_invariant(self);
        }
        self.columns[col][row]
    }

    /// All columns, in order.
    pub fn columns(&self) -> (r: &Vec<Vec<E>>)
        ensures
            r@.len() == self@.len(),
            forall|i: int| 0 <= i < self@.len() ==> (#[trigger] r@[i])@ == self@[i],
    {
        &self.columns
    }
}

} // verus!

//! The input matrix: an immutable rectangular collection of binary64 bit
//! patterns, held column-major because the engine only ever reads whole
//! columns.
use vstd::prelude::*;

verus! {

/// A `rows x cols` matrix of binary64 bit patterns. Its view is the
/// sequence of its columns; every column has the same length, the number
/// of rows.
pub struct Matrix {
    columns: Vec<Vec<u64>>,
    rows: usize,
}

impl View for Matrix {
    type V = Seq<Seq<u64>>;

    closed spec fn view(&self) -> Seq<Seq<u64>> {
        self.columns@.map_values(|c: Vec<u64>| c@)
    }
}

impl Matrix {
    /// Every column of the matrix has `rows` values.
    pub open spec fn wf(&self) -> bool {
        forall|i: int| 0 <= i < self@.len() ==> (#[trigger] self@[i]).len() == self.spec_rows()
    }

    /// The number of rows.
    pub closed spec fn spec_rows(&self) -> usize {
        self.rows
    }

    /// Builds a matrix from its columns. All columns must have equal
    /// length; a ragged input yields nothing. A matrix with no columns has
    /// no rows.
    pub fn from_columns(columns: Vec<Vec<u64>>) -> (r: Option<Matrix>)
        ensures
            match r {
                Some(m) => {
                    &&& m.wf()
                    &&& m@ == columns@.map_values(|c: Vec<u64>| c@)
                    &&& m.spec_rows() == (if columns@.len() == 0 {
                        0int
                    } else {
                        columns@[0]@.len() as int
                    })
                },
                None => exists|i: int|
                    0 <= i < columns@.len() && (#[trigger] columns@[i])@.len() != columns@[0]@.len(),
            },
    {
        let rows: usize = if columns.len() == 0 {
            0
        } else {
            columns[0].len()
        };
        let mut i: usize = 0;
        while i < columns.len()
            invariant
                0 <= i <= columns@.len(),
                columns@.len() > 0 ==> rows == columns@[0]@.len(),
                columns@.len() == 0 ==> rows == 0,
                forall|j: int| 0 <= j < i ==> (#[trigger] columns@[j])@.len() == rows,
            decreases columns@.len() - i,
        {
            if columns[i].len() != rows {
                return None;
            }
            i += 1;
        }
        let m = Matrix { columns, rows };
        assert forall|k: int| 0 <= k < m@.len() implies (#[trigger] m@[k]).len()
            == m.spec_rows() by {
            assert(m@[k] == m.columns@[k]@);
        }
        Some(m)
    }

    /// The number of columns.
    pub fn ncols(&self) -> (r: usize)
        ensures
            r == self@.len(),
    {
        self.columns.len()
    }

    /// The number of rows; every column of a well-formed matrix has this
    /// length.
    pub fn nrows(&self) -> (r: usize)
        ensures
            r == self.spec_rows(),
    {
        self.rows
    }

    /// Borrows column `i`.
    pub fn column(&self, i: usize) -> (r: &Vec<u64>)
        requires
            i < self@.len(),
        ensures
            r@ == self@[i as int],
    {
        &self.columns[i]
    }
}

} // verus!

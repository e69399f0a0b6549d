//! The noise field a board is generated from, sampled on the board's grid.
//!
//! Samples are fixed-point numbers in millionths: a sample of `200_000`
//! stands for a noise value of `0.2`.

use vstd::prelude::*;

verus! {

/// Number of fixed-point units in one unit of noise.
pub const SAMPLE_SCALE: i64 = 1_000_000;

/// A dense grid of noise samples, one per `(col, row)` coordinate, stored
/// column by column.
pub struct NoiseField {
    cols: usize,
    rows: usize,
    columns: Vec<Vec<i64>>,
}

impl NoiseField {
    /// Number of columns of the grid.
    pub closed spec fn spec_cols(&self) -> nat {
        self.cols as nat
    }

    /// Number of rows of the grid.
    pub closed spec fn spec_rows(&self) -> nat {
        self.rows as nat
    }

    /// The samples, `spec_columns()[col][row]`.
    pub closed spec fn spec_columns(&self) -> Seq<Seq<i64>> {
        self.columns@.map_values(|c: Vec<i64>| c@)
    }

    /// The grid has `spec_cols()` columns of `spec_rows()` samples each.
    pub open spec fn wf(&self) -> bool {
        &&& self.spec_cols() <= usize::MAX
        &&& self.spec_rows() <= usize::MAX
        &&& self.spec_columns().len() == self.spec_cols()
        &&& forall|c: int| 0 <= c < self.spec_cols() ==> #[trigger] self.spec_columns()[c].len() == self.spec_rows()
    }

    /// The sample at `(col, row)`.
    pub open spec fn sample(&self, col: int, row: int) -> i64 {
        self.spec_columns()[col][row]
    }

    /// Builds a field from its columns, each holding one sample per row.
    /// Returns `None` when a column's length differs from `rows`.
    pub fn from_columns(rows: usize, columns: Vec<Vec<i64>>) -> (r: Option<NoiseField>)
        ensures
            r.is_some() <==> forall|c: int| 0 <= c < columns@.len() ==> #[trigger] columns@[c]@.len() == rows,
            r matches Some(f) ==> {
                &&& f.wf()
                &&& f.spec_cols() == columns@.len()
                &&& f.spec_rows() == rows
                &&& f.spec_columns() == columns@.map_values(|c: Vec<i64>| c@)
            },
    {
        let mut i: usize = 0;
        while i < columns.len()
            invariant
                0 <= i <= columns@.len(),
                forall|c: int| 0 <= c < i ==> #[trigger] columns@[c]@.len() == rows,
            decreases columns@.len() - i,
        {
            if columns[i].len() != rows {
                return None;
            }
            i = i + 1;
        }
        let cols = columns.len();
        let f = NoiseField { cols, rows, columns };
        assert(forall|c: int| 0 <= c < f.spec_cols() ==> #[trigger] f.spec_columns()[c] == f.columns@[c]@);
        Some(f)
    }

    /// Number of columns.
    pub fn cols(&self) -> (r: usize)
        ensures
            r == self.spec_cols(),
    {
        self.cols
    }

    /// Number of rows.
    pub fn rows(&self) -> (r: usize)
        ensures
            r == self.spec_rows(),
    {
        self.rows
    }

    /// The sample at `(col, row)`.
    pub fn value_at(&self, col: usize, row: usize) -> (r: i64)
        requires
            self.wf(),
            col < self.spec_cols(),
            row < self.spec_rows(),
        ensures
            r == self.sample(col as int, row as int),
    {
        assert(self.spec_columns()[col as int] == self.columns@[col as int]@);
        self.columns[col][row]
    }
}

} // verus!

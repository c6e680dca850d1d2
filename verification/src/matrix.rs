use nalgebra::{DMatrix, DVector};
use vstd::prelude::*;

verus! {

/// A dense matrix of `u32` cells, stored in a `nalgebra::DMatrix`. Its cells
/// are hidden from the verifier: all that is known of a grid is what
/// `grid_rows` and `grid_ncols` name, and what the methods below say of them.
#[verifier::external_body]
#[derive(Debug)]
pub struct Grid {
    cells: DMatrix<u32>,
}

/// The rows of a grid, top to bottom, each left to right.
pub uninterp spec fn grid_rows(g: Grid) -> Seq<Seq<u32>>;

/// The number of columns of a grid, which its rows alone cannot tell when
/// there are none.
pub uninterp spec fn grid_ncols(g: Grid) -> nat;

/// The dot product of two sequences over their common length.
pub open spec fn dot(a: Seq<u32>, b: Seq<u32>) -> nat
    decreases a.len(),
{
    if a.len() == 0 || b.len() == 0 {
        0
    } else {
        dot(a.drop_last(), b.drop_last()) + (a.last() as nat) * (b.last() as nat)
    }
}

/// `i` is the first position that holds the greatest entry of `s`.
pub open spec fn is_first_max(s: Seq<u32>, i: int) -> bool {
    &&& 0 <= i < s.len()
    &&& forall|j: int| 0 <= j < s.len() ==> #[trigger] s[j] <= s[i]
    &&& forall|j: int| 0 <= j < i ==> #[trigger] s[j] < s[i]
}

impl Grid {
    /// Every row is as long as the grid is wide.
    pub open spec fn rectangular(self) -> bool {
        forall|i: int|
            0 <= i < grid_rows(self).len() ==> (#[trigger] grid_rows(self)[i]).len() == grid_ncols(
                self,
            )
    }

    /// A grid of the given shape with 0 in every cell, if its cells can be
    /// counted in a `usize`.
    pub fn zeros(nrows: usize, ncols: usize) -> (g: Option<Grid>)
        ensures
            g.is_some() <==> nrows * ncols <= usize::MAX,
            g.is_some() ==> {
                &&& grid_rows(g.unwrap()).len() == nrows
                &&& grid_ncols(g.unwrap()) == ncols
                &&& forall|i: int|
                    0 <= i < nrows ==> #[trigger] grid_rows(g.unwrap())[i] == Seq::new(
                        ncols as nat,
                        |j: int| 0u32,
                    )
            },
    {
        if nrows.checked_mul(ncols).is_some() {
            Some(Grid::filled(nrows, ncols, 0))
        } else {
            None
        }
    }

    /// The number of rows.
    pub fn height(&self) -> (n: usize)
        ensures
            n == grid_rows(*self).len(),
    {
        self.nrows()
    }

    /// The number of columns, which is the length of every row.
    pub fn width(&self) -> (n: usize)
        ensures
            n == grid_ncols(*self),
            self.rectangular(),
    {
        self.ncols()
    }

    /// A copy of row `i`, if there is one.
    pub fn copy_row(&self, i: usize) -> (cells: Option<Vec<u32>>)
        ensures
            cells.is_some() <==> i < grid_rows(*self).len(),
            cells.is_some() ==> cells.unwrap()@ == grid_rows(*self)[i as int],
    {
        if i < self.nrows() {
            Some(self.row(i))
        } else {
            None
        }
    }

    /// Calls `DMatrix::from_element`. Trusted: the result has the given shape
    /// and holds `value` in every cell. The call multiplies the two
    /// dimensions, so their product fits a `usize`.
    #[verifier::external_body]
    pub(crate) fn filled(nrows: usize, ncols: usize, value: u32) -> (g: Grid)
        requires
            nrows * ncols <= usize::MAX,
        ensures
            grid_rows(g).len() == nrows,
            grid_ncols(g) == ncols,
            forall|i: int|
                0 <= i < nrows ==> #[trigger] grid_rows(g)[i] == Seq::new(
                    ncols as nat,
                    |j: int| value,
                ),
    {
        Grid { cells: DMatrix::from_element(nrows, ncols, value) }
    }

    /// Calls `Matrix::nrows`. Trusted: it is the number of rows, and the
    /// number of cells, which the storage holds in one vector, fits a `usize`.
    #[verifier::external_body]
    pub(crate) fn nrows(&self) -> (n: usize)
        ensures
            n == grid_rows(*self).len(),
            n * grid_ncols(*self) <= usize::MAX,
    {
        self.cells.nrows()
    }

    /// Calls `Matrix::ncols`. Trusted: it is the number of columns, and every
    /// row has that length.
    #[verifier::external_body]
    pub(crate) fn ncols(&self) -> (n: usize)
        ensures
            n == grid_ncols(*self),
            forall|i: int|
                0 <= i < grid_rows(*self).len() ==> (#[trigger] grid_rows(*self)[i]).len() == n,
    {
        self.cells.ncols()
    }

    /// Calls `Matrix::row` and copies the cells out, left to right. Trusted:
    /// the copy is row `i`. The call panics on a row that does not exist.
    #[verifier::external_body]
    pub(crate) fn row(&self, i: usize) -> (cells: Vec<u32>)
        requires
            i < grid_rows(*self).len(),
        ensures
            cells@ == grid_rows(*self)[i as int],
    {
        self.cells.row(i).iter().cloned().collect()
    }

    /// Calls `Matrix::row_mut` and writes the given cells over row `i`, left to
    /// right. Trusted: row `i` becomes `cells`, and nothing else changes.
    #[verifier::external_body]
    pub(crate) fn set_row(&mut self, i: usize, cells: &Vec<u32>)
        requires
            i < grid_rows(*old(self)).len(),
            cells.len() == grid_ncols(*old(self)),
        ensures
            grid_rows(*final(self)) == grid_rows(*old(self)).update(i as int, cells@),
            grid_ncols(*final(self)) == grid_ncols(*old(self)),
    {
        self.cells.row_mut(i).iter_mut().zip(cells.iter()).for_each(|(cell, value)| *cell = *value);
    }

    /// Calls `nalgebra`'s product of a matrix and a column vector. Trusted:
    /// entry `i` of the result is the dot product of row `i` with `v`. The
    /// product is computed in `u32` from sums of products of cells, none of
    /// which exceeds the row's dot product, so each of those fits a `u32`.
    #[verifier::external_body]
    pub(crate) fn times(&self, v: &Vec<u32>) -> (products: Vec<u32>)
        requires
            v.len() == grid_ncols(*self),
            forall|i: int|
                0 <= i < grid_rows(*self).len() ==> dot(#[trigger] grid_rows(*self)[i], v@)
                    <= u32::MAX,
        ensures
            products.len() == grid_rows(*self).len(),
            forall|i: int|
                0 <= i < products.len() ==> #[trigger] products[i] == dot(grid_rows(*self)[i], v@),
    {
        (&self.cells * DVector::from_vec(v.clone())).iter().cloned().collect()
    }
}

/// Calls `Vector::argmax`. Trusted: it returns the first position of the
/// greatest entry, and that entry. The call panics on an empty vector.
#[verifier::external_body]
pub(crate) fn argmax(v: &Vec<u32>) -> (best: (usize, u32))
    requires
        v.len() > 0,
    ensures
        is_first_max(v@, best.0 as int),
        best.1 == v[best.0 as int],
{
    DVector::from_vec(v.clone()).argmax()
}

} // verus!

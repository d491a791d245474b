//! The galaxy's grid of places: a fixed square matrix of `nalgebra` that
//! holds, for each place, the number of the star that stands there.

use nalgebra::ArrayStorage;
use nalgebra::Const;
use nalgebra::Matrix;
use nalgebra::SMatrix;
use vstd::prelude::*;

verus! {

/// The number of places along each side of the grid.
pub const SIDE: usize = 100;

/// `nalgebra::Matrix`, of which the grid is an instance.
#[verifier::external_type_specification]
#[verifier::external_body]
#[verifier::reject_recursive_types(T)]
#[verifier::reject_recursive_types(R)]
#[verifier::reject_recursive_types(C)]
#[verifier::reject_recursive_types(S)]
pub struct ExMatrix<T, R, C, S>(Matrix<T, R, C, S>);

/// `nalgebra::Const`, a matrix dimension fixed at compile time.
#[verifier::external_type_specification]
#[verifier::external_body]
pub struct ExConst<const R: usize>(Const<R>);

/// `nalgebra::ArrayStorage`, the array behind a matrix of fixed size.
#[verifier::external_type_specification]
#[verifier::external_body]
#[verifier::reject_recursive_types(T)]
pub struct ExArrayStorage<T, const R: usize, const C: usize>(ArrayStorage<T, R, C>);

/// The grid: a matrix of [`SIDE`] by [`SIDE`] star numbers.
pub type Grid = SMatrix<usize, 100, 100>;

/// What the grid holds at each place `(x, y)` with `x` and `y` below
/// [`SIDE`].
pub uninterp spec fn cells(grid: Grid) -> Map<(int, int), usize>;

/// `SMatrix::zeros`: a grid that holds 0 at every place.
#[verifier::external_body]
pub(crate) fn zeros() -> (grid: Grid)
    ensures
        forall|x: int, y: int| 0 <= x < SIDE && 0 <= y < SIDE ==> #[trigger] cells(grid)[(x, y)] == 0,
{
    Grid::zeros()
}

/// The matrix's index by a pair: what the grid holds at `(x, y)`.
#[verifier::external_body]
pub(crate) fn at(grid: &Grid, x: usize, y: usize) -> (value: usize)
    requires
        x < SIDE,
        y < SIDE,
    ensures
        value == cells(*grid)[(x as int, y as int)],
{
    grid[(x, y)]
}

/// The matrix's mutable index by a pair: puts `value` at `(x, y)` and leaves
/// the other places alone.
#[verifier::external_body]
pub(crate) fn put(grid: &mut Grid, x: usize, y: usize, value: usize)
    requires
        x < SIDE,
        y < SIDE,
    ensures
        cells(*final(grid)) == cells(*old(grid)).insert((x as int, y as int), value),
{
    grid[(x, y)] = value;
}

} // verus!

//! The calls into the `ndarray` crate: the two-dimensional array that holds
//! what lies on each cell of a board.
//!
//! Nothing in this file is proved: each contract restates what the crate's
//! documentation and source say of the call in the body.
use vstd::prelude::*;
use crate::fruit::FruitType;

verus! {

/// A two-dimensional `ndarray` array of cells, each empty or holding a fruit.
#[verifier::external_body]
#[derive(Debug)]
pub struct FruitGrid {
    cells: ndarray::Array2<Option<FruitType>>,
}

/// What a grid holds: one sequence for each value of the first index, holding
/// the elements along the second index.
pub uninterp spec fn grid_rows(grid: FruitGrid) -> Seq<Seq<Option<FruitType>>>;

/// `ArrayBase::from_elem` with the shape `(side, side)`: every element is a
/// copy of `fruit`. The call panics when the number of elements overflows
/// `isize`, which `requires` leaves out.
#[verifier::external_body]
pub(crate) fn grid_filled(side: usize, fruit: Option<FruitType>) -> (grid: FruitGrid)
    requires
        side * side <= isize::MAX,
    ensures
        grid_rows(grid).len() == side,
        forall|x: int| 0 <= x < side ==> (#[trigger] grid_rows(grid)[x]).len() == side,
        forall|x: int, y: int|
            0 <= x < side && 0 <= y < side ==> (#[trigger] grid_rows(grid)[x][y]) == fruit,
{
    FruitGrid { cells: ndarray::Array::from_elem((side, side), fruit) }
}

/// `ArrayBase::dim`: the lengths of the two axes. Every sequence along the
/// second index has the second length.
#[verifier::external_body]
pub(crate) fn grid_dim(grid: &FruitGrid) -> (dim: (usize, usize))
    ensures
        grid_rows(*grid).len() == dim.0,
        forall|x: int| 0 <= x < dim.0 ==> (#[trigger] grid_rows(*grid)[x]).len() == dim.1,
{
    grid.cells.dim()
}

/// Indexing with `[x, y]`: the element at that place. The call panics on an
/// index out of bounds, which `requires` leaves out.
#[verifier::external_body]
pub(crate) fn grid_get(grid: &FruitGrid, x: usize, y: usize) -> (fruit: Option<FruitType>)
    requires
        x < grid_rows(*grid).len(),
        y < grid_rows(*grid)[x as int].len(),
    ensures
        fruit == grid_rows(*grid)[x as int][y as int],
{
    grid.cells[[x, y]]
}

/// Assigning through the index `[x, y]`: that element changes and no other.
/// The call panics on an index out of bounds, which `requires` leaves out.
#[verifier::external_body]
pub(crate) fn grid_put(grid: &mut FruitGrid, x: usize, y: usize, fruit: Option<FruitType>)
    requires
        x < grid_rows(*old(grid)).len(),
        y < grid_rows(*old(grid))[x as int].len(),
    ensures
        grid_rows(*final(grid)) == grid_rows(*old(grid)).update(
            x as int,
            grid_rows(*old(grid))[x as int].update(y as int, fruit),
        ),
{
    grid.cells[[x, y]] = fruit;
}

/// `ArrayBase::iter`: the elements in logical order, in which the last index
/// varies fastest.
#[verifier::external_body]
pub(crate) fn grid_cells(grid: &FruitGrid) -> (cells: Vec<Option<FruitType>>)
    ensures
        cells@ == grid_rows(*grid).flatten(),
{
    grid.cells.iter().copied().collect()
}

/// `Clone::clone` of an array: an array of the same shape and elements.
#[verifier::external_body]
pub(crate) fn grid_copy(grid: &FruitGrid) -> (copy: FruitGrid)
    ensures
        grid_rows(copy) == grid_rows(*grid),
{
    FruitGrid { cells: grid.cells.clone() }
}

} // verus!

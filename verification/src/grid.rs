//! The sample grid: the cells of a `width` by `height` raster in row-major
//! order, and the sample taken at each.

use vstd::prelude::*;
use vstd::arithmetic::div_mod::{
    lemma_fundamental_div_mod,
    lemma_fundamental_div_mod_converse,
    lemma_mod_bound,
    lemma_multiply_divide_lt,
};
use crate::color::Color;
use crate::escape::Plane;
use crate::fractal::Fractal;

verus! {

/// A cell of the grid: `column` counts from the left edge, `row` from the
/// first row sampled.
#[derive(Clone, Copy, Debug, PartialEq, Eq, Structural)]
pub struct Cell {
    pub column: u32,
    pub row: u32,
}

/// One sample: the plane coordinate of a cell and the colour found there.
#[derive(Debug)]
pub struct Sample<Z> {
    pub coordinate: Z,
    pub color: Color,
}

/// The cell with the linear index `index` in a grid `width` cells wide: its
/// column is the index modulo the width, its row the index divided by the
/// width.
pub open spec fn cell_of_index(index: int, width: int) -> Cell {
    Cell { column: (index % width) as u32, row: (index / width) as u32 }
}

/// The number of cells of a `width` by `height` grid.
pub fn sample_count(width: u32, height: u32) -> (count: u64)
    ensures
        count == width * height,
{
    assert(width * height <= u64::MAX) by (nonlinear_arith)
        requires
            width <= u32::MAX,
            height <= u32::MAX,
    ;
    (width as u64) * (height as u64)
}

/// The cell with the linear index `index`, for an index inside the grid.
fn cell_inside(index: u64, width: u32, height: u32) -> (cell: Cell)
    requires
        index < width * height,
    ensures
        cell == cell_of_index(index as int, width as int),
        cell.column == index % (width as u64),
        cell.row == index / (width as u64),
        cell.column < width,
        cell.row < height,
        cell.row * width + cell.column == index,
{
    proof {
        lemma_cell_in_grid(index as int, width as int, height as int);
    }
    Cell { column: (index % (width as u64)) as u32, row: (index / (width as u64)) as u32 }
}

/// The cell with the linear index `index` in a `width` by `height` grid, where
/// the index runs along a row first; `None` for an index past the last cell.
pub fn cell_at(index: u64, width: u32, height: u32) -> (cell: Option<Cell>)
    ensures
        cell == if index < width * height {
            Some(cell_of_index(index as int, width as int))
        } else {
            None
        },
        cell matches Some(cell) ==> {
            &&& cell.column == index % (width as u64)
            &&& cell.row == index / (width as u64)
            &&& cell.column < width
            &&& cell.row < height
            &&& cell.row * width + cell.column == index
        },
{
    if index < sample_count(width, height) {
        Some(cell_inside(index, width, height))
    } else {
        None
    }
}

/// `sample` is a sample of `cell`: its coordinate is one that `coordinate`
/// gives for the cell, and its colour is one that the plane finds there.
pub open spec fn is_sample<Z: Copy, B: Fn(Z) -> bool, S: Fn(Z, Z) -> Z, C: Fn(Cell) -> Z>(
    sample: Sample<Z>,
    cell: Cell,
    plane: Plane<Z, B, S>,
    fractal: Fractal,
    coordinate: C,
) -> bool {
    &&& coordinate.ensures((cell,), sample.coordinate)
    &&& plane.colors(fractal, sample.coordinate, sample.color)
}

/// Samples every cell of a `width` by `height` grid in row-major order: the
/// sample with the linear index `k` belongs to the cell in column
/// `k mod width` of row `k div width`. `coordinate` maps a cell to its point
/// of the plane; the plane evaluates that point under `fractal`.
pub fn sample_grid<Z: Copy, B: Fn(Z) -> bool, S: Fn(Z, Z) -> Z, C: Fn(Cell) -> Z>(
    plane: &Plane<Z, B, S>,
    fractal: Fractal,
    width: u32,
    height: u32,
    coordinate: &C,
) -> (samples: Vec<Sample<Z>>)
    requires
        plane.total(),
        forall|cell: Cell| cell.column < width && cell.row < height ==> coordinate.requires((cell,)),
    ensures
        samples@.len() == width * height,
        forall|k: int|
            0 <= k < samples@.len() ==> is_sample(
                #[trigger] samples@[k],
                cell_of_index(k, width as int),
                *plane,
                fractal,
                *coordinate,
            ),
{
    let count: u64 = sample_count(width, height);
    let mut samples: Vec<Sample<Z>> = Vec::new();
    let mut index: u64 = 0;
    while index < count
        invariant
            plane.total(),
            forall|cell: Cell|
                cell.column < width && cell.row < height ==> coordinate.requires((cell,)),
            count == width * height,
            index <= count,
            samples@.len() == index,
            forall|k: int|
                0 <= k < samples@.len() ==> is_sample(
                    #[trigger] samples@[k],
                    cell_of_index(k, width as int),
                    *plane,
                    fractal,
                    *coordinate,
                ),
        decreases count - index,
    {
        let cell = cell_inside(index, width, height);
        let point = coordinate(cell);
        let color = plane.evaluate(fractal, point).color;
        samples.push(Sample { coordinate: point, color });
        index += 1;
    }
    samples
}

/// A linear index below `width * height` names a cell inside the grid, and
/// the cell names the index: its row times the width plus its column.
pub proof fn lemma_cell_in_grid(index: int, width: int, height: int)
    requires
        0 <= index < width * height,
        0 <= width,
        0 <= height,
    ensures
        0 < width,
        0 <= index % width < width,
        0 <= index / width < height,
        (index / width) * width + index % width == index,
{
    assert(0 < width) by (nonlinear_arith)
        requires
            0 <= index < width * height,
            0 <= width,
    ;
    lemma_mod_bound(index, width);
    lemma_multiply_divide_lt(index, width, height);
    lemma_fundamental_div_mod(index, width);
    assert(0 <= index / width) by (nonlinear_arith)
        requires
            0 <= index,
            0 < width,
    ;
    assert((index / width) * width == width * (index / width)) by (nonlinear_arith);
}

/// Row-major order: the cell in column `column` of row `row` has the linear
/// index `row * width + column`. So the index 0 names the first cell of the
/// first row, and the index `width` the first cell of the second row.
pub proof fn lemma_index_of_cell(cell: Cell, width: u32)
    requires
        cell.column < width,
    ensures
        cell_of_index(cell.row * width + cell.column, width as int) == cell,
        cell_of_index(0, width as int) == (Cell { column: 0, row: 0 }),
        cell_of_index(width as int, width as int) == (Cell { column: 0, row: 1 }),
{
    let w = width as int;
    lemma_fundamental_div_mod_converse(cell.row * w + cell.column, w, cell.row as int, cell.column as int);
    lemma_fundamental_div_mod_converse(0, w, 0, 0);
    lemma_fundamental_div_mod_converse(w, w, 1, 0);
}

/// The column varies fastest: the cell after a cell lies one column further
/// in the same row, or, after the last cell of a row, at the start of the
/// next row.
pub proof fn lemma_next_cell(index: int, width: u32, height: u32)
    requires
        0 <= index,
        index + 1 < width * height,
    ensures
        cell_of_index(index + 1, width as int) == if cell_of_index(index, width as int).column + 1
            < width {
            Cell {
                column: (cell_of_index(index, width as int).column + 1) as u32,
                row: cell_of_index(index, width as int).row,
            }
        } else {
            Cell { column: 0, row: (cell_of_index(index, width as int).row + 1) as u32 }
        },
{
    let w = width as int;
    let column = index % w;
    let row = index / w;
    lemma_cell_in_grid(index, w, height as int);
    lemma_cell_in_grid(index + 1, w, height as int);
    if column + 1 < w {
        lemma_fundamental_div_mod_converse(index + 1, w, row, column + 1);
    } else {
        assert((row + 1) * w == row * w + w) by (nonlinear_arith);
        lemma_fundamental_div_mod_converse(index + 1, w, row + 1, 0);
    }
}

/// Sampling a cell twice gives the same sample: where the plane and the
/// coordinate function are deterministic, a cell has one sample only.
pub proof fn lemma_sample_is_unique<Z: Copy, B: Fn(Z) -> bool, S: Fn(Z, Z) -> Z, C: Fn(Cell) -> Z>(
    first: Sample<Z>,
    second: Sample<Z>,
    cell: Cell,
    plane: Plane<Z, B, S>,
    fractal: Fractal,
    coordinate: C,
)
    requires
        plane.deterministic(),
        forall|a: Z, b: Z|
            #![trigger coordinate.ensures((cell,), a), coordinate.ensures((cell,), b)]
            coordinate.ensures((cell,), a) && coordinate.ensures((cell,), b) ==> a == b,
        is_sample(first, cell, plane, fractal, coordinate),
        is_sample(second, cell, plane, fractal, coordinate),
    ensures
        first == second,
{
    plane.lemma_color_is_unique(fractal, first.coordinate, first.color, second.color);
}

} // verus!

//! Grid scans over an integer lattice: evaluate the escape-time classifier
//! at every cell of a square grid anchored at an origin, and aggregate a
//! count of deep points or a full map of per-cell depths.

use vstd::prelude::*;
use crate::complex::Complex;
use crate::escape::{
    ENGRAVING_SCALE, SAFE_OFFSET, deep_point, engraving_depth, is_escape_depth, to_engrave,
};

verus! {

/// The coordinate of the grid cell at `row`, `col`: the origin shifted by
/// `col` steps along the real axis and `row` steps along the imaginary one.
pub open spec fn grid_cell(topleft: (int, int), step: int, row: int, col: int) -> (int, int) {
    (topleft.0 + col * step, topleft.1 + row * step)
}

/// How many of the first `cols` cells of `row` are deep points.
pub open spec fn row_deep_count(topleft: (int, int), step: int, row: int, cols: nat) -> nat
    decreases cols,
{
    if cols == 0 {
        0
    } else {
        row_deep_count(topleft, step, row, (cols - 1) as nat) + (if deep_point(
            grid_cell(topleft, step, row, cols - 1),
        ) {
            1nat
        } else {
            0nat
        })
    }
}

/// How many deep points the first `rows` rows of a grid `cols` wide hold.
pub open spec fn grid_deep_count(topleft: (int, int), step: int, rows: nat, cols: nat) -> nat
    decreases rows,
{
    if rows == 0 {
        0
    } else {
        grid_deep_count(topleft, step, (rows - 1) as nat, cols) + row_deep_count(
            topleft,
            step,
            rows - 1,
            cols,
        )
    }
}

/// Counts the deep points of a `side` by `side` grid anchored at `topleft`
/// with the given per-cell step, scanning in row-major order.
pub fn count_deep_points(topleft: Complex, side: usize, step: i64) -> (count: u64)
    requires
        step >= 1,
        -SAFE_OFFSET <= topleft.x,
        -SAFE_OFFSET <= topleft.y,
        topleft.x + side * step <= SAFE_OFFSET,
        topleft.y + side * step <= SAFE_OFFSET,
    ensures
        count == grid_deep_count(topleft@, step as int, side as nat, side as nat),
{
    proof {
        assert(side * 1 <= side * step) by (nonlinear_arith)
            requires
                step >= 1,
                side >= 0,
        ;
    }
    let mut count: u64 = 0;
    let mut row: usize = 0;
    while row < side
        invariant
            0 <= row <= side,
            step >= 1,
            side * step <= 2 * SAFE_OFFSET,
            side <= 2 * SAFE_OFFSET,
            -SAFE_OFFSET <= topleft.x,
            -SAFE_OFFSET <= topleft.y,
            topleft.x + side * step <= SAFE_OFFSET,
            topleft.y + side * step <= SAFE_OFFSET,
            count == grid_deep_count(topleft@, step as int, row as nat, side as nat),
            count <= row * side,
        decreases side - row,
    {
        let mut col: usize = 0;
        while col < side
            invariant
                0 <= col <= side,
                row < side,
                step >= 1,
                side * step <= 2 * SAFE_OFFSET,
                side <= 2 * SAFE_OFFSET,
                -SAFE_OFFSET <= topleft.x,
                -SAFE_OFFSET <= topleft.y,
                topleft.x + side * step <= SAFE_OFFSET,
                topleft.y + side * step <= SAFE_OFFSET,
                count == grid_deep_count(topleft@, step as int, row as nat, side as nat)
                    + row_deep_count(topleft@, step as int, row as int, col as nat),
                count <= row * side + col,
            decreases side - col,
        {
            proof {
                assert(0 <= col * step <= side * step && 0 <= row * step <= side * step)
                    by (nonlinear_arith)
                    requires
                        0 <= col <= side,
                        0 <= row <= side,
                        step >= 1,
                ;
                assert(row * side + col < 0x4000_0000_0000_0000) by (nonlinear_arith)
                    requires
                        0 <= row < side,
                        0 <= col < side,
                        side <= 2 * SAFE_OFFSET,
                ;
            }
            let cell = Complex {
                x: topleft.x + (col as i64) * step,
                y: topleft.y + (row as i64) * step,
            };
            if to_engrave(cell) {
                count = count + 1;
            }
            col = col + 1;
        }
        proof {
            assert(row * side + side == (row + 1) * side) by (nonlinear_arith);
        }
        row = row + 1;
    }
    count
}

/// The full map of escape depths, 255 steps deep, of a `side` by `side`
/// grid anchored at `topleft`: one row of depths per grid row, each depth
/// small enough to serve directly as a grayscale intensity.
pub fn depth_grid(topleft: Complex, side: usize, step: i64) -> (grid: Vec<Vec<u8>>)
    requires
        step >= 1,
        -SAFE_OFFSET <= topleft.x,
        -SAFE_OFFSET <= topleft.y,
        topleft.x + side * step <= SAFE_OFFSET,
        topleft.y + side * step <= SAFE_OFFSET,
    ensures
        grid@.len() == side as int,
        forall|r: int| 0 <= r < side ==> grid@[r]@.len() == side as int,
        forall|r: int, c: int|
            0 <= r < side && 0 <= c < side ==> is_escape_depth(
                grid_cell(topleft@, step as int, r, c),
                ENGRAVING_SCALE as int,
                255,
                grid@[r]@[c] as int,
            ),
{
    proof {
        assert(side * 1 <= side * step) by (nonlinear_arith)
            requires
                step >= 1,
                side >= 0,
        ;
    }
    let mut grid: Vec<Vec<u8>> = Vec::new();
    let mut row: usize = 0;
    while row < side
        invariant
            0 <= row <= side,
            step >= 1,
            side * step <= 2 * SAFE_OFFSET,
            side <= 2 * SAFE_OFFSET,
            -SAFE_OFFSET <= topleft.x,
            -SAFE_OFFSET <= topleft.y,
            topleft.x + side * step <= SAFE_OFFSET,
            topleft.y + side * step <= SAFE_OFFSET,
            grid@.len() == row as int,
            forall|r: int| 0 <= r < row ==> grid@[r]@.len() == side as int,
            forall|r: int, c: int|
                0 <= r < row && 0 <= c < side ==> is_escape_depth(
                    grid_cell(topleft@, step as int, r, c),
                    ENGRAVING_SCALE as int,
                    255,
                    grid@[r]@[c] as int,
                ),
        decreases side - row,
    {
        let mut line: Vec<u8> = Vec::new();
        let mut col: usize = 0;
        while col < side
            invariant
                0 <= col <= side,
                row < side,
                step >= 1,
                side * step <= 2 * SAFE_OFFSET,
                side <= 2 * SAFE_OFFSET,
                -SAFE_OFFSET <= topleft.x,
                -SAFE_OFFSET <= topleft.y,
                topleft.x + side * step <= SAFE_OFFSET,
                topleft.y + side * step <= SAFE_OFFSET,
                line@.len() == col as int,
                forall|c: int|
                    0 <= c < col ==> is_escape_depth(
                        grid_cell(topleft@, step as int, row as int, c),
                        ENGRAVING_SCALE as int,
                        255,
                        line@[c] as int,
                    ),
            decreases side - col,
        {
            proof {
                assert(0 <= col * step <= side * step && 0 <= row * step <= side * step)
                    by (nonlinear_arith)
                    requires
                        0 <= col <= side,
                        0 <= row <= side,
                        step >= 1,
                ;
            }
            let cell = Complex {
                x: topleft.x + (col as i64) * step,
                y: topleft.y + (row as i64) * step,
            };
            let d = engraving_depth(cell, 255);
            line.push(d as u8);
            col = col + 1;
        }
        grid.push(line);
        row = row + 1;
    }
    grid
}

} // verus!

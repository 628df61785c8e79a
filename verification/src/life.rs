//! One step of Conway's Game of Life on a flat row-major board.
//!
//! A cell holds 1 when alive and 0 when dead. The step is the standard
//! rule, restated directly: a live cell survives with two or three live
//! neighbours, a dead cell becomes alive with exactly three. The border
//! cells of the board have no full neighbourhood and are left dead.

use crate::grid::lemma_linear_index_in_bounds;
use crate::grid::lemma_linear_index_unique;
use crate::grid::linear_index;
use vstd::pervasive::VecAdditionalExecFns;
use vstd::prelude::*;

verus! {

/// Whether the cell at column `x`, row `y` is alive.
pub open spec fn alive(board: Seq<usize>, w: int, x: int, y: int) -> bool {
    board[linear_index(x, y, w)] == 1
}

/// 1 for a live cell, 0 otherwise.
pub open spec fn one_if(b: bool) -> int {
    if b {
        1
    } else {
        0
    }
}

/// How many of the eight neighbours of `(x, y)` are alive.
pub open spec fn live_neighbours(board: Seq<usize>, w: int, x: int, y: int) -> int {
    one_if(alive(board, w, x - 1, y - 1)) + one_if(alive(board, w, x, y - 1)) + one_if(
        alive(board, w, x + 1, y - 1),
    ) + one_if(alive(board, w, x - 1, y)) + one_if(alive(board, w, x + 1, y)) + one_if(
        alive(board, w, x - 1, y + 1),
    ) + one_if(alive(board, w, x, y + 1)) + one_if(alive(board, w, x + 1, y + 1))
}

/// The next value of an interior cell: survival with two or three live
/// neighbours, birth with exactly three.
pub open spec fn next_cell(board: Seq<usize>, w: int, x: int, y: int) -> usize {
    if alive(board, w, x, y) {
        if live_neighbours(board, w, x, y) == 2 || live_neighbours(board, w, x, y) == 3 {
            1
        } else {
            0
        }
    } else {
        if live_neighbours(board, w, x, y) == 3 {
            1
        } else {
            0
        }
    }
}

/// Which cells the step has decided so far, scanning interior columns left
/// to right and each column top to bottom: all interior cells of columns
/// before `x`, and the interior cells of column `x` above row `y`.
pub open spec fn stepped(w: int, h: int, x: int, y: int, cx: int, cy: int) -> bool {
    1 <= cx < w - 1 && 1 <= cy < h - 1 && (cx < x || (cx == x && cy < y))
}

/// Computes one step of the rule: a fresh board where every interior cell
/// holds its next value and every border cell is dead.
pub fn life_step(board: &Vec<usize>, width: usize, height: usize) -> (next: Vec<usize>)
    requires
        board@.len() == width * height,
        width >= 1,
        height >= 1,
    ensures
        next@.len() == board@.len(),
        forall|cx: int, cy: int|
            0 <= cx < width && 0 <= cy < height
                ==> next@[#[trigger] linear_index(cx, cy, width as int)] == (if 1 <= cx < width - 1
                && 1 <= cy < height - 1 {
                next_cell(board@, width as int, cx, cy)
            } else {
                0
            }),
{
    let total = board.len();
    let mut next: Vec<usize> = Vec::new();
    for _i in 0..total
        invariant
            next@.len() == _i,
            forall|j: int| 0 <= j < next@.len() ==> next@[j] == 0,
    {
        next.push(0);
    }
    let w = width;
    let h = height;
    proof {
        assert forall|cx: int, cy: int| 0 <= cx < w && 0 <= cy < h implies next@[#[trigger] linear_index(
            cx,
            cy,
            w as int,
        )] == 0 by {
            lemma_linear_index_in_bounds(cx, cy, w as int, h as int);
        }
    }
    let mut x: usize = 1;
    while x < w - 1
        invariant
            w >= 1,
            h >= 1,
            board@.len() == w * h,
            next@.len() == board@.len(),
            1 <= x,
            forall|cx: int, cy: int|
                0 <= cx < w && 0 <= cy < h
                    ==> next@[#[trigger] linear_index(cx, cy, w as int)] == (if stepped(
                    w as int,
                    h as int,
                    x as int,
                    1,
                    cx,
                    cy,
                ) {
                    next_cell(board@, w as int, cx, cy)
                } else {
                    0
                }),
        decreases w - x,
    {
        let mut y: usize = 1;
        while y < h - 1
            invariant
                w >= 1,
                h >= 1,
                board@.len() == w * h,
                next@.len() == board@.len(),
                1 <= x < w - 1,
                1 <= y,
                forall|cx: int, cy: int|
                    0 <= cx < w && 0 <= cy < h
                        ==> next@[#[trigger] linear_index(cx, cy, w as int)] == (if stepped(
                        w as int,
                        h as int,
                        x as int,
                        y as int,
                        cx,
                        cy,
                    ) {
                        next_cell(board@, w as int, cx, cy)
                    } else {
                        0
                    }),
            decreases h - y,
        {
            proof {
                assert(board@.len() == board.len());
                lemma_linear_index_in_bounds(x as int - 1, y as int - 1, w as int, h as int);
                lemma_linear_index_in_bounds(x as int, y as int - 1, w as int, h as int);
                lemma_linear_index_in_bounds(x as int + 1, y as int - 1, w as int, h as int);
                lemma_linear_index_in_bounds(x as int - 1, y as int, w as int, h as int);
                lemma_linear_index_in_bounds(x as int, y as int, w as int, h as int);
                lemma_linear_index_in_bounds(x as int + 1, y as int, w as int, h as int);
                lemma_linear_index_in_bounds(x as int - 1, y as int + 1, w as int, h as int);
                lemma_linear_index_in_bounds(x as int, y as int + 1, w as int, h as int);
                lemma_linear_index_in_bounds(x as int + 1, y as int + 1, w as int, h as int);
            }
            let current = y * w + x;
            let mut count: usize = 0;
            if board[(y - 1) * w + (x - 1)] == 1 {
                count = count + 1;
            }
            if board[(y - 1) * w + x] == 1 {
                count = count + 1;
            }
            if board[(y - 1) * w + (x + 1)] == 1 {
                count = count + 1;
            }
            if board[y * w + (x - 1)] == 1 {
                count = count + 1;
            }
            if board[y * w + (x + 1)] == 1 {
                count = count + 1;
            }
            if board[(y + 1) * w + (x - 1)] == 1 {
                count = count + 1;
            }
            if board[(y + 1) * w + x] == 1 {
                count = count + 1;
            }
            if board[(y + 1) * w + (x + 1)] == 1 {
                count = count + 1;
            }
            assert(count as int == live_neighbours(board@, w as int, x as int, y as int));
            let value: usize = if board[current] == 1 {
                if count == 2 || count == 3 {
                    1
                } else {
                    0
                }
            } else {
                if count == 3 {
                    1
                } else {
                    0
                }
            };
            let ghost prev = next@;
            next.set(current, value);
            proof {
                assert(value == next_cell(board@, w as int, x as int, y as int));
                assert forall|cx: int, cy: int| 0 <= cx < w && 0 <= cy < h implies next@[#[trigger] linear_index(
                    cx,
                    cy,
                    w as int,
                )] == (if stepped(w as int, h as int, x as int, y as int + 1, cx, cy) {
                    next_cell(board@, w as int, cx, cy)
                } else {
                    0
                }) by {
                    lemma_linear_index_in_bounds(cx, cy, w as int, h as int);
                    if linear_index(cx, cy, w as int) == linear_index(x as int, y as int, w as int) {
                        lemma_linear_index_unique(cx, cy, x as int, y as int, w as int);
                    } else {
                        assert(next@[linear_index(cx, cy, w as int)] == prev[linear_index(
                            cx,
                            cy,
                            w as int,
                        )]);
                    }
                }
            }
            y = y + 1;
        }
        x = x + 1;
    }
    next
}

} // verus!

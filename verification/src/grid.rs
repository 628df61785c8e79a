//! Row-major grids. Every flat buffer in the engine — the console's cell
//! buffer and the game boards — stores a `width` by `height` grid as one
//! sequence, with the cell at column `x`, row `y` at index `y * width + x`.

use vstd::prelude::*;

verus! {

/// The row-major index of column `x`, row `y` in a grid `w` cells wide.
pub open spec fn linear_index(x: int, y: int, w: int) -> int {
    y * w + x
}

/// A row-major index computed from in-bounds coordinates lands inside the
/// grid's buffer.
pub proof fn lemma_linear_index_in_bounds(x: int, y: int, w: int, h: int)
    requires
        0 <= x < w,
        0 <= y < h,
    ensures
        0 <= linear_index(x, y, w) < w * h,
{
    assert(0 <= y * w + x < w * h) by (nonlinear_arith)
        requires
            0 <= x < w,
            0 <= y < h,
    ;
}

/// Two in-bounds coordinate pairs with the same row-major index are the
/// same pair.
pub proof fn lemma_linear_index_unique(ax: int, ay: int, bx: int, by: int, w: int)
    requires
        0 <= ax < w,
        0 <= bx < w,
        linear_index(ax, ay, w) == linear_index(bx, by, w),
    ensures
        ax == bx,
        ay == by,
{
    assert(ax == bx && ay == by) by (nonlinear_arith)
        requires
            0 <= ax < w,
            0 <= bx < w,
            ay * w + ax == by * w + bx,
    ;
}

} // verus!

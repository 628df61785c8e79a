//! The rendering surface: a flat, row-major buffer of character cells.
//!
//! The buffer is the single source of truth for what is on screen. All draw
//! operations work purely on the in-memory buffer; pushing the buffer to a
//! real console window (the blit) is platform work and happens outside this
//! library, reading the buffer through [`Console::buffer`].

pub mod colour;

use crate::grid::lemma_linear_index_in_bounds;
use crate::grid::lemma_linear_index_unique;
use vstd::pervasive::VecAdditionalExecFns;
use vstd::prelude::*;

verus! {

/// Glyph of a fully filled cell.
pub const PIXEL: char = '█';

/// Glyph of a three-quarters filled cell.
pub const PIXEL_THREE_QUARTERS: char = '▓';

/// Glyph of a half filled cell.
pub const PIXEL_HALF: char = '▒';

/// Glyph of a quarter filled cell.
pub const PIXEL_QUARTER: char = '░';

/// One character cell: a glyph and a colour attribute code.
#[derive(Clone, Copy, Debug, PartialEq, Eq, Structural)]
pub struct Pixel {
    pub char_value: char,
    pub attributes: u16,
}

impl Pixel {
    /// The reserved empty cell: a space glyph on black.
    pub open spec fn empty_spec() -> Pixel {
        Pixel { char_value: ' ', attributes: colour::FG_BLACK }
    }

    /// The reserved empty cell, the default fill value of a fresh buffer.
    pub fn empty() -> (p: Pixel)
        ensures
            p == Pixel::empty_spec(),
    {
        Pixel { char_value: ' ', attributes: colour::FG_BLACK }
    }
}

/// A double-buffered character-grid surface of fixed dimensions. The
/// dimensions never change after creation, and neither does the buffer's
/// length.
pub struct Console {
    screen_buffer: Vec<Pixel>,
    width: usize,
    height: usize,
}

impl Console {
    /// The cells, row-major: the cell at column `x`, row `y` is at index
    /// `y * width + x`.
    pub closed spec fn buffer_seq(self) -> Seq<Pixel> {
        self.screen_buffer@
    }

    pub closed spec fn width_spec(self) -> int {
        self.width as int
    }

    pub closed spec fn height_spec(self) -> int {
        self.height as int
    }

    /// The buffer holds exactly one cell per coordinate pair, and the
    /// dimensions are machine sizes.
    pub open spec fn wf(self) -> bool {
        &&& self.buffer_seq().len() == self.width_spec() * self.height_spec()
        &&& 0 <= self.width_spec() <= usize::MAX
        &&& 0 <= self.height_spec() <= usize::MAX
    }

    /// The row-major index of the cell at column `x`, row `y`.
    pub open spec fn cell_index(self, x: int, y: int) -> int {
        y * self.width_spec() + x
    }

    /// The cell at column `x`, row `y`.
    pub open spec fn cell(self, x: int, y: int) -> Pixel {
        self.buffer_seq()[self.cell_index(x, y)]
    }

    /// Makes a `width` by `height` surface with every cell empty.
    pub fn create(width: u16, height: u16) -> (console: Console)
        ensures
            console.wf(),
            console.width_spec() == width as int,
            console.height_spec() == height as int,
            console.buffer_seq().len() == width as int * height as int,
            forall|i: int|
                0 <= i < console.buffer_seq().len() ==> console.buffer_seq()[i]
                    == Pixel::empty_spec(),
    {
        let w = width as usize;
        let h = height as usize;
        proof {
            assert(w as int * h as int <= 0xffff * 0xffff) by (nonlinear_arith)
                requires
                    0 <= w as int <= 0xffff,
                    0 <= h as int <= 0xffff,
            ;
        }
        let total = w * h;
        let mut screen_buffer: Vec<Pixel> = Vec::new();
        for _i in 0..total
            invariant
                screen_buffer@.len() == _i,
                forall|j: int|
                    0 <= j < screen_buffer@.len() ==> screen_buffer@[j] == Pixel::empty_spec(),
        {
            screen_buffer.push(Pixel::empty());
        }
        Console { screen_buffer, width: w, height: h }
    }

    /// Writes one cell. Coordinates must be in bounds: out-of-range access
    /// is a contract violation, prevented at the caller.
    pub fn draw_pixel(&mut self, x: usize, y: usize, pixel: &Pixel)
        requires
            old(self).wf(),
            x < old(self).width_spec(),
            y < old(self).height_spec(),
        ensures
            final(self).wf(),
            final(self).width_spec() == old(self).width_spec(),
            final(self).height_spec() == old(self).height_spec(),
            final(self).buffer_seq() == old(self).buffer_seq().update(
                old(self).cell_index(x as int, y as int),
                *pixel,
            ),
    {
        proof {
            assert(self.screen_buffer.len() == self.screen_buffer@.len());
            lemma_linear_index_in_bounds(
                x as int,
                y as int,
                self.width_spec(),
                self.height_spec(),
            );
        }
        let index = y * self.width + x;
        self.screen_buffer.set(index, *pixel);
    }

    /// Writes the characters of `string` left to right starting at `(x, y)`,
    /// all with the attribute `colour`. The string does not wrap or clip:
    /// the caller must make it fit on row `y`.
    pub fn draw_string(&mut self, x: usize, y: usize, string: &str, colour: u16)
        requires
            old(self).wf(),
            x + string@.len() <= old(self).width_spec(),
            y < old(self).height_spec(),
        ensures
            final(self).wf(),
            final(self).width_spec() == old(self).width_spec(),
            final(self).height_spec() == old(self).height_spec(),
            forall|i: int|
                0 <= i < string@.len() ==> final(self).cell(x + i, y as int) == (Pixel {
                    char_value: string@[i],
                    attributes: colour,
                }),
            forall|k: int|
                0 <= k < old(self).buffer_seq().len() && !(old(self).cell_index(x as int, y as int)
                    <= k < old(self).cell_index(x as int, y as int) + string@.len())
                    ==> final(self).buffer_seq()[k] == old(self).buffer_seq()[k],
    {
        let ghost base = old(self).cell_index(x as int, y as int);
        let n = string.unicode_len();
        let mut str_x: usize = 0;
        while str_x < n
            invariant
                self.wf(),
                self.width_spec() == old(self).width_spec(),
                self.height_spec() == old(self).height_spec(),
                self.buffer_seq().len() == old(self).buffer_seq().len(),
                base == y as int * self.width_spec() + x as int,
                n == string@.len(),
                x + n <= self.width_spec(),
                y < self.height_spec(),
                str_x <= n,
                forall|k: int|
                    base <= k < base + str_x ==> self.buffer_seq()[k] == (Pixel {
                        char_value: string@[k - base],
                        attributes: colour,
                    }),
                forall|k: int|
                    0 <= k < old(self).buffer_seq().len() && !(base <= k < base + str_x)
                        ==> self.buffer_seq()[k] == old(self).buffer_seq()[k],
            decreases n - str_x,
        {
            let c = string.get_char(str_x);
            let pixel = Pixel { char_value: c, attributes: colour };
            let ghost pre = *self;
            self.draw_pixel(x + str_x, y, &pixel);
            proof {
                lemma_linear_index_in_bounds(
                    (x + str_x) as int,
                    y as int,
                    self.width_spec(),
                    self.height_spec(),
                );
                assert(pre.cell_index((x + str_x) as int, y as int) == base + str_x);
                assert(self.buffer_seq() == pre.buffer_seq().update(base + str_x, pixel));
                assert forall|k: int| base <= k < base + str_x + 1 implies self.buffer_seq()[k]
                    == (Pixel { char_value: string@[k - base], attributes: colour }) by {
                    if k == base + str_x {
                        assert(self.buffer_seq()[k] == pixel);
                        assert(string@[k - base] == c);
                    } else {
                        assert(self.buffer_seq()[k] == pre.buffer_seq()[k]);
                    }
                }
                assert forall|k: int|
                    0 <= k < old(self).buffer_seq().len() && !(base <= k < base + str_x
                        + 1) implies self.buffer_seq()[k] == old(self).buffer_seq()[k] by {
                    assert(self.buffer_seq()[k] == pre.buffer_seq()[k]);
                }
            }
            str_x = str_x + 1;
        }
        proof {
            assert forall|i: int| 0 <= i < string@.len() implies self.cell(x + i, y as int)
                == (Pixel { char_value: string@[i], attributes: colour }) by {
                assert(self.cell_index(x + i, y as int) == base + i);
                assert(self.buffer_seq()[base + i] == (Pixel {
                    char_value: string@[i],
                    attributes: colour,
                }));
            }
        }
    }

    /// Fills the bottom-right region: writes `pixel` to every cell whose
    /// column is at least `x` and whose row is at least `y`, and leaves every
    /// other cell unchanged. This corner-to-edge fill is the engine's defined
    /// fill semantics, not a whole-buffer clear.
    pub fn fill(&mut self, x: usize, y: usize, pixel: &Pixel)
        requires
            old(self).wf(),
        ensures
            final(self).wf(),
            final(self).width_spec() == old(self).width_spec(),
            final(self).height_spec() == old(self).height_spec(),
            forall|cx: int, cy: int|
                0 <= cx < old(self).width_spec() && 0 <= cy < old(self).height_spec()
                    ==> #[trigger] final(self).cell(cx, cy) == (if cx >= x && cy >= y {
                    *pixel
                } else {
                    old(self).cell(cx, cy)
                }),
    {
        let w = self.width;
        let h = self.height;
        let mut screen_x = x;
        while screen_x < w
            invariant
                self.wf(),
                self.width_spec() == old(self).width_spec(),
                self.height_spec() == old(self).height_spec(),
                w == self.width_spec(),
                h == self.height_spec(),
                x <= screen_x,
                forall|cx: int, cy: int|
                    0 <= cx < w && 0 <= cy < h ==> #[trigger] self.cell(cx, cy) == (if x <= cx
                        < screen_x && cy >= y {
                        *pixel
                    } else {
                        old(self).cell(cx, cy)
                    }),
            decreases w - screen_x,
        {
            let mut screen_y = y;
            while screen_y < h
                invariant
                    self.wf(),
                    self.width_spec() == old(self).width_spec(),
                    self.height_spec() == old(self).height_spec(),
                    w == self.width_spec(),
                    h == self.height_spec(),
                    x <= screen_x < w,
                    y <= screen_y,
                    forall|cx: int, cy: int|
                        0 <= cx < w && 0 <= cy < h ==> #[trigger] self.cell(cx, cy) == (if (x <= cx
                            < screen_x && cy >= y) || (cx == screen_x && y <= cy < screen_y) {
                            *pixel
                        } else {
                            old(self).cell(cx, cy)
                        }),
                decreases h - screen_y,
            {
                let ghost pre = *self;
                self.draw_pixel(screen_x, screen_y, pixel);
                proof {
                    assert forall|cx: int, cy: int| 0 <= cx < w && 0 <= cy < h implies #[trigger] self.cell(
                        cx,
                        cy,
                    ) == (if (x <= cx < screen_x && cy >= y) || (cx == screen_x && y <= cy
                        < screen_y + 1) {
                        *pixel
                    } else {
                        old(self).cell(cx, cy)
                    }) by {
                        lemma_linear_index_in_bounds(cx, cy, w as int, h as int);
                        lemma_linear_index_in_bounds(
                            screen_x as int,
                            screen_y as int,
                            w as int,
                            h as int,
                        );
                        assert(pre.cell(cx, cy) == pre.buffer_seq()[cy * w as int + cx]);
                        if cy * w as int + cx == screen_y as int * w as int + screen_x as int {
                            lemma_linear_index_unique(
                                cx,
                                cy,
                                screen_x as int,
                                screen_y as int,
                                w as int,
                            );
                        }
                    }
                }
                screen_y = screen_y + 1;
            }
            screen_x = screen_x + 1;
        }
    }

    /// Draws a whole `grid_width` by `grid_height` grid of cell values,
    /// each value rendered through the asset table, with the grid's
    /// top-left corner at `(offset_x, offset_y)`. Cells outside the grid's
    /// rectangle keep their value.
    pub fn draw_grid(
        &mut self,
        board: &Vec<usize>,
        grid_width: usize,
        grid_height: usize,
        assets: &Vec<Pixel>,
        offset_x: usize,
        offset_y: usize,
    )
        requires
            old(self).wf(),
            board@.len() == grid_width * grid_height,
            offset_x + grid_width <= old(self).width_spec(),
            offset_y + grid_height <= old(self).height_spec(),
            forall|i: int| 0 <= i < board@.len() ==> #[trigger] board@[i] < assets@.len(),
        ensures
            final(self).wf(),
            final(self).width_spec() == old(self).width_spec(),
            final(self).height_spec() == old(self).height_spec(),
            forall|cx: int, cy: int|
                0 <= cx < grid_width && 0 <= cy < grid_height ==> final(self).cell(
                    offset_x + cx,
                    offset_y + cy,
                ) == assets@[board@[#[trigger] crate::grid::linear_index(
                    cx,
                    cy,
                    grid_width as int,
                )] as int],
            forall|cx: int, cy: int|
                0 <= cx < old(self).width_spec() && 0 <= cy < old(self).height_spec() && !(offset_x
                    <= cx < offset_x + grid_width && offset_y <= cy < offset_y + grid_height)
                    ==> final(self).cell(cx, cy) == old(self).cell(cx, cy),
    {
        let w = self.get_width();
        let h = self.get_height();
        let mut gx: usize = 0;
        while gx < grid_width
            invariant
                self.wf(),
                self.width_spec() == old(self).width_spec(),
                self.height_spec() == old(self).height_spec(),
                w == self.width_spec(),
                h == self.height_spec(),
                gx <= grid_width,
                board@.len() == grid_width * grid_height,
                offset_x + grid_width <= w,
                offset_y + grid_height <= h,
                forall|i: int| 0 <= i < board@.len() ==> #[trigger] board@[i] < assets@.len(),
                forall|cx: int, cy: int|
                    0 <= cx < w && 0 <= cy < h ==> #[trigger] self.cell(cx, cy) == (if offset_x
                        <= cx < offset_x + gx && offset_y <= cy < offset_y + grid_height {
                        assets@[board@[crate::grid::linear_index(
                            cx - offset_x,
                            cy - offset_y,
                            grid_width as int,
                        )] as int]
                    } else {
                        old(self).cell(cx, cy)
                    }),
            decreases grid_width - gx,
        {
            let mut gy: usize = 0;
            while gy < grid_height
                invariant
                    self.wf(),
                    self.width_spec() == old(self).width_spec(),
                    self.height_spec() == old(self).height_spec(),
                    w == self.width_spec(),
                    h == self.height_spec(),
                    gx < grid_width,
                    gy <= grid_height,
                    board@.len() == grid_width * grid_height,
                    offset_x + grid_width <= w,
                    offset_y + grid_height <= h,
                    forall|i: int| 0 <= i < board@.len() ==> #[trigger] board@[i] < assets@.len(),
                    forall|cx: int, cy: int|
                        0 <= cx < w && 0 <= cy < h ==> #[trigger] self.cell(cx, cy) == (if (
                        offset_x <= cx < offset_x + gx && offset_y <= cy < offset_y + grid_height)
                            || (cx == offset_x + gx && offset_y <= cy < offset_y + gy) {
                            assets@[board@[crate::grid::linear_index(
                                cx - offset_x,
                                cy - offset_y,
                                grid_width as int,
                            )] as int]
                        } else {
                            old(self).cell(cx, cy)
                        }),
                decreases grid_height - gy,
            {
                proof {
                    assert(board@.len() == board.len());
                    lemma_linear_index_in_bounds(
                        gx as int,
                        gy as int,
                        grid_width as int,
                        grid_height as int,
                    );
                }
                let value = board[gy * grid_width + gx];
                let ghost pre = *self;
                self.draw_pixel(offset_x + gx, offset_y + gy, &assets[value]);
                proof {
                    let sx = offset_x + gx as int;
                    let sy = offset_y + gy as int;
                    assert forall|cx: int, cy: int| 0 <= cx < w && 0 <= cy < h implies #[trigger] self.cell(
                        cx,
                        cy,
                    ) == (if (offset_x <= cx < offset_x + gx && offset_y <= cy < offset_y
                        + grid_height) || (cx == offset_x + gx && offset_y <= cy < offset_y + gy
                        + 1) {
                        assets@[board@[crate::grid::linear_index(
                            cx - offset_x,
                            cy - offset_y,
                            grid_width as int,
                        )] as int]
                    } else {
                        old(self).cell(cx, cy)
                    }) by {
                        lemma_linear_index_in_bounds(cx, cy, w as int, h as int);
                        lemma_linear_index_in_bounds(sx, sy, w as int, h as int);
                        assert(pre.cell(cx, cy) == pre.buffer_seq()[cy * w as int + cx]);
                        if cy * w as int + cx == sy * w as int + sx {
                            lemma_linear_index_unique(cx, cy, sx, sy, w as int);
                        }
                    }
                }
                gy = gy + 1;
            }
            gx = gx + 1;
        }
    }

    /// Reads one cell; same bounds contract as `draw_pixel`.
    pub fn get_pixel(&self, x: usize, y: usize) -> (pixel: Pixel)
        requires
            self.wf(),
            x < self.width_spec(),
            y < self.height_spec(),
        ensures
            pixel == self.cell(x as int, y as int),
    {
        proof {
            assert(self.screen_buffer.len() == self.screen_buffer@.len());
            lemma_linear_index_in_bounds(x as int, y as int, self.width_spec(), self.height_spec());
        }
        let index = y * self.width + x;
        self.screen_buffer[index]
    }

    pub fn get_width(&self) -> (w: usize)
        ensures
            w == self.width_spec(),
    {
        self.width
    }

    pub fn get_height(&self) -> (h: usize)
        ensures
            h == self.height_spec(),
    {
        self.height
    }

    /// Read-only access to the whole buffer, for the platform layer that
    /// blits it to the visible console. The surface never feeds back into
    /// the buffer.
    pub fn buffer(&self) -> (buffer: &Vec<Pixel>)
        ensures
            buffer@ == self.buffer_seq(),
    {
        &self.screen_buffer
    }
}

} // verus!

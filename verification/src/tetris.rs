//! Tetromino geometry and collision.
//!
//! Each tetromino shape is one fixed 16-cell template (a 4 by 4 grid,
//! row-major): cell value 0 is empty space, a non-zero value is a block and
//! names the asset that renders it. Rotation never rewrites the template;
//! instead a closed-form index mapping turns a logical cell coordinate plus
//! a rotation step into the physical index into the unrotated template.
//!
//! Collision is checked against a board: a flat row-major grid of small
//! integers where 0 means empty. A template cell that would land outside the
//! board on the right or bottom is skipped, not rejected: keeping a piece on
//! the board is the board's responsibility, through border cells.

use crate::grid::lemma_linear_index_in_bounds;
use crate::grid::lemma_linear_index_unique;
use rand::Rng;
use vstd::pervasive::VecAdditionalExecFns;
use vstd::prelude::*;

verus! {

/// Width of the playing board, border columns included.
pub const BOARD_WIDTH: usize = 12;

/// Height of the playing board, the border row included.
pub const BOARD_HEIGHT: usize = 18;

/// The physical index into an unrotated 16-cell template of the logical
/// cell `(x, y)` seen at `rotation` quarter-turns (counted clockwise).
pub open spec fn rotated_index(x: int, y: int, rotation: int) -> int {
    if rotation % 4 == 0 {
        y * 4 + x
    } else if rotation % 4 == 1 {
        12 + y - (x * 4)
    } else if rotation % 4 == 2 {
        15 - (y * 4) - x
    } else {
        3 - y + (x * 4)
    }
}

/// Computes the rotated template index of the logical cell `(x, y)`.
pub fn to_4x4_rotated_index(x: usize, y: usize, rotation: usize) -> (index: usize)
    requires
        x < 4,
        y < 4,
    ensures
        index as int == rotated_index(x as int, y as int, rotation as int),
        index < 16,
{
    let index = match rotation % 4 {
        0 => y * 4 + x,
        1 => 12 + y - (x * 4),
        2 => 15 - (y * 4) - x,
        3 => 3 - y + (x * 4),
        _ => 0,
    };
    index
}

/// The row-major index of column `x`, row `y` in a flat grid `array_width`
/// cells wide.
pub fn to_2d_index(x: usize, y: usize, array_width: usize) -> (index: usize)
    requires
        y * array_width + x <= usize::MAX,
    ensures
        index as int == crate::grid::linear_index(x as int, y as int, array_width as int),
{
    y * array_width + x
}

/// The templates of the seven tetromino shapes, by shape index: Line, T,
/// Block, Z, S, L, J. Each non-zero cell holds the shape's asset number.
pub open spec fn tetromino_spec(shape: int) -> Seq<usize> {
    if shape == 0 {
        seq![0usize, 0, 1, 0, 0, 0, 1, 0, 0, 0, 1, 0, 0, 0, 1, 0]
    } else if shape == 1 {
        seq![0usize, 0, 2, 0, 0, 2, 2, 0, 0, 0, 2, 0, 0, 0, 0, 0]
    } else if shape == 2 {
        seq![0usize, 0, 0, 0, 0, 3, 3, 0, 0, 3, 3, 0, 0, 0, 0, 0]
    } else if shape == 3 {
        seq![0usize, 0, 4, 0, 0, 4, 4, 0, 0, 4, 0, 0, 0, 0, 0, 0]
    } else if shape == 4 {
        seq![0usize, 5, 0, 0, 0, 5, 5, 0, 0, 0, 5, 0, 0, 0, 0, 0]
    } else if shape == 5 {
        seq![0usize, 6, 0, 0, 0, 6, 0, 0, 0, 6, 6, 0, 0, 0, 0, 0]
    } else {
        seq![0usize, 0, 7, 0, 0, 0, 7, 0, 0, 7, 7, 0, 0, 0, 0, 0]
    }
}

/// Whether the template cell `(px, py)`, seen at `rotation`, collides when
/// the template's top-left corner stands at board position `(x, y)`: the
/// template cell is a block, it lands on the board, and the board cell
/// there is not empty.
pub open spec fn collides_at(
    template: Seq<usize>,
    x: int,
    y: int,
    rotation: int,
    board: Seq<usize>,
    px: int,
    py: int,
) -> bool {
    &&& template[rotated_index(px, py, rotation)] != 0
    &&& px + x < BOARD_WIDTH
    &&& py + y < BOARD_HEIGHT
    &&& board[crate::grid::linear_index(px + x, py + y, BOARD_WIDTH as int)] != 0
}

/// Whether the whole template, seen at `rotation`, fits with its top-left
/// corner at board position `(x, y)`: no cell collides.
pub open spec fn fits(
    template: Seq<usize>,
    x: int,
    y: int,
    rotation: int,
    board: Seq<usize>,
) -> bool {
    forall|px: int, py: int|
        0 <= px < 4 && 0 <= py < 4 ==> !collides_at(template, x, y, rotation, board, px, py)
}

/// The live tetromino: a board position, a rotation step, and the shape's
/// unrotated template. Replaced, not mutated, when a piece locks.
pub struct Piece {
    pub pos_x: usize,
    pub pos_y: usize,
    pub rotation: usize,
    pub piece_type: [usize; 16],
}

impl Piece {
    /// Builds the shape with the given index at the spawn position: centre
    /// column, top row, unrotated.
    pub fn from_index(shape: usize) -> (piece: Piece)
        requires
            shape < 7,
        ensures
            piece.pos_x == BOARD_WIDTH / 2,
            piece.pos_y == 0,
            piece.rotation == 0,
            piece.piece_type@ == tetromino_spec(shape as int),
    {
        let piece_type: [usize; 16] = match shape {
            0 => [0, 0, 1, 0, 0, 0, 1, 0, 0, 0, 1, 0, 0, 0, 1, 0],
            1 => [0, 0, 2, 0, 0, 2, 2, 0, 0, 0, 2, 0, 0, 0, 0, 0],
            2 => [0, 0, 0, 0, 0, 3, 3, 0, 0, 3, 3, 0, 0, 0, 0, 0],
            3 => [0, 0, 4, 0, 0, 4, 4, 0, 0, 4, 0, 0, 0, 0, 0, 0],
            4 => [0, 5, 0, 0, 0, 5, 5, 0, 0, 0, 5, 0, 0, 0, 0, 0],
            5 => [0, 6, 0, 0, 0, 6, 0, 0, 0, 6, 6, 0, 0, 0, 0, 0],
            _ => [0, 0, 7, 0, 0, 0, 7, 0, 0, 7, 7, 0, 0, 0, 0, 0],
        };
        proof {
            assert(piece_type@ =~= tetromino_spec(shape as int));
        }
        Piece { pos_x: BOARD_WIDTH / 2, pos_y: 0, rotation: 0, piece_type }
    }

    /// Checks whether this piece's template, seen at `rotation`, fits with
    /// its top-left corner at board position `(x, y)`.
    pub fn does_fit(&self, x: usize, y: usize, rotation: usize, board: &Vec<usize>) -> (fit: bool)
        requires
            board@.len() == BOARD_WIDTH * BOARD_HEIGHT,
        ensures
            fit == fits(self.piece_type@, x as int, y as int, rotation as int, board@),
    {
        let mut px: usize = 0;
        while px < 4
            invariant
                px <= 4,
                board@.len() == BOARD_WIDTH * BOARD_HEIGHT,
                forall|a: int, b: int|
                    0 <= a < px && 0 <= b < 4 ==> !collides_at(
                        self.piece_type@,
                        x as int,
                        y as int,
                        rotation as int,
                        board@,
                        a,
                        b,
                    ),
            decreases 4 - px,
        {
            let mut py: usize = 0;
            while py < 4
                invariant
                    px < 4,
                    py <= 4,
                    board@.len() == BOARD_WIDTH * BOARD_HEIGHT,
                    forall|a: int, b: int|
                        0 <= a < px && 0 <= b < 4 ==> !collides_at(
                            self.piece_type@,
                            x as int,
                            y as int,
                            rotation as int,
                            board@,
                            a,
                            b,
                        ),
                    forall|b: int|
                        0 <= b < py ==> !collides_at(
                            self.piece_type@,
                            x as int,
                            y as int,
                            rotation as int,
                            board@,
                            px as int,
                            b,
                        ),
                decreases 4 - py,
            {
                let index = to_4x4_rotated_index(px, py, rotation);
                if x < BOARD_WIDTH && px < BOARD_WIDTH - x && y < BOARD_HEIGHT && py < BOARD_HEIGHT
                    - y {
                    let new_index = to_2d_index(px + x, py + y, BOARD_WIDTH);
                    if self.piece_type[index] != 0 && board[new_index] != 0 {
                        assert(collides_at(
                            self.piece_type@,
                            x as int,
                            y as int,
                            rotation as int,
                            board@,
                            px as int,
                            py as int,
                        ));
                        return false;
                    }
                }
                py = py + 1;
            }
            px = px + 1;
        }
        true
    }

    /// Whether the piece, at its current rotation, has a block at the
    /// logical cell `(px, py)`.
    pub open spec fn occupied(self, px: int, py: int) -> bool {
        self.piece_type@[rotated_index(px, py, self.rotation as int)] != 0
    }

    /// Every block of the piece, at its current rotation, lies on the
    /// board. Boards with border cells keep a falling piece in this state;
    /// it is what locking needs.
    pub open spec fn on_board(self) -> bool {
        forall|px: int, py: int|
            0 <= px < 4 && 0 <= py < 4 && self.occupied(px, py) ==> px + self.pos_x < BOARD_WIDTH
                && py + self.pos_y < BOARD_HEIGHT
    }

    /// Whether locking the piece writes the board cell at index `k`, only
    /// counting blocks among the first `upto` logical cells in column-major
    /// scan order (cell `(px, py)` is scanned at position `px * 4 + py`).
    pub open spec fn covers_upto(self, k: int, upto: int) -> bool {
        exists|a: int, b: int|
            0 <= a < 4 && 0 <= b < 4 && a * 4 + b < upto && self.occupied(a, b) && k
                == crate::grid::linear_index(
                a + self.pos_x,
                b + self.pos_y,
                BOARD_WIDTH as int,
            )
    }

    /// Whether locking the piece writes the board cell at index `k`.
    pub open spec fn covers(self, k: int) -> bool {
        self.covers_upto(k, 16)
    }

    /// Checks that every block of the piece, at its current rotation, lies
    /// on the board, so that an unverified caller can test `on_board`
    /// before locking.
    pub fn is_on_board(&self) -> (on: bool)
        ensures
            on == self.on_board(),
    {
        let mut px: usize = 0;
        while px < 4
            invariant
                px <= 4,
                forall|a: int, b: int|
                    0 <= a < px && 0 <= b < 4 && #[trigger] self.occupied(a, b) ==> a + self.pos_x
                        < BOARD_WIDTH && b + self.pos_y < BOARD_HEIGHT,
            decreases 4 - px,
        {
            let mut py: usize = 0;
            while py < 4
                invariant
                    px < 4,
                    py <= 4,
                    forall|a: int, b: int|
                        0 <= a < px && 0 <= b < 4 && #[trigger] self.occupied(a, b) ==> a
                            + self.pos_x < BOARD_WIDTH && b + self.pos_y < BOARD_HEIGHT,
                    forall|b: int|
                        0 <= b < py && #[trigger] self.occupied(px as int, b) ==> px + self.pos_x
                            < BOARD_WIDTH && b + self.pos_y < BOARD_HEIGHT,
                decreases 4 - py,
            {
                let index = to_4x4_rotated_index(px, py, self.rotation);
                if self.piece_type[index] != 0 {
                    let off_board = !(self.pos_x < BOARD_WIDTH && px < BOARD_WIDTH - self.pos_x
                        && self.pos_y < BOARD_HEIGHT && py < BOARD_HEIGHT - self.pos_y);
                    if off_board {
                        assert(self.occupied(px as int, py as int));
                        return false;
                    }
                }
                py = py + 1;
            }
            px = px + 1;
        }
        true
    }

    /// Moves the piece to `(x, y)` if its template fits there at the
    /// current rotation; otherwise the piece stays where it was. Rejection
    /// is silent: it is flow control, not an error.
    pub fn set_position(&mut self, x: usize, y: usize, board: &Vec<usize>)
        requires
            board@.len() == BOARD_WIDTH * BOARD_HEIGHT,
        ensures
            final(self).piece_type == old(self).piece_type,
            final(self).rotation == old(self).rotation,
            if fits(
                old(self).piece_type@,
                x as int,
                y as int,
                old(self).rotation as int,
                board@,
            ) {
                final(self).pos_x == x && final(self).pos_y == y
            } else {
                final(self).pos_x == old(self).pos_x && final(self).pos_y == old(self).pos_y
            },
    {
        let rotation = self.rotation;
        if self.does_fit(x, y, rotation, board) {
            self.pos_x = x;
            self.pos_y = y;
        }
    }

    /// Checks whether the piece fits at the *requested* rotation, but on
    /// success always advances the stored rotation by exactly one step,
    /// whatever was requested. The coupling is deliberate: callers request
    /// the next step, and the piece never jumps a rotation.
    pub fn set_rotation(&mut self, rotation: usize, board: &Vec<usize>)
        requires
            board@.len() == BOARD_WIDTH * BOARD_HEIGHT,
        ensures
            final(self).piece_type == old(self).piece_type,
            final(self).pos_x == old(self).pos_x,
            final(self).pos_y == old(self).pos_y,
            if fits(
                old(self).piece_type@,
                old(self).pos_x as int,
                old(self).pos_y as int,
                rotation as int,
                board@,
            ) {
                final(self).rotation as int == (old(self).rotation as int + 1) % 4
            } else {
                final(self).rotation == old(self).rotation
            },
    {
        let pos_x = self.pos_x;
        let pos_y = self.pos_y;
        if self.does_fit(pos_x, pos_y, rotation, board) {
            let m = self.rotation % 4;
            proof {
                let r = old(self).rotation as int;
                assert((r + 1) % 4 == (if r % 4 == 3 {
                    0int
                } else {
                    r % 4 + 1
                })) by (nonlinear_arith)
                    requires
                        r >= 0,
                ;
            }
            self.rotation = if m == 3 {
                0
            } else {
                m + 1
            };
        }
    }

    /// Merges the piece into the board: every block of the template, at the
    /// current rotation, is copied to the board cell under it; every other
    /// board cell keeps its value.
    pub fn lock(&self, board: &mut Vec<usize>)
        requires
            old(board)@.len() == BOARD_WIDTH * BOARD_HEIGHT,
            self.on_board(),
        ensures
            final(board)@.len() == old(board)@.len(),
            forall|px: int, py: int|
                0 <= px < 4 && 0 <= py < 4 && #[trigger] self.occupied(px, py)
                    ==> final(board)@[crate::grid::linear_index(
                    px + self.pos_x,
                    py + self.pos_y,
                    BOARD_WIDTH as int,
                )] == self.piece_type@[rotated_index(px, py, self.rotation as int)],
            forall|k: int|
                0 <= k < old(board)@.len() && !self.covers(k)
                    ==> final(board)@[k] == old(board)@[k],
    {
        let mut x: usize = 0;
        while x < 4
            invariant
                x <= 4,
                board@.len() == old(board)@.len(),
                old(board)@.len() == BOARD_WIDTH * BOARD_HEIGHT,
                self.on_board(),
                forall|a: int, b: int|
                    0 <= a < 4 && 0 <= b < 4 && a * 4 + b < x * 4 && #[trigger] self.occupied(
                        a,
                        b,
                    ) ==> board@[crate::grid::linear_index(
                        a + self.pos_x,
                        b + self.pos_y,
                        BOARD_WIDTH as int,
                    )] == self.piece_type@[rotated_index(a, b, self.rotation as int)],
                forall|k: int|
                    0 <= k < old(board)@.len() && !self.covers_upto(k, x as int * 4) ==> board@[k]
                        == old(board)@[k],
            decreases 4 - x,
        {
            let mut y: usize = 0;
            while y < 4
                invariant
                    x < 4,
                    y <= 4,
                    board@.len() == old(board)@.len(),
                    old(board)@.len() == BOARD_WIDTH * BOARD_HEIGHT,
                    self.on_board(),
                    forall|a: int, b: int|
                        0 <= a < 4 && 0 <= b < 4 && a * 4 + b < x * 4 + y && #[trigger] self.occupied(
                            a,
                            b,
                        ) ==> board@[crate::grid::linear_index(
                            a + self.pos_x,
                            b + self.pos_y,
                            BOARD_WIDTH as int,
                        )] == self.piece_type@[rotated_index(a, b, self.rotation as int)],
                    forall|k: int|
                        0 <= k < old(board)@.len() && !self.covers_upto(k, x as int * 4 + y)
                            ==> board@[k] == old(board)@[k],
                decreases 4 - y,
            {
                let piece_index = to_4x4_rotated_index(x, y, self.rotation);
                let ghost prev = board@;
                if self.piece_type[piece_index] != 0 {
                    assert(self.occupied(x as int, y as int));
                    let board_index = to_2d_index(x + self.pos_x, y + self.pos_y, BOARD_WIDTH);
                    proof {
                        lemma_linear_index_in_bounds(
                            x + self.pos_x as int,
                            y + self.pos_y as int,
                            BOARD_WIDTH as int,
                            BOARD_HEIGHT as int,
                        );
                    }
                    board.set(board_index, self.piece_type[piece_index]);
                }
                proof {
                    let sx = x as int;
                    let sy = y as int;
                    let upto = sx * 4 + sy;
                    assert forall|a: int, b: int|
                        0 <= a < 4 && 0 <= b < 4 && a * 4 + b < upto + 1 && #[trigger] self.occupied(
                            a,
                            b,
                        ) implies board@[crate::grid::linear_index(
                        a + self.pos_x,
                        b + self.pos_y,
                        BOARD_WIDTH as int,
                    )] == self.piece_type@[rotated_index(a, b, self.rotation as int)] by {
                        let ka = crate::grid::linear_index(
                            a + self.pos_x,
                            b + self.pos_y,
                            BOARD_WIDTH as int,
                        );
                        lemma_linear_index_in_bounds(
                            a + self.pos_x,
                            b + self.pos_y,
                            BOARD_WIDTH as int,
                            BOARD_HEIGHT as int,
                        );
                        if self.occupied(sx, sy) {
                            let kw = crate::grid::linear_index(
                                sx + self.pos_x,
                                sy + self.pos_y,
                                BOARD_WIDTH as int,
                            );
                            if ka == kw {
                                lemma_linear_index_unique(
                                    a + self.pos_x,
                                    b + self.pos_y,
                                    sx + self.pos_x,
                                    sy + self.pos_y,
                                    BOARD_WIDTH as int,
                                );
                                assert(a == sx && b == sy);
                            } else {
                                assert(board@[ka] == prev[ka]);
                                assert(a * 4 + b < upto);
                            }
                        } else {
                            assert(board@ == prev);
                            assert(a * 4 + b < upto);
                        }
                    }
                    assert forall|k: int|
                        0 <= k < old(board)@.len() && !self.covers_upto(k, upto + 1) implies board@[k]
                        == old(board)@[k] by {
                        assert(!self.covers_upto(k, upto));
                        if self.occupied(sx, sy) {
                            let kw = crate::grid::linear_index(
                                sx + self.pos_x,
                                sy + self.pos_y,
                                BOARD_WIDTH as int,
                            );
                            assert(k != kw);
                            assert(board@[k] == prev[k]);
                        } else {
                            assert(board@ == prev);
                        }
                    }
                }
                y = y + 1;
            }
            x = x + 1;
        }
    }
}

/// A fresh board: empty everywhere except for `border_value` in the whole
/// left column, the whole right column, and the whole bottom row. The
/// borders are what keeps a falling piece inside the board: `does_fit`
/// itself skips cells that fall off the board.
pub fn bordered_board(border_value: usize) -> (board: Vec<usize>)
    ensures
        board@.len() == BOARD_WIDTH * BOARD_HEIGHT,
        forall|x: int, y: int|
            0 <= x < BOARD_WIDTH && 0 <= y < BOARD_HEIGHT
                ==> board@[#[trigger] crate::grid::linear_index(x, y, BOARD_WIDTH as int)] == (if x
                == 0 || x == BOARD_WIDTH - 1 || y == BOARD_HEIGHT - 1 {
                border_value
            } else {
                0
            }),
{
    let mut board: Vec<usize> = Vec::new();
    let mut y: usize = 0;
    while y < BOARD_HEIGHT
        invariant
            y <= BOARD_HEIGHT,
            board@.len() == y * BOARD_WIDTH,
            forall|a: int, b: int|
                0 <= a < BOARD_WIDTH && 0 <= b < y
                    ==> board@[#[trigger] crate::grid::linear_index(a, b, BOARD_WIDTH as int)] == (
                if a == 0 || a == BOARD_WIDTH - 1 || b == BOARD_HEIGHT - 1 {
                    border_value
                } else {
                    0
                }),
        decreases BOARD_HEIGHT - y,
    {
        let mut x: usize = 0;
        while x < BOARD_WIDTH
            invariant
                y < BOARD_HEIGHT,
                x <= BOARD_WIDTH,
                board@.len() == y * BOARD_WIDTH + x,
                forall|a: int, b: int|
                    0 <= a < BOARD_WIDTH && 0 <= b < y
                        ==> board@[#[trigger] crate::grid::linear_index(a, b, BOARD_WIDTH as int)]
                        == (if a == 0 || a == BOARD_WIDTH - 1 || b == BOARD_HEIGHT - 1 {
                        border_value
                    } else {
                        0
                    }),
                forall|a: int|
                    0 <= a < x ==> board@[#[trigger] crate::grid::linear_index(
                        a,
                        y as int,
                        BOARD_WIDTH as int,
                    )] == (if a == 0 || a == BOARD_WIDTH - 1 || y == BOARD_HEIGHT - 1 {
                        border_value
                    } else {
                        0
                    }),
            decreases BOARD_WIDTH - x,
        {
            let value = if x == 0 || x == BOARD_WIDTH - 1 || y == BOARD_HEIGHT - 1 {
                border_value
            } else {
                0
            };
            board.push(value);
            x = x + 1;
        }
        y = y + 1;
    }
    board
}

/// Relies on rand's `Rng::gen_range` on the range `0..6`: it returns a
/// value sampled from that range, and panics only on an empty range, which
/// `0..6` is not.
#[verifier::external_body]
fn random_piece_index() -> (shape: usize)
    ensures
        shape < 6,
{
    rand::thread_rng().gen_range(0..6)
}

impl Piece {
    /// Spawns a piece with a randomly drawn shape at the spawn position:
    /// centre column, top row, unrotated. The draw covers the first six
    /// templates only: the seventh shape never spawns.
    pub fn new() -> (piece: Piece)
        ensures
            piece.pos_x == BOARD_WIDTH / 2,
            piece.pos_y == 0,
            piece.rotation == 0,
            exists|shape: int| 0 <= shape < 6 && piece.piece_type@ == tetromino_spec(shape),
    {
        let shape = random_piece_index();
        let piece = Piece::from_index(shape);
        proof {
            assert(piece.piece_type@ == tetromino_spec(shape as int));
        }
        piece
    }
}

/// Whether drawing `piece` with the board's top-left corner at
/// `(offset_x, offset_y)` writes the console cell whose buffer index is
/// `k`, only counting blocks among the first `upto` logical cells in
/// column-major scan order.
pub open spec fn draw_covers_upto(
    piece: Piece,
    console_width: int,
    offset_x: int,
    offset_y: int,
    k: int,
    upto: int,
) -> bool {
    exists|a: int, b: int|
        0 <= a < 4 && 0 <= b < 4 && a * 4 + b < upto && piece.occupied(a, b) && k
            == crate::grid::linear_index(
            offset_x + piece.pos_x + a,
            offset_y + piece.pos_y + b,
            console_width,
        )
}

/// Whether drawing `piece` writes the console cell whose buffer index is
/// `k`.
pub open spec fn draw_covers(
    piece: Piece,
    console_width: int,
    offset_x: int,
    offset_y: int,
    k: int,
) -> bool {
    draw_covers_upto(piece, console_width, offset_x, offset_y, k, 16)
}

/// Draws the piece: every block of its template, at the current rotation,
/// is rendered through the asset table at the piece's board position,
/// shifted by the board's screen offset. Every other console cell keeps
/// its value; empty template cells are transparent.
pub fn draw_piece(
    console: &mut crate::render::Console,
    piece: &Piece,
    assets: &Vec<crate::render::Pixel>,
    offset_x: usize,
    offset_y: usize,
)
    requires
        old(console).wf(),
        piece.on_board(),
        offset_x + BOARD_WIDTH <= old(console).width_spec(),
        offset_y + BOARD_HEIGHT <= old(console).height_spec(),
        forall|i: int| 0 <= i < 16 ==> #[trigger] piece.piece_type@[i] < assets@.len(),
    ensures
        final(console).wf(),
        final(console).width_spec() == old(console).width_spec(),
        final(console).height_spec() == old(console).height_spec(),
        forall|px: int, py: int|
            0 <= px < 4 && 0 <= py < 4 && #[trigger] piece.occupied(px, py)
                ==> final(console).cell(offset_x + piece.pos_x + px, offset_y + piece.pos_y + py)
                == assets@[piece.piece_type@[rotated_index(px, py, piece.rotation as int)] as int],
        forall|k: int|
            0 <= k < old(console).buffer_seq().len() && !draw_covers(
                *piece,
                old(console).width_spec(),
                offset_x as int,
                offset_y as int,
                k,
            ) ==> final(console).buffer_seq()[k] == old(console).buffer_seq()[k],
{
    let ghost w = old(console).width_spec();
    let mut x: usize = 0;
    while x < 4
        invariant
            console.wf(),
            console.width_spec() == old(console).width_spec(),
            console.height_spec() == old(console).height_spec(),
            console.buffer_seq().len() == old(console).buffer_seq().len(),
            w == console.width_spec(),
            x <= 4,
            piece.on_board(),
            offset_x + BOARD_WIDTH <= console.width_spec(),
            offset_y + BOARD_HEIGHT <= console.height_spec(),
            forall|i: int| 0 <= i < 16 ==> #[trigger] piece.piece_type@[i] < assets@.len(),
            forall|a: int, b: int|
                0 <= a < 4 && 0 <= b < 4 && a * 4 + b < x * 4 && #[trigger] piece.occupied(a, b)
                    ==> console.cell(offset_x + piece.pos_x + a, offset_y + piece.pos_y + b)
                    == assets@[piece.piece_type@[rotated_index(a, b, piece.rotation as int)] as int],
            forall|k: int|
                0 <= k < old(console).buffer_seq().len() && !draw_covers_upto(
                    *piece,
                    w,
                    offset_x as int,
                    offset_y as int,
                    k,
                    x as int * 4,
                ) ==> console.buffer_seq()[k] == old(console).buffer_seq()[k],
        decreases 4 - x,
    {
        let mut y: usize = 0;
        while y < 4
            invariant
                console.wf(),
                console.width_spec() == old(console).width_spec(),
                console.height_spec() == old(console).height_spec(),
                console.buffer_seq().len() == old(console).buffer_seq().len(),
                w == console.width_spec(),
                x < 4,
                y <= 4,
                piece.on_board(),
                offset_x + BOARD_WIDTH <= console.width_spec(),
                offset_y + BOARD_HEIGHT <= console.height_spec(),
                forall|i: int| 0 <= i < 16 ==> #[trigger] piece.piece_type@[i] < assets@.len(),
                forall|a: int, b: int|
                    0 <= a < 4 && 0 <= b < 4 && a * 4 + b < x * 4 + y && #[trigger] piece.occupied(
                        a,
                        b,
                    ) ==> console.cell(offset_x + piece.pos_x + a, offset_y + piece.pos_y + b)
                        == assets@[piece.piece_type@[rotated_index(
                        a,
                        b,
                        piece.rotation as int,
                    )] as int],
                forall|k: int|
                    0 <= k < old(console).buffer_seq().len() && !draw_covers_upto(
                        *piece,
                        w,
                        offset_x as int,
                        offset_y as int,
                        k,
                        x as int * 4 + y,
                    ) ==> console.buffer_seq()[k] == old(console).buffer_seq()[k],
            decreases 4 - y,
        {
            let piece_index = to_4x4_rotated_index(x, y, piece.rotation);
            let piece_value = piece.piece_type[piece_index];
            let ghost pre = *console;
            if piece_value != 0 {
                assert(piece.occupied(x as int, y as int));
                let draw_x = x + piece.pos_x + offset_x;
                let draw_y = y + piece.pos_y + offset_y;
                console.draw_pixel(draw_x, draw_y, &assets[piece_value]);
            }
            proof {
                let sx = x as int;
                let sy = y as int;
                let upto = sx * 4 + sy;
                let ghost kw = crate::grid::linear_index(
                    offset_x + piece.pos_x + sx,
                    offset_y + piece.pos_y + sy,
                    w,
                );
                if piece.occupied(sx, sy) {
                    assert(console.buffer_seq() == pre.buffer_seq().update(
                        kw,
                        assets@[piece.piece_type@[rotated_index(
                            sx,
                            sy,
                            piece.rotation as int,
                        )] as int],
                    ));
                }
                assert forall|a: int, b: int|
                    0 <= a < 4 && 0 <= b < 4 && a * 4 + b < upto + 1 && #[trigger] piece.occupied(
                        a,
                        b,
                    ) implies console.cell(offset_x + piece.pos_x + a, offset_y + piece.pos_y + b)
                    == assets@[piece.piece_type@[rotated_index(
                    a,
                    b,
                    piece.rotation as int,
                )] as int] by {
                    let ka = crate::grid::linear_index(
                        offset_x + piece.pos_x + a,
                        offset_y + piece.pos_y + b,
                        w,
                    );
                    lemma_linear_index_in_bounds(
                        offset_x + piece.pos_x + a,
                        offset_y + piece.pos_y + b,
                        w,
                        console.height_spec(),
                    );
                    assert(console.cell(offset_x + piece.pos_x + a, offset_y + piece.pos_y + b)
                        == console.buffer_seq()[ka]);
                    if piece.occupied(sx, sy) {
                        lemma_linear_index_in_bounds(
                            offset_x + piece.pos_x + sx,
                            offset_y + piece.pos_y + sy,
                            w,
                            console.height_spec(),
                        );
                        if ka == kw {
                            lemma_linear_index_unique(
                                offset_x + piece.pos_x + a,
                                offset_y + piece.pos_y + b,
                                offset_x + piece.pos_x + sx,
                                offset_y + piece.pos_y + sy,
                                w,
                            );
                            assert(a == sx && b == sy);
                        } else {
                            assert(console.buffer_seq()[ka] == pre.buffer_seq()[ka]);
                            assert(a * 4 + b < upto);
                        }
                    } else {
                        assert(console.buffer_seq() == pre.buffer_seq());
                        assert(a * 4 + b < upto);
                    }
                }
                assert forall|k: int|
                    0 <= k < old(console).buffer_seq().len() && !draw_covers_upto(
                        *piece,
                        w,
                        offset_x as int,
                        offset_y as int,
                        k,
                        upto + 1,
                    ) implies console.buffer_seq()[k] == old(console).buffer_seq()[k] by {
                    assert(!draw_covers_upto(*piece, w, offset_x as int, offset_y as int, k, upto));
                    if piece.occupied(sx, sy) {
                        lemma_linear_index_in_bounds(
                            offset_x + piece.pos_x + sx,
                            offset_y + piece.pos_y + sy,
                            w,
                            console.height_spec(),
                        );
                        assert(k != kw);
                        assert(console.buffer_seq()[k] == pre.buffer_seq()[k]);
                    } else {
                        assert(console.buffer_seq() == pre.buffer_seq());
                    }
                }
            }
            y = y + 1;
        }
        x = x + 1;
    }
}

/// One gravity tick. If the piece fits one row further down, it moves down
/// and play goes on. Otherwise the piece locks into the board where it
/// stands, a fresh piece spawns, and the game is over exactly when the
/// fresh piece does not fit at the spawn position.
pub fn gravity_step(piece: &mut Piece, board: &mut Vec<usize>) -> (game_over: bool)
    requires
        old(board)@.len() == BOARD_WIDTH * BOARD_HEIGHT,
        old(piece).on_board(),
        old(piece).pos_y < usize::MAX,
    ensures
        final(board)@.len() == old(board)@.len(),
        if fits(
            old(piece).piece_type@,
            old(piece).pos_x as int,
            old(piece).pos_y as int + 1,
            old(piece).rotation as int,
            old(board)@,
        ) {
            &&& final(board)@ == old(board)@
            &&& final(piece).piece_type == old(piece).piece_type
            &&& final(piece).rotation == old(piece).rotation
            &&& final(piece).pos_x == old(piece).pos_x
            &&& final(piece).pos_y == old(piece).pos_y + 1
            &&& game_over == false
        } else {
            &&& forall|px: int, py: int|
                0 <= px < 4 && 0 <= py < 4 && #[trigger] old(piece).occupied(px, py)
                    ==> final(board)@[crate::grid::linear_index(
                    px + old(piece).pos_x,
                    py + old(piece).pos_y,
                    BOARD_WIDTH as int,
                )] == old(piece).piece_type@[rotated_index(px, py, old(piece).rotation as int)]
            &&& forall|k: int|
                0 <= k < old(board)@.len() && !old(piece).covers(k) ==> final(board)@[k] == old(
                    board,
                )@[k]
            &&& final(piece).pos_x == BOARD_WIDTH / 2
            &&& final(piece).pos_y == 0
            &&& final(piece).rotation == 0
            &&& exists|shape: int|
                0 <= shape < 6 && final(piece).piece_type@ == tetromino_spec(shape)
            &&& game_over == !fits(
                final(piece).piece_type@,
                BOARD_WIDTH as int / 2,
                0,
                0,
                final(board)@,
            )
        },
{
    let pos_x = piece.pos_x;
    let pos_y = piece.pos_y;
    let rotation = piece.rotation;
    if !piece.does_fit(pos_x, pos_y + 1, rotation, board) {
        piece.lock(board);
        *piece = Piece::new();
        let spawn_x = piece.pos_x;
        let spawn_y = piece.pos_y;
        let spawn_rotation = piece.rotation;
        !piece.does_fit(spawn_x, spawn_y, spawn_rotation, board)
    } else {
        piece.set_position(pos_x, pos_y + 1, board);
        false
    }
}

/// Whether the logical cell `(x, y)` of a template, seen at `rotation`
/// quarter-turns, is a block.
pub open spec fn occupied_cell(template: Seq<usize>, rotation: int, x: int, y: int) -> bool {
    template[rotated_index(x, y, rotation)] != 0
}

/// Stepping `rotation % 4` forward by one.
proof fn lemma_mod4_succ(r: int)
    requires
        r >= 0,
    ensures
        (r + 1) % 4 == (if r % 4 == 3 {
            0int
        } else {
            r % 4 + 1
        }),
{
    assert((r + 1) % 4 == (if r % 4 == 3 {
        0int
    } else {
        r % 4 + 1
    })) by (nonlinear_arith)
        requires
            r >= 0,
    ;
}

/// One quarter-turn moves each cell of the occupied set through the
/// quarter-turn coordinate transform: the cell `(x, y)` of the template
/// seen at `rotation + 1` is the cell `(y, 3 - x)` of the template seen at
/// `rotation`.
pub proof fn lemma_rotation_step(template: Seq<usize>, rotation: int, x: int, y: int)
    requires
        rotation >= 0,
        0 <= x < 4,
        0 <= y < 4,
    ensures
        occupied_cell(template, rotation + 1, x, y) == occupied_cell(template, rotation, y, 3 - x),
{
    lemma_mod4_succ(rotation);
    assert(rotated_index(x, y, rotation + 1) == rotated_index(y, 3 - x, rotation));
}

/// The rotation index mapping round-trips: four quarter-turns return every
/// template to its original occupied-cell set.
pub proof fn lemma_rotation_round_trip(template: Seq<usize>, rotation: int)
    requires
        rotation >= 0,
    ensures
        forall|x: int, y: int|
            0 <= x < 4 && 0 <= y < 4 ==> occupied_cell(template, rotation + 4, x, y)
                == occupied_cell(template, rotation, x, y),
{
    assert forall|x: int, y: int|
        0 <= x < 4 && 0 <= y < 4 implies occupied_cell(template, rotation + 4, x, y)
        == occupied_cell(template, rotation, x, y) by {
        lemma_rotation_step(template, rotation + 3, x, y);
        lemma_rotation_step(template, rotation + 2, y, 3 - x);
        lemma_rotation_step(template, rotation + 1, 3 - x, 3 - y);
        lemma_rotation_step(template, rotation, 3 - y, x);
    }
}

} // verus!


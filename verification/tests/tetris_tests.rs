use engine::render::colour;
use engine::render::Console;
use engine::render::Pixel;
use engine::tetris::bordered_board;
use engine::tetris::draw_piece;
use engine::tetris::gravity_step;
use engine::tetris::to_2d_index;
use engine::tetris::to_4x4_rotated_index;
use engine::tetris::Piece;
use engine::tetris::BOARD_HEIGHT;
use engine::tetris::BOARD_WIDTH;

const BORDER: usize = 8;

/// The set of occupied logical cells of a piece's template at a rotation.
fn occupied_cells(piece: &Piece, rotation: usize) -> Vec<(usize, usize)> {
    let mut cells = Vec::new();
    for x in 0..4 {
        for y in 0..4 {
            if piece.piece_type[to_4x4_rotated_index(x, y, rotation)] != 0 {
                cells.push((x, y));
            }
        }
    }
    cells
}

#[test]
fn rotated_index_matches_the_closed_form() {
    for x in 0..4 {
        for y in 0..4 {
            assert_eq!(to_4x4_rotated_index(x, y, 0), y * 4 + x);
            assert_eq!(to_4x4_rotated_index(x, y, 1), 12 + y - 4 * x);
            assert_eq!(to_4x4_rotated_index(x, y, 2), 15 - 4 * y - x);
            assert_eq!(to_4x4_rotated_index(x, y, 3), 3 - y + 4 * x);
            assert_eq!(to_4x4_rotated_index(x, y, 4), to_4x4_rotated_index(x, y, 0));
        }
    }
}

#[test]
fn to_2d_index_is_row_major() {
    assert_eq!(to_2d_index(0, 0, 12), 0);
    assert_eq!(to_2d_index(11, 0, 12), 11);
    assert_eq!(to_2d_index(0, 1, 12), 12);
    assert_eq!(to_2d_index(5, 3, 12), 41);
}

#[test]
fn rotation_round_trips_after_four_steps() {
    // An asymmetric shape: the L piece distinguishes all four rotations.
    let piece = Piece::from_index(5);
    let at_zero = occupied_cells(&piece, 0);
    let at_one = occupied_cells(&piece, 1);
    let at_four = occupied_cells(&piece, 4);
    assert_ne!(at_zero, at_one);
    assert_eq!(at_zero, at_four);

    // The same holds one whole turn from any starting rotation, for every shape.
    for shape in 0..7 {
        let piece = Piece::from_index(shape);
        for rotation in 0..8 {
            assert_eq!(
                occupied_cells(&piece, rotation),
                occupied_cells(&piece, rotation + 4)
            );
        }
    }
}

#[test]
fn bordered_board_has_borders_and_empty_interior() {
    let board = bordered_board(BORDER);
    assert_eq!(board.len(), BOARD_WIDTH * BOARD_HEIGHT);
    for x in 0..BOARD_WIDTH {
        for y in 0..BOARD_HEIGHT {
            let value = board[to_2d_index(x, y, BOARD_WIDTH)];
            if x == 0 || x == BOARD_WIDTH - 1 || y == BOARD_HEIGHT - 1 {
                assert_eq!(value, BORDER);
            } else {
                assert_eq!(value, 0);
            }
        }
    }
}

#[test]
fn does_fit_accepts_an_empty_interior() {
    let board = bordered_board(BORDER);
    let piece = Piece::from_index(0);
    assert!(piece.does_fit(4, 4, 0, &board));
}

#[test]
fn does_fit_rejects_exactly_the_covered_collisions() {
    // The Line at rotation 1 occupies the whole row py == 2.
    let mut board = vec![0; BOARD_WIDTH * BOARD_HEIGHT];
    let piece = Piece::from_index(0);

    // A block right under one occupied cell rejects the placement...
    board[to_2d_index(5, 7, BOARD_WIDTH)] = 3;
    assert!(!piece.does_fit(3, 5, 1, &board));
    // ...while a block the piece does not cover is ignored.
    assert!(piece.does_fit(3, 6, 1, &board));
}

#[test]
fn does_fit_skips_cells_past_the_board_edge() {
    // On a board without border cells, a piece may hang over the right
    // edge: off-board cells are skipped, not rejected.
    let board = vec![0; BOARD_WIDTH * BOARD_HEIGHT];
    let piece = Piece::from_index(0);
    // Line at rotation 1: occupied cells span columns pos_x .. pos_x + 4.
    assert!(piece.does_fit(9, 5, 1, &board));
    // With a border, the same placement collides with the border column.
    let walled = bordered_board(BORDER);
    assert!(!piece.does_fit(9, 5, 1, &walled));
}

#[test]
fn set_position_commits_only_fitting_moves() {
    let board = bordered_board(BORDER);
    let mut piece = Piece::from_index(0);
    assert_eq!((piece.pos_x, piece.pos_y), (BOARD_WIDTH / 2, 0));

    piece.set_position(4, 2, &board);
    assert_eq!((piece.pos_x, piece.pos_y), (4, 2));

    // The Line at rotation 0 occupies column pos_x + 2: moving onto the
    // right border cell is rejected silently.
    piece.set_position(9, 2, &board);
    assert_eq!((piece.pos_x, piece.pos_y), (4, 2));
}

#[test]
fn set_rotation_checks_the_request_but_advances_one_step() {
    let board = bordered_board(BORDER);
    let mut piece = Piece::from_index(1);

    // The fit check uses the requested rotation; the commit advances the
    // stored rotation by exactly one step regardless.
    piece.set_rotation(3, &board);
    assert_eq!(piece.rotation, 1);

    piece.set_rotation(piece.rotation + 1, &board);
    assert_eq!(piece.rotation, 2);
}

#[test]
fn new_piece_spawns_unrotated_at_the_centre_column() {
    for _ in 0..20 {
        let piece = Piece::new();
        assert_eq!(piece.pos_x, BOARD_WIDTH / 2);
        assert_eq!(piece.pos_y, 0);
        assert_eq!(piece.rotation, 0);
        let matches_a_shape = (0..6).any(|shape| {
            piece.piece_type == Piece::from_index(shape).piece_type
        });
        assert!(matches_a_shape);
    }
}

#[test]
fn draw_piece_writes_only_the_occupied_cells() {
    let mut console = Console::create(40, 30);
    let mut assets = vec![Pixel::empty()];
    for (i, c) in ['A', 'B', 'C', 'D', 'E', 'F', 'G'].iter().enumerate() {
        assets.push(Pixel { char_value: *c, attributes: colour::FG_WHITE + i as u16 });
    }

    // The Line at rotation 0 occupies the template column px == 2.
    let piece = Piece::from_index(0);
    draw_piece(&mut console, &piece, &assets, 10, 3);

    for sx in 0..40 {
        for sy in 0..30 {
            let cell = console.get_pixel(sx, sy);
            let in_piece = sx == 10 + piece.pos_x + 2 && sy >= 3 + piece.pos_y && sy < 3
                + piece.pos_y + 4;
            if in_piece {
                assert_eq!(cell, assets[1]);
            } else {
                assert_eq!(cell, Pixel::empty());
            }
        }
    }
}

#[test]
fn gravity_moves_a_free_piece_down() {
    let mut board = bordered_board(BORDER);
    let mut piece = Piece::from_index(2);
    let before = board.clone();
    let game_over = gravity_step(&mut piece, &mut board);
    assert!(!game_over);
    assert_eq!((piece.pos_x, piece.pos_y), (BOARD_WIDTH / 2, 1));
    assert_eq!(board, before);
}

#[test]
fn line_piece_drops_and_locks_into_the_board() {
    let mut board = bordered_board(BORDER);
    let mut piece = Piece::from_index(0);

    assert!(piece.does_fit(piece.pos_x, piece.pos_y, piece.rotation, &board));

    while piece.does_fit(piece.pos_x, piece.pos_y + 1, piece.rotation, &board) {
        let y = piece.pos_y;
        piece.set_position(piece.pos_x, y + 1, &board);
    }
    assert_eq!((piece.pos_x, piece.pos_y), (6, 13));

    piece.lock(&mut board);

    // The Line at rotation 0 occupies the template column px == 2, so the
    // board now holds its asset number in column 8, rows 13 to 16, and the
    // rest of the board is untouched.
    for x in 0..BOARD_WIDTH {
        for y in 0..BOARD_HEIGHT {
            let value = board[to_2d_index(x, y, BOARD_WIDTH)];
            if x == 0 || x == BOARD_WIDTH - 1 || y == BOARD_HEIGHT - 1 {
                assert_eq!(value, BORDER);
            } else if x == 8 && (13..17).contains(&y) {
                assert_eq!(value, 1);
            } else {
                assert_eq!(value, 0);
            }
        }
    }
}

#[test]
fn gravity_locks_a_grounded_piece_and_spawns_a_new_one() {
    let mut board = bordered_board(BORDER);
    let mut piece = Piece::from_index(0);
    piece.set_position(6, 13, &board);
    assert_eq!(piece.pos_y, 13);

    let game_over = gravity_step(&mut piece, &mut board);

    // The board is nearly empty, so the fresh piece fits at spawn.
    assert!(!game_over);
    assert_eq!((piece.pos_x, piece.pos_y), (BOARD_WIDTH / 2, 0));
    assert_eq!(piece.rotation, 0);
    for y in 13..17 {
        assert_eq!(board[to_2d_index(8, y, BOARD_WIDTH)], 1);
    }
}

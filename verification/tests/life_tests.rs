use engine::life::life_step;

fn board_from(rows: &[&str]) -> (Vec<usize>, usize, usize) {
    let height = rows.len();
    let width = rows[0].len();
    let mut board = vec![0; width * height];
    for (y, row) in rows.iter().enumerate() {
        for (x, c) in row.chars().enumerate() {
            if c == '#' {
                board[y * width + x] = 1;
            }
        }
    }
    (board, width, height)
}

#[test]
fn blinker_oscillates() {
    let (board, w, h) = board_from(&[
        ".....",
        ".....",
        ".###.",
        ".....",
        ".....",
    ]);
    let next = life_step(&board, w, h);
    let (expected, _, _) = board_from(&[
        ".....",
        "..#..",
        "..#..",
        "..#..",
        ".....",
    ]);
    assert_eq!(next, expected);

    // One more step swings it back.
    let again = life_step(&next, w, h);
    assert_eq!(again, board);
}

#[test]
fn block_is_still() {
    let (board, w, h) = board_from(&[
        "......",
        ".##...",
        ".##...",
        "......",
    ]);
    let next = life_step(&board, w, h);
    assert_eq!(next, board);
}

#[test]
fn lonely_cells_die_and_triples_give_birth() {
    let (board, w, h) = board_from(&[
        ".....",
        ".#...",
        "...#.",
        ".....",
    ]);
    let next = life_step(&board, w, h);
    assert_eq!(next, vec![0; w * h]);

    // An L of three cells births a fourth to complete the block.
    let (board, w, h) = board_from(&[
        "......",
        ".##...",
        ".#....",
        "......",
    ]);
    let next = life_step(&board, w, h);
    let (expected, _, _) = board_from(&[
        "......",
        ".##...",
        ".##...",
        "......",
    ]);
    assert_eq!(next, expected);
}

#[test]
fn border_cells_stay_dead() {
    // Live cells crowded against the edge cannot revive border cells:
    // the step only decides interior cells.
    let (board, w, h) = board_from(&[
        "##...",
        "##...",
        ".....",
    ]);
    let next = life_step(&board, w, h);
    for x in 0..w {
        assert_eq!(next[x], 0);
        assert_eq!(next[(h - 1) * w + x], 0);
    }
    for y in 0..h {
        assert_eq!(next[y * w], 0);
        assert_eq!(next[y * w + (w - 1)], 0);
    }
}

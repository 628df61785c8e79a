use engine::render::colour;
use engine::render::Console;
use engine::render::Pixel;
use engine::render::PIXEL;

fn pixel_white() -> Pixel {
    Pixel { char_value: PIXEL, attributes: colour::FG_WHITE }
}

#[test]
fn test_console() {
    let mut console = Console::create(80, 30);

    // Check that the buffer was created empty
    for x in 0..console.get_width() {
        for y in 0..console.get_height() {
            assert_eq!(console.get_pixel(x, y), Pixel::empty());
        }
    }

    // Check that draw_pixel and get_pixel work together
    console.draw_pixel(0, 0, &pixel_white());
    console.draw_pixel(0, 1, &pixel_white());

    assert_eq!(console.get_pixel(0, 0), pixel_white());
    assert_eq!(console.get_pixel(0, 1), pixel_white());
}

#[test]
fn test_draw_string() {
    let mut console = Console::create(80, 30);
    console.draw_string(1, 1, "A", colour::FG_WHITE);

    assert_eq!(
        console.get_pixel(1, 1),
        Pixel { char_value: 'A', attributes: colour::FG_WHITE }
    );
}

#[test]
fn test_fill() {
    let mut console = Console::create(80, 30);
    console.fill(0, 0, &pixel_white());

    for x in 0..console.get_width() {
        for y in 0..console.get_height() {
            assert_eq!(console.get_pixel(x, y), pixel_white());
        }
    }
}

#[test]
fn create_makes_width_times_height_empty_cells() {
    let console = Console::create(12, 7);
    assert_eq!(console.get_width(), 12);
    assert_eq!(console.get_height(), 7);
    assert_eq!(console.buffer().len(), 12 * 7);
    for cell in console.buffer() {
        assert_eq!(*cell, Pixel::empty());
    }
}

#[test]
fn fill_touches_only_the_bottom_right_region() {
    let mut console = Console::create(10, 8);
    let marker = Pixel { char_value: '#', attributes: colour::FG_GREEN };
    console.draw_pixel(2, 1, &marker);
    console.draw_pixel(7, 6, &marker);

    console.fill(3, 2, &pixel_white());

    for x in 0..10 {
        for y in 0..8 {
            let cell = console.get_pixel(x, y);
            if x >= 3 && y >= 2 {
                assert_eq!(cell, pixel_white());
            } else if (x, y) == (2, 1) {
                assert_eq!(cell, marker);
            } else {
                assert_eq!(cell, Pixel::empty());
            }
        }
    }
}

#[test]
fn draw_grid_renders_values_through_the_asset_table() {
    let mut console = Console::create(10, 6);
    let assets = vec![
        Pixel::empty(),
        Pixel { char_value: 'x', attributes: colour::FG_RED },
        Pixel { char_value: 'y', attributes: colour::FG_BLUE },
    ];
    let grid = vec![
        0, 1, 2, //
        2, 0, 1,
    ];
    console.draw_grid(&grid, 3, 2, &assets, 4, 1);

    for gx in 0..3 {
        for gy in 0..2 {
            assert_eq!(console.get_pixel(4 + gx, 1 + gy), assets[grid[gy * 3 + gx]]);
        }
    }
    // Cells outside the grid's rectangle stay empty.
    assert_eq!(console.get_pixel(3, 1), Pixel::empty());
    assert_eq!(console.get_pixel(7, 1), Pixel::empty());
    assert_eq!(console.get_pixel(4, 0), Pixel::empty());
    assert_eq!(console.get_pixel(4, 3), Pixel::empty());
}

#[test]
fn draw_string_writes_characters_left_to_right() {
    let mut console = Console::create(20, 5);
    console.draw_string(4, 3, "HELLO", colour::FG_CYAN);

    let expected = ['H', 'E', 'L', 'L', 'O'];
    for (i, c) in expected.iter().enumerate() {
        assert_eq!(
            console.get_pixel(4 + i, 3),
            Pixel { char_value: *c, attributes: colour::FG_CYAN }
        );
    }
    // Neighbours on the same row stay empty
    assert_eq!(console.get_pixel(3, 3), Pixel::empty());
    assert_eq!(console.get_pixel(9, 3), Pixel::empty());
}

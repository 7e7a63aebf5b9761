use snake_core::display::{LINE_BYTES, SCREEN_BYTES};
use snake_core::game::{init_game, GameState};
use snake_core::grid::{Coord, Direction, COLS, ROWS};
use snake_core::playfield::{Field, Playfield};
use snake_core::screen::{draw, draw_border, draw_death, draw_score, Screen};

fn bytes_of(screen: &Screen) -> Vec<u8> {
    (0..SCREEN_BYTES).map(|i| screen.byte(i)).collect()
}

fn marked_screen() -> Screen {
    let mut screen = Screen::new();
    for i in 0..SCREEN_BYTES {
        screen.put(i, 0x55);
    }
    screen
}

fn top_bar() -> [u8; 160] {
    [
        0xc9, 0x0f, 0xcd, 0x0f, 0xcd, 0x0f, 0xcd, 0x0f, 0xcd, 0x0f, 0xcd, 0x0f,
        0xcd, 0x0f, 0xcd, 0x0f, 0xcd, 0x0f, 0xcd, 0x0f, 0xcd, 0x0f, 0xcd, 0x0f,
        0xcd, 0x0f, 0xcd, 0x0f, 0xcd, 0x0f, 0xcd, 0x0f, 0xcd, 0x0f, 0xcd, 0x0f,
        0xcd, 0x0f, 0xcd, 0x0f, 0xcd, 0x0f, 0xcd, 0x0f, 0xcd, 0x0f, 0xcd, 0x0f,
        0xcd, 0x0f, 0xcd, 0x0f, 0xcd, 0x0f, 0xcd, 0x0f, 0xcd, 0x0f, 0xcd, 0x0f,
        0xcd, 0x0f, 0xcd, 0x0f, 0xcd, 0x0f, 0xb9, 0x0f, b's', 0x0e, b'p', 0x0e,
        b'a', 0x0e, b'g', 0x0e, b'h', 0x0e, b'e', 0x0e, b't', 0x0e, b't', 0x0e,
        b'i', 0x0e, b' ', 0x0e, b'O', 0x0b, b'S', 0x0b, 0xcc, 0x0f, 0xcd, 0x0f,
        0xcd, 0x0f, 0xcd, 0x0f, 0xcd, 0x0f, 0xcd, 0x0f, 0xcd, 0x0f, 0xcd, 0x0f,
        0xcd, 0x0f, 0xcd, 0x0f, 0xcd, 0x0f, 0xcd, 0x0f, 0xcd, 0x0f, 0xcd, 0x0f,
        0xcd, 0x0f, 0xcd, 0x0f, 0xcd, 0x0f, 0xcd, 0x0f, 0xcd, 0x0f, 0xcd, 0x0f,
        0xcd, 0x0f, 0xcd, 0x0f, 0xcd, 0x0f, 0xcd, 0x0f, 0xcd, 0x0f, 0xcd, 0x0f,
        0xcd, 0x0f, 0xcd, 0x0f, 0xcd, 0x0f, 0xcd, 0x0f, 0xcd, 0x0f, 0xcd, 0x0f,
        0xcd, 0x0f, 0xbb, 0x0f,
    ]
}

fn bottom_bar() -> [u8; 160] {
    [
        0xc8, 0x0f, 0xcd, 0x0f, 0xcd, 0x0f, 0xcd, 0x0f, 0xcd, 0x0f, 0xcd, 0x0f,
        0xcd, 0x0f, 0xb9, 0x0f, b'2', 0x0d, b'0', 0x0d, b'2', 0x0d, b'0', 0x0d,
        0xcc, 0x0f, 0xcd, 0x0f, 0xcd, 0x0f, 0xcd, 0x0f, 0xcd, 0x0f, 0xcd, 0x0f,
        0xcd, 0x0f, 0xcd, 0x0f, 0xcd, 0x0f, 0xcd, 0x0f, 0xcd, 0x0f, 0xcd, 0x0f,
        0xcd, 0x0f, 0xcd, 0x0f, 0xcd, 0x0f, 0xcd, 0x0f, 0xcd, 0x0f, 0xcd, 0x0f,
        0xcd, 0x0f, 0xcd, 0x0f, 0xcd, 0x0f, 0xcd, 0x0f, 0xcd, 0x0f, 0xcd, 0x0f,
        0xcd, 0x0f, 0xcd, 0x0f, 0xcd, 0x0f, 0xcd, 0x0f, 0xcd, 0x0f, 0xcd, 0x0f,
        0xcd, 0x0f, 0xcd, 0x0f, 0xcd, 0x0f, 0xcd, 0x0f, 0xcd, 0x0f, 0xcd, 0x0f,
        0xcd, 0x0f, 0xcd, 0x0f, 0xcd, 0x0f, 0xcd, 0x0f, 0xcd, 0x0f, 0xcd, 0x0f,
        0xcd, 0x0f, 0xcd, 0x0f, 0xcd, 0x0f, 0xcd, 0x0f, 0xcd, 0x0f, 0xcd, 0x0f,
        0xcd, 0x0f, 0xcd, 0x0f, 0xcd, 0x0f, 0xcd, 0x0f, 0xcd, 0x0f, 0xcd, 0x0f,
        0xb9, 0x0f, b'P', 0x0d, b'o', 0x0d, b'n', 0x0d, b'a', 0x0d, b's', 0x0d,
        0xcc, 0x0f, 0xcd, 0x0f, 0xcd, 0x0f, 0xcd, 0x0f, 0xcd, 0x0f, 0xcd, 0x0f,
        0xcd, 0x0f, 0xbc, 0x0f,
    ]
}

#[test]
fn new_screen_is_blank() {
    let screen = Screen::new();
    assert_eq!(bytes_of(&screen), vec![0u8; 4000]);
}

#[test]
fn put_changes_one_byte() {
    let mut screen = Screen::new();
    screen.put(17, 9);
    let mut expected = vec![0u8; 4000];
    expected[17] = 9;
    assert_eq!(bytes_of(&screen), expected);
}

#[test]
fn text_is_written_with_its_attribute() {
    let mut screen = marked_screen();
    screen.draw_text(2, 5, b"hi!", 0x1f);
    let mut expected = vec![0x55u8; 4000];
    let at = 2 * 160 + 5 * 2;
    expected[at..at + 6].copy_from_slice(&[b'h', 0x1f, b'i', 0x1f, b'!', 0x1f]);
    assert_eq!(bytes_of(&screen), expected);
    screen.draw_text(24, 80, b"", 0);
    assert_eq!(bytes_of(&screen), expected);
}

#[test]
fn run_repeats_one_character() {
    let mut screen = marked_screen();
    screen.draw_run(24, 77, 3, b'=', 0x07);
    let mut expected = vec![0x55u8; 4000];
    expected[3994..4000].copy_from_slice(&[b'=', 7, b'=', 7, b'=', 7]);
    assert_eq!(bytes_of(&screen), expected);
}

#[test]
fn border_has_bars_and_sides() {
    let mut screen = marked_screen();
    draw_border(&mut screen);
    let bytes = bytes_of(&screen);
    assert_eq!(&bytes[0..160], &top_bar()[..]);
    assert_eq!(&bytes[23 * 160..24 * 160], &bottom_bar()[..]);
    for line in 1..23 {
        let at = line * LINE_BYTES;
        assert_eq!(&bytes[at..at + 2], &[0xba, 0x0f]);
        assert_eq!(&bytes[at + 158..at + 160], &[0xba, 0x0f]);
        assert!(bytes[at + 2..at + 158].iter().all(|&b| b == 0x55));
    }
    assert!(bytes[24 * 160..].iter().all(|&b| b == 0x55));
}

#[test]
fn death_message_covers_two_lines() {
    let mut screen = marked_screen();
    draw_death(&mut screen);
    let bytes = bytes_of(&screen);
    let mut expected = vec![0x55u8; 4000];
    for (i, &b) in b" lmao u ded ".iter().enumerate() {
        expected[12 * 160 + (34 + i) * 2] = b;
        expected[12 * 160 + (34 + i) * 2 + 1] = 0xf0;
    }
    for (i, &b) in b" press entr to play ".iter().enumerate() {
        expected[13 * 160 + (30 + i) * 2] = b;
        expected[13 * 160 + (30 + i) * 2 + 1] = 0xf0;
    }
    assert_eq!(bytes, expected);
}

#[test]
fn score_is_framed_and_coloured() {
    let mut screen = marked_screen();
    draw_score(&mut screen, 42);
    let mut expected = vec![0x55u8; 4000];
    let at = 23 * 160 + 37 * 2;
    expected[at..at + 10]
        .copy_from_slice(&[0xb9, 0x0f, b'0', 1, b'4', 1, b'2', 1, 0xcc, 0x0f]);
    assert_eq!(bytes_of(&screen), expected);
    draw_score(&mut screen, 855);
    expected[at..at + 10]
        .copy_from_slice(&[0xb9, 0x0f, b'8', 2, b'5', 2, b'5', 2, 0xcc, 0x0f]);
    assert_eq!(bytes_of(&screen), expected);
}

#[test]
fn cell_is_two_characters_wide() {
    let mut screen = marked_screen();
    let c = Coord::new(0, 0).unwrap();
    screen.draw_cell(c, Field::Food);
    let mut expected = vec![0x55u8; 4000];
    expected[162..166].copy_from_slice(&[0xdb, 0x0f, 0xdb, 0x0f]);
    assert_eq!(bytes_of(&screen), expected);
    screen.draw_cell(c, Field::Body(None));
    expected[162..166].copy_from_slice(&[0xdb, 0x0a, 0xdb, 0x0a]);
    assert_eq!(bytes_of(&screen), expected);
    screen.draw_cell(c, Field::Empty);
    expected[162..166].copy_from_slice(&[0xdb, 0x00, 0xdb, 0x00]);
    assert_eq!(bytes_of(&screen), expected);
}

#[test]
fn game_is_drawn_inside_the_border() {
    let mut screen = marked_screen();
    draw_border(&mut screen);
    let state = init_game(&[0; ROWS]);
    draw(&mut screen, &state);
    let bytes = bytes_of(&screen);
    assert_eq!(&bytes[0..160], &top_bar()[..]);
    for row in 0..ROWS {
        let line = (row + 1) * LINE_BYTES;
        assert_eq!(&bytes[line..line + 2], &[0xba, 0x0f]);
        assert_eq!(&bytes[line + 158..line + 160], &[0xba, 0x0f]);
        for col in 0..COLS {
            let at = line + col * 4 + 2;
            let expected: [u8; 4] = match (row, col) {
                (10, 13) | (10, 14) | (10, 15) => [0xdb, 0x0a, 0xdb, 0x0a],
                (13, 21) => [0xdb, 0x0f, 0xdb, 0x0f],
                _ => [0x55, 0x00, 0x55, 0x00],
            };
            assert_eq!(&bytes[at..at + 4], &expected);
        }
    }
    let mut bottom = bottom_bar();
    bottom[74..84].copy_from_slice(&[0xb9, 0x0f, b'0', 1, b'0', 1, b'0', 1, 0xcc, 0x0f]);
    assert_eq!(&bytes[23 * 160..24 * 160], &bottom[..]);
    assert!(bytes[24 * 160..].iter().all(|&b| b == 0x55));
}

#[test]
fn drawing_follows_the_state() {
    let mut world = Playfield::new();
    world.set(Coord::new(21, 38).unwrap(), Field::Body(None));
    world.set(Coord::new(0, 0).unwrap(), Field::Food);
    let at = Coord::new(21, 38).unwrap();
    let state = GameState::from_parts(world, at, at, Direction::Up, 123, false);
    let mut screen = Screen::new();
    draw(&mut screen, &state);
    let mut expected = vec![0u8; 4000];
    expected[162..166].copy_from_slice(&[0xdb, 0x0f, 0xdb, 0x0f]);
    let last = 22 * 160 + 38 * 4 + 2;
    expected[last..last + 4].copy_from_slice(&[0xdb, 0x0a, 0xdb, 0x0a]);
    let score = 23 * 160 + 37 * 2;
    expected[score..score + 10]
        .copy_from_slice(&[0xb9, 0x0f, b'1', 12, b'2', 12, b'3', 12, 0xcc, 0x0f]);
    assert_eq!(bytes_of(&screen), expected);
}

//! What the screen shows of the game: where a cell stands in the text
//! buffer and how it looks, and the score as text.

use vstd::prelude::*;
use crate::grid::Coord;
use crate::playfield::Field;

verus! {

/// The size of the text buffer in bytes: 25 lines of 80 characters, each a
/// character byte followed by an attribute byte.
pub const SCREEN_BYTES: usize = 4000;

/// The bytes of one line of the text buffer.
pub const LINE_BYTES: usize = 160;

/// How a cell looks on screen. A cell is two characters wide; both get the
/// same character and attribute.
#[derive(Clone, Copy, Debug, PartialEq, Eq)]
pub struct Glyph {
    /// The character byte, or none where the character on screen stays.
    pub character: Option<u8>,
    /// The attribute byte.
    pub attribute: u8,
}

/// The look of a cell: an empty cell is blacked out by its attribute, food
/// is a white block and the snake a green one.
pub open spec fn glyph_of(f: Field) -> Glyph {
    match f {
        Field::Empty => Glyph { character: None, attribute: 0 },
        Field::Food => Glyph { character: Some(0xDB), attribute: 0x0f },
        Field::Body(_) => Glyph { character: Some(0xDB), attribute: 0x0a },
    }
}

/// Where the four bytes of a cell begin in the text buffer: the playfield
/// starts on the second line, one character in from the left border.
pub open spec fn cell_start(c: Coord) -> int {
    (c.row_of() + 1) * LINE_BYTES + c.col_of() * 4 + 2
}

/// The offset of the first of the four bytes of the cell at `c`.
pub fn cell_offset(c: Coord) -> (start: usize)
    ensures
        start == cell_start(c),
        start + 4 <= SCREEN_BYTES,
{
    proof {
        use_type_invariant(c);
    }
    (c.row + 1) * LINE_BYTES + c.col * 4 + 2
}

/// The look of the cell `f`.
pub fn cell_glyph(f: Field) -> (g: Glyph)
    ensures
        g == glyph_of(f),
{
    match f {
        Field::Empty => Glyph { character: None, attribute: 0 },
        Field::Food => Glyph { character: Some(0xDB), attribute: 0x0f },
        Field::Body(_) => Glyph { character: Some(0xDB), attribute: 0x0a },
    }
}

/// The ASCII digit of `score` at decimal place `place`, units being place 0.
pub open spec fn digit_at(score: u16, place: nat) -> u8
    decreases place,
{
    if place == 0 {
        (48 + score % 10) as u8
    } else {
        digit_at(score / 10, (place - 1) as nat)
    }
}

/// The colour in which a score is shown: it changes with every point.
pub open spec fn score_colour(score: u16) -> u8 {
    (score % 14 + 1) as u8
}

/// The last three decimal digits of `score` as ASCII, hundreds first.
pub fn score_to_str(score: u16) -> (text: [u8; 3])
    ensures
        text@[0] == 48 + (score / 100) % 10,
        text@[1] == 48 + (score / 10) % 10,
        text@[2] == 48 + score % 10,
        forall|i: int| 0 <= i < 3 ==> text@[i] == digit_at(score, (2 - i) as nat),
{
    let mut text = [0x30u8;3];
    let mut rest: u16 = score;
    let mut i: usize = 0;
    while i < 3
        invariant
            i <= 3,
            i == 0 ==> rest == score,
            i == 1 ==> rest == score / 10,
            i == 2 ==> rest == score / 100,
            i >= 1 ==> text@[2] == 48 + score % 10,
            i >= 2 ==> text@[1] == 48 + (score / 10) % 10,
            i >= 3 ==> text@[0] == 48 + (score / 100) % 10,
        decreases 3 - i,
    {
        let digit: u16 = rest % 10 + 48;
        text[2 - i] = digit as u8;
        rest = rest / 10;
        i += 1;
    }
    proof {
        reveal_with_fuel(digit_at, 3);
    }
    text
}

/// The colour attribute for the score on screen.
pub fn score_attribute(score: u16) -> (attr: u8)
    ensures
        attr == score_colour(score),
        1 <= attr <= 14,
{
    (score % 14 + 1) as u8
}

} // verus!

//! The text screen as a buffer of bytes, and what the game draws on it.

use vstd::prelude::*;
use crate::display::{LINE_BYTES, SCREEN_BYTES};
use crate::display::{cell_glyph, cell_offset, cell_start, glyph_of, score_attribute, score_colour, score_to_str, digit_at};
use crate::game::GameState;
use crate::grid::{Coord, CELLS, COLS, ROWS};
use crate::playfield::Field;

verus! {

/// The number of lines of the screen.
pub const LINES: usize = 25;

/// The number of characters in a line.
pub const LINE_CHARS: usize = 80;

/// The buffer after `text` has been written into `line` from column `col`
/// on, each character with the attribute `attribute`.
pub open spec fn with_text(s: Seq<u8>, line: int, col: int, text: Seq<u8>, attribute: u8) -> Seq<
    u8,
> {
    Seq::new(
        s.len(),
        |i: int|
            {
                let k = i - (line * LINE_BYTES + col * 2);
                if 0 <= k < 2 * text.len() {
                    if k % 2 == 0 {
                        text[k / 2]
                    } else {
                        attribute
                    }
                } else {
                    s[i]
                }
            },
    )
}

/// The buffer after `count` copies of `character` have been written into
/// `line` from column `col` on, with the attribute `attribute`.
pub open spec fn with_run(
    s: Seq<u8>,
    line: int,
    col: int,
    count: int,
    character: u8,
    attribute: u8,
) -> Seq<u8> {
    Seq::new(
        s.len(),
        |i: int|
            {
                let k = i - (line * LINE_BYTES + col * 2);
                if 0 <= k < 2 * count {
                    if k % 2 == 0 {
                        character
                    } else {
                        attribute
                    }
                } else {
                    s[i]
                }
            },
    )
}

/// A text screen of 25 lines of 80 characters, each character a byte
/// followed by its attribute byte.
pub struct Screen {
    bytes: [u8; SCREEN_BYTES],
}

impl View for Screen {
    type V = Seq<u8>;

    /// The bytes of the buffer, line by line.
    closed spec fn view(&self) -> Seq<u8> {
        self.bytes@
    }
}

impl Screen {
    /// A screen whose bytes are all zero.
    pub fn new() -> (screen: Screen)
        ensures
            screen@.len() == SCREEN_BYTES,
            forall|i: int| 0 <= i < SCREEN_BYTES ==> screen@[i] == 0,
    {
        Screen { bytes: [0u8;SCREEN_BYTES] }
    }

    /// The byte at offset `at`.
    pub fn byte(&self, at: usize) -> (b: u8)
        requires
            at < SCREEN_BYTES,
        ensures
            self@.len() == SCREEN_BYTES,
            b == self@[at as int],
    {
        self.bytes[at]
    }

    /// Writes the byte `b` at offset `at`.
    pub fn put(&mut self, at: usize, b: u8)
        requires
            at < SCREEN_BYTES,
        ensures
            final(self)@ == old(self)@.update(at as int, b),
            final(self)@.len() == SCREEN_BYTES,
    {
        self.bytes[at] = b;
    }

    /// Draws the cell at `c`, which holds `f`: two characters wide.
    pub fn draw_cell(&mut self, c: Coord, f: Field)
        ensures
            final(self)@ == with_cell(old(self)@, c, f),
    {
        let glyph = cell_glyph(f);
        let start = cell_offset(c);
        match glyph.character {
            Some(character) => {
                self.put(start, character);
                self.put(start + 2, character);
            },
            None => {},
        }
        self.put(start + 1, glyph.attribute);
        self.put(start + 3, glyph.attribute);
        assert(self@ =~= with_cell(old(self)@, c, f));
    }

    /// Writes `count` copies of `character` into `line` from column `col`
    /// on.
    pub fn draw_run(&mut self, line: usize, col: usize, count: usize, character: u8, attribute: u8)
        requires
            line < LINES,
            col + count <= LINE_CHARS,
        ensures
            final(self)@ == with_run(
                old(self)@,
                line as int,
                col as int,
                count as int,
                character,
                attribute,
            ),
    {
        let start: usize = line * LINE_BYTES + col * 2;
        let mut j: usize = 0;
        assert(self@ =~= with_run(old(self)@, line as int, col as int, 0, character, attribute));
        while j < count
            invariant
                j <= count,
                line < LINES,
                col + count <= LINE_CHARS,
                start == line * LINE_BYTES + col * 2,
                self@ == with_run(
                    old(self)@,
                    line as int,
                    col as int,
                    j as int,
                    character,
                    attribute,
                ),
            decreases count - j,
        {
            self.put(start + 2 * j, character);
            self.put(start + 2 * j + 1, attribute);
            j += 1;
            assert(self@ =~= with_run(
                old(self)@,
                line as int,
                col as int,
                j as int,
                character,
                attribute,
            ));
        }
    }

    /// Writes `text` into `line` from column `col` on.
    pub fn draw_text(&mut self, line: usize, col: usize, text: &[u8], attribute: u8)
        requires
            line < LINES,
            col + text@.len() <= LINE_CHARS,
        ensures
            final(self)@ == with_text(old(self)@, line as int, col as int, text@, attribute),
    {
        let start: usize = line * LINE_BYTES + col * 2;
        let mut j: usize = 0;
        assert(self@ =~= with_text(
            old(self)@,
            line as int,
            col as int,
            text@.take(0),
            attribute,
        ));
        while j < text.len()
            invariant
                j <= text@.len(),
                line < LINES,
                col + text@.len() <= LINE_CHARS,
                start == line * LINE_BYTES + col * 2,
                self@ == with_text(
                    old(self)@,
                    line as int,
                    col as int,
                    text@.take(j as int),
                    attribute,
                ),
            decreases text@.len() - j,
        {
            self.put(start + 2 * j, text[j]);
            self.put(start + 2 * j + 1, attribute);
            j += 1;
            assert(self@ =~= with_text(
                old(self)@,
                line as int,
                col as int,
                text@.take(j as int),
                attribute,
            ));
        }
        assert(text@.take(text@.len() as int) =~= text@);
    }
}


/// The first line of the message shown when the snake has died.
pub open spec fn death_title() -> Seq<u8> {
    seq![32, 108, 109, 97, 111, 32, 117, 32, 100, 101, 100, 32]
}

/// The second line of that message: how to play again.
pub open spec fn death_hint() -> Seq<u8> {
    seq![32, 112, 114, 101, 115, 115, 32, 101, 110, 116, 114, 32, 116, 111, 32, 112, 108, 97, 121, 32]
}

/// The first word of the title in the top border.
pub open spec fn title_name() -> Seq<u8> {
    seq![115, 112, 97, 103, 104, 101, 116, 116, 105, 32]
}

/// The second word of the title in the top border.
pub open spec fn title_kind() -> Seq<u8> {
    seq![79, 83]
}

/// The left label in the bottom border.
pub open spec fn label_year() -> Seq<u8> {
    seq![50, 48, 50, 48]
}

/// The right label in the bottom border.
pub open spec fn label_author() -> Seq<u8> {
    seq![80, 111, 110, 97, 115]
}

/// The three digits in which a score is shown.
pub open spec fn score_text(score: u16) -> Seq<u8> {
    seq![digit_at(score, 2), digit_at(score, 1), digit_at(score, 0)]
}

/// The buffer after the message of death has been drawn over it.
pub open spec fn with_death(s: Seq<u8>) -> Seq<u8> {
    with_text(with_text(s, 12, 34, death_title(), 0xf0), 13, 30, death_hint(), 0xf0)
}

/// The buffer after the score has been drawn into the bottom border,
/// between two frame characters.
pub open spec fn with_score(s: Seq<u8>, score: u16) -> Seq<u8> {
    with_text(
        with_run(with_run(s, 23, 37, 1, 0xB9, 0x0f), 23, 41, 1, 0xCC, 0x0f),
        23,
        38,
        score_text(score),
        score_colour(score),
    )
}

/// The buffer after the first `count` cells of the playfield, in row-major
/// order, have been drawn. Each cell takes two characters; an empty cell
/// keeps the characters that were there and gets a black attribute.
pub open spec fn with_cells(s: Seq<u8>, cells: Seq<Field>, count: int) -> Seq<u8> {
    Seq::new(
        s.len(),
        |i: int|
            {
                let row = i / (LINE_BYTES as int) - 1;
                let x = i % (LINE_BYTES as int) - 2;
                let n = row * COLS + x / 4;
                if 0 <= row < ROWS && 0 <= x < 4 * COLS && n < count {
                    let glyph = glyph_of(cells[n]);
                    if x % 2 == 1 {
                        glyph.attribute
                    } else {
                        match glyph.character {
                            Some(character) => character,
                            None => s[i],
                        }
                    }
                } else {
                    s[i]
                }
            },
    )
}

/// The buffer after the cell at `c`, which holds `f`, has been drawn.
pub open spec fn with_cell(s: Seq<u8>, c: Coord, f: Field) -> Seq<u8> {
    Seq::new(
        s.len(),
        |i: int|
            {
                let k = i - cell_start(c);
                if 0 <= k < 4 {
                    if k % 2 == 1 {
                        glyph_of(f).attribute
                    } else {
                        match glyph_of(f).character {
                            Some(character) => character,
                            None => s[i],
                        }
                    }
                } else {
                    s[i]
                }
            },
    )
}

/// Drawing the cell at `c` after the cells before it gives the buffer with
/// one more cell drawn.
proof fn lemma_next_cell(s: Seq<u8>, cells: Seq<Field>, c: Coord)
    requires
        c.on_grid(),
        s.len() == SCREEN_BYTES,
    ensures
        with_cell(with_cells(s, cells, c.index()), c, cells[c.index()]) == with_cells(
            s,
            cells,
            c.index() + 1,
        ),
{
    let before = with_cells(s, cells, c.index());
    let after = with_cells(s, cells, c.index() + 1);
    let drawn = with_cell(before, c, cells[c.index()]);
    assert forall|i: int| 0 <= i < s.len() implies drawn[i] == after[i] by {
        let row = i / (LINE_BYTES as int) - 1;
        let x = i % (LINE_BYTES as int) - 2;
        let k = i - cell_start(c);
        if 0 <= k < 4 {
            assert(i == (c.row + 1) * 160 + (c.col * 4 + 2 + k));
            assert(row == c.row && x == c.col * 4 + k);
            assert(x / 4 == c.col && x % 2 == k % 2);
        } else if 0 <= row < ROWS && 0 <= x < 4 * COLS {
            if row * COLS + x / 4 == c.index() {
                assert(row == c.row && x / 4 == c.col);
                assert(i == (row + 1) * 160 + x + 2);
                assert(false);
            }
        }
    }
    assert(drawn =~= after);
}

/// The buffer after playfield and score have been drawn.
pub open spec fn with_game(s: Seq<u8>, cells: Seq<Field>, score: u16) -> Seq<u8> {
    with_score(with_cells(s, cells, CELLS as int), score)
}

/// The buffer after the top border has been drawn: corners, a line between
/// them, and the framed title.
pub open spec fn with_top_border(s: Seq<u8>) -> Seq<u8> {
    let corner = with_run(s, 0, 0, 1, 0xC9, 0x0f);
    let line = with_run(corner, 0, 1, 78, 0xCD, 0x0f);
    let end = with_run(line, 0, 79, 1, 0xBB, 0x0f);
    let open = with_run(end, 0, 33, 1, 0xB9, 0x0f);
    let name = with_text(open, 0, 34, title_name(), 0x0e);
    let kind = with_text(name, 0, 44, title_kind(), 0x0b);
    with_run(kind, 0, 46, 1, 0xCC, 0x0f)
}

/// The buffer after the side borders have been drawn on lines 1 to
/// `upto - 1`.
pub open spec fn with_sides(s: Seq<u8>, upto: int) -> Seq<u8>
    decreases upto,
{
    if upto <= 1 {
        s
    } else {
        with_run(
            with_run(with_sides(s, upto - 1), upto - 1, 0, 1, 0xBA, 0x0f),
            upto - 1,
            79,
            1,
            0xBA,
            0x0f,
        )
    }
}

/// The buffer after the bottom border has been drawn on line 23: corners, a
/// line between them, and two framed labels.
pub open spec fn with_bottom_border(s: Seq<u8>) -> Seq<u8> {
    let corner = with_run(s, 23, 0, 1, 0xC8, 0x0f);
    let line = with_run(corner, 23, 1, 78, 0xCD, 0x0f);
    let end = with_run(line, 23, 79, 1, 0xBC, 0x0f);
    let open_year = with_run(end, 23, 7, 1, 0xB9, 0x0f);
    let year = with_text(open_year, 23, 8, label_year(), 0x0d);
    let close_year = with_run(year, 23, 12, 1, 0xCC, 0x0f);
    let open_author = with_run(close_year, 23, 66, 1, 0xB9, 0x0f);
    let author = with_text(open_author, 23, 67, label_author(), 0x0d);
    with_run(author, 23, 72, 1, 0xCC, 0x0f)
}

/// The buffer after the whole border has been drawn: the top border, the
/// sides on lines 1 to 23, and over line 23 the bottom border.
pub open spec fn with_border(s: Seq<u8>) -> Seq<u8> {
    with_bottom_border(with_sides(with_top_border(s), 24))
}

/// Draws the message of death.
pub fn draw_death(screen: &mut Screen)
    ensures
        final(screen)@ == with_death(old(screen)@),
{
    let title: [u8; 12] = [32, 108, 109, 97, 111, 32, 117, 32, 100, 101, 100, 32];
    let hint: [u8; 20] = [32, 112, 114, 101, 115, 115, 32, 101, 110, 116, 114, 32, 116, 111, 32, 112, 108, 97, 121, 32];
    assert(title@ =~= death_title());
    assert(hint@ =~= death_hint());
    screen.draw_text(12, 34, title.as_slice(), 0xf0);
    screen.draw_text(13, 30, hint.as_slice(), 0xf0);
}

/// Draws the score into the bottom border, in a colour that changes with
/// every point.
pub fn draw_score(screen: &mut Screen, score: u16)
    ensures
        final(screen)@ == with_score(old(screen)@, score),
{
    let text = score_to_str(score);
    assert(text@ =~= score_text(score));
    screen.draw_run(23, 37, 1, 0xB9, 0x0f);
    screen.draw_run(23, 41, 1, 0xCC, 0x0f);
    screen.draw_text(23, 38, text.as_slice(), score_attribute(score));
}

/// Draws the playfield and the score of `state`.
pub fn draw(screen: &mut Screen, state: &GameState)
    ensures
        final(screen)@ == with_game(old(screen)@, state@.cells, state@.score),
{
    proof {
        use_type_invariant(state);
    }
    let mut row: usize = 0;
    assert(screen@ =~= with_cells(old(screen)@, state@.cells, 0));
    while row < ROWS
        invariant
            row <= ROWS,
            state.wf(),
            screen@ == with_cells(old(screen)@, state@.cells, row * COLS),
        decreases ROWS - row,
    {
        let mut col: usize = 0;
        while col < COLS
            invariant
                row < ROWS,
                col <= COLS,
                state.wf(),
                screen@ == with_cells(old(screen)@, state@.cells, row * COLS + col),
            decreases COLS - col,
        {
            let c = Coord { row, col };
            proof {
                lemma_next_cell(old(screen)@, state@.cells, c);
            }
            screen.draw_cell(c, state.classify(c));
            col += 1;
        }
        row += 1;
    }
    draw_score(screen, state.score());
}

/// Draws the border round the playfield.
pub fn draw_border(screen: &mut Screen)
    ensures
        final(screen)@ == with_border(old(screen)@),
{
    let name: [u8; 10] = [115, 112, 97, 103, 104, 101, 116, 116, 105, 32];
    let kind: [u8; 2] = [79, 83];
    let year: [u8; 4] = [50, 48, 50, 48];
    let author: [u8; 5] = [80, 111, 110, 97, 115];
    assert(name@ =~= title_name());
    assert(kind@ =~= title_kind());
    assert(year@ =~= label_year());
    assert(author@ =~= label_author());
    screen.draw_run(0, 0, 1, 0xC9, 0x0f);
    screen.draw_run(0, 1, 78, 0xCD, 0x0f);
    screen.draw_run(0, 79, 1, 0xBB, 0x0f);
    screen.draw_run(0, 33, 1, 0xB9, 0x0f);
    screen.draw_text(0, 34, name.as_slice(), 0x0e);
    screen.draw_text(0, 44, kind.as_slice(), 0x0b);
    screen.draw_run(0, 46, 1, 0xCC, 0x0f);
    let ghost top = screen@;
    let mut line: usize = 1;
    while line < 24
        invariant
            1 <= line <= 24,
            top == with_top_border(old(screen)@),
            screen@ == with_sides(top, line as int),
        decreases 24 - line,
    {
        screen.draw_run(line, 0, 1, 0xBA, 0x0f);
        screen.draw_run(line, 79, 1, 0xBA, 0x0f);
        line += 1;
    }
    screen.draw_run(23, 0, 1, 0xC8, 0x0f);
    screen.draw_run(23, 1, 78, 0xCD, 0x0f);
    screen.draw_run(23, 79, 1, 0xBC, 0x0f);
    screen.draw_run(23, 7, 1, 0xB9, 0x0f);
    screen.draw_text(23, 8, year.as_slice(), 0x0d);
    screen.draw_run(23, 12, 1, 0xCC, 0x0f);
    screen.draw_run(23, 66, 1, 0xB9, 0x0f);
    screen.draw_text(23, 67, author.as_slice(), 0x0d);
    screen.draw_run(23, 72, 1, 0xCC, 0x0f);
}

} // verus!

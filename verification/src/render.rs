//! What is written to the terminal to draw the panes.
//!
//! Each pane is drawn row by row in its own cells: its text where it is
//! drawn without a frame, else a frame with the text inside.

use crate::layout::PlacedPane;
use crate::terminal::{decimal, digit};
use vstd::prelude::*;

verus! {

/// The corners and the sides of a frame.
pub const TOP_LEFT: char = '\u{250c}';

pub const TOP_RIGHT: char = '\u{2510}';

pub const BOTTOM_LEFT: char = '\u{2514}';

pub const BOTTOM_RIGHT: char = '\u{2518}';

pub const HORIZONTAL: char = '\u{2500}';

pub const VERTICAL: char = '\u{2502}';

/// What moves the cursor to a row and a column, both counted from one.
pub open spec fn goto(row: nat, col: nat) -> Seq<char> {
    seq!['\u{1b}', '['] + decimal(row) + seq![';'] + decimal(col) + seq!['H']
}

/// So many times the same character.
pub open spec fn repeated(c: char, count: int) -> Seq<char> {
    Seq::new(
        if count > 0 {
            count as nat
        } else {
            0
        },
        |i: int| c,
    )
}

/// A text cut or filled with blanks to a width.
pub open spec fn fitted(text: Seq<char>, width: int) -> Seq<char> {
    if text.len() >= width {
        text.take(width)
    } else {
        text + repeated(' ', width - text.len())
    }
}

/// The row of a text, or an empty row where the text has no such row.
pub open spec fn line_of(text: Seq<Vec<char>>, row: int) -> Seq<char> {
    if 0 <= row < text.len() {
        text[row]@
    } else {
        Seq::empty()
    }
}

/// One row of a pane as it is drawn, as wide as the pane: a row of the text
/// where the pane has no frame; else the top or the bottom of the frame, or
/// a row of the text between its sides; blanks where the pane is too small
/// for a frame.
pub open spec fn drawn_row(placed: PlacedPane, text: Seq<Vec<char>>, row: int) -> Seq<char> {
    let cols = placed.area.cols as int;
    let rows = placed.area.rows as int;
    if placed.pane.settings.invisible_borders {
        fitted(line_of(text, row), cols)
    } else if cols < 2 || rows < 2 {
        repeated(' ', cols)
    } else if row == 0 {
        seq![TOP_LEFT] + repeated(HORIZONTAL, cols - 2) + seq![TOP_RIGHT]
    } else if row == rows - 1 {
        seq![BOTTOM_LEFT] + repeated(HORIZONTAL, cols - 2) + seq![BOTTOM_RIGHT]
    } else {
        seq![VERTICAL] + fitted(line_of(text, row - 1), cols - 2) + seq![VERTICAL]
    }
}

/// The first `count` rows of a pane as they are drawn, each after the move
/// of the cursor to its first cell.
pub open spec fn drawn_rows(placed: PlacedPane, text: Seq<Vec<char>>, count: int) -> Seq<char>
    decreases count,
{
    if count <= 0 {
        Seq::empty()
    } else {
        drawn_rows(placed, text, count - 1) + goto(
            (placed.area.y + count) as nat,
            (placed.area.x + 1) as nat,
        ) + drawn_row(placed, text, count - 1)
    }
}

/// A pane as it is drawn.
pub open spec fn drawn_pane(placed: PlacedPane, text: Seq<Vec<char>>) -> Seq<char> {
    drawn_rows(placed, text, placed.area.rows as int)
}

/// The text of the pane at `at`, or no text where none is given for it.
pub open spec fn text_of(texts: Seq<Vec<Vec<char>>>, at: int) -> Seq<Vec<char>> {
    if 0 <= at < texts.len() {
        texts[at]@
    } else {
        Seq::empty()
    }
}

/// The first `count` panes as they are drawn, one after the other.
pub open spec fn drawn(placed: Seq<PlacedPane>, texts: Seq<Vec<Vec<char>>>, count: int) -> Seq<
    char,
>
    decreases count,
{
    if count <= 0 {
        Seq::empty()
    } else {
        drawn(placed, texts, count - 1) + drawn_pane(placed[count - 1], text_of(texts, count - 1))
    }
}

/// The character of a decimal digit.
fn digit_char(value: u32) -> (c: char)
    requires
        value < 10,
    ensures
        c == digit(value as nat),
{
    if value == 0 {
        '0'
    } else if value == 1 {
        '1'
    } else if value == 2 {
        '2'
    } else if value == 3 {
        '3'
    } else if value == 4 {
        '4'
    } else if value == 5 {
        '5'
    } else if value == 6 {
        '6'
    } else if value == 7 {
        '7'
    } else if value == 8 {
        '8'
    } else {
        '9'
    }
}

/// Appends `value` in decimal digits.
fn push_decimal(out: &mut Vec<char>, value: u32)
    ensures
        final(out)@ == old(out)@ + decimal(value as nat),
    decreases value,
{
    if value >= 10 {
        push_decimal(out, value / 10);
    }
    out.push(digit_char(value % 10));
    assert(out@ =~= old(out)@ + decimal(value as nat));
}

/// Appends what moves the cursor to a row and a column.
fn push_goto(out: &mut Vec<char>, row: u32, col: u32)
    ensures
        final(out)@ == old(out)@ + goto(row as nat, col as nat),
{
    out.push('\u{1b}');
    out.push('[');
    push_decimal(out, row);
    out.push(';');
    push_decimal(out, col);
    out.push('H');
    assert(out@ =~= old(out)@ + goto(row as nat, col as nat));
}

/// Appends so many times the same character.
fn push_repeated(out: &mut Vec<char>, c: char, count: usize)
    ensures
        final(out)@ == old(out)@ + repeated(c, count as int),
{
    let mut i: usize = 0;
    assert(out@ =~= old(out)@ + repeated(c, 0));
    while i < count
        invariant
            0 <= i <= count,
            out@ == old(out)@ + repeated(c, i as int),
        decreases count - i,
    {
        out.push(c);
        i += 1;
        assert(out@ =~= old(out)@ + repeated(c, i as int));
    }
}

/// Appends the row `row` of `text`, cut or filled with blanks to `width`.
fn push_fitted(out: &mut Vec<char>, text: &Vec<Vec<char>>, row: usize, width: usize)
    ensures
        final(out)@ == old(out)@ + fitted(line_of(text@, row as int), width as int),
{
    let ghost line = line_of(text@, row as int);
    let mut written: usize = 0;
    if row < text.len() {
        let chars = &text[row];
        assert(out@ =~= old(out)@ + line.take(0));
        while written < chars.len() && written < width
            invariant
                0 <= written <= chars.len(),
                written <= width,
                chars@ == line,
                out@ == old(out)@ + line.take(written as int),
            decreases chars.len() - written,
        {
            out.push(chars[written]);
            written += 1;
            assert(out@ =~= old(out)@ + line.take(written as int));
        }
    } else {
        assert(out@ =~= old(out)@ + line.take(0));
    }
    let ghost before = out@;
    push_repeated(out, ' ', width - written);
    proof {
        if line.len() >= width {
            assert(repeated(' ', 0) =~= Seq::<char>::empty());
            assert(out@ =~= old(out)@ + line.take(width as int));
        } else {
            assert(line.take(written as int) =~= line);
            assert(out@ =~= old(out)@ + (line + repeated(' ', width - line.len())));
        }
    }
}

/// Appends one row of a pane as it is drawn.
fn push_row(out: &mut Vec<char>, placed: &PlacedPane, text: &Vec<Vec<char>>, row: usize)
    requires
        row < placed.area.rows,
    ensures
        final(out)@ == old(out)@ + drawn_row(*placed, text@, row as int),
{
    let cols = placed.area.cols as usize;
    let rows = placed.area.rows as usize;
    if placed.pane.settings.invisible_borders {
        push_fitted(out, text, row, cols);
    } else if cols < 2 || rows < 2 {
        push_repeated(out, ' ', cols);
    } else if row == 0 {
        out.push(TOP_LEFT);
        push_repeated(out, HORIZONTAL, cols - 2);
        out.push(TOP_RIGHT);
        assert(out@ =~= old(out)@ + drawn_row(*placed, text@, row as int));
    } else if row == rows - 1 {
        out.push(BOTTOM_LEFT);
        push_repeated(out, HORIZONTAL, cols - 2);
        out.push(BOTTOM_RIGHT);
        assert(out@ =~= old(out)@ + drawn_row(*placed, text@, row as int));
    } else {
        out.push(VERTICAL);
        push_fitted(out, text, row - 1, cols - 2);
        out.push(VERTICAL);
        assert(out@ =~= old(out)@ + drawn_row(*placed, text@, row as int));
    }
}

/// Appends a pane as it is drawn: its rows, each in its own cells.
pub fn draw_pane(out: &mut Vec<char>, placed: &PlacedPane, text: &Vec<Vec<char>>)
    ensures
        final(out)@ == old(out)@ + drawn_pane(*placed, text@),
{
    let mut row: usize = 0;
    let rows = placed.area.rows as usize;
    assert(out@ =~= old(out)@ + drawn_rows(*placed, text@, 0));
    while row < rows
        invariant
            0 <= row <= rows,
            rows == placed.area.rows,
            out@ == old(out)@ + drawn_rows(*placed, text@, row as int),
        decreases rows - row,
    {
        let ghost before = out@;
        push_goto(out, placed.area.y as u32 + row as u32 + 1, placed.area.x as u32 + 1);
        push_row(out, placed, text, row);
        row += 1;
        assert(out@ =~= old(out)@ + drawn_rows(*placed, text@, row as int));
    }
}

/// What draws the panes, one after the other: each with the text that is
/// given for it, or empty where none is given.
pub fn draw(placed: &Vec<PlacedPane>, texts: &Vec<Vec<Vec<char>>>) -> (frame: Vec<char>)
    ensures
        frame@ == drawn(placed@, texts@, placed.len() as int),
{
    let mut frame: Vec<char> = Vec::new();
    let nothing: Vec<Vec<char>> = Vec::new();
    let mut at: usize = 0;
    assert(frame@ =~= drawn(placed@, texts@, 0));
    while at < placed.len()
        invariant
            0 <= at <= placed.len(),
            nothing@.len() == 0,
            frame@ == drawn(placed@, texts@, at as int),
        decreases placed.len() - at,
    {
        let text = if at < texts.len() {
            &texts[at]
        } else {
            &nothing
        };
        assert(text@ =~= text_of(texts@, at as int));
        draw_pane(&mut frame, &placed[at], text);
        at += 1;
    }
    frame
}

} // verus!

//! What is written to the terminal when a session starts and when it ends.

use vstd::prelude::*;
use vstd::string::StringExecFns;

verus! {

/// The character of a decimal digit.
pub open spec fn digit(value: nat) -> char {
    if value == 0 {
        '0'
    } else if value == 1 {
        '1'
    } else if value == 2 {
        '2'
    } else if value == 3 {
        '3'
    } else if value == 4 {
        '4'
    } else if value == 5 {
        '5'
    } else if value == 6 {
        '6'
    } else if value == 7 {
        '7'
    } else if value == 8 {
        '8'
    } else {
        '9'
    }
}

/// A number in decimal digits, without leading zeros.
pub open spec fn decimal(value: nat) -> Seq<char>
    decreases value,
{
    if value < 10 {
        seq![digit(value)]
    } else {
        decimal(value / 10).push(digit(value % 10))
    }
}

/// What switches to the alternate screen.
pub open spec fn alternate_screen_on() -> Seq<char> {
    "\u{1b}[?1049h"@
}

/// What leaves the alternate screen.
pub open spec fn alternate_screen_off() -> Seq<char> {
    "\u{1b}[?1049l"@
}

/// What resets the style.
pub open spec fn style_reset() -> Seq<char> {
    "\u{1b}[m"@
}

/// What shows the cursor.
pub open spec fn cursor_show() -> Seq<char> {
    "\u{1b}[?25h"@
}

/// What moves the cursor to the first column of the last of so many rows.
pub open spec fn goto_last_row(rows: u16) -> Seq<char> {
    "\u{1b}["@ + decimal(rows as nat) + ";1H"@
}

/// What restores the terminal from the last row on: a new line, the screen
/// as it was before the session, the style reset, the cursor shown.
pub open spec fn restoration(rows: u16) -> Seq<char> {
    goto_last_row(rows) + "\n"@ + alternate_screen_off() + style_reset() + cursor_show()
}

/// What a session writes when it ends: the restoration of the terminal,
/// then the report of the error that ended it, or a goodbye.
pub open spec fn parting(rows: u16, error: Option<Seq<char>>) -> Seq<char> {
    match error {
        Some(report) => restoration(rows) + report,
        None => restoration(rows) + "Bye from Mosaic!"@,
    }
}

/// The text of a decimal digit.
fn digit_text(value: u16) -> (text: &'static str)
    requires
        value < 10,
    ensures
        text@ == seq![digit(value as nat)],
{
    proof {
        reveal_strlit("0");
        reveal_strlit("1");
        reveal_strlit("2");
        reveal_strlit("3");
        reveal_strlit("4");
        reveal_strlit("5");
        reveal_strlit("6");
        reveal_strlit("7");
        reveal_strlit("8");
        reveal_strlit("9");
    }
    let text = if value == 0 {
        "0"
    } else if value == 1 {
        "1"
    } else if value == 2 {
        "2"
    } else if value == 3 {
        "3"
    } else if value == 4 {
        "4"
    } else if value == 5 {
        "5"
    } else if value == 6 {
        "6"
    } else if value == 7 {
        "7"
    } else if value == 8 {
        "8"
    } else {
        "9"
    };
    assert(text@ =~= seq![digit(value as nat)]);
    text
}

/// Appends `value` in decimal digits to `text`.
pub fn append_decimal(text: &mut String, value: u16)
    ensures
        final(text)@ == old(text)@ + decimal(value as nat),
    decreases value,
{
    if value >= 10 {
        append_decimal(text, value / 10);
    }
    text.append(digit_text(value % 10));
    assert(text@ =~= old(text)@ + decimal(value as nat));
}

/// What a session writes when it starts.
pub fn entering_text() -> (text: String)
    ensures
        text@ == alternate_screen_on(),
{
    String::from_str("\u{1b}[?1049h")
}

/// What a session writes when it ends, on a terminal of so many rows.
pub fn parting_text(rows: u16, error: &Option<String>) -> (text: String)
    ensures
        text@ == parting(
            rows,
            match *error {
                Some(report) => Some(report@),
                None => None,
            },
        ),
{
    let mut text = String::from_str("\u{1b}[");
    append_decimal(&mut text, rows);
    text.append(";1H");
    text.append("\n");
    text.append("\u{1b}[?1049l");
    text.append("\u{1b}[m");
    text.append("\u{1b}[?25h");
    assert(text@ =~= restoration(rows));
    match error {
        Some(report) => {
            text.append(report.as_str());
        },
        None => {
            text.append("Bye from Mosaic!");
        },
    }
    text
}

} // verus!

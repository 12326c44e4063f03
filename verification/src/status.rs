//! The texts of the status bar and of the greeting of an empty document.

use crate::chars::to_chars;
use vstd::prelude::*;

verus! {

/// The character of a decimal digit.
pub open spec fn spec_digit(d: nat) -> char {
    ('0' as nat + d) as char
}

/// A number in decimal, without leading zeros.
pub open spec fn spec_decimal(n: nat) -> Seq<char>
    decreases n,
{
    if n < 10 {
        seq![spec_digit(n)]
    } else {
        spec_decimal(n / 10).push(spec_digit(n % 10))
    }
}

/// `count` spaces.
pub open spec fn spaces(count: nat) -> Seq<char> {
    Seq::new(count, |i: int| ' ')
}

/// The first `width` characters of a text, or all of it.
pub open spec fn cut(text: Seq<char>, width: nat) -> Seq<char> {
    if width < text.len() {
        text.take(width as int)
    } else {
        text
    }
}

/// The left part of the status bar: the name of the file, cut to twenty
/// characters, the number of rows and whether the document was changed.
pub open spec fn status_left(file_name: Option<Seq<char>>, lines: nat, dirty: bool) -> Seq<char> {
    let name = match file_name {
        Some(name) => cut(name, 20),
        None => "[No file name]"@,
    };
    let modified = if dirty {
        "(modified)"@
    } else {
        Seq::empty()
    };
    name + " - "@ + spec_decimal(lines) + " lines "@ + modified
}

/// The right part of the status bar: the language, and the row of the
/// cursor, counted from one, among the rows.
pub open spec fn status_right(file_type: Seq<char>, line: nat, lines: nat) -> Seq<char> {
    file_type + " | "@ + spec_decimal(line) + "/"@ + spec_decimal(lines)
}

/// The status bar: the left part, the right part, and between them as
/// many spaces as fill the width; the whole cut to the width.
pub open spec fn spec_status_bar(left: Seq<char>, right: Seq<char>, width: nat) -> Seq<char> {
    let padding = if left.len() + right.len() < width {
        (width - left.len() - right.len()) as nat
    } else {
        0
    };
    cut(left + spaces(padding) + right, width)
}

/// The greeting with the version in it.
pub open spec fn greeting(version: Seq<char>) -> Seq<char> {
    "Welcome to Hecto v"@ + version + ".\r"@
}

/// The greeting line of an empty document: a tilde, then the greeting in
/// the middle of the width; the whole cut to the width.
pub open spec fn spec_welcome_message(version: Seq<char>, width: nat) -> Seq<char> {
    let message = greeting(version);
    let padding = if message.len() < width {
        ((width - message.len()) / 2) as nat
    } else {
        0
    };
    cut("~"@ + spaces(padding) + message, width)
}

/// The character of the digit `d`.
fn digit(d: usize) -> (c: char)
    requires
        d < 10,
    ensures
        c == spec_digit(d as nat),
{
    let digits: [char; 10] = ['0', '1', '2', '3', '4', '5', '6', '7', '8', '9'];
    digits[d]
}

/// Writes a number in decimal.
pub fn decimal(n: usize) -> (digits: Vec<char>)
    ensures
        digits@ == spec_decimal(n as nat),
    decreases n,
{
    if n < 10 {
        let digits = vec![digit(n)];
        assert(digits@ =~= spec_decimal(n as nat));
        digits
    } else {
        let mut digits = decimal(n / 10);
        digits.push(digit(n % 10));
        digits
    }
}

/// Appends the characters of a text.
fn push_str(line: &mut Vec<char>, text: &str)
    ensures
        final(line)@ == old(line)@ + text@,
{
    let mut chars = to_chars(text);
    line.append(&mut chars);
}

/// Appends `count` spaces.
fn push_spaces(line: &mut Vec<char>, count: usize)
    ensures
        final(line)@ == old(line)@ + spaces(count as nat),
{
    let mut i: usize = 0;
    assert(line@ =~= old(line)@ + spaces(0));
    while i < count
        invariant
            i <= count,
            line@ == old(line)@ + spaces(i as nat),
        decreases count - i,
    {
        line.push(' ');
        i += 1;
        assert(line@ =~= old(line)@ + spaces(i as nat));
    }
}

/// The first `width` characters as a string.
fn cut_to(line: &Vec<char>, width: usize) -> (text: String)
    ensures
        text@ == cut(line@, width as nat),
{
    let end = if width < line.len() {
        width
    } else {
        line.len()
    };
    let mut text = String::new();
    let mut i: usize = 0;
    while i < end
        invariant
            i <= end <= line.len(),
            text@ == line@.take(i as int),
        decreases end - i,
    {
        text.push(line[i]);
        i += 1;
        assert(text@ =~= line@.take(i as int));
    }
    assert(line@.take(line.len() as int) =~= line@);
    text
}

/// The text of the status bar for a terminal of the given width.
/// `cursor_y` is the row of the cursor, counted from zero.
pub fn status_bar(
    file_name: Option<&String>,
    lines: usize,
    dirty: bool,
    file_type: &str,
    cursor_y: usize,
    width: usize,
) -> (text: String)
    ensures
        text@ == spec_status_bar(
            status_left(
                match file_name {
                    Some(name) => Some(name@),
                    None => None,
                },
                lines as nat,
                dirty,
            ),
            status_right(
                file_type@,
                if cursor_y < usize::MAX {
                    (cursor_y + 1) as nat
                } else {
                    cursor_y as nat
                },
                lines as nat,
            ),
            width as nat,
        ),
{
    let mut left: Vec<char> = Vec::new();
    match file_name {
        Some(name) => {
            let name = to_chars(name.as_str());
            let short = cut_to(&name, 20);
            push_str(&mut left, short.as_str());
        },
        None => {
            push_str(&mut left, "[No file name]");
        },
    }
    push_str(&mut left, " - ");
    let mut count = decimal(lines);
    left.append(&mut count);
    push_str(&mut left, " lines ");
    if dirty {
        push_str(&mut left, "(modified)");
    }
    let mut right = to_chars(file_type);
    push_str(&mut right, " | ");
    let mut line = decimal(cursor_y.saturating_add(1));
    right.append(&mut line);
    push_str(&mut right, "/");
    let mut count = decimal(lines);
    right.append(&mut count);
    let ghost l = left@;
    let ghost r = right@;
    assert(l =~= status_left(
        match file_name {
            Some(name) => Some(name@),
            None => None,
        },
        lines as nat,
        dirty,
    ));
    let padding = if left.len() < width && right.len() < width - left.len() {
        width - left.len() - right.len()
    } else {
        0
    };
    push_spaces(&mut left, padding);
    left.append(&mut right);
    cut_to(&left, width)
}

/// The greeting line for a terminal of the given width.
pub fn welcome_message(version: &str, width: usize) -> (text: String)
    ensures
        text@ == spec_welcome_message(version@, width as nat),
{
    let mut message = to_chars("Welcome to Hecto v");
    push_str(&mut message, version);
    push_str(&mut message, ".\r");
    let padding = if message.len() < width {
        (width - message.len()) / 2
    } else {
        0
    };
    let mut line = to_chars("~");
    push_spaces(&mut line, padding);
    line.append(&mut message);
    cut_to(&line, width)
}

} // verus!

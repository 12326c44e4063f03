//! Character classes and conversions between strings and character vectors.

use vstd::prelude::*;

verus! {

/// `String::push` appends one character to the end of the string.
pub assume_specification[ std::string::String::push ](s: &mut std::string::String, c: char)
    ensures
        final(s)@ == old(s)@.push(c),
;

/// `String::pop` takes the last character off the string and returns it;
/// an empty string stays as it is.
pub assume_specification[ std::string::String::pop ](s: &mut std::string::String) -> (c: Option<
    char,
>)
    ensures
        match c {
            Some(c) => old(s)@.len() > 0 && c == old(s)@.last() && final(s)@ == old(
                s,
            )@.drop_last(),
            None => old(s)@.len() == 0 && final(s)@ == old(s)@,
        },
;

/// What `char::is_alphanumeric` answers for a character.
pub uninterp spec fn unicode_alphanumeric(c: char) -> bool;

/// `char::is_alphanumeric` is a function of the character alone; the
/// library names its answer and says nothing more about it.
pub assume_specification[ char::is_alphanumeric ](c: char) -> (b: bool)
    ensures
        b == unicode_alphanumeric(c),
;

/// A letter or a digit. Among the ASCII characters these are the letters
/// `a` to `z` and `A` to `Z` and the decimal digits; beyond ASCII they are
/// the characters that `char::is_alphanumeric` accepts.
pub open spec fn spec_is_letter_or_digit(c: char) -> bool {
    if c <= '\x7F' {
        'a' <= c <= 'z' || 'A' <= c <= 'Z' || '0' <= c <= '9'
    } else {
        unicode_alphanumeric(c)
    }
}

/// ASCII decimal digits.
pub open spec fn spec_is_digit(c: char) -> bool {
    '0' <= c <= '9'
}

/// ASCII whitespace: space, tab, line feed, form feed, carriage return.
pub open spec fn spec_is_whitespace(c: char) -> bool {
    c == ' ' || c == '\t' || c == '\n' || c == '\x0C' || c == '\r'
}

/// ASCII punctuation: the printable ASCII characters that are neither
/// letters, digits nor the space.
pub open spec fn spec_is_punctuation(c: char) -> bool {
    '!' <= c <= '/' || ':' <= c <= '@' || '[' <= c <= '`' || '{' <= c <= '~'
}

/// A separator ends a word: ASCII whitespace or ASCII punctuation.
pub open spec fn spec_is_separator(c: char) -> bool {
    spec_is_whitespace(c) || spec_is_punctuation(c)
}

/// Whether the character is an ASCII decimal digit.
pub fn is_digit(c: char) -> (b: bool)
    ensures
        b == spec_is_digit(c),
{
    '0' <= c && c <= '9'
}

/// Control characters: those below the space, the delete character and
/// the 32 characters that follow it.
pub open spec fn spec_is_control(c: char) -> bool {
    c <= '\x1F' || '\x7F' <= c <= '\u{9F}'
}

/// Whether the character is a control character.
pub fn is_control(c: char) -> (b: bool)
    ensures
        b == spec_is_control(c),
{
    c <= '\x1F' || ('\x7F' <= c && c <= '\u{9F}')
}

/// Whether the character is a letter or a digit.
pub fn is_letter_or_digit(c: char) -> (b: bool)
    ensures
        b == spec_is_letter_or_digit(c),
{
    if c <= '\x7F' {
        ('a' <= c && c <= 'z') || ('A' <= c && c <= 'Z') || ('0' <= c && c <= '9')
    } else {
        c.is_alphanumeric()
    }
}

/// Whether the character ends a word.
pub fn is_separator(c: char) -> (b: bool)
    ensures
        b == spec_is_separator(c),
{
    let whitespace = c == ' ' || c == '\t' || c == '\n' || c == '\x0C' || c == '\r';
    let punctuation = ('!' <= c && c <= '/') || (':' <= c && c <= '@') || ('[' <= c && c <= '`')
        || ('{' <= c && c <= '~');
    whitespace || punctuation
}

/// The characters of a string, in order.
pub fn to_chars(s: &str) -> (v: Vec<char>)
    ensures
        v@ == s@,
{
    let mut v: Vec<char> = Vec::new();
    for c in it: s.chars()
        invariant
            it.seq() == s@,
            v@ == s@.take(it.index() as int),
    {
        v.push(c);
    }
    v
}

} // verus!

//! The highlighting rules of one line, as a function from its characters
//! to their categories. A line is scanned from left to right in tokens; the
//! only state that passes from one line to the next is whether a block
//! comment is still open.

use crate::chars::{
    is_digit, is_letter_or_digit, is_separator, spec_is_digit, spec_is_letter_or_digit,
    spec_is_separator, to_chars,
};
use crate::filetype::{HighlightingOptions, ProfileView};
use crate::highlighting::Type;
use crate::search::{find_first, first_from, lemma_first_from, matches_at, occurs_at};
use vstd::prelude::*;

verus! {

/// The delimiter that closes a block comment.
pub open spec fn comment_close() -> Seq<char> {
    seq!['*', '/']
}

/// Where a block comment whose inside starts at `from` ends: just behind
/// the first closing delimiter, or at the end of the line.
pub open spec fn block_end(s: Seq<char>, from: int) -> int {
    match first_from(s, comment_close(), from) {
        Some(k) => k + 2,
        None => s.len() as int,
    }
}

/// Whether a block comment whose inside starts at `from` is closed on
/// this line.
pub open spec fn block_closed(s: Seq<char>, from: int) -> bool {
    first_from(s, comment_close(), from) is Some
}

/// A block comment opens at `i`.
pub open spec fn opens_block(p: ProfileView, s: Seq<char>, i: int) -> bool {
    p.multiline_comments && i + 1 < s.len() && s[i] == '/' && s[i + 1] == '*'
}

/// The end of the character literal that starts at `i`, if one does: a
/// quote, one character or a backslash and one character, and a quote.
pub open spec fn char_literal_end(p: ProfileView, s: Seq<char>, i: int) -> Option<int> {
    if p.characters && s[i] == '\'' && i + 1 < s.len() {
        let close = if s[i + 1] == '\\' {
            i + 3
        } else {
            i + 2
        };
        if close < s.len() && s[close] == '\'' {
            Some(close + 1)
        } else {
            None
        }
    } else {
        None
    }
}

/// A comment that runs to the end of the line opens at `i`.
pub open spec fn opens_line_comment(p: ProfileView, s: Seq<char>, i: int) -> bool {
    p.comments && i + 1 < s.len() && s[i] == '/' && s[i + 1] == '/'
}

/// The word `w` stands at `i` and is bounded on both sides by a separator
/// or by an edge of the line.
pub open spec fn word_at(s: Seq<char>, i: int, w: Seq<char>) -> bool {
    &&& w.len() > 0
    &&& i == 0 || spec_is_separator(s[i - 1])
    &&& i + w.len() <= s.len()
    &&& s.subrange(i, i + w.len()) == w
    &&& i + w.len() == s.len() || spec_is_separator(s[i + w.len()])
}

/// The end of the first word of `words`, from position `k` of the list on,
/// that stands at `i`.
pub open spec fn keyword_end(s: Seq<char>, i: int, words: Seq<Seq<char>>, k: int) -> Option<int>
    decreases words.len() - k,
{
    if k < 0 || k >= words.len() {
        None
    } else if word_at(s, i, words[k]) {
        Some(i + words[k].len())
    } else {
        keyword_end(s, i, words, k + 1)
    }
}

/// A number starts at `i`: a digit with no letter or digit just before it.
pub open spec fn number_starts(p: ProfileView, s: Seq<char>, i: int) -> bool {
    p.numbers && spec_is_digit(s[i]) && (i == 0 || !spec_is_letter_or_digit(s[i - 1]))
}

/// The end of the run of digits and dots that reaches `j`.
pub open spec fn number_end(s: Seq<char>, j: int) -> int
    decreases s.len() - j,
{
    if 0 <= j < s.len() && (s[j] == '.' || spec_is_digit(s[j])) {
        number_end(s, j + 1)
    } else {
        j
    }
}

/// A string literal opens at `i`.
pub open spec fn string_starts(p: ProfileView, s: Seq<char>, i: int) -> bool {
    p.strings && s[i] == '"'
}

/// The end of the string literal whose inside reaches `j`: just behind the
/// next double quote, or at the end of the line.
pub open spec fn string_end(s: Seq<char>, j: int) -> int
    decreases s.len() - j,
{
    if j < 0 || j >= s.len() {
        s.len() as int
    } else if s[j] == '"' {
        j + 1
    } else {
        string_end(s, j + 1)
    }
}

/// One token of a line: its category, where it ends, and whether it is a
/// block comment that the line leaves open.
pub struct Token {
    pub kind: Type,
    pub end: int,
    pub open: bool,
}

/// The token that starts at `i`. The rules are tried in this order: block
/// comment, character literal, line comment, primary keyword, secondary
/// keyword, number, string; what none of them takes is one plain character.
pub open spec fn token_at(p: ProfileView, s: Seq<char>, i: int) -> Token {
    if opens_block(p, s, i) {
        Token {
            kind: Type::MultiLineComment,
            end: block_end(s, i + 2),
            open: !block_closed(s, i + 2),
        }
    } else if char_literal_end(p, s, i) is Some {
        Token { kind: Type::Character, end: char_literal_end(p, s, i)->0, open: false }
    } else if opens_line_comment(p, s, i) {
        Token { kind: Type::Comment, end: s.len() as int, open: false }
    } else if keyword_end(s, i, p.primary_keywords, 0) is Some {
        Token {
            kind: Type::PrimaryKeywords,
            end: keyword_end(s, i, p.primary_keywords, 0)->0,
            open: false,
        }
    } else if keyword_end(s, i, p.secondary_keywords, 0) is Some {
        Token {
            kind: Type::SecondaryKeywords,
            end: keyword_end(s, i, p.secondary_keywords, 0)->0,
            open: false,
        }
    } else if number_starts(p, s, i) {
        Token { kind: Type::Number, end: number_end(s, i + 1), open: false }
    } else if string_starts(p, s, i) {
        Token { kind: Type::String, end: string_end(s, i + 1), open: false }
    } else {
        Token { kind: Type::Plain, end: i + 1, open: false }
    }
}

/// `len` characters of one category.
pub open spec fn run(kind: Type, len: int) -> Seq<Type> {
    Seq::new(len as nat, |j: int| kind)
}

/// A block comment ends within the line, and behind its closing
/// delimiter if it has one.
pub proof fn lemma_block_end(s: Seq<char>, from: int)
    requires
        0 <= from <= s.len(),
    ensures
        from <= block_end(s, from) <= s.len(),
        block_closed(s, from) ==> from + 2 <= block_end(s, from),
{
    lemma_first_from(s, comment_close(), from);
}

/// A keyword that stands at `i` is one of the words of the list, bounded
/// on both sides, and ends within the line.
pub proof fn lemma_keyword_end(s: Seq<char>, i: int, words: Seq<Seq<char>>, k: int)
    requires
        0 <= i < s.len(),
        0 <= k,
    ensures
        match keyword_end(s, i, words, k) {
            Some(e) => i < e <= s.len() && exists|j: int|
                k <= j < words.len() && word_at(s, i, #[trigger] words[j]) && e == i
                    + words[j].len(),
            None => true,
        },
    decreases words.len() - k,
{
    if k < words.len() && !word_at(s, i, words[k]) {
        lemma_keyword_end(s, i, words, k + 1);
    }
}

/// A number ends within the line.
pub proof fn lemma_number_end(s: Seq<char>, j: int)
    requires
        0 <= j <= s.len(),
    ensures
        j <= number_end(s, j) <= s.len(),
    decreases s.len() - j,
{
    if j < s.len() && (s[j] == '.' || spec_is_digit(s[j])) {
        lemma_number_end(s, j + 1);
    }
}

/// A string ends within the line.
pub proof fn lemma_string_end(s: Seq<char>, j: int)
    requires
        0 <= j <= s.len(),
    ensures
        j <= string_end(s, j) <= s.len(),
    decreases s.len() - j,
{
    if j < s.len() && s[j] != '"' {
        lemma_string_end(s, j + 1);
    }
}

/// Every token holds at least one character and ends within the line.
pub proof fn lemma_token_advances(p: ProfileView, s: Seq<char>, i: int)
    requires
        0 <= i < s.len(),
    ensures
        i < token_at(p, s, i).end <= s.len(),
{
    if opens_block(p, s, i) {
        lemma_block_end(s, i + 2);
    } else if char_literal_end(p, s, i) is Some {
    } else if opens_line_comment(p, s, i) {
    } else if keyword_end(s, i, p.primary_keywords, 0) is Some {
        lemma_keyword_end(s, i, p.primary_keywords, 0);
    } else if keyword_end(s, i, p.secondary_keywords, 0) is Some {
        lemma_keyword_end(s, i, p.secondary_keywords, 0);
    } else if number_starts(p, s, i) {
        lemma_number_end(s, i + 1);
    } else if string_starts(p, s, i) {
        lemma_string_end(s, i + 1);
    }
}

/// The categories of the characters from `i` to the end of the line, when
/// a token starts at `i`.
pub open spec fn scan_tags(p: ProfileView, s: Seq<char>, i: int) -> Seq<Type>
    decreases s.len() - i,
{
    if 0 <= i < s.len() {
        let t = token_at(p, s, i);
        proof {
            lemma_token_advances(p, s, i);
        }
        run(t.kind, t.end - i) + scan_tags(p, s, t.end)
    } else {
        Seq::empty()
    }
}

/// Whether the line ends inside a block comment, when a token starts at `i`
/// and `open` says whether the line was inside one just before `i`.
pub open spec fn scan_open(p: ProfileView, s: Seq<char>, i: int, open: bool) -> bool
    decreases s.len() - i,
{
    if 0 <= i < s.len() {
        let t = token_at(p, s, i);
        proof {
            lemma_token_advances(p, s, i);
        }
        scan_open(p, s, t.end, t.open)
    } else {
        open
    }
}

/// The categories of a whole line. `in_comment` says whether the line
/// before left a block comment open: if so the line starts inside it.
pub open spec fn line_tags(p: ProfileView, s: Seq<char>, in_comment: bool) -> Seq<Type> {
    if in_comment {
        run(Type::MultiLineComment, block_end(s, 0)) + scan_tags(p, s, block_end(s, 0))
    } else {
        scan_tags(p, s, 0)
    }
}

/// Whether a line leaves a block comment open for the line after it.
pub open spec fn line_open(p: ProfileView, s: Seq<char>, in_comment: bool) -> bool {
    if in_comment {
        scan_open(p, s, block_end(s, 0), !block_closed(s, 0))
    } else {
        scan_open(p, s, 0, false)
    }
}

/// A line gets one category for each of its characters.
pub proof fn lemma_scan_tags_len(p: ProfileView, s: Seq<char>, i: int)
    requires
        0 <= i <= s.len(),
    ensures
        scan_tags(p, s, i).len() == s.len() - i,
    decreases s.len() - i,
{
    if i < s.len() {
        lemma_token_advances(p, s, i);
        lemma_scan_tags_len(p, s, token_at(p, s, i).end);
    }
}

/// A line gets one category for each of its characters, whether or not
/// it starts inside a block comment.
pub proof fn lemma_line_tags_len(p: ProfileView, s: Seq<char>, in_comment: bool)
    ensures
        line_tags(p, s, in_comment).len() == s.len(),
{
    if in_comment {
        lemma_block_end(s, 0);
        lemma_scan_tags_len(p, s, block_end(s, 0));
    } else {
        lemma_scan_tags_len(p, s, 0);
    }
}

/// The category of a keyword.
pub open spec fn is_keyword(kind: Type) -> bool {
    kind == Type::PrimaryKeywords || kind == Type::SecondaryKeywords
}

/// Position `j` lies in a word of one of the keyword lists that is bounded
/// on both sides by a separator or an edge of the line.
pub open spec fn in_bounded_keyword(p: ProfileView, s: Seq<char>, j: int) -> bool {
    exists|a: int, w: Seq<char>|
        {
            &&& p.primary_keywords.contains(w) || p.secondary_keywords.contains(w)
            &&& #[trigger] word_at(s, a, w)
            &&& a <= j < a + w.len()
        }
}

/// What is scanned as a keyword from `i` on is a bounded word of a
/// keyword list.
proof fn lemma_scan_keywords_bounded(p: ProfileView, s: Seq<char>, i: int, j: int)
    requires
        0 <= i <= j < s.len(),
        is_keyword(scan_tags(p, s, i)[j - i]),
    ensures
        in_bounded_keyword(p, s, j),
    decreases s.len() - i,
{
    let t = token_at(p, s, i);
    lemma_token_advances(p, s, i);
    lemma_scan_tags_len(p, s, t.end);
    if j < t.end {
        assert(scan_tags(p, s, i)[j - i] == t.kind);
        lemma_keyword_end(s, i, p.primary_keywords, 0);
        lemma_keyword_end(s, i, p.secondary_keywords, 0);
        if t.kind == Type::PrimaryKeywords {
            let k = choose|k: int|
                0 <= k < p.primary_keywords.len() && word_at(s, i, #[trigger] p.primary_keywords[k])
                    && t.end == i + p.primary_keywords[k].len();
            assert(word_at(s, i, p.primary_keywords[k]));
        } else {
            let k = choose|k: int|
                0 <= k < p.secondary_keywords.len() && word_at(
                    s,
                    i,
                    #[trigger] p.secondary_keywords[k],
                ) && t.end == i + p.secondary_keywords[k].len();
            assert(word_at(s, i, p.secondary_keywords[k]));
        }
    } else {
        assert(scan_tags(p, s, i)[j - i] == scan_tags(p, s, t.end)[j - t.end]);
        lemma_scan_keywords_bounded(p, s, t.end, j);
    }
}

/// A character is highlighted as a keyword only as part of a whole word of
/// a keyword list: a keyword that stands inside a longer word is not one.
pub proof fn lemma_keywords_bounded(p: ProfileView, s: Seq<char>, in_comment: bool, j: int)
    requires
        0 <= j < s.len(),
        is_keyword(line_tags(p, s, in_comment)[j]),
    ensures
        in_bounded_keyword(p, s, j),
{
    if in_comment {
        lemma_block_end(s, 0);
        let e = block_end(s, 0);
        lemma_scan_tags_len(p, s, e);
        if j >= e {
            assert(line_tags(p, s, in_comment)[j] == scan_tags(p, s, e)[j - e]);
            lemma_scan_keywords_bounded(p, s, e, j);
        }
    } else {
        lemma_scan_keywords_bounded(p, s, 0, j);
    }
}

/// Appends one category for each position from `index` up to `end`.
fn push_run(tags: &mut Vec<Type>, index: &mut usize, kind: Type, end: usize)
    requires
        *old(index) <= end,
    ensures
        *final(index) == end,
        final(tags)@ == old(tags)@ + run(kind, end - *old(index)),
{
    let ghost before = tags@;
    let ghost start = *index as int;
    while *index < end
        invariant
            start <= *index <= end,
            tags@ == before + run(kind, *index - start),
        decreases end - *index,
    {
        tags.push(kind);
        *index += 1;
        assert(tags@ =~= before + run(kind, *index - start));
    }
    assert(tags@ =~= before + run(kind, end - start));
}

/// Finds the end of a block comment whose inside starts at `from`.
fn close_block(chars: &[char], from: usize) -> (r: (usize, bool))
    requires
        from <= chars@.len(),
    ensures
        r.0 == block_end(chars@, from as int),
        r.1 == block_closed(chars@, from as int),
        from <= r.0 <= chars@.len(),
{
    let n = chars.len();
    let close: [char; 2] = ['*', '/'];
    let close = close.as_slice();
    assert(close@ =~= comment_close());
    proof {
        lemma_block_end(chars@, from as int);
        lemma_first_from(chars@, comment_close(), from as int);
    }
    match find_first(chars, close, from) {
        Some(k) => (k + 2, true),
        None => (n, false),
    }
}

/// The block comment rule: at `/*` the comment runs through the next `*/`
/// or, if there is none, to the end of the line and beyond.
fn highlight_multiline_comments(
    tags: &mut Vec<Type>,
    index: &mut usize,
    open: &mut bool,
    opts: &HighlightingOptions,
    chars: &[char],
) -> (done: bool)
    requires
        *old(index) < chars@.len(),
    ensures
        done == opens_block(opts@, chars@, *old(index) as int),
        done ==> {
            &&& *final(index) == block_end(chars@, *old(index) + 2)
            &&& *final(open) == !block_closed(chars@, *old(index) + 2)
            &&& final(tags)@ == old(tags)@ + run(
                Type::MultiLineComment,
                block_end(chars@, *old(index) + 2) - *old(index),
            )
        },
        !done ==> *final(index) == *old(index) && *final(open) == *old(open) && final(tags)@ == old(
            tags,
        )@,
{
    let i = *index;
    if opts.multiline_comments() && chars[i] == '/' && i + 1 < chars.len() && chars[i + 1] == '*' {
        let (end, closed) = close_block(chars, i + 2);
        push_run(tags, index, Type::MultiLineComment, end);
        *open = !closed;
        return true;
    }
    false
}

/// The character literal rule.
fn highlight_char(
    tags: &mut Vec<Type>,
    index: &mut usize,
    opts: &HighlightingOptions,
    chars: &[char],
) -> (done: bool)
    requires
        *old(index) < chars@.len(),
    ensures
        done == char_literal_end(opts@, chars@, *old(index) as int) is Some,
        done ==> {
            &&& *final(index) == char_literal_end(opts@, chars@, *old(index) as int)->0
            &&& final(tags)@ == old(tags)@ + run(Type::Character, *final(index) - *old(index))
        },
        !done ==> *final(index) == *old(index) && final(tags)@ == old(tags)@,
{
    let i = *index;
    let n = chars.len();
    if opts.chars() && chars[i] == '\'' && i + 1 < n {
        let closing_index = if chars[i + 1] == '\\' {
            if n - i <= 3 {
                return false;
            }
            i + 3
        } else {
            if n - i <= 2 {
                return false;
            }
            i + 2
        };
        if chars[closing_index] == '\'' {
            push_run(tags, index, Type::Character, closing_index + 1);
            return true;
        }
    }
    false
}

/// The line comment rule: from `//` to the end of the line.
fn highlight_comment(
    tags: &mut Vec<Type>,
    index: &mut usize,
    opts: &HighlightingOptions,
    chars: &[char],
) -> (done: bool)
    requires
        *old(index) < chars@.len(),
    ensures
        done == opens_line_comment(opts@, chars@, *old(index) as int),
        done ==> {
            &&& *final(index) == chars@.len()
            &&& final(tags)@ == old(tags)@ + run(Type::Comment, chars@.len() - *old(index))
        },
        !done ==> *final(index) == *old(index) && final(tags)@ == old(tags)@,
{
    let i = *index;
    if opts.comments() && chars[i] == '/' && i + 1 < chars.len() && chars[i + 1] == '/' {
        push_run(tags, index, Type::Comment, chars.len());
        return true;
    }
    false
}

/// The string rule: from a double quote through the next one, or to the
/// end of the line.
fn highlight_strings(
    tags: &mut Vec<Type>,
    index: &mut usize,
    opts: &HighlightingOptions,
    chars: &[char],
) -> (done: bool)
    requires
        *old(index) < chars@.len(),
    ensures
        done == string_starts(opts@, chars@, *old(index) as int),
        done ==> {
            &&& *final(index) == string_end(chars@, *old(index) + 1)
            &&& final(tags)@ == old(tags)@ + run(Type::String, *final(index) - *old(index))
        },
        !done ==> *final(index) == *old(index) && final(tags)@ == old(tags)@,
{
    let i = *index;
    let n = chars.len();
    if opts.strings() && chars[i] == '"' {
        let mut end = i + 1;
        while end < n && chars[end] != '"'
            invariant
                n == chars@.len(),
                i < end <= n,
                string_end(chars@, i + 1) == string_end(chars@, end as int),
            decreases n - end,
        {
            end += 1;
        }
        if end < n {
            end += 1;
        }
        push_run(tags, index, Type::String, end);
        return true;
    }
    false
}

/// The number rule: a digit that no letter or digit precedes starts a run
/// of digits and dots.
fn highlight_number(
    tags: &mut Vec<Type>,
    index: &mut usize,
    opts: &HighlightingOptions,
    chars: &[char],
) -> (done: bool)
    requires
        *old(index) < chars@.len(),
    ensures
        done == number_starts(opts@, chars@, *old(index) as int),
        done ==> {
            &&& *final(index) == number_end(chars@, *old(index) + 1)
            &&& final(tags)@ == old(tags)@ + run(Type::Number, *final(index) - *old(index))
        },
        !done ==> *final(index) == *old(index) && final(tags)@ == old(tags)@,
{
    let i = *index;
    let n = chars.len();
    if opts.number() && is_digit(chars[i]) {
        if i > 0 && is_letter_or_digit(chars[i - 1]) {
            return false;
        }
        let mut end = i + 1;
        while end < n && (chars[end] == '.' || is_digit(chars[end]))
            invariant
                n == chars@.len(),
                i < end <= n,
                number_end(chars@, i + 1) == number_end(chars@, end as int),
            decreases n - end,
        {
            end += 1;
        }
        push_run(tags, index, Type::Number, end);
        return true;
    }
    false
}

/// Tags `substring` where it stands at `index`.
fn highlight_str(
    tags: &mut Vec<Type>,
    index: &mut usize,
    substring: &[char],
    chars: &[char],
    hl_type: Type,
) -> (done: bool)
    requires
        *old(index) < chars@.len(),
    ensures
        done == (substring@.len() > 0 && occurs_at(chars@, substring@, *old(index) as int)),
        done ==> {
            &&& *final(index) == *old(index) + substring@.len()
            &&& final(tags)@ == old(tags)@ + run(hl_type, substring@.len() as int)
        },
        !done ==> *final(index) == *old(index) && final(tags)@ == old(tags)@,
{
    let i = *index;
    let n = chars.len();
    let m = substring.len();
    if m == 0 || !matches_at(chars, substring, i) {
        return false;
    }
    push_run(tags, index, hl_type, i + m);
    true
}

/// No keyword stands behind a character that is not a separator.
proof fn lemma_no_keyword_inside_word(s: Seq<char>, i: int, words: Seq<Seq<char>>, k: int)
    requires
        0 < i < s.len(),
        !spec_is_separator(s[i - 1]),
        0 <= k,
    ensures
        keyword_end(s, i, words, k) is None,
    decreases words.len() - k,
{
    if k < words.len() {
        lemma_no_keyword_inside_word(s, i, words, k + 1);
    }
}

/// The keyword rule for one list of words, tried in order.
fn highlight_keywords(
    tags: &mut Vec<Type>,
    index: &mut usize,
    chars: &[char],
    keywords: &Vec<String>,
    hl_type: Type,
) -> (done: bool)
    requires
        *old(index) < chars@.len(),
    ensures
        done == keyword_end(chars@, *old(index) as int, keywords.deep_view(), 0) is Some,
        done ==> {
            &&& *final(index) == keyword_end(chars@, *old(index) as int, keywords.deep_view(), 0)->0
            &&& final(tags)@ == old(tags)@ + run(hl_type, *final(index) - *old(index))
        },
        !done ==> *final(index) == *old(index) && final(tags)@ == old(tags)@,
{
    let i = *index;
    let n = chars.len();
    let ghost words = keywords.deep_view();
    if i > 0 && !is_separator(chars[i - 1]) {
        proof {
            lemma_no_keyword_inside_word(chars@, i as int, words, 0);
        }
        return false;
    }
    let mut k: usize = 0;
    while k < keywords.len()
        invariant
            i == *index,
            i == *old(index),
            i < n == chars@.len(),
            i == 0 || spec_is_separator(chars@[i - 1]),
            words == keywords.deep_view(),
            k <= keywords.len(),
            tags@ == old(tags)@,
            keyword_end(chars@, i as int, words, 0) == keyword_end(
                chars@,
                i as int,
                words,
                k as int,
            ),
        decreases keywords.len() - k,
    {
        let word = to_chars(keywords[k].as_str());
        assert(word@ == words[k as int]);
        let m = word.len();
        if m < n - i && !is_separator(chars[i + m]) {
            k += 1;
            continue;
        }
        if highlight_str(tags, index, word.as_slice(), chars, hl_type) {
            assert(word_at(chars@, i as int, words[k as int]));
            return true;
        }
        assert(!word_at(chars@, i as int, words[k as int]));
        k += 1;
    }
    false
}

/// The keyword rule for the primary keywords.
fn highlight_primary_keywords(
    tags: &mut Vec<Type>,
    index: &mut usize,
    opts: &HighlightingOptions,
    chars: &[char],
) -> (done: bool)
    requires
        *old(index) < chars@.len(),
    ensures
        done == keyword_end(chars@, *old(index) as int, opts@.primary_keywords, 0) is Some,
        done ==> {
            &&& *final(index) == keyword_end(
                chars@,
                *old(index) as int,
                opts@.primary_keywords,
                0,
            )->0
            &&& final(tags)@ == old(tags)@ + run(
                Type::PrimaryKeywords,
                *final(index) - *old(index),
            )
        },
        !done ==> *final(index) == *old(index) && final(tags)@ == old(tags)@,
{
    highlight_keywords(tags, index, chars, opts.primary_keywords(), Type::PrimaryKeywords)
}

/// The keyword rule for the secondary keywords.
fn highlight_secondary_keywords(
    tags: &mut Vec<Type>,
    index: &mut usize,
    opts: &HighlightingOptions,
    chars: &[char],
) -> (done: bool)
    requires
        *old(index) < chars@.len(),
    ensures
        done == keyword_end(chars@, *old(index) as int, opts@.secondary_keywords, 0) is Some,
        done ==> {
            &&& *final(index) == keyword_end(
                chars@,
                *old(index) as int,
                opts@.secondary_keywords,
                0,
            )->0
            &&& final(tags)@ == old(tags)@ + run(
                Type::SecondaryKeywords,
                *final(index) - *old(index),
            )
        },
        !done ==> *final(index) == *old(index) && final(tags)@ == old(tags)@,
{
    highlight_keywords(tags, index, chars, opts.secondary_keywords(), Type::SecondaryKeywords)
}

/// Highlights one line. `start_with_comment` says whether the line before
/// left a block comment open; the second part of the result says whether
/// this line leaves one open.
pub fn highlight_line(opts: &HighlightingOptions, chars: &[char], start_with_comment: bool) -> (r: (
    Vec<Type>,
    bool,
))
    ensures
        r.0@ == line_tags(opts@, chars@, start_with_comment),
        r.1 == line_open(opts@, chars@, start_with_comment),
        r.0@.len() == chars@.len(),
{
    let n = chars.len();
    let mut tags: Vec<Type> = Vec::new();
    let mut index: usize = 0;
    let mut open = false;
    if start_with_comment {
        let (end, closed) = close_block(chars, 0);
        push_run(&mut tags, &mut index, Type::MultiLineComment, end);
        open = !closed;
    }
    let ghost head = tags@;
    while index < n
        invariant
            n == chars@.len(),
            index <= n,
            head + scan_tags(opts@, chars@, index as int) == line_tags(
                opts@,
                chars@,
                start_with_comment,
            ),
            scan_open(opts@, chars@, index as int, open) == line_open(
                opts@,
                chars@,
                start_with_comment,
            ),
            tags@ == head,
        decreases n - index,
    {
        let ghost before = tags@;
        let ghost i = index as int;
        let ghost t = token_at(opts@, chars@, i);
        proof {
            lemma_token_advances(opts@, chars@, i);
        }
        if highlight_multiline_comments(&mut tags, &mut index, &mut open, opts, chars) {
        } else {
            open = false;
            if highlight_char(&mut tags, &mut index, opts, chars) {
            } else if highlight_comment(&mut tags, &mut index, opts, chars) {
            } else if highlight_primary_keywords(&mut tags, &mut index, opts, chars) {
            } else if highlight_secondary_keywords(&mut tags, &mut index, opts, chars) {
            } else if highlight_number(&mut tags, &mut index, opts, chars) {
            } else if highlight_strings(&mut tags, &mut index, opts, chars) {
            } else {
                tags.push(Type::Plain);
                index += 1;
                assert(tags@ =~= before + run(Type::Plain, 1));
            }
        }
        assert(index == t.end);
        assert(open == t.open);
        assert(tags@ == before + run(t.kind, t.end - i));
        proof {
            head = tags@;
            assert((before + run(t.kind, t.end - i)) + scan_tags(opts@, chars@, t.end) =~= before
                + (run(t.kind, t.end - i) + scan_tags(opts@, chars@, t.end)));
        }
    }
    proof {
        lemma_line_tags_len(opts@, chars@, start_with_comment);
        assert(head + scan_tags(opts@, chars@, index as int) =~= head);
    }
    (tags, open)
}

} // verus!

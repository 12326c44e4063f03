//! Text as lines: how the content of a file is cut into lines and how
//! lines are put together again.

use crate::search::{find_first, first_from, lemma_first_from, occurs_at};
use vstd::prelude::*;

verus! {

/// The line feed as a sequence of one character.
pub open spec fn line_feed() -> Seq<char> {
    seq!['\n']
}

/// A line without the carriage return at its end, if it has one there.
pub open spec fn without_cr(line: Seq<char>) -> Seq<char> {
    if line.len() > 0 && line.last() == '\r' {
        line.drop_last()
    } else {
        line
    }
}

/// The lines of the text from offset `from` on. A line ends at a line
/// feed, or at a carriage return that a line feed follows; what stands
/// behind the last line feed is a line if it is not empty.
pub open spec fn lines_from(s: Seq<char>, from: int) -> Seq<Seq<char>>
    decreases s.len() - from,
{
    if from < 0 || from >= s.len() {
        Seq::empty()
    } else {
        match first_from(s, line_feed(), from) {
            Some(k) => {
                proof {
                    lemma_first_from(s, line_feed(), from);
                }
                seq![without_cr(s.subrange(from, k))] + lines_from(s, k + 1)
            },
            None => seq![s.subrange(from, s.len() as int)],
        }
    }
}

/// The lines of a text.
pub open spec fn spec_lines(s: Seq<char>) -> Seq<Seq<char>> {
    lines_from(s, 0)
}

/// The lines put together, each with a line feed behind it.
pub open spec fn joined(lines: Seq<Seq<char>>) -> Seq<char>
    decreases lines.len(),
{
    if lines.len() == 0 {
        Seq::empty()
    } else {
        joined(lines.drop_last()) + lines.last() + line_feed()
    }
}

/// No line feed of the text follows a carriage return.
pub open spec fn plain_breaks(s: Seq<char>) -> bool {
    forall|i: int| 0 < i < s.len() && #[trigger] s[i] == '\n' ==> s[i - 1] != '\r'
}

/// The text with a line feed at its end, if it is not empty and has none
/// there.
pub open spec fn terminated(s: Seq<char>) -> Seq<char> {
    if s.len() == 0 || s.last() == '\n' {
        s
    } else {
        s.push('\n')
    }
}

/// Putting one more line behind the others appends it and a line feed.
pub proof fn lemma_joined_push(lines: Seq<Seq<char>>, line: Seq<char>)
    ensures
        joined(lines.push(line)) == joined(lines) + line + line_feed(),
{
    assert(lines.push(line).drop_last() =~= lines);
}

/// Putting a line before the others puts it and a line feed in front.
pub proof fn lemma_joined_cons(line: Seq<char>, lines: Seq<Seq<char>>)
    ensures
        joined(seq![line] + lines) == line + line_feed() + joined(lines),
    decreases lines.len(),
{
    if lines.len() == 0 {
        assert(seq![line] + lines =~= Seq::<Seq<char>>::empty().push(line));
        lemma_joined_push(Seq::empty(), line);
        assert(joined(seq![line] + lines) =~= line + line_feed() + joined(lines));
    } else {
        lemma_joined_cons(line, lines.drop_last());
        assert((seq![line] + lines).drop_last() =~= seq![line] + lines.drop_last());
        assert(joined(seq![line] + lines) =~= line + line_feed() + joined(lines));
    }
}

/// Cutting a text into lines and putting the lines together gives the part
/// of the text that was cut, with a line feed at its end.
pub proof fn lemma_lines_round_trip(s: Seq<char>, from: int)
    requires
        0 <= from <= s.len(),
        plain_breaks(s),
    ensures
        joined(lines_from(s, from)) == terminated(s.subrange(from, s.len() as int)),
    decreases s.len() - from,
{
    let rest = s.subrange(from, s.len() as int);
    if from == s.len() {
        assert(joined(lines_from(s, from)) =~= terminated(rest));
    } else {
        lemma_first_from(s, line_feed(), from);
        match first_from(s, line_feed(), from) {
            Some(k) => {
                assert(s.subrange(k, k + 1)[0] == '\n');
                let line = s.subrange(from, k);
                assert(without_cr(line) == line) by {
                    if line.len() > 0 {
                        assert(line.last() == s[k - 1]);
                    }
                }
                lemma_lines_round_trip(s, k + 1);
                lemma_joined_cons(line, lines_from(s, k + 1));
                let tail = s.subrange(k + 1, s.len() as int);
                assert(rest =~= line + line_feed() + tail);
                assert(rest.last() == '\n' <==> (tail.len() == 0 || tail.last() == '\n'));
                assert(terminated(rest) =~= line + line_feed() + terminated(tail));
            },
            None => {
                assert(rest.last() != '\n') by {
                    let j = s.len() - 1;
                    assert(rest.last() == s[j]);
                    if s[j] == '\n' {
                        assert(s.subrange(j, j + 1) =~= line_feed());
                        assert(occurs_at(s, line_feed(), j));
                    }
                }
                assert(seq![rest] =~= Seq::<Seq<char>>::empty().push(rest));
                lemma_joined_push(Seq::empty(), rest);
                assert(joined(seq![rest]) =~= rest.push('\n'));
            },
        }
    }
}

/// The characters from `from` up to `to` as a string.
fn string_of(s: &[char], from: usize, to: usize) -> (r: String)
    requires
        from <= to <= s@.len(),
    ensures
        r@ == s@.subrange(from as int, to as int),
{
    let mut r = String::new();
    let mut i = from;
    while i < to
        invariant
            from <= i <= to <= s@.len(),
            r@ == s@.subrange(from as int, i as int),
        decreases to - i,
    {
        r.push(s[i]);
        i += 1;
        assert(r@ =~= s@.subrange(from as int, i as int));
    }
    r
}

/// Cuts a text into its lines.
pub fn split_lines(s: &[char]) -> (lines: Vec<String>)
    ensures
        lines.deep_view() == spec_lines(s@),
{
    let n = s.len();
    let feed: [char; 1] = ['\n'];
    let feed = feed.as_slice();
    assert(feed@ =~= line_feed());
    let mut lines: Vec<String> = Vec::new();
    let mut from: usize = 0;
    assert(lines.deep_view() + lines_from(s@, 0) =~= spec_lines(s@));
    while from < n
        invariant
            n == s@.len(),
            from <= n,
            feed@ == line_feed(),
            lines.deep_view() + lines_from(s@, from as int) == spec_lines(s@),
        decreases n - from,
    {
        let ghost before = lines.deep_view();
        proof {
            lemma_first_from(s@, line_feed(), from as int);
        }
        match find_first(s, feed, from) {
            Some(k) => {
                let end = if k > from && s[k - 1] == '\r' {
                    k - 1
                } else {
                    k
                };
                let line = string_of(s, from, end);
                assert(line@ =~= without_cr(s@.subrange(from as int, k as int)));
                lines.push(line);
                assert(lines.deep_view() =~= before.push(line@));
                assert(before.push(line@) + lines_from(s@, k + 1) =~= before + (seq![line@]
                    + lines_from(s@, k + 1)));
                from = k + 1;
            },
            None => {
                let line = string_of(s, from, n);
                lines.push(line);
                assert(lines.deep_view() =~= before.push(line@));
                assert(before.push(line@) + lines_from(s@, n as int) =~= before + seq![line@]);
                from = n;
            },
        }
    }
    assert(lines.deep_view() + lines_from(s@, from as int) =~= lines.deep_view());
    lines
}

} // verus!

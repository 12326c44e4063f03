//! Editing, searching and marking a row as a sequence of grapheme
//! clusters. Every position here counts clusters.

use crate::chars::to_chars;
use crate::editor::SearchDirection;
use crate::highlighting::Type;
use crate::search::{
    find_first, find_last, first_occurrence, last_occurrence, lemma_first_from, lemma_last_upto,
    matches_at, occurs_at,
};
use crate::segment::{
    all_non_empty, append_clusters, flatten, heads, join, lemma_join_all, lemma_join_split,
    lemma_join_step,
};
use vstd::prelude::*;

verus! {

/// The text of a row after `c` has been inserted before cluster `at`, or
/// at the end where there is no such cluster.
pub open spec fn text_with(g: Seq<Seq<char>>, at: int, c: char) -> Seq<char> {
    let at = if at < g.len() {
        at
    } else {
        g.len() as int
    };
    join(g, 0, at).push(c) + join(g, at, g.len() as int)
}

/// The text of a row without its cluster `at`; the whole text where there
/// is no such cluster.
pub open spec fn text_without(g: Seq<Seq<char>>, at: int) -> Seq<char> {
    if at < g.len() {
        join(g, 0, at) + join(g, at + 1, g.len() as int)
    } else {
        join(g, 0, g.len() as int)
    }
}

/// The text of the first `at` clusters of a row, or of all of them.
pub open spec fn text_before(g: Seq<Seq<char>>, at: int) -> Seq<char> {
    if at < g.len() {
        join(g, 0, at)
    } else {
        join(g, 0, g.len() as int)
    }
}

/// The text of a row from cluster `at` on.
pub open spec fn text_from(g: Seq<Seq<char>>, at: int) -> Seq<char> {
    if at < g.len() {
        join(g, at, g.len() as int)
    } else {
        Seq::empty()
    }
}

/// The cluster between `start` and `end` that begins `k` characters
/// behind the beginning of cluster `start`, if a cluster begins there.
pub open spec fn cluster_at(g: Seq<Seq<char>>, start: int, end: int, k: int) -> Option<int> {
    if exists|j: int| start <= j < end && join(g, start, j).len() == k {
        Some(choose|j: int| start <= j < end && join(g, start, j).len() == k)
    } else {
        None
    }
}

/// Where a search for `query` in a row of clusters `g` ends. A forward
/// search looks at the clusters from `at` on and takes the leftmost
/// occurrence; a backward search looks at the clusters before `at` and takes
/// the rightmost. The answer is the index of the cluster at whose beginning
/// the occurrence begins; an occurrence that begins inside a cluster gives
/// none, and so do an empty query and an `at` behind the end of the row.
pub open spec fn row_find(
    g: Seq<Seq<char>>,
    query: Seq<char>,
    at: int,
    direction: SearchDirection,
) -> Option<int> {
    if at < 0 || at > g.len() || query.len() == 0 {
        None
    } else {
        let start = if direction == SearchDirection::Forward {
            at
        } else {
            0
        };
        let end = if direction == SearchDirection::Forward {
            g.len() as int
        } else {
            at
        };
        let hit = if direction == SearchDirection::Forward {
            first_occurrence(join(g, start, end), query)
        } else {
            last_occurrence(join(g, start, end), query)
        };
        match hit {
            Some(k) => cluster_at(g, start, end, k),
            None => None,
        }
    }
}

/// What `row_find` gives lies in the part of the row that was searched.
pub proof fn lemma_row_find_bounds(
    g: Seq<Seq<char>>,
    query: Seq<char>,
    at: int,
    direction: SearchDirection,
)
    ensures
        match row_find(g, query, at, direction) {
            Some(m) => if direction == SearchDirection::Forward {
                0 <= at <= m < g.len()
            } else {
                0 <= m < at <= g.len()
            },
            None => true,
        },
{
}

/// What a search finds is a cluster at whose beginning the query stands
/// in the text of the row: the answer counts clusters, not characters.
pub proof fn lemma_row_find_is_occurrence(
    g: Seq<Seq<char>>,
    query: Seq<char>,
    at: int,
    direction: SearchDirection,
)
    ensures
        match row_find(g, query, at, direction) {
            Some(m) => 0 <= m < g.len() && occurs_at(flatten(g), query, join(g, 0, m).len() as int),
            None => true,
        },
{
    if let Some(m) = row_find(g, query, at, direction) {
        let n = g.len() as int;
        let start = if direction == SearchDirection::Forward {
            at
        } else {
            0
        };
        let end = if direction == SearchDirection::Forward {
            n
        } else {
            at
        };
        let hay = join(g, start, end);
        lemma_first_from(hay, query, 0);
        lemma_last_upto(hay, query, hay.len() - query.len());
        let k = join(g, start, m).len() as int;
        assert(occurs_at(hay, query, k));
        lemma_join_all(g);
        lemma_join_split(g, 0, start, end);
        lemma_join_split(g, 0, end, n);
        lemma_join_split(g, 0, start, m);
        let before = join(g, 0, start);
        let behind = join(g, end, n);
        assert(flatten(g) =~= (before + hay) + behind);
        assert(flatten(g).subrange(before.len() + k, before.len() + k + query.len())
            =~= hay.subrange(k, k + query.len()));
    }
}

/// The categories `tags` with `Match` at the positions from `from` up to
/// `to`.
pub open spec fn mark(tags: Seq<Type>, from: int, to: int) -> Seq<Type> {
    Seq::new(
        tags.len(),
        |i: int|
            if from <= i < to {
                Type::Match
            } else {
                tags[i]
            },
    )
}

/// `word` stands in the text of the row at the beginning of cluster `j`.
pub open spec fn stands_at(g: Seq<Seq<char>>, word: Seq<char>, j: int) -> bool {
    occurs_at(flatten(g), word, join(g, 0, j).len() as int)
}

/// The categories `tags` with every occurrence of `word` from cluster
/// `from` on marked as a match. An occurrence is a place where the word
/// stands at the beginning of a cluster; it covers `width` clusters, or
/// fewer at the end of the row. Occurrences are taken from left to right,
/// and the search goes on behind the clusters that have just been marked:
/// what is marked does not overlap. The word may also stand somewhere inside
/// a cluster; nothing is marked for that, and the search goes on behind it.
pub open spec fn overlay(
    tags: Seq<Type>,
    g: Seq<Seq<char>>,
    word: Seq<char>,
    width: int,
    from: int,
) -> Seq<Type>
    decreases g.len() - from,
{
    if width <= 0 || word.len() == 0 || from < 0 || from >= g.len() {
        tags
    } else if stands_at(g, word, from) {
        let end = if from + width < g.len() {
            from + width
        } else {
            g.len() as int
        };
        overlay(mark(tags, from, end), g, word, width, end)
    } else {
        overlay(tags, g, word, width, from + 1)
    }
}

/// Marking changes no category but to `Match`.
pub proof fn lemma_overlay_keeps(
    tags: Seq<Type>,
    g: Seq<Seq<char>>,
    word: Seq<char>,
    width: int,
    from: int,
    j: int,
)
    requires
        0 <= j < tags.len(),
    ensures
        overlay(tags, g, word, width, from)[j] == tags[j] || overlay(tags, g, word, width, from)[j]
            == Type::Match,
    decreases g.len() - from,
{
    if width <= 0 || word.len() == 0 || from < 0 || from >= g.len() {
    } else if stands_at(g, word, from) {
        let end = if from + width < g.len() {
            from + width
        } else {
            g.len() as int
        };
        lemma_overlay_keeps(mark(tags, from, end), g, word, width, end, j);
    } else {
        lemma_overlay_keeps(tags, g, word, width, from + 1, j);
    }
}

/// Every cluster at whose beginning the word stands is marked, unless it
/// lies before the place where the marking starts.
pub proof fn lemma_overlay_marks(
    tags: Seq<Type>,
    g: Seq<Seq<char>>,
    word: Seq<char>,
    width: int,
    from: int,
    j: int,
)
    requires
        tags.len() == g.len(),
        width > 0,
        word.len() > 0,
        0 <= from <= j < g.len(),
        stands_at(g, word, j),
    ensures
        overlay(tags, g, word, width, from)[j] == Type::Match,
    decreases g.len() - from,
{
    let end = if from + width < g.len() {
        from + width
    } else {
        g.len() as int
    };
    if stands_at(g, word, from) {
        let marked = mark(tags, from, end);
        if j < end {
            lemma_overlay_keeps(marked, g, word, width, end, j);
        } else {
            lemma_overlay_marks(marked, g, word, width, end, j);
        }
    } else {
        lemma_overlay_marks(tags, g, word, width, from + 1, j);
    }
}

/// The text of the clusters with `c` inserted before cluster `at`, or at
/// the end where there is no such cluster.
pub fn insert_at(clusters: &Vec<String>, at: usize, c: char) -> (text: String)
    ensures
        text@ == text_with(clusters.deep_view(), at as int, c),
{
    let n = clusters.len();
    let at = if at < n {
        at
    } else {
        n
    };
    let mut text = String::new();
    append_clusters(&mut text, clusters, 0, at);
    text.push(c);
    append_clusters(&mut text, clusters, at, n);
    assert(text@ =~= text_with(clusters.deep_view(), at as int, c));
    text
}

/// The text of the clusters without cluster `at`.
pub fn remove_at(clusters: &Vec<String>, at: usize) -> (text: String)
    ensures
        text@ == text_without(clusters.deep_view(), at as int),
{
    let n = clusters.len();
    let mut text = String::new();
    if at < n {
        append_clusters(&mut text, clusters, 0, at);
        append_clusters(&mut text, clusters, at + 1, n);
    } else {
        append_clusters(&mut text, clusters, 0, n);
    }
    assert(text@ =~= text_without(clusters.deep_view(), at as int));
    text
}

/// The text of the first `at` clusters and the text of the rest.
pub fn split_at(clusters: &Vec<String>, at: usize) -> (parts: (String, String))
    ensures
        parts.0@ == text_before(clusters.deep_view(), at as int),
        parts.1@ == text_from(clusters.deep_view(), at as int),
        parts.0@ + parts.1@ == join(clusters.deep_view(), 0, clusters.len() as int),
{
    let n = clusters.len();
    let at = if at < n {
        at
    } else {
        n
    };
    let mut head = String::new();
    let mut tail = String::new();
    append_clusters(&mut head, clusters, 0, at);
    append_clusters(&mut tail, clusters, at, n);
    proof {
        let g = clusters.deep_view();
        lemma_join_split(g, 0, at as int, n as int);
        assert(head@ =~= text_before(g, at as int));
        assert(join(g, n as int, n as int) =~= Seq::<char>::empty());
        assert(tail@ =~= text_from(g, at as int));
    }
    (head, tail)
}

/// The first character of each cluster.
pub fn symbols(g: &Vec<String>) -> (v: Vec<char>)
    requires
        all_non_empty(g.deep_view()),
    ensures
        v@ == heads(g.deep_view()),
{
    let mut v: Vec<char> = Vec::new();
    let mut i: usize = 0;
    while i < g.len()
        invariant
            i <= g.len(),
            all_non_empty(g.deep_view()),
            v@.len() == i,
            forall|j: int| 0 <= j < i ==> v@[j] == g.deep_view()[j][0],
        decreases g.len() - i,
    {
        assert(g.deep_view()[i as int] == g[i as int]@);
        let c = g[i].as_str().get_char(0);
        v.push(c);
        i += 1;
    }
    assert(v@ =~= heads(g.deep_view()));
    v
}

/// Sets the categories from `from` up to `to` to `Match`.
fn mark_range(tags: &mut Vec<Type>, from: usize, to: usize)
    requires
        from <= to <= old(tags)@.len(),
    ensures
        final(tags)@ == mark(old(tags)@, from as int, to as int),
{
    let mut i = from;
    while i < to
        invariant
            from <= i <= to <= tags@.len(),
            tags@.len() == old(tags)@.len(),
            tags@ == mark(old(tags)@, from as int, i as int),
        decreases to - i,
    {
        tags.set(i, Type::Match);
        i += 1;
        assert(tags@ =~= mark(old(tags)@, from as int, i as int));
    }
    assert(tags@ =~= mark(old(tags)@, from as int, to as int));
}

/// Later clusters begin at greater offsets.
pub proof fn lemma_offsets_increase(g: Seq<Seq<char>>, start: int, i: int, j: int)
    requires
        0 <= start <= i < j <= g.len(),
        all_non_empty(g),
    ensures
        join(g, start, i).len() < join(g, start, j).len(),
    decreases j - i,
{
    lemma_join_step(g, start, j - 1);
    if i < j - 1 {
        lemma_offsets_increase(g, start, i, j - 1);
    }
}

/// Finds the cluster between `start` and `end` that begins at offset `k`.
fn locate(g: &Vec<String>, start: usize, end: usize, k: usize) -> (r: Option<usize>)
    requires
        start <= end <= g.len(),
        all_non_empty(g.deep_view()),
        k <= join(g.deep_view(), start as int, end as int).len() <= usize::MAX,
    ensures
        match r {
            Some(j) => cluster_at(g.deep_view(), start as int, end as int, k as int) == Some(
                j as int,
            ),
            None => cluster_at(g.deep_view(), start as int, end as int, k as int) is None,
        },
{
    let ghost gv = g.deep_view();
    let mut j = start;
    let mut offset: usize = 0;
    assert(join(gv, start as int, start as int) =~= Seq::<char>::empty());
    while j < end
        invariant
            start <= j <= end <= g.len(),
            gv == g.deep_view(),
            all_non_empty(gv),
            offset == join(gv, start as int, j as int).len(),
            join(gv, start as int, end as int).len() <= usize::MAX,
            forall|i: int| start <= i < j ==> join(gv, start as int, i).len() != k,
        decreases end - j,
    {
        if offset == k {
            proof {
                assert forall|i: int| start <= i < end && join(gv, start as int, i).len()
                    == k implies i == j by {
                    if i < j {
                    } else if i > j {
                        lemma_offsets_increase(gv, start as int, j as int, i);
                    }
                }
            }
            return Some(j);
        }
        proof {
            lemma_join_step(gv, start as int, j as int);
            lemma_join_split(gv, start as int, j + 1, end as int);
            assert(gv[j as int] == g[j as int]@);
        }
        let width = g[j].as_str().unicode_len();
        offset += width;
        j += 1;
    }
    None
}

/// Searches the clusters for `query`: forward from cluster `at`, or
/// backward through the clusters before `at`.
pub fn find_in(clusters: &Vec<String>, query: &str, at: usize, direction: SearchDirection) -> (r:
    Option<usize>)
    requires
        all_non_empty(clusters.deep_view()),
    ensures
        match r {
            Some(x) => row_find(clusters.deep_view(), query@, at as int, direction) == Some(
                x as int,
            ),
            None => row_find(clusters.deep_view(), query@, at as int, direction) is None,
        },
        r is Some ==> r->0 < clusters.len(),
{
    proof {
        lemma_row_find_bounds(clusters.deep_view(), query@, at as int, direction);
    }
    if at > clusters.len() || query.is_empty() {
        return None;
    }
    let start = if direction == SearchDirection::Forward {
        at
    } else {
        0
    };
    let end = if direction == SearchDirection::Forward {
        clusters.len()
    } else {
        at
    };
    let mut substring = String::new();
    append_clusters(&mut substring, clusters, start, end);
    let hay = to_chars(substring.as_str());
    let needle = to_chars(query);
    assert(hay@ =~= join(clusters.deep_view(), start as int, end as int));
    let str_index = if direction == SearchDirection::Forward {
        find_first(hay.as_slice(), needle.as_slice(), 0)
    } else {
        find_last(hay.as_slice(), needle.as_slice())
    };
    let hay_len = hay.len();
    proof {
        lemma_first_from(hay@, needle@, 0);
        lemma_last_upto(hay@, needle@, hay@.len() - needle@.len());
    }
    match str_index {
        Some(k) => locate(clusters, start, end, k),
        None => None,
    }
}

/// Marks every occurrence of `word` in the clusters over the categories.
/// Each occurrence covers `width` clusters, or fewer at the end of the row.
pub fn mark_matches(tags: &mut Vec<Type>, clusters: &Vec<String>, word: &str, width: usize)
    requires
        old(tags)@.len() == clusters.len(),
    ensures
        final(tags)@ == overlay(old(tags)@, clusters.deep_view(), word@, width as int, 0),
        final(tags)@.len() == old(tags)@.len(),
{
    if width == 0 || word.is_empty() {
        return ;
    }
    let n = clusters.len();
    let ghost g = clusters.deep_view();
    let mut text = String::new();
    append_clusters(&mut text, clusters, 0, n);
    let hay = to_chars(text.as_str());
    let needle = to_chars(word);
    let total = hay.len();
    proof {
        lemma_join_all(g);
        assert(join(g, 0, 0) =~= Seq::<char>::empty());
    }
    let mut index: usize = 0;
    let mut offset: usize = 0;
    while index < n
        invariant
            n == clusters.len(),
            g == clusters.deep_view(),
            hay@ == flatten(g),
            total == hay@.len(),
            needle@ == word@,
            word@.len() > 0,
            width > 0,
            tags@.len() == n,
            index <= n,
            offset == join(g, 0, index as int).len(),
            overlay(old(tags)@, g, word@, width as int, 0) == overlay(
                tags@,
                g,
                word@,
                width as int,
                index as int,
            ),
        decreases n - index,
    {
        let next = if matches_at(hay.as_slice(), needle.as_slice(), offset) {
            let end = if width < n - index {
                index + width
            } else {
                n
            };
            mark_range(tags, index, end);
            end
        } else {
            index + 1
        };
        while index < next
            invariant
                index <= next <= n,
                n == clusters.len(),
                g == clusters.deep_view(),
                hay@ == flatten(g),
                total == hay@.len(),
                offset == join(g, 0, index as int).len(),
            decreases next - index,
        {
            proof {
                lemma_join_step(g, 0, index as int);
                lemma_join_split(g, 0, index + 1, n as int);
                lemma_join_all(g);
                assert(g[index as int] == clusters[index as int]@);
            }
            offset += clusters[index].as_str().unicode_len();
            index += 1;
        }
    }
}

} // verus!

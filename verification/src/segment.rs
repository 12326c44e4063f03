//! Segmentation of text into grapheme clusters.

use unicode_segmentation::UnicodeSegmentation;
use vstd::prelude::*;
use vstd::string::StringExecFns;

verus! {

/// The extended grapheme clusters of a text, in order.
pub uninterp spec fn spec_graphemes(s: Seq<char>) -> Seq<Seq<char>>;

/// The concatenation of a sequence of clusters.
pub open spec fn flatten(g: Seq<Seq<char>>) -> Seq<char>
    decreases g.len(),
{
    if g.len() == 0 {
        Seq::empty()
    } else {
        flatten(g.drop_last()) + g.last()
    }
}

/// No cluster is empty.
pub open spec fn all_non_empty(g: Seq<Seq<char>>) -> bool {
    forall|i: int| 0 <= i < g.len() ==> (#[trigger] g[i]).len() > 0
}

/// `g` cuts `s` into consecutive non-empty pieces.
pub open spec fn is_segmentation(g: Seq<Seq<char>>, s: Seq<char>) -> bool {
    &&& flatten(g) == s
    &&& all_non_empty(g)
}

/// The first character of each cluster: the character by which a
/// cluster is classified when a row is highlighted.
pub open spec fn heads(g: Seq<Seq<char>>) -> Seq<char> {
    Seq::new(g.len(), |i: int| g[i][0])
}

/// The clusters from `from` up to `to`, joined.
pub open spec fn join(g: Seq<Seq<char>>, from: int, to: int) -> Seq<char> {
    flatten(g.subrange(from, to))
}

/// Flattening with one more cluster appends the cluster.
pub proof fn lemma_flatten_push(g: Seq<Seq<char>>, x: Seq<char>)
    ensures
        flatten(g.push(x)) == flatten(g) + x,
{
    assert(g.push(x).drop_last() =~= g);
}

/// Flattening two sequences of clusters in a row concatenates their
/// texts.
pub proof fn lemma_flatten_concat(a: Seq<Seq<char>>, b: Seq<Seq<char>>)
    ensures
        flatten(a + b) == flatten(a) + flatten(b),
    decreases b.len(),
{
    if b.len() == 0 {
        assert(a + b =~= a);
        assert(flatten(a) + flatten(b) =~= flatten(a));
    } else {
        lemma_flatten_concat(a, b.drop_last());
        assert((a + b).drop_last() =~= a + b.drop_last());
        assert((flatten(a) + flatten(b.drop_last())) + b.last() =~= flatten(a) + (flatten(
            b.drop_last(),
        ) + b.last()));
    }
}

/// Joining can be done in two steps.
pub proof fn lemma_join_split(g: Seq<Seq<char>>, from: int, mid: int, to: int)
    requires
        0 <= from <= mid <= to <= g.len(),
    ensures
        join(g, from, to) == join(g, from, mid) + join(g, mid, to),
{
    assert(g.subrange(from, to) =~= g.subrange(from, mid) + g.subrange(mid, to));
    lemma_flatten_concat(g.subrange(from, mid), g.subrange(mid, to));
}

/// Joining one more cluster appends it.
pub proof fn lemma_join_step(g: Seq<Seq<char>>, from: int, to: int)
    requires
        0 <= from <= to < g.len(),
    ensures
        join(g, from, to + 1) == join(g, from, to) + g[to],
{
    assert(g.subrange(from, to + 1) =~= g.subrange(from, to).push(g[to]));
    lemma_flatten_push(g.subrange(from, to), g[to]);
}

/// Joining all the clusters gives the flattened text.
pub proof fn lemma_join_all(g: Seq<Seq<char>>)
    ensures
        join(g, 0, g.len() as int) == flatten(g),
{
    assert(g.subrange(0, g.len() as int) =~= g);
}

/// A text of non-empty clusters is at least as long as their number.
pub proof fn lemma_flatten_len(g: Seq<Seq<char>>)
    requires
        all_non_empty(g),
    ensures
        flatten(g).len() >= g.len(),
        g.len() > 0 ==> flatten(g).len() > 0,
    decreases g.len(),
{
    if g.len() > 0 {
        lemma_flatten_len(g.drop_last());
    }
}

/// Calls `UnicodeSegmentation::graphemes` with extended clusters and
/// collects the pieces. The clusters are named by `spec_graphemes`; they are
/// consecutive non-empty slices of the input that together cover it.
#[verifier::external_body]
pub(crate) fn graphemes(s: &str) -> (r: Vec<String>)
    ensures
        r.deep_view() == spec_graphemes(s@),
        is_segmentation(r.deep_view(), s@),
{
    s.graphemes(true).map(String::from).collect()
}

/// Appends the clusters from `from` up to `to` to a string.
pub(crate) fn append_clusters(into: &mut String, g: &Vec<String>, from: usize, to: usize)
    requires
        from <= to <= g.len(),
    ensures
        final(into)@ == old(into)@ + join(g.deep_view(), from as int, to as int),
{
    let ghost gv = g.deep_view();
    let mut i = from;
    assert(join(gv, from as int, from as int) =~= Seq::<char>::empty());
    assert(old(into)@ + Seq::<char>::empty() =~= old(into)@);
    while i < to
        invariant
            from <= i <= to <= g.len(),
            gv == g.deep_view(),
            into@ == old(into)@ + join(gv, from as int, i as int),
        decreases to - i,
    {
        into.append(g[i].as_str());
        proof {
            lemma_join_step(gv, from as int, i as int);
            assert(gv[i as int] == g[i as int]@);
            assert((old(into)@ + join(gv, from as int, i as int)) + gv[i as int] =~= old(into)@ + (
            join(gv, from as int, i as int) + gv[i as int]));
        }
        i += 1;
    }
}

} // verus!

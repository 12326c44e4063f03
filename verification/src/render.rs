//! How a row is drawn on the terminal.

use crate::color::{fg, fg_reset, fg_reset_sequence, fg_sequence};
use crate::highlighting::Type;
use vstd::prelude::*;
use vstd::string::StringExecFns;

verus! {

/// The text as which a cluster is drawn: the whole cluster, and one space
/// in place of a tab.
pub open spec fn shown(cluster: Seq<char>) -> Seq<char> {
    if cluster == seq!['\t'] {
        seq![' ']
    } else {
        cluster
    }
}

/// The category of cluster `i`; a cluster without one is plain.
pub open spec fn tag_at(tags: Seq<Type>, i: int) -> Type {
    if 0 <= i < tags.len() {
        tags[i]
    } else {
        Type::Plain
    }
}

/// The clusters from `i` up to `end` as bare text, without any colour.
pub open spec fn plain_from(g: Seq<Seq<char>>, i: int, end: int) -> Seq<char>
    decreases end - i,
{
    if i >= end {
        Seq::empty()
    } else {
        shown(g[i]) + plain_from(g, i + 1, end)
    }
}

/// The clusters from `i` up to `end` as they are drawn when the colour of
/// `current` is set: before each cluster whose category differs from that of
/// the cluster before it stands the sequence that sets its colour, and at
/// the end stands the sequence that resets the colour.
pub open spec fn coloured_from(
    g: Seq<Seq<char>>,
    tags: Seq<Type>,
    i: int,
    end: int,
    current: Type,
) -> Seq<char>
    decreases end - i,
{
    if i >= end {
        fg_reset_sequence()
    } else {
        let tag = tag_at(tags, i);
        let colour = if tag != current {
            fg_sequence(tag.spec_to_color())
        } else {
            Seq::empty()
        };
        (colour + shown(g[i])) + coloured_from(g, tags, i + 1, end, tag)
    }
}

/// The clusters from `start` up to `end` as they are drawn. `end` is cut
/// down to the number of clusters and `start` to `end`. A row that holds no
/// categories is drawn as bare text, without any sequence; a row that holds
/// categories is drawn with its colours and the closing reset.
pub open spec fn rendered(g: Seq<Seq<char>>, tags: Seq<Type>, start: int, end: int) -> Seq<char> {
    let end = if end < g.len() {
        end
    } else {
        g.len() as int
    };
    let start = if start < end {
        start
    } else {
        end
    };
    if tags.len() == 0 {
        plain_from(g, start, end)
    } else {
        coloured_from(g, tags, start, end, Type::Plain)
    }
}

/// Appends a cluster as it is drawn.
fn push_shown(result: &mut String, cluster: &str)
    ensures
        final(result)@ == old(result)@ + shown(cluster@),
{
    if cluster.unicode_len() == 1 && cluster.get_char(0) == '\t' {
        assert(cluster@ =~= seq!['\t']);
        result.push(' ');
        assert(result@ =~= old(result)@ + seq![' ']);
    } else {
        assert(cluster@ != seq!['\t']) by {
            if cluster@ == seq!['\t'] {
                assert(seq!['\t'].len() == 1);
                assert(seq!['\t'][0] == '\t');
            }
        }
        result.append(cluster);
    }
}

/// Draws the clusters from `start` up to `end`: as bare text where there
/// are no categories, with the sequences that set and reset the colours
/// where there are.
pub fn render_clusters(clusters: &Vec<String>, tags: &[Type], start: usize, end: usize) -> (result:
    String)
    ensures
        result@ == rendered(clusters.deep_view(), tags@, start as int, end as int),
{
    let ghost g = clusters.deep_view();
    let end = if end < clusters.len() {
        end
    } else {
        clusters.len()
    };
    let start = if start < end {
        start
    } else {
        end
    };
    let coloured = tags.len() > 0;
    let mut current_highlighting = Type::Plain;
    let mut result = String::new();
    let mut index = start;
    let ghost whole = rendered(g, tags@, start as int, end as int);
    assert(result@ + whole =~= whole);
    while index < end
        invariant
            start <= index <= end <= clusters.len(),
            g == clusters.deep_view(),
            coloured == (tags@.len() > 0),
            !coloured ==> result@ + plain_from(g, index as int, end as int) == whole,
            coloured ==> result@ + coloured_from(
                g,
                tags@,
                index as int,
                end as int,
                current_highlighting,
            ) == whole,
        decreases end - index,
    {
        let ghost before = result@;
        if coloured {
            let highlighting_type = if index < tags.len() {
                tags[index]
            } else {
                Type::Plain
            };
            if current_highlighting != highlighting_type {
                current_highlighting = highlighting_type;
                let highlight_start = fg(highlighting_type.to_color());
                result.append(highlight_start.as_str());
            }
        }
        assert(g[index as int] == clusters[index as int]@);
        push_shown(&mut result, clusters[index].as_str());
        index += 1;
        proof {
            let tail = if coloured {
                coloured_from(g, tags@, index as int, end as int, current_highlighting)
            } else {
                plain_from(g, index as int, end as int)
            };
            let step = result@.subrange(before.len() as int, result@.len() as int);
            assert(result@ =~= before + step);
            assert((before + step) + tail =~= before + (step + tail));
        }
    }
    if coloured {
        let highlight_end = fg_reset();
        result.append(highlight_end.as_str());
    } else {
        assert(result@ + Seq::<char>::empty() =~= result@);
    }
    result
}

} // verus!

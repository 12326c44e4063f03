//! One row of a document: its text, addressed by grapheme cluster, and the
//! highlight categories of its clusters.

use crate::clusters::{
    find_in, insert_at, lemma_overlay_keeps, mark_matches, overlay, remove_at,
    row_find, split_at, symbols, text_before, text_from, text_with, text_without,
};
use crate::editor::SearchDirection;
use crate::filetype::{HighlightingOptions, ProfileView};
use crate::highlighting::Type;
use crate::render::{render_clusters, rendered};
use crate::scanner::{
    highlight_line, in_bounded_keyword, is_keyword, lemma_keywords_bounded, lemma_line_tags_len,
    line_open, line_tags,
};
use crate::segment::{
    graphemes, heads, is_segmentation, join, lemma_join_all, lemma_join_split, spec_graphemes,
};
use vstd::prelude::*;
use vstd::string::StringExecFns;
use vstd::utf8::encode_utf8;

verus! {

/// A row of text. Its length is the number of grapheme clusters of the
/// text, and every index into it counts clusters.
pub struct Row {
    string: String,
    highlighting: Vec<Type>,
    is_highlighted: bool,
    len: usize,
}

/// What a row holds, as plain values.
pub struct RowView {
    /// The text of the row.
    pub text: Seq<char>,
    /// The highlight categories that the row holds.
    pub tags: Seq<Type>,
    /// Whether the row counts as highlighted.
    pub highlighted: bool,
}

impl View for Row {
    type V = RowView;

    closed spec fn view(&self) -> RowView {
        RowView {
            text: self.string@,
            tags: self.highlighting@,
            highlighted: self.is_highlighted,
        }
    }
}

/// A row of the given text that holds no highlighting.
pub open spec fn fresh(text: Seq<char>) -> RowView {
    RowView { text, tags: Seq::empty(), highlighted: false }
}

/// The text of a search word, if there is one.
pub open spec fn word_text(word: Option<String>) -> Option<Seq<char>> {
    match word {
        Some(w) => Some(w@),
        None => None,
    }
}

/// The categories of a row of clusters `g`: those that the rules of the
/// profile give to the first characters of the clusters, with the
/// occurrences of the search word marked over them.
pub open spec fn highlighted_tags(
    p: ProfileView,
    g: Seq<Seq<char>>,
    word: Option<Seq<char>>,
    in_comment: bool,
) -> Seq<Type> {
    let base = line_tags(p, heads(g), in_comment);
    match word {
        Some(w) => overlay(base, g, w, spec_graphemes(w).len() as int, 0),
        None => base,
    }
}

/// A cluster of a highlighted row is shown as a keyword only as part of a
/// whole word of a keyword list: a keyword that stands inside a longer word
/// is never shown as one.
pub proof fn lemma_highlighted_keywords_bounded(
    p: ProfileView,
    g: Seq<Seq<char>>,
    word: Option<Seq<char>>,
    in_comment: bool,
    j: int,
)
    requires
        0 <= j < g.len(),
        is_keyword(highlighted_tags(p, g, word, in_comment)[j]),
    ensures
        in_bounded_keyword(p, heads(g), j),
{
    let base = line_tags(p, heads(g), in_comment);
    lemma_line_tags_len(p, heads(g), in_comment);
    if let Some(w) = word {
        lemma_overlay_keeps(base, g, w, spec_graphemes(w).len() as int, 0, j);
    }
    lemma_keywords_bounded(p, heads(g), in_comment, j);
}

/// Splitting a row at any cluster and appending the second part to the
/// first gives the text of the row back.
pub proof fn lemma_split_then_append(row: Row, at: usize)
    requires
        row.wf(),
    ensures
        text_before(row.clusters(), at as int) + text_from(row.clusters(), at as int) == row.text(),
{
    let g = row.clusters();
    lemma_join_all(g);
    if at < g.len() {
        lemma_join_split(g, 0, at as int, g.len() as int);
    } else {
        assert(join(g, 0, g.len() as int) + Seq::<char>::empty() =~= join(g, 0, g.len() as int));
    }
}

impl Row {
    /// The text of the row.
    pub open spec fn text(&self) -> Seq<char> {
        self@.text
    }

    /// The highlight categories that the row holds.
    pub open spec fn tags(&self) -> Seq<Type> {
        self@.tags
    }

    /// The cached number of clusters.
    pub closed spec fn spec_len(&self) -> usize {
        self.len
    }

    /// Whether the row counts as highlighted.
    pub open spec fn highlighted(&self) -> bool {
        self@.highlighted
    }

    /// The grapheme clusters of the text.
    pub open spec fn clusters(&self) -> Seq<Seq<char>> {
        spec_graphemes(self.text())
    }

    /// The first character of each cluster.
    pub open spec fn symbols(&self) -> Seq<char> {
        heads(self.clusters())
    }

    /// The cached length is the number of clusters of the text, the
    /// clusters cut the text into non-empty pieces, and a row that counts as
    /// highlighted has one category for each cluster.
    pub open spec fn wf(&self) -> bool {
        &&& is_segmentation(self.clusters(), self.text())
        &&& self.spec_len() == self.clusters().len()
        &&& self.highlighted() ==> self.tags().len() == self.spec_len()
    }

    /// A row that holds the given text and no highlighting.
    pub fn from(content: &str) -> (row: Row)
        ensures
            row.wf(),
            row.text() == content@,
            row.tags() == Seq::<Type>::empty(),
            !row.highlighted(),
    {
        let clusters = graphemes(content);
        Row {
            string: String::from_str(content),
            highlighting: Vec::new(),
            is_highlighted: false,
            len: clusters.len(),
        }
    }

    /// Replaces the text, recounts the clusters and drops the highlighting.
    fn set_text(&mut self, string: String)
        ensures
            final(self).wf(),
            final(self).text() == string@,
            final(self).tags() == Seq::<Type>::empty(),
            !final(self).highlighted(),
    {
        let clusters = graphemes(string.as_str());
        self.string = string;
        self.highlighting = Vec::new();
        self.is_highlighted = false;
        self.len = clusters.len();
    }

    /// The clusters from `start` up to `end` as text for the terminal. A
    /// row that holds no categories comes out as bare text; a row that holds
    /// categories comes out with the sequences that set and reset the
    /// colours.
    pub fn render(&self, start: usize, end: usize) -> (result: String)
        requires
            self.wf(),
        ensures
            result@ == rendered(self.clusters(), self.tags(), start as int, end as int),
    {
        let clusters = graphemes(self.string.as_str());
        render_clusters(&clusters, self.highlighting.as_slice(), start, end)
    }

    /// The number of grapheme clusters of the row.
    #[verifier::when_used_as_spec(spec_len)]
    pub fn len(&self) -> (n: usize)
        ensures
            n == self.spec_len(),
    {
        self.len
    }

    /// Whether the highlighting that the row holds is up to date.
    #[verifier::when_used_as_spec(highlighted)]
    pub fn is_highlighted(&self) -> (b: bool)
        ensures
            b == self.highlighted(),
    {
        self.is_highlighted
    }

    /// Marks the highlighting of the row as out of date.
    pub fn unhighlight(&mut self)
        ensures
            !final(self).highlighted(),
            final(self).text() == old(self).text(),
            final(self).tags() == old(self).tags(),
            final(self).spec_len() == old(self).spec_len(),
    {
        self.is_highlighted = false;
    }

    /// Whether the row has no clusters.
    pub fn is_empty(&self) -> (b: bool)
        ensures
            b == (self.spec_len() == 0),
    {
        self.len == 0
    }

    /// Inserts `c` before cluster `at`, or at the end if the row has no
    /// cluster `at`.
    pub fn insert(&mut self, at: usize, c: char)
        requires
            old(self).wf(),
        ensures
            final(self).wf(),
            final(self).spec_len() == spec_graphemes(final(self).text()).len(),
            final(self).text() == text_with(old(self).clusters(), at as int, c),
            final(self).tags() == Seq::<Type>::empty(),
            !final(self).highlighted(),
    {
        let clusters = graphemes(self.string.as_str());
        self.set_text(insert_at(&clusters, at, c));
    }

    /// Removes cluster `at`; a row that has no cluster `at` stays as it is.
    pub fn delete(&mut self, at: usize)
        requires
            old(self).wf(),
        ensures
            final(self).wf(),
            final(self).spec_len() == spec_graphemes(final(self).text()).len(),
            at >= old(self).spec_len() ==> *final(self) == *old(self),
            at < old(self).spec_len() ==> {
                &&& final(self).text() == text_without(old(self).clusters(), at as int)
                &&& final(self).tags() == Seq::<Type>::empty()
                &&& !final(self).highlighted()
            },
    {
        if at >= self.len {
            return ;
        }
        let clusters = graphemes(self.string.as_str());
        self.set_text(remove_at(&clusters, at));
    }

    /// Appends the text of another row.
    pub fn append(&mut self, string_to_add: Row)
        requires
            old(self).wf(),
        ensures
            final(self).wf(),
            final(self).text() == old(self).text() + string_to_add.text(),
            final(self).tags() == Seq::<Type>::empty(),
            !final(self).highlighted(),
    {
        let mut result = String::new();
        result.append(self.string.as_str());
        result.append(string_to_add.string.as_str());
        assert(result@ =~= old(self).text() + string_to_add.text());
        self.set_text(result);
    }

    /// Keeps the first `at` clusters and returns the rest as a new row.
    pub fn split(&mut self, at: usize) -> (rest: Row)
        requires
            old(self).wf(),
        ensures
            final(self).wf(),
            rest.wf(),
            final(self).text() == text_before(old(self).clusters(), at as int),
            rest.text() == text_from(old(self).clusters(), at as int),
            final(self).text() + rest.text() == old(self).text(),
            final(self).tags() == Seq::<Type>::empty(),
            !final(self).highlighted(),
            rest.tags() == Seq::<Type>::empty(),
            !rest.highlighted(),
    {
        let clusters = graphemes(self.string.as_str());
        let (row, splitted_str) = split_at(&clusters, at);
        proof {
            lemma_join_all(old(self).clusters());
        }
        self.set_text(row);
        let mut rest = Row::default();
        rest.set_text(splitted_str);
        rest
    }

    /// Searches the row for `query`: forward from cluster `at`, or backward
    /// through the clusters before `at`. The answer counts clusters.
    pub fn find(&self, query: &str, at: usize, search_direction: SearchDirection) -> (r: Option<
        usize,
    >)
        requires
            self.wf(),
        ensures
            match r {
                Some(x) => row_find(self.clusters(), query@, at as int, search_direction) == Some(
                    x as int,
                ),
                None => row_find(self.clusters(), query@, at as int, search_direction) is None,
            },
            r is Some ==> r->0 < self.spec_len(),
    {
        let clusters = graphemes(self.string.as_str());
        find_in(&clusters, query, at, search_direction)
    }

    /// Marks every occurrence of the search word over the categories that
    /// the row holds.
    fn highlight_match(&mut self, word: &Option<String>)
        requires
            old(self).wf(),
            old(self).tags().len() == old(self).spec_len(),
        ensures
            final(self).text() == old(self).text(),
            final(self).spec_len() == old(self).spec_len(),
            final(self).highlighted() == old(self).highlighted(),
            final(self).tags().len() == old(self).tags().len(),
            final(self).tags() == match word_text(*word) {
                Some(w) => overlay(
                    old(self).tags(),
                    old(self).clusters(),
                    w,
                    spec_graphemes(w).len() as int,
                    0,
                ),
                None => old(self).tags(),
            },
    {
        if let Some(word) = word {
            if word.as_str().is_empty() {
                return ;
            }
            let width = graphemes(word.as_str()).len();
            let clusters = graphemes(self.string.as_str());
            mark_matches(&mut self.highlighting, &clusters, word.as_str(), width);
        }
    }

    /// Brings the highlighting of the row up to date. `start_with_comment`
    /// says whether the row before left a block comment open; the result
    /// says whether this row leaves one open.
    ///
    /// A row that counts as highlighted is left as it is when no search
    /// word is given. Otherwise its categories are computed anew, and the
    /// row counts as highlighted afterwards if no search word was marked
    /// and no block comment is left open.
    pub fn highlight(
        &mut self,
        hl_opts: &HighlightingOptions,
        word: &Option<String>,
        start_with_comment: bool,
    ) -> (open: bool)
        requires
            old(self).wf(),
        ensures
            final(self).wf(),
            final(self).text() == old(self).text(),
            old(self).highlighted() && word is None ==> {
                &&& final(self).tags() == old(self).tags()
                &&& final(self).highlighted()
                &&& !open
            },
            !(old(self).highlighted() && word is None) ==> {
                &&& final(self).tags() == highlighted_tags(
                    hl_opts@,
                    old(self).clusters(),
                    word_text(*word),
                    start_with_comment,
                )
                &&& open == line_open(hl_opts@, old(self).symbols(), start_with_comment)
                &&& final(self).highlighted() == (word is None && !open)
            },
    {
        if self.is_highlighted && word.is_none() {
            return false;
        }
        let clusters = graphemes(self.string.as_str());
        let chars = symbols(&clusters);
        let (tags, open) = highlight_line(hl_opts, chars.as_slice(), start_with_comment);
        self.highlighting = tags;
        self.is_highlighted = false;
        self.highlight_match(word);
        if open || word.is_some() {
            return open;
        }
        self.is_highlighted = true;
        false
    }

    /// The highlight categories that the row holds, one for each cluster
    /// once the row has been highlighted.
    pub fn highlighting(&self) -> (tags: &Vec<Type>)
        ensures
            tags@ == self.tags(),
    {
        &self.highlighting
    }

    /// The text of the row.
    pub fn as_str(&self) -> (text: &str)
        ensures
            text@ == self.text(),
    {
        self.string.as_str()
    }

    /// The text of the row in UTF-8.
    pub fn as_bytes(&self) -> (bytes: &[u8])
        ensures
            bytes@ == encode_utf8(self.text()),
    {
        self.string.as_str().as_bytes()
    }
}

impl Default for Row {
    /// The empty row.
    fn default() -> (row: Row)
        ensures
            row.wf(),
            row.text() == Seq::<char>::empty(),
            row.tags() == Seq::<Type>::empty(),
            !row.highlighted(),
    {
        let mut row = Row {
            string: String::new(),
            highlighting: Vec::new(),
            is_highlighted: false,
            len: 0,
        };
        row.set_text(String::new());
        row
    }
}

} // verus!

//! A document: rows of text in order, edited at positions, searched in
//! both directions and highlighted row by row.

use crate::chars::to_chars;
use crate::clusters::{
    lemma_row_find_bounds, row_find, text_before, text_from, text_with, text_without,
};
use crate::editor::{Position, SearchDirection};
use crate::filetype::{language_name, plain_profile, profile_of, FileType, ProfileView};
use crate::lines::{
    joined, lemma_joined_push, lemma_lines_round_trip, plain_breaks, spec_lines, split_lines,
    terminated,
};
use crate::row::{fresh, highlighted_tags, word_text, Row, RowView};
use crate::scanner::{line_open, line_tags};
use crate::segment::{
    flatten, heads, join, lemma_flatten_concat, lemma_flatten_len, lemma_flatten_push,
    spec_graphemes,
};
use vstd::prelude::*;
use vstd::string::StringExecFns;

verus! {

/// A document: its rows, the name of its file, whether it was changed,
/// and the language by whose rules it is highlighted.
pub struct Document {
    rows: Vec<Row>,
    file_name: Option<String>,
    dirty: bool,
    file_type: FileType,
}

/// What a document holds, as plain values.
pub struct DocumentView {
    /// The rows, from the top.
    pub rows: Seq<RowView>,
    /// Whether the document was changed since it was loaded or saved.
    pub dirty: bool,
    /// The name of the file that the document belongs to, if it has one.
    pub file_name: Option<Seq<char>>,
    /// The rules by which the document is highlighted.
    pub profile: ProfileView,
    /// The name of the language of the document.
    pub language: Seq<char>,
}

impl View for Document {
    type V = DocumentView;

    closed spec fn view(&self) -> DocumentView {
        DocumentView {
            rows: self.rows@.map_values(|row: Row| row@),
            dirty: self.dirty,
            file_name: match self.file_name {
                Some(name) => Some(name@),
                None => None,
            },
            profile: self.file_type.profile(),
            language: self.file_type.spec_name(),
        }
    }
}

/// The characters by which a row of the given text is highlighted.
pub open spec fn symbols_of(text: Seq<char>) -> Seq<char> {
    heads(spec_graphemes(text))
}

/// Whether row `i` starts inside a block comment: no row does at the top,
/// and each row passes on what the rules say it leaves open.
pub open spec fn carry_into(p: ProfileView, rows: Seq<RowView>, i: int) -> bool
    recommends
        i <= rows.len(),
    decreases i,
{
    if i <= 0 {
        false
    } else {
        line_open(p, symbols_of(rows[i - 1].text), carry_into(p, rows, i - 1))
    }
}

/// A row that counts as highlighted holds the categories that the rules
/// give it, and leaves no block comment open.
pub open spec fn settled(p: ProfileView, rows: Seq<RowView>, i: int) -> bool {
    rows[i].highlighted ==> {
        &&& rows[i].tags == line_tags(p, symbols_of(rows[i].text), carry_into(p, rows, i))
        &&& !line_open(p, symbols_of(rows[i].text), carry_into(p, rows, i))
    }
}

/// The rows from `start` on no longer count as highlighted.
pub open spec fn unhighlighted_from(rows: Seq<RowView>, start: int) -> Seq<RowView> {
    Seq::new(
        rows.len(),
        |i: int|
            if i >= start {
                RowView { highlighted: false, ..rows[i] }
            } else {
                rows[i]
            },
    )
}

/// The rows after `c`, which is no line feed, has been inserted at `at`:
/// behind the last row it becomes a row of its own, elsewhere it goes into
/// row `at.y`. The rows from `at.y` on no longer count as highlighted.
pub open spec fn rows_after_insert(rows: Seq<RowView>, at: Position, c: char) -> Seq<RowView> {
    if at.y == rows.len() {
        rows.push(fresh(seq![c]))
    } else {
        let g = spec_graphemes(rows[at.y as int].text);
        unhighlighted_from(
            rows.update(at.y as int, fresh(text_with(g, at.x as int, c))),
            at.y as int,
        )
    }
}

/// The rows after a line break at `at`: in or behind the last row an empty
/// row is added at the end, elsewhere row `at.y` is split at cluster `at.x`.
/// The rows from `at.y` on no longer count as highlighted.
pub open spec fn rows_after_newline(rows: Seq<RowView>, at: Position) -> Seq<RowView> {
    if at.y + 1 >= rows.len() {
        unhighlighted_from(rows, at.y as int).push(fresh(Seq::empty()))
    } else {
        let g = spec_graphemes(rows[at.y as int].text);
        unhighlighted_from(
            rows.update(at.y as int, fresh(text_before(g, at.x as int))).insert(
                at.y + 1,
                fresh(text_from(g, at.x as int)),
            ),
            at.y as int,
        )
    }
}

/// Whether a deletion at `at` takes anything away: a cluster of row
/// `at.y`, or, at the end of a row that has a row below it, the break
/// between the two.
pub open spec fn deletes(rows: Seq<RowView>, at: Position) -> bool {
    &&& at.y < rows.len()
    &&& {
        let width = spec_graphemes(rows[at.y as int].text).len();
        at.x < width || (at.x == width && at.y + 1 < rows.len())
    }
}

/// The rows after a deletion at `at` that takes something away: at the
/// end of a row the row and the one below it are joined, elsewhere cluster
/// `at.x` leaves row `at.y`. The rows from the one above `at.y` on no longer
/// count as highlighted.
pub open spec fn rows_after_delete(rows: Seq<RowView>, at: Position) -> Seq<RowView> {
    let row = rows[at.y as int];
    let g = spec_graphemes(row.text);
    let edited = if at.x == g.len() {
        rows.update(at.y as int, fresh(row.text + rows[at.y + 1].text)).remove(at.y + 1)
    } else {
        rows.update(at.y as int, fresh(text_without(g, at.x as int)))
    };
    unhighlighted_from(edited, at.y - 1)
}

/// Where a forward search for `query` from cluster `x` of row `y` ends:
/// in the first row from `y` down that holds the query, row `y` being
/// searched from cluster `x` on and the rows below it from their beginning.
pub open spec fn find_forward(rows: Seq<RowView>, query: Seq<char>, x: int, y: int) -> Option<
    (int, int),
>
    decreases rows.len() - y,
{
    if y < 0 || y >= rows.len() {
        None
    } else {
        match row_find(spec_graphemes(rows[y].text), query, x, SearchDirection::Forward) {
            Some(c) => Some((c, y)),
            None => find_forward(rows, query, 0, y + 1),
        }
    }
}

/// Where a backward search for `query` from cluster `x` of row `y` ends:
/// in the first row from `y` up that holds the query, row `y` being searched
/// before cluster `x` and the rows above it from their end.
pub open spec fn find_backward(rows: Seq<RowView>, query: Seq<char>, x: int, y: int) -> Option<
    (int, int),
>
    decreases y,
{
    if y < 0 || y >= rows.len() {
        None
    } else {
        match row_find(spec_graphemes(rows[y].text), query, x, SearchDirection::Backward) {
            Some(c) => Some((c, y)),
            None => if y == 0 {
                None
            } else {
                find_backward(rows, query, spec_graphemes(rows[y - 1].text).len() as int, y - 1)
            },
        }
    }
}

/// Where a search for `query` from `at` ends, as column and row.
pub open spec fn document_find(
    rows: Seq<RowView>,
    query: Seq<char>,
    at: Position,
    direction: SearchDirection,
) -> Option<(int, int)> {
    if direction == SearchDirection::Forward {
        find_forward(rows, query, at.x as int, at.y as int)
    } else {
        find_backward(rows, query, at.x as int, at.y as int)
    }
}

/// What a search finds is a cluster of a row of the document.
pub proof fn lemma_document_find_bounds(
    rows: Seq<RowView>,
    query: Seq<char>,
    at: Position,
    direction: SearchDirection,
)
    ensures
        match document_find(rows, query, at, direction) {
            Some((x, y)) => 0 <= y < rows.len() && 0 <= x < spec_graphemes(rows[y].text).len(),
            None => true,
        },
{
    if direction == SearchDirection::Forward {
        lemma_find_forward_bounds(rows, query, at.x as int, at.y as int);
    } else {
        lemma_find_backward_bounds(rows, query, at.x as int, at.y as int);
    }
}

/// What a forward search finds is a cluster of a row of the document.
proof fn lemma_find_forward_bounds(rows: Seq<RowView>, query: Seq<char>, x: int, y: int)
    ensures
        match find_forward(rows, query, x, y) {
            Some((x, y)) => 0 <= y < rows.len() && 0 <= x < spec_graphemes(rows[y].text).len(),
            None => true,
        },
    decreases rows.len() - y,
{
    if 0 <= y < rows.len() {
        lemma_row_find_bounds(spec_graphemes(rows[y].text), query, x, SearchDirection::Forward);
        lemma_find_forward_bounds(rows, query, 0, y + 1);
    }
}

/// What a backward search finds is a cluster of a row of the document.
proof fn lemma_find_backward_bounds(rows: Seq<RowView>, query: Seq<char>, x: int, y: int)
    ensures
        match find_backward(rows, query, x, y) {
            Some((x, y)) => 0 <= y < rows.len() && 0 <= x < spec_graphemes(rows[y].text).len(),
            None => true,
        },
    decreases y,
{
    if 0 <= y < rows.len() {
        lemma_row_find_bounds(spec_graphemes(rows[y].text), query, x, SearchDirection::Backward);
        if y > 0 {
            lemma_find_backward_bounds(
                rows,
                query,
                spec_graphemes(rows[y - 1].text).len() as int,
                y - 1,
            );
        }
    }
}

/// The number of rows that are highlighted when the rows through `until`
/// are asked for: one more than `until`, but no more than there are.
pub open spec fn highlight_limit(len: nat, until: Option<usize>) -> int {
    match until {
        Some(until) => if until + 1 < len {
            until + 1
        } else {
            len as int
        },
        None => len as int,
    }
}

/// Row `i` with its highlighting up to date. It counts as highlighted if
/// no search word was marked and it leaves no block comment open.
pub open spec fn row_highlighted(
    p: ProfileView,
    rows: Seq<RowView>,
    i: int,
    word: Option<Seq<char>>,
) -> RowView {
    let carry = carry_into(p, rows, i);
    let g = spec_graphemes(rows[i].text);
    RowView {
        text: rows[i].text,
        tags: highlighted_tags(p, g, word, carry),
        highlighted: word is None && !line_open(p, heads(g), carry),
    }
}

/// The rows with the highlighting of the first `limit` of them up to date.
pub open spec fn rows_highlighted(
    p: ProfileView,
    rows: Seq<RowView>,
    word: Option<Seq<char>>,
    limit: int,
) -> Seq<RowView> {
    Seq::new(
        rows.len(),
        |i: int|
            if i < limit {
                row_highlighted(p, rows, i, word)
            } else {
                rows[i]
            },
    )
}

/// The texts of the rows.
pub open spec fn texts(rows: Seq<RowView>) -> Seq<Seq<char>> {
    rows.map_values(|row: RowView| row.text)
}

/// One row without highlighting for each line.
pub open spec fn fresh_rows(lines: Seq<Seq<char>>) -> Seq<RowView> {
    lines.map_values(|line: Seq<char>| fresh(line))
}

/// The document after `c` has been inserted at `at`. A line feed breaks
/// the row; a position below the row behind the last one is ignored.
pub open spec fn after_insert(doc: DocumentView, at: Position, c: char) -> DocumentView {
    if at.y > doc.rows.len() {
        doc
    } else if c == '\n' {
        DocumentView { rows: rows_after_newline(doc.rows, at), dirty: true, ..doc }
    } else {
        DocumentView { rows: rows_after_insert(doc.rows, at, c), dirty: true, ..doc }
    }
}

/// The document after a line break at `at`; a position below the row
/// behind the last one is ignored.
pub open spec fn after_newline(doc: DocumentView, at: Position) -> DocumentView {
    if at.y > doc.rows.len() {
        doc
    } else {
        DocumentView { rows: rows_after_newline(doc.rows, at), dirty: true, ..doc }
    }
}

/// The document after a deletion at `at`. Where the deletion takes
/// nothing away (below the last row, behind the end of a row, or at the end
/// of the last row) the document stays as it is, and counts as changed no
/// more than before.
pub open spec fn after_delete(doc: DocumentView, at: Position) -> DocumentView {
    if deletes(doc.rows, at) {
        DocumentView { rows: rows_after_delete(doc.rows, at), dirty: true, ..doc }
    } else {
        doc
    }
}

/// The document with the highlighting of its rows through `until` up to
/// date, or of all rows if no row is named.
pub open spec fn after_highlight(
    doc: DocumentView,
    word: Option<Seq<char>>,
    until: Option<usize>,
) -> DocumentView {
    DocumentView {
        rows: rows_highlighted(doc.profile, doc.rows, word, highlight_limit(doc.rows.len(), until)),
        ..doc
    }
}

/// The document once it has been written to the file it is named after:
/// it counts as unchanged, its language is that of its name, and no row
/// counts as highlighted.
pub open spec fn after_saved(doc: DocumentView) -> DocumentView
    recommends
        doc.file_name is Some,
{
    DocumentView {
        rows: unhighlighted_from(doc.rows, 0),
        dirty: false,
        file_name: doc.file_name,
        profile: profile_of(doc.file_name->0),
        language: language_name(doc.file_name->0),
    }
}

/// The document of a file of the given name and content: one row for each
/// line of the content, nothing highlighted, nothing changed.
pub open spec fn loaded(file_name: Seq<char>, contents: Seq<char>) -> DocumentView {
    DocumentView {
        rows: fresh_rows(spec_lines(contents)),
        dirty: false,
        file_name: Some(file_name),
        profile: profile_of(file_name),
        language: language_name(file_name),
    }
}

/// The document without rows: it has no name and no language, and nothing
/// was changed.
pub open spec fn empty_document() -> DocumentView {
    DocumentView {
        rows: Seq::empty(),
        dirty: false,
        file_name: None,
        profile: plain_profile(),
        language: "No filetype"@,
    }
}

/// What a row starts in depends on the rows above it alone.
pub proof fn lemma_carry_into_prefix(p: ProfileView, a: Seq<RowView>, b: Seq<RowView>, i: int)
    requires
        i <= a.len(),
        i <= b.len(),
        forall|j: int| 0 <= j < i ==> a[j].text == b[j].text,
    ensures
        carry_into(p, a, i) == carry_into(p, b, i),
    decreases i,
{
    if i > 0 {
        lemma_carry_into_prefix(p, a, b, i - 1);
    }
}

/// Rows stay settled when the rows above `start` stay as they are and no
/// row from `start` on counts as highlighted.
pub proof fn lemma_settled_after_edit(
    p: ProfileView,
    before: Seq<RowView>,
    after: Seq<RowView>,
    start: int,
)
    requires
        forall|i: int| 0 <= i < before.len() ==> settled(p, before, i),
        forall|i: int|
            0 <= i < start && i < after.len() ==> i < before.len() && after[i] == before[i],
        forall|i: int| start <= i < after.len() ==> !after[i].highlighted,
    ensures
        forall|i: int| 0 <= i < after.len() ==> settled(p, after, i),
{
    assert forall|i: int| 0 <= i < after.len() implies settled(p, after, i) by {
        if i < start {
            assert(after[i] == before[i]);
            assert forall|j: int| 0 <= j < i implies before[j].text == after[j].text by {
                assert(after[j] == before[j]);
            }
            lemma_carry_into_prefix(p, before, after, i);
            assert(settled(p, before, i));
        }
    }
}

/// Highlighting changes no text, so it changes nothing in what the rows
/// start in.
pub proof fn lemma_highlighted_carry(
    p: ProfileView,
    rows: Seq<RowView>,
    word: Option<Seq<char>>,
    limit: int,
    i: int,
)
    requires
        0 <= i <= rows.len(),
    ensures
        carry_into(p, rows_highlighted(p, rows, word, limit), i) == carry_into(p, rows, i),
{
    lemma_carry_into_prefix(p, rows_highlighted(p, rows, word, limit), rows, i);
}

/// Rows that were settled are settled after highlighting.
pub proof fn lemma_highlighted_settled(
    p: ProfileView,
    rows: Seq<RowView>,
    word: Option<Seq<char>>,
    limit: int,
)
    requires
        forall|i: int| 0 <= i < rows.len() ==> settled(p, rows, i),
    ensures
        forall|i: int|
            0 <= i < rows.len() ==> settled(p, rows_highlighted(p, rows, word, limit), i),
{
    let after = rows_highlighted(p, rows, word, limit);
    assert forall|i: int| 0 <= i < rows.len() implies settled(p, after, i) by {
        lemma_highlighted_carry(p, rows, word, limit, i);
        assert(settled(p, rows, i));
    }
}

impl Document {
    /// The rows of the document, as plain values.
    pub open spec fn rows(&self) -> Seq<RowView> {
        self@.rows
    }

    /// Whether the document was changed since it was loaded or saved.
    pub open spec fn dirty(&self) -> bool {
        self@.dirty
    }

    /// The rules by which the document is highlighted.
    pub open spec fn profile(&self) -> ProfileView {
        self@.profile
    }

    /// The name of the language of the document.
    pub open spec fn language(&self) -> Seq<char> {
        self@.language
    }

    /// The name of the file that the document belongs to, if it has one.
    pub open spec fn spec_file_name(&self) -> Option<Seq<char>> {
        self@.file_name
    }

    /// Every row is well formed.
    pub closed spec fn rows_wf(&self) -> bool {
        forall|i: int| 0 <= i < self.rows@.len() ==> (#[trigger] self.rows@[i]).wf()
    }

    /// Every row is well formed, and what a highlighted row holds is what
    /// the rules of the document give it.
    pub open spec fn wf(&self) -> bool {
        &&& self.rows_wf()
        &&& forall|i: int| 0 <= i < self.rows().len() ==> settled(self.profile(), self.rows(), i)
    }

    /// The document of a file of the given name and content: one row for
    /// each line of the content, nothing highlighted, nothing changed.
    pub fn load(file_name: &str, contents: &str) -> (doc: Document)
        ensures
            doc.wf(),
            doc@ == loaded(file_name@, contents@),
    {
        let chars = to_chars(contents);
        let lines = split_lines(chars.as_slice());
        let mut rows: Vec<Row> = Vec::new();
        let mut i: usize = 0;
        while i < lines.len()
            invariant
                i <= lines.len(),
                rows@.len() == i,
                forall|j: int| 0 <= j < i ==> (#[trigger] rows@[j]).wf(),
                forall|j: int| 0 <= j < i ==> (#[trigger] rows@[j])@ == fresh(lines.deep_view()[j]),
            decreases lines.len() - i,
        {
            assert(lines.deep_view()[i as int] == lines[i as int]@);
            rows.push(Row::from(lines[i].as_str()));
            i += 1;
        }
        let doc = Document {
            rows,
            file_name: Some(String::from_str(file_name)),
            dirty: false,
            file_type: FileType::from(file_name),
        };
        assert(doc.rows() =~= fresh_rows(spec_lines(contents@)));
        doc
    }

    /// The content of the file of the document: the text of each row with
    /// a line feed behind it.
    pub fn contents(&self) -> (text: String)
        ensures
            text@ == joined(texts(self.rows())),
    {
        let mut text = String::new();
        let mut i: usize = 0;
        let ghost all = texts(self.rows());
        assert(all.take(0) =~= Seq::<Seq<char>>::empty());
        while i < self.rows.len()
            invariant
                i <= self.rows@.len(),
                all == texts(self.rows()),
                text@ == joined(all.take(i as int)),
            decreases self.rows@.len() - i,
        {
            proof {
                lemma_joined_push(all.take(i as int), all[i as int]);
                assert(all.take(i + 1) =~= all.take(i as int).push(all[i as int]));
            }
            text.append(self.rows[i].as_str());
            text.push('\n');
            i += 1;
        }
        assert(all.take(i as int) =~= all);
        text
    }

    /// Records that the document was written to the file it is named
    /// after: it counts as unchanged, and its language is that of its name.
    /// No row counts as highlighted afterwards, so that the rules of that
    /// language reach every row the next time the document is highlighted.
    /// A document without a name cannot have been written.
    pub fn saved(&mut self)
        requires
            old(self).wf(),
            old(self).spec_file_name() is Some,
        ensures
            final(self).wf(),
            final(self)@ == after_saved(old(self)@),
    {
        if let Some(file_name) = &self.file_name {
            self.file_type = FileType::from(file_name.as_str());
        }
        self.dirty = false;
        self.unhighlight_rows(0);
    }

    /// The name of the file of the document, if it has one.
    pub fn file_name(&self) -> (name: Option<&String>)
        ensures
            match name {
                Some(name) => self.spec_file_name() == Some(name@),
                None => self.spec_file_name() is None,
            },
    {
        self.file_name.as_ref()
    }

    /// Gives the document the name of another file.
    pub fn set_file_name(&mut self, name: Option<String>)
        requires
            old(self).wf(),
        ensures
            final(self).wf(),
            final(self)@ == (DocumentView { file_name: word_text(name), ..old(self)@ }),
    {
        self.file_name = name;
        assert(self.profile() == old(self).profile());
        assert(self.rows() == old(self).rows());
        assert(self.rows_wf());
        assert(forall|i: int|
            0 <= i < self.rows().len() ==> settled(self.profile(), self.rows(), i));
    }

    /// The name of the language of the document.
    pub fn file_type(&self) -> (name: String)
        ensures
            name@ == self.language(),
    {
        self.file_type.name()
    }

    /// The row of the given index, if there is one.
    pub fn get_row(&self, index: usize) -> (row: Option<&Row>)
        requires
            self.wf(),
        ensures
            match row {
                Some(row) => index < self.rows().len() && row@ == self.rows()[index as int]
                    && row.wf(),
                None => index >= self.rows().len(),
            },
    {
        if index < self.rows.len() {
            Some(&self.rows[index])
        } else {
            None
        }
    }

    /// Whether the document has no rows.
    pub fn is_empty(&self) -> (b: bool)
        ensures
            b == (self.rows().len() == 0),
    {
        self.rows.len() == 0
    }

    /// The number of rows.
    pub fn len(&self) -> (n: usize)
        ensures
            n == self.rows().len(),
    {
        self.rows.len()
    }

    /// Whether the document was changed since it was loaded or saved.
    pub fn is_dirty(&self) -> (b: bool)
        ensures
            b == self.dirty(),
    {
        self.dirty
    }

    /// Inserts `c` at `at`. A line feed breaks the row. A position below
    /// the row behind the last one is ignored.
    pub fn insert(&mut self, at: &Position, c: char)
        requires
            old(self).wf(),
        ensures
            final(self).wf(),
            final(self)@ == after_insert(old(self)@, *at, c),
    {
        if at.y > self.rows.len() {
            return ;
        }
        self.dirty = true;
        assert(self.profile() == old(self).profile());
        assert(self.rows() == old(self).rows());
        if c == '\n' {
            self.insert_newline(at);
            return ;
        }
        if at.y == self.rows.len() {
            let mut row = Row::default();
            proof {
                lemma_flatten_len(row.clusters());
                assert(join(row.clusters(), 0, 0) =~= Seq::<char>::empty());
            }
            row.insert(0, c);
            assert(row.text() =~= seq![c]);
            self.rows.push(row);
            assert(self.rows() =~= rows_after_insert(old(self).rows(), *at, c));
            proof {
                lemma_settled_after_edit(
                    self.profile(),
                    old(self).rows(),
                    self.rows(),
                    at.y as int,
                );
            }
        } else {
            self.rows[at.y].insert(at.x, c);
            self.unhighlight_rows(at.y);
            assert(self.rows() =~= rows_after_insert(old(self).rows(), *at, c));
            proof {
                lemma_settled_after_edit(
                    self.profile(),
                    old(self).rows(),
                    self.rows(),
                    at.y as int,
                );
            }
        }
    }

    /// Deletes at `at`: the cluster there or, at the end of a row that has
    /// a row below it, the break between the two. Where there is neither
    /// the document stays as it is.
    pub fn delete(&mut self, at: &Position)
        requires
            old(self).wf(),
        ensures
            final(self).wf(),
            final(self)@ == after_delete(old(self)@, *at),
    {
        let len = self.rows.len();
        if at.y >= len {
            return ;
        }
        let width = self.rows[at.y].len();
        assert(self.rows()[at.y as int] == self.rows@[at.y as int]@);
        if at.x > width || (at.x == width && at.y + 1 == len) {
            return ;
        }
        self.dirty = true;
        assert(self.profile() == old(self).profile());
        if at.x == width {
            let next_row = self.rows.remove(at.y + 1);
            self.rows[at.y].append(next_row);
        } else {
            self.rows[at.y].delete(at.x);
        }
        let start = if at.y > 0 {
            at.y - 1
        } else {
            0
        };
        self.unhighlight_rows(start);
        assert(self.rows() =~= rows_after_delete(old(self).rows(), *at));
        proof {
            lemma_settled_after_edit(self.profile(), old(self).rows(), self.rows(), start as int);
        }
    }

    /// Breaks the row at `at`. In or behind the last row an empty row is
    /// added at the end. A position below the row behind the last one is
    /// ignored.
    pub fn insert_newline(&mut self, at: &Position)
        requires
            old(self).wf(),
        ensures
            final(self).wf(),
            final(self)@ == after_newline(old(self)@, *at),
    {
        if at.y > self.rows.len() {
            return ;
        }
        self.dirty = true;
        assert(self.profile() == old(self).profile());
        if at.y == self.rows.len() || at.y + 1 == self.rows.len() {
            self.unhighlight_rows(at.y);
            self.rows.push(Row::default());
            assert(self.rows() =~= rows_after_newline(old(self).rows(), *at));
            proof {
                lemma_settled_after_edit(
                    self.profile(),
                    old(self).rows(),
                    self.rows(),
                    at.y as int,
                );
            }
            return ;
        }
        let new_row = self.rows[at.y].split(at.x);
        self.rows.insert(at.y + 1, new_row);
        self.unhighlight_rows(at.y);
        assert(self.rows() =~= rows_after_newline(old(self).rows(), *at));
        proof {
            lemma_settled_after_edit(self.profile(), old(self).rows(), self.rows(), at.y as int);
        }
    }

    /// Searches for `query` from `at`: forward through the rows from
    /// `at.y` down, or backward through the rows from `at.y` up. No row is
    /// searched twice: the search does not wrap around the document.
    pub fn find(&self, query: &str, at: &Position, search_direction: SearchDirection) -> (r: Option<
        Position,
    >)
        requires
            self.wf(),
        ensures
            match r {
                Some(p) => document_find(self.rows(), query@, *at, search_direction) == Some(
                    (p.x as int, p.y as int),
                ),
                None => document_find(self.rows(), query@, *at, search_direction) is None,
            },
            r is Some ==> r->0.y < self.rows().len() && r->0.x < spec_graphemes(
                self.rows()[r->0.y as int].text,
            ).len(),
    {
        proof {
            lemma_document_find_bounds(self.rows(), query@, *at, search_direction);
        }
        let len = self.rows.len();
        if at.y >= len {
            return None;
        }
        let mut x = at.x;
        let mut y = at.y;
        if search_direction == SearchDirection::Forward {
            while y < len
                invariant
                    self.wf(),
                    search_direction == SearchDirection::Forward,
                    len == self.rows@.len(),
                    y <= len,
                    find_forward(self.rows(), query@, at.x as int, at.y as int) == find_forward(
                        self.rows(),
                        query@,
                        x as int,
                        y as int,
                    ),
                decreases len - y,
            {
                assert(self.rows()[y as int] == self.rows@[y as int]@);
                if let Some(found) = self.rows[y].find(query, x, search_direction) {
                    return Some(Position { x: found, y });
                }
                x = 0;
                y += 1;
            }
            None
        } else {
            loop
                invariant
                    self.wf(),
                    search_direction == SearchDirection::Backward,
                    len == self.rows@.len(),
                    y < len,
                    find_backward(self.rows(), query@, at.x as int, at.y as int) == find_backward(
                        self.rows(),
                        query@,
                        x as int,
                        y as int,
                    ),
                decreases y,
            {
                assert(self.rows()[y as int] == self.rows@[y as int]@);
                if let Some(found) = self.rows[y].find(query, x, search_direction) {
                    return Some(Position { x: found, y });
                }
                if y == 0 {
                    return None;
                }
                y -= 1;
                x = self.rows[y].len();
                assert(self.rows()[y as int] == self.rows@[y as int]@);
                assert(self.rows@[y as int].wf());
            }
        }
    }

    /// Brings the highlighting of the rows through `until` up to date, or
    /// of all rows if no row is named, and marks the search word in them.
    pub fn highlight(&mut self, word: &Option<String>, until: Option<usize>)
        requires
            old(self).wf(),
        ensures
            final(self).wf(),
            final(self)@ == after_highlight(old(self)@, word_text(*word), until),
    {
        let len = self.rows.len();
        let until = match until {
            Some(until) => if until < len {
                until + 1
            } else {
                len
            },
            None => len,
        };
        let ghost p = self.profile();
        let ghost before = self.rows();
        let ghost w = word_text(*word);
        let mut start_with_comment = false;
        let mut i: usize = 0;
        while i < until
            invariant
                i <= until <= len,
                len == self.rows@.len(),
                before == old(self).rows(),
                before.len() == len,
                p == self.profile(),
                p == old(self).profile(),
                w == word_text(*word),
                self.language() == old(self).language(),
                self.spec_file_name() == old(self).spec_file_name(),
                self.dirty() == old(self).dirty(),
                old(self).wf(),
                self.rows_wf(),
                start_with_comment == carry_into(p, before, i as int),
                forall|j: int|
                    0 <= j < i ==> (#[trigger] self.rows@[j])@ == row_highlighted(p, before, j, w),
                forall|j: int| i <= j < len ==> (#[trigger] self.rows@[j])@ == before[j],
            decreases until - i,
        {
            assert(settled(p, before, i as int));
            assert(self.rows@[i as int]@ == before[i as int]);
            start_with_comment =
            self.rows[i].highlight(self.file_type.highlighting_options(), word, start_with_comment);
            i += 1;
        }
        assert(self.rows() =~= rows_highlighted(p, before, w, until as int));
        proof {
            lemma_highlighted_settled(p, before, w, until as int);
        }
    }

    /// Marks the rows from `start` on as not highlighted.
    fn unhighlight_rows(&mut self, start: usize)
        requires
            old(self).rows_wf(),
        ensures
            final(self).rows_wf(),
            final(self)@ == (DocumentView {
                rows: unhighlighted_from(old(self).rows(), start as int),
                ..old(self)@
            }),
    {
        let mut i = start;
        while i < self.rows.len()
            invariant
                start <= i,
                self.rows@.len() == old(self).rows@.len(),
                forall|j: int| 0 <= j < self.rows@.len() ==> (#[trigger] self.rows@[j]).wf(),
                forall|j: int|
                    0 <= j < self.rows@.len() ==> (#[trigger] self.rows@[j])@ == (if start <= j < i {
                        RowView { highlighted: false, ..old(self).rows@[j]@ }
                    } else {
                        old(self).rows@[j]@
                    }),
                self.dirty == old(self).dirty,
                self.file_type == old(self).file_type,
                self.file_name == old(self).file_name,
            decreases self.rows@.len() - i,
        {
            self.rows[i].unhighlight();
            i += 1;
        }
        assert(self.rows() =~= unhighlighted_from(old(self).rows(), start as int));
    }
}

impl Default for Document {
    /// The document without rows: it has no name and no language, and
    /// nothing was changed.
    fn default() -> (doc: Document)
        ensures
            doc.wf(),
            doc@ == empty_document(),
    {
        let doc = Document {
            rows: Vec::new(),
            file_name: None,
            dirty: false,
            file_type: FileType::default(),
        };
        assert(doc.rows() =~= Seq::<RowView>::empty());
        doc
    }
}

/// Highlighting twice, with the same search word and through the same row,
/// leaves the document as highlighting once leaves it.
pub proof fn lemma_highlight_idempotent(
    doc: DocumentView,
    word: Option<Seq<char>>,
    until: Option<usize>,
)
    ensures
        after_highlight(after_highlight(doc, word, until), word, until) == after_highlight(
            doc,
            word,
            until,
        ),
{
    let p = doc.profile;
    let limit = highlight_limit(doc.rows.len(), until);
    let once = rows_highlighted(p, doc.rows, word, limit);
    let twice = rows_highlighted(p, once, word, limit);
    assert forall|i: int| 0 <= i < doc.rows.len() implies twice[i] == once[i] by {
        lemma_highlighted_carry(p, doc.rows, word, limit, i);
    }
    assert(twice =~= once);
}

/// All the text of the rows, row after row.
pub open spec fn all_text(rows: Seq<RowView>) -> Seq<char> {
    flatten(texts(rows))
}

/// Deleting at the end of a row that has a row below it joins the two: the
/// document has one row less, the row holds the text of both, and no text
/// is lost or doubled.
pub proof fn lemma_delete_joins_rows(doc: DocumentView, at: Position)
    requires
        at.y + 1 < doc.rows.len(),
        at.x == spec_graphemes(doc.rows[at.y as int].text).len(),
    ensures
        after_delete(doc, at).rows.len() == doc.rows.len() - 1,
        after_delete(doc, at).rows[at.y as int].text == doc.rows[at.y as int].text + doc.rows[at.y
            + 1].text,
        all_text(after_delete(doc, at).rows) == all_text(doc.rows),
{
    let y = at.y as int;
    let before = texts(doc.rows);
    let after = texts(after_delete(doc, at).rows);
    let merged = before[y] + before[y + 1];
    assert(after =~= before.take(y).push(merged) + before.skip(y + 2));
    assert(before =~= before.take(y).push(before[y]).push(before[y + 1]) + before.skip(y + 2));
    lemma_flatten_concat(before.take(y).push(merged), before.skip(y + 2));
    lemma_flatten_concat(before.take(y).push(before[y]).push(before[y + 1]), before.skip(y + 2));
    lemma_flatten_push(before.take(y), merged);
    lemma_flatten_push(before.take(y), before[y]);
    lemma_flatten_push(before.take(y).push(before[y]), before[y + 1]);
    assert(flatten(before.take(y)) + merged =~= (flatten(before.take(y)) + before[y]) + before[y
        + 1]);
}

/// Deleting at or behind the end of the last row changes nothing: the
/// document holds what it held and counts as changed no more than before.
pub proof fn lemma_delete_at_end_changes_nothing(doc: DocumentView, at: Position)
    requires
        at.y + 1 == doc.rows.len(),
        at.x >= spec_graphemes(doc.rows[at.y as int].text).len(),
    ensures
        after_delete(doc, at) == doc,
{
}

/// The contents of a document that was loaded from a text are the text
/// again, with a line feed at its end, if no line of the text ends in a
/// carriage return; and a document that was saved counts as unchanged.
pub proof fn lemma_contents_of_loaded(file_name: Seq<char>, contents: Seq<char>)
    requires
        plain_breaks(contents),
    ensures
        joined(texts(loaded(file_name, contents).rows)) == terminated(contents),
        joined(texts(after_saved(loaded(file_name, contents)).rows)) == terminated(contents),
        !after_saved(loaded(file_name, contents)).dirty,
{
    lemma_lines_round_trip(contents, 0);
    assert(texts(fresh_rows(spec_lines(contents))) =~= spec_lines(contents));
    assert(texts(unhighlighted_from(fresh_rows(spec_lines(contents)), 0)) =~= spec_lines(contents));
    assert(contents.subrange(0, contents.len() as int) =~= contents);
}

} // verus!

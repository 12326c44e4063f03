//! The editor without its terminal: the document, the cursor and the
//! window, and what each key does to them.

use crate::chars::{is_control, spec_is_control};
use crate::document::{
    after_delete, after_highlight, after_insert, document_find, Document, DocumentView,
};
use crate::row::{word_text, RowView};
use crate::segment::spec_graphemes;
use vstd::prelude::*;
use vstd::string::StringExecFns;

verus! {

/// A place in a document: `x` counts grapheme clusters within a row, `y`
/// counts rows.
#[derive(Default, Clone, Copy, PartialEq, Eq, Structural, Debug)]
pub struct Position {
    pub x: usize,
    pub y: usize,
}

/// The direction in which a search runs.
#[derive(PartialEq, Eq, Structural, Copy, Clone, Debug)]
pub enum SearchDirection {
    Forward,
    Backward,
}

/// A movement of the cursor.
#[derive(PartialEq, Eq, Structural, Copy, Clone, Debug)]
pub enum Motion {
    Up,
    Down,
    Left,
    Right,
    PageUp,
    PageDown,
    Home,
    End,
}

/// A key of the keyboard, as far as the editor tells keys apart.
#[derive(PartialEq, Eq, Structural, Copy, Clone, Debug)]
pub enum Key {
    Backspace,
    Left,
    Right,
    Up,
    Down,
    Home,
    End,
    PageUp,
    PageDown,
    Delete,
    Esc,
    Char(char),
    Ctrl(char),
    Other,
}

/// How often the key to quit must be pressed again before a changed
/// document is given up.
pub const QUIT_TIMES: u8 = 3;

/// The editor: the document, where the cursor stands in it, which part of
/// it the window shows, and what is kept from key to key.
pub struct Editor {
    pub should_quit: bool,
    pub cursor_position: Position,
    pub document: Document,
    pub offset: Position,
    pub quit_times: u8,
    pub highlighted_word: Option<String>,
}

/// What the editor holds, as plain values.
pub struct EditorView {
    pub should_quit: bool,
    pub cursor_position: Position,
    pub document: DocumentView,
    pub offset: Position,
    pub quit_times: u8,
    pub highlighted_word: Option<Seq<char>>,
}

impl View for Editor {
    type V = EditorView;

    open spec fn view(&self) -> EditorView {
        EditorView {
            should_quit: self.should_quit,
            cursor_position: self.cursor_position,
            document: self.document@,
            offset: self.offset,
            quit_times: self.quit_times,
            highlighted_word: word_text(self.highlighted_word),
        }
    }
}

/// What a key leaves to be done outside the document and the cursor.
#[derive(PartialEq, Eq, Structural, Copy, Clone, Debug)]
pub enum Request {
    /// Nothing.
    Nothing,
    /// Write the document to its file.
    Save,
    /// Ask for a search word and search.
    Search,
    /// Warn that the document was changed; the number says how often the
    /// key to quit must still be pressed.
    Warn(u8),
}

/// The number of clusters of row `y`; a row that is not there has none.
pub open spec fn width_at(rows: Seq<RowView>, y: int) -> int {
    if 0 <= y < rows.len() {
        spec_graphemes(rows[y].text).len() as int
    } else {
        0
    }
}

/// Where the cursor stands after a movement, before it is brought back
/// into its row. Left at the beginning of a row goes to the end of the row
/// above, right at the end of a row to the beginning of the row below; a
/// page is as many rows as the terminal shows.
pub open spec fn stepped(
    rows: Seq<RowView>,
    terminal_height: usize,
    cursor: Position,
    motion: Motion,
) -> (int, int) {
    let height = rows.len() as int;
    let x = cursor.x as int;
    let y = cursor.y as int;
    let width = width_at(rows, y);
    match motion {
        Motion::Up => (
            x,
            if y > 0 {
                y - 1
            } else {
                0
            },
        ),
        Motion::Down => (
            x,
            if y < height {
                y + 1
            } else {
                y
            },
        ),
        Motion::Left => if x > 0 {
            (x - 1, y)
        } else if y > 0 {
            (width_at(rows, y - 1), y - 1)
        } else {
            (x, y)
        },
        Motion::Right => if x < width {
            (x + 1, y)
        } else if y < height {
            (0, y + 1)
        } else {
            (x, y)
        },
        Motion::PageUp => (
            x,
            if y <= terminal_height {
                0
            } else {
                y - terminal_height
            },
        ),
        Motion::PageDown => (
            x,
            if height - y <= terminal_height {
                height
            } else {
                y + terminal_height
            },
        ),
        Motion::Home => (0, y),
        Motion::End => (width, y),
    }
}

/// Where the cursor stands after a movement: where the movement takes it,
/// but no further right than the end of its row.
pub open spec fn moved(
    rows: Seq<RowView>,
    terminal_height: usize,
    cursor: Position,
    motion: Motion,
) -> (int, int) {
    let (x, y) = stepped(rows, terminal_height, cursor, motion);
    let width = width_at(rows, y);
    if x > width {
        (width, y)
    } else {
        (x, y)
    }
}

/// Where the cursor stands after a movement, as a position.
pub open spec fn moved_to(
    rows: Seq<RowView>,
    terminal_height: usize,
    cursor: Position,
    motion: Motion,
) -> Position {
    let (x, y) = moved(rows, terminal_height, cursor, motion);
    Position { x: x as usize, y: y as usize }
}

/// The movement of the cursor that a key asks for, if it asks for one.
pub open spec fn spec_motion_of(key: Key) -> Option<Motion> {
    match key {
        Key::Up => Some(Motion::Up),
        Key::Down => Some(Motion::Down),
        Key::Left => Some(Motion::Left),
        Key::Right => Some(Motion::Right),
        Key::PageUp => Some(Motion::PageUp),
        Key::PageDown => Some(Motion::PageDown),
        Key::Home => Some(Motion::Home),
        Key::End => Some(Motion::End),
        _ => None,
    }
}

#[verifier::when_used_as_spec(spec_motion_of)]
pub fn motion_of(key: Key) -> (motion: Option<Motion>)
    ensures
        motion == spec_motion_of(key),
{
    match key {
        Key::Up => Some(Motion::Up),
        Key::Down => Some(Motion::Down),
        Key::Left => Some(Motion::Left),
        Key::Right => Some(Motion::Right),
        Key::PageUp => Some(Motion::PageUp),
        Key::PageDown => Some(Motion::PageDown),
        Key::Home => Some(Motion::Home),
        Key::End => Some(Motion::End),
        _ => None,
    }
}

/// The editor at its start: the cursor and the window at the top of the
/// document, no search word, and the full count of the key to quit.
pub open spec fn started(document: DocumentView) -> EditorView {
    EditorView {
        should_quit: false,
        cursor_position: Position { x: 0, y: 0 },
        document,
        offset: Position { x: 0, y: 0 },
        quit_times: QUIT_TIMES,
        highlighted_word: None,
    }
}

/// What a key does to the editor, and what it leaves to be done.
///
/// Control-Q quits; while the document is changed it warns instead, as
/// often as the editor still counts. Control-S and Control-F ask for saving
/// and searching. A character is inserted at the cursor, and the cursor
/// moves right. Delete deletes at the cursor; backspace moves the cursor
/// left and deletes there, unless the cursor is at the top of the document.
/// The other keys move the cursor or do nothing.
pub open spec fn pressed(editor: EditorView, key: Key, terminal_height: usize) -> (
    EditorView,
    Request,
) {
    let cursor = editor.cursor_position;
    let doc = editor.document;
    match key {
        Key::Ctrl(c) => if c == 'q' {
            if doc.dirty && editor.quit_times > 0 {
                (
                    EditorView { quit_times: (editor.quit_times - 1) as u8, ..editor },
                    Request::Warn(editor.quit_times),
                )
            } else {
                (EditorView { should_quit: true, ..editor }, Request::Nothing)
            }
        } else if c == 's' {
            (editor, Request::Save)
        } else if c == 'f' {
            (editor, Request::Search)
        } else {
            (editor, Request::Nothing)
        },
        Key::Char(c) => {
            let edited = after_insert(doc, cursor, c);
            (
                EditorView {
                    cursor_position: moved_to(edited.rows, terminal_height, cursor, Motion::Right),
                    document: edited,
                    ..editor
                },
                Request::Nothing,
            )
        },
        Key::Delete => (
            EditorView { document: after_delete(doc, cursor), ..editor },
            Request::Nothing,
        ),
        Key::Backspace => if cursor.x > 0 || cursor.y > 0 {
            let place = moved_to(doc.rows, terminal_height, cursor, Motion::Left);
            (
                EditorView {
                    cursor_position: place,
                    document: after_delete(doc, place),
                    ..editor
                },
                Request::Nothing,
            )
        } else {
            (editor, Request::Nothing)
        },
        _ => match spec_motion_of(key) {
            Some(motion) => (
                EditorView {
                    cursor_position: moved_to(doc.rows, terminal_height, cursor, motion),
                    ..editor
                },
                Request::Nothing,
            ),
            None => (editor, Request::Nothing),
        },
    }
}

/// The window once it has followed the cursor.
pub open spec fn window(offset: Position, cursor: Position, width: usize, height: usize) -> Position {
    Position {
        x: scrolled(offset.x, cursor.x, width) as usize,
        y: scrolled(offset.y, cursor.y, height) as usize,
    }
}

/// The editor once the window has followed the cursor and the count of the
/// key to quit, if it had run, has been set back.
pub open spec fn settled(editor: EditorView, width: usize, height: usize) -> EditorView {
    EditorView {
        offset: window(editor.offset, editor.cursor_position, width, height),
        quit_times: if editor.quit_times < QUIT_TIMES {
            QUIT_TIMES
        } else {
            editor.quit_times
        },
        ..editor
    }
}

/// The direction in which a key that is pressed during a search sends
/// the search: left and up send it backward, every other key forward.
pub open spec fn search_direction(key: Key) -> SearchDirection {
    if key == Key::Left || key == Key::Up {
        SearchDirection::Backward
    } else {
        SearchDirection::Forward
    }
}

/// The editor after a key was pressed during a search for `query`. Right
/// and down first move the cursor right, so that the search goes on behind
/// the place where it stands. If the query is found the cursor goes there
/// and the window follows; if not, the cursor stays where it was. The query
/// becomes the search word that is marked in the rows.
pub open spec fn searched(
    editor: EditorView,
    key: Key,
    query: Seq<char>,
    width: usize,
    height: usize,
) -> EditorView {
    let rows = editor.document.rows;
    let onward = key == Key::Right || key == Key::Down;
    let from = if onward {
        moved_to(rows, height, editor.cursor_position, Motion::Right)
    } else {
        editor.cursor_position
    };
    match document_find(rows, query, from, search_direction(key)) {
        Some((x, y)) => {
            let found = Position { x: x as usize, y: y as usize };
            EditorView {
                cursor_position: found,
                offset: window(editor.offset, found, width, height),
                highlighted_word: Some(query),
                ..editor
            }
        },
        None => EditorView {
            cursor_position: if onward {
                moved_to(rows, height, from, Motion::Left)
            } else {
                from
            },
            highlighted_word: Some(query),
            ..editor
        },
    }
}

/// The editor after a search: no search word is marked any more, and if
/// the search was given up the cursor is back where the search began and
/// the window has followed it.
pub open spec fn search_ended(
    editor: EditorView,
    began_at: Position,
    given_up: bool,
    width: usize,
    height: usize,
) -> EditorView {
    if given_up {
        EditorView {
            cursor_position: began_at,
            offset: window(editor.offset, began_at, width, height),
            highlighted_word: None,
            ..editor
        }
    } else {
        EditorView { highlighted_word: None, ..editor }
    }
}

/// The editor with the highlighting of the rows that the window shows up
/// to date.
pub open spec fn refreshed(editor: EditorView, terminal_height: usize) -> EditorView {
    EditorView {
        document: after_highlight(
            editor.document,
            editor.highlighted_word,
            Some(saturated(editor.offset.y + terminal_height) as usize),
        ),
        ..editor
    }
}

/// The text of a prompt after a key, and whether the key ends the prompt:
/// the line feed ends it, escape ends it with nothing, backspace takes the
/// last character away, and a character that is no control character is
/// added.
pub open spec fn prompted(text: Seq<char>, key: Key) -> (Seq<char>, bool) {
    match key {
        Key::Char(c) => if c == '\n' {
            (text, true)
        } else if spec_is_control(c) {
            (text, false)
        } else {
            (text.push(c), false)
        },
        Key::Esc => (Seq::empty(), true),
        Key::Backspace => if text.len() > 0 {
            (text.drop_last(), false)
        } else {
            (text, false)
        },
        _ => (text, false),
    }
}

/// The number of clusters of row `y` of a document.
fn width_of(document: &Document, y: usize) -> (width: usize)
    requires
        document.wf(),
    ensures
        width == width_at(document.rows(), y as int),
{
    match document.get_row(y) {
        Some(row) => row.len(),
        None => 0,
    }
}

/// Moves the cursor. The cursor ends in a row of the document or just
/// below the last one, and within that row or at its end, if it was not
/// below the document before.
pub fn move_cursor(
    cursor: Position,
    document: &Document,
    terminal_height: usize,
    motion: Motion,
) -> (r: Position)
    requires
        document.wf(),
    ensures
        (r.x as int, r.y as int) == moved(document.rows(), terminal_height, cursor, motion),
        r.x <= width_at(document.rows(), r.y as int),
        cursor.y <= document.rows().len() ==> r.y <= document.rows().len(),
{
    let mut x = cursor.x;
    let mut y = cursor.y;
    let height = document.len();
    let width = width_of(document, y);
    match motion {
        Motion::Up => {
            y = y.saturating_sub(1);
        },
        Motion::Down => {
            if y < height {
                y = y + 1;
            }
        },
        Motion::Left => {
            if x > 0 {
                x = x - 1;
            } else if y > 0 {
                y = y - 1;
                x = width_of(document, y);
            }
        },
        Motion::Right => {
            if x < width {
                x = x + 1;
            } else if y < height {
                y = y + 1;
                x = 0;
            }
        },
        Motion::PageUp => {
            y = if y <= terminal_height {
                0
            } else {
                y - terminal_height
            };
        },
        Motion::PageDown => {
            y = if height.saturating_sub(y) <= terminal_height {
                height
            } else {
                y + terminal_height
            };
        },
        Motion::Home => {
            x = 0;
        },
        Motion::End => {
            x = width;
        },
    }
    let width = width_of(document, y);
    if x > width {
        x = width;
    }
    Position { x, y }
}

/// A sum as `usize` holds it: no greater than the greatest `usize`.
pub open spec fn saturated(n: int) -> int {
    if n > usize::MAX {
        usize::MAX as int
    } else {
        n
    }
}

/// Where a window of the given extent begins on one axis once it has
/// followed the cursor: at the cursor if the cursor was before it, so far
/// that the cursor is its last place if the cursor was behind it, and where
/// it was otherwise.
pub open spec fn scrolled(offset: usize, cursor: usize, extent: usize) -> int {
    if cursor < offset {
        cursor as int
    } else if cursor >= saturated(offset + extent) {
        if cursor < extent {
            1
        } else {
            saturated(cursor - extent + 1)
        }
    } else {
        offset as int
    }
}

/// Lets the window follow the cursor on one axis.
fn scroll_axis(offset: usize, cursor: usize, extent: usize) -> (r: usize)
    ensures
        r == scrolled(offset, cursor, extent),
{
    if cursor < offset {
        cursor
    } else if cursor >= offset.saturating_add(extent) {
        cursor.saturating_sub(extent).saturating_add(1)
    } else {
        offset
    }
}

/// Moves the window so that it shows the cursor. `offset` is the place of
/// the document in the upper left corner of the window. A window that has
/// a width and a height shows the cursor afterwards.
pub fn scroll(offset: Position, cursor: Position, width: usize, height: usize) -> (r: Position)
    ensures
        r.x == scrolled(offset.x, cursor.x, width),
        r.y == scrolled(offset.y, cursor.y, height),
        width > 0 ==> r.x <= cursor.x < r.x + width,
        height > 0 ==> r.y <= cursor.y < r.y + height,
{
    Position {
        x: scroll_axis(offset.x, cursor.x, width),
        y: scroll_axis(offset.y, cursor.y, height),
    }
}

impl Editor {
    /// The document of the editor is well formed.
    pub open spec fn wf(&self) -> bool {
        self.document.wf()
    }

    /// The editor of a document, at its start.
    pub fn new(document: Document) -> (editor: Editor)
        requires
            document.wf(),
        ensures
            editor.wf(),
            editor@ == started(document@),
    {
        Editor {
            should_quit: false,
            cursor_position: Position { x: 0, y: 0 },
            document,
            offset: Position { x: 0, y: 0 },
            quit_times: QUIT_TIMES,
            highlighted_word: None,
        }
    }

    /// Moves the cursor.
    pub fn move_cursor(&mut self, motion: Motion, terminal_height: usize)
        requires
            old(self).wf(),
        ensures
            final(self)@ == (EditorView {
                cursor_position: moved_to(
                    old(self)@.document.rows,
                    terminal_height,
                    old(self).cursor_position,
                    motion,
                ),
                ..old(self)@
            }),
            final(self).document == old(self).document,
    {
        self.cursor_position =
        move_cursor(self.cursor_position, &self.document, terminal_height, motion);
    }

    /// Moves the window so that it shows the cursor.
    pub fn scroll(&mut self, width: usize, height: usize)
        ensures
            final(self)@ == (EditorView {
                offset: window(old(self).offset, old(self).cursor_position, width, height),
                ..old(self)@
            }),
            final(self).document == old(self).document,
    {
        self.offset = scroll(self.offset, self.cursor_position, width, height);
    }

    /// Applies a key to the document and the cursor, and says what is
    /// left to be done for it.
    pub fn process_keypress(&mut self, key: Key, terminal_height: usize) -> (request: Request)
        requires
            old(self).wf(),
        ensures
            final(self).wf(),
            (final(self)@, request) == pressed(old(self)@, key, terminal_height),
    {
        match key {
            Key::Ctrl(c) => {
                if c == 'q' {
                    if self.document.is_dirty() && self.quit_times > 0 {
                        let left = self.quit_times;
                        self.quit_times = left - 1;
                        return Request::Warn(left);
                    }
                    self.should_quit = true;
                } else if c == 's' {
                    return Request::Save;
                } else if c == 'f' {
                    return Request::Search;
                }
            },
            Key::Char(c) => {
                let at = self.cursor_position;
                self.document.insert(&at, c);
                self.move_cursor(Motion::Right, terminal_height);
            },
            Key::Delete => {
                let at = self.cursor_position;
                self.document.delete(&at);
            },
            Key::Backspace => {
                if self.cursor_position.x > 0 || self.cursor_position.y > 0 {
                    self.move_cursor(Motion::Left, terminal_height);
                    let at = self.cursor_position;
                    self.document.delete(&at);
                }
            },
            _ => {
                if let Some(motion) = motion_of(key) {
                    self.move_cursor(motion, terminal_height);
                }
            },
        }
        Request::Nothing
    }

    /// Lets the window follow the cursor and sets the count of the key to
    /// quit back. The result says whether the count had run: the warning is
    /// then out of date.
    pub fn settle(&mut self, width: usize, height: usize) -> (reset: bool)
        ensures
            final(self)@ == settled(old(self)@, width, height),
            final(self).document == old(self).document,
            reset == (old(self).quit_times < QUIT_TIMES),
    {
        self.scroll(width, height);
        if self.quit_times < QUIT_TIMES {
            self.quit_times = QUIT_TIMES;
            return true;
        }
        false
    }

    /// Goes on with a search for `query` after a key.
    pub fn search_step(&mut self, key: Key, query: &str, width: usize, height: usize)
        requires
            old(self).wf(),
        ensures
            final(self)@ == searched(old(self)@, key, query@, width, height),
            final(self).document == old(self).document,
    {
        let onward = key == Key::Right || key == Key::Down;
        let direction = if key == Key::Left || key == Key::Up {
            SearchDirection::Backward
        } else {
            SearchDirection::Forward
        };
        if onward {
            self.move_cursor(Motion::Right, height);
        }
        let from = self.cursor_position;
        match self.document.find(query, &from, direction) {
            Some(position) => {
                self.cursor_position = position;
                self.scroll(width, height);
            },
            None => {
                if onward {
                    self.move_cursor(Motion::Left, height);
                }
            },
        }
        self.highlighted_word = Some(String::from_str(query));
    }

    /// Ends a search that began with the cursor at `began_at`.
    pub fn end_search(&mut self, began_at: Position, given_up: bool, width: usize, height: usize)
        ensures
            final(self)@ == search_ended(old(self)@, began_at, given_up, width, height),
            final(self).document == old(self).document,
    {
        if given_up {
            self.cursor_position = began_at;
            self.scroll(width, height);
        }
        self.highlighted_word = None;
    }

    /// Brings the highlighting of the rows that a window of the given
    /// height shows up to date, and marks the search word in them.
    pub fn highlight(&mut self, terminal_height: usize)
        requires
            old(self).wf(),
        ensures
            final(self).wf(),
            final(self)@ == refreshed(old(self)@, terminal_height),
    {
        let until = self.offset.y.saturating_add(terminal_height);
        self.document.highlight(&self.highlighted_word, Some(until));
    }
}

/// Applies a key to the text of a prompt, and says whether the key ends
/// the prompt.
pub fn prompt_key(result: &mut String, key: Key) -> (done: bool)
    ensures
        (final(result)@, done) == prompted(old(result)@, key),
{
    match key {
        Key::Char(c) => {
            if c == '\n' {
                return true;
            }
            if !is_control(c) {
                result.push(c);
            }
            false
        },
        Key::Esc => {
            *result = String::new();
            true
        },
        Key::Backspace => {
            let _ = result.pop();
            false
        },
        _ => false,
    }
}

} // verus!

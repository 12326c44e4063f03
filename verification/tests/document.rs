use hecto::highlighting::Type;
use hecto::{Document, Position, Row, SearchDirection};

const P: Type = Type::Plain;
const K: Type = Type::PrimaryKeywords;
const N: Type = Type::Number;
const M: Type = Type::MultiLineComment;
const F: Type = Type::Match;

fn texts(doc: &Document) -> Vec<String> {
    (0..doc.len()).map(|y| doc.get_row(y).unwrap().as_str().to_string()).collect()
}

fn tags(doc: &Document, y: usize) -> Vec<Type> {
    doc.get_row(y).unwrap().highlighting().clone()
}

fn at(x: usize, y: usize) -> Position {
    Position { x, y }
}

#[test]
fn a_new_document_has_no_rows() {
    let doc = Document::default();
    assert!(doc.is_empty());
    assert_eq!(doc.len(), 0);
    assert!(!doc.is_dirty());
    assert!(doc.file_name().is_none());
    assert!(doc.get_row(0).is_none());
    assert_eq!(doc.file_type(), "No filetype");
    assert_eq!(doc.contents(), "");
}

#[test]
fn load_makes_one_row_for_each_line() {
    let doc = Document::load("notes.txt", "one\ntwo\n\nfour");
    assert_eq!(texts(&doc), vec!["one", "two", "", "four"]);
    assert_eq!(doc.len(), 4);
    assert!(!doc.is_empty());
    assert!(!doc.is_dirty());
    assert_eq!(doc.file_name().unwrap(), "notes.txt");
    assert_eq!(doc.file_type(), "No filetype");
    assert_eq!(doc.get_row(1).unwrap().len(), 3);
    assert!(doc.get_row(4).is_none());
}

#[test]
fn load_treats_line_endings_as_the_standard_library_does() {
    for text in ["", "\n", "a", "a\n", "a\r\n", "a\r\nb", "a\rb\n", "a\r", "\r\n\r\n", "a\n\nb\n", "\r\r\n"] {
        let doc = Document::load("t", text);
        let expected: Vec<&str> = text.lines().collect();
        assert_eq!(texts(&doc), expected);
    }
}

#[test]
fn an_empty_file_and_a_file_of_one_empty_line_differ() {
    assert_eq!(Document::load("t", "").len(), 0);
    assert_eq!(Document::load("t", "\n").len(), 1);
    assert_eq!(Document::load("t", "\n").contents(), "\n");
}

#[test]
fn load_counts_clusters() {
    let doc = Document::load("t", "e\u{301}\u{4e2d}\n\u{1F468}\u{200D}\u{1F469}");
    assert_eq!(doc.get_row(0).unwrap().len(), 2);
    assert_eq!(doc.get_row(1).unwrap().len(), 1);
}

#[test]
fn contents_of_a_loaded_document_are_the_text() {
    for text in ["", "a\n", "one\ntwo\n", "\n\n", "\u{e9}\u{4e2d}\n\tx\n"] {
        assert_eq!(Document::load("t", text).contents(), text);
    }
    assert_eq!(Document::load("t", "one\ntwo").contents(), "one\ntwo\n");
    assert_eq!(Document::load("t", "a\r\nb").contents(), "a\nb\n");
}

#[test]
fn saved_clears_the_modified_flag() {
    let mut doc = Document::load("t.txt", "a\n");
    doc.insert(&at(0, 0), 'x');
    assert!(doc.is_dirty());
    assert_eq!(doc.contents(), "xa\n");
    doc.saved();
    assert!(!doc.is_dirty());
    assert_eq!(doc.contents(), "xa\n");
    let same = Document::load("t.txt", &doc.contents());
    assert_eq!(same.contents(), doc.contents());
}

#[test]
fn the_language_follows_the_file_name_when_saved() {
    let mut doc = Document::load("notes.txt", "if 1\n");
    doc.highlight(&None, None);
    assert_eq!(tags(&doc, 0), vec![P, P, P, P]);
    doc.set_file_name(Some(String::from("main.rs")));
    assert_eq!(doc.file_name().unwrap(), "main.rs");
    assert_eq!(doc.file_type(), "No filetype");
    doc.saved();
    assert_eq!(doc.file_type(), "Rust");
    doc.highlight(&None, None);
    assert_eq!(tags(&doc, 0), vec![K, K, P, N]);
    let mut unnamed = Document::default();
    unnamed.insert(&at(0, 0), 'x');
    unnamed.set_file_name(Some(String::from("new.rs")));
    assert!(unnamed.is_dirty());
    unnamed.saved();
    assert!(!unnamed.is_dirty());
    assert_eq!(unnamed.file_type(), "Rust");
}

#[test]
fn insert_puts_a_character_into_a_row() {
    let mut doc = Document::load("t", "hllo\nworld\n");
    doc.insert(&at(1, 0), 'e');
    assert_eq!(texts(&doc), vec!["hello", "world"]);
    assert!(doc.is_dirty());
    doc.insert(&at(99, 1), '!');
    assert_eq!(texts(&doc), vec!["hello", "world!"]);
    assert_eq!(doc.get_row(1).unwrap().len(), 6);
}

#[test]
fn insert_behind_the_last_row_adds_a_row() {
    let mut doc = Document::default();
    doc.insert(&at(0, 0), 'a');
    assert_eq!(texts(&doc), vec!["a"]);
    assert!(doc.is_dirty());
    doc.insert(&at(5, 1), 'b');
    assert_eq!(texts(&doc), vec!["a", "b"]);
}

#[test]
fn insert_below_the_document_does_nothing() {
    let mut doc = Document::load("t", "a\n");
    doc.insert(&at(0, 2), 'x');
    assert_eq!(texts(&doc), vec!["a"]);
    assert!(!doc.is_dirty());
    doc.insert(&at(0, 2), '\n');
    assert_eq!(doc.len(), 1);
    assert!(!doc.is_dirty());
    doc.insert_newline(&at(0, 2));
    doc.delete(&at(0, 1));
    doc.delete(&at(0, usize::MAX));
    assert_eq!(texts(&doc), vec!["a"]);
    assert!(!doc.is_dirty());
}

#[test]
fn insert_of_a_line_feed_breaks_the_row() {
    let mut doc = Document::load("t", "hello world\nend\n");
    doc.insert(&at(5, 0), '\n');
    assert_eq!(texts(&doc), vec!["hello", " world", "end"]);
    assert!(doc.is_dirty());
}

#[test]
fn insert_newline_splits_a_row() {
    let mut doc = Document::load("t", "ab\u{e9}cd\nlast\n");
    doc.insert_newline(&at(3, 0));
    assert_eq!(texts(&doc), vec!["ab\u{e9}", "cd", "last"]);
    assert_eq!(doc.get_row(0).unwrap().len(), 3);
    assert_eq!(doc.get_row(1).unwrap().len(), 2);
    doc.insert_newline(&at(0, 0));
    assert_eq!(texts(&doc), vec!["", "ab\u{e9}", "cd", "last"]);
    doc.insert_newline(&at(50, 2));
    assert_eq!(texts(&doc), vec!["", "ab\u{e9}", "cd", "", "last"]);
    assert!(doc.is_dirty());
}

#[test]
fn insert_newline_in_or_behind_the_last_row_adds_an_empty_row() {
    let mut doc = Document::load("t", "first\nlast\n");
    doc.insert_newline(&at(2, 1));
    assert_eq!(texts(&doc), vec!["first", "last", ""]);
    doc.insert_newline(&at(0, 3));
    assert_eq!(texts(&doc), vec!["first", "last", "", ""]);
    let mut empty = Document::default();
    empty.insert_newline(&at(0, 0));
    assert_eq!(texts(&empty), vec![""]);
    assert!(empty.is_dirty());
}

#[test]
fn delete_removes_a_cluster() {
    let mut doc = Document::load("t", "he\u{301}llo\nworld\n");
    doc.delete(&at(1, 0));
    assert_eq!(texts(&doc), vec!["hllo", "world"]);
    assert!(doc.is_dirty());
    assert_eq!(doc.get_row(0).unwrap().len(), 4);
}

#[test]
fn delete_at_the_end_of_a_row_joins_it_with_the_next() {
    let mut doc = Document::load("t", "ab\u{e9}\n\u{4e2d}cd\nlast\n");
    doc.delete(&at(3, 0));
    assert_eq!(texts(&doc), vec!["ab\u{e9}\u{4e2d}cd", "last"]);
    assert_eq!(doc.get_row(0).unwrap().len(), 6);
    assert_eq!(doc.len(), 2);
    assert!(doc.is_dirty());
    let mut doc = Document::load("t", "\n\nx\n");
    doc.delete(&at(0, 0));
    assert_eq!(texts(&doc), vec!["", "x"]);
    doc.delete(&at(0, 0));
    assert_eq!(texts(&doc), vec!["x"]);
}

#[test]
fn delete_at_the_end_of_the_last_row_changes_nothing() {
    let mut doc = Document::load("main.rs", "ab\ncd\n");
    doc.highlight(&None, None);
    doc.delete(&at(2, 1));
    assert_eq!(texts(&doc), vec!["ab", "cd"]);
    assert!(!doc.is_dirty());
    doc.delete(&at(7, 1));
    assert_eq!(texts(&doc), vec!["ab", "cd"]);
    assert!(!doc.is_dirty());
    assert!(doc.get_row(0).unwrap().is_highlighted());
    assert!(doc.get_row(1).unwrap().is_highlighted());
    assert_eq!(doc.contents(), "ab\ncd\n");
    let mut one = Document::load("t", "\n");
    one.delete(&at(0, 0));
    assert_eq!(texts(&one), vec![""]);
    assert!(!one.is_dirty());
}

#[test]
fn delete_behind_the_end_of_a_row_changes_nothing() {
    let mut doc = Document::load("main.rs", "ab\ncd\n");
    doc.highlight(&None, None);
    doc.delete(&at(3, 0));
    doc.delete(&at(usize::MAX, 0));
    assert_eq!(texts(&doc), vec!["ab", "cd"]);
    assert!(!doc.is_dirty());
    assert!(doc.get_row(0).unwrap().is_highlighted());
    doc.delete(&at(2, 0));
    assert_eq!(texts(&doc), vec!["abcd"]);
    assert!(doc.is_dirty());
}

#[test]
fn a_deletion_that_changes_nothing_keeps_the_flag_of_a_changed_document() {
    let mut doc = Document::load("t", "ab\n");
    doc.insert(&at(0, 0), 'x');
    assert!(doc.is_dirty());
    doc.delete(&at(3, 0));
    doc.delete(&at(0, 5));
    assert!(doc.is_dirty());
    assert_eq!(texts(&doc), vec!["xab"]);
}

#[test]
fn find_forward_goes_down_the_rows() {
    let doc = Document::load("t", "a cat\nno\n\u{e9}\u{e9} cat cat\n");
    let found = doc.find("cat", &at(0, 0), SearchDirection::Forward).unwrap();
    assert_eq!((found.x, found.y), (2, 0));
    let found = doc.find("cat", &at(3, 0), SearchDirection::Forward).unwrap();
    assert_eq!((found.x, found.y), (3, 2));
    let found = doc.find("cat", &at(4, 2), SearchDirection::Forward).unwrap();
    assert_eq!((found.x, found.y), (7, 2));
    assert!(doc.find("cat", &at(8, 2), SearchDirection::Forward).is_none());
    assert!(doc.find("dog", &at(0, 0), SearchDirection::Forward).is_none());
    let found = doc.find("no", &at(99, 0), SearchDirection::Forward).unwrap();
    assert_eq!((found.x, found.y), (0, 1));
}

#[test]
fn find_backward_goes_up_the_rows() {
    let doc = Document::load("t", "a cat\nno\n\u{e9}\u{e9} cat cat\n");
    let found = doc.find("cat", &at(10, 2), SearchDirection::Backward).unwrap();
    assert_eq!((found.x, found.y), (7, 2));
    let found = doc.find("cat", &at(7, 2), SearchDirection::Backward).unwrap();
    assert_eq!((found.x, found.y), (3, 2));
    let found = doc.find("cat", &at(3, 2), SearchDirection::Backward).unwrap();
    assert_eq!((found.x, found.y), (2, 0));
    assert!(doc.find("cat", &at(2, 0), SearchDirection::Backward).is_none());
    let found = doc.find("no", &at(0, 2), SearchDirection::Backward).unwrap();
    assert_eq!((found.x, found.y), (0, 1));
}

#[test]
fn find_does_not_wrap_around() {
    let doc = Document::load("t", "cat\nx\n");
    assert!(doc.find("cat", &at(0, 1), SearchDirection::Forward).is_none());
    assert!(doc.find("x", &at(0, 0), SearchDirection::Backward).is_none());
}

#[test]
fn find_rejects_an_empty_query_and_a_start_below_the_document() {
    let doc = Document::load("t", "cat\n");
    assert!(doc.find("", &at(0, 0), SearchDirection::Forward).is_none());
    assert!(doc.find("", &at(3, 0), SearchDirection::Backward).is_none());
    assert!(doc.find("cat", &at(0, 1), SearchDirection::Forward).is_none());
    assert!(doc.find("cat", &at(0, 1), SearchDirection::Backward).is_none());
    assert!(Document::default().find("cat", &at(0, 0), SearchDirection::Forward).is_none());
}

#[test]
fn highlight_carries_an_open_comment_from_row_to_row() {
    let mut doc = Document::load("main.rs", "/* start\nmiddle\nend */ 1\nif\n");
    doc.highlight(&None, None);
    assert_eq!(tags(&doc, 0), vec![M; 8]);
    assert_eq!(tags(&doc, 1), vec![M; 6]);
    assert_eq!(tags(&doc, 2), vec![M, M, M, M, M, M, P, N]);
    assert_eq!(tags(&doc, 3), vec![K, K]);
    assert!(!doc.get_row(0).unwrap().is_highlighted());
    assert!(!doc.get_row(1).unwrap().is_highlighted());
    assert!(doc.get_row(2).unwrap().is_highlighted());
    assert!(doc.get_row(3).unwrap().is_highlighted());
    assert!(!doc.is_dirty());
}

#[test]
fn highlight_stops_behind_the_named_row() {
    let mut doc = Document::load("main.rs", "1\n2\n3\n");
    doc.highlight(&None, Some(0));
    assert_eq!(tags(&doc, 0), vec![N]);
    assert_eq!(tags(&doc, 1), vec![]);
    assert_eq!(tags(&doc, 2), vec![]);
    doc.highlight(&None, Some(1));
    assert_eq!(tags(&doc, 1), vec![N]);
    assert_eq!(tags(&doc, 2), vec![]);
    doc.highlight(&None, Some(usize::MAX));
    assert_eq!(tags(&doc, 2), vec![N]);
    let mut empty = Document::default();
    empty.highlight(&None, Some(3));
    assert!(empty.is_empty());
}

#[test]
fn highlight_twice_gives_the_same_categories() {
    for word in [None, Some(String::from("mid")), Some(String::new())] {
        let mut doc = Document::load("main.rs", "let a = 1; /* x\nmiddle \"s\"\n*/ 'c' // mid\n");
        doc.highlight(&word, None);
        let first: Vec<Vec<Type>> = (0..3).map(|y| tags(&doc, y)).collect();
        let settled: Vec<bool> = (0..3).map(|y| doc.get_row(y).unwrap().is_highlighted()).collect();
        doc.highlight(&word, None);
        let second: Vec<Vec<Type>> = (0..3).map(|y| tags(&doc, y)).collect();
        assert_eq!(first, second);
        doc.highlight(&word, Some(1));
        let third: Vec<Vec<Type>> = (0..3).map(|y| tags(&doc, y)).collect();
        assert_eq!(first, third);
        let still: Vec<bool> = (0..3).map(|y| doc.get_row(y).unwrap().is_highlighted()).collect();
        assert_eq!(settled, still);
    }
}

#[test]
fn highlight_after_an_edit_is_what_a_fresh_document_gets() {
    let mut doc = Document::load("main.rs", "x\nif 1\n2 */ 3\n");
    doc.highlight(&None, None);
    assert_eq!(tags(&doc, 1), vec![K, K, P, N]);
    doc.insert(&at(0, 0), '*');
    doc.insert(&at(0, 0), '/');
    doc.highlight(&None, None);
    let mut fresh = Document::load("main.rs", &doc.contents());
    fresh.highlight(&None, None);
    for y in 0..3 {
        assert_eq!(tags(&doc, y), tags(&fresh, y));
    }
    assert_eq!(tags(&doc, 0), vec![M, M, M]);
    assert_eq!(tags(&doc, 1), vec![M, M, M, M]);
    assert_eq!(tags(&doc, 2), vec![M, M, M, M, P, N]);
    doc.delete(&at(1, 0));
    doc.highlight(&None, None);
    assert_eq!(tags(&doc, 0), vec![P, P]);
    assert_eq!(tags(&doc, 1), vec![K, K, P, N]);
    assert_eq!(tags(&doc, 2), vec![N, P, P, P, P, N]);
}

#[test]
fn highlight_after_a_line_break_in_a_comment_delimiter() {
    let mut doc = Document::load("main.rs", "/* a\nb\n");
    doc.highlight(&None, None);
    assert_eq!(tags(&doc, 1), vec![M]);
    doc.insert_newline(&at(1, 0));
    assert_eq!(texts(&doc), vec!["/", "* a", "b"]);
    doc.highlight(&None, None);
    assert_eq!(tags(&doc, 0), vec![P]);
    assert_eq!(tags(&doc, 1), vec![P, P, P]);
    assert_eq!(tags(&doc, 2), vec![P]);
    doc.delete(&at(1, 0));
    assert_eq!(texts(&doc), vec!["/* a", "b"]);
    doc.highlight(&None, None);
    assert_eq!(tags(&doc, 0), vec![M, M, M, M]);
    assert_eq!(tags(&doc, 1), vec![M]);
}

#[test]
fn highlight_marks_the_search_word_and_takes_the_marks_away() {
    let mut doc = Document::load("main.rs", "if cat\ncat 1\n");
    doc.highlight(&None, None);
    assert_eq!(tags(&doc, 0), vec![K, K, P, P, P, P]);
    doc.highlight(&Some(String::from("cat")), None);
    assert_eq!(tags(&doc, 0), vec![K, K, P, F, F, F]);
    assert_eq!(tags(&doc, 1), vec![F, F, F, P, N]);
    doc.highlight(&None, None);
    assert_eq!(tags(&doc, 0), vec![K, K, P, P, P, P]);
    assert_eq!(tags(&doc, 1), vec![P, P, P, P, N]);
}

#[test]
fn an_edit_marks_the_rows_from_its_row_on_as_not_highlighted() {
    let mut doc = Document::load("main.rs", "1\n2\n3\n4\n");
    doc.highlight(&None, None);
    doc.insert(&at(0, 2), 'x');
    let flags: Vec<bool> = (0..4).map(|y| doc.get_row(y).unwrap().is_highlighted()).collect();
    assert_eq!(flags, vec![true, true, false, false]);
    doc.highlight(&None, None);
    doc.delete(&at(0, 2));
    let flags: Vec<bool> = (0..4).map(|y| doc.get_row(y).unwrap().is_highlighted()).collect();
    assert_eq!(flags, vec![true, false, false, false]);
    doc.highlight(&None, None);
    doc.insert_newline(&at(0, 1));
    let flags: Vec<bool> = (0..5).map(|y| doc.get_row(y).unwrap().is_highlighted()).collect();
    assert_eq!(flags, vec![true, false, false, false, false]);
}

#[test]
fn rows_of_a_document_render() {
    let mut doc = Document::load("main.rs", "if\n");
    doc.highlight(&None, None);
    let row: &Row = doc.get_row(0).unwrap();
    assert_eq!(row.render(0, 2), "\u{1b}[38;2;181;137;0mif\u{1b}[39m");
}

use hecto::chars::is_letter_or_digit;
use hecto::clusters::{find_in, insert_at, mark_matches, remove_at, split_at, symbols};
use hecto::editor::{motion_of, move_cursor, prompt_key, scroll, Key, Motion, Request, QUIT_TIMES};
use hecto::Editor;
use hecto::highlighting::Type;
use hecto::render::render_clusters;
use hecto::{Document, Position, SearchDirection};

fn at(x: usize, y: usize) -> Position {
    Position { x, y }
}

fn sample() -> Document {
    Document::load("t", "hello\n\ne\u{301}\u{4e2d}\nlast row\n")
}

fn go(cursor: Position, motion: Motion) -> (usize, usize) {
    let moved = move_cursor(cursor, &sample(), 2, motion);
    (moved.x, moved.y)
}

#[test]
fn letters_and_digits_are_those_of_the_standard_library() {
    for c in '\0'..='\u{2fff}' {
        assert_eq!(is_letter_or_digit(c), c.is_alphanumeric());
    }
    assert!(is_letter_or_digit('\u{e9}'));
    assert!(is_letter_or_digit('\u{4e2d}'));
    assert!(!is_letter_or_digit('\u{2192}'));
    assert!(!is_letter_or_digit('_'));
}

#[test]
fn the_cursor_moves_up_and_down() {
    assert_eq!(go(at(3, 1), Motion::Up), (3, 0));
    assert_eq!(go(at(3, 0), Motion::Up), (3, 0));
    assert_eq!(go(at(3, 0), Motion::Down), (0, 1));
    assert_eq!(go(at(0, 3), Motion::Down), (0, 4));
    assert_eq!(go(at(0, 4), Motion::Down), (0, 4));
    assert_eq!(go(at(5, 3), Motion::Up), (2, 2));
}

#[test]
fn the_cursor_moves_left_and_right_across_rows() {
    assert_eq!(go(at(2, 0), Motion::Left), (1, 0));
    assert_eq!(go(at(0, 0), Motion::Left), (0, 0));
    assert_eq!(go(at(0, 1), Motion::Left), (5, 0));
    assert_eq!(go(at(0, 3), Motion::Left), (2, 2));
    assert_eq!(go(at(4, 0), Motion::Right), (5, 0));
    assert_eq!(go(at(5, 0), Motion::Right), (0, 1));
    assert_eq!(go(at(0, 1), Motion::Right), (0, 2));
    assert_eq!(go(at(8, 3), Motion::Right), (0, 4));
    assert_eq!(go(at(0, 4), Motion::Right), (0, 4));
}

#[test]
fn the_cursor_moves_by_pages() {
    assert_eq!(go(at(1, 3), Motion::PageUp), (0, 1));
    assert_eq!(go(at(1, 2), Motion::PageUp), (1, 0));
    assert_eq!(go(at(1, 0), Motion::PageUp), (1, 0));
    assert_eq!(go(at(1, 0), Motion::PageDown), (1, 2));
    assert_eq!(go(at(3, 1), Motion::PageDown), (3, 3));
    assert_eq!(go(at(1, 2), Motion::PageDown), (0, 4));
    assert_eq!(go(at(0, 4), Motion::PageDown), (0, 4));
}

#[test]
fn the_cursor_moves_to_the_ends_of_its_row() {
    assert_eq!(go(at(3, 0), Motion::Home), (0, 0));
    assert_eq!(go(at(3, 0), Motion::End), (5, 0));
    assert_eq!(go(at(0, 2), Motion::End), (2, 2));
    assert_eq!(go(at(0, 1), Motion::End), (0, 1));
    assert_eq!(go(at(0, 4), Motion::End), (0, 4));
}

#[test]
fn the_cursor_is_brought_back_into_its_row() {
    assert_eq!(go(at(40, 0), Motion::Home), (0, 0));
    assert_eq!(go(at(40, 0), Motion::Up), (5, 0));
    assert_eq!(go(at(40, 9), Motion::Up), (0, 8));
    assert_eq!(go(at(40, 9), Motion::PageDown), (0, 4));
    let empty = Document::default();
    for motion in [
        Motion::Up,
        Motion::Down,
        Motion::Left,
        Motion::Right,
        Motion::PageUp,
        Motion::PageDown,
        Motion::Home,
        Motion::End,
    ] {
        let moved = move_cursor(at(0, 0), &empty, 10, motion);
        assert_eq!((moved.x, moved.y), (0, 0));
    }
}

#[test]
fn the_window_follows_the_cursor() {
    let scrolled = scroll(at(0, 0), at(5, 30), 80, 24);
    assert_eq!((scrolled.x, scrolled.y), (0, 7));
    let scrolled = scroll(at(10, 7), at(5, 3), 80, 24);
    assert_eq!((scrolled.x, scrolled.y), (5, 3));
    let scrolled = scroll(at(10, 7), at(89, 30), 80, 24);
    assert_eq!((scrolled.x, scrolled.y), (10, 7));
    let scrolled = scroll(at(10, 7), at(90, 31), 80, 24);
    assert_eq!((scrolled.x, scrolled.y), (11, 8));
    let scrolled = scroll(at(0, 0), at(0, 0), 80, 24);
    assert_eq!((scrolled.x, scrolled.y), (0, 0));
}

#[test]
fn the_window_follows_the_cursor_at_the_limits() {
    let scrolled = scroll(at(usize::MAX - 3, 0), at(usize::MAX, 0), 10, 1);
    assert_eq!((scrolled.x, scrolled.y), (usize::MAX - 9, 0));
    let scrolled = scroll(at(4, 4), at(4, 9), 0, 0);
    assert_eq!((scrolled.x, scrolled.y), (5, 10));
    let scrolled = scroll(at(0, 0), at(usize::MAX, usize::MAX), 0, 1);
    assert_eq!((scrolled.x, scrolled.y), (usize::MAX, usize::MAX));
}

fn clusters(parts: &[&str]) -> Vec<String> {
    parts.iter().map(|part| part.to_string()).collect()
}

#[test]
fn clusters_are_edited_by_index() {
    let row = clusters(&["a", "e\u{301}", "\u{4e2d}"]);
    assert_eq!(insert_at(&row, 0, 'x'), "xae\u{301}\u{4e2d}");
    assert_eq!(insert_at(&row, 2, 'x'), "ae\u{301}x\u{4e2d}");
    assert_eq!(insert_at(&row, 3, 'x'), "ae\u{301}\u{4e2d}x");
    assert_eq!(insert_at(&row, 9, 'x'), "ae\u{301}\u{4e2d}x");
    assert_eq!(remove_at(&row, 1), "a\u{4e2d}");
    assert_eq!(remove_at(&row, 2), "ae\u{301}");
    assert_eq!(remove_at(&row, 3), "ae\u{301}\u{4e2d}");
    assert_eq!(split_at(&row, 1), ("a".to_string(), "e\u{301}\u{4e2d}".to_string()));
    assert_eq!(split_at(&row, 0), (String::new(), "ae\u{301}\u{4e2d}".to_string()));
    assert_eq!(split_at(&row, 7), ("ae\u{301}\u{4e2d}".to_string(), String::new()));
    assert_eq!(symbols(&row), vec!['a', 'e', '\u{4e2d}']);
    assert_eq!(insert_at(&Vec::new(), 0, 'x'), "x");
}

#[test]
fn clusters_are_searched_by_index() {
    let row = clusters(&["\u{e9}", "c", "a", "t", "e\u{301}", "c", "a", "t"]);
    assert_eq!(find_in(&row, "cat", 0, SearchDirection::Forward), Some(1));
    assert_eq!(find_in(&row, "cat", 2, SearchDirection::Forward), Some(5));
    assert_eq!(find_in(&row, "cat", 8, SearchDirection::Backward), Some(5));
    assert_eq!(find_in(&row, "cat", 7, SearchDirection::Backward), Some(1));
    assert_eq!(find_in(&row, "\u{301}c", 0, SearchDirection::Forward), None);
    assert_eq!(find_in(&row, "cat", 9, SearchDirection::Forward), None);
    assert_eq!(find_in(&row, "", 0, SearchDirection::Forward), None);
}

#[test]
fn matches_are_marked_by_cluster() {
    let row = clusters(&["a", "b", "a", "b", "a"]);
    let mut tags = vec![Type::Plain; 5];
    mark_matches(&mut tags, &row, "ab", 2);
    assert_eq!(tags, vec![Type::Match, Type::Match, Type::Match, Type::Match, Type::Plain]);
    let mut tags = vec![Type::Number; 5];
    mark_matches(&mut tags, &row, "ba", 3);
    assert_eq!(tags, vec![Type::Number, Type::Match, Type::Match, Type::Match, Type::Number]);
    let mut tags = vec![Type::Number; 5];
    mark_matches(&mut tags, &row, "a", 9);
    assert_eq!(tags, vec![Type::Match; 5]);
    let mut tags = vec![Type::Number; 5];
    mark_matches(&mut tags, &row, "a", 0);
    assert_eq!(tags, vec![Type::Number; 5]);
}

#[test]
fn clusters_are_drawn_with_their_colours() {
    let row = clusters(&["a", "\t", "1", "e\u{301}"]);
    let tags = [Type::Plain, Type::Plain, Type::Number];
    assert_eq!(
        render_clusters(&row, &tags, 0, 4),
        "a \u{1b}[38;2;220;163;163m1\u{1b}[38;2;255;255;255me\u{301}\u{1b}[39m"
    );
    assert_eq!(render_clusters(&row, &tags, 2, 3), "\u{1b}[38;2;220;163;163m1\u{1b}[39m");
    assert_eq!(render_clusters(&row, &tags, 3, 2), "\u{1b}[39m");
    assert_eq!(render_clusters(&row, &[], 0, 9), "a 1e\u{301}");
    assert_eq!(render_clusters(&row, &[], 3, 2), "");
    let odd = clusters(&["\t\u{301}", "", "x"]);
    assert_eq!(render_clusters(&odd, &[], 0, 3), "\t\u{301}x");
}

fn editor(text: &str, x: usize, y: usize) -> Editor {
    let mut editor = Editor::new(Document::load("t", text));
    editor.cursor_position = at(x, y);
    editor
}

fn rows(editor: &Editor) -> Vec<String> {
    let doc = &editor.document;
    (0..doc.len()).map(|y| doc.get_row(y).unwrap().as_str().to_string()).collect()
}

#[test]
fn a_new_editor_starts_at_the_top() {
    let editor = Editor::new(Document::load("t", "ab\n"));
    assert!(!editor.should_quit);
    assert_eq!(editor.cursor_position, at(0, 0));
    assert_eq!(editor.offset, at(0, 0));
    assert_eq!(editor.quit_times, QUIT_TIMES);
    assert_eq!(editor.highlighted_word, None);
    assert_eq!(rows(&editor), vec!["ab"]);
}

#[test]
fn a_character_is_inserted_and_the_cursor_moves_right() {
    let mut editor = editor("ab\ncd\n", 1, 0);
    assert_eq!(editor.process_keypress(Key::Char('x'), 10), Request::Nothing);
    assert_eq!(rows(&editor), vec!["axb", "cd"]);
    assert_eq!(editor.cursor_position, at(2, 0));
    assert_eq!(editor.process_keypress(Key::Char('\n'), 10), Request::Nothing);
    assert_eq!(rows(&editor), vec!["ax", "b", "cd"]);
    assert_eq!(editor.cursor_position, at(0, 1));
    assert!(editor.document.is_dirty());
    assert!(!editor.should_quit);
}

#[test]
fn delete_and_backspace() {
    let mut first = editor("ab\ncd\n", 1, 0);
    assert_eq!(first.process_keypress(Key::Delete, 10), Request::Nothing);
    assert_eq!(rows(&first), vec!["a", "cd"]);
    assert_eq!(first.cursor_position, at(1, 0));
    first.process_keypress(Key::Delete, 10);
    assert_eq!(rows(&first), vec!["acd"]);
    first.process_keypress(Key::Backspace, 10);
    assert_eq!(rows(&first), vec!["cd"]);
    assert_eq!(first.cursor_position, at(0, 0));
    let mut clean = editor("cd\n", 0, 0);
    clean.process_keypress(Key::Backspace, 10);
    assert_eq!(rows(&clean), vec!["cd"]);
    assert!(!clean.document.is_dirty());
    let mut second = editor("ab\ncd\n", 0, 1);
    second.process_keypress(Key::Backspace, 10);
    assert_eq!(rows(&second), vec!["abcd"]);
    assert_eq!(second.cursor_position, at(2, 0));
}

#[test]
fn keys_move_the_cursor() {
    let mut editor = editor("ab\ncd\n", 2, 0);
    assert_eq!(editor.process_keypress(Key::Right, 10), Request::Nothing);
    assert_eq!(editor.cursor_position, at(0, 1));
    editor.process_keypress(Key::End, 10);
    assert_eq!(editor.cursor_position, at(2, 1));
    editor.process_keypress(Key::PageUp, 10);
    assert_eq!(editor.cursor_position, at(2, 0));
    editor.process_keypress(Key::Other, 10);
    editor.process_keypress(Key::Esc, 10);
    editor.process_keypress(Key::Ctrl('x'), 10);
    assert_eq!(editor.cursor_position, at(2, 0));
    assert!(!editor.document.is_dirty());
    editor.move_cursor(Motion::Down, 10);
    assert_eq!(editor.cursor_position, at(2, 1));
    assert_eq!(motion_of(Key::Up), Some(Motion::Up));
    assert_eq!(motion_of(Key::Down), Some(Motion::Down));
    assert_eq!(motion_of(Key::Left), Some(Motion::Left));
    assert_eq!(motion_of(Key::Right), Some(Motion::Right));
    assert_eq!(motion_of(Key::Home), Some(Motion::Home));
    assert_eq!(motion_of(Key::End), Some(Motion::End));
    assert_eq!(motion_of(Key::PageUp), Some(Motion::PageUp));
    assert_eq!(motion_of(Key::PageDown), Some(Motion::PageDown));
    assert_eq!(motion_of(Key::Char('a')), None);
    assert_eq!(motion_of(Key::Delete), None);
}

#[test]
fn quitting_a_changed_document_takes_four_presses() {
    assert_eq!(QUIT_TIMES, 3);
    let mut changed = editor("ab\n", 0, 0);
    changed.process_keypress(Key::Char('x'), 10);
    assert_eq!(changed.process_keypress(Key::Ctrl('q'), 10), Request::Warn(3));
    assert_eq!(changed.process_keypress(Key::Ctrl('q'), 10), Request::Warn(2));
    assert_eq!(changed.process_keypress(Key::Ctrl('q'), 10), Request::Warn(1));
    assert!(!changed.should_quit);
    assert_eq!(changed.quit_times, 0);
    assert_eq!(changed.process_keypress(Key::Ctrl('q'), 10), Request::Nothing);
    assert!(changed.should_quit);
    let mut clean = editor("ab\n", 0, 0);
    assert_eq!(clean.process_keypress(Key::Ctrl('q'), 10), Request::Nothing);
    assert!(clean.should_quit);
}

#[test]
fn another_key_sets_the_count_back() {
    let mut editor = editor("ab\n", 0, 0);
    editor.process_keypress(Key::Char('x'), 10);
    assert_eq!(editor.process_keypress(Key::Ctrl('q'), 10), Request::Warn(3));
    assert_eq!(editor.process_keypress(Key::Ctrl('q'), 10), Request::Warn(2));
    assert_eq!(editor.process_keypress(Key::Left, 10), Request::Nothing);
    assert!(editor.settle(80, 24));
    assert_eq!(editor.quit_times, 3);
    assert!(!editor.settle(80, 24));
    assert_eq!(editor.process_keypress(Key::Ctrl('q'), 10), Request::Warn(3));
}

#[test]
fn saving_and_searching_are_asked_for() {
    let mut editor = editor("ab\n", 1, 0);
    assert_eq!(editor.process_keypress(Key::Ctrl('s'), 10), Request::Save);
    assert_eq!(editor.process_keypress(Key::Ctrl('f'), 10), Request::Search);
    assert_eq!(editor.cursor_position, at(1, 0));
    assert_eq!(editor.quit_times, 3);
    assert!(!editor.should_quit);
    assert!(!editor.document.is_dirty());
}

#[test]
fn settle_scrolls_to_the_cursor() {
    let mut editor = editor("ab\n", 100, 50);
    assert!(!editor.settle(80, 24));
    assert_eq!(editor.offset, at(21, 27));
    assert_eq!(editor.cursor_position, at(100, 50));
    editor.cursor_position = at(3, 4);
    editor.scroll(80, 24);
    assert_eq!(editor.offset, at(3, 4));
}

#[test]
fn a_search_goes_on_from_the_cursor() {
    let mut editor = editor("a cat\nno\ncat cat\n", 0, 0);
    editor.search_step(Key::Char('t'), "cat", 80, 24);
    assert_eq!(editor.cursor_position, at(2, 0));
    assert_eq!(editor.highlighted_word, Some(String::from("cat")));
    editor.search_step(Key::Char('t'), "cat", 80, 24);
    assert_eq!(editor.cursor_position, at(2, 0));
    editor.search_step(Key::Right, "cat", 80, 24);
    assert_eq!(editor.cursor_position, at(0, 2));
    editor.search_step(Key::Down, "cat", 80, 24);
    assert_eq!(editor.cursor_position, at(4, 2));
    editor.search_step(Key::Down, "cat", 80, 24);
    assert_eq!(editor.cursor_position, at(4, 2));
    editor.search_step(Key::Left, "cat", 80, 24);
    assert_eq!(editor.cursor_position, at(0, 2));
    editor.search_step(Key::Up, "cat", 80, 24);
    assert_eq!(editor.cursor_position, at(2, 0));
    editor.search_step(Key::Up, "cat", 80, 24);
    assert_eq!(editor.cursor_position, at(2, 0));
    editor.search_step(Key::Right, "ca", 80, 1);
    assert_eq!(editor.cursor_position, at(0, 2));
    assert_eq!(editor.offset, at(0, 2));
    assert_eq!(editor.highlighted_word, Some(String::from("ca")));
}

#[test]
fn a_search_ends() {
    let mut found = editor("a cat\nno\ncat cat\n", 0, 0);
    found.search_step(Key::Right, "no", 80, 1);
    assert_eq!(found.cursor_position, at(0, 1));
    assert_eq!(found.offset, at(0, 1));
    found.end_search(at(0, 0), false, 80, 1);
    assert_eq!(found.cursor_position, at(0, 1));
    assert_eq!(found.offset, at(0, 1));
    assert_eq!(found.highlighted_word, None);
    found.search_step(Key::Right, "cat", 80, 1);
    assert_eq!(found.cursor_position, at(0, 2));
    found.end_search(at(0, 1), true, 80, 1);
    assert_eq!(found.cursor_position, at(0, 1));
    assert_eq!(found.offset, at(0, 1));
    assert_eq!(found.highlighted_word, None);
}

#[test]
fn the_rows_in_the_window_are_highlighted() {
    let mut editor = Editor::new(Document::load("main.rs", "1\n2\n3\n4\n5\n"));
    editor.highlight(2);
    let lengths: Vec<usize> =
        (0..5).map(|y| editor.document.get_row(y).unwrap().highlighting().len()).collect();
    assert_eq!(lengths, vec![1, 1, 1, 0, 0]);
    editor.offset = at(0, 1);
    editor.highlighted_word = Some(String::from("4"));
    editor.highlight(2);
    let tags: Vec<Vec<Type>> =
        (0..5).map(|y| editor.document.get_row(y).unwrap().highlighting().clone()).collect();
    assert_eq!(
        tags,
        vec![vec![Type::Number], vec![Type::Number], vec![Type::Number], vec![Type::Match], vec![]]
    );
    editor.offset = at(0, usize::MAX);
    editor.highlight(2);
    assert_eq!(editor.document.get_row(4).unwrap().highlighting(), &vec![Type::Number]);
}

#[test]
fn a_prompt_takes_characters() {
    let mut text = String::new();
    assert!(!prompt_key(&mut text, Key::Char('a')));
    assert!(!prompt_key(&mut text, Key::Char('\u{e9}')));
    assert!(!prompt_key(&mut text, Key::Char('\t')));
    assert!(!prompt_key(&mut text, Key::Char('\u{7f}')));
    assert!(!prompt_key(&mut text, Key::Char('\u{85}')));
    assert!(!prompt_key(&mut text, Key::Left));
    assert_eq!(text, "a\u{e9}");
    assert!(!prompt_key(&mut text, Key::Backspace));
    assert_eq!(text, "a");
    assert!(prompt_key(&mut text, Key::Char('\n')));
    assert_eq!(text, "a");
    assert!(!prompt_key(&mut text, Key::Backspace));
    assert!(!prompt_key(&mut text, Key::Backspace));
    assert_eq!(text, "");
    text.push_str("abc");
    assert!(prompt_key(&mut text, Key::Esc));
    assert_eq!(text, "");
}

#[test]
fn control_characters_are_those_of_the_standard_library() {
    for c in '\0'..='\u{2ff}' {
        assert_eq!(hecto::chars::is_control(c), c.is_control());
    }
}

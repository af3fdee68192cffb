use kilo_ed_rust::editor::{Editor, EditorKey, SearchDirection};
use kilo_ed_rust::keypress::KeyAction;
use kilo_ed_rust::keys::{KeyCode, KeyEvent, KeyModifiers, Prompt, PromptKey, PromptOutcome};
use kilo_ed_rust::status::status_bar_line;
use kilo_ed_rust::CursorPos;

fn editor(lines: &[&str]) -> Editor {
    let lines: Vec<String> = lines.iter().map(|s| s.to_string()).collect();
    Editor::build(&lines, String::new(), 80, 24)
}

fn rows(e: &Editor) -> Vec<String> {
    (0..e.num_rows()).map(|i| e.row_text(i)).collect()
}

fn at(x: u16, y: u16) -> CursorPos {
    CursorPos { x, y }
}

fn key(code: KeyCode) -> KeyEvent {
    KeyEvent::new(code, KeyModifiers::none())
}

fn ctrl(c: char) -> KeyEvent {
    KeyEvent::new(KeyCode::Char(c), KeyModifiers::control())
}

#[test]
fn enter_at_end_of_row_adds_empty_row() {
    let mut e = editor(&["abc", "de"]);
    for _ in 0..3 {
        e.move_cursor(EditorKey::ArrowRight);
    }
    assert_eq!(e.cursor(), at(3, 0));
    e.insert_new_line();
    assert_eq!(rows(&e), vec!["abc", "", "de"]);
    assert_eq!(e.cursor(), at(0, 1));
    assert_eq!(e.dirty(), 1);
}

#[test]
fn enter_in_middle_splits_row() {
    let mut e = editor(&["abc"]);
    e.move_cursor(EditorKey::ArrowRight);
    e.insert_new_line();
    assert_eq!(rows(&e), vec!["a", "bc"]);
    assert_eq!(e.cursor(), at(0, 1));
}

#[test]
fn enter_at_column_zero_inserts_row_above() {
    let mut e = editor(&["abc"]);
    e.insert_new_line();
    assert_eq!(rows(&e), vec!["", "abc"]);
    assert_eq!(e.cursor(), at(0, 1));
}

#[test]
fn backspace_at_start_of_buffer_is_noop() {
    let mut e = editor(&["ab"]);
    e.editor_del_char();
    assert_eq!(rows(&e), vec!["ab"]);
    assert_eq!(e.cursor(), at(0, 0));
    assert_eq!(e.dirty(), 0);
}

#[test]
fn backspace_at_row_start_joins_rows() {
    let mut e = editor(&["hello", "world"]);
    e.move_cursor(EditorKey::ArrowDown);
    assert_eq!(e.cursor(), at(0, 1));
    e.editor_del_char();
    assert_eq!(rows(&e), vec!["helloworld"]);
    assert_eq!(e.cursor(), at(5, 0));
    assert_eq!(e.dirty(), 2);
}

#[test]
fn backspace_inside_row_deletes_char() {
    let mut e = editor(&["abc"]);
    e.move_cursor(EditorKey::ArrowRight);
    e.move_cursor(EditorKey::ArrowRight);
    e.editor_del_char();
    assert_eq!(rows(&e), vec!["ac"]);
    assert_eq!(e.cursor(), at(1, 0));
}

#[test]
fn backspace_past_last_row_is_noop() {
    let mut e = editor(&["ab"]);
    e.move_cursor(EditorKey::ArrowDown);
    assert_eq!(e.cursor(), at(0, 1));
    e.editor_del_char();
    assert_eq!(rows(&e), vec!["ab"]);
    assert_eq!(e.cursor(), at(0, 1));
}

#[test]
fn typing_past_last_row_creates_row() {
    let mut e = Editor::new(80, 24);
    e.editor_insert_char('x');
    assert_eq!(rows(&e), vec!["x"]);
    assert_eq!(e.cursor(), at(1, 0));
    assert_eq!(e.dirty(), 2);
}

#[test]
fn build_drops_trailing_empty_line() {
    let e = editor(&["a", "b", ""]);
    assert_eq!(rows(&e), vec!["a", "b"]);
    let f = editor(&["a", "", "b"]);
    assert_eq!(rows(&f), vec!["a", "", "b"]);
    assert_eq!(e.dirty(), 0);
}

#[test]
fn vertical_moves_clamp_column() {
    let mut e = editor(&["long line", "ab", ""]);
    for _ in 0..9 {
        e.move_cursor(EditorKey::ArrowRight);
    }
    assert_eq!(e.cursor(), at(9, 0));
    e.move_cursor(EditorKey::ArrowDown);
    assert_eq!(e.cursor(), at(2, 1));
    e.move_cursor(EditorKey::ArrowDown);
    assert_eq!(e.cursor(), at(0, 2));
    e.move_cursor(EditorKey::ArrowDown);
    assert_eq!(e.cursor(), at(0, 2));
}

#[test]
fn moves_wrap_at_row_edges() {
    let mut e = editor(&["ab", "cd"]);
    e.move_cursor(EditorKey::ArrowLeft);
    assert_eq!(e.cursor(), at(0, 0));
    e.move_cursor(EditorKey::ArrowRight);
    e.move_cursor(EditorKey::ArrowRight);
    e.move_cursor(EditorKey::ArrowRight);
    assert_eq!(e.cursor(), at(0, 1));
    e.move_cursor(EditorKey::ArrowLeft);
    assert_eq!(e.cursor(), at(2, 0));
    e.move_cursor(EditorKey::ArrowUp);
    assert_eq!(e.cursor(), at(2, 0));
}

#[test]
fn any_sequence_of_moves_keeps_cursor_in_row() {
    let mut e = editor(&["a\tbc", "", "xyzzy", "q"]);
    let keys = [
        EditorKey::ArrowRight,
        EditorKey::ArrowDown,
        EditorKey::ArrowRight,
        EditorKey::ArrowDown,
        EditorKey::ArrowRight,
        EditorKey::ArrowRight,
        EditorKey::ArrowRight,
        EditorKey::ArrowDown,
        EditorKey::ArrowDown,
        EditorKey::ArrowDown,
        EditorKey::ArrowLeft,
        EditorKey::ArrowUp,
        EditorKey::ArrowUp,
        EditorKey::ArrowRight,
    ];
    for k in keys.iter() {
        e.move_cursor(*k);
        let c = e.cursor();
        let n = e.num_rows();
        assert!(c.y as usize <= n);
        if (c.y as usize) < n {
            assert!(c.x as usize <= e.row_text(c.y as usize).chars().count());
        } else {
            assert_eq!(c.x, 0);
        }
    }
}

#[test]
fn scroll_keeps_cursor_row_in_pane() {
    let lines: Vec<String> = (0..50).map(|i| format!("line {}", i)).collect();
    let mut e = Editor::build(&lines, String::new(), 80, 10);
    for _ in 0..30 {
        e.move_cursor(EditorKey::ArrowDown);
    }
    e.scroll();
    let y = e.cursor().y;
    assert!(e.rowoff() <= y && y < e.rowoff() + 10);
    assert_eq!(e.rowoff(), 21);
    for _ in 0..25 {
        e.move_cursor(EditorKey::ArrowUp);
    }
    e.scroll();
    assert_eq!(e.rowoff(), 5);
}

#[test]
fn scroll_moves_column_offset() {
    let mut e = Editor::build(&vec!["\t\t\tabc".to_string()], String::new(), 10, 5);
    for _ in 0..4 {
        e.move_cursor(EditorKey::ArrowRight);
    }
    e.scroll();
    assert_eq!(e.render_x(), 25);
    assert_eq!(e.coloff(), 16);
    assert_eq!(e.screen_cursor(), at(9, 0));
}

#[test]
fn search_forward_then_back_returns_to_match() {
    let mut e = editor(&["foo x", "bar", "x foo", "foo"]);
    e.find_callback("foo", PromptKey::Char('o'));
    assert_eq!(e.cursor(), at(0, 0));
    assert_eq!(e.last_match(), Some(0));
    e.find_callback("foo", PromptKey::Next);
    assert_eq!(e.cursor(), at(2, 2));
    e.find_callback("foo", PromptKey::Prev);
    assert_eq!(e.cursor(), at(0, 0));
    assert_eq!(e.direction(), SearchDirection::Backward);
    e.find_callback("foo", PromptKey::Prev);
    assert_eq!(e.cursor(), at(0, 3));
}

#[test]
fn search_single_row_single_match() {
    let mut e = editor(&["abc"]);
    e.find_callback("c", PromptKey::Char('c'));
    assert_eq!(e.cursor(), at(2, 0));
    e.find_callback("c", PromptKey::Next);
    assert_eq!(e.cursor(), at(2, 0));
    e.find_callback("c", PromptKey::Prev);
    assert_eq!(e.cursor(), at(2, 0));
    assert_eq!(e.last_match(), Some(0));
}

#[test]
fn search_sets_row_offset_past_end() {
    let mut e = editor(&["a", "b", "needle"]);
    e.find_callback("needle", PromptKey::Char('e'));
    assert_eq!(e.cursor(), at(0, 2));
    assert_eq!(e.rowoff(), 3);
    e.scroll();
    assert_eq!(e.rowoff(), 2);
}

#[test]
fn search_empty_query_and_missing_text_do_not_move() {
    let mut e = editor(&["abc", "def"]);
    e.move_cursor(EditorKey::ArrowRight);
    e.find_callback("", PromptKey::Next);
    assert_eq!(e.cursor(), at(1, 0));
    e.find_callback("zzz", PromptKey::Char('z'));
    assert_eq!(e.cursor(), at(1, 0));
    assert_eq!(e.last_match(), None);
}

#[test]
fn search_confirm_resets_and_keeps_cursor() {
    let mut e = editor(&["xa", "ya"]);
    e.find_callback("a", PromptKey::Char('a'));
    e.find_callback("a", PromptKey::Next);
    assert_eq!(e.cursor(), at(1, 1));
    e.find_callback("a", PromptKey::Enter);
    assert_eq!(e.cursor(), at(1, 1));
    assert_eq!(e.last_match(), None);
    assert_eq!(e.direction(), SearchDirection::Forward);
}

#[test]
fn search_cancel_restores_view() {
    let mut e = editor(&["one", "two", "three"]);
    e.move_cursor(EditorKey::ArrowRight);
    let saved = e.save_view();
    e.find_callback("three", PromptKey::Char('t'));
    assert_eq!(e.cursor(), at(0, 2));
    e.find_callback("three", PromptKey::Escape);
    e.restore_view(saved);
    assert_eq!(e.cursor(), at(1, 0));
    assert_eq!(e.rowoff(), 0);
}

#[test]
fn serialize_adds_newline_after_each_row() {
    let e = editor(&["ab", "", "c"]);
    assert_eq!(e.row_to_string(), "ab\n\nc\n");
    assert_eq!(Editor::new(80, 24).row_to_string(), "");
}

#[test]
fn percent_labels() {
    let e = Editor::new(80, 24);
    assert_eq!(e.calc_percent(), "0,0        All");
    let lines: Vec<String> = (0..100).map(|i| i.to_string()).collect();
    let mut f = Editor::build(&lines, String::new(), 80, 24);
    assert_eq!(f.calc_percent(), "0,0      TOP");
    for _ in 0..50 {
        f.move_cursor(EditorKey::ArrowDown);
    }
    f.move_cursor(EditorKey::ArrowRight);
    assert_eq!(f.calc_percent(), "50,1      50%");
    for _ in 0..49 {
        f.move_cursor(EditorKey::ArrowDown);
    }
    assert_eq!(f.calc_percent(), "99,1      BOT");
}

#[test]
fn file_label_pads_name() {
    let mut e = editor(&["a", "b"]);
    assert_eq!(e.file_label(), "[No Name]             - 2 lines");
    e.set_filename("notes.txt".to_string());
    e.editor_insert_char('x');
    assert_eq!(e.file_label(), "notes.txt            (modified) - 2 lines");
    e.mark_saved();
    assert_eq!(e.dirty(), 0);
}

#[test]
fn status_bar_right_aligns() {
    assert_eq!(status_bar_line("ab", "cd", 8), "ab    cd");
    assert_eq!(status_bar_line("ab", "toolong", 8), "ab      ");
    assert_eq!(status_bar_line("abcdefghij", "cd", 8), "abcdefghij");
    assert_eq!(status_bar_line("ab", "", 4), "ab  ");
}

#[test]
fn draw_rows_shows_tildes_and_welcome() {
    let e = Editor::new(20, 6);
    let lines = e.draw_rows("Kilo 1.0");
    assert_eq!(lines.len(), 6);
    assert_eq!(lines[0], "~");
    assert_eq!(lines[2], "~     Kilo 1.0");
    assert_eq!(lines[5], "~");
}

#[test]
fn draw_rows_cuts_rows_to_pane() {
    let mut e = Editor::build(&vec!["a\tb".to_string(), "0123456789abc".to_string()], String::new(), 5, 3);
    assert_eq!(e.draw_rows(""), vec!["a    ", "01234", "~"]);
    e.move_cursor(EditorKey::ArrowDown);
    for _ in 0..9 {
        e.move_cursor(EditorKey::ArrowRight);
    }
    e.scroll();
    assert_eq!(e.coloff(), 5);
    assert_eq!(e.draw_rows(""), vec!["   b", "56789", "~"]);
}

#[test]
fn ctrl_q_warns_while_unsaved() {
    let mut e = editor(&["a"]);
    e.editor_insert_char('b');
    assert_eq!(e.process_keypress(ctrl('q')), KeyAction::QuitWarning(3));
    assert_eq!(e.process_keypress(ctrl('q')), KeyAction::QuitWarning(2));
    assert_eq!(e.process_keypress(ctrl('q')), KeyAction::QuitWarning(1));
    assert_eq!(e.process_keypress(ctrl('q')), KeyAction::Quit);
}

#[test]
fn other_key_resets_quit_warnings() {
    let mut e = editor(&["a"]);
    e.editor_insert_char('b');
    assert_eq!(e.process_keypress(ctrl('q')), KeyAction::QuitWarning(3));
    assert_eq!(e.process_keypress(key(KeyCode::Home)), KeyAction::Continue);
    assert_eq!(e.process_keypress(ctrl('q')), KeyAction::QuitWarning(3));
    let mut clean = editor(&["a"]);
    assert_eq!(clean.process_keypress(ctrl('q')), KeyAction::Quit);
}

#[test]
fn keypress_edits_and_actions() {
    let mut e = editor(&["ab"]);
    assert_eq!(e.process_keypress(key(KeyCode::End)), KeyAction::Continue);
    assert_eq!(e.cursor(), at(2, 0));
    e.process_keypress(KeyEvent::new(KeyCode::Char('C'), KeyModifiers::shift()));
    assert_eq!(rows(&e), vec!["abC"]);
    e.process_keypress(key(KeyCode::Backspace));
    assert_eq!(rows(&e), vec!["ab"]);
    e.process_keypress(key(KeyCode::Home));
    e.process_keypress(key(KeyCode::Delete));
    assert_eq!(rows(&e), vec!["b"]);
    e.process_keypress(ctrl('h'));
    assert_eq!(rows(&e), vec!["b"]);
    e.process_keypress(key(KeyCode::Enter));
    assert_eq!(rows(&e), vec!["", "b"]);
    assert_eq!(e.process_keypress(ctrl('s')), KeyAction::Save);
    assert_eq!(e.process_keypress(ctrl('f')), KeyAction::Find);
    let before = rows(&e);
    e.process_keypress(KeyEvent::new(KeyCode::Char('z'), KeyModifiers { shift: false, control: false, alt: true }));
    assert_eq!(rows(&e), before);
}

#[test]
fn page_down_and_up() {
    let lines: Vec<String> = (0..30).map(|i| i.to_string()).collect();
    let mut e = Editor::build(&lines, String::new(), 80, 10);
    e.process_keypress(key(KeyCode::PageDown));
    assert_eq!(e.cursor().y, 19);
    e.scroll();
    assert_eq!(e.rowoff(), 10);
    e.process_keypress(key(KeyCode::PageUp));
    assert_eq!(e.cursor().y, 0);
}

#[test]
fn prompt_collects_text() {
    let mut p = Prompt::new();
    let step = p.handle_key(key(KeyCode::Char('a')));
    assert_eq!(step.event, Some(PromptKey::Char('a')));
    assert_eq!(step.outcome, PromptOutcome::Pending);
    p.handle_key(key(KeyCode::Char('b')));
    p.handle_key(key(KeyCode::Backspace));
    p.handle_key(KeyEvent::new(KeyCode::Char('c'), KeyModifiers::shift()));
    assert_eq!(p.text(), "ac");
    assert_eq!(p.handle_key(ctrl('h')).event, None);
    assert_eq!(p.text(), "a");
    assert_eq!(p.handle_key(key(KeyCode::Down)).event, Some(PromptKey::Next));
    assert_eq!(p.handle_key(key(KeyCode::Left)).event, Some(PromptKey::Prev));
    let done = p.handle_key(key(KeyCode::Enter));
    assert_eq!(done.outcome, PromptOutcome::Confirmed);
    assert_eq!(p.handle_key(key(KeyCode::Esc)).outcome, PromptOutcome::Cancelled);
}

#[test]
fn search_previous_without_match_starts_at_last_row() {
    let mut e = editor(&["foo", "bar", "a foo", "baz"]);
    e.find_callback("foo", PromptKey::Prev);
    assert_eq!(e.cursor(), at(2, 2));
    assert_eq!(e.last_match(), Some(2));
    assert_eq!(e.direction(), SearchDirection::Backward);
    e.find_callback("foo", PromptKey::Prev);
    assert_eq!(e.cursor(), at(0, 0));
}

#[test]
fn search_next_without_match_starts_at_first_row() {
    let mut e = editor(&["foo", "bar", "a foo"]);
    e.find_callback("foo", PromptKey::Next);
    assert_eq!(e.cursor(), at(0, 0));
    assert_eq!(e.direction(), SearchDirection::Forward);
}

#[test]
fn search_miss_keeps_last_match_past_end() {
    let mut e = editor(&["a", "b"]);
    e.find_callback("b", PromptKey::Char('b'));
    assert_eq!(e.last_match(), Some(1));
    assert_eq!(e.cursor(), at(0, 1));
    e.find_callback("b", PromptKey::Enter);
    e.find_callback("b", PromptKey::Char('b'));
    e.editor_del_char();
    assert_eq!(rows(&e), vec!["ab"]);
    assert_eq!(e.last_match(), Some(1));
    e.find_callback("z", PromptKey::Next);
    assert_eq!(e.last_match(), Some(1));
    assert_eq!(e.cursor(), at(1, 0));
    e.find_callback("b", PromptKey::Next);
    assert_eq!(e.last_match(), Some(0));
    assert_eq!(e.cursor(), at(1, 0));
}

use kilo_ed_rust::row::Row;

fn text(v: &[char]) -> String {
    v.iter().collect()
}

#[test]
fn render_expands_tab_to_next_stop() {
    let row = Row::new("a\tb".to_string());
    assert_eq!(text(&row.render), "a       b");
    assert_eq!(row.render_length(), 9);
    assert_eq!(row.len(), 3);
}

#[test]
fn render_row_of_str() {
    assert_eq!(Row::render_row("a\tb"), "a       b");
    assert_eq!(Row::render_row("\t"), "        ");
    assert_eq!(Row::render_row("abcdefgh\tx"), "abcdefgh        x");
    assert_eq!(Row::render_row(""), "");
}

#[test]
fn render_without_tabs_keeps_length() {
    let row = Row::new("hello".to_string());
    assert_eq!(row.render_length(), row.len());
    let tabbed = Row::new("x\ty".to_string());
    assert!(tabbed.render_length() > tabbed.len());
}

#[test]
fn tab_at_last_column_before_stop_is_one_space() {
    let row = Row::new("abcdefg\t".to_string());
    assert_eq!(row.render_length(), 8);
    assert_eq!(row.len(), 8);
}

#[test]
fn insert_then_delete_round_trip() {
    let mut row = Row::new("ab\tc".to_string());
    let before_chars = row.characters.clone();
    let before_render = row.render.clone();
    row.row_insert_char(1, 'x');
    assert_eq!(text(&row.characters), "axb\tc");
    assert!(row.del_char(1));
    assert_eq!(row.characters, before_chars);
    assert_eq!(row.render, before_render);
}

#[test]
fn insert_past_end_appends() {
    let mut row = Row::new("ab".to_string());
    row.row_insert_char(10, 'z');
    assert_eq!(text(&row.characters), "abz");
    assert!(row.del_char(2));
    assert_eq!(text(&row.characters), "ab");
}

#[test]
fn delete_past_end_is_noop() {
    let mut row = Row::new("ab".to_string());
    assert!(!row.del_char(2));
    assert_eq!(text(&row.characters), "ab");
}

#[test]
fn render_column_is_monotonic() {
    let row = Row::new("a\tb\tc".to_string());
    let cols: Vec<u16> = (0..8).map(|cx| row.cursorx_to_renderx(cx)).collect();
    assert_eq!(cols, vec![0, 1, 8, 9, 16, 17, 17, 17]);
    for w in cols.windows(2) {
        assert!(w[0] <= w[1]);
    }
}

#[test]
fn split_keeps_prefix_and_returns_rest() {
    let mut row = Row::new("hello\tworld".to_string());
    let rest = row.rowsplit(5);
    assert_eq!(rest, "\tworld");
    assert_eq!(text(&row.characters), "hello");
    assert_eq!(text(&row.render), "hello");
}

#[test]
fn append_recomputes_render() {
    let mut row = Row::new("ab".to_string());
    row.append_string("\tc");
    assert_eq!(text(&row.characters), "ab\tc");
    assert_eq!(text(&row.render), "ab      c");
}

#[test]
fn multibyte_characters_count_once() {
    let mut row = Row::new("héllo".to_string());
    assert_eq!(row.len(), 5);
    row.row_insert_char(2, 'ü');
    assert_eq!(text(&row.characters), "héüllo");
    assert_eq!(row.cursorx_to_renderx(3), 3);
}

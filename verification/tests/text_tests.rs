use bookie::text_input::TextInput;

#[test]
fn new_field_puts_cursor_after_last_grapheme() {
    let t = TextInput::new("abc".to_string());
    assert_eq!(t.text, "abc");
    assert_eq!(t.cursor, 3);
    assert!(!t.multiline);
}

#[test]
fn cursor_counts_grapheme_clusters_not_code_points() {
    // "e" + combining acute is one user-perceived character of two chars.
    let t = TextInput::new("e\u{301}x".to_string());
    assert_eq!(t.text.chars().count(), 3);
    assert_eq!(t.cursor, 2);
    // Two regional-indicator flags: four chars, two clusters.
    let t = TextInput::new("\u{1F1F7}\u{1F1FA}\u{1F1F8}\u{1F1F9}".to_string());
    assert_eq!(t.cursor, 2);
}

#[test]
fn insert_char_enters_at_the_cursor() {
    let mut t = TextInput::new("ab".to_string());
    t.move_cursor_left();
    t.insert_char('x');
    assert_eq!(t.text, "axb");
    assert_eq!(t.cursor, 2);
    t.insert_char('y');
    assert_eq!(t.text, "axyb");
    assert_eq!(t.cursor, 3);
}

#[test]
fn insert_respects_grapheme_boundaries() {
    let mut t = TextInput::new("e\u{301}b".to_string());
    // Cursor 2 = end; step left once: between the cluster and 'b'.
    t.move_cursor_left();
    t.insert_char('x');
    assert_eq!(t.text, "e\u{301}xb");
    assert_eq!(t.cursor, 2);
}

#[test]
fn delete_removes_whole_cluster() {
    let mut t = TextInput::new("ae\u{301}b".to_string());
    t.move_cursor_left();
    t.delete_char();
    assert_eq!(t.text, "ab");
    assert_eq!(t.cursor, 1);
}

#[test]
fn delete_at_start_is_a_no_op() {
    let mut t = TextInput::new("ab".to_string());
    t.move_cursor_left();
    t.move_cursor_left();
    t.move_cursor_left();
    assert_eq!(t.cursor, 0);
    t.delete_char();
    assert_eq!(t.text, "ab");
    assert_eq!(t.cursor, 0);
}

#[test]
fn cursor_clamps_at_both_ends() {
    let mut t = TextInput::new("ab".to_string());
    t.move_cursor_right();
    assert_eq!(t.cursor, 2);
    t.move_cursor_left();
    t.move_cursor_left();
    t.move_cursor_left();
    assert_eq!(t.cursor, 0);
    t.move_cursor_right();
    assert_eq!(t.cursor, 1);
}

#[test]
fn multiline_builder_sets_the_flag() {
    let t = TextInput::new("x".to_string()).multiline(true);
    assert!(t.multiline);
    assert_eq!(t.text, "x");
    assert_eq!(t.cursor, 1);
}

#[test]
fn grapheme_len_counts_clusters() {
    let t = TextInput::new("a\u{310}e\u{301}o\u{308}\u{332}".to_string());
    assert_eq!(t.grapheme_len(), 3);
}

use weaver_editor::text::{EditorRope, TextBuffer};

#[test]
fn test_basic_operations() {
    let mut rope = EditorRope::from_str("hello world");
    assert_eq!(rope.len_chars(), 11);
    assert_eq!(rope.to_string(), "hello world");

    rope.insert(5, " beautiful");
    assert_eq!(rope.to_string(), "hello beautiful world");

    // " beautiful" is 10 chars at positions 5..15
    rope.delete(5..15);
    assert_eq!(rope.to_string(), "hello world");
}

#[test]
fn test_char_at() {
    let rope = EditorRope::from_str("hello");
    assert_eq!(rope.char_at(0), Some('h'));
    assert_eq!(rope.char_at(4), Some('o'));
    assert_eq!(rope.char_at(5), None);
}

#[test]
fn test_slice() {
    let rope = EditorRope::from_str("hello world");
    assert_eq!(rope.slice(0..5).as_deref(), Some("hello"));
    assert_eq!(rope.slice(6..11).as_deref(), Some("world"));
    assert_eq!(rope.slice(0..100), None);
}

#[test]
fn test_offset_conversion() {
    // "hello 🌍" - emoji is 4 bytes, 1 char
    let rope = EditorRope::from_str("hello 🌍");
    assert_eq!(rope.len_chars(), 7);
    assert_eq!(rope.len_bytes(), 10);

    assert_eq!(rope.char_to_byte(6), 6);
    assert_eq!(rope.char_to_byte(7), 10);
    assert_eq!(rope.byte_to_char(6), 6);
    assert_eq!(rope.byte_to_char(10), 7);
}

#[test]
fn text_test_replace() {
    let mut rope = EditorRope::from_str("hello world");
    rope.replace(6..11, "rust");
    assert_eq!(rope.to_string(), "hello rust");
}

#[test]
fn text_last_edit_records_insert() {
    let mut rope = EditorRope::from_str("abc");
    rope.insert(1, "xy");
    let edit = rope.last_edit().unwrap();
    assert_eq!(edit.edit_char_pos, 1);
    assert_eq!(edit.inserted_len, 2);
    assert_eq!(edit.deleted_len, 0);
    assert_eq!(edit.doc_len_after, 5);
}

#[test]
fn text_byte_to_char_inside_multibyte_char() {
    let rope = EditorRope::from_str("a🌍b");
    // Byte 2 lies inside the emoji, which is char 1.
    assert_eq!(rope.byte_to_char(2), 1);
    assert_eq!(rope.byte_to_char(5), 2);
}

#[test]
fn text_block_zone_counts_from_line_start() {
    let rope = EditorRope::from_str("abcdefghij\nxy");
    assert!(rope.is_in_block_syntax_zone(0));
    assert!(rope.is_in_block_syntax_zone(6));
    assert!(!rope.is_in_block_syntax_zone(7));
    assert!(rope.is_in_block_syntax_zone(11));
}

#[test]
fn text_push_appends() {
    let mut rope = EditorRope::new();
    assert!(rope.is_empty());
    rope.push("ab");
    rope.push("c");
    assert_eq!(rope.to_string(), "abc");
}

#[test]
fn text_delete_undoes_insert_and_back() {
    let mut rope = EditorRope::from_str("héllo wörld");
    rope.insert(6, "brave ");
    assert_eq!(rope.to_string(), "héllo brave wörld");
    rope.delete(6..12);
    assert_eq!(rope.to_string(), "héllo wörld");
    let removed = rope.slice(1..5).unwrap();
    rope.delete(1..5);
    assert_eq!(rope.to_string(), "h wörld");
    rope.insert(1, &removed);
    assert_eq!(rope.to_string(), "héllo wörld");
}

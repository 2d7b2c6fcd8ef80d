use weaver_editor::types::{Affinity, CompositionState, CursorState, EditInfo, Selection};
use web_time::Instant;

#[test]
fn test_selection_bounds() {
    // Forward selection
    let sel = Selection::new(5, 10);
    assert_eq!(sel.start(), 5);
    assert_eq!(sel.end(), 10);
    assert!(!sel.is_backwards());

    // Backward selection
    let sel = Selection::new(10, 5);
    assert_eq!(sel.start(), 5);
    assert_eq!(sel.end(), 10);
    assert!(sel.is_backwards());
}

#[test]
fn test_selection_collapsed() {
    let sel = Selection::collapsed(7);
    assert!(sel.is_collapsed());
    assert!(sel.is_empty());
    assert_eq!(sel.len(), 0);
    assert_eq!(sel.start(), 7);
    assert_eq!(sel.end(), 7);
}

#[test]
fn test_selection_contains() {
    let sel = Selection::new(5, 10);
    assert!(!sel.contains(4));
    assert!(sel.contains(5));
    assert!(sel.contains(7));
    assert!(sel.contains(9));
    assert!(!sel.contains(10)); // end is exclusive
}

#[test]
fn test_selection_to_range() {
    let sel = Selection::new(10, 5);
    assert_eq!(sel.to_range(), 5..10);
}

#[test]
fn test_composition_contains() {
    let comp = CompositionState::new(10, "你好".to_string());
    assert_eq!(comp.end_offset(), 12); // 2 chars
    assert!(!comp.contains(9));
    assert!(comp.contains(10));
    assert!(comp.contains(11));
    assert!(!comp.contains(12)); // end is exclusive
}

#[test]
fn test_edit_info_stale() {
    let edit = EditInfo {
        edit_char_pos: 5,
        inserted_len: 3,
        deleted_len: 0,
        contains_newline: false,
        in_block_syntax_zone: false,
        doc_len_after: 100,
        timestamp: Instant::now(),
    };

    assert!(!edit.is_stale(100));
    assert!(edit.is_stale(101));
}

#[test]
fn test_edit_info_affects_boundaries() {
    let edit = EditInfo {
        edit_char_pos: 0,
        inserted_len: 1,
        deleted_len: 0,
        contains_newline: false,
        in_block_syntax_zone: true,
        doc_len_after: 100,
        timestamp: Instant::now(),
    };
    assert!(edit.affects_boundaries());

    let edit = EditInfo {
        edit_char_pos: 50,
        inserted_len: 1,
        deleted_len: 0,
        contains_newline: true,
        in_block_syntax_zone: false,
        doc_len_after: 100,
        timestamp: Instant::now(),
    };
    assert!(edit.affects_boundaries());

    let edit = EditInfo {
        edit_char_pos: 50,
        inserted_len: 1,
        deleted_len: 0,
        contains_newline: false,
        in_block_syntax_zone: false,
        doc_len_after: 100,
        timestamp: Instant::now(),
    };
    assert!(!edit.affects_boundaries());
}

#[test]
fn types_cursor_state_defaults_and_affinity() {
    let c = CursorState::new(4);
    assert_eq!(c.offset, 4);
    assert_eq!(c.affinity, Affinity::Before);
    let c = CursorState::with_affinity(4, Affinity::After);
    assert_eq!(c.affinity, Affinity::After);
    assert_eq!(CursorState::default().offset, 0);
}

#[test]
fn types_selection_len_and_range_of_backward() {
    let sel = Selection::new(9, 3);
    assert_eq!(sel.len(), 6);
    assert!(!sel.is_empty());
    assert_eq!(sel.to_range(), 3..9);
}

#[test]
fn types_edit_info_affected_range() {
    let edit = EditInfo {
        edit_char_pos: 4,
        inserted_len: 3,
        deleted_len: 1,
        contains_newline: false,
        in_block_syntax_zone: false,
        doc_len_after: 20,
        timestamp: Instant::now(),
    };
    assert_eq!(edit.affected_range(), 4..7);
}

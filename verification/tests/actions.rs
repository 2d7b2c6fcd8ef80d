use weaver_editor::actions::{
    EditorAction, InputType, Key, KeyCombo, KeybindingConfig, Modifiers, Range,
};

#[test]
fn actions_range_basics() {
    let r = Range::new(7, 3);
    assert_eq!(r.normalize(), Range::new(3, 7));
    assert_eq!(r.len(), 0);
    assert!(r.is_empty());
    assert_eq!(Range::new(3, 7).len(), 4);
    assert!(Range::caret(4).is_caret());
    let std_range: std::ops::Range<usize> = Range::new(1, 2).into();
    assert_eq!(std_range, 1..2);
    assert_eq!(Range::from(5..9), Range::new(5, 9));
}

#[test]
fn actions_input_type_kinds() {
    assert!(InputType::DeleteWordBackward.is_deletion());
    assert!(!InputType::InsertText.is_deletion());
    assert!(InputType::InsertFromPaste.is_insertion());
    assert!(!InputType::HistoryUndo.is_insertion());
}

#[test]
fn actions_with_range_replaces_only_ranges() {
    let a = EditorAction::DeleteBackward { range: Range::caret(1) }.with_range(Range::new(2, 5));
    assert_eq!(a, EditorAction::DeleteBackward { range: Range::new(2, 5) });
    assert_eq!(EditorAction::Undo.with_range(Range::caret(3)), EditorAction::Undo);
}

#[test]
fn actions_primary_modifier_by_platform() {
    assert_eq!(Modifiers::primary(true), Modifiers::meta());
    assert_eq!(Modifiers::primary(false), Modifiers::ctrl());
    assert_eq!(Modifiers::primary_shift(false), Modifiers::ctrl_shift());
}

#[test]
fn actions_default_bindings_and_lookup() {
    let config = KeybindingConfig::default_for_platform(false);
    let bold = KeyCombo::ctrl(Key::character("b"));
    assert!(config.has_binding(&bold));
    assert_eq!(config.lookup(&bold, Range::caret(0)), Some(EditorAction::ToggleBold));

    // Browsers report uppercase keys with Ctrl held.
    let upper = KeyCombo::ctrl(Key::character("B"));
    assert_eq!(config.lookup(&upper, Range::caret(0)), Some(EditorAction::ToggleBold));

    let enter = KeyCombo::new(Key::Enter);
    assert_eq!(
        config.lookup(&enter, Range::caret(9)),
        Some(EditorAction::InsertLineBreak { range: Range::caret(9) })
    );
    assert_eq!(config.lookup(&KeyCombo::meta(Key::Backspace), Range::caret(0)), None);

    let mac = KeybindingConfig::default_for_platform(true);
    assert_eq!(
        mac.lookup(&KeyCombo::meta(Key::Backspace), Range::caret(2)),
        Some(EditorAction::DeleteToLineStart { range: Range::caret(2) })
    );
    assert_eq!(mac.lookup(&KeyCombo::ctrl(Key::character("y")), Range::caret(0)), None);
}

#[test]
fn actions_bind_and_unbind() {
    let mut config = KeybindingConfig::new();
    let combo = KeyCombo::with_modifiers(Key::character("k"), Modifiers::ctrl());
    assert!(!config.has_binding(&combo));
    config.bind(combo.clone(), EditorAction::InsertLink);
    config.bind(combo.clone(), EditorAction::ToggleCode);
    assert_eq!(config.iter().len(), 1);
    assert_eq!(config.lookup(&combo, Range::caret(0)), Some(EditorAction::ToggleCode));
    config.unbind(&combo);
    assert!(!config.has_binding(&combo));
    assert!(config.iter().is_empty());
}

#[test]
fn actions_key_kinds() {
    assert!(Key::ArrowLeft.is_navigation());
    assert!(!Key::Enter.is_navigation());
    assert!(Key::Shift.is_modifier());
    assert!(!Key::character("a").is_modifier());
}

#[test]
fn actions_single_modifier_sets() {
    assert!(Modifiers::super_key().super_);
    assert!(!Modifiers::super_key().ctrl);
    assert!(Modifiers::hyper().hyper);
    assert!(Modifiers::alt().alt && !Modifiers::alt().shift);
    assert!(Modifiers::shift().shift);
    assert_eq!(Modifiers::none(), Modifiers::default());
}

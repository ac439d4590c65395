//! Transaction, undo and redo behaviour on concrete buffers: invertibility,
//! redo fidelity, redo invalidation, offset independence and noop safety.
use gauchito_core::context::Context;
use gauchito_core::edit::Edit;
use gauchito_core::history::History;
use gauchito_core::operations::OperationResult;
use gauchito_core::registry::{EditorError, OperationRegistry};

#[test]
fn apply_then_undo_restores_text() {
    let mut ctx = Context::with_content("hello world");
    let mut edits = Vec::new();
    edits.push(Edit::replace(0, 5, String::from("HELLO")));
    ctx.apply_edits(edits);
    assert_eq!(ctx.buffer().content().to_string(), "HELLO world");
    ctx.undo_once();
    assert_eq!(ctx.buffer().content().to_string(), "hello world");
}

#[test]
fn multi_edit_transaction_offsets_are_independent() {
    // both edits are computed against the original offsets: the deletion
    // removes "567" even though the insertion lands before it
    let mut ctx = Context::with_content("0123456789");
    let mut edits = Vec::new();
    edits.push(Edit::delete(5, 8));
    edits.push(Edit::insert(0, String::from("X")));
    ctx.apply_edits(edits);
    assert_eq!(ctx.buffer().content().to_string(), "X0123489");
}

#[test]
fn multi_edit_transaction_inverts_exactly() {
    let mut ctx = Context::with_content("0123456789");
    let mut edits = Vec::new();
    edits.push(Edit::delete(5, 8));
    edits.push(Edit::insert(0, String::from("X")));
    ctx.apply_edits(edits);
    ctx.undo_once();
    assert_eq!(ctx.buffer().content().to_string(), "0123456789");
}

#[test]
fn redo_restores_pre_undo_buffer_and_selection() {
    let mut ctx = Context::with_content("abc");
    let registry = OperationRegistry::new();
    let op = registry.create("insert_string", "XY").unwrap();
    op.execute(&mut ctx);
    assert_eq!(ctx.buffer().content().to_string(), "XYabc");
    let sel_before = *ctx.selection();

    // any number of (undo, redo) pairs with no intervening edits comes back
    // to exactly the same buffer and selection
    for _ in 0..3 {
        ctx.undo_once();
        assert_eq!(ctx.buffer().content().to_string(), "abc");
        ctx.redo_once();
        assert_eq!(ctx.buffer().content().to_string(), "XYabc");
        assert_eq!(*ctx.selection(), sel_before);
    }
}

#[test]
fn recording_after_undo_clears_redo() {
    let mut ctx = Context::with_content("abc");
    let registry = OperationRegistry::new();
    registry.create("insert_string", "1").unwrap().execute(&mut ctx);
    registry.create("undo", "").unwrap().execute(&mut ctx);
    assert!(ctx.history().can_redo());

    // a new effective transaction invalidates the redo stack
    registry.create("insert_string", "2").unwrap().execute(&mut ctx);
    assert!(!ctx.history().can_redo());
}

#[test]
fn all_noop_transaction_is_never_recorded() {
    let mut ctx = Context::with_content("abc");
    let mut edits = Vec::new();
    edits.push(Edit::replace(1, 1, String::new()));
    ctx.apply_edits(edits);
    assert!(!ctx.history().can_undo());
    assert_eq!(ctx.buffer().content().to_string(), "abc");

    // the same at the history level
    let mut history = History::new();
    let mut noops = Vec::new();
    noops.push(Edit::insert(0, String::new()));
    let mut removed = Vec::new();
    removed.push(String::new());
    history.record(noops, removed);
    assert!(!history.can_undo());
}

#[test]
fn undo_and_redo_on_empty_history_are_no_ops() {
    let mut ctx = Context::with_content("abc");
    ctx.undo_once();
    ctx.redo_once();
    assert_eq!(ctx.buffer().content().to_string(), "abc");
    assert!(!ctx.history().can_undo());
    assert!(!ctx.history().can_redo());
}

#[test]
fn inverse_edits_carry_the_removed_text() {
    let e = Edit::delete(2, 5);
    let inv = History::invert_deletion(&e, "xyz");
    assert_eq!(inv.start, 2);
    assert_eq!(inv.end, 2);
    assert_eq!(inv.text, "xyz");

    let e = Edit::insert(4, String::from("ab"));
    let inv = History::invert_insertion(&e);
    assert_eq!(inv.start, 4);
    assert_eq!(inv.end, 6);
    assert_eq!(inv.text, "");

    let e = Edit::replace(1, 3, String::from("wxyz"));
    let inv = History::invert_replacement(&e, "qq");
    assert_eq!(inv.start, 1);
    assert_eq!(inv.end, 5);
    assert_eq!(inv.text, "qq");

    let e = Edit::insert(7, String::new());
    let inv = History::invert_noop(&e);
    assert_eq!(inv.start, 7);
    assert_eq!(inv.end, 7);
    assert_eq!(inv.text, "");
}

#[test]
fn edit_kind_predicates() {
    assert!(Edit::insert(0, String::from("a")).is_insert());
    assert!(Edit::delete(0, 1).is_delete());
    assert!(Edit::replace(0, 1, String::from("a")).is_replace());
    assert!(Edit::insert(0, String::new()).is_noop());
    assert_eq!(Edit::replace(3, 5, String::from("x")).position(), 3);
    assert_eq!(Edit::replace(3, 5, String::from("x")).inserted(), "x");
}

#[test]
fn unknown_operation_is_reported() {
    let registry = OperationRegistry::new();
    let r = registry.create("bogus", "");
    assert!(matches!(r, Err(EditorError::UnknownOperation)));
}

#[test]
fn invalid_parameters_are_reported() {
    let registry = OperationRegistry::new();
    assert!(matches!(
        registry.create("insert_char", "ab"),
        Err(EditorError::InvalidParameter(_))
    ));
    assert!(matches!(
        registry.create("insert_string", ""),
        Err(EditorError::InvalidParameter(_))
    ));
    assert!(matches!(
        registry.create("replace", "no separator here"),
        Err(EditorError::InvalidParameter(_))
    ));
    assert!(matches!(
        registry.create("jump_to_line", "abc"),
        Err(EditorError::InvalidParameter(_))
    ));
    assert!(matches!(
        registry.create(":", ""),
        Err(EditorError::InvalidParameter(_))
    ));
}

#[test]
fn replace_all_rewrites_every_occurrence() {
    let mut ctx = Context::with_content("one fox, two fox");
    let registry = OperationRegistry::new();
    registry.create("replace_all", "fox with cat").unwrap().execute(&mut ctx);
    assert_eq!(ctx.buffer().content().to_string(), "one cat, two cat");
    registry.create("undo", "").unwrap().execute(&mut ctx);
    assert_eq!(ctx.buffer().content().to_string(), "one fox, two fox");
}

#[test]
fn indent_and_unindent_round_trip() {
    let mut ctx = Context::with_content("a\nb\nc");
    let registry = OperationRegistry::new();
    registry.create("select_all", "").unwrap().execute(&mut ctx);
    registry.create("indent_selection", "").unwrap().execute(&mut ctx);
    assert_eq!(ctx.buffer().content().to_string(), "    a\n    b\n    c");
    registry.create("select_all", "").unwrap().execute(&mut ctx);
    registry.create("unindent_selection", "").unwrap().execute(&mut ctx);
    assert_eq!(ctx.buffer().content().to_string(), "a\nb\nc");
    registry.create("undo", "").unwrap().execute(&mut ctx);
    assert_eq!(ctx.buffer().content().to_string(), "    a\n    b\n    c");
}

#[test]
fn insert_spaces_uses_count_or_defaults_to_one() {
    let mut ctx = Context::with_content("ab");
    let registry = OperationRegistry::new();
    registry.create("insert_spaces", "3").unwrap().execute(&mut ctx);
    assert_eq!(ctx.buffer().content().to_string(), "   ab");

    let mut ctx2 = Context::with_content("ab");
    registry.create("insert_spaces", "oops").unwrap().execute(&mut ctx2);
    assert_eq!(ctx2.buffer().content().to_string(), " ab");
}

#[test]
fn dispatch_results_for_mode_and_exit() {
    let mut ctx = Context::with_content("abc");
    let registry = OperationRegistry::new();

    let r = registry.create("switch_mode", "visual").unwrap().execute(&mut ctx);
    assert!(matches!(r, OperationResult::SwitchMode(m) if m == "visual"));
    assert!(matches!(
        registry.create("switch_mode", ""),
        Err(EditorError::InvalidParameter(_))
    ));

    let r = registry.create("exit", "").unwrap().execute(&mut ctx);
    assert!(matches!(r, OperationResult::Exit));

    // the context is untouched by either
    assert_eq!(ctx.buffer().content().to_string(), "abc");
}

#[test]
fn colon_commands_resolve_to_save_and_exit() {
    let mut ctx = Context::with_content("abc");
    let registry = OperationRegistry::new();

    let r = registry.create(":", "q").unwrap().execute(&mut ctx);
    assert!(matches!(r, OperationResult::Exit));

    registry.create(":", "w").unwrap().execute(&mut ctx);
    assert!(!ctx.buffer().is_modified());

    registry.create(":", "w notes.txt").unwrap().execute(&mut ctx);
    assert_eq!(ctx.buffer().path().map(|p| p.as_str()), Some("notes.txt"));

    assert!(matches!(registry.create(":", "zz"), Err(EditorError::InvalidParameter(_))));
}

#[test]
fn save_as_records_path_and_marks_clean() {
    let mut ctx = Context::with_content("abc");
    let registry = OperationRegistry::new();
    registry.create("insert_char", "x").unwrap().execute(&mut ctx);
    assert!(ctx.buffer().is_modified());
    registry.create("save_as", "out.txt").unwrap().execute(&mut ctx);
    assert!(!ctx.buffer().is_modified());
    assert_eq!(ctx.buffer().path().map(|p| p.as_str()), Some("out.txt"));
}

#[test]
fn insert_variants_replace_the_selection() {
    let registry = OperationRegistry::new();

    let mut ctx = Context::with_content("abc");
    registry.create("select_word", "").unwrap().execute(&mut ctx);
    registry.create("paste", "XY").unwrap().execute(&mut ctx);
    assert_eq!(ctx.buffer().content().to_string(), "XY");
    assert_eq!(ctx.selection().head, 2);

    let mut ctx2 = Context::with_content("ab");
    registry.create("move_right", "").unwrap().execute(&mut ctx2);
    registry.create("insert_newline", "").unwrap().execute(&mut ctx2);
    assert_eq!(ctx2.buffer().content().to_string(), "a\nb");

    let mut ctx3 = Context::with_content("ab");
    registry.create("insert_tab", "").unwrap().execute(&mut ctx3);
    assert_eq!(ctx3.buffer().content().to_string(), "\tab");
}

#[test]
fn find_next_without_match_leaves_selection() {
    let mut ctx = Context::with_content("abc");
    let registry = OperationRegistry::new();
    registry.create("find_next", "zzz").unwrap().execute(&mut ctx);
    assert!(ctx.selection().is_cursor());
    assert_eq!(ctx.selection().head, 0);
}

#[test]
fn jump_to_character_clamps_to_buffer_end() {
    let mut ctx = Context::with_content("abc");
    let registry = OperationRegistry::new();
    registry.create("jump_to_character", "50").unwrap().execute(&mut ctx);
    assert_eq!(ctx.selection().head, 3);
    registry.create("jump_to_character", "1").unwrap().execute(&mut ctx);
    assert_eq!(ctx.selection().head, 1);
}

#[test]
fn replace_requires_selection_to_equal_pattern() {
    let mut ctx = Context::with_content("dog and cat");
    let registry = OperationRegistry::new();
    // nothing selected, so nothing equals the pattern
    registry.create("replace", "dog with fox").unwrap().execute(&mut ctx);
    assert_eq!(ctx.buffer().content().to_string(), "dog and cat");

    registry.create("select_word", "").unwrap().execute(&mut ctx);
    registry.create("replace", "dog with fox").unwrap().execute(&mut ctx);
    assert_eq!(ctx.buffer().content().to_string(), "fox and cat");
}

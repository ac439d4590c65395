//! End-to-end tests of the editing context driven through the operation
//! registry.
use gauchito_core::context::Context;
use gauchito_core::registry::OperationRegistry;

#[test]
fn test_basic_operations() {
    let mut context = Context::with_content("Hello World!");
    let registry = OperationRegistry::new();

    // Test cursor movement
    let op = registry.create("move_right", "").unwrap();
    op.execute(&mut context);
    assert_eq!(context.selection().head, 1);

    // Test character insertion
    let op = registry.create("insert_char", "X").unwrap();
    op.execute(&mut context);
    assert_eq!(context.buffer().content().to_string(), "HXello World!");

    // Test undo
    let op = registry.create("undo", "").unwrap();
    op.execute(&mut context);
    assert_eq!(context.buffer().content().to_string(), "Hello World!");
}

#[test]
fn test_word_operations() {
    let mut context = Context::with_content("Hello beautiful world!");
    let registry = OperationRegistry::new();

    // Move to word boundary
    let op = registry.create("move_word_forward", "").unwrap();
    op.execute(&mut context);
    assert_eq!(context.selection().head, 5); // Should be at space after "Hello"

    // Select word
    let op = registry.create("select_word", "").unwrap();
    op.execute(&mut context);
    let (start, end) = context.selection().range();
    let selected = context.buffer().content().slice(start..end).to_string();
    assert!(selected.contains("beautiful") || selected.trim().contains("beautiful"));
}

#[test]
fn test_line_operations() {
    let mut context = Context::with_content("Line 1\nLine 2\nLine 3");
    let registry = OperationRegistry::new();

    // Jump to line 2
    let op = registry.create("jump_to_line", "2").unwrap();
    op.execute(&mut context);
    assert_eq!(context.current_line(), 2);

    // Duplicate line
    let original_content = context.buffer().content().to_string();
    let op = registry.create("duplicate_line", "").unwrap();
    op.execute(&mut context);
    let new_content = context.buffer().content().to_string();
    assert_ne!(original_content, new_content);
    assert!(new_content.lines().count() > original_content.lines().count());
}

#[test]
fn test_selection_operations() {
    let mut context = Context::with_content("Hello World\nSecond Line");
    let registry = OperationRegistry::new();

    // Select all
    let op = registry.create("select_all", "").unwrap();
    op.execute(&mut context);
    let (start, end) = context.selection().range();
    assert_eq!(start, 0);
    assert_eq!(end, context.buffer().len_chars());

    // Clear selection
    let op = registry.create("clear_selection", "").unwrap();
    op.execute(&mut context);
    assert!(context.selection().is_cursor());
}

#[test]
fn test_text_transformation() {
    let mut context = Context::with_content("hello world");
    let registry = OperationRegistry::new();

    // Select all text
    let op = registry.create("select_all", "").unwrap();
    op.execute(&mut context);

    // Make uppercase
    let op = registry.create("uppercase_selection", "").unwrap();
    op.execute(&mut context);
    assert_eq!(context.buffer().content().to_string(), "HELLO WORLD");

    // Undo
    let op = registry.create("undo", "").unwrap();
    op.execute(&mut context);
    assert_eq!(context.buffer().content().to_string(), "hello world");
}

#[test]
fn test_search_operations() {
    let mut context = Context::with_content("The quick brown fox jumps over the lazy dog");
    let registry = OperationRegistry::new();

    // Find "fox"
    let op = registry.create("find_next", "fox").unwrap();
    op.execute(&mut context);
    let (start, end) = context.selection().range();
    let selected = context.buffer().content().slice(start..end).to_string();
    assert_eq!(selected, "fox");

    // Replace with "cat"
    let op = registry.create("replace", "fox with cat").unwrap();
    op.execute(&mut context);
    assert!(context.buffer().content().to_string().contains("cat"));
    assert!(!context.buffer().content().to_string().contains("fox"));
}

#[test]
fn test_vim_shortcuts() {
    let mut context = Context::with_content("Hello World");
    let registry = OperationRegistry::new();

    // Test vim-like movement
    let op = registry.create("w", "").unwrap(); // move_word_forward
    op.execute(&mut context);
    assert_ne!(context.selection().head, 0);

    let op = registry.create("0", "").unwrap(); // move_line_start
    op.execute(&mut context);
    assert_eq!(context.selection().head, 0);

    let op = registry.create("$", "").unwrap(); // move_line_end
    op.execute(&mut context);
    assert_eq!(context.selection().head, "Hello World".len());
}

#[test]
fn test_registry_operations() {
    let registry = OperationRegistry::new();

    // Test that we have a good number of operations
    let operations = registry.list_operations();
    assert!(operations.len() > 50); // We should have many operations

    // Test that key operations exist
    assert!(registry.has_operation("move_left"));
    assert!(registry.has_operation("move_right"));
    assert!(registry.has_operation("insert_char"));
    assert!(registry.has_operation("delete_char"));
    assert!(registry.has_operation("undo"));
    assert!(registry.has_operation("redo"));
    assert!(registry.has_operation("select_all"));
    assert!(registry.has_operation("find_next"));

    // Test vim shortcuts
    assert!(registry.has_operation("h"));
    assert!(registry.has_operation("j"));
    assert!(registry.has_operation("k"));
    assert!(registry.has_operation("l"));
}

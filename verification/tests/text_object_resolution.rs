//! Text object resolution on concrete buffers: words, brackets, paragraphs,
//! lines, graphemes, and the capability registry's behaviour for unsupported
//! kinds.
use gauchito_core::TextRange;
use gauchito_core::buffer::Buffer;
use gauchito_core::context::Context;
use gauchito_core::finder_basic::BasicTextObjectFinder;
use gauchito_core::finder_treesitter::TreeSitterTextObjectFinder;
use gauchito_core::grapheme::{next_grapheme_boundary, prev_grapheme_boundary};
use gauchito_core::registry::OperationRegistry;
use gauchito_core::textobject::{Selection, TextObject, TextObjectKind};
use gauchito_core::textobjects_registry::{RegisteredFinder, TextObjectRegistry};

#[test]
fn inner_word_at_letter_and_at_punctuation() {
    let buffer = Buffer::from_str("  foo.bar  ");
    // at 'f' the word object is exactly "foo"
    let r = buffer.find_text_object_at(2, &TextObject::inner_word());
    assert_eq!(r, Some(TextRange::new(2, 5)));
    // at '.' there is no word: a zero-width range, which callers treat as
    // no object
    let r = buffer.find_text_object_at(5, &TextObject::inner_word());
    assert_eq!(r, Some(TextRange::new(5, 5)));
    // the same for a position on whitespace
    let r = buffer.find_text_object_at(0, &TextObject::inner_word());
    assert_eq!(r, Some(TextRange::new(0, 0)));
    // at 'b' the word object is exactly "bar"
    let r = buffer.find_text_object_at(6, &TextObject::inner_word());
    assert_eq!(r, Some(TextRange::new(6, 9)));
}

#[test]
fn big_word_spans_punctuation() {
    let buffer = Buffer::from_str("  foo.bar  ");
    let r = buffer.find_text_object_at(5, &TextObject::big_word());
    assert_eq!(r, Some(TextRange::new(2, 9)));
}

#[test]
fn around_parentheses_resolves_innermost_pair() {
    let buffer = Buffer::from_str("(a(b)c)");
    let r = buffer.find_text_object_at(3, &TextObject::around_parens());
    assert_eq!(r, Some(TextRange::new(2, 5)));
}

#[test]
fn inner_parentheses_and_empty_pair() {
    let buffer = Buffer::from_str("(a(b)c)");
    let r = buffer.find_text_object_at(3, &TextObject::inner_parens());
    assert_eq!(r, Some(TextRange::new(3, 4)));
    // an empty pair collapses to a zero-width range just after the opener
    let buffer = Buffer::from_str("x()y");
    let r = buffer.find_text_object_at(1, &TextObject::inner_parens());
    assert_eq!(r, Some(TextRange::new(2, 2)));
}

#[test]
fn unbalanced_delimiters_resolve_to_not_found() {
    let buffer = Buffer::from_str("(abc");
    let r = buffer.find_text_object_at(2, &TextObject::around_parens());
    assert!(r.is_none());
    let buffer = Buffer::from_str("abc)");
    let r = buffer.find_text_object_at(1, &TextObject::around_parens());
    assert!(r.is_none());
}

#[test]
fn brackets_and_braces_resolve() {
    let buffer = Buffer::from_str("a[b{c}d]e");
    let r = buffer.find_text_object_at(4, &TextObject::around_braces());
    assert_eq!(r, Some(TextRange::new(3, 6)));
    let r = buffer.find_text_object_at(4, &TextObject::around_brackets());
    assert_eq!(r, Some(TextRange::new(1, 8)));
    let r = buffer.find_text_object_at(4, &TextObject::inner_brackets());
    assert_eq!(r, Some(TextRange::new(2, 7)));
}

#[test]
fn paragraph_at_start_spans_to_blank_line() {
    let buffer = Buffer::from_str("a\nb\n\nc");
    let r = buffer.find_text_object_at(0, &TextObject::paragraph());
    assert_eq!(r, Some(TextRange::new(0, 4)));
    // the paragraph after the blank line is just "c"
    let r = buffer.find_text_object_at(5, &TextObject::paragraph());
    assert_eq!(r, Some(TextRange::new(5, 6)));
}

#[test]
fn line_object_includes_terminator_except_on_last_line() {
    let buffer = Buffer::from_str("ab\ncd");
    let r = buffer.find_text_object_at(0, &TextObject::line());
    assert_eq!(r, Some(TextRange::new(0, 3)));
    let r = buffer.find_text_object_at(4, &TextObject::line());
    assert_eq!(r, Some(TextRange::new(3, 5)));
}

#[test]
fn unsupported_kind_never_falls_back_to_a_guess() {
    let buffer = Buffer::from_str("fn main() {}");
    assert!(buffer.find_text_object_at(1, &TextObject::function()).is_none());
    assert!(buffer.find_text_object_at(1, &TextObject::inner_class()).is_none());
    assert!(!buffer.supports_text_object(&TextObjectKind::Function));
    assert!(buffer.supports_text_object(&TextObjectKind::Word));
}

#[test]
fn last_registered_finder_wins() {
    // registering the grammarless syntax finder after the basic one makes
    // its kinds resolvable in name, though it finds nothing
    let mut registry = TextObjectRegistry::new();
    registry.register_finder(RegisteredFinder::Basic(BasicTextObjectFinder::new()));
    registry.register_finder(RegisteredFinder::TreeSitter(TreeSitterTextObjectFinder::new()));
    assert!(registry.supports(&TextObjectKind::Function));
    assert!(registry.supports(&TextObjectKind::Word));
    let buffer = Buffer::from_str("fn main() {}").with_text_objects(registry);
    assert!(buffer.find_text_object_at(1, &TextObject::function()).is_none());
}

#[test]
fn find_next_and_prev_probe_words() {
    let buffer = Buffer::from_str("one two three");
    let next = buffer.find_text_object_next(1, &TextObject::word());
    assert_eq!(next, Some(TextRange::new(4, 7)));
    let prev = buffer.find_text_object_prev(4, &TextObject::word());
    assert_eq!(prev, Some(TextRange::new(0, 3)));
}

#[test]
fn grapheme_boundaries_respect_combining_marks() {
    // 'e' followed by a combining acute accent is one grapheme cluster
    let s = "e\u{301}x";
    assert_eq!(next_grapheme_boundary(s, 0), 2);
    assert_eq!(next_grapheme_boundary(s, 2), 3);
    assert_eq!(prev_grapheme_boundary(s, 3), 2);
    assert_eq!(prev_grapheme_boundary(s, 2), 0);
    assert!(gauchito_core::grapheme::is_grapheme_boundary(s, 2));
    assert!(!gauchito_core::grapheme::is_grapheme_boundary(s, 1));
}

#[test]
fn cursor_moves_by_whole_grapheme_clusters() {
    let mut ctx = Context::with_content("e\u{301}x");
    let registry = OperationRegistry::new();
    registry.create("move_right", "").unwrap().execute(&mut ctx);
    assert_eq!(ctx.selection().head, 2);
    registry.create("move_left", "").unwrap().execute(&mut ctx);
    assert_eq!(ctx.selection().head, 0);
}

#[test]
fn matching_bracket_jump_both_directions() {
    let mut ctx = Context::with_content("(abc)");
    let registry = OperationRegistry::new();
    registry.create("move_matching_bracket", "").unwrap().execute(&mut ctx);
    assert_eq!(ctx.selection().head, 4);
    registry.create("move_matching_bracket", "").unwrap().execute(&mut ctx);
    assert_eq!(ctx.selection().head, 0);

    // from a non-bracket character the cursor stays put
    let mut ctx2 = Context::with_content("(abc)");
    registry.create("move_right", "").unwrap().execute(&mut ctx2);
    registry.create("move_matching_bracket", "").unwrap().execute(&mut ctx2);
    assert_eq!(ctx2.selection().head, 1);
}

#[test]
fn paragraph_movement() {
    let mut ctx = Context::with_content("a\nb\n\nc");
    let registry = OperationRegistry::new();
    registry.create("move_paragraph_forward", "").unwrap().execute(&mut ctx);
    assert_eq!(ctx.selection().head, 4);
    // position 4 is the blank line's break, which belongs to the blank line;
    // the paragraph around it reaches back through the non-blank run above
    registry.create("move_paragraph_backward", "").unwrap().execute(&mut ctx);
    assert_eq!(ctx.selection().head, 0);
}

#[test]
fn lowercase_and_toggle_case() {
    let mut ctx = Context::with_content("MiXeD");
    let registry = OperationRegistry::new();
    registry.create("select_all", "").unwrap().execute(&mut ctx);
    registry.create("lowercase_selection", "").unwrap().execute(&mut ctx);
    assert_eq!(ctx.buffer().content().to_string(), "mixed");

    let mut ctx2 = Context::with_content("aB c");
    registry.create("select_all", "").unwrap().execute(&mut ctx2);
    registry.create("toggle_case_selection", "").unwrap().execute(&mut ctx2);
    assert_eq!(ctx2.buffer().content().to_string(), "Ab C");
}

#[test]
fn line_editing_operations() {
    let registry = OperationRegistry::new();

    // swapped lines keep the terminators they carry
    let mut ctx = Context::with_content("one\ntwo\nthree");
    registry.create("move_line_down", "").unwrap().execute(&mut ctx);
    assert_eq!(ctx.buffer().content().to_string(), "two\none\nthree");

    let mut ctx2 = Context::with_content("one\ntwo\nthree");
    registry.create("jump_to_line", "2").unwrap().execute(&mut ctx2);
    registry.create("move_line_up", "").unwrap().execute(&mut ctx2);
    assert_eq!(ctx2.buffer().content().to_string(), "two\none\nthree");

    let mut ctx3 = Context::with_content("one\ntwo");
    registry.create("delete_line", "").unwrap().execute(&mut ctx3);
    assert_eq!(ctx3.buffer().content().to_string(), "two");

    let mut ctx4 = Context::with_content("one");
    registry.create("insert_line_below", "").unwrap().execute(&mut ctx4);
    assert_eq!(ctx4.buffer().content().to_string(), "one\n");
    registry.create("insert_line_above", "").unwrap().execute(&mut ctx4);
    assert_eq!(ctx4.buffer().content().to_string(), "one\n\n");
}

#[test]
fn deletion_operations() {
    let registry = OperationRegistry::new();

    let mut ctx = Context::with_content("abc def");
    registry.create("delete_word", "").unwrap().execute(&mut ctx);
    assert_eq!(ctx.buffer().content().to_string(), " def");

    let mut ctx2 = Context::with_content("abc");
    registry.create("move_right", "").unwrap().execute(&mut ctx2);
    registry.create("backspace", "").unwrap().execute(&mut ctx2);
    assert_eq!(ctx2.buffer().content().to_string(), "bc");

    let mut ctx3 = Context::with_content("abc def");
    registry.create("move_document_end", "").unwrap().execute(&mut ctx3);
    registry.create("delete_word_backward", "").unwrap().execute(&mut ctx3);
    assert_eq!(ctx3.buffer().content().to_string(), "abc ");

    let mut ctx4 = Context::with_content("ab\ncd");
    registry.create("move_right", "").unwrap().execute(&mut ctx4);
    registry.create("delete_to_line_end", "").unwrap().execute(&mut ctx4);
    assert_eq!(ctx4.buffer().content().to_string(), "a\ncd");

    let mut ctx5 = Context::with_content("ab\ncd");
    registry.create("move_right", "").unwrap().execute(&mut ctx5);
    registry.create("delete_to_line_start", "").unwrap().execute(&mut ctx5);
    assert_eq!(ctx5.buffer().content().to_string(), "b\ncd");
}

#[test]
fn find_previous_selects_earlier_match() {
    let mut ctx = Context::with_content("cat and cat");
    let registry = OperationRegistry::new();
    registry.create("move_document_end", "").unwrap().execute(&mut ctx);
    registry.create("find_previous", "cat").unwrap().execute(&mut ctx);
    let (start, end) = ctx.selection().range();
    assert_eq!((start, end), (8, 11));
    registry.create("jump_to_character", "8").unwrap().execute(&mut ctx);
    registry.create("find_previous", "cat").unwrap().execute(&mut ctx);
    let (start, end) = ctx.selection().range();
    assert_eq!((start, end), (0, 3));
}

#[test]
fn cut_removes_selection_and_save_marks_clean() {
    let mut ctx = Context::with_content("hello");
    let registry = OperationRegistry::new();
    registry.create("select_word", "").unwrap().execute(&mut ctx);
    registry.create("cut", "").unwrap().execute(&mut ctx);
    assert_eq!(ctx.buffer().content().to_string(), "");
    assert!(ctx.buffer().is_modified());
    registry.create("save", "").unwrap().execute(&mut ctx);
    assert!(!ctx.buffer().is_modified());
}

#[test]
fn selection_normalizes_and_reports_stats() {
    let mut ctx = Context::with_content("ab\ncd");
    let registry = OperationRegistry::new();
    registry.create("move_document_end", "").unwrap().execute(&mut ctx);
    registry.create("select_line_start", "").unwrap().execute(&mut ctx);
    let (start, end) = ctx.selection().range();
    assert_eq!((start, end), (3, 5));
    let stats = ctx.buffer_stats();
    assert_eq!(stats.total_chars, 5);
    assert_eq!(stats.total_lines, 2);
    assert_eq!(stats.selected_chars, 2);
    assert_eq!(stats.current_line, 2);
    assert_eq!(stats.current_column, 1);
}

#[test]
fn text_range_and_mode_basics() {
    let r = TextRange::new(3, 7);
    assert_eq!(r.len(), 4);
    assert!(!r.is_empty());
    assert!(TextRange::new(2, 2).is_empty());
    assert_eq!(TextObject::inner_word().selection, Selection::Inner);
    assert_eq!(TextObject::word().selection, Selection::Around);
    assert!(matches!(TextObject::around_braces().kind, TextObjectKind::Braces));
}

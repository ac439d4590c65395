//! The text objects a position can resolve to: their kinds, the inner/around
//! mode, and the combined request type.
use vstd::prelude::*;

verus! {

/// Text object kinds. The syntax-aware kinds (`Function` through `String`)
/// are reserved; this core always resolves them as unsupported.
#[derive(Debug)]
pub enum TextObjectKind {
    Grapheme,
    Word,
    BigWord,
    Line,
    Paragraph,
    Parentheses,
    Brackets,
    Braces,
    Function,
    Class,
    Statement,
    Parameter,
    Comment,
    String,
    Pattern(std::string::String),
}

/// What equality of two kinds means: the same variant, and for patterns the
/// same pattern text.
pub open spec fn kind_eq(a: TextObjectKind, b: TextObjectKind) -> bool {
    match (a, b) {
        (TextObjectKind::Grapheme, TextObjectKind::Grapheme) => true,
        (TextObjectKind::Word, TextObjectKind::Word) => true,
        (TextObjectKind::BigWord, TextObjectKind::BigWord) => true,
        (TextObjectKind::Line, TextObjectKind::Line) => true,
        (TextObjectKind::Paragraph, TextObjectKind::Paragraph) => true,
        (TextObjectKind::Parentheses, TextObjectKind::Parentheses) => true,
        (TextObjectKind::Brackets, TextObjectKind::Brackets) => true,
        (TextObjectKind::Braces, TextObjectKind::Braces) => true,
        (TextObjectKind::Function, TextObjectKind::Function) => true,
        (TextObjectKind::Class, TextObjectKind::Class) => true,
        (TextObjectKind::Statement, TextObjectKind::Statement) => true,
        (TextObjectKind::Parameter, TextObjectKind::Parameter) => true,
        (TextObjectKind::Comment, TextObjectKind::Comment) => true,
        (TextObjectKind::String, TextObjectKind::String) => true,
        (TextObjectKind::Pattern(x), TextObjectKind::Pattern(y)) => x@ == y@,
        _ => false,
    }
}

impl PartialEq for TextObjectKind {
    fn eq(&self, other: &TextObjectKind) -> (r: bool) {
        match (self, other) {
            (TextObjectKind::Grapheme, TextObjectKind::Grapheme) => true,
            (TextObjectKind::Word, TextObjectKind::Word) => true,
            (TextObjectKind::BigWord, TextObjectKind::BigWord) => true,
            (TextObjectKind::Line, TextObjectKind::Line) => true,
            (TextObjectKind::Paragraph, TextObjectKind::Paragraph) => true,
            (TextObjectKind::Parentheses, TextObjectKind::Parentheses) => true,
            (TextObjectKind::Brackets, TextObjectKind::Brackets) => true,
            (TextObjectKind::Braces, TextObjectKind::Braces) => true,
            (TextObjectKind::Function, TextObjectKind::Function) => true,
            (TextObjectKind::Class, TextObjectKind::Class) => true,
            (TextObjectKind::Statement, TextObjectKind::Statement) => true,
            (TextObjectKind::Parameter, TextObjectKind::Parameter) => true,
            (TextObjectKind::Comment, TextObjectKind::Comment) => true,
            (TextObjectKind::String, TextObjectKind::String) => true,
            (TextObjectKind::Pattern(x), TextObjectKind::Pattern(y)) => String::eq(x, y),
            _ => false,
        }
    }
}

impl vstd::std_specs::cmp::PartialEqSpecImpl for TextObjectKind {
    open spec fn obeys_eq_spec() -> bool {
        true
    }

    open spec fn eq_spec(&self, other: &TextObjectKind) -> bool {
        kind_eq(*self, *other)
    }
}

/// Whether to resolve the inner content of an object or the object together
/// with its delimiters.
#[derive(Debug, Clone, Copy, PartialEq, Eq, Structural)]
pub enum Selection {
    Inner,
    Around,
}

/// A complete text object request.
#[derive(Debug)]
pub struct TextObject {
    pub kind: TextObjectKind,
    pub selection: Selection,
}

impl TextObject {
    pub fn grapheme() -> (r: TextObject)
        ensures
            r.kind is Grapheme,
            r.selection is Around,
    {
        TextObject { kind: TextObjectKind::Grapheme, selection: Selection::Around }
    }

    pub fn word() -> (r: TextObject)
        ensures
            r.kind is Word,
            r.selection is Around,
    {
        TextObject { kind: TextObjectKind::Word, selection: Selection::Around }
    }

    pub fn inner_word() -> (r: TextObject)
        ensures
            r.kind is Word,
            r.selection is Inner,
    {
        TextObject { kind: TextObjectKind::Word, selection: Selection::Inner }
    }

    pub fn big_word() -> (r: TextObject)
        ensures
            r.kind is BigWord,
            r.selection is Around,
    {
        TextObject { kind: TextObjectKind::BigWord, selection: Selection::Around }
    }

    pub fn line() -> (r: TextObject)
        ensures
            r.kind is Line,
            r.selection is Around,
    {
        TextObject { kind: TextObjectKind::Line, selection: Selection::Around }
    }

    pub fn paragraph() -> (r: TextObject)
        ensures
            r.kind is Paragraph,
            r.selection is Around,
    {
        TextObject { kind: TextObjectKind::Paragraph, selection: Selection::Around }
    }

    pub fn inner_parens() -> (r: TextObject)
        ensures
            r.kind is Parentheses,
            r.selection is Inner,
    {
        TextObject { kind: TextObjectKind::Parentheses, selection: Selection::Inner }
    }

    pub fn around_parens() -> (r: TextObject)
        ensures
            r.kind is Parentheses,
            r.selection is Around,
    {
        TextObject { kind: TextObjectKind::Parentheses, selection: Selection::Around }
    }

    pub fn inner_brackets() -> (r: TextObject)
        ensures
            r.kind is Brackets,
            r.selection is Inner,
    {
        TextObject { kind: TextObjectKind::Brackets, selection: Selection::Inner }
    }

    pub fn around_brackets() -> (r: TextObject)
        ensures
            r.kind is Brackets,
            r.selection is Around,
    {
        TextObject { kind: TextObjectKind::Brackets, selection: Selection::Around }
    }

    pub fn inner_braces() -> (r: TextObject)
        ensures
            r.kind is Braces,
            r.selection is Inner,
    {
        TextObject { kind: TextObjectKind::Braces, selection: Selection::Inner }
    }

    pub fn around_braces() -> (r: TextObject)
        ensures
            r.kind is Braces,
            r.selection is Around,
    {
        TextObject { kind: TextObjectKind::Braces, selection: Selection::Around }
    }

    pub fn function() -> (r: TextObject)
        ensures
            r.kind is Function,
            r.selection is Around,
    {
        TextObject { kind: TextObjectKind::Function, selection: Selection::Around }
    }

    pub fn inner_function() -> (r: TextObject)
        ensures
            r.kind is Function,
            r.selection is Inner,
    {
        TextObject { kind: TextObjectKind::Function, selection: Selection::Inner }
    }

    pub fn class() -> (r: TextObject)
        ensures
            r.kind is Class,
            r.selection is Around,
    {
        TextObject { kind: TextObjectKind::Class, selection: Selection::Around }
    }

    pub fn inner_class() -> (r: TextObject)
        ensures
            r.kind is Class,
            r.selection is Inner,
    {
        TextObject { kind: TextObjectKind::Class, selection: Selection::Inner }
    }
}

} // verus!

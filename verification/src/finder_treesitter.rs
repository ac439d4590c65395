//! The syntax-aware text object finder. Its kinds are reserved in this core:
//! no grammar is ever loaded, and every request resolves as unsupported.
use vstd::prelude::*;

use crate::TextRange;
use crate::navigator::TextNavigator;
use crate::textobject::{TextObject, TextObjectKind};

verus! {

#[derive(Debug)]
pub struct TreeSitterTextObjectFinder {
    supported: Vec<TextObjectKind>,
    grammar_loaded: bool,
}

/// The exact supported list the syntax-aware finder claims, in registration
/// order.
pub open spec fn syntax_kinds_list() -> Seq<TextObjectKind> {
    seq![
        TextObjectKind::Function,
        TextObjectKind::Class,
        TextObjectKind::Statement,
        TextObjectKind::Parameter,
        TextObjectKind::Comment,
        TextObjectKind::String,
    ]
}

/// The kinds this finder would resolve, had it a grammar.
pub open spec fn syntax_kind_supported(kind: TextObjectKind) -> bool {
    ||| kind is Function
    ||| kind is Class
    ||| kind is Statement
    ||| kind is Parameter
    ||| kind is Comment
    ||| kind is String
}

impl TreeSitterTextObjectFinder {
    pub fn new() -> (r: TreeSitterTextObjectFinder)
        ensures
            !r.spec_has_grammar(),
            r.supported_kinds_spec() == syntax_kinds_list(),
            forall|i: int|
                0 <= i < r.supported_kinds_spec().len() ==> syntax_kind_supported(
                    #[trigger] r.supported_kinds_spec()[i],
                ),
    {
        let mut supported: Vec<TextObjectKind> = Vec::new();
        supported.push(TextObjectKind::Function);
        supported.push(TextObjectKind::Class);
        supported.push(TextObjectKind::Statement);
        supported.push(TextObjectKind::Parameter);
        supported.push(TextObjectKind::Comment);
        supported.push(TextObjectKind::String);
        let r = TreeSitterTextObjectFinder { supported, grammar_loaded: false };
        proof {
            assert(r.supported_kinds_spec() =~= syntax_kinds_list());
        }
        r
    }

    pub closed spec fn supported_kinds_spec(&self) -> Seq<TextObjectKind> {
        self.supported@
    }

    pub closed spec fn spec_has_grammar(&self) -> bool {
        self.grammar_loaded
    }

    /// A finder for a specific language; no grammar is available in this
    /// core, so no language yields one.
    pub fn with_language(language: &str) -> (r: Option<TreeSitterTextObjectFinder>)
        ensures
            r is None,
    {
        None
    }

    /// Whether a grammar is loaded; never, in this core.
    pub fn has_grammar(&self) -> (r: bool)
        ensures
            r == self.spec_has_grammar(),
    {
        self.grammar_loaded
    }

    pub fn supported_kinds(&self) -> (r: &Vec<TextObjectKind>)
        ensures
            r@ == self.supported_kinds_spec(),
    {
        &self.supported
    }

    /// Syntax-aware resolution is unsupported: every request yields nothing.
    pub fn find_at<N: TextNavigator>(&self, navigator: &N, pos: usize, text_obj: &TextObject) -> (r:
        Option<TextRange>)
        ensures
            r is None,
    {
        None
    }

    pub fn find_next<N: TextNavigator>(&self, navigator: &N, pos: usize, text_obj: &TextObject) -> (r:
        Option<TextRange>)
        ensures
            r is None,
    {
        None
    }

    pub fn find_prev<N: TextNavigator>(&self, navigator: &N, pos: usize, text_obj: &TextObject) -> (r:
        Option<TextRange>)
        ensures
            r is None,
    {
        None
    }
}

impl Default for TreeSitterTextObjectFinder {
    fn default() -> (r: TreeSitterTextObjectFinder)
        ensures
            !r.spec_has_grammar(),
            r.supported_kinds_spec() == syntax_kinds_list(),
    {
        TreeSitterTextObjectFinder::new()
    }
}

} // verus!

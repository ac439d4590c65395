//! The capability registry of text object finders. Registration is ordered:
//! the finder registered last for a kind shadows the earlier ones, and a kind
//! no registered finder handles resolves to nothing, never to a guess.
use vstd::prelude::*;

use crate::TextRange;
use crate::finder_basic::{
    BasicTextObjectFinder, basic_find_at_spec, basic_finder_complete, basic_kinds_list,
    find_next_from_spec, find_prev_from_spec, range_opt_matches,
};
use crate::finder_treesitter::TreeSitterTextObjectFinder;
use crate::navigator::TextNavigator;
use crate::textobject::{TextObject, TextObjectKind, kind_eq};

verus! {

/// The closed set of finder implementations a registry can hold.
#[derive(Debug)]
pub enum RegisteredFinder {
    Basic(BasicTextObjectFinder),
    TreeSitter(TreeSitterTextObjectFinder),
}

/// Whether a finder claims the kind in its supported list.
pub open spec fn finder_handles(f: RegisteredFinder, kind: TextObjectKind) -> bool {
    match f {
        RegisteredFinder::Basic(b) => exists|i: int|
            0 <= i < b.supported_kinds_spec().len() && kind_eq(
                #[trigger] b.supported_kinds_spec()[i],
                kind,
            ),
        RegisteredFinder::TreeSitter(t) => exists|i: int|
            0 <= i < t.supported_kinds_spec().len() && kind_eq(
                #[trigger] t.supported_kinds_spec()[i],
                kind,
            ),
    }
}

/// The finder that serves a kind: the last registered one that handles it.
pub open spec fn capable_index(fs: Seq<RegisteredFinder>, kind: TextObjectKind) -> Option<int>
    decreases fs.len(),
{
    if fs.len() == 0 {
        None
    } else if finder_handles(fs.last(), kind) {
        Some(fs.len() - 1)
    } else {
        capable_index(fs.drop_last(), kind)
    }
}

/// What the registry resolves a request to: nothing for an unregistered
/// kind, the basic finder's answer where it serves, and nothing from the
/// syntax-aware finder, which has no grammar in this core.
pub open spec fn registry_find_at_spec(
    fs: Seq<RegisteredFinder>,
    s: Seq<char>,
    pos: int,
    kind: TextObjectKind,
    mode: crate::textobject::Selection,
) -> Option<(int, int)> {
    match capable_index(fs, kind) {
        None => None,
        Some(i) => match fs[i] {
            RegisteredFinder::Basic(_) => basic_find_at_spec(s, pos, kind, mode),
            RegisteredFinder::TreeSitter(_) => None,
        },
    }
}

pub open spec fn registry_find_next_spec(
    fs: Seq<RegisteredFinder>,
    s: Seq<char>,
    pos: int,
    kind: TextObjectKind,
    mode: crate::textobject::Selection,
) -> Option<(int, int)> {
    match capable_index(fs, kind) {
        None => None,
        Some(i) => match fs[i] {
            RegisteredFinder::Basic(_) => find_next_from_spec(s, pos, kind, mode, pos + 1),
            RegisteredFinder::TreeSitter(_) => None,
        },
    }
}

pub open spec fn registry_find_prev_spec(
    fs: Seq<RegisteredFinder>,
    s: Seq<char>,
    pos: int,
    kind: TextObjectKind,
    mode: crate::textobject::Selection,
) -> Option<(int, int)> {
    match capable_index(fs, kind) {
        None => None,
        Some(i) => match fs[i] {
            RegisteredFinder::Basic(_) => find_prev_from_spec(s, pos, kind, mode, pos - 1),
            RegisteredFinder::TreeSitter(_) => None,
        },
    }
}

#[derive(Debug)]
pub struct TextObjectRegistry {
    finders: Vec<RegisteredFinder>,
}

/// Membership of a kind in a supported list.
fn kinds_contains(v: &Vec<TextObjectKind>, kind: &TextObjectKind) -> (r: bool)
    ensures
        r == exists|i: int| 0 <= i < v@.len() && kind_eq(#[trigger] v@[i], *kind),
{
    let mut i: usize = 0;
    while i < v.len()
        invariant
            i <= v@.len(),
            forall|j: int| 0 <= j < i ==> !kind_eq(#[trigger] v@[j], *kind),
        decreases v@.len() - i,
    {
        if v[i].eq(kind) {
            return true;
        }
        i += 1;
    }
    false
}

impl TextObjectRegistry {
    pub closed spec fn finders_spec(&self) -> Seq<RegisteredFinder> {
        self.finders@
    }

    pub fn new() -> (r: TextObjectRegistry)
        ensures
            r.finders_spec() == Seq::<RegisteredFinder>::empty(),
    {
        TextObjectRegistry { finders: Vec::new() }
    }

    /// Register a finder; it takes priority over earlier ones for every kind
    /// it handles.
    pub fn register_finder(&mut self, finder: RegisteredFinder)
        ensures
            final(self).finders_spec() == old(self).finders_spec().push(finder),
    {
        self.finders.push(finder);
    }

    /// A registry with the basic finder registered.
    pub fn with_defaults() -> (r: TextObjectRegistry)
        ensures
            r.finders_spec().len() == 1,
            r.finders_spec()[0] matches RegisteredFinder::Basic(b) && basic_finder_complete(b)
                && b.supported_kinds_spec() == basic_kinds_list(),
    {
        let mut registry = TextObjectRegistry::new();
        registry.register_finder(RegisteredFinder::Basic(BasicTextObjectFinder::new()));
        registry
    }

    /// The last registered finder that handles the kind.
    #[verifier::loop_isolation(true)]
    fn find_capable_finder(&self, kind: &TextObjectKind) -> (r: Option<usize>)
        ensures
            (match r {
                Some(i) => Some(i as int) == capable_index(self.finders_spec(), *kind) && i
                    < self.finders_spec().len(),
                None => capable_index(self.finders_spec(), *kind) is None,
            }),
    {
        let ghost fs = self.finders@;
        let mut k = self.finders.len();
        proof {
            assert(fs.take(fs.len() as int) =~= fs);
        }
        while k > 0
            invariant
                fs == self.finders@,
                k <= fs.len(),
                capable_index(fs, *kind) == capable_index(fs.take(k as int), *kind),
            ensures
                k == 0,
                capable_index(fs, *kind) == capable_index(fs.take(k as int), *kind),
            decreases k,
        {
            proof {
                assert(fs.take(k as int).last() == fs[k - 1]);
                assert(fs.take(k as int).drop_last() =~= fs.take(k as int - 1));
            }
            let handles = match &self.finders[k - 1] {
                RegisteredFinder::Basic(b) => kinds_contains(b.supported_kinds(), kind),
                RegisteredFinder::TreeSitter(t) => kinds_contains(t.supported_kinds(), kind),
            };
            if handles {
                return Some(k - 1);
            }
            k -= 1;
        }
        proof {
            assert(fs.take(0) =~= Seq::<RegisteredFinder>::empty());
        }
        None
    }

    /// Resolve a text object at `pos` through the capable finder.
    pub fn find_at<N: TextNavigator>(&self, navigator: &N, pos: usize, text_obj: &TextObject) -> (r:
        Option<TextRange>)
        ensures
            range_opt_matches(
                r,
                registry_find_at_spec(
                    self.finders_spec(),
                    navigator.text(),
                    pos as int,
                    text_obj.kind,
                    text_obj.selection,
                ),
            ),
    {
        match self.find_capable_finder(&text_obj.kind) {
            None => None,
            Some(idx) => match &self.finders[idx] {
                RegisteredFinder::Basic(b) => b.find_at(navigator, pos, text_obj),
                RegisteredFinder::TreeSitter(t) => t.find_at(navigator, pos, text_obj),
            },
        }
    }

    /// Resolve the next occurrence after `pos` through the capable finder.
    pub fn find_next<N: TextNavigator>(&self, navigator: &N, pos: usize, text_obj: &TextObject) -> (r:
        Option<TextRange>)
        ensures
            pos < usize::MAX ==> range_opt_matches(
                r,
                registry_find_next_spec(
                    self.finders_spec(),
                    navigator.text(),
                    pos as int,
                    text_obj.kind,
                    text_obj.selection,
                ),
            ),
            pos == usize::MAX ==> r is None,
    {
        match self.find_capable_finder(&text_obj.kind) {
            None => None,
            Some(idx) => match &self.finders[idx] {
                RegisteredFinder::Basic(b) => b.find_next(navigator, pos, text_obj),
                RegisteredFinder::TreeSitter(t) => t.find_next(navigator, pos, text_obj),
            },
        }
    }

    /// Resolve the previous occurrence before `pos` through the capable
    /// finder.
    pub fn find_prev<N: TextNavigator>(&self, navigator: &N, pos: usize, text_obj: &TextObject) -> (r:
        Option<TextRange>)
        ensures
            range_opt_matches(
                r,
                registry_find_prev_spec(
                    self.finders_spec(),
                    navigator.text(),
                    pos as int,
                    text_obj.kind,
                    text_obj.selection,
                ),
            ),
    {
        match self.find_capable_finder(&text_obj.kind) {
            None => None,
            Some(idx) => match &self.finders[idx] {
                RegisteredFinder::Basic(b) => b.find_prev(navigator, pos, text_obj),
                RegisteredFinder::TreeSitter(t) => t.find_prev(navigator, pos, text_obj),
            },
        }
    }

    /// Whether some registered finder handles the kind.
    pub fn supports(&self, kind: &TextObjectKind) -> (r: bool)
        ensures
            r == (capable_index(self.finders_spec(), *kind) is Some),
    {
        match self.find_capable_finder(kind) {
            None => false,
            Some(_) => true,
        }
    }
}

impl Default for TextObjectRegistry {
    fn default() -> (r: TextObjectRegistry)
        ensures
            r.finders_spec().len() == 1,
            r.finders_spec()[0] matches RegisteredFinder::Basic(b) && basic_finder_complete(b)
                && b.supported_kinds_spec() == basic_kinds_list(),
    {
        TextObjectRegistry::with_defaults()
    }
}

} // verus!

//! The command registry: resolves a command name and an optional parameter
//! string into an executable operation, or a descriptive error. Single-letter
//! aliases resolve to the identical operation as their long-form name.
use vstd::prelude::*;

use vstd::string::StrSliceExecFns;

use crate::chars::str_eq;
use crate::operations::{
    FindNext, FindPrevious, InsertChar, InsertSpaces, InsertString, JumpToCharacter, JumpToLine,
    Operation, Paste, Replace, ReplaceAll, SaveAs, SwitchMode, first_match_from, match_at,
};

verus! {

/// The failures this core reports. Lookup misses of text objects are normal
/// empty results; an empty history is a normal no-op; both variants exist for
/// hosts that want to surface them.
#[derive(Debug)]
pub enum EditorError {
    UnknownOperation,
    InvalidParameter(String),
    UnsupportedTextObjectKind,
    NoTextObjectFound,
    UnbalancedDelimiter,
    EmptyHistory,
}

/// A decimal digit.
pub open spec fn is_digit(c: char) -> bool {
    '0' <= c && c <= '9'
}

pub open spec fn digit_val(c: char) -> int {
    (c as u32) as int - ('0' as u32) as int
}

/// The value of a digit string.
pub open spec fn dec_val(s: Seq<char>) -> int
    decreases s.len(),
{
    if s.len() == 0 {
        0
    } else {
        dec_val(s.drop_last()) * 10 + digit_val(s.last())
    }
}

/// What parsing a number means: a non-empty all-digit string whose value
/// fits, and nothing else.
pub open spec fn parse_usize_spec(s: Seq<char>) -> Option<int> {
    if s.len() > 0 && (forall|i: int| 0 <= i < s.len() ==> is_digit(#[trigger] s[i])) && dec_val(s)
        <= usize::MAX {
        Some(dec_val(s))
    } else {
        None
    }
}

proof fn lemma_dec_val_nonneg(s: Seq<char>)
    requires
        forall|i: int| 0 <= i < s.len() ==> is_digit(#[trigger] s[i]),
    ensures
        dec_val(s) >= 0,
    decreases s.len(),
{
    if s.len() > 0 {
        assert(forall|i: int|
            0 <= i < s.drop_last().len() ==> is_digit(#[trigger] s.drop_last()[i]));
        lemma_dec_val_nonneg(s.drop_last());
    }
}

/// A digit string's value only grows with more digits.
proof fn lemma_dec_val_prefix(s: Seq<char>, j: int)
    requires
        forall|i: int| 0 <= i < s.len() ==> is_digit(#[trigger] s[i]),
        0 <= j <= s.len(),
    ensures
        dec_val(s.take(j)) <= dec_val(s),
    decreases s.len() - j,
{
    if j < s.len() {
        assert(s.take(j + 1).drop_last() =~= s.take(j));
        assert(s.take(j + 1).last() == s[j]);
        assert(forall|i: int| 0 <= i < s.take(j).len() ==> is_digit(#[trigger] s.take(j)[i]));
        lemma_dec_val_nonneg(s.take(j));
        assert(dec_val(s.take(j)) <= dec_val(s.take(j + 1)));
        lemma_dec_val_prefix(s, j + 1);
        assert(s.take(s.len() as int) =~= s);
    } else {
        assert(s.take(j) =~= s);
    }
}

/// Parse a non-negative decimal number.
pub fn parse_usize(s: &str) -> (r: Option<usize>)
    ensures
        (match r {
            Some(v) => parse_usize_spec(s@) == Some(v as int),
            None => parse_usize_spec(s@) is None,
        }),
{
    let ghost t = s@;
    let n = s.unicode_len();
    if n == 0 {
        return None;
    }
    let mut value: usize = 0;
    let mut i: usize = 0;
    while i < n
        invariant
            n == t.len(),
            i <= n,
            forall|j: int| 0 <= j < i ==> is_digit(#[trigger] t[j]),
            value as int == dec_val(t.take(i as int)),
        decreases n - i,
    {
        let c = s.get_char(i);
        if !(c >= '0' && c <= '9') {
            return None;
        }
        let d = (c as u32 - '0' as u32) as usize;
        proof {
            assert(t.take(i + 1).drop_last() =~= t.take(i as int));
            assert(t.take(i + 1).last() == t[i as int]);
        }
        if value > (usize::MAX - d) / 10 {
            proof {
                lemma_dec_val_nonneg(t.take(i as int));
                assert(dec_val(t.take(i + 1)) > usize::MAX);
                if forall|j: int| 0 <= j < t.len() ==> is_digit(#[trigger] t[j]) {
                    lemma_dec_val_prefix(t, i + 1);
                }
            }
            return None;
        }
        value = value * 10 + d;
        i += 1;
    }
    proof {
        assert(t.take(n as int) =~= t);
    }
    Some(value)
}

/// The registry of named operations; the table is pure data, so every
/// instance resolves the same names.
#[derive(Debug)]
pub struct OperationRegistry {}

/// The names the registry resolves, long forms and aliases alike.
pub open spec fn name_known(n: Seq<char>) -> bool {
    ||| n == "move_left"@ || n == "h"@ || n == "move_right"@ || n == "l"@
    ||| n == "move_up"@ || n == "k"@ || n == "move_down"@ || n == "j"@
    ||| n == "move_line_start"@ || n == "0"@ || n == "move_line_end"@ || n == "$"@
    ||| n == "move_word_forward"@ || n == "w"@ || n == "move_word_backward"@ || n == "b"@
    ||| n == "move_big_word_forward"@ || n == "W"@ || n == "move_big_word_backward"@ || n == "B"@
    ||| n == "move_document_start"@ || n == "gg"@ || n == "move_document_end"@ || n == "G"@
    ||| n == "move_matching_bracket"@ || n == "move_paragraph_forward"@ || n
        == "move_paragraph_backward"@
    ||| n == "select_left"@ || n == "select_right"@ || n == "select_up"@ || n == "select_down"@
    ||| n == "select_word"@ || n == "select_line"@ || n == "select_all"@
    ||| n == "select_line_start"@ || n == "select_line_end"@ || n == "clear_selection"@
    ||| n == "insert_char"@ || n == "insert_string"@ || n == "insert_newline"@
    ||| n == "insert_tab"@ || n == "insert_spaces"@
    ||| n == "delete_char"@ || n == "x"@ || n == "backspace"@ || n == "X"@
    ||| n == "delete_word"@ || n == "delete_word_backward"@
    ||| n == "delete_line"@ || n == "dd"@ || n == "delete_to_line_start"@ || n
        == "delete_to_line_end"@
    ||| n == "copy"@ || n == "yy"@ || n == "cut"@ || n == "paste"@ || n == "p"@
    ||| n == "uppercase_selection"@ || n == "lowercase_selection"@ || n
        == "toggle_case_selection"@
    ||| n == "indent_selection"@ || n == "unindent_selection"@
    ||| n == "duplicate_line"@ || n == "move_line_up"@ || n == "move_line_down"@
    ||| n == "insert_line_above"@ || n == "O"@ || n == "insert_line_below"@ || n == "o"@
    ||| n == "find_next"@ || n == "find_previous"@ || n == "replace"@ || n == "replace_all"@
    ||| n == "undo"@ || n == "u"@ || n == "redo"@ || n == "r"@
    ||| n == "switch_mode"@ || n == "exit"@ || n == "save"@ || n == "save_as"@
    ||| n == "jump_to_line"@ || n == "jump_to_character"@ || n == ":"@
}

/// Every registered name, aliases included, in ascending order; exactly
/// the sequence `list_operations` yields.
pub open spec fn op_names_list() -> Seq<Seq<char>> {
    seq![
        "$"@,
        "0"@,
        ":"@,
        "B"@,
        "G"@,
        "O"@,
        "W"@,
        "X"@,
        "b"@,
        "backspace"@,
        "clear_selection"@,
        "copy"@,
        "cut"@,
        "dd"@,
        "delete_char"@,
        "delete_line"@,
        "delete_to_line_end"@,
        "delete_to_line_start"@,
        "delete_word"@,
        "delete_word_backward"@,
        "duplicate_line"@,
        "exit"@,
        "find_next"@,
        "find_previous"@,
        "gg"@,
        "h"@,
        "indent_selection"@,
        "insert_char"@,
        "insert_line_above"@,
        "insert_line_below"@,
        "insert_newline"@,
        "insert_spaces"@,
        "insert_string"@,
        "insert_tab"@,
        "j"@,
        "jump_to_character"@,
        "jump_to_line"@,
        "k"@,
        "l"@,
        "lowercase_selection"@,
        "move_big_word_backward"@,
        "move_big_word_forward"@,
        "move_document_end"@,
        "move_document_start"@,
        "move_down"@,
        "move_left"@,
        "move_line_down"@,
        "move_line_end"@,
        "move_line_start"@,
        "move_line_up"@,
        "move_matching_bracket"@,
        "move_paragraph_backward"@,
        "move_paragraph_forward"@,
        "move_right"@,
        "move_up"@,
        "move_word_backward"@,
        "move_word_forward"@,
        "o"@,
        "p"@,
        "paste"@,
        "r"@,
        "redo"@,
        "replace"@,
        "replace_all"@,
        "save"@,
        "save_as"@,
        "select_all"@,
        "select_down"@,
        "select_left"@,
        "select_line"@,
        "select_line_end"@,
        "select_line_start"@,
        "select_right"@,
        "select_up"@,
        "select_word"@,
        "switch_mode"@,
        "toggle_case_selection"@,
        "u"@,
        "undo"@,
        "unindent_selection"@,
        "uppercase_selection"@,
        "w"@,
        "x"@,
        "yy"@,
    ]
}

/// What `create` yields for a known parameterized name, given the parameter
/// text, and for everything else.
pub open spec fn creates_post(
    name: Seq<char>,
    params: Seq<char>,
    r: Result<Operation, EditorError>,
) -> bool {
    if name == "move_left"@ || name == "h"@ {
        r matches Ok(op) && op is MoveLeft
    } else if name == "move_right"@ || name == "l"@ {
        r matches Ok(op) && op is MoveRight
    } else if name == "move_up"@ || name == "k"@ {
        r matches Ok(op) && op is MoveUp
    } else if name == "move_down"@ || name == "j"@ {
        r matches Ok(op) && op is MoveDown
    } else if name == "move_line_start"@ || name == "0"@ {
        r matches Ok(op) && op is MoveLineStart
    } else if name == "move_line_end"@ || name == "$"@ {
        r matches Ok(op) && op is MoveLineEnd
    } else if name == "move_word_forward"@ || name == "w"@ {
        r matches Ok(op) && op is MoveWordForward
    } else if name == "move_word_backward"@ || name == "b"@ {
        r matches Ok(op) && op is MoveWordBackward
    } else if name == "move_big_word_forward"@ || name == "W"@ {
        r matches Ok(op) && op is MoveBigWordForward
    } else if name == "move_big_word_backward"@ || name == "B"@ {
        r matches Ok(op) && op is MoveBigWordBackward
    } else if name == "move_document_start"@ || name == "gg"@ {
        r matches Ok(op) && op is MoveDocumentStart
    } else if name == "move_document_end"@ || name == "G"@ {
        r matches Ok(op) && op is MoveDocumentEnd
    } else if name == "move_matching_bracket"@ {
        r matches Ok(op) && op is MoveMatchingBracket
    } else if name == "move_paragraph_forward"@ {
        r matches Ok(op) && op is MoveParagraphForward
    } else if name == "move_paragraph_backward"@ {
        r matches Ok(op) && op is MoveParagraphBackward
    } else if name == "select_left"@ {
        r matches Ok(op) && op is SelectLeft
    } else if name == "select_right"@ {
        r matches Ok(op) && op is SelectRight
    } else if name == "select_up"@ {
        r matches Ok(op) && op is SelectUp
    } else if name == "select_down"@ {
        r matches Ok(op) && op is SelectDown
    } else if name == "select_word"@ {
        r matches Ok(op) && op is SelectWord
    } else if name == "select_line"@ {
        r matches Ok(op) && op is SelectLine
    } else if name == "select_all"@ {
        r matches Ok(op) && op is SelectAll
    } else if name == "select_line_start"@ {
        r matches Ok(op) && op is SelectLineStart
    } else if name == "select_line_end"@ {
        r matches Ok(op) && op is SelectLineEnd
    } else if name == "clear_selection"@ {
        r matches Ok(op) && op is ClearSelection
    } else if name == "insert_char"@ {
        if params.len() == 1 {
            r matches Ok(op) && op matches Operation::InsertChar(p) && p.ch == params[0]
        } else {
            r matches Err(e) && e is InvalidParameter
        }
    } else if name == "insert_string"@ {
        if params.len() > 0 {
            r matches Ok(op) && op matches Operation::InsertString(p) && p.text@ == params
        } else {
            r matches Err(e) && e is InvalidParameter
        }
    } else if name == "insert_newline"@ {
        r matches Ok(op) && op is InsertNewline
    } else if name == "insert_tab"@ {
        r matches Ok(op) && op is InsertTab
    } else if name == "insert_spaces"@ {
        r matches Ok(op) && op matches Operation::InsertSpaces(p) && p.count as int == (
        match parse_usize_spec(params) {
            Some(v) => v,
            None => 1,
        })
    } else if name == "delete_char"@ || name == "x"@ {
        r matches Ok(op) && op is DeleteChar
    } else if name == "backspace"@ || name == "X"@ {
        r matches Ok(op) && op is Backspace
    } else if name == "delete_word"@ {
        r matches Ok(op) && op is DeleteWord
    } else if name == "delete_word_backward"@ {
        r matches Ok(op) && op is DeleteWordBackward
    } else if name == "delete_line"@ || name == "dd"@ {
        r matches Ok(op) && op is DeleteLine
    } else if name == "delete_to_line_start"@ {
        r matches Ok(op) && op is DeleteToLineStart
    } else if name == "delete_to_line_end"@ {
        r matches Ok(op) && op is DeleteToLineEnd
    } else if name == "copy"@ || name == "yy"@ {
        r matches Ok(op) && op is Copy
    } else if name == "cut"@ {
        r matches Ok(op) && op is Cut
    } else if name == "paste"@ || name == "p"@ {
        r matches Ok(op) && op matches Operation::Paste(p) && p.text@ == params
    } else if name == "uppercase_selection"@ {
        r matches Ok(op) && op is UppercaseSelection
    } else if name == "lowercase_selection"@ {
        r matches Ok(op) && op is LowercaseSelection
    } else if name == "toggle_case_selection"@ {
        r matches Ok(op) && op is ToggleCaseSelection
    } else if name == "indent_selection"@ {
        r matches Ok(op) && op is IndentSelection
    } else if name == "unindent_selection"@ {
        r matches Ok(op) && op is UnindentSelection
    } else if name == "duplicate_line"@ {
        r matches Ok(op) && op is DuplicateLine
    } else if name == "move_line_up"@ {
        r matches Ok(op) && op is MoveLineUp
    } else if name == "move_line_down"@ {
        r matches Ok(op) && op is MoveLineDown
    } else if name == "insert_line_above"@ || name == "O"@ {
        r matches Ok(op) && op is InsertLineAbove
    } else if name == "insert_line_below"@ || name == "o"@ {
        r matches Ok(op) && op is InsertLineBelow
    } else if name == "find_next"@ {
        if params.len() > 0 {
            r matches Ok(op) && op matches Operation::FindNext(p) && p.pattern@ == params
        } else {
            r matches Err(e) && e is InvalidParameter
        }
    } else if name == "find_previous"@ {
        if params.len() > 0 {
            r matches Ok(op) && op matches Operation::FindPrevious(p) && p.pattern@ == params
        } else {
            r matches Err(e) && e is InvalidParameter
        }
    } else if name == "replace"@ {
        match first_match_from(params, " with "@, 0) {
            Some(i) => r matches Ok(op) && op matches Operation::Replace(p) && p.pattern@
                == params.take(i) && p.replacement@ == params.skip(i + " with "@.len()),
            None => r matches Err(e) && e is InvalidParameter,
        }
    } else if name == "replace_all"@ {
        match first_match_from(params, " with "@, 0) {
            Some(i) => r matches Ok(op) && op matches Operation::ReplaceAll(p) && p.pattern@
                == params.take(i) && p.replacement@ == params.skip(i + " with "@.len()),
            None => r matches Err(e) && e is InvalidParameter,
        }
    } else if name == "undo"@ || name == "u"@ {
        r matches Ok(op) && op is Undo
    } else if name == "redo"@ || name == "r"@ {
        r matches Ok(op) && op is Redo
    } else if name == "switch_mode"@ {
        if params.len() > 0 {
            r matches Ok(op) && op matches Operation::SwitchMode(p) && p.target_mode@ == params
        } else {
            r matches Err(e) && e is InvalidParameter
        }
    } else if name == "exit"@ {
        r matches Ok(op) && op is Exit
    } else if name == "save"@ {
        r matches Ok(op) && op is Save
    } else if name == "save_as"@ {
        if params.len() > 0 {
            r matches Ok(op) && op matches Operation::SaveAs(p) && p.path@ == params
        } else {
            r matches Err(e) && e is InvalidParameter
        }
    } else if name == "jump_to_line"@ {
        match parse_usize_spec(params) {
            Some(v) => r matches Ok(op) && op matches Operation::JumpToLine(p) && p.line_number
                as int == v,
            None => r matches Err(e) && e is InvalidParameter,
        }
    } else if name == "jump_to_character"@ {
        match parse_usize_spec(params) {
            Some(v) => r matches Ok(op) && op matches Operation::JumpToCharacter(p) && p.position
                as int == v,
            None => r matches Err(e) && e is InvalidParameter,
        }
    } else if name == ":"@ {
        if params == "q"@ {
            r matches Ok(op) && op is Exit
        } else if params == "w"@ || params == "wq"@ {
            r matches Ok(op) && op is Save
        } else if params.len() > 2 && params.take(2) == "w "@ {
            r matches Ok(op) && op matches Operation::SaveAs(p) && p.path@ == params.skip(2)
        } else {
            r matches Err(e) && e is InvalidParameter
        }
    } else {
        r matches Err(e) && e is UnknownOperation
    }
}

impl OperationRegistry {
    pub fn new() -> (r: OperationRegistry)
    {
        OperationRegistry {  }
    }

    /// Whether a command name is registered.
    pub fn has_operation(&self, name: &str) -> (r: bool)
        ensures
            r == name_known(name@),
    {
        str_eq(name, "move_left") || str_eq(name, "h") || str_eq(name, "move_right") || str_eq(
            name,
            "l",
        ) || str_eq(name, "move_up") || str_eq(name, "k") || str_eq(name, "move_down") || str_eq(
            name,
            "j",
        ) || str_eq(name, "move_line_start") || str_eq(name, "0") || str_eq(name, "move_line_end")
            || str_eq(name, "$") || str_eq(name, "move_word_forward") || str_eq(name, "w")
            || str_eq(name, "move_word_backward") || str_eq(name, "b") || str_eq(
            name,
            "move_big_word_forward",
        ) || str_eq(name, "W") || str_eq(name, "move_big_word_backward") || str_eq(name, "B")
            || str_eq(name, "move_document_start") || str_eq(name, "gg") || str_eq(
            name,
            "move_document_end",
        ) || str_eq(name, "G") || str_eq(name, "move_matching_bracket") || str_eq(
            name,
            "move_paragraph_forward",
        ) || str_eq(name, "move_paragraph_backward") || str_eq(name, "select_left") || str_eq(
            name,
            "select_right",
        ) || str_eq(name, "select_up") || str_eq(name, "select_down") || str_eq(name, "select_word")
            || str_eq(name, "select_line") || str_eq(name, "select_all") || str_eq(
            name,
            "select_line_start",
        ) || str_eq(name, "select_line_end") || str_eq(name, "clear_selection") || str_eq(
            name,
            "insert_char",
        ) || str_eq(name, "insert_string") || str_eq(name, "insert_newline") || str_eq(
            name,
            "insert_tab",
        ) || str_eq(name, "insert_spaces") || str_eq(name, "delete_char") || str_eq(name, "x")
            || str_eq(name, "backspace") || str_eq(name, "X") || str_eq(name, "delete_word")
            || str_eq(name, "delete_word_backward") || str_eq(name, "delete_line") || str_eq(
            name,
            "dd",
        ) || str_eq(name, "delete_to_line_start") || str_eq(name, "delete_to_line_end") || str_eq(
            name,
            "copy",
        ) || str_eq(name, "yy") || str_eq(name, "cut") || str_eq(name, "paste") || str_eq(name, "p")
            || str_eq(name, "uppercase_selection") || str_eq(name, "lowercase_selection")
            || str_eq(name, "toggle_case_selection") || str_eq(name, "indent_selection") || str_eq(
            name,
            "unindent_selection",
        ) || str_eq(name, "duplicate_line") || str_eq(name, "move_line_up") || str_eq(
            name,
            "move_line_down",
        ) || str_eq(name, "insert_line_above") || str_eq(name, "O") || str_eq(
            name,
            "insert_line_below",
        ) || str_eq(name, "o") || str_eq(name, "find_next") || str_eq(name, "find_previous")
            || str_eq(name, "replace") || str_eq(name, "replace_all") || str_eq(name, "undo")
            || str_eq(name, "u") || str_eq(name, "redo") || str_eq(name, "r") || str_eq(
            name,
            "switch_mode",
        ) || str_eq(name, "exit") || str_eq(name, "save") || str_eq(name, "save_as") || str_eq(
            name,
            "jump_to_line",
        ) || str_eq(name, "jump_to_character") || str_eq(name, ":")
    }

    /// Split `params` at the first " with " into a pattern and a replacement.
    #[verifier::loop_isolation(true)]
    fn split_with(params: &str) -> (r: Option<(String, String)>)
        ensures
            (match r {
                Some(pr) => first_match_from(params@, " with "@, 0) matches Some(i) && pr.0@
                    == params@.take(i) && pr.1@ == params@.skip(i + " with "@.len()),
                None => first_match_from(params@, " with "@, 0) is None,
            }),
    {
        let ghost t = params@;
        let sep = " with ";
        let ghost sp = sep@;
        proof {
            reveal_strlit(" with ");
        }
        let content = crate::operations::str_to_char_vec(params);
        let pat = crate::operations::str_to_char_vec(sep);
        let n = content.len();
        let m = pat.len();
        if m > n {
            proof {
                crate::operations::lemma_first_match_none(t, sp, 0);
            }
            return None;
        }
        let bound = n - m;
        let mut i: usize = 0;
        while i <= bound
            invariant
                t == content@,
                sp == pat@,
                n == t.len(),
                m == sp.len(),
                1 <= m <= n,
                bound == n - m,
                i <= bound + 1,
                first_match_from(t, sp, 0) == first_match_from(t, sp, i as int),
            ensures
                first_match_from(t, sp, 0) == first_match_from(t, sp, i as int),
                i > bound || match_at(t, sp, i as int),
            decreases bound + 1 - i,
        {
            if crate::operations::check_match(&content, &pat, i) {
                break ;
            }
            i += 1;
        }
        if i <= bound {
            let left = params.substring_char(0, i);
            let right = params.substring_char(i + m, n);
            proof {
                assert(left@ =~= t.take(i as int));
                assert(right@ =~= t.skip(i + m));
            }
            Some((left.to_owned(), right.to_owned()))
        } else {
            proof {
                crate::operations::lemma_first_match_none(t, sp, i as int);
            }
            None
        }
    }

    /// Resolve a command name and parameter text into an operation, or report
    /// why it cannot be: an unknown name, or a missing or malformed
    /// parameter.
    pub fn create(&self, name: &str, params: &str) -> (r: Result<Operation, EditorError>)
        ensures
            creates_post(name@, params@, r),
    {
        if str_eq(name, "move_left") || str_eq(name, "h") {
            Ok(Operation::MoveLeft)
        } else if str_eq(name, "move_right") || str_eq(name, "l") {
            Ok(Operation::MoveRight)
        } else if str_eq(name, "move_up") || str_eq(name, "k") {
            Ok(Operation::MoveUp)
        } else if str_eq(name, "move_down") || str_eq(name, "j") {
            Ok(Operation::MoveDown)
        } else if str_eq(name, "move_line_start") || str_eq(name, "0") {
            Ok(Operation::MoveLineStart)
        } else if str_eq(name, "move_line_end") || str_eq(name, "$") {
            Ok(Operation::MoveLineEnd)
        } else if str_eq(name, "move_word_forward") || str_eq(name, "w") {
            Ok(Operation::MoveWordForward)
        } else if str_eq(name, "move_word_backward") || str_eq(name, "b") {
            Ok(Operation::MoveWordBackward)
        } else if str_eq(name, "move_big_word_forward") || str_eq(name, "W") {
            Ok(Operation::MoveBigWordForward)
        } else if str_eq(name, "move_big_word_backward") || str_eq(name, "B") {
            Ok(Operation::MoveBigWordBackward)
        } else if str_eq(name, "move_document_start") || str_eq(name, "gg") {
            Ok(Operation::MoveDocumentStart)
        } else if str_eq(name, "move_document_end") || str_eq(name, "G") {
            Ok(Operation::MoveDocumentEnd)
        } else if str_eq(name, "move_matching_bracket") {
            Ok(Operation::MoveMatchingBracket)
        } else if str_eq(name, "move_paragraph_forward") {
            Ok(Operation::MoveParagraphForward)
        } else if str_eq(name, "move_paragraph_backward") {
            Ok(Operation::MoveParagraphBackward)
        } else if str_eq(name, "select_left") {
            Ok(Operation::SelectLeft)
        } else if str_eq(name, "select_right") {
            Ok(Operation::SelectRight)
        } else if str_eq(name, "select_up") {
            Ok(Operation::SelectUp)
        } else if str_eq(name, "select_down") {
            Ok(Operation::SelectDown)
        } else if str_eq(name, "select_word") {
            Ok(Operation::SelectWord)
        } else if str_eq(name, "select_line") {
            Ok(Operation::SelectLine)
        } else if str_eq(name, "select_all") {
            Ok(Operation::SelectAll)
        } else if str_eq(name, "select_line_start") {
            Ok(Operation::SelectLineStart)
        } else if str_eq(name, "select_line_end") {
            Ok(Operation::SelectLineEnd)
        } else if str_eq(name, "clear_selection") {
            Ok(Operation::ClearSelection)
        } else if str_eq(name, "insert_char") {
            if params.unicode_len() == 1 {
                Ok(Operation::InsertChar(InsertChar::new(params.get_char(0))))
            } else {
                Err(EditorError::InvalidParameter(String::from_str(
                    "insert_char requires exactly one character",
                )))
            }
        } else if str_eq(name, "insert_string") {
            if params.unicode_len() > 0 {
                Ok(Operation::InsertString(InsertString::new(params.to_owned())))
            } else {
                Err(EditorError::InvalidParameter(String::from_str(
                    "insert_string requires text",
                )))
            }
        } else if str_eq(name, "insert_newline") {
            Ok(Operation::InsertNewline)
        } else if str_eq(name, "insert_tab") {
            Ok(Operation::InsertTab)
        } else if str_eq(name, "insert_spaces") {
            let count = match parse_usize(params) {
                Some(v) => v,
                None => 1,
            };
            Ok(Operation::InsertSpaces(InsertSpaces::new(count)))
        } else if str_eq(name, "delete_char") || str_eq(name, "x") {
            Ok(Operation::DeleteChar)
        } else if str_eq(name, "backspace") || str_eq(name, "X") {
            Ok(Operation::Backspace)
        } else if str_eq(name, "delete_word") {
            Ok(Operation::DeleteWord)
        } else if str_eq(name, "delete_word_backward") {
            Ok(Operation::DeleteWordBackward)
        } else if str_eq(name, "delete_line") || str_eq(name, "dd") {
            Ok(Operation::DeleteLine)
        } else if str_eq(name, "delete_to_line_start") {
            Ok(Operation::DeleteToLineStart)
        } else if str_eq(name, "delete_to_line_end") {
            Ok(Operation::DeleteToLineEnd)
        } else if str_eq(name, "copy") || str_eq(name, "yy") {
            Ok(Operation::Copy)
        } else if str_eq(name, "cut") {
            Ok(Operation::Cut)
        } else if str_eq(name, "paste") || str_eq(name, "p") {
            Ok(Operation::Paste(Paste::new(params.to_owned())))
        } else if str_eq(name, "uppercase_selection") {
            Ok(Operation::UppercaseSelection)
        } else if str_eq(name, "lowercase_selection") {
            Ok(Operation::LowercaseSelection)
        } else if str_eq(name, "toggle_case_selection") {
            Ok(Operation::ToggleCaseSelection)
        } else if str_eq(name, "indent_selection") {
            Ok(Operation::IndentSelection)
        } else if str_eq(name, "unindent_selection") {
            Ok(Operation::UnindentSelection)
        } else if str_eq(name, "duplicate_line") {
            Ok(Operation::DuplicateLine)
        } else if str_eq(name, "move_line_up") {
            Ok(Operation::MoveLineUp)
        } else if str_eq(name, "move_line_down") {
            Ok(Operation::MoveLineDown)
        } else if str_eq(name, "insert_line_above") || str_eq(name, "O") {
            Ok(Operation::InsertLineAbove)
        } else if str_eq(name, "insert_line_below") || str_eq(name, "o") {
            Ok(Operation::InsertLineBelow)
        } else if str_eq(name, "find_next") {
            if params.unicode_len() > 0 {
                Ok(Operation::FindNext(FindNext::new(params.to_owned())))
            } else {
                Err(EditorError::InvalidParameter(String::from_str(
                    "find_next requires a search pattern",
                )))
            }
        } else if str_eq(name, "find_previous") {
            if params.unicode_len() > 0 {
                Ok(Operation::FindPrevious(FindPrevious::new(params.to_owned())))
            } else {
                Err(EditorError::InvalidParameter(String::from_str(
                    "find_previous requires a search pattern",
                )))
            }
        } else if str_eq(name, "replace") {
            match Self::split_with(params) {
                Some(pr) => Ok(Operation::Replace(Replace::new(pr.0, pr.1))),
                None => Err(EditorError::InvalidParameter(String::from_str(
                    "replace requires a pattern and a replacement",
                ))),
            }
        } else if str_eq(name, "replace_all") {
            match Self::split_with(params) {
                Some(pr) => Ok(Operation::ReplaceAll(ReplaceAll::new(pr.0, pr.1))),
                None => Err(EditorError::InvalidParameter(String::from_str(
                    "replace_all requires a pattern and a replacement",
                ))),
            }
        } else if str_eq(name, "undo") || str_eq(name, "u") {
            Ok(Operation::Undo)
        } else if str_eq(name, "redo") || str_eq(name, "r") {
            Ok(Operation::Redo)
        } else if str_eq(name, "switch_mode") {
            if params.unicode_len() > 0 {
                Ok(Operation::SwitchMode(SwitchMode::new(params.to_owned())))
            } else {
                Err(EditorError::InvalidParameter(String::from_str(
                    "switch_mode requires a target mode",
                )))
            }
        } else if str_eq(name, "exit") {
            Ok(Operation::Exit)
        } else if str_eq(name, "save") {
            Ok(Operation::Save)
        } else if str_eq(name, "save_as") {
            if params.unicode_len() > 0 {
                Ok(Operation::SaveAs(SaveAs::new(params.to_owned())))
            } else {
                Err(EditorError::InvalidParameter(String::from_str(
                    "save_as requires a file path",
                )))
            }
        } else if str_eq(name, "jump_to_line") {
            match parse_usize(params) {
                Some(v) => Ok(Operation::JumpToLine(JumpToLine::new(v))),
                None => Err(EditorError::InvalidParameter(String::from_str(
                    "jump_to_line requires a valid line number",
                ))),
            }
        } else if str_eq(name, "jump_to_character") {
            match parse_usize(params) {
                Some(v) => Ok(Operation::JumpToCharacter(JumpToCharacter::new(v))),
                None => Err(EditorError::InvalidParameter(String::from_str(
                    "jump_to_character requires a valid position",
                ))),
            }
        } else if str_eq(name, ":") {
            if str_eq(params, "q") {
                Ok(Operation::Exit)
            } else if str_eq(params, "w") || str_eq(params, "wq") {
                Ok(Operation::Save)
            } else {
                let plen = params.unicode_len();
                if plen > 2 {
                    let prefix = params.substring_char(0, 2);
                    if str_eq(prefix, "w ") {
                        let path = params.substring_char(2, plen);
                        return Ok(Operation::SaveAs(SaveAs::new(path.to_owned())));
                    }
                }
                Err(EditorError::InvalidParameter(params.to_owned()))
            }
        } else {
            Err(EditorError::UnknownOperation)
        }
    }

    /// Every registered name, aliases included, in ascending order.
    #[verifier::rlimit(100)]
    pub fn list_operations(&self) -> (r: Vec<String>)
        ensures
            r@.map_values(|s: String| s@) == op_names_list(),
            forall|i: int| 0 <= i < r@.len() ==> name_known((#[trigger] r@[i])@),
    {
        let mut names: Vec<String> = Vec::new();
        push_name(&mut names, "$");
        push_name(&mut names, "0");
        push_name(&mut names, ":");
        push_name(&mut names, "B");
        push_name(&mut names, "G");
        push_name(&mut names, "O");
        push_name(&mut names, "W");
        push_name(&mut names, "X");
        push_name(&mut names, "b");
        push_name(&mut names, "backspace");
        push_name(&mut names, "clear_selection");
        push_name(&mut names, "copy");
        push_name(&mut names, "cut");
        push_name(&mut names, "dd");
        push_name(&mut names, "delete_char");
        push_name(&mut names, "delete_line");
        push_name(&mut names, "delete_to_line_end");
        push_name(&mut names, "delete_to_line_start");
        push_name(&mut names, "delete_word");
        push_name(&mut names, "delete_word_backward");
        push_name(&mut names, "duplicate_line");
        push_name(&mut names, "exit");
        push_name(&mut names, "find_next");
        push_name(&mut names, "find_previous");
        push_name(&mut names, "gg");
        push_name(&mut names, "h");
        push_name(&mut names, "indent_selection");
        push_name(&mut names, "insert_char");
        push_name(&mut names, "insert_line_above");
        push_name(&mut names, "insert_line_below");
        push_name(&mut names, "insert_newline");
        push_name(&mut names, "insert_spaces");
        push_name(&mut names, "insert_string");
        push_name(&mut names, "insert_tab");
        push_name(&mut names, "j");
        push_name(&mut names, "jump_to_character");
        push_name(&mut names, "jump_to_line");
        push_name(&mut names, "k");
        push_name(&mut names, "l");
        push_name(&mut names, "lowercase_selection");
        push_name(&mut names, "move_big_word_backward");
        push_name(&mut names, "move_big_word_forward");
        push_name(&mut names, "move_document_end");
        push_name(&mut names, "move_document_start");
        push_name(&mut names, "move_down");
        push_name(&mut names, "move_left");
        push_name(&mut names, "move_line_down");
        push_name(&mut names, "move_line_end");
        push_name(&mut names, "move_line_start");
        push_name(&mut names, "move_line_up");
        push_name(&mut names, "move_matching_bracket");
        push_name(&mut names, "move_paragraph_backward");
        push_name(&mut names, "move_paragraph_forward");
        push_name(&mut names, "move_right");
        push_name(&mut names, "move_up");
        push_name(&mut names, "move_word_backward");
        push_name(&mut names, "move_word_forward");
        push_name(&mut names, "o");
        push_name(&mut names, "p");
        push_name(&mut names, "paste");
        push_name(&mut names, "r");
        push_name(&mut names, "redo");
        push_name(&mut names, "replace");
        push_name(&mut names, "replace_all");
        push_name(&mut names, "save");
        push_name(&mut names, "save_as");
        push_name(&mut names, "select_all");
        push_name(&mut names, "select_down");
        push_name(&mut names, "select_left");
        push_name(&mut names, "select_line");
        push_name(&mut names, "select_line_end");
        push_name(&mut names, "select_line_start");
        push_name(&mut names, "select_right");
        push_name(&mut names, "select_up");
        push_name(&mut names, "select_word");
        push_name(&mut names, "switch_mode");
        push_name(&mut names, "toggle_case_selection");
        push_name(&mut names, "u");
        push_name(&mut names, "undo");
        push_name(&mut names, "unindent_selection");
        push_name(&mut names, "uppercase_selection");
        push_name(&mut names, "w");
        push_name(&mut names, "x");
        push_name(&mut names, "yy");
        proof {
            assert(names@.map_values(|s: String| s@) =~= op_names_list());
        }
        names
    }
}

/// Append one registered name to the listing.
fn push_name(names: &mut Vec<String>, name: &str)
    requires
        name_known(name@),
        forall|i: int| 0 <= i < old(names)@.len() ==> name_known((#[trigger] old(names)@[i])@),
    ensures
        final(names)@.map_values(|s: String| s@) == old(names)@.map_values(|s: String| s@).push(
            name@,
        ),
        forall|i: int| 0 <= i < final(names)@.len() ==> name_known((#[trigger] final(names)@[i])@),
{
    names.push(String::from_str(name));
    proof {
        assert(names@.map_values(|s: String| s@) =~= old(names)@.map_values(
            |s: String| s@,
        ).push(name@));
    }
}

impl Default for OperationRegistry {
    fn default() -> (r: OperationRegistry)
    {
        OperationRegistry {  }
    }
}

} // verus!

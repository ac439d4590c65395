//! The named editing operations. Each operation is pure data until executed;
//! `execute` runs it once against a context, applies at most one transaction,
//! and repositions the selection deterministically. `execute_post` states,
//! case by case, exactly what each operation does.
use vstd::prelude::*;

use vstd::string::StrSliceExecFns;

use crate::chars::{
    char_is_uppercase, char_lower, char_to_lowercase, char_to_string, char_to_uppercase,
    char_upper, is_uppercase_char, str_lower, str_to_lowercase, str_to_uppercase, str_upper,
};
use crate::context::{Context, cursor_after_edits, redo_applied, undo_applied};
use crate::edit::{Edit, apply_edits_spec, sorted_desc, transaction_wf};
use crate::grapheme::{is_next_grapheme, is_prev_grapheme, next_grapheme_char_index,
    prev_grapheme_char_index};
use crate::history::has_effective;
use crate::navigator::TextNavigator;
use crate::text::{
    lemma_line_index_at_mono, lemma_line_index_at_nonneg, lemma_line_span, lemma_line_start,
    lemma_line_start_increasing, lemma_line_start_le, line_end, line_index_at,
    line_start, num_lines,
};
use crate::text_objects::{
    big_word_end_index, big_word_end_spec, big_word_start_index, big_word_start_spec,
    find_matching_bracket, matching_bracket_spec, paragraph_end_index, paragraph_end_spec,
    paragraph_start_index, paragraph_start_spec, word_end_index, word_end_spec, word_start_index,
    word_start_spec,
};

verus! {

/// What a single dispatch hands back to the host.
#[derive(Debug)]
pub enum OperationResult {
    Continue,
    SwitchMode(String),
    Exit,
}

/// Nothing observable about the context changed.
pub open spec fn ctx_unchanged(o: Context, n: Context) -> bool {
    n.same_but_selection(&o) && n.sel() == o.sel()
}

/// The selection moved to a cursor at `p`; nothing else changed.
pub open spec fn moved_to(o: Context, n: Context, p: int) -> bool {
    n.same_but_selection(&o) && n.cursor_at(p)
}

/// The selection's head moved to `h` with the anchor kept; nothing else
/// changed.
pub open spec fn extended_to(o: Context, n: Context, h: int) -> bool {
    n.same_but_selection(&o) && n.sel().anchor == o.sel().anchor && n.sel().head == h
}

/// The selection was set to `(anchor, head)`; nothing else changed.
pub open spec fn selected_range(o: Context, n: Context, anchor: int, head: int) -> bool {
    n.same_but_selection(&o) && n.sel().anchor == anchor && n.sel().head == head
}

/// Where a vertical move from head `h` lands: the same column of the target
/// line, clamped to that line's length without its line break.
pub open spec fn vertical_target(s: Seq<char>, h: int, target_line: int) -> int {
    let l = line_index_at(s, h);
    let col = h - line_start(s, l);
    let tstart = line_start(s, target_line);
    let tlen = line_end(s, target_line) - tstart - (if target_line + 1 < num_lines(s) {
        1int
    } else {
        0int
    });
    tstart + (if col <= tlen {
        col
    } else {
        tlen
    })
}

/// Where a move to line end lands: one short of the line's end when the line
/// carries a line break, its very end otherwise.
pub open spec fn line_end_target(s: Seq<char>, h: int) -> int {
    let l = line_index_at(s, h);
    line_end(s, l) - (if l + 1 < num_lines(s) {
        1int
    } else {
        0int
    })
}

/// Where a jump to 1-based line `ln` lands: the start of that line, clamped
/// to the last line.
pub open spec fn jump_line_target(s: Seq<char>, ln: int) -> int {
    let li = if ln <= 1 {
        0int
    } else {
        ln - 1
    };
    let clamped = if li < num_lines(s) - 1 {
        li
    } else {
        num_lines(s) - 1
    };
    line_start(s, clamped)
}

/// Insert exactly one character, replacing the selection.
#[derive(Debug)]
pub struct InsertChar {
    pub ch: char,
}

impl InsertChar {
    pub fn new(ch: char) -> (r: InsertChar)
        ensures
            r.ch == ch,
    {
        InsertChar { ch }
    }
}

/// Insert a text, replacing the selection.
#[derive(Debug)]
pub struct InsertString {
    pub text: String,
}

impl InsertString {
    pub fn new(text: String) -> (r: InsertString)
        ensures
            r.text@ == text@,
    {
        InsertString { text }
    }
}

/// Insert a run of spaces, replacing the selection.
#[derive(Debug)]
pub struct InsertSpaces {
    pub count: usize,
}

impl InsertSpaces {
    pub fn new(count: usize) -> (r: InsertSpaces)
        ensures
            r.count == count,
    {
        InsertSpaces { count }
    }
}

/// Paste a text, replacing the selection.
#[derive(Debug)]
pub struct Paste {
    pub text: String,
}

impl Paste {
    pub fn new(text: String) -> (r: Paste)
        ensures
            r.text@ == text@,
    {
        Paste { text }
    }
}

/// Select the next occurrence of a pattern after the cursor.
#[derive(Debug)]
pub struct FindNext {
    pub pattern: String,
}

impl FindNext {
    pub fn new(pattern: String) -> (r: FindNext)
        ensures
            r.pattern@ == pattern@,
    {
        FindNext { pattern }
    }
}

/// Select the previous occurrence of a pattern before the cursor.
#[derive(Debug)]
pub struct FindPrevious {
    pub pattern: String,
}

impl FindPrevious {
    pub fn new(pattern: String) -> (r: FindPrevious)
        ensures
            r.pattern@ == pattern@,
    {
        FindPrevious { pattern }
    }
}

/// Replace the selection when it equals the pattern.
#[derive(Debug)]
pub struct Replace {
    pub pattern: String,
    pub replacement: String,
}

impl Replace {
    pub fn new(pattern: String, replacement: String) -> (r: Replace)
        ensures
            r.pattern@ == pattern@,
            r.replacement@ == replacement@,
    {
        Replace { pattern, replacement }
    }
}

/// Replace every occurrence of a pattern in the whole buffer.
#[derive(Debug)]
pub struct ReplaceAll {
    pub pattern: String,
    pub replacement: String,
}

impl ReplaceAll {
    pub fn new(pattern: String, replacement: String) -> (r: ReplaceAll)
        ensures
            r.pattern@ == pattern@,
            r.replacement@ == replacement@,
    {
        ReplaceAll { pattern, replacement }
    }
}

/// Ask the host to switch to another mode.
#[derive(Debug)]
pub struct SwitchMode {
    pub target_mode: String,
}

impl SwitchMode {
    pub fn new(mode: String) -> (r: SwitchMode)
        ensures
            r.target_mode@ == mode@,
    {
        SwitchMode { target_mode: mode }
    }
}

/// Record a new path for the buffer and mark it saved.
#[derive(Debug)]
pub struct SaveAs {
    pub path: String,
}

impl SaveAs {
    pub fn new(path: String) -> (r: SaveAs)
        ensures
            r.path@ == path@,
    {
        SaveAs { path }
    }
}

/// Jump to a 1-based line number.
#[derive(Debug)]
pub struct JumpToLine {
    pub line_number: usize,
}

impl JumpToLine {
    pub fn new(line_number: usize) -> (r: JumpToLine)
        ensures
            r.line_number == line_number,
    {
        JumpToLine { line_number }
    }
}

/// Jump to a character offset, clamped to the buffer end.
#[derive(Debug)]
pub struct JumpToCharacter {
    pub position: usize,
}

impl JumpToCharacter {
    pub fn new(position: usize) -> (r: JumpToCharacter)
        ensures
            r.position == position,
    {
        JumpToCharacter { position }
    }
}

/// Move the cursor left by one grapheme cluster.
pub fn exec_move_left(ctx: &mut Context) -> (r: OperationResult)
    requires
        old(ctx).wf(),
    ensures
        final(ctx).wf(),
        r is Continue,
        final(ctx).same_but_selection(old(ctx)),
        is_prev_grapheme(old(ctx).text(), old(ctx).sel().head as int, final(ctx).sel().head as int),
        final(ctx).cursor_at(final(ctx).sel().head as int),
{
    let head = ctx.selection().head;
    let new_head = prev_grapheme_char_index(ctx.buffer(), head);
    ctx.cursor_to(new_head);
    OperationResult::Continue
}

/// Move the cursor right by one grapheme cluster.
pub fn exec_move_right(ctx: &mut Context) -> (r: OperationResult)
    requires
        old(ctx).wf(),
    ensures
        final(ctx).wf(),
        r is Continue,
        final(ctx).same_but_selection(old(ctx)),
        is_next_grapheme(old(ctx).text(), old(ctx).sel().head as int, final(ctx).sel().head as int),
        final(ctx).cursor_at(final(ctx).sel().head as int),
{
    let head = ctx.selection().head;
    let new_head = next_grapheme_char_index(ctx.buffer(), head);
    ctx.cursor_to(new_head);
    OperationResult::Continue
}

/// The target position of a move up from the current head, or the head when
/// it sits on the first line. Shared by the move and select variants.
fn up_target(ctx: &Context) -> (r: (usize, bool))
    requires
        ctx.wf(),
    ensures
        r.1 == (line_index_at(ctx.text(), ctx.sel().head as int) > 0),
        r.1 ==> r.0 as int == vertical_target(
            ctx.text(),
            ctx.sel().head as int,
            line_index_at(ctx.text(), ctx.sel().head as int) - 1,
        ) && r.0 <= ctx.text().len(),
{
    let ghost s = ctx.text();
    let head = ctx.selection().head;
    let buffer = ctx.buffer();
    proof {
        lemma_line_index_at_nonneg(s, head as int);
        lemma_line_index_at_mono(s, head as int, s.len() as int);
    }
    let line_idx = buffer.char_to_line(head);
    if line_idx == 0 {
        return (head, false);
    }
    proof {
        lemma_line_start_le(s, head as int);
        lemma_line_span(s, line_idx as int);
        lemma_line_span(s, line_idx as int - 1);
        lemma_line_start(s, line_idx as int);
        lemma_line_start(s, line_idx as int - 1);
    }
    let line_start_pos = buffer.line_to_char(line_idx);
    let col = head - line_start_pos;
    let prev_line_start = buffer.line_to_char(line_idx - 1);
    let prev_line_len = line_start_pos - prev_line_start - 1;
    let new_head = prev_line_start + (if col <= prev_line_len {
        col
    } else {
        prev_line_len
    });
    (new_head, true)
}

/// The target position of a move down from the current head, or the head
/// when it sits on the last line.
fn down_target(ctx: &Context) -> (r: (usize, bool))
    requires
        ctx.wf(),
    ensures
        r.1 == (line_index_at(ctx.text(), ctx.sel().head as int) + 1 < num_lines(ctx.text())),
        r.1 ==> r.0 as int == vertical_target(
            ctx.text(),
            ctx.sel().head as int,
            line_index_at(ctx.text(), ctx.sel().head as int) + 1,
        ) && r.0 <= ctx.text().len(),
{
    let ghost s = ctx.text();
    let head = ctx.selection().head;
    let buffer = ctx.buffer();
    proof {
        lemma_line_index_at_nonneg(s, head as int);
        lemma_line_index_at_mono(s, head as int, s.len() as int);
    }
    let line_idx = buffer.char_to_line(head);
    let nl = buffer.len_lines();
    if line_idx + 1 >= nl {
        return (head, false);
    }
    proof {
        lemma_line_start_le(s, head as int);
        lemma_line_span(s, line_idx as int);
        lemma_line_span(s, line_idx as int + 1);
        lemma_line_start(s, line_idx as int + 1);
    }
    let line_start_pos = buffer.line_to_char(line_idx);
    let col = head - line_start_pos;
    let next_line_start = buffer.line_to_char(line_idx + 1);
    let next_line_end = if line_idx + 2 < nl {
        proof {
            lemma_line_span(s, line_idx as int + 2);
            lemma_line_start_increasing(s, line_idx as int + 1);
        }
        buffer.line_to_char(line_idx + 2) - 1
    } else {
        buffer.len_chars()
    };
    let next_line_len = next_line_end - next_line_start;
    let new_head = next_line_start + (if col <= next_line_len {
        col
    } else {
        next_line_len
    });
    (new_head, true)
}

/// Move the cursor up one line, keeping the column where the previous line
/// allows it.
pub fn exec_move_up(ctx: &mut Context) -> (r: OperationResult)
    requires
        old(ctx).wf(),
    ensures
        final(ctx).wf(),
        r is Continue,
        ({
            let s = old(ctx).text();
            let l = line_index_at(s, old(ctx).sel().head as int);
            if l > 0 {
                moved_to(*old(ctx), *final(ctx), vertical_target(s, old(ctx).sel().head as int, l - 1))
            } else {
                ctx_unchanged(*old(ctx), *final(ctx))
            }
        }),
{
    let (target, moved) = up_target(ctx);
    if moved {
        ctx.cursor_to(target);
    }
    OperationResult::Continue
}

/// Move the cursor down one line, keeping the column where the next line
/// allows it.
pub fn exec_move_down(ctx: &mut Context) -> (r: OperationResult)
    requires
        old(ctx).wf(),
    ensures
        final(ctx).wf(),
        r is Continue,
        ({
            let s = old(ctx).text();
            let l = line_index_at(s, old(ctx).sel().head as int);
            if l + 1 < num_lines(s) {
                moved_to(*old(ctx), *final(ctx), vertical_target(s, old(ctx).sel().head as int, l + 1))
            } else {
                ctx_unchanged(*old(ctx), *final(ctx))
            }
        }),
{
    let (target, moved) = down_target(ctx);
    if moved {
        ctx.cursor_to(target);
    }
    OperationResult::Continue
}

/// The start of the cursor's line.
fn line_start_of_head(ctx: &Context) -> (r: usize)
    requires
        ctx.wf(),
    ensures
        r as int == line_start(ctx.text(), line_index_at(ctx.text(), ctx.sel().head as int)),
        r <= ctx.sel().head,
{
    let ghost s = ctx.text();
    let head = ctx.selection().head;
    proof {
        lemma_line_index_at_nonneg(s, head as int);
        lemma_line_index_at_mono(s, head as int, s.len() as int);
        lemma_line_start_le(s, head as int);
    }
    let line_idx = ctx.buffer().char_to_line(head);
    ctx.buffer().line_to_char(line_idx)
}

/// The cursor's line-end position, excluding the line break.
fn line_end_of_head(ctx: &Context) -> (r: usize)
    requires
        ctx.wf(),
    ensures
        r as int == line_end_target(ctx.text(), ctx.sel().head as int),
        r <= ctx.text().len(),
{
    let ghost s = ctx.text();
    let head = ctx.selection().head;
    proof {
        lemma_line_index_at_nonneg(s, head as int);
        lemma_line_index_at_mono(s, head as int, s.len() as int);
    }
    let line_idx = ctx.buffer().char_to_line(head);
    proof {
        lemma_line_span(s, line_idx as int);
    }
    let nl = ctx.buffer().len_lines();
    if line_idx + 1 < nl {
        proof {
            lemma_line_start_increasing(s, line_idx as int);
        }
        ctx.buffer().line_to_char(line_idx + 1) - 1
    } else {
        ctx.buffer().len_chars()
    }
}

/// Move the cursor to the start of its line.
pub fn exec_move_line_start(ctx: &mut Context) -> (r: OperationResult)
    requires
        old(ctx).wf(),
    ensures
        final(ctx).wf(),
        r is Continue,
        moved_to(
            *old(ctx),
            *final(ctx),
            line_start(old(ctx).text(), line_index_at(old(ctx).text(), old(ctx).sel().head as int)),
        ),
{
    let p = line_start_of_head(ctx);
    ctx.cursor_to(p);
    OperationResult::Continue
}

/// Move the cursor to the end of its line, before the line break when the
/// line has one.
pub fn exec_move_line_end(ctx: &mut Context) -> (r: OperationResult)
    requires
        old(ctx).wf(),
    ensures
        final(ctx).wf(),
        r is Continue,
        moved_to(*old(ctx), *final(ctx), line_end_target(old(ctx).text(), old(ctx).sel().head as int)),
{
    let p = line_end_of_head(ctx);
    ctx.cursor_to(p);
    OperationResult::Continue
}

/// Move the cursor to the end of the word at the cursor.
pub fn exec_move_word_forward(ctx: &mut Context) -> (r: OperationResult)
    requires
        old(ctx).wf(),
    ensures
        final(ctx).wf(),
        r is Continue,
        moved_to(*old(ctx), *final(ctx), word_end_spec(old(ctx).text(), old(ctx).sel().head as int)),
{
    let head = ctx.selection().head;
    let p = word_end_index(ctx.buffer(), head);
    ctx.cursor_to(p);
    OperationResult::Continue
}

/// Move the cursor to the start of the word at the cursor.
pub fn exec_move_word_backward(ctx: &mut Context) -> (r: OperationResult)
    requires
        old(ctx).wf(),
    ensures
        final(ctx).wf(),
        r is Continue,
        moved_to(*old(ctx), *final(ctx), word_start_spec(old(ctx).text(), old(ctx).sel().head as int)),
{
    let head = ctx.selection().head;
    let p = word_start_index(ctx.buffer(), head);
    ctx.cursor_to(p);
    OperationResult::Continue
}

/// Move the cursor to the end of the WORD at the cursor.
pub fn exec_move_big_word_forward(ctx: &mut Context) -> (r: OperationResult)
    requires
        old(ctx).wf(),
    ensures
        final(ctx).wf(),
        r is Continue,
        moved_to(
            *old(ctx),
            *final(ctx),
            big_word_end_spec(old(ctx).text(), old(ctx).sel().head as int),
        ),
{
    let head = ctx.selection().head;
    let p = big_word_end_index(ctx.buffer(), head);
    ctx.cursor_to(p);
    OperationResult::Continue
}

/// Move the cursor to the start of the WORD at the cursor.
pub fn exec_move_big_word_backward(ctx: &mut Context) -> (r: OperationResult)
    requires
        old(ctx).wf(),
    ensures
        final(ctx).wf(),
        r is Continue,
        moved_to(
            *old(ctx),
            *final(ctx),
            big_word_start_spec(old(ctx).text(), old(ctx).sel().head as int),
        ),
{
    let head = ctx.selection().head;
    let p = big_word_start_index(ctx.buffer(), head);
    ctx.cursor_to(p);
    OperationResult::Continue
}

/// Move the cursor to the start of the document.
pub fn exec_move_document_start(ctx: &mut Context) -> (r: OperationResult)
    requires
        old(ctx).wf(),
    ensures
        final(ctx).wf(),
        r is Continue,
        moved_to(*old(ctx), *final(ctx), 0),
{
    ctx.cursor_to(0);
    OperationResult::Continue
}

/// Move the cursor to the end of the document.
pub fn exec_move_document_end(ctx: &mut Context) -> (r: OperationResult)
    requires
        old(ctx).wf(),
    ensures
        final(ctx).wf(),
        r is Continue,
        moved_to(*old(ctx), *final(ctx), old(ctx).text().len() as int),
{
    let len = ctx.buffer().len_chars();
    ctx.cursor_to(len);
    OperationResult::Continue
}

/// Jump from a bracket at the cursor to its match; from any other character,
/// stay put.
pub fn exec_move_matching_bracket(ctx: &mut Context) -> (r: OperationResult)
    requires
        old(ctx).wf(),
    ensures
        final(ctx).wf(),
        r is Continue,
        ({
            match matching_bracket_spec(old(ctx).text(), old(ctx).sel().head as int) {
                Some(j) => moved_to(*old(ctx), *final(ctx), j),
                None => ctx_unchanged(*old(ctx), *final(ctx)),
            }
        }),
{
    let head = ctx.selection().head;
    match find_matching_bracket(ctx.buffer(), head) {
        Some(p) => {
            ctx.cursor_to(p);
        },
        None => {},
    }
    OperationResult::Continue
}

/// Move the cursor to the end of the paragraph around it.
pub fn exec_move_paragraph_forward(ctx: &mut Context) -> (r: OperationResult)
    requires
        old(ctx).wf(),
    ensures
        final(ctx).wf(),
        r is Continue,
        moved_to(
            *old(ctx),
            *final(ctx),
            paragraph_end_spec(old(ctx).text(), old(ctx).sel().head as int),
        ),
{
    let head = ctx.selection().head;
    let p = paragraph_end_index(ctx.buffer(), head);
    ctx.cursor_to(p);
    OperationResult::Continue
}

/// Move the cursor to the start of the paragraph around it.
pub fn exec_move_paragraph_backward(ctx: &mut Context) -> (r: OperationResult)
    requires
        old(ctx).wf(),
    ensures
        final(ctx).wf(),
        r is Continue,
        moved_to(
            *old(ctx),
            *final(ctx),
            paragraph_start_spec(old(ctx).text(), old(ctx).sel().head as int),
        ),
{
    let head = ctx.selection().head;
    let p = paragraph_start_index(ctx.buffer(), head);
    ctx.cursor_to(p);
    OperationResult::Continue
}

/// Extend the selection one grapheme cluster to the left.
pub fn exec_select_left(ctx: &mut Context) -> (r: OperationResult)
    requires
        old(ctx).wf(),
    ensures
        final(ctx).wf(),
        r is Continue,
        final(ctx).same_but_selection(old(ctx)),
        final(ctx).sel().anchor == old(ctx).sel().anchor,
        is_prev_grapheme(old(ctx).text(), old(ctx).sel().head as int, final(ctx).sel().head as int),
{
    let anchor = ctx.selection().anchor;
    let head = ctx.selection().head;
    let new_head = prev_grapheme_char_index(ctx.buffer(), head);
    ctx.set_selection(anchor, new_head);
    OperationResult::Continue
}

/// Extend the selection one grapheme cluster to the right.
pub fn exec_select_right(ctx: &mut Context) -> (r: OperationResult)
    requires
        old(ctx).wf(),
    ensures
        final(ctx).wf(),
        r is Continue,
        final(ctx).same_but_selection(old(ctx)),
        final(ctx).sel().anchor == old(ctx).sel().anchor,
        is_next_grapheme(old(ctx).text(), old(ctx).sel().head as int, final(ctx).sel().head as int),
{
    let anchor = ctx.selection().anchor;
    let head = ctx.selection().head;
    let new_head = next_grapheme_char_index(ctx.buffer(), head);
    ctx.set_selection(anchor, new_head);
    OperationResult::Continue
}

/// Extend the selection one line up.
pub fn exec_select_up(ctx: &mut Context) -> (r: OperationResult)
    requires
        old(ctx).wf(),
    ensures
        final(ctx).wf(),
        r is Continue,
        ({
            let s = old(ctx).text();
            let l = line_index_at(s, old(ctx).sel().head as int);
            if l > 0 {
                extended_to(
                    *old(ctx),
                    *final(ctx),
                    vertical_target(s, old(ctx).sel().head as int, l - 1),
                )
            } else {
                ctx_unchanged(*old(ctx), *final(ctx))
            }
        }),
{
    let (target, moved) = up_target(ctx);
    if moved {
        let anchor = ctx.selection().anchor;
        ctx.set_selection(anchor, target);
    }
    OperationResult::Continue
}

/// Extend the selection one line down.
pub fn exec_select_down(ctx: &mut Context) -> (r: OperationResult)
    requires
        old(ctx).wf(),
    ensures
        final(ctx).wf(),
        r is Continue,
        ({
            let s = old(ctx).text();
            let l = line_index_at(s, old(ctx).sel().head as int);
            if l + 1 < num_lines(s) {
                extended_to(
                    *old(ctx),
                    *final(ctx),
                    vertical_target(s, old(ctx).sel().head as int, l + 1),
                )
            } else {
                ctx_unchanged(*old(ctx), *final(ctx))
            }
        }),
{
    let (target, moved) = down_target(ctx);
    if moved {
        let anchor = ctx.selection().anchor;
        ctx.set_selection(anchor, target);
    }
    OperationResult::Continue
}

/// Select the word at the cursor.
pub fn exec_select_word(ctx: &mut Context) -> (r: OperationResult)
    requires
        old(ctx).wf(),
    ensures
        final(ctx).wf(),
        r is Continue,
        selected_range(
            *old(ctx),
            *final(ctx),
            word_start_spec(old(ctx).text(), old(ctx).sel().head as int),
            word_end_spec(old(ctx).text(), old(ctx).sel().head as int),
        ),
{
    let head = ctx.selection().head;
    let start = word_start_index(ctx.buffer(), head);
    let end = word_end_index(ctx.buffer(), head);
    ctx.set_selection(start, end);
    OperationResult::Continue
}

/// Select the cursor's whole line, line break included except on the last
/// line.
pub fn exec_select_line(ctx: &mut Context) -> (r: OperationResult)
    requires
        old(ctx).wf(),
    ensures
        final(ctx).wf(),
        r is Continue,
        ({
            let s = old(ctx).text();
            let l = line_index_at(s, old(ctx).sel().head as int);
            selected_range(*old(ctx), *final(ctx), line_start(s, l), line_end(s, l))
        }),
{
    let ghost s = ctx.text();
    let head = ctx.selection().head;
    proof {
        lemma_line_index_at_nonneg(s, head as int);
        lemma_line_index_at_mono(s, head as int, s.len() as int);
    }
    let line_idx = ctx.buffer().char_to_line(head);
    proof {
        lemma_line_span(s, line_idx as int);
    }
    let nl = ctx.buffer().len_lines();
    let start = ctx.buffer().line_to_char(line_idx);
    let end = if line_idx + 1 < nl {
        ctx.buffer().line_to_char(line_idx + 1)
    } else {
        ctx.buffer().len_chars()
    };
    ctx.set_selection(start, end);
    OperationResult::Continue
}

/// Select the whole buffer.
pub fn exec_select_all(ctx: &mut Context) -> (r: OperationResult)
    requires
        old(ctx).wf(),
    ensures
        final(ctx).wf(),
        r is Continue,
        selected_range(*old(ctx), *final(ctx), 0, old(ctx).text().len() as int),
{
    let len = ctx.buffer().len_chars();
    ctx.set_selection(0, len);
    OperationResult::Continue
}

/// Extend the selection to the start of the cursor's line.
pub fn exec_select_line_start(ctx: &mut Context) -> (r: OperationResult)
    requires
        old(ctx).wf(),
    ensures
        final(ctx).wf(),
        r is Continue,
        extended_to(
            *old(ctx),
            *final(ctx),
            line_start(old(ctx).text(), line_index_at(old(ctx).text(), old(ctx).sel().head as int)),
        ),
{
    let p = line_start_of_head(ctx);
    let anchor = ctx.selection().anchor;
    ctx.set_selection(anchor, p);
    OperationResult::Continue
}

/// Extend the selection to the end of the cursor's line, before its line
/// break.
pub fn exec_select_line_end(ctx: &mut Context) -> (r: OperationResult)
    requires
        old(ctx).wf(),
    ensures
        final(ctx).wf(),
        r is Continue,
        extended_to(
            *old(ctx),
            *final(ctx),
            line_end_target(old(ctx).text(), old(ctx).sel().head as int),
        ),
{
    let p = line_end_of_head(ctx);
    let anchor = ctx.selection().anchor;
    ctx.set_selection(anchor, p);
    OperationResult::Continue
}

/// Collapse the selection to a cursor at its head.
pub fn exec_clear_selection(ctx: &mut Context) -> (r: OperationResult)
    requires
        old(ctx).wf(),
    ensures
        final(ctx).wf(),
        r is Continue,
        moved_to(*old(ctx), *final(ctx), old(ctx).sel().head as int),
{
    let head = ctx.selection().head;
    ctx.cursor_to(head);
    OperationResult::Continue
}

/// Jump to a 1-based line number, clamped to the last line.
pub fn exec_jump_to_line(ctx: &mut Context, line_number: usize) -> (r: OperationResult)
    requires
        old(ctx).wf(),
    ensures
        final(ctx).wf(),
        r is Continue,
        moved_to(*old(ctx), *final(ctx), jump_line_target(old(ctx).text(), line_number as int)),
{
    let ghost s = ctx.text();
    proof {
        lemma_line_index_at_nonneg(s, s.len() as int);
    }
    let nl = ctx.buffer().len_lines();
    let li = if line_number == 0 {
        0
    } else {
        line_number - 1
    };
    let clamped = if li < nl - 1 {
        li
    } else {
        nl - 1
    };
    proof {
        lemma_line_span(s, clamped as int);
    }
    let pos = ctx.buffer().line_to_char(clamped);
    ctx.cursor_to(pos);
    OperationResult::Continue
}

/// Jump to a character offset, clamped to the buffer end.
pub fn exec_jump_to_character(ctx: &mut Context, position: usize) -> (r: OperationResult)
    requires
        old(ctx).wf(),
    ensures
        final(ctx).wf(),
        r is Continue,
        ({
            let len = old(ctx).text().len() as int;
            moved_to(
                *old(ctx),
                *final(ctx),
                if position as int <= len {
                    position as int
                } else {
                    len
                },
            )
        }),
{
    let len = ctx.buffer().len_chars();
    let pos = if position < len {
        position
    } else {
        len
    };
    ctx.cursor_to(pos);
    OperationResult::Continue
}

/// A run of `count` spaces.
fn spaces(count: usize) -> (r: String)
    ensures
        r@ == Seq::new(count as nat, |i: int| ' '),
{
    let mut r = String::new();
    let mut i: usize = 0;
    while i < count
        invariant
            i <= count,
            r@ =~= Seq::new(i as nat, |j: int| ' '),
        decreases count - i,
    {
        proof {
            reveal_strlit(" ");
        }
        r.append(" ");
        proof {
            assert(r@ =~= Seq::new((i + 1) as nat, |j: int| ' '));
        }
        i += 1;
    }
    r
}

/// The toggled-case form of a text: each uppercase character mapped to
/// lowercase and every other to uppercase.
pub open spec fn toggle_of(s: Seq<char>) -> Seq<char>
    decreases s.len(),
{
    if s.len() == 0 {
        Seq::<char>::empty()
    } else {
        toggle_of(s.drop_last()) + (if char_is_uppercase(s.last()) {
            char_lower(s.last())
        } else {
            char_upper(s.last())
        })
    }
}

/// Build the toggled-case form of a text.
fn toggle_case(s: &str) -> (r: String)
    ensures
        r@ == toggle_of(s@),
{
    let n = s.unicode_len();
    let mut r = String::new();
    let mut i: usize = 0;
    proof {
        assert(s@.take(0) =~= Seq::<char>::empty());
    }
    while i < n
        invariant
            n == s@.len(),
            i <= n,
            r@ == toggle_of(s@.take(i as int)),
        decreases n - i,
    {
        let c = s.get_char(i);
        let piece = if is_uppercase_char(c) {
            char_to_lowercase(c)
        } else {
            char_to_uppercase(c)
        };
        r.append(piece.as_str());
        proof {
            assert(s@.take(i + 1).drop_last() =~= s@.take(i as int));
            assert(s@.take(i + 1).last() == s@[i as int]);
        }
        i += 1;
    }
    proof {
        assert(s@.take(n as int) =~= s@);
    }
    r
}

/// One transaction recorded: a single edit replacing `[start, end)` with
/// `ins`, with the removed text captured.
pub open spec fn recorded_single(o: Context, n: Context, start: int, end: int, ins: Seq<char>) -> bool {
    &&& n.undo_entries().len() == o.undo_entries().len() + 1
    &&& n.undo_entries().drop_last() == o.undo_entries()
    &&& n.undo_entries().last().edits@.len() == 1
    &&& n.undo_entries().last().edits@[0].start == start
    &&& n.undo_entries().last().edits@[0].end == end
    &&& n.undo_entries().last().edits@[0].text@ == ins
    &&& n.undo_entries().last().deleted_texts@.len() == 1
    &&& n.undo_entries().last().deleted_texts@[0]@ == o.text().subrange(start, end)
}

/// The context after one single-edit transaction: `[start, end)` replaced by
/// `ins`, cursor after the inserted text or at the removal point, redo stack
/// cleared, and the transaction recorded unless it was a noop.
pub open spec fn edited(o: Context, n: Context, start: int, end: int, ins: Seq<char>) -> bool {
    &&& n.text() == o.text().take(start) + ins + o.text().skip(end)
    &&& n.cursor_at(
        if ins.len() == 0 {
            start
        } else {
            start + ins.len()
        },
    )
    &&& n.spec_modified()
    &&& n.redo_entries().len() == 0
    &&& (start != end || ins.len() > 0) ==> recorded_single(o, n, start, end, ins)
    &&& (start == end && ins.len() == 0) ==> n.undo_entries() == o.undo_entries()
}

/// Apply a single edit as one transaction.
fn apply_single_edit(ctx: &mut Context, start: usize, end: usize, text: String)
    requires
        old(ctx).wf(),
        start <= end <= old(ctx).text().len(),
    ensures
        final(ctx).wf(),
        edited(*old(ctx), *final(ctx), start as int, end as int, text@),
{
    let ghost s = ctx.text();
    let ghost ins = text@;
    let e = Edit::replace(start, end, text);
    let ghost ed = e;
    let mut v: Vec<Edit> = Vec::new();
    v.push(e);
    let ghost vs = v@;
    proof {
        assert(vs.len() == 1 && vs[0] == ed);
        assert(transaction_wf(s, vs));
        assert(sorted_desc(vs));
    }
    ctx.apply_edits(v);
    proof {
        // the canonical application of a one-edit transaction is that edit
        assert(crate::edit::max_start_index(vs) == 0) by {
            crate::edit::lemma_max_start_index(vs);
        }
        assert(vs.remove(0) =~= Seq::<Edit>::empty());
        assert(apply_edits_spec(crate::edit::apply_edit_spec(s, ed), Seq::<Edit>::empty())
            == crate::edit::apply_edit_spec(s, ed));
        assert(apply_edits_spec(s, vs) == crate::edit::apply_edit_spec(s, ed));
        assert(vs.last() == ed);
        if start != end || ins.len() > 0 {
            assert(has_effective(vs)) by {
                assert(!vs[0].spec_is_noop());
            }
        } else {
            assert(!has_effective(vs));
        }
    }
}

/// Insert one character, replacing the selection.
pub fn exec_insert_char(ctx: &mut Context, ch: char) -> (r: OperationResult)
    requires
        old(ctx).wf(),
    ensures
        final(ctx).wf(),
        r is Continue,
        edited(
            *old(ctx),
            *final(ctx),
            old(ctx).sel().spec_start(),
            old(ctx).sel().spec_end(),
            seq![ch],
        ),
{
    let (start, end) = ctx.selection().range();
    apply_single_edit(ctx, start, end, char_to_string(ch));
    OperationResult::Continue
}

/// Insert a text, replacing the selection.
pub fn exec_insert_string(ctx: &mut Context, text: &String) -> (r: OperationResult)
    requires
        old(ctx).wf(),
    ensures
        final(ctx).wf(),
        r is Continue,
        edited(
            *old(ctx),
            *final(ctx),
            old(ctx).sel().spec_start(),
            old(ctx).sel().spec_end(),
            text@,
        ),
{
    let (start, end) = ctx.selection().range();
    apply_single_edit(ctx, start, end, text.clone());
    OperationResult::Continue
}

/// Insert a line break, replacing the selection.
pub fn exec_insert_newline(ctx: &mut Context) -> (r: OperationResult)
    requires
        old(ctx).wf(),
    ensures
        final(ctx).wf(),
        r is Continue,
        edited(
            *old(ctx),
            *final(ctx),
            old(ctx).sel().spec_start(),
            old(ctx).sel().spec_end(),
            seq!['\n'],
        ),
{
    let (start, end) = ctx.selection().range();
    apply_single_edit(ctx, start, end, char_to_string('\n'));
    OperationResult::Continue
}

/// Insert a tab character, replacing the selection.
pub fn exec_insert_tab(ctx: &mut Context) -> (r: OperationResult)
    requires
        old(ctx).wf(),
    ensures
        final(ctx).wf(),
        r is Continue,
        edited(
            *old(ctx),
            *final(ctx),
            old(ctx).sel().spec_start(),
            old(ctx).sel().spec_end(),
            seq!['\t'],
        ),
{
    let (start, end) = ctx.selection().range();
    apply_single_edit(ctx, start, end, char_to_string('\t'));
    OperationResult::Continue
}

/// Insert a run of spaces, replacing the selection.
pub fn exec_insert_spaces(ctx: &mut Context, count: usize) -> (r: OperationResult)
    requires
        old(ctx).wf(),
    ensures
        final(ctx).wf(),
        r is Continue,
        edited(
            *old(ctx),
            *final(ctx),
            old(ctx).sel().spec_start(),
            old(ctx).sel().spec_end(),
            Seq::new(count as nat, |i: int| ' '),
        ),
{
    let (start, end) = ctx.selection().range();
    apply_single_edit(ctx, start, end, spaces(count));
    OperationResult::Continue
}

/// Paste a text, replacing the selection.
pub fn exec_paste(ctx: &mut Context, text: &String) -> (r: OperationResult)
    requires
        old(ctx).wf(),
    ensures
        final(ctx).wf(),
        r is Continue,
        edited(
            *old(ctx),
            *final(ctx),
            old(ctx).sel().spec_start(),
            old(ctx).sel().spec_end(),
            text@,
        ),
{
    let (start, end) = ctx.selection().range();
    apply_single_edit(ctx, start, end, text.clone());
    OperationResult::Continue
}

/// Delete the selection, or the grapheme cluster after the cursor.
pub fn exec_delete_char(ctx: &mut Context) -> (r: OperationResult)
    requires
        old(ctx).wf(),
    ensures
        final(ctx).wf(),
        r is Continue,
        ({
            let st = old(ctx).sel().spec_start();
            let en = old(ctx).sel().spec_end();
            if st != en {
                edited(*old(ctx), *final(ctx), st, en, Seq::<char>::empty())
            } else if st < old(ctx).text().len() {
                exists|g: int|
                    is_next_grapheme(old(ctx).text(), st, g) && edited(
                        *old(ctx),
                        *final(ctx),
                        st,
                        g,
                        Seq::<char>::empty(),
                    )
            } else {
                ctx_unchanged(*old(ctx), *final(ctx))
            }
        }),
{
    let (start, end) = ctx.selection().range();
    if start != end {
        apply_single_edit(ctx, start, end, String::new());
    } else if start < ctx.buffer().len_chars() {
        let g = next_grapheme_char_index(ctx.buffer(), start);
        proof {
            assert((start as int) < g);
        }
        apply_single_edit(ctx, start, g, String::new());
    }
    OperationResult::Continue
}

/// Delete the selection, or the grapheme cluster before the cursor.
pub fn exec_backspace(ctx: &mut Context) -> (r: OperationResult)
    requires
        old(ctx).wf(),
    ensures
        final(ctx).wf(),
        r is Continue,
        ({
            let st = old(ctx).sel().spec_start();
            let en = old(ctx).sel().spec_end();
            if st != en {
                edited(*old(ctx), *final(ctx), st, en, Seq::<char>::empty())
            } else if st > 0 {
                exists|g: int|
                    is_prev_grapheme(old(ctx).text(), st, g) && edited(
                        *old(ctx),
                        *final(ctx),
                        g,
                        st,
                        Seq::<char>::empty(),
                    )
            } else {
                ctx_unchanged(*old(ctx), *final(ctx))
            }
        }),
{
    let (start, end) = ctx.selection().range();
    if start != end {
        apply_single_edit(ctx, start, end, String::new());
    } else if start > 0 {
        let g = prev_grapheme_char_index(ctx.buffer(), start);
        proof {
            assert(g < (start as int));
        }
        apply_single_edit(ctx, g, start, String::new());
    }
    OperationResult::Continue
}

/// Delete the selection, or forward to the end of the word at the cursor.
pub fn exec_delete_word(ctx: &mut Context) -> (r: OperationResult)
    requires
        old(ctx).wf(),
    ensures
        final(ctx).wf(),
        r is Continue,
        ({
            let st = old(ctx).sel().spec_start();
            let en = old(ctx).sel().spec_end();
            let we = word_end_spec(old(ctx).text(), st);
            if st != en {
                edited(*old(ctx), *final(ctx), st, en, Seq::<char>::empty())
            } else if st < we {
                edited(*old(ctx), *final(ctx), st, we, Seq::<char>::empty())
            } else {
                ctx_unchanged(*old(ctx), *final(ctx))
            }
        }),
{
    let (start, end) = ctx.selection().range();
    if start != end {
        apply_single_edit(ctx, start, end, String::new());
    } else {
        let we = word_end_index(ctx.buffer(), start);
        if start < we {
            apply_single_edit(ctx, start, we, String::new());
        }
    }
    OperationResult::Continue
}

/// Delete the selection, or backward to the start of the word at the cursor.
pub fn exec_delete_word_backward(ctx: &mut Context) -> (r: OperationResult)
    requires
        old(ctx).wf(),
    ensures
        final(ctx).wf(),
        r is Continue,
        ({
            let st = old(ctx).sel().spec_start();
            let en = old(ctx).sel().spec_end();
            let ws = word_start_spec(old(ctx).text(), st);
            if st != en {
                edited(*old(ctx), *final(ctx), st, en, Seq::<char>::empty())
            } else if ws < st {
                edited(*old(ctx), *final(ctx), ws, st, Seq::<char>::empty())
            } else {
                ctx_unchanged(*old(ctx), *final(ctx))
            }
        }),
{
    let (start, end) = ctx.selection().range();
    if start != end {
        apply_single_edit(ctx, start, end, String::new());
    } else {
        let ws = word_start_index(ctx.buffer(), start);
        if ws < start {
            apply_single_edit(ctx, ws, start, String::new());
        }
    }
    OperationResult::Continue
}

/// Delete the cursor's whole line, line break included except on the last
/// line.
pub fn exec_delete_line(ctx: &mut Context) -> (r: OperationResult)
    requires
        old(ctx).wf(),
    ensures
        final(ctx).wf(),
        r is Continue,
        ({
            let s = old(ctx).text();
            let l = line_index_at(s, old(ctx).sel().head as int);
            if line_start(s, l) < line_end(s, l) {
                edited(*old(ctx), *final(ctx), line_start(s, l), line_end(s, l), Seq::<char>::empty())
            } else {
                ctx_unchanged(*old(ctx), *final(ctx))
            }
        }),
{
    let ghost s = ctx.text();
    let head = ctx.selection().head;
    proof {
        lemma_line_index_at_nonneg(s, head as int);
        lemma_line_index_at_mono(s, head as int, s.len() as int);
    }
    let line_idx = ctx.buffer().char_to_line(head);
    proof {
        lemma_line_span(s, line_idx as int);
    }
    let nl = ctx.buffer().len_lines();
    let start = ctx.buffer().line_to_char(line_idx);
    let end = if line_idx + 1 < nl {
        ctx.buffer().line_to_char(line_idx + 1)
    } else {
        ctx.buffer().len_chars()
    };
    if start < end {
        apply_single_edit(ctx, start, end, String::new());
    }
    OperationResult::Continue
}

/// Delete from the start of the cursor's line to the cursor.
pub fn exec_delete_to_line_start(ctx: &mut Context) -> (r: OperationResult)
    requires
        old(ctx).wf(),
    ensures
        final(ctx).wf(),
        r is Continue,
        ({
            let s = old(ctx).text();
            let h = old(ctx).sel().head as int;
            let ls = line_start(s, line_index_at(s, h));
            if ls < h {
                edited(*old(ctx), *final(ctx), ls, h, Seq::<char>::empty())
            } else {
                ctx_unchanged(*old(ctx), *final(ctx))
            }
        }),
{
    let head = ctx.selection().head;
    let ls = line_start_of_head(ctx);
    if ls < head {
        apply_single_edit(ctx, ls, head, String::new());
    }
    OperationResult::Continue
}

/// Delete from the cursor to the end of its line, keeping the line break.
pub fn exec_delete_to_line_end(ctx: &mut Context) -> (r: OperationResult)
    requires
        old(ctx).wf(),
    ensures
        final(ctx).wf(),
        r is Continue,
        ({
            let s = old(ctx).text();
            let h = old(ctx).sel().head as int;
            let le = line_end_target(s, h);
            if h < le {
                edited(*old(ctx), *final(ctx), h, le, Seq::<char>::empty())
            } else {
                ctx_unchanged(*old(ctx), *final(ctx))
            }
        }),
{
    let head = ctx.selection().head;
    let le = line_end_of_head(ctx);
    if head < le {
        apply_single_edit(ctx, head, le, String::new());
    }
    OperationResult::Continue
}

/// Copying has no clipboard in this core: the context is untouched.
pub fn exec_copy(ctx: &mut Context) -> (r: OperationResult)
    requires
        old(ctx).wf(),
    ensures
        final(ctx).wf(),
        r is Continue,
        ctx_unchanged(*old(ctx), *final(ctx)),
{
    OperationResult::Continue
}

/// Delete the selection; with no clipboard in this core the removed text
/// lives on only in the recorded transaction.
pub fn exec_cut(ctx: &mut Context) -> (r: OperationResult)
    requires
        old(ctx).wf(),
    ensures
        final(ctx).wf(),
        r is Continue,
        ({
            let st = old(ctx).sel().spec_start();
            let en = old(ctx).sel().spec_end();
            if st != en {
                edited(*old(ctx), *final(ctx), st, en, Seq::<char>::empty())
            } else {
                ctx_unchanged(*old(ctx), *final(ctx))
            }
        }),
{
    let (start, end) = ctx.selection().range();
    if start != end {
        apply_single_edit(ctx, start, end, String::new());
    }
    OperationResult::Continue
}

/// Replace the selection with its uppercase form.
pub fn exec_uppercase_selection(ctx: &mut Context) -> (r: OperationResult)
    requires
        old(ctx).wf(),
    ensures
        final(ctx).wf(),
        r is Continue,
        ({
            let st = old(ctx).sel().spec_start();
            let en = old(ctx).sel().spec_end();
            if st != en {
                edited(*old(ctx), *final(ctx), st, en, str_upper(old(ctx).text().subrange(st, en)))
            } else {
                ctx_unchanged(*old(ctx), *final(ctx))
            }
        }),
{
    let (start, end) = ctx.selection().range();
    if start != end {
        let sub = ctx.buffer().slice_to_string(start, end);
        let upper = str_to_uppercase(sub.as_str());
        apply_single_edit(ctx, start, end, upper);
    }
    OperationResult::Continue
}

/// Replace the selection with its lowercase form.
pub fn exec_lowercase_selection(ctx: &mut Context) -> (r: OperationResult)
    requires
        old(ctx).wf(),
    ensures
        final(ctx).wf(),
        r is Continue,
        ({
            let st = old(ctx).sel().spec_start();
            let en = old(ctx).sel().spec_end();
            if st != en {
                edited(*old(ctx), *final(ctx), st, en, str_lower(old(ctx).text().subrange(st, en)))
            } else {
                ctx_unchanged(*old(ctx), *final(ctx))
            }
        }),
{
    let (start, end) = ctx.selection().range();
    if start != end {
        let sub = ctx.buffer().slice_to_string(start, end);
        let lower = str_to_lowercase(sub.as_str());
        apply_single_edit(ctx, start, end, lower);
    }
    OperationResult::Continue
}

/// Replace the selection with its case-toggled form.
pub fn exec_toggle_case_selection(ctx: &mut Context) -> (r: OperationResult)
    requires
        old(ctx).wf(),
    ensures
        final(ctx).wf(),
        r is Continue,
        ({
            let st = old(ctx).sel().spec_start();
            let en = old(ctx).sel().spec_end();
            if st != en {
                edited(*old(ctx), *final(ctx), st, en, toggle_of(old(ctx).text().subrange(st, en)))
            } else {
                ctx_unchanged(*old(ctx), *final(ctx))
            }
        }),
{
    let (start, end) = ctx.selection().range();
    if start != end {
        let sub = ctx.buffer().slice_to_string(start, end);
        let toggled = toggle_case(sub.as_str());
        apply_single_edit(ctx, start, end, toggled);
    }
    OperationResult::Continue
}

/// Duplicate the cursor's line by inserting its text again at its start.
pub fn exec_duplicate_line(ctx: &mut Context) -> (r: OperationResult)
    requires
        old(ctx).wf(),
    ensures
        final(ctx).wf(),
        r is Continue,
        ({
            let s = old(ctx).text();
            let l = line_index_at(s, old(ctx).sel().head as int);
            edited(
                *old(ctx),
                *final(ctx),
                line_start(s, l),
                line_start(s, l),
                s.subrange(line_start(s, l), line_end(s, l)),
            )
        }),
{
    let ghost s = ctx.text();
    let head = ctx.selection().head;
    proof {
        lemma_line_index_at_nonneg(s, head as int);
        lemma_line_index_at_mono(s, head as int, s.len() as int);
    }
    let line_idx = ctx.buffer().char_to_line(head);
    proof {
        lemma_line_span(s, line_idx as int);
    }
    let nl = ctx.buffer().len_lines();
    let start = ctx.buffer().line_to_char(line_idx);
    let end = if line_idx + 1 < nl {
        ctx.buffer().line_to_char(line_idx + 1)
    } else {
        ctx.buffer().len_chars()
    };
    let line_text = ctx.buffer().slice_to_string(start, end);
    apply_single_edit(ctx, start, start, line_text);
    OperationResult::Continue
}

/// Swap the cursor's line with the one above it.
pub fn exec_move_line_up(ctx: &mut Context) -> (r: OperationResult)
    requires
        old(ctx).wf(),
    ensures
        final(ctx).wf(),
        r is Continue,
        ({
            let s = old(ctx).text();
            let l = line_index_at(s, old(ctx).sel().head as int);
            if l > 0 {
                edited(
                    *old(ctx),
                    *final(ctx),
                    line_start(s, l - 1),
                    line_end(s, l),
                    s.subrange(line_start(s, l), line_end(s, l)) + s.subrange(
                        line_start(s, l - 1),
                        line_end(s, l - 1),
                    ),
                )
            } else {
                ctx_unchanged(*old(ctx), *final(ctx))
            }
        }),
{
    let ghost s = ctx.text();
    let head = ctx.selection().head;
    proof {
        lemma_line_index_at_nonneg(s, head as int);
        lemma_line_index_at_mono(s, head as int, s.len() as int);
    }
    let line_idx = ctx.buffer().char_to_line(head);
    if line_idx == 0 {
        return OperationResult::Continue;
    }
    proof {
        lemma_line_span(s, line_idx as int);
        lemma_line_span(s, line_idx as int - 1);
    }
    let nl = ctx.buffer().len_lines();
    let prev_start = ctx.buffer().line_to_char(line_idx - 1);
    let cur_start = ctx.buffer().line_to_char(line_idx);
    let cur_end = if line_idx + 1 < nl {
        ctx.buffer().line_to_char(line_idx + 1)
    } else {
        ctx.buffer().len_chars()
    };
    let current_line = ctx.buffer().slice_to_string(cur_start, cur_end);
    let prev_line = ctx.buffer().slice_to_string(prev_start, cur_start);
    let mut new_text = current_line;
    new_text.append(prev_line.as_str());
    apply_single_edit(ctx, prev_start, cur_end, new_text);
    OperationResult::Continue
}

/// Swap the cursor's line with the one below it.
pub fn exec_move_line_down(ctx: &mut Context) -> (r: OperationResult)
    requires
        old(ctx).wf(),
    ensures
        final(ctx).wf(),
        r is Continue,
        ({
            let s = old(ctx).text();
            let l = line_index_at(s, old(ctx).sel().head as int);
            if l + 1 < num_lines(s) {
                edited(
                    *old(ctx),
                    *final(ctx),
                    line_start(s, l),
                    line_end(s, l + 1),
                    s.subrange(line_start(s, l + 1), line_end(s, l + 1)) + s.subrange(
                        line_start(s, l),
                        line_end(s, l),
                    ),
                )
            } else {
                ctx_unchanged(*old(ctx), *final(ctx))
            }
        }),
{
    let ghost s = ctx.text();
    let head = ctx.selection().head;
    proof {
        lemma_line_index_at_nonneg(s, head as int);
        lemma_line_index_at_mono(s, head as int, s.len() as int);
    }
    let line_idx = ctx.buffer().char_to_line(head);
    let nl = ctx.buffer().len_lines();
    if line_idx + 1 >= nl {
        return OperationResult::Continue;
    }
    proof {
        lemma_line_span(s, line_idx as int);
        lemma_line_span(s, line_idx as int + 1);
    }
    let cur_start = ctx.buffer().line_to_char(line_idx);
    let next_start = ctx.buffer().line_to_char(line_idx + 1);
    let next_end = if line_idx + 2 < nl {
        proof {
            lemma_line_span(s, line_idx as int + 2);
        }
        ctx.buffer().line_to_char(line_idx + 2)
    } else {
        ctx.buffer().len_chars()
    };
    let current_line = ctx.buffer().slice_to_string(cur_start, next_start);
    let next_line = ctx.buffer().slice_to_string(next_start, next_end);
    let mut new_text = next_line;
    new_text.append(current_line.as_str());
    apply_single_edit(ctx, cur_start, next_end, new_text);
    OperationResult::Continue
}

/// Open a new line above the cursor's line.
pub fn exec_insert_line_above(ctx: &mut Context) -> (r: OperationResult)
    requires
        old(ctx).wf(),
    ensures
        final(ctx).wf(),
        r is Continue,
        ({
            let s = old(ctx).text();
            let ls = line_start(s, line_index_at(s, old(ctx).sel().head as int));
            edited(*old(ctx), *final(ctx), ls, ls, seq!['\n'])
        }),
{
    let ls = line_start_of_head(ctx);
    apply_single_edit(ctx, ls, ls, char_to_string('\n'));
    OperationResult::Continue
}

/// Open a new line below the cursor's line.
pub fn exec_insert_line_below(ctx: &mut Context) -> (r: OperationResult)
    requires
        old(ctx).wf(),
    ensures
        final(ctx).wf(),
        r is Continue,
        ({
            let s = old(ctx).text();
            let le = line_end(s, line_index_at(s, old(ctx).sel().head as int));
            edited(*old(ctx), *final(ctx), le, le, seq!['\n'])
        }),
{
    let ghost s = ctx.text();
    let head = ctx.selection().head;
    proof {
        lemma_line_index_at_nonneg(s, head as int);
        lemma_line_index_at_mono(s, head as int, s.len() as int);
    }
    let line_idx = ctx.buffer().char_to_line(head);
    proof {
        lemma_line_span(s, line_idx as int);
    }
    let nl = ctx.buffer().len_lines();
    let le = if line_idx + 1 < nl {
        ctx.buffer().line_to_char(line_idx + 1)
    } else {
        ctx.buffer().len_chars()
    };
    apply_single_edit(ctx, le, le, char_to_string('\n'));
    OperationResult::Continue
}

/// Undo the most recent transaction.
pub fn exec_undo(ctx: &mut Context) -> (r: OperationResult)
    requires
        old(ctx).wf(),
    ensures
        final(ctx).wf(),
        r is Continue,
        undo_applied(*old(ctx), *final(ctx)),
{
    ctx.undo_once();
    OperationResult::Continue
}

/// Replay the most recently undone transaction.
pub fn exec_redo(ctx: &mut Context) -> (r: OperationResult)
    requires
        old(ctx).wf(),
    ensures
        final(ctx).wf(),
        r is Continue,
        redo_applied(*old(ctx), *final(ctx)),
{
    ctx.redo_once();
    OperationResult::Continue
}

/// Mark the buffer saved; persistence itself belongs to the host.
pub fn exec_save(ctx: &mut Context) -> (r: OperationResult)
    requires
        old(ctx).wf(),
    ensures
        final(ctx).wf(),
        r is Continue,
        final(ctx).same_but_selection(old(ctx)),
        final(ctx).sel() == old(ctx).sel(),
        !final(ctx).spec_modified(),
        final(ctx).spec_path() == old(ctx).spec_path(),
{
    ctx.set_modified(false);
    OperationResult::Continue
}

/// Record the buffer's new path and mark it saved.
pub fn exec_save_as(ctx: &mut Context, path: &String) -> (r: OperationResult)
    requires
        old(ctx).wf(),
    ensures
        final(ctx).wf(),
        r is Continue,
        final(ctx).same_but_selection(old(ctx)),
        final(ctx).sel() == old(ctx).sel(),
        !final(ctx).spec_modified(),
        final(ctx).spec_path() matches Some(p) && p@ == path@,
{
    ctx.set_path(Some(path.clone()));
    ctx.set_modified(false);
    OperationResult::Continue
}

/// The pattern occurs in `s` at position `i`.
pub open spec fn match_at(s: Seq<char>, pat: Seq<char>, i: int) -> bool {
    0 <= i && i + pat.len() <= s.len() && s.subrange(i, i + pat.len()) == pat
}

/// The first occurrence of the pattern at or after `i`.
pub open spec fn first_match_from(s: Seq<char>, pat: Seq<char>, i: int) -> Option<int>
    decreases s.len() - i + 1,
{
    if i < 0 || i + pat.len() > s.len() {
        None
    } else if match_at(s, pat, i) {
        Some(i)
    } else {
        first_match_from(s, pat, i + 1)
    }
}

/// The last occurrence of the pattern at or before `i`.
pub open spec fn last_match_upto(s: Seq<char>, pat: Seq<char>, i: int) -> Option<int>
    decreases i + 1,
{
    if i < 0 {
        None
    } else if match_at(s, pat, i) {
        Some(i)
    } else {
        last_match_upto(s, pat, i - 1)
    }
}

/// The characters of a text, collected for indexed scanning.
pub(crate) fn str_to_char_vec(s: &str) -> (r: Vec<char>)
    ensures
        r@ == s@,
{
    let n = s.unicode_len();
    let mut r: Vec<char> = Vec::new();
    let mut i: usize = 0;
    while i < n
        invariant
            n == s@.len(),
            i <= n,
            r@ =~= s@.take(i as int),
        decreases n - i,
    {
        r.push(s.get_char(i));
        proof {
            assert(r@ =~= s@.take(i + 1));
        }
        i += 1;
    }
    proof {
        assert(s@.take(n as int) =~= s@);
    }
    r
}

/// Whether the pattern occurs at position `i` of the content.
pub(crate) fn check_match(content: &Vec<char>, pat: &Vec<char>, i: usize) -> (r: bool)
    requires
        i + pat@.len() <= content@.len(),
    ensures
        r == match_at(content@, pat@, i as int),
{
    let n = content.len();
    let m = pat.len();
    let mut j: usize = 0;
    while j < m
        invariant
            j <= m,
            m == pat@.len(),
            i + m <= content@.len(),
            forall|q: int| 0 <= q < j ==> content@[i + q] == pat@[q],
        decreases m - j,
    {
        if content[i + j] != pat[j] {
            proof {
                assert(content@.subrange(i as int, i + m)[j as int] != pat@[j as int]);
            }
            return false;
        }
        j += 1;
    }
    proof {
        assert(content@.subrange(i as int, i + m) =~= pat@);
    }
    true
}

/// Select the first occurrence of the pattern at or after the cursor; with
/// none, leave everything as it is.
#[verifier::loop_isolation(true)]
pub fn exec_find_next(ctx: &mut Context, pattern: &String) -> (r: OperationResult)
    requires
        old(ctx).wf(),
    ensures
        final(ctx).wf(),
        r is Continue,
        ({
            match first_match_from(old(ctx).text(), pattern@, old(ctx).sel().head as int) {
                Some(i) => selected_range(*old(ctx), *final(ctx), i, i + pattern@.len()),
                None => ctx_unchanged(*old(ctx), *final(ctx)),
            }
        }),
{
    let ghost s = ctx.text();
    let ghost p = pattern@;
    let head = ctx.selection().head;
    let len = ctx.buffer().len_chars();
    let content_str = ctx.buffer().slice_to_string(0, len);
    proof {
        assert(content_str@ =~= s);
    }
    let content = str_to_char_vec(content_str.as_str());
    let pat = str_to_char_vec(pattern.as_str());
    let m = pat.len();
    if m == 0 {
        proof {
            assert(s.subrange(head as int, head as int) =~= p);
            assert(match_at(s, p, head as int));
        }
        ctx.set_selection(head, head);
        return OperationResult::Continue;
    }
    if m > len || head > len - m {
        proof {
            assert(first_match_from(s, p, head as int) is None) by {
                lemma_first_match_none(s, p, head as int);
            }
        }
        return OperationResult::Continue;
    }
    let mut i = head;
    let bound = len - m;
    while i <= bound
        invariant
            s == content@,
            p == pat@,
            len == s.len(),
            m == p.len(),
            bound == len - m,
            m <= len,
            head <= i,
            i <= bound + 1,
            1 <= m,
            first_match_from(s, p, head as int) == first_match_from(s, p, i as int),
        ensures
            first_match_from(s, p, head as int) == first_match_from(s, p, i as int),
            i > bound || match_at(s, p, i as int),
            bound == len - m && m <= len && len == s.len() && m == p.len(),
        decreases bound + 1 - i,
    {
        if check_match(&content, &pat, i) {
            break ;
        }
        i += 1;
    }
    if i <= bound {
        ctx.set_selection(i, i + m);
    } else {
        proof {
            lemma_first_match_none(s, p, i as int);
        }
    }
    OperationResult::Continue
}

/// Past the last possible start there is no occurrence.
pub(crate) proof fn lemma_first_match_none(s: Seq<char>, pat: Seq<char>, i: int)
    requires
        i + pat.len() > s.len() || i < 0,
    ensures
        first_match_from(s, pat, i) is None,
{
}

/// Select the last occurrence of the pattern that ends at or before the
/// cursor; with none, leave everything as it is.
pub fn exec_find_previous(ctx: &mut Context, pattern: &String) -> (r: OperationResult)
    requires
        old(ctx).wf(),
    ensures
        final(ctx).wf(),
        r is Continue,
        ({
            let h = old(ctx).sel().head as int;
            let res = if h < pattern@.len() {
                None
            } else {
                last_match_upto(old(ctx).text(), pattern@, h - pattern@.len())
            };
            match res {
                Some(i) => selected_range(*old(ctx), *final(ctx), i, i + pattern@.len()),
                None => ctx_unchanged(*old(ctx), *final(ctx)),
            }
        }),
{
    let ghost s = ctx.text();
    let ghost p = pattern@;
    let head = ctx.selection().head;
    let len = ctx.buffer().len_chars();
    let content_str = ctx.buffer().slice_to_string(0, len);
    proof {
        assert(content_str@ =~= s);
    }
    let content = str_to_char_vec(content_str.as_str());
    let pat = str_to_char_vec(pattern.as_str());
    let m = pat.len();
    if head < m {
        return OperationResult::Continue;
    }
    let mut i = head - m;
    loop
        invariant
            *ctx == *old(ctx),
            s == content@,
            p == pat@,
            len == s.len(),
            m == p.len(),
            i + m <= head <= len,
            last_match_upto(s, p, (head - m) as int) == last_match_upto(s, p, i as int),
        decreases i,
    {
        if check_match(&content, &pat, i) {
            ctx.set_selection(i, i + m);
            return OperationResult::Continue;
        }
        if i == 0 {
            proof {
                assert(last_match_upto(s, p, -1) is None);
            }
            return OperationResult::Continue;
        }
        i -= 1;
    }
}

/// Replace the selection when it holds exactly the pattern.
pub fn exec_replace(ctx: &mut Context, pattern: &String, replacement: &String) -> (r:
    OperationResult)
    requires
        old(ctx).wf(),
    ensures
        final(ctx).wf(),
        r is Continue,
        ({
            let st = old(ctx).sel().spec_start();
            let en = old(ctx).sel().spec_end();
            if old(ctx).text().subrange(st, en) == pattern@ {
                edited(*old(ctx), *final(ctx), st, en, replacement@)
            } else {
                ctx_unchanged(*old(ctx), *final(ctx))
            }
        }),
{
    let (start, end) = ctx.selection().range();
    let selected = ctx.buffer().slice_to_string(start, end);
    if String::eq(&selected, pattern) {
        apply_single_edit(ctx, start, end, replacement.clone());
    }
    OperationResult::Continue
}

/// The text with every occurrence of a non-empty pattern replaced, scanning
/// left to right without overlap.
pub open spec fn replace_all_spec(s: Seq<char>, pat: Seq<char>, rep: Seq<char>) -> Seq<char>
    decreases s.len(),
{
    if pat.len() == 0 || pat.len() > s.len() {
        s
    } else if s.take(pat.len() as int) == pat {
        rep + replace_all_spec(s.skip(pat.len() as int), pat, rep)
    } else {
        s.take(1) + replace_all_spec(s.skip(1), pat, rep)
    }
}

/// Replace every occurrence of the pattern in the whole buffer as one
/// transaction; an empty pattern, or a pattern that does not occur, changes
/// nothing.
pub fn exec_replace_all(ctx: &mut Context, pattern: &String, replacement: &String) -> (r:
    OperationResult)
    requires
        old(ctx).wf(),
    ensures
        final(ctx).wf(),
        r is Continue,
        ({
            let s = old(ctx).text();
            let res = replace_all_spec(s, pattern@, replacement@);
            if pattern@.len() > 0 && res != s {
                edited(*old(ctx), *final(ctx), 0, s.len() as int, res)
            } else {
                ctx_unchanged(*old(ctx), *final(ctx))
            }
        }),
{
    let ghost s = ctx.text();
    let ghost p = pattern@;
    let ghost rp = replacement@;
    let pat = str_to_char_vec(pattern.as_str());
    let m = pat.len();
    if m == 0 {
        return OperationResult::Continue;
    }
    let len = ctx.buffer().len_chars();
    let content_str = ctx.buffer().slice_to_string(0, len);
    proof {
        assert(content_str@ =~= s);
    }
    let content = str_to_char_vec(content_str.as_str());
    let mut out = String::new();
    let mut i: usize = 0;
    while i < len
        invariant
            s == content@,
            p == pat@,
            len == s.len(),
            m == p.len(),
            m > 0,
            i <= len,
            replace_all_spec(s, p, rp) == out@ + replace_all_spec(s.skip(i as int), p, rp),
        decreases len - i,
    {
        let ghost suffix = s.skip(i as int);
        if m <= len && i <= len - m && check_match(&content, &pat, i) {
            proof {
                assert(suffix.take(m as int) =~= s.subrange(i as int, i + m));
                assert(suffix.skip(m as int) =~= s.skip(i + m));
            }
            out.append(replacement.as_str());
            i += m;
        } else {
            proof {
                if i + m <= len {
                    assert(suffix.take(m as int) =~= s.subrange(i as int, i + m));
                }
                assert(suffix.len() == len - i);
                assert(suffix.take(1) =~= seq![s[i as int]]);
                assert(suffix.skip(1) =~= s.skip(i + 1));
            }
            let piece = char_to_string(content[i]);
            out.append(piece.as_str());
            i += 1;
        }
    }
    proof {
        assert(s.skip(len as int) =~= Seq::<char>::empty());
        assert(replace_all_spec(Seq::<char>::empty(), p, rp) == Seq::<char>::empty());
        assert(replace_all_spec(s, p, rp) =~= out@);
    }
    let changed = !String::eq(&out, &content_str);
    if changed {
        apply_single_edit(ctx, 0, len, out);
    }
    OperationResult::Continue
}

/// The context after one multi-edit transaction: the edits applied
/// canonically, the cursor after the last edit, the redo stack cleared, and
/// the transaction recorded with its captured removed text unless every edit
/// was a noop.
pub open spec fn transacted(o: Context, n: Context, edits: Seq<Edit>) -> bool {
    &&& n.text() == apply_edits_spec(o.text(), edits)
    &&& n.cursor_at(cursor_after_edits(edits))
    &&& n.spec_modified()
    &&& n.redo_entries().len() == 0
    &&& has_effective(edits) ==> n.undo_entries().len() == o.undo_entries().len() + 1
        && n.undo_entries().last().edits@ == edits && crate::edit::removed_matches(
        o.text(),
        edits,
        n.undo_entries().last().deleted_texts@,
    ) && n.undo_entries().drop_last() == o.undo_entries()
    &&& !has_effective(edits) ==> n.undo_entries() == o.undo_entries()
}

/// The per-line edits of an indent: one four-space insertion at each line
/// start of lines `l1..=l2`, listed from the last line up.
pub open spec fn indent_edits_ok(s: Seq<char>, edits: Seq<Edit>, l1: int, l2: int) -> bool {
    &&& edits.len() == l2 - l1 + 1
    &&& forall|k: int|
        0 <= k < edits.len() ==> (#[trigger] edits[k]).start == line_start(s, l2 - k)
            && edits[k].end == edits[k].start && edits[k].text@ == Seq::new(4nat, |i: int| ' ')
}

/// Indent every line the selection touches by four spaces, as one
/// transaction.
pub fn exec_indent_selection(ctx: &mut Context) -> (r: OperationResult)
    requires
        old(ctx).wf(),
    ensures
        final(ctx).wf(),
        r is Continue,
        ({
            let s = old(ctx).text();
            let l1 = line_index_at(s, old(ctx).sel().spec_start());
            let l2 = line_index_at(s, old(ctx).sel().spec_end());
            exists|edits: Seq<Edit>|
                #[trigger] indent_edits_ok(s, edits, l1, l2) && transacted(
                    *old(ctx),
                    *final(ctx),
                    edits,
                )
        }),
{
    let ghost s = ctx.text();
    let (start, end) = ctx.selection().range();
    proof {
        lemma_line_index_at_nonneg(s, start as int);
        lemma_line_index_at_mono(s, start as int, end as int);
        lemma_line_index_at_mono(s, end as int, s.len() as int);
    }
    let l1 = ctx.buffer().char_to_line(start);
    let l2 = ctx.buffer().char_to_line(end);
    let total_lines = ctx.buffer().len_lines();
    proof {
        assert(l2 < total_lines);
    }
    let count = l2 - l1 + 1;
    let mut edits: Vec<Edit> = Vec::new();
    let mut k: usize = 0;
    while k < count
        invariant
            count == l2 - l1 + 1,
            l1 <= l2 < num_lines(s),
            k <= count,
            s == ctx.text(),
            ctx.wf(),
            *ctx == *old(ctx),
            edits@.len() == k,
            forall|j: int|
                0 <= j < k ==> (#[trigger] edits@[j]).start == line_start(s, l2 - j)
                    && edits@[j].end == edits@[j].start && edits@[j].text@ == Seq::new(
                    4nat,
                    |i: int| ' ',
                ),
        decreases count - k,
    {
        let line = l2 - k;
        proof {
            lemma_line_start(s, line as int);
        }
        let ls = ctx.buffer().line_to_char(line);
        edits.push(Edit::insert(ls, spaces(4)));
        k += 1;
    }
    let ghost es = edits@;
    proof {
        assert(indent_edits_ok(s, es, l1 as int, l2 as int));
        assert forall|i: int, j: int| 0 <= i < j < es.len() implies (#[trigger] es[i]).start > (
        #[trigger] es[j]).start by {
            crate::text::lemma_line_start_lt(s, l2 - j, l2 - i);
        }
        assert forall|i: int| 0 <= i < es.len() implies crate::edit::edit_in_bounds(
            s,
            #[trigger] es[i],
        ) by {
            lemma_line_start(s, l2 - i);
        }
        assert(transaction_wf(s, es));
        assert(sorted_desc(es));
    }
    ctx.apply_edits(edits);
    proof {
        assert(indent_edits_ok(s, es, l1 as int, l2 as int) && transacted(
            *old(ctx),
            *ctx,
            es,
        ));
    }
    OperationResult::Continue
}

/// The run of spaces from `p`, stopping at `limit` and capped at `cap`.
pub open spec fn space_run(s: Seq<char>, p: int, limit: int, cap: int) -> int
    decreases cap,
{
    if cap <= 0 || p < 0 || p >= limit || p >= s.len() || s[p] != ' ' {
        0
    } else {
        1 + space_run(s, p + 1, limit, cap - 1)
    }
}

/// How much leading indentation one unindent step removes from line `l`: one
/// tab, or up to four leading spaces.
pub open spec fn unindent_amount(s: Seq<char>, l: int) -> int {
    let ls = line_start(s, l);
    let le = line_end(s, l);
    if ls >= le || ls >= s.len() {
        0
    } else if s[ls] == '\t' {
        1
    } else if s[ls] == ' ' {
        space_run(s, ls, le, 4)
    } else {
        0
    }
}

proof fn lemma_space_run_bounds(s: Seq<char>, p: int, limit: int, cap: int)
    requires
        0 <= p,
        0 <= cap,
    ensures
        0 <= space_run(s, p, limit, cap),
        space_run(s, p, limit, cap) <= cap,
        p + space_run(s, p, limit, cap) <= limit || space_run(s, p, limit, cap) == 0,
    decreases cap,
{
    if !(cap <= 0 || p < 0 || p >= limit || p >= s.len() || s[p] != ' ') {
        lemma_space_run_bounds(s, p + 1, limit, cap - 1);
    }
}

/// The removable indentation of a line fits within the line.
proof fn lemma_unindent_amount_bounds(s: Seq<char>, l: int)
    requires
        0 <= l < num_lines(s),
    ensures
        0 <= unindent_amount(s, l),
        line_start(s, l) + unindent_amount(s, l) <= line_end(s, l),
{
    crate::text::lemma_line_span(s, l);
    let ls = line_start(s, l);
    let le = line_end(s, l);
    if !(ls >= le || ls >= s.len()) && s[ls] != '\t' && s[ls] == ' ' {
        lemma_space_run_bounds(s, ls, le, 4);
    }
}

/// The per-line edits of an unindent: for each line of `l1..=l2`, from the
/// last up, the deletion of its removable leading indentation (a noop for a
/// line with none).
pub open spec fn unindent_edits_ok(s: Seq<char>, edits: Seq<Edit>, l1: int, l2: int) -> bool {
    &&& edits.len() == l2 - l1 + 1
    &&& forall|k: int|
        0 <= k < edits.len() ==> (#[trigger] edits[k]).start == line_start(s, l2 - k)
            && edits[k].end == edits[k].start + unindent_amount(s, l2 - k) && edits[k].text@
            == Seq::<char>::empty()
}

/// The removable leading indentation of line `l`, computed by inspection.
#[verifier::loop_isolation(true)]
fn unindent_amount_at<N: TextNavigator>(nav: &N, l: usize, ls: usize, le: usize) -> (a: usize)
    requires
        l < num_lines(nav.text()),
        ls as int == line_start(nav.text(), l as int),
        le as int == line_end(nav.text(), l as int),
        ls <= le <= nav.text().len(),
    ensures
        a as int == unindent_amount(nav.text(), l as int),
        ls + a <= le,
{
    let ghost s = nav.text();
    if ls >= le {
        return 0;
    }
    let c = nav.char_at(ls).unwrap();
    if c == '\t' {
        return 1;
    }
    if c != ' ' {
        return 0;
    }
    proof {
        lemma_space_run_bounds(s, ls as int, le as int, 4);
    }
    let mut cnt: usize = 1;
    proof {
        assert(space_run(s, ls as int, le as int, 4) == 1 + space_run(s, ls + 1, le as int, 3));
    }
    while cnt < 4 && ls + cnt < le
        invariant
            s == nav.text(),
            le <= s.len(),
            ls < le,
            1 <= cnt <= 4,
            ls + cnt <= le,
            space_run(s, ls as int, le as int, 4) == cnt + space_run(
                s,
                ls + cnt,
                le as int,
                4 - cnt,
            ),
        ensures
            cnt as int == space_run(s, ls as int, le as int, 4),
        decreases 4 - cnt,
    {
        let c2 = nav.char_at(ls + cnt).unwrap();
        if c2 != ' ' {
            proof {
                assert(space_run(s, ls + cnt, le as int, 4 - cnt) == 0);
            }
            break ;
        }
        proof {
            assert(space_run(s, ls + cnt, le as int, 4 - cnt) == 1 + space_run(
                s,
                ls + cnt + 1,
                le as int,
                4 - cnt - 1,
            ));
        }
        cnt += 1;
    }
    proof {
        lemma_space_run_bounds(s, ls as int, le as int, 4);
    }
    cnt
}

/// Remove one step of leading indentation from every line the selection
/// touches, as one transaction.
pub fn exec_unindent_selection(ctx: &mut Context) -> (r: OperationResult)
    requires
        old(ctx).wf(),
    ensures
        final(ctx).wf(),
        r is Continue,
        ({
            let s = old(ctx).text();
            let l1 = line_index_at(s, old(ctx).sel().spec_start());
            let l2 = line_index_at(s, old(ctx).sel().spec_end());
            exists|edits: Seq<Edit>|
                #[trigger] unindent_edits_ok(s, edits, l1, l2) && transacted(
                    *old(ctx),
                    *final(ctx),
                    edits,
                )
        }),
{
    let ghost s = ctx.text();
    let (start, end) = ctx.selection().range();
    proof {
        lemma_line_index_at_nonneg(s, start as int);
        lemma_line_index_at_mono(s, start as int, end as int);
        lemma_line_index_at_mono(s, end as int, s.len() as int);
    }
    let l1 = ctx.buffer().char_to_line(start);
    let l2 = ctx.buffer().char_to_line(end);
    let total_lines = ctx.buffer().len_lines();
    proof {
        assert(l2 < total_lines);
    }
    let count = l2 - l1 + 1;
    let mut edits: Vec<Edit> = Vec::new();
    let mut k: usize = 0;
    while k < count
        invariant
            count == l2 - l1 + 1,
            l1 <= l2 < num_lines(s),
            k <= count,
            s == ctx.text(),
            ctx.wf(),
            *ctx == *old(ctx),
            edits@.len() == k,
            forall|j: int|
                0 <= j < k ==> (#[trigger] edits@[j]).start == line_start(s, l2 - j)
                    && edits@[j].end == edits@[j].start + unindent_amount(s, l2 - j)
                    && edits@[j].text@ == Seq::<char>::empty(),
        decreases count - k,
    {
        let line = l2 - k;
        proof {
            lemma_line_span(s, line as int);
        }
        let nl = ctx.buffer().len_lines();
        let ls = ctx.buffer().line_to_char(line);
        let le = if line + 1 < nl {
            ctx.buffer().line_to_char(line + 1)
        } else {
            ctx.buffer().len_chars()
        };
        let a = unindent_amount_at(ctx.buffer(), line, ls, le);
        edits.push(Edit::delete(ls, ls + a));
        k += 1;
    }
    let ghost es = edits@;
    proof {
        assert(unindent_edits_ok(s, es, l1 as int, l2 as int));
        assert forall|i: int, j: int| 0 <= i < j < es.len() implies (#[trigger] es[i]).start > (
        #[trigger] es[j]).start by {
            crate::text::lemma_line_start_lt(s, l2 - j, l2 - i);
        }
        assert forall|i: int, j: int| 0 <= i < j < es.len() implies es[j].end <= es[i].start by {
            let li = l2 - i;
            let lj = l2 - j;
            lemma_line_span(s, lj);
            lemma_unindent_amount_bounds(s, lj);
            assert(es[j].end <= line_end(s, lj));
            if lj + 1 < num_lines(s) {
                if lj + 1 < li {
                    crate::text::lemma_line_start_lt(s, lj + 1, li);
                } else {
                    assert(lj + 1 == li);
                }
            } else {
                assert(false);
            }
        }
        assert forall|i: int| 0 <= i < es.len() implies crate::edit::edit_in_bounds(
            s,
            #[trigger] es[i],
        ) by {
            lemma_line_span(s, l2 - i);
            lemma_unindent_amount_bounds(s, l2 - i);
        }
        assert(transaction_wf(s, es));
        assert(sorted_desc(es));
    }
    ctx.apply_edits(edits);
    proof {
        assert(unindent_edits_ok(s, es, l1 as int, l2 as int) && transacted(
            *old(ctx),
            *ctx,
            es,
        ));
    }
    OperationResult::Continue
}

/// A named, parameterized command: pure data until executed.
#[derive(Debug)]
pub enum Operation {
    MoveLeft,
    MoveRight,
    MoveUp,
    MoveDown,
    MoveLineStart,
    MoveLineEnd,
    MoveWordForward,
    MoveWordBackward,
    MoveBigWordForward,
    MoveBigWordBackward,
    MoveDocumentStart,
    MoveDocumentEnd,
    MoveMatchingBracket,
    MoveParagraphForward,
    MoveParagraphBackward,
    SelectLeft,
    SelectRight,
    SelectUp,
    SelectDown,
    SelectWord,
    SelectLine,
    SelectAll,
    SelectLineStart,
    SelectLineEnd,
    ClearSelection,
    InsertChar(InsertChar),
    InsertString(InsertString),
    InsertNewline,
    InsertTab,
    InsertSpaces(InsertSpaces),
    DeleteChar,
    Backspace,
    DeleteWord,
    DeleteWordBackward,
    DeleteLine,
    DeleteToLineStart,
    DeleteToLineEnd,
    Copy,
    Cut,
    Paste(Paste),
    UppercaseSelection,
    LowercaseSelection,
    ToggleCaseSelection,
    IndentSelection,
    UnindentSelection,
    DuplicateLine,
    MoveLineUp,
    MoveLineDown,
    InsertLineAbove,
    InsertLineBelow,
    FindNext(FindNext),
    FindPrevious(FindPrevious),
    Replace(Replace),
    ReplaceAll(ReplaceAll),
    Undo,
    Redo,
    SwitchMode(SwitchMode),
    Exit,
    Save,
    SaveAs(SaveAs),
    JumpToLine(JumpToLine),
    JumpToCharacter(JumpToCharacter),
}

/// What one dispatch of `op` does to the context and hands back, case by
/// case.
pub open spec fn execute_post(op: Operation, o: Context, n: Context, r: OperationResult) -> bool {
    let s = o.text();
    let h = o.sel().head as int;
    let st = o.sel().spec_start();
    let en = o.sel().spec_end();
    match op {
        Operation::MoveLeft => r is Continue && n.same_but_selection(&o) && is_prev_grapheme(
            s,
            h,
            n.sel().head as int,
        ) && n.cursor_at(n.sel().head as int),
        Operation::MoveRight => r is Continue && n.same_but_selection(&o) && is_next_grapheme(
            s,
            h,
            n.sel().head as int,
        ) && n.cursor_at(n.sel().head as int),
        Operation::MoveUp => r is Continue && (if line_index_at(s, h) > 0 {
            moved_to(o, n, vertical_target(s, h, line_index_at(s, h) - 1))
        } else {
            ctx_unchanged(o, n)
        }),
        Operation::MoveDown => r is Continue && (if line_index_at(s, h) + 1 < num_lines(s) {
            moved_to(o, n, vertical_target(s, h, line_index_at(s, h) + 1))
        } else {
            ctx_unchanged(o, n)
        }),
        Operation::MoveLineStart => r is Continue && moved_to(
            o,
            n,
            line_start(s, line_index_at(s, h)),
        ),
        Operation::MoveLineEnd => r is Continue && moved_to(o, n, line_end_target(s, h)),
        Operation::MoveWordForward => r is Continue && moved_to(o, n, word_end_spec(s, h)),
        Operation::MoveWordBackward => r is Continue && moved_to(o, n, word_start_spec(s, h)),
        Operation::MoveBigWordForward => r is Continue && moved_to(o, n, big_word_end_spec(s, h)),
        Operation::MoveBigWordBackward => r is Continue && moved_to(
            o,
            n,
            big_word_start_spec(s, h),
        ),
        Operation::MoveDocumentStart => r is Continue && moved_to(o, n, 0),
        Operation::MoveDocumentEnd => r is Continue && moved_to(o, n, s.len() as int),
        Operation::MoveMatchingBracket => r is Continue && (match matching_bracket_spec(s, h) {
            Some(j) => moved_to(o, n, j),
            None => ctx_unchanged(o, n),
        }),
        Operation::MoveParagraphForward => r is Continue && moved_to(
            o,
            n,
            paragraph_end_spec(s, h),
        ),
        Operation::MoveParagraphBackward => r is Continue && moved_to(
            o,
            n,
            paragraph_start_spec(s, h),
        ),
        Operation::SelectLeft => r is Continue && n.same_but_selection(&o) && n.sel().anchor
            == o.sel().anchor && is_prev_grapheme(s, h, n.sel().head as int),
        Operation::SelectRight => r is Continue && n.same_but_selection(&o) && n.sel().anchor
            == o.sel().anchor && is_next_grapheme(s, h, n.sel().head as int),
        Operation::SelectUp => r is Continue && (if line_index_at(s, h) > 0 {
            extended_to(o, n, vertical_target(s, h, line_index_at(s, h) - 1))
        } else {
            ctx_unchanged(o, n)
        }),
        Operation::SelectDown => r is Continue && (if line_index_at(s, h) + 1 < num_lines(s) {
            extended_to(o, n, vertical_target(s, h, line_index_at(s, h) + 1))
        } else {
            ctx_unchanged(o, n)
        }),
        Operation::SelectWord => r is Continue && selected_range(
            o,
            n,
            word_start_spec(s, h),
            word_end_spec(s, h),
        ),
        Operation::SelectLine => r is Continue && selected_range(
            o,
            n,
            line_start(s, line_index_at(s, h)),
            line_end(s, line_index_at(s, h)),
        ),
        Operation::SelectAll => r is Continue && selected_range(o, n, 0, s.len() as int),
        Operation::SelectLineStart => r is Continue && extended_to(
            o,
            n,
            line_start(s, line_index_at(s, h)),
        ),
        Operation::SelectLineEnd => r is Continue && extended_to(o, n, line_end_target(s, h)),
        Operation::ClearSelection => r is Continue && moved_to(o, n, h),
        Operation::InsertChar(p) => r is Continue && edited(o, n, st, en, seq![p.ch]),
        Operation::InsertString(p) => r is Continue && edited(o, n, st, en, p.text@),
        Operation::InsertNewline => r is Continue && edited(o, n, st, en, seq!['\n']),
        Operation::InsertTab => r is Continue && edited(o, n, st, en, seq!['\t']),
        Operation::InsertSpaces(p) => r is Continue && edited(
            o,
            n,
            st,
            en,
            Seq::new(p.count as nat, |i: int| ' '),
        ),
        Operation::DeleteChar => r is Continue && (if st != en {
            edited(o, n, st, en, Seq::<char>::empty())
        } else if st < s.len() {
            exists|g: int|
                is_next_grapheme(s, st, g) && edited(o, n, st, g, Seq::<char>::empty())
        } else {
            ctx_unchanged(o, n)
        }),
        Operation::Backspace => r is Continue && (if st != en {
            edited(o, n, st, en, Seq::<char>::empty())
        } else if st > 0 {
            exists|g: int|
                is_prev_grapheme(s, st, g) && edited(o, n, g, st, Seq::<char>::empty())
        } else {
            ctx_unchanged(o, n)
        }),
        Operation::DeleteWord => r is Continue && (if st != en {
            edited(o, n, st, en, Seq::<char>::empty())
        } else if st < word_end_spec(s, st) {
            edited(o, n, st, word_end_spec(s, st), Seq::<char>::empty())
        } else {
            ctx_unchanged(o, n)
        }),
        Operation::DeleteWordBackward => r is Continue && (if st != en {
            edited(o, n, st, en, Seq::<char>::empty())
        } else if word_start_spec(s, st) < st {
            edited(o, n, word_start_spec(s, st), st, Seq::<char>::empty())
        } else {
            ctx_unchanged(o, n)
        }),
        Operation::DeleteLine => r is Continue && (if line_start(s, line_index_at(s, h))
            < line_end(s, line_index_at(s, h)) {
            edited(
                o,
                n,
                line_start(s, line_index_at(s, h)),
                line_end(s, line_index_at(s, h)),
                Seq::<char>::empty(),
            )
        } else {
            ctx_unchanged(o, n)
        }),
        Operation::DeleteToLineStart => r is Continue && (if line_start(s, line_index_at(s, h))
            < h {
            edited(o, n, line_start(s, line_index_at(s, h)), h, Seq::<char>::empty())
        } else {
            ctx_unchanged(o, n)
        }),
        Operation::DeleteToLineEnd => r is Continue && (if h < line_end_target(s, h) {
            edited(o, n, h, line_end_target(s, h), Seq::<char>::empty())
        } else {
            ctx_unchanged(o, n)
        }),
        Operation::Copy => r is Continue && ctx_unchanged(o, n),
        Operation::Cut => r is Continue && (if st != en {
            edited(o, n, st, en, Seq::<char>::empty())
        } else {
            ctx_unchanged(o, n)
        }),
        Operation::Paste(p) => r is Continue && edited(o, n, st, en, p.text@),
        Operation::UppercaseSelection => r is Continue && (if st != en {
            edited(o, n, st, en, str_upper(s.subrange(st, en)))
        } else {
            ctx_unchanged(o, n)
        }),
        Operation::LowercaseSelection => r is Continue && (if st != en {
            edited(o, n, st, en, str_lower(s.subrange(st, en)))
        } else {
            ctx_unchanged(o, n)
        }),
        Operation::ToggleCaseSelection => r is Continue && (if st != en {
            edited(o, n, st, en, toggle_of(s.subrange(st, en)))
        } else {
            ctx_unchanged(o, n)
        }),
        Operation::IndentSelection => r is Continue && (exists|edits: Seq<Edit>|
            #[trigger] indent_edits_ok(s, edits, line_index_at(s, st), line_index_at(s, en))
                && transacted(o, n, edits)),
        Operation::UnindentSelection => r is Continue && (exists|edits: Seq<Edit>|
            #[trigger] unindent_edits_ok(s, edits, line_index_at(s, st), line_index_at(s, en))
                && transacted(o, n, edits)),
        Operation::DuplicateLine => r is Continue && edited(
            o,
            n,
            line_start(s, line_index_at(s, h)),
            line_start(s, line_index_at(s, h)),
            s.subrange(line_start(s, line_index_at(s, h)), line_end(s, line_index_at(s, h))),
        ),
        Operation::MoveLineUp => r is Continue && (if line_index_at(s, h) > 0 {
            edited(
                o,
                n,
                line_start(s, line_index_at(s, h) - 1),
                line_end(s, line_index_at(s, h)),
                s.subrange(line_start(s, line_index_at(s, h)), line_end(s, line_index_at(s, h)))
                    + s.subrange(
                    line_start(s, line_index_at(s, h) - 1),
                    line_end(s, line_index_at(s, h) - 1),
                ),
            )
        } else {
            ctx_unchanged(o, n)
        }),
        Operation::MoveLineDown => r is Continue && (if line_index_at(s, h) + 1 < num_lines(s) {
            edited(
                o,
                n,
                line_start(s, line_index_at(s, h)),
                line_end(s, line_index_at(s, h) + 1),
                s.subrange(
                    line_start(s, line_index_at(s, h) + 1),
                    line_end(s, line_index_at(s, h) + 1),
                ) + s.subrange(line_start(s, line_index_at(s, h)), line_end(s, line_index_at(s, h))),
            )
        } else {
            ctx_unchanged(o, n)
        }),
        Operation::InsertLineAbove => r is Continue && edited(
            o,
            n,
            line_start(s, line_index_at(s, h)),
            line_start(s, line_index_at(s, h)),
            seq!['\n'],
        ),
        Operation::InsertLineBelow => r is Continue && edited(
            o,
            n,
            line_end(s, line_index_at(s, h)),
            line_end(s, line_index_at(s, h)),
            seq!['\n'],
        ),
        Operation::FindNext(p) => r is Continue && (match first_match_from(s, p.pattern@, h) {
            Some(i) => selected_range(o, n, i, i + p.pattern@.len()),
            None => ctx_unchanged(o, n),
        }),
        Operation::FindPrevious(p) => r is Continue && (match (if h < p.pattern@.len() {
            None
        } else {
            last_match_upto(s, p.pattern@, h - p.pattern@.len())
        }) {
            Some(i) => selected_range(o, n, i, i + p.pattern@.len()),
            None => ctx_unchanged(o, n),
        }),
        Operation::Replace(p) => r is Continue && (if s.subrange(st, en) == p.pattern@ {
            edited(o, n, st, en, p.replacement@)
        } else {
            ctx_unchanged(o, n)
        }),
        Operation::ReplaceAll(p) => r is Continue && (if p.pattern@.len() > 0 && replace_all_spec(
            s,
            p.pattern@,
            p.replacement@,
        ) != s {
            edited(o, n, 0, s.len() as int, replace_all_spec(s, p.pattern@, p.replacement@))
        } else {
            ctx_unchanged(o, n)
        }),
        Operation::Undo => r is Continue && undo_applied(o, n),
        Operation::Redo => r is Continue && redo_applied(o, n),
        Operation::SwitchMode(p) => ctx_unchanged(o, n) && (r matches
            OperationResult::SwitchMode(m) && m@ == p.target_mode@),
        Operation::Exit => r is Exit && ctx_unchanged(o, n),
        Operation::Save => r is Continue && n.same_but_selection(&o) && n.sel() == o.sel()
            && !n.spec_modified() && n.spec_path() == o.spec_path(),
        Operation::SaveAs(p) => r is Continue && n.same_but_selection(&o) && n.sel() == o.sel()
            && !n.spec_modified() && (n.spec_path() matches Some(q) && q@ == p.path@),
        Operation::JumpToLine(p) => r is Continue && moved_to(
            o,
            n,
            jump_line_target(s, p.line_number as int),
        ),
        Operation::JumpToCharacter(p) => r is Continue && moved_to(
            o,
            n,
            if p.position as int <= s.len() {
                p.position as int
            } else {
                s.len() as int
            },
        ),
    }
}

impl Operation {
    /// Execute the operation once against the context: compute its edits,
    /// apply them as one transaction, and reposition the selection.
    pub fn execute(&self, ctx: &mut Context) -> (r: OperationResult)
        requires
            old(ctx).wf(),
        ensures
            final(ctx).wf(),
            execute_post(*self, *old(ctx), *final(ctx), r),
    {
        match self {
            Operation::MoveLeft => exec_move_left(ctx),
            Operation::MoveRight => exec_move_right(ctx),
            Operation::MoveUp => exec_move_up(ctx),
            Operation::MoveDown => exec_move_down(ctx),
            Operation::MoveLineStart => exec_move_line_start(ctx),
            Operation::MoveLineEnd => exec_move_line_end(ctx),
            Operation::MoveWordForward => exec_move_word_forward(ctx),
            Operation::MoveWordBackward => exec_move_word_backward(ctx),
            Operation::MoveBigWordForward => exec_move_big_word_forward(ctx),
            Operation::MoveBigWordBackward => exec_move_big_word_backward(ctx),
            Operation::MoveDocumentStart => exec_move_document_start(ctx),
            Operation::MoveDocumentEnd => exec_move_document_end(ctx),
            Operation::MoveMatchingBracket => exec_move_matching_bracket(ctx),
            Operation::MoveParagraphForward => exec_move_paragraph_forward(ctx),
            Operation::MoveParagraphBackward => exec_move_paragraph_backward(ctx),
            Operation::SelectLeft => exec_select_left(ctx),
            Operation::SelectRight => exec_select_right(ctx),
            Operation::SelectUp => exec_select_up(ctx),
            Operation::SelectDown => exec_select_down(ctx),
            Operation::SelectWord => exec_select_word(ctx),
            Operation::SelectLine => exec_select_line(ctx),
            Operation::SelectAll => exec_select_all(ctx),
            Operation::SelectLineStart => exec_select_line_start(ctx),
            Operation::SelectLineEnd => exec_select_line_end(ctx),
            Operation::ClearSelection => exec_clear_selection(ctx),
            Operation::InsertChar(p) => exec_insert_char(ctx, p.ch),
            Operation::InsertString(p) => exec_insert_string(ctx, &p.text),
            Operation::InsertNewline => exec_insert_newline(ctx),
            Operation::InsertTab => exec_insert_tab(ctx),
            Operation::InsertSpaces(p) => exec_insert_spaces(ctx, p.count),
            Operation::DeleteChar => exec_delete_char(ctx),
            Operation::Backspace => exec_backspace(ctx),
            Operation::DeleteWord => exec_delete_word(ctx),
            Operation::DeleteWordBackward => exec_delete_word_backward(ctx),
            Operation::DeleteLine => exec_delete_line(ctx),
            Operation::DeleteToLineStart => exec_delete_to_line_start(ctx),
            Operation::DeleteToLineEnd => exec_delete_to_line_end(ctx),
            Operation::Copy => exec_copy(ctx),
            Operation::Cut => exec_cut(ctx),
            Operation::Paste(p) => exec_paste(ctx, &p.text),
            Operation::UppercaseSelection => exec_uppercase_selection(ctx),
            Operation::LowercaseSelection => exec_lowercase_selection(ctx),
            Operation::ToggleCaseSelection => exec_toggle_case_selection(ctx),
            Operation::IndentSelection => exec_indent_selection(ctx),
            Operation::UnindentSelection => exec_unindent_selection(ctx),
            Operation::DuplicateLine => exec_duplicate_line(ctx),
            Operation::MoveLineUp => exec_move_line_up(ctx),
            Operation::MoveLineDown => exec_move_line_down(ctx),
            Operation::InsertLineAbove => exec_insert_line_above(ctx),
            Operation::InsertLineBelow => exec_insert_line_below(ctx),
            Operation::FindNext(p) => exec_find_next(ctx, &p.pattern),
            Operation::FindPrevious(p) => exec_find_previous(ctx, &p.pattern),
            Operation::Replace(p) => exec_replace(ctx, &p.pattern, &p.replacement),
            Operation::ReplaceAll(p) => exec_replace_all(ctx, &p.pattern, &p.replacement),
            Operation::Undo => exec_undo(ctx),
            Operation::Redo => exec_redo(ctx),
            Operation::SwitchMode(p) => OperationResult::SwitchMode(p.target_mode.clone()),
            Operation::Exit => OperationResult::Exit,
            Operation::Save => exec_save(ctx),
            Operation::SaveAs(p) => exec_save_as(ctx, &p.path),
            Operation::JumpToLine(p) => exec_jump_to_line(ctx, p.line_number),
            Operation::JumpToCharacter(p) => exec_jump_to_character(ctx, p.position),
        }
    }
}

} // verus!

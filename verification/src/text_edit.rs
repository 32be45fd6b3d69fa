//! The document: a rope of characters with line-indexed access, plus the
//! viewport anchor of the window that looks onto it.
//!
//! The rope itself comes from the `ropey` crate (built with LF-only line
//! breaks, so `'\n'` is the only terminator it indexes by).  Each rope
//! operation the editor relies on is wrapped in one trusted function whose
//! contract states, over `rope_text`, what ropey's source shows.

use vstd::prelude::*;
use crate::lines::line_count;
use crate::lines::line_start;
use crate::lines::line_of;
use crate::lines::splice_insert;
use crate::lines::splice_remove;
use crate::lines::lemma_line_start_props;
use crate::lines::lemma_line_shape;
use crate::lines::lemma_last_line;
use crate::paste::push_char;

verus! {

#[verifier::external_type_specification]
#[verifier::external_body]
pub struct ExRope(ropey::Rope);

/// The characters a rope holds, in order.
pub uninterp spec fn rope_text(r: ropey::Rope) -> Seq<char>;

/// Relies on `ropey::Rope::new`: an empty rope holds no characters.
#[verifier::external_body]
pub(crate) fn rope_new() -> (r: ropey::Rope)
    ensures
        rope_text(r) == Seq::<char>::empty(),
{
    ropey::Rope::new()
}

/// Relies on `ropey::Rope::from_str`: the rope holds exactly the
/// characters of `s`.
#[verifier::external_body]
pub(crate) fn rope_from_str(s: &str) -> (r: ropey::Rope)
    ensures
        rope_text(r) == s@,
{
    ropey::Rope::from_str(s)
}

/// Relies on `ropey::Rope::len_chars`: the total character count.
#[verifier::external_body]
pub(crate) fn rope_len_chars(r: &ropey::Rope) -> (n: usize)
    ensures
        n == rope_text(*r).len(),
{
    r.len_chars()
}

/// Relies on `ropey::Rope::len_lines` (LF-only line breaks): one more than
/// the number of `'\n'` characters.
#[verifier::external_body]
pub(crate) fn rope_len_lines(r: &ropey::Rope) -> (n: usize)
    ensures
        n == line_count(rope_text(*r)),
{
    r.len_lines()
}

/// Relies on `ropey::Rope::char`: the character at the index.
#[verifier::external_body]
pub(crate) fn rope_char(r: &ropey::Rope, char_idx: usize) -> (c: char)
    requires
        char_idx < rope_text(*r).len(),
    ensures
        c == rope_text(*r)[char_idx as int],
{
    r.char(char_idx)
}

/// Relies on `ropey::Rope::line_to_char`: the character index of the start
/// of the given line.
#[verifier::external_body]
pub(crate) fn rope_line_to_char(r: &ropey::Rope, line_idx: usize) -> (n: usize)
    requires
        line_idx < line_count(rope_text(*r)),
    ensures
        n == line_start(rope_text(*r), line_idx as int),
{
    r.line_to_char(line_idx)
}

/// Relies on `ropey::Rope::char_to_line`: the number of line breaks before
/// the given character index (one past the end allowed).
#[verifier::external_body]
pub(crate) fn rope_char_to_line(r: &ropey::Rope, char_idx: usize) -> (n: usize)
    requires
        char_idx <= rope_text(*r).len(),
    ensures
        n == line_of(rope_text(*r), char_idx as int),
{
    r.char_to_line(char_idx)
}

/// Relies on `ropey::Rope::insert`: splices the text in at the index.
#[verifier::external_body]
pub(crate) fn rope_insert(r: &mut ropey::Rope, char_idx: usize, text: &str)
    requires
        char_idx <= rope_text(*old(r)).len(),
        rope_text(*old(r)).len() + text@.len() <= usize::MAX,
    ensures
        rope_text(*final(r)) == splice_insert(rope_text(*old(r)), char_idx as int, text@),
{
    r.insert(char_idx, text)
}

/// Relies on `ropey::Rope::insert_char`: splices one character in.
#[verifier::external_body]
pub(crate) fn rope_insert_char(r: &mut ropey::Rope, char_idx: usize, ch: char)
    requires
        char_idx <= rope_text(*old(r)).len(),
        rope_text(*old(r)).len() + 1 <= usize::MAX,
    ensures
        rope_text(*final(r)) == splice_insert(rope_text(*old(r)), char_idx as int, seq![ch]),
{
    r.insert_char(char_idx, ch)
}

/// Relies on `ropey::Rope::remove`: removes the character range.
#[verifier::external_body]
pub(crate) fn rope_remove(r: &mut ropey::Rope, start: usize, end: usize)
    requires
        start <= end <= rope_text(*old(r)).len(),
    ensures
        rope_text(*final(r)) == splice_remove(rope_text(*old(r)), start as int, end as int),
{
    r.remove(start..end)
}

/// The rope-backed document together with the top-left anchor of the
/// visible window onto it.
pub struct TextEditor {
    pub rope: ropey::Rope,
    pub start_line: usize,
    pub start_col: usize,
}

impl TextEditor {
    /// The document's characters.
    pub open spec fn text(&self) -> Seq<char> {
        rope_text(self.rope)
    }

    pub fn new() -> (r: Self)
        ensures
            r.text() == Seq::<char>::empty(),
            r.start_line == 0,
            r.start_col == 0,
    {
        Self { rope: rope_new(), start_line: 0, start_col: 0 }
    }

    /// A document holding the given text, viewed from its top-left corner.
    pub fn from_text(s: &str) -> (r: Self)
        ensures
            r.text() == s@,
            r.start_line == 0,
            r.start_col == 0,
    {
        Self { rope: rope_from_str(s), start_line: 0, start_col: 0 }
    }

    pub fn len_chars(&self) -> (n: usize)
        ensures
            n == self.text().len(),
    {
        rope_len_chars(&self.rope)
    }

    pub fn len_lines(&self) -> (n: usize)
        ensures
            n == line_count(self.text()),
    {
        rope_len_lines(&self.rope)
    }

    /// Character index of the start of the given line.
    pub fn line_start_index(&self, line: usize) -> (n: usize)
        requires
            line < line_count(self.text()),
        ensures
            n == line_start(self.text(), line as int),
    {
        rope_line_to_char(&self.rope, line)
    }

    /// Length of the given line, excluding its terminator.
    pub fn line_len(&self, line: usize) -> (n: usize)
        requires
            line < line_count(self.text()),
        ensures
            n == crate::lines::line_len(self.text(), line as int),
    {
        proof {
            lemma_line_start_props(self.text(), line as int);
            lemma_line_shape(self.text(), line as int);
        }
        let s = rope_line_to_char(&self.rope, line);
        let total_lines = rope_len_lines(&self.rope);
        if line + 1 < total_lines {
            let s2 = rope_line_to_char(&self.rope, line + 1);
            s2 - 1 - s
        } else {
            proof {
                lemma_last_line(self.text());
            }
            let e = rope_len_chars(&self.rope);
            e - s
        }
    }

    /// The document's characters, collected into a `String`.
    pub fn text_string(&self) -> (r: String)
        ensures
            r@ == self.text(),
    {
        let n = rope_len_chars(&self.rope);
        let mut out = String::new();
        let mut i: usize = 0;
        proof {
            assert(out@ =~= self.text().take(0));
        }
        while i < n
            invariant
                i <= n,
                n == self.text().len(),
                out@ == self.text().take(i as int),
            decreases n - i,
        {
            let c = rope_char(&self.rope, i);
            push_char(&mut out, c);
            proof {
                assert(out@ =~= self.text().take(i as int + 1));
            }
            i = i + 1;
        }
        proof {
            assert(self.text().take(n as int) =~= self.text());
        }
        out
    }

    /// Scrolls the view up by `amount` lines, stopping at the first line.
    pub fn scroll_up(&mut self, amount: usize)
        ensures
            final(self).start_line == (if old(self).start_line >= amount {
                (old(self).start_line - amount) as usize
            } else {
                0usize
            }),
            final(self).start_col == old(self).start_col,
            final(self).rope == old(self).rope,
    {
        if self.start_line >= amount {
            self.start_line = self.start_line - amount;
        } else {
            self.start_line = 0;
        }
    }

    /// Scrolls the view down by `amount` lines.
    pub fn scroll_down(&mut self, amount: usize)
        requires
            old(self).start_line + amount <= usize::MAX,
        ensures
            final(self).start_line == old(self).start_line + amount,
            final(self).start_col == old(self).start_col,
            final(self).rope == old(self).rope,
    {
        self.start_line = self.start_line + amount;
    }

    /// Scrolls the view left by `amount` columns, stopping at column zero.
    pub fn scroll_left(&mut self, amount: usize)
        ensures
            final(self).start_col == (if old(self).start_col >= amount {
                (old(self).start_col - amount) as usize
            } else {
                0usize
            }),
            final(self).start_line == old(self).start_line,
            final(self).rope == old(self).rope,
    {
        if self.start_col >= amount {
            self.start_col = self.start_col - amount;
        } else {
            self.start_col = 0;
        }
    }

    /// Scrolls the view right by `amount` columns.
    pub fn scroll_right(&mut self, amount: usize)
        requires
            old(self).start_col + amount <= usize::MAX,
        ensures
            final(self).start_col == old(self).start_col + amount,
            final(self).start_line == old(self).start_line,
            final(self).rope == old(self).rope,
    {
        self.start_col = self.start_col + amount;
    }
}

} // verus!

//! The cursor engine: converts movement intents and editing keystrokes
//! into document mutations and viewport updates.
//!
//! Invariants carried through every operation: the cursor stays on an
//! existing line with `col <= line_len` (terminator excluded); the sticky
//! desired column survives vertical moves and is reset by horizontal
//! moves and edits; after every operation that moves the cursor the
//! viewport is clamped so the cursor is visible; and the document stays
//! free of carriage returns.

use vstd::prelude::*;
use crate::lines::line_count;
use crate::lines::line_start;
use crate::lines::line_len;
use crate::lines::line_of;
use crate::lines::count_nl;
use crate::lines::cr_free;
use crate::lines::splice_insert;
use crate::lines::splice_remove;
use crate::lines::lemma_line_start_props;
use crate::lines::lemma_line_shape;
use crate::lines::lemma_last_line;
use crate::lines::lemma_count_nl_zero;
use crate::lines::lemma_insert_in_line;
use crate::lines::lemma_insert_multiline;
use crate::lines::lemma_remove_in_line;
use crate::lines::lemma_remove_newline_join;
use crate::lines::lemma_splice_insert_cr_free;
use crate::lines::lemma_splice_remove_cr_free;
use crate::text_edit::TextEditor;
use crate::text_edit::rope_insert_char;
use crate::text_edit::rope_insert;
use crate::text_edit::rope_remove;
use crate::text_edit::rope_char;
use crate::paste::push_char;
use crate::paste::normalize_newlines;
use crate::viewport::cursor_visible;
use crate::viewport::follow_axis;

verus! {

/// Logical cursor: position plus the sticky horizontal target that
/// vertical moves aim for.
pub struct CursorController {
    pub line: usize,
    pub col: usize,
    pub desired_col: usize,
}

impl CursorController {
    /// The cursor addresses a real position of the document `t`: its line
    /// exists and its column lies within the line, terminator excluded.
    pub open spec fn wf(&self, t: Seq<char>) -> bool {
        &&& (self.line as int) < line_count(t)
        &&& (self.col as int) <= line_len(t, self.line as int)
    }

    /// Character index the cursor addresses.
    pub open spec fn char_index(&self, t: Seq<char>) -> int {
        line_start(t, self.line as int) + self.col as int
    }

    /// Cursor at the document start.
    pub fn new() -> (r: Self)
        ensures
            r.line == 0,
            r.col == 0,
            r.desired_col == 0,
    {
        Self { line: 0, col: 0, desired_col: 0 }
    }

    /// The cursor is visible in the window the editor currently anchors.
    pub open spec fn visible_in(&self, ed: &TextEditor, width: int, height: int) -> bool {
        cursor_visible(
            self.line as int,
            self.col as int,
            ed.start_line as int,
            ed.start_col as int,
            width,
            height,
        )
    }
}

/// Both viewport anchors after following the cursor: each axis clamped the
/// least amount that brings the cursor inside the window.
pub open spec fn followed(
    ed_old: &TextEditor,
    cur: &CursorController,
    ed_new: &TextEditor,
    width: int,
    height: int,
) -> bool {
    &&& ed_new.start_col == follow_axis(ed_old.start_col as int, cur.col as int, width)
    &&& ed_new.start_line == follow_axis(ed_old.start_line as int, cur.line as int, height)
}

/// Clamps the viewport anchors so the cursor is visible: each anchor moves
/// only as far as needed, one axis at a time.
fn follow_cursor(cur: &CursorController, ed: &mut TextEditor, width: usize, height: usize)
    requires
        width >= 1,
        height >= 1,
    ensures
        final(ed).rope == old(ed).rope,
        followed(old(ed), cur, final(ed), width as int, height as int),
        cur.visible_in(final(ed), width as int, height as int),
{
    if cur.col < ed.start_col {
        ed.start_col = cur.col;
    } else if cur.col - ed.start_col >= width {
        ed.start_col = cur.col - (width - 1);
    }
    if cur.line < ed.start_line {
        ed.start_line = cur.line;
    } else if cur.line - ed.start_line >= height {
        ed.start_line = cur.line - (height - 1);
    }
}

impl CursorController {
    /// Vertical move up one line.  The column follows the sticky desired
    /// column, clamped to the target line's length; the desired column
    /// itself is unchanged.  At the first line the cursor clamps to line
    /// zero.
    pub fn move_up(&mut self, ed: &mut TextEditor, width: usize, height: usize)
        requires
            old(self).wf(old(ed).text()),
            width >= 1,
            height >= 1,
        ensures
            final(ed).text() == old(ed).text(),
            final(self).wf(final(ed).text()),
            final(self).desired_col == old(self).desired_col,
            final(self).line as int == (if old(self).line == 0 {
                0int
            } else {
                old(self).line - 1
            }),
            final(self).col as int == vstd::math::min(
                old(self).desired_col as int,
                line_len(old(ed).text(), final(self).line as int),
            ),
            followed(old(ed), final(self), final(ed), width as int, height as int),
            final(self).visible_in(final(ed), width as int, height as int),
    {
        let target = if self.line > 0 {
            self.line - 1
        } else {
            0
        };
        proof {
            lemma_line_shape(ed.text(), target as int);
        }
        let len = ed.line_len(target);
        self.line = target;
        self.col = if self.desired_col < len {
            self.desired_col
        } else {
            len
        };
        follow_cursor(self, ed, width, height);
    }

    /// Vertical move down one line, with the same sticky-column policy.
    /// At the last line the cursor clamps to the last line.
    pub fn move_down(&mut self, ed: &mut TextEditor, width: usize, height: usize)
        requires
            old(self).wf(old(ed).text()),
            width >= 1,
            height >= 1,
        ensures
            final(ed).text() == old(ed).text(),
            final(self).wf(final(ed).text()),
            final(self).desired_col == old(self).desired_col,
            final(self).line as int == (if old(self).line + 1 < line_count(old(ed).text()) {
                old(self).line + 1
            } else {
                old(self).line as int
            }),
            final(self).col as int == vstd::math::min(
                old(self).desired_col as int,
                line_len(old(ed).text(), final(self).line as int),
            ),
            followed(old(ed), final(self), final(ed), width as int, height as int),
            final(self).visible_in(final(ed), width as int, height as int),
    {
        let total_lines = ed.len_lines();
        let target = if self.line + 1 < total_lines {
            self.line + 1
        } else {
            self.line
        };
        proof {
            lemma_line_shape(ed.text(), target as int);
        }
        let len = ed.line_len(target);
        self.line = target;
        self.col = if self.desired_col < len {
            self.desired_col
        } else {
            len
        };
        follow_cursor(self, ed, width, height);
    }

    /// Horizontal move left: one column back, wrapping to the end of the
    /// previous line at column zero.  Resets the desired column to the new
    /// column.
    pub fn move_left(&mut self, ed: &mut TextEditor, width: usize, height: usize)
        requires
            old(self).wf(old(ed).text()),
            width >= 1,
            height >= 1,
        ensures
            final(ed).text() == old(ed).text(),
            final(self).wf(final(ed).text()),
            final(self).desired_col == final(self).col,
            (if old(self).col > 0 {
                final(self).line == old(self).line && final(self).col as int == old(self).col - 1
            } else if old(self).line > 0 {
                final(self).line as int == old(self).line - 1 && final(self).col as int
                    == line_len(old(ed).text(), old(self).line - 1)
            } else {
                final(self).line == 0 && final(self).col == 0
            }),
            followed(old(ed), final(self), final(ed), width as int, height as int),
            final(self).visible_in(final(ed), width as int, height as int),
    {
        if self.col > 0 {
            self.col = self.col - 1;
        } else if self.line > 0 {
            proof {
                lemma_line_shape(ed.text(), self.line as int - 1);
            }
            let target = self.line - 1;
            let len = ed.line_len(target);
            self.line = target;
            self.col = len;
        } else {
            self.col = 0;
        }
        self.desired_col = self.col;
        follow_cursor(self, ed, width, height);
    }

    /// Horizontal move right: one column forward, wrapping to the start of
    /// the next line at the end of a line (only if a next line exists).
    /// Resets the desired column to the new column.
    pub fn move_right(&mut self, ed: &mut TextEditor, width: usize, height: usize)
        requires
            old(self).wf(old(ed).text()),
            width >= 1,
            height >= 1,
        ensures
            final(ed).text() == old(ed).text(),
            final(self).wf(final(ed).text()),
            final(self).desired_col == final(self).col,
            (if (old(self).col as int) < line_len(old(ed).text(), old(self).line as int) {
                final(self).line == old(self).line && final(self).col as int == old(self).col + 1
            } else if old(self).line + 1 < line_count(old(ed).text()) {
                final(self).line as int == old(self).line + 1 && final(self).col == 0
            } else {
                final(self).line == old(self).line && final(self).col == old(self).col
            }),
            followed(old(ed), final(self), final(ed), width as int, height as int),
            final(self).visible_in(final(ed), width as int, height as int),
    {
        proof {
            lemma_line_shape(ed.text(), self.line as int);
        }
        let len = ed.line_len(self.line);
        let total_lines = ed.len_lines();
        if self.col < len {
            self.col = self.col + 1;
        } else if self.line + 1 < total_lines {
            proof {
                lemma_line_shape(ed.text(), self.line as int + 1);
            }
            self.line = self.line + 1;
            self.col = 0;
        }
        self.desired_col = self.col;
        follow_cursor(self, ed, width, height);
    }
}

/// Column of the tab stop after `c`: the next multiple of four strictly
/// beyond `c`.
pub open spec fn next_tab_stop(c: int) -> int {
    c + 4 - (c % 4)
}

/// Column of the tab stop at or before `c - 1`: soft-tab dedent target.
pub open spec fn prev_tab_stop(c: int) -> int {
    if c % 4 == 0 {
        c - 4
    } else {
        c - (c % 4)
    }
}

/// A run of `n` spaces.
pub open spec fn spaces(n: int) -> Seq<char> {
    Seq::new(n as nat, |i: int| ' ')
}

/// Exact effect of inserting one printable character at the cursor.
pub open spec fn insert_char_post(
    t: Seq<char>,
    cur: CursorController,
    c: char,
    t2: Seq<char>,
    cur2: CursorController,
) -> bool {
    &&& t2 == splice_insert(t, line_start(t, cur.line as int) + cur.col as int, seq![c])
    &&& cur2.line == cur.line
    &&& cur2.col as int == cur.col + 1
    &&& cur2.desired_col == cur2.col
}

impl CursorController {
    /// Inserts one printable character at the cursor and advances one
    /// column.  Control characters are excluded: `'\n'` arrives through
    /// `enter`, and no carriage return enters the document.
    pub fn insert_char(&mut self, ed: &mut TextEditor, c: char, width: usize, height: usize)
        requires
            old(self).wf(old(ed).text()),
            cr_free(old(ed).text()),
            c != '\n',
            c != '\r',
            old(ed).text().len() + 1 <= usize::MAX,
            width >= 1,
            height >= 1,
        ensures
            insert_char_post(old(ed).text(), *old(self), c, final(ed).text(), *final(self)),
            final(self).wf(final(ed).text()),
            cr_free(final(ed).text()),
            followed(old(ed), final(self), final(ed), width as int, height as int),
            final(self).visible_in(final(ed), width as int, height as int),
    {
        proof {
            lemma_line_start_props(ed.text(), self.line as int);
            lemma_line_shape(ed.text(), self.line as int);
        }
        let s = ed.line_start_index(self.line);
        let idx = s + self.col;
        let ghost t = ed.text();
        rope_insert_char(&mut ed.rope, idx, c);
        proof {
            assert(seq![c].drop_last() =~= Seq::<char>::empty());
            assert(seq![c].last() == c);
            assert(count_nl(Seq::<char>::empty()) == 0);
            assert(count_nl(seq![c]) == 0);
            lemma_insert_in_line(t, self.line as int, self.col as int, seq![c]);
            assert forall|j: int| 0 <= j < seq![c].len() implies seq![c][j] != '\r' by {
                assert(seq![c][j] == c);
            }
            lemma_splice_insert_cr_free(t, idx as int, seq![c]);
        }
        self.col = self.col + 1;
        self.desired_col = self.col;
        follow_cursor(self, ed, width, height);
    }

    /// Inserts a line break at the cursor: the line splits, and the cursor
    /// moves to the start of the new line.
    pub fn enter(&mut self, ed: &mut TextEditor, width: usize, height: usize)
        requires
            old(self).wf(old(ed).text()),
            cr_free(old(ed).text()),
            old(ed).text().len() + 1 <= usize::MAX,
            width >= 1,
            height >= 1,
        ensures
            final(ed).text() == splice_insert(
                old(ed).text(),
                old(self).char_index(old(ed).text()),
                seq!['\n'],
            ),
            final(self).line as int == old(self).line + 1,
            final(self).col == 0,
            final(self).desired_col == 0,
            final(self).wf(final(ed).text()),
            cr_free(final(ed).text()),
            followed(old(ed), final(self), final(ed), width as int, height as int),
            final(self).visible_in(final(ed), width as int, height as int),
    {
        proof {
            lemma_line_start_props(ed.text(), self.line as int);
            lemma_line_shape(ed.text(), self.line as int);
            crate::lines::lemma_count_nl_le_len(ed.text());
        }
        let s = ed.line_start_index(self.line);
        let idx = s + self.col;
        let ghost t = ed.text();
        rope_insert_char(&mut ed.rope, idx, '\n');
        proof {
            let u = seq!['\n'];
            assert(u.drop_last() =~= Seq::<char>::empty());
            assert(u.last() == '\n');
            assert(count_nl(Seq::<char>::empty()) == 0);
            assert(count_nl(u) == 1);
            assert(u[0] == '\n');
            assert(crate::lines::next_newline(u, 0) == 0);
            assert(line_start(u, 0) == 0);
            assert(line_start(u, 1) == 1);
            lemma_insert_multiline(t, self.line as int, self.col as int, u);
            assert forall|j: int| 0 <= j < u.len() implies u[j] != '\r' by {
                assert(u[j] == '\n');
            }
            lemma_splice_insert_cr_free(t, idx as int, u);
        }
        self.line = self.line + 1;
        self.col = 0;
        self.desired_col = 0;
        follow_cursor(self, ed, width, height);
    }

    /// Soft tab: inserts spaces up to the next multiple-of-four column.
    /// No literal tab character is stored.
    pub fn tab(&mut self, ed: &mut TextEditor, width: usize, height: usize)
        requires
            old(self).wf(old(ed).text()),
            cr_free(old(ed).text()),
            old(ed).text().len() + 4 <= usize::MAX,
            width >= 1,
            height >= 1,
        ensures
            final(ed).text() == splice_insert(
                old(ed).text(),
                old(self).char_index(old(ed).text()),
                spaces(next_tab_stop(old(self).col as int) - old(self).col),
            ),
            final(self).line == old(self).line,
            final(self).col as int == next_tab_stop(old(self).col as int),
            final(self).desired_col == final(self).col,
            final(self).wf(final(ed).text()),
            cr_free(final(ed).text()),
            followed(old(ed), final(self), final(ed), width as int, height as int),
            final(self).visible_in(final(ed), width as int, height as int),
    {
        proof {
            lemma_line_start_props(ed.text(), self.line as int);
            lemma_line_shape(ed.text(), self.line as int);
        }
        let pad_len: usize = 4 - self.col % 4;
        let mut pad = String::new();
        let mut k: usize = 0;
        proof {
            assert(pad@ =~= spaces(0));
        }
        while k < pad_len
            invariant
                k <= pad_len,
                pad@ == spaces(k as int),
            decreases pad_len - k,
        {
            push_char(&mut pad, ' ');
            proof {
                assert(pad@ =~= spaces(k as int + 1));
            }
            k = k + 1;
        }
        let s = ed.line_start_index(self.line);
        let idx = s + self.col;
        let ghost t = ed.text();
        let ghost u = spaces(pad_len as int);
        rope_insert(&mut ed.rope, idx, pad.as_str());
        proof {
            assert forall|j: int| 0 <= j < u.len() implies u[j] != '\n' && u[j] != '\r' by {
                assert(u[j] == ' ');
            }
            lemma_count_nl_zero(u);
            lemma_insert_in_line(t, self.line as int, self.col as int, u);
            lemma_splice_insert_cr_free(t, idx as int, u);
        }
        self.col = self.col + pad_len;
        self.desired_col = self.col;
        follow_cursor(self, ed, width, height);
    }
}

/// Exact effect of one backspace at the cursor.  When everything from the
/// line start to the cursor is spaces, one backspace dedents to the
/// previous multiple-of-four column; otherwise it deletes one character,
/// crossing to the end of the previous line at column zero.
pub open spec fn backspace_post(
    t: Seq<char>,
    cur: CursorController,
    t2: Seq<char>,
    cur2: CursorController,
) -> bool {
    let l = cur.line as int;
    let c = cur.col as int;
    let s = line_start(t, l);
    if c > 0 && prefix_spaces(t, l, c) {
        &&& t2 == splice_remove(t, s + prev_tab_stop(c), s + c)
        &&& cur2.line as int == l
        &&& cur2.col as int == prev_tab_stop(c)
        &&& cur2.desired_col == cur2.col
    } else if c > 0 {
        &&& t2 == splice_remove(t, s + c - 1, s + c)
        &&& cur2.line as int == l
        &&& cur2.col as int == c - 1
        &&& cur2.desired_col == cur2.col
    } else if l > 0 {
        &&& t2 == splice_remove(t, s - 1, s)
        &&& cur2.line as int == l - 1
        &&& cur2.col as int == line_len(t, l - 1)
        &&& cur2.desired_col == cur2.col
    } else {
        &&& t2 == t
        &&& cur2.line == 0
        &&& cur2.col == 0
        &&& cur2.desired_col == cur2.col
    }
}

/// Everything from the start of line `l` up to (excluding) line offset `c`
/// is a space.
pub open spec fn prefix_spaces(t: Seq<char>, l: int, c: int) -> bool {
    forall|j: int| line_start(t, l) <= j < line_start(t, l) + c ==> t[j] == ' '
}

impl CursorController {
    /// Deletes backward once, soft-tab aware; see `backspace_post`.
    pub fn backspace(&mut self, ed: &mut TextEditor, width: usize, height: usize)
        requires
            old(self).wf(old(ed).text()),
            cr_free(old(ed).text()),
            width >= 1,
            height >= 1,
        ensures
            backspace_post(old(ed).text(), *old(self), final(ed).text(), *final(self)),
            final(self).wf(final(ed).text()),
            cr_free(final(ed).text()),
            followed(old(ed), final(self), final(ed), width as int, height as int),
            final(self).visible_in(final(ed), width as int, height as int),
    {
        proof {
            lemma_line_start_props(ed.text(), self.line as int);
            lemma_line_shape(ed.text(), self.line as int);
        }
        let ghost t = ed.text();
        let ghost l = self.line as int;
        let total = ed.len_chars();
        if self.col > 0 {
            let s = ed.line_start_index(self.line);
            // is everything before the cursor on this line a space?
            let mut sp = true;
            let mut j: usize = 0;
            while j < self.col
                invariant
                    j <= self.col,
                    self.col as int <= line_len(t, l),
                    s as int == line_start(t, l),
                    s + self.col <= t.len(),
                    t.len() == total,
                    t == ed.text(),
                    l == self.line as int,
                    0 <= l < line_count(t),
                    sp == (forall|k: int| 0 <= k < j ==> #[trigger] t[s + k] == ' '),
                decreases self.col - j,
            {
                let c = rope_char(&ed.rope, s + j);
                proof {
                    if sp && c == ' ' {
                        assert forall|k: int| 0 <= k < j + 1 implies #[trigger] t[s + k]
                            == ' ' by {}
                    }
                    if c != ' ' {
                        assert(t[s + j as int] == c);
                        assert(!(forall|k: int| 0 <= k < j + 1 ==> #[trigger] t[s + k] == ' '));
                    }
                    if !sp && (forall|k: int| 0 <= k < j + 1 ==> #[trigger] t[s + k] == ' ') {
                        assert(forall|k: int| 0 <= k < j ==> #[trigger] t[s + k] == ' ');
                    }
                }
                if c != ' ' {
                    sp = false;
                }
                j = j + 1;
            }
            proof {
                if sp {
                    assert forall|jj: int| s <= jj < s + self.col as int implies t[jj]
                        == ' ' by {
                        assert(t[s + (jj - s)] == ' ');
                    }
                    assert(prefix_spaces(t, l, self.col as int));
                } else {
                    if prefix_spaces(t, l, self.col as int) {
                        assert forall|k: int| 0 <= k < self.col as int implies #[trigger] t[s
                            + k] == ' ' by {
                            assert(t[s + k] == ' ');
                        }
                        assert(false);
                    }
                }
            }
            if sp {
                // soft dedent to the previous tab stop
                let c2: usize = if self.col % 4 == 0 {
                    self.col - 4
                } else {
                    self.col - self.col % 4
                };
                rope_remove(&mut ed.rope, s + c2, s + self.col);
                proof {
                    lemma_remove_in_line(t, l, c2 as int, self.col as int);
                    lemma_splice_remove_cr_free(t, s + c2, s + self.col as int);
                }
                self.col = c2;
            } else {
                rope_remove(&mut ed.rope, s + self.col - 1, s + self.col);
                proof {
                    lemma_remove_in_line(t, l, self.col - 1, self.col as int);
                    lemma_splice_remove_cr_free(t, s + self.col - 1, s + self.col as int);
                }
                self.col = self.col - 1;
            }
        } else if self.line > 0 {
            proof {
                lemma_line_shape(t, l - 1);
            }
            let prev_len = ed.line_len(self.line - 1);
            let s = ed.line_start_index(self.line);
            rope_remove(&mut ed.rope, s - 1, s);
            proof {
                lemma_remove_newline_join(t, l - 1);
                lemma_splice_remove_cr_free(t, s - 1, s as int);
            }
            self.line = self.line - 1;
            self.col = prev_len;
        }
        self.desired_col = self.col;
        follow_cursor(self, ed, width, height);
    }

    /// Deletes the character at the cursor, if any; joins with the next
    /// line when the cursor sits on the terminator.  An index at the very
    /// end of the document makes the operation a no-op; the cursor and the
    /// viewport stay put.
    pub fn delete(&mut self, ed: &mut TextEditor, width: usize, height: usize)
        requires
            old(self).wf(old(ed).text()),
            cr_free(old(ed).text()),
            width >= 1,
            height >= 1,
        ensures
            final(self).line == old(self).line,
            final(self).col == old(self).col,
            final(self).desired_col == old(self).desired_col,
            final(ed).start_line == old(ed).start_line,
            final(ed).start_col == old(ed).start_col,
            final(ed).text() == (if old(self).char_index(old(ed).text()) < old(
                ed,
            ).text().len() {
                splice_remove(
                    old(ed).text(),
                    old(self).char_index(old(ed).text()),
                    old(self).char_index(old(ed).text()) + 1,
                )
            } else {
                old(ed).text()
            }),
            final(self).wf(final(ed).text()),
            cr_free(final(ed).text()),
    {
        proof {
            lemma_line_start_props(ed.text(), self.line as int);
            lemma_line_shape(ed.text(), self.line as int);
        }
        let ghost t = ed.text();
        let ghost l = self.line as int;
        let total = ed.len_chars();
        let s = ed.line_start_index(self.line);
        let idx = s + self.col;
        if idx < total {
            proof {
                if (self.col as int) < line_len(t, l) {
                    lemma_remove_in_line(t, l, self.col as int, self.col + 1);
                } else {
                    // the cursor sits on the terminator: the removal joins
                    // this line with the next
                    lemma_line_shape(t, l + 1);
                    lemma_remove_newline_join(t, l);
                }
                lemma_splice_remove_cr_free(t, idx as int, idx + 1);
            }
            rope_remove(&mut ed.rope, idx, idx + 1);
        }
    }
}

/// Typing one non-space character and pressing backspace restores the
/// document and the cursor position exactly.  (A space is excluded: inside
/// an all-space indent, backspace dedents a whole soft-tab stop.)
pub proof fn lemma_insert_then_backspace_restores(
    t: Seq<char>,
    cur: CursorController,
    c: char,
    t1: Seq<char>,
    cur1: CursorController,
    t2: Seq<char>,
    cur2: CursorController,
)
    requires
        cur.wf(t),
        c != '\n',
        c != '\r',
        c != ' ',
        insert_char_post(t, cur, c, t1, cur1),
        backspace_post(t1, cur1, t2, cur2),
    ensures
        t2 == t,
        t2.len() == t.len(),
        cur2.line == cur.line,
        cur2.col == cur.col,
{
    let l = cur.line as int;
    let cc = cur.col as int;
    let s = line_start(t, l);
    let p = s + cc;
    lemma_line_start_props(t, l);
    lemma_line_shape(t, l);
    assert(seq![c].drop_last() =~= Seq::<char>::empty());
    assert(count_nl(Seq::<char>::empty()) == 0);
    assert(count_nl(seq![c]) == 0);
    lemma_insert_in_line(t, l, cc, seq![c]);
    crate::lines::lemma_splice_insert_index(t, p, seq![c]);
    // the character just inserted is not a space, so backspace takes the
    // single-character branch
    assert(t1[s + cc] == c);
    assert(!prefix_spaces(t1, l, cc + 1));
    assert(t2 == splice_remove(t1, p, p + 1));
    crate::lines::lemma_insert_then_remove_roundtrip(t, p, seq![c]);
}

/// Index of the first non-space character at or after `i`, or `t.len()`.
pub open spec fn first_non_space_at(t: Seq<char>, i: int) -> int
    decreases t.len() - i,
{
    if i < 0 || i >= t.len() {
        t.len() as int
    } else if t[i] != ' ' {
        i
    } else {
        first_non_space_at(t, i + 1)
    }
}

/// The first non-space position is the unique index `m` with only spaces
/// before it and a non-space (or the end of text) at it.
pub proof fn lemma_first_non_space_unique(t: Seq<char>, i: int, m: int)
    requires
        0 <= i <= m <= t.len(),
        forall|j: int| i <= j < m ==> t[j] == ' ',
        m == t.len() || t[m] != ' ',
    ensures
        first_non_space_at(t, i) == m,
    decreases m - i,
{
    if i < m {
        lemma_first_non_space_unique(t, i + 1, m);
    }
}

/// Column of the first non-space character of line `l` ("the indent
/// width"); the line's length when the line is all spaces.
pub open spec fn indent_cols(t: Seq<char>, l: int) -> int {
    first_non_space_at(t, line_start(t, l)) - line_start(t, l)
}

impl CursorController {
    /// Smart home: moves to the column of the first non-space character;
    /// when already at or past that column, or when the line has no
    /// leading indent, moves to column zero.
    pub fn home(&mut self, ed: &mut TextEditor, width: usize, height: usize)
        requires
            old(self).wf(old(ed).text()),
            width >= 1,
            height >= 1,
        ensures
            final(ed).text() == old(ed).text(),
            final(self).line == old(self).line,
            final(self).col as int == (if old(self).col as int >= indent_cols(
                old(ed).text(),
                old(self).line as int,
            ) || indent_cols(old(ed).text(), old(self).line as int) == 0 {
                0int
            } else {
                indent_cols(old(ed).text(), old(self).line as int)
            }),
            final(self).desired_col == final(self).col,
            final(self).wf(final(ed).text()),
            followed(old(ed), final(self), final(ed), width as int, height as int),
            final(self).visible_in(final(ed), width as int, height as int),
    {
        proof {
            lemma_line_start_props(ed.text(), self.line as int);
            lemma_line_shape(ed.text(), self.line as int);
        }
        let ghost t = ed.text();
        let ghost l = self.line as int;
        let total = ed.len_chars();
        let s = ed.line_start_index(self.line);
        let len = ed.line_len(self.line);
        // scan the line for its first non-space character
        let mut f: usize = 0;
        let mut found = false;
        while f < len && !found
            invariant
                0 <= l < line_count(t),
                t == ed.text(),
                t.len() == total,
                s as int == line_start(t, l),
                len as int == line_len(t, l),
                f <= len,
                s + len <= total,
                forall|k: int| 0 <= k < f ==> #[trigger] t[s + k] == ' ',
                found ==> f < len && t[s + f as int] != ' ',
            decreases len - f, (if found { 0int } else { 1int }),
        {
            let c = rope_char(&ed.rope, s + f);
            if c != ' ' {
                found = true;
            } else {
                proof {
                    assert forall|k: int| 0 <= k < f + 1 implies #[trigger] t[s + k]
                        == ' ' by {}
                }
                f = f + 1;
            }
        }
        proof {
            assert forall|j2: int| s <= j2 < s + f as int implies t[j2] == ' ' by {
                assert(t[s + (j2 - s)] == ' ');
            }
            if found {
                lemma_first_non_space_unique(t, s as int, s + f as int);
            } else {
                // the whole line is spaces; the scan stops at its end,
                // which is the terminator or the end of the text
                lemma_first_non_space_unique(t, s as int, s + len as int);
            }
            assert(indent_cols(t, l) == f as int);
        }
        if self.col >= f || f == 0 {
            self.col = 0;
        } else {
            self.col = f;
        }
        self.desired_col = self.col;
        follow_cursor(self, ed, width, height);
    }

    /// Moves to the document start and resets both viewport anchors.
    pub fn doc_home(&mut self, ed: &mut TextEditor)
        requires
            old(self).wf(old(ed).text()),
        ensures
            final(ed).text() == old(ed).text(),
            final(self).line == 0,
            final(self).col == 0,
            final(self).desired_col == 0,
            final(ed).start_line == 0,
            final(ed).start_col == 0,
            final(self).wf(final(ed).text()),
            forall|w: int, h: int|
                w >= 1 && h >= 1 ==> final(self).visible_in(final(ed), w, h),
    {
        proof {
            lemma_line_shape(ed.text(), 0);
        }
        self.line = 0;
        self.col = 0;
        self.desired_col = 0;
        ed.start_line = 0;
        ed.start_col = 0;
    }

    /// Moves to the end of the current line (terminator excluded).
    pub fn end(&mut self, ed: &mut TextEditor, width: usize, height: usize)
        requires
            old(self).wf(old(ed).text()),
            width >= 1,
            height >= 1,
        ensures
            final(ed).text() == old(ed).text(),
            final(self).line == old(self).line,
            final(self).col as int == line_len(old(ed).text(), old(self).line as int),
            final(self).desired_col == final(self).col,
            final(self).wf(final(ed).text()),
            followed(old(ed), final(self), final(ed), width as int, height as int),
            final(self).visible_in(final(ed), width as int, height as int),
    {
        proof {
            lemma_line_shape(ed.text(), self.line as int);
        }
        let len = ed.line_len(self.line);
        self.col = len;
        self.desired_col = self.col;
        follow_cursor(self, ed, width, height);
    }

    /// Moves to the end of the document.  An empty document leaves the
    /// cursor, the desired column and the viewport untouched.
    pub fn doc_end(&mut self, ed: &mut TextEditor, width: usize, height: usize)
        requires
            old(self).wf(old(ed).text()),
            width >= 1,
            height >= 1,
        ensures
            final(ed).text() == old(ed).text(),
            final(self).wf(final(ed).text()),
            (if old(ed).text().len() == 0 {
                *final(self) == *old(self) && *final(ed) == *old(ed)
            } else {
                &&& final(self).line as int == line_count(old(ed).text()) - 1
                &&& final(self).col as int == line_len(
                    old(ed).text(),
                    final(self).line as int,
                )
                &&& final(self).desired_col == final(self).col
                &&& followed(old(ed), final(self), final(ed), width as int, height as int)
                &&& final(self).visible_in(final(ed), width as int, height as int)
            }),
    {
        let total = ed.len_chars();
        if total == 0 {
            return ;
        }
        proof {
            assert(ed.text().take(total as int) =~= ed.text());
            lemma_last_line(ed.text());
            lemma_line_start_props(ed.text(), line_of(ed.text(), total as int));
        }
        let end_line = crate::text_edit::rope_char_to_line(&ed.rope, total);
        let ls = ed.line_start_index(end_line);
        self.line = end_line;
        self.col = total - ls;
        self.desired_col = self.col;
        follow_cursor(self, ed, width, height);
    }
}

impl CursorController {
    /// Pastes a blob at the cursor.  The text is normalized first (every
    /// line ending becomes a single `'\n'`), spliced in at the cursor, and
    /// the cursor moves to the end of the inserted text; the viewport is
    /// clamped directly so the new position is visible.
    pub fn paste(&mut self, ed: &mut TextEditor, blob: &str, width: usize, height: usize)
        requires
            old(self).wf(old(ed).text()),
            cr_free(old(ed).text()),
            old(ed).text().len() + blob@.len() <= usize::MAX,
            width >= 1,
            height >= 1,
        ensures
            final(ed).text() == splice_insert(
                old(ed).text(),
                old(self).char_index(old(ed).text()),
                normalize_newlines(blob@),
            ),
            // the cursor lands at the end of the inserted text
            final(self).line as int == line_of(
                final(ed).text(),
                old(self).char_index(old(ed).text()) + normalize_newlines(blob@).len(),
            ),
            final(self).col as int == old(self).char_index(old(ed).text())
                + normalize_newlines(blob@).len() - line_start(
                final(ed).text(),
                final(self).line as int,
            ),
            final(self).desired_col == final(self).col,
            final(self).wf(final(ed).text()),
            cr_free(final(ed).text()),
            followed(old(ed), final(self), final(ed), width as int, height as int),
            final(self).visible_in(final(ed), width as int, height as int),
    {
        proof {
            lemma_line_start_props(ed.text(), self.line as int);
            lemma_line_shape(ed.text(), self.line as int);
        }
        let ghost t = ed.text();
        let ghost l = self.line as int;
        let ghost c = self.col as int;
        let norm = crate::paste::normalize_paste(blob);
        let ins_len = norm.as_str().unicode_len();
        let s = ed.line_start_index(self.line);
        let idx = s + self.col;
        let ghost u = norm@;
        rope_insert(&mut ed.rope, idx, norm.as_str());
        let ghost t2 = ed.text();
        proof {
            lemma_splice_insert_cr_free(t, idx as int, u);
            crate::lines::lemma_splice_insert_index(t, idx as int, u);
            // the prefix ending at the end of the insertion is the old
            // prefix plus the inserted text, so its line is l + count_nl(u)
            assert(t2.take(idx + u.len()) =~= t.take(idx as int) + u);
            crate::lines::lemma_count_nl_take_in_line(t, l, c);
            crate::lines::lemma_count_nl_concat(t.take(idx as int), u);
            if count_nl(u) == 0 {
                lemma_insert_in_line(t, l, c, u);
            } else {
                lemma_insert_multiline(t, l, c, u);
                crate::lines::lemma_count_nl_le_len(u);
            }
        }
        let end_idx = idx + ins_len;
        let new_line = crate::text_edit::rope_char_to_line(&ed.rope, end_idx);
        let ls = ed.line_start_index(new_line);
        self.line = new_line;
        self.col = end_idx - ls;
        self.desired_col = self.col;
        follow_cursor(self, ed, width, height);
    }

    /// After a terminal resize the anchors move inward only as far as
    /// needed to keep the cursor visible in the new dimensions; they never
    /// expand ahead of need.
    pub fn resize(&self, ed: &mut TextEditor, width: usize, height: usize)
        requires
            width >= 1,
            height >= 1,
        ensures
            final(ed).rope == old(ed).rope,
            final(ed).start_col as int == (if self.col as int >= old(ed).start_col + width {
                self.col + 1 - width
            } else {
                old(ed).start_col as int
            }),
            final(ed).start_line as int == (if self.line as int >= old(ed).start_line
                + height {
                self.line + 1 - height
            } else {
                old(ed).start_line as int
            }),
            old(ed).start_col <= self.col ==> final(ed).start_col <= self.col && (
            self.col as int) < final(ed).start_col + width,
            old(ed).start_line <= self.line ==> final(ed).start_line <= self.line && (
            self.line as int) < final(ed).start_line + height,
    {
        if self.col >= ed.start_col && self.col - ed.start_col >= width {
            ed.start_col = self.col - (width - 1);
        }
        if self.line >= ed.start_line && self.line - ed.start_line >= height {
            ed.start_line = self.line - (height - 1);
        }
    }
}

/// Pressing Tab at a tab-stop column whose line prefix is all spaces and
/// then Backspace restores the document and the cursor position exactly:
/// the dedent removes just the run the tab inserted.  (Off the tab stops
/// the dedent is wider than the insertion: from column one, Tab inserts
/// three spaces and the following Backspace removes four.)
pub proof fn lemma_tab_then_backspace_restores(
    t: Seq<char>,
    cur: CursorController,
    t1: Seq<char>,
    cur1: CursorController,
    t2: Seq<char>,
    cur2: CursorController,
)
    requires
        cur.wf(t),
        prefix_spaces(t, cur.line as int, cur.col as int),
        cur.col as int % 4 == 0,
        t1 == splice_insert(
            t,
            cur.char_index(t),
            spaces(next_tab_stop(cur.col as int) - cur.col),
        ),
        cur1.line == cur.line,
        cur1.col as int == next_tab_stop(cur.col as int),
        backspace_post(t1, cur1, t2, cur2),
    ensures
        t2 == t,
        t2.len() == t.len(),
        cur2.line == cur.line,
        cur2.col == cur.col,
{
    let l = cur.line as int;
    let c = cur.col as int;
    let s = line_start(t, l);
    let p = s + c;
    let m = next_tab_stop(c);
    let u = spaces(m - c);
    lemma_line_start_props(t, l);
    lemma_line_shape(t, l);
    assert forall|j: int| 0 <= j < u.len() implies u[j] != '\n' by {
        assert(u[j] == ' ');
    }
    lemma_count_nl_zero(u);
    lemma_insert_in_line(t, l, c, u);
    crate::lines::lemma_splice_insert_index(t, p, u);
    // everything before the new cursor is a space, so this backspace dedents
    assert forall|j: int| s <= j < s + m implies t1[j] == ' ' by {
        if j < p {
            assert(t1[j] == t[j]);
        } else {
            assert(t1[j] == u[j - p]);
        }
    }
    assert(prefix_spaces(t1, l, m));
    // the dedent target is the tab stop the cursor came from
    assert(prev_tab_stop(m) == c);
    assert(t2 == splice_remove(t1, s + c, s + m));
    crate::lines::lemma_insert_then_remove_roundtrip(t, p, u);
}

/// Inserting a run of printable non-space characters (one paste or a burst
/// of keystrokes) and then pressing Backspace once per character restores
/// the document and the cursor position exactly.  `states` carries the
/// document and cursor after the insertion and after each backspace.
/// (A space in the run is excluded: inside an all-space indent a backspace
/// dedents a whole soft-tab stop.)
pub proof fn lemma_backspace_run_restores(
    t: Seq<char>,
    cur: CursorController,
    u: Seq<char>,
    states: Seq<(Seq<char>, CursorController)>,
)
    requires
        cur.wf(t),
        forall|i: int| 0 <= i < u.len() ==> u[i] != '\n' && u[i] != '\r' && u[i] != ' ',
        states.len() == u.len() + 1,
        states[0].0 == splice_insert(t, cur.char_index(t), u),
        states[0].1.line == cur.line,
        states[0].1.col as int == cur.col + u.len(),
        forall|i: int|
            0 <= i < u.len() ==> backspace_post(
                #[trigger] states[i].0,
                states[i].1,
                states[i + 1].0,
                states[i + 1].1,
            ),
    ensures
        states[u.len() as int].0 == t,
        states[u.len() as int].1.line == cur.line,
        states[u.len() as int].1.col == cur.col,
    decreases u.len(),
{
    let l = cur.line as int;
    let c = cur.col as int;
    let s = line_start(t, l);
    let p = s + c;
    lemma_line_start_props(t, l);
    lemma_line_shape(t, l);
    if u.len() == 0 {
        assert(splice_insert(t, p, u) =~= t);
    } else {
        let k = u.len() as int;
        let t1 = states[0].0;
        let cur1 = states[0].1;
        assert forall|j: int| 0 <= j < u.len() implies u[j] != '\n' by {}
        lemma_count_nl_zero(u);
        lemma_insert_in_line(t, l, c, u);
        crate::lines::lemma_splice_insert_index(t, p, u);
        // the character before the cursor is the run's last, not a space,
        // so the first backspace removes exactly that character
        assert(t1[p + k - 1] == u[k - 1]);
        assert(!prefix_spaces(t1, l, c + k));
        assert(backspace_post(t1, cur1, states[1].0, states[1].1));
        assert(states[1].0 == splice_remove(t1, s + (c + k) - 1, s + (c + k)));
        assert(states[1].1.line as int == l && states[1].1.col as int == c + k - 1);
        // what remains is the same run, one character shorter
        let u2 = u.drop_last();
        crate::lines::lemma_splice_remove_index(t1, p + k - 1, p + k);
        crate::lines::lemma_splice_insert_index(t, p, u2);
        assert(states[1].0 =~= splice_insert(t, p, u2));
        // chain the remaining backspaces
        let rest = states.skip(1);
        assert(rest[0] == states[1]);
        assert forall|i: int|
            0 <= i < u2.len() implies backspace_post(
                #[trigger] rest[i].0,
                rest[i].1,
                rest[i + 1].0,
                rest[i + 1].1,
            ) by {
            assert(rest[i] == states[i + 1]);
            assert(rest[i + 1] == states[i + 2]);
        }
        assert forall|i: int|
            0 <= i < u2.len() implies u2[i] != '\n' && u2[i] != '\r' && u2[i] != ' ' by {
            assert(u2[i] == u[i]);
        }
        lemma_backspace_run_restores(t, cur, u2, rest);
        assert(states[k] == rest[k - 1]);
    }
}

} // verus!

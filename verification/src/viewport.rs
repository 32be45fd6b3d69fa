//! Mapping from logical document positions to screen coordinates, and the
//! classification of visible cells for the renderer.
//!
//! Glyph and color choices are presentation and stay with the renderer;
//! this module only decides, for each visible cell, what kind of cell it
//! is (indent space, indent guide column, plain space, text) and where the
//! cursor lands on screen.

use vstd::prelude::*;
use crate::lines::line_count;
use crate::lines::line_start;
use crate::lines::line_len;
use crate::lines::lemma_line_start_props;
use crate::lines::lemma_line_shape;
use crate::text_edit::TextEditor;

verus! {

/// The cursor is reachable inside the window anchored at
/// `(start_line, start_col)` with the given extents.
pub open spec fn cursor_visible(
    line: int,
    col: int,
    start_line: int,
    start_col: int,
    width: int,
    height: int,
) -> bool {
    &&& start_col <= col < start_col + width
    &&& start_line <= line < start_line + height
}

/// New anchor of one viewport axis after following the cursor: clamped the
/// least amount that brings `pos` inside `[anchor, anchor + extent)`.
pub open spec fn follow_axis(anchor: int, pos: int, extent: int) -> int {
    if pos < anchor {
        pos
    } else if pos >= anchor + extent {
        pos + 1 - extent
    } else {
        anchor
    }
}

/// Screen coordinate of a document position on one axis: its offset into
/// the window, clamped to the nearest visible edge when it lies outside.
pub open spec fn screen_axis(pos: int, anchor: int, extent: int) -> int {
    if pos < anchor {
        0
    } else if pos >= anchor + extent {
        extent - 1
    } else {
        pos - anchor
    }
}

/// Maps a logical `(line, col)` position to screen `(x, y)` for the window
/// anchored at `(start_line, start_col)`.
pub fn screen_pos(
    line: usize,
    col: usize,
    start_line: usize,
    start_col: usize,
    width: usize,
    height: usize,
) -> (xy: (usize, usize))
    requires
        width >= 1,
        height >= 1,
    ensures
        xy.0 == screen_axis(col as int, start_col as int, width as int),
        xy.1 == screen_axis(line as int, start_line as int, height as int),
        xy.0 < width,
        xy.1 < height,
{
    let x = if col < start_col {
        0
    } else if col - start_col >= width {
        width - 1
    } else {
        col - start_col
    };
    let y = if line < start_line {
        0
    } else if line - start_line >= height {
        height - 1
    } else {
        line - start_line
    };
    (x, y)
}

/// What a visible cell holds.  `depth` counts 4-column indent groups from
/// the left edge of the window; the renderer keys its color band on it.
#[derive(Debug, Clone, Copy, PartialEq, Eq, Structural)]
pub enum RenderCell {
    /// The line's terminator: the cell is left untouched.
    Blank,
    /// A space inside the leading indent; `guide` marks every fourth
    /// column, where the renderer draws the indent guide glyph.
    Indent { guide: bool, depth: usize },
    /// A space past the indent.
    Space,
    /// Any other character, drawn as itself.
    Glyph(char),
}

/// Whether position `i` of a visible row still lies in the leading indent:
/// nothing but spaces (or the terminator) precedes it.
pub open spec fn in_indent(s: Seq<char>, i: int) -> bool {
    forall|j: int| 0 <= j < i ==> s[j] == ' ' || s[j] == '\n'
}

/// Classification of cell `i` of a visible row.
pub open spec fn render_cell(s: Seq<char>, i: int) -> RenderCell {
    if s[i] == '\n' {
        RenderCell::Blank
    } else if s[i] == ' ' && in_indent(s, i) {
        RenderCell::Indent { guide: i % 4 == 0, depth: (i / 4) as usize }
    } else if s[i] == ' ' {
        RenderCell::Space
    } else {
        RenderCell::Glyph(s[i])
    }
}

/// The first `n` cells of a visible row, classified in order.
pub open spec fn row_cells(s: Seq<char>, n: int) -> Seq<RenderCell>
    decreases n,
{
    if n <= 0 {
        Seq::<RenderCell>::empty()
    } else {
        row_cells(s, n - 1).push(render_cell(s, n - 1))
    }
}

/// Each classified cell of a row is the classification of its position.
pub proof fn lemma_row_cells(s: Seq<char>, n: int)
    requires
        0 <= n,
    ensures
        row_cells(s, n).len() == n,
        forall|k: int| 0 <= k < n ==> row_cells(s, n)[k] == render_cell(s, k),
    decreases n,
{
    if n > 0 {
        lemma_row_cells(s, n - 1);
    }
}

/// Classifies the cells of one visible row, left to right, at most `width`
/// of them.
pub fn render_row(row: &Vec<char>, width: usize) -> (cells: Vec<RenderCell>)
    ensures
        cells@ == row_cells(row@, if row@.len() < width {
            row@.len() as int
        } else {
            width as int
        }),
        cells@.len() == (if row@.len() < width {
            row@.len() as int
        } else {
            width as int
        }),
        forall|i: int| 0 <= i < cells@.len() ==> cells@[i] == render_cell(row@, i),
{
    let n = if row.len() < width {
        row.len()
    } else {
        width
    };
    let mut cells: Vec<RenderCell> = Vec::new();
    let mut indent = true;
    let mut i: usize = 0;
    while i < n
        invariant
            i <= n,
            n <= row@.len(),
            indent == in_indent(row@, i as int),
            cells@ == row_cells(row@, i as int),
            cells@.len() == i,
        decreases n - i,
    {
        let c = row[i];
        proof {
            if in_indent(row@, i as int) && (c == ' ' || c == '\n') {
                assert forall|j: int| 0 <= j < i + 1 implies row@[j] == ' ' || row@[j]
                    == '\n' by {}
            }
            if !(c == ' ' || c == '\n') {
                assert(row@[i as int] == c);
                assert(!in_indent(row@, i as int + 1));
            }
            if !in_indent(row@, i as int) && in_indent(row@, i as int + 1) {
                assert(in_indent(row@, i as int));
            }
        }
        if c == '\n' {
            cells.push(RenderCell::Blank);
        } else if c == ' ' {
            if indent {
                let guide = i % 4 == 0;
                let depth = i / 4;
                cells.push(RenderCell::Indent { guide, depth });
            } else {
                cells.push(RenderCell::Space);
            }
        } else {
            indent = false;
            cells.push(RenderCell::Glyph(c));
        }
        proof {
            assert(cells@ =~= row_cells(row@, i as int + 1));
        }
        i = i + 1;
    }
    proof {
        lemma_row_cells(row@, n as int);
    }
    cells
}

impl TextEditor {
    /// The slice of line `line` that is visible in a window of the given
    /// width: the line's characters (terminator included) from the
    /// horizontal anchor on, at most `width` of them.
    pub open spec fn visible_row_spec(&self, line: int, width: int) -> Seq<char> {
        let t = self.text();
        let s = line_start(t, line);
        let e = s + line_len(t, line) + (if line < line_count(t) - 1 {
            1int
        } else {
            0int
        });
        let lo = if s + self.start_col < e {
            s + self.start_col
        } else {
            e
        };
        let hi = if lo + width < e {
            lo + width
        } else {
            e
        };
        t.subrange(lo, hi)
    }

    /// Collects the visible slice of one line for rendering.
    pub fn visible_row(&self, line: usize, width: usize) -> (row: Vec<char>)
        requires
            line < line_count(self.text()),
        ensures
            row@ == self.visible_row_spec(line as int, width as int),
    {
        proof {
            lemma_line_start_props(self.text(), line as int);
            lemma_line_shape(self.text(), line as int);
        }
        let total_chars = self.len_chars();
        let s = self.line_start_index(line);
        let len = self.line_len(line);
        let total_lines = self.len_lines();
        let e = if line + 1 < total_lines {
            s + len + 1
        } else {
            s + len
        };
        let lo = if self.start_col <= e - s {
            s + self.start_col
        } else {
            e
        };
        let hi = if width <= e - lo {
            lo + width
        } else {
            e
        };
        let mut row: Vec<char> = Vec::new();
        let mut i: usize = lo;
        while i < hi
            invariant
                lo <= i <= hi,
                hi <= self.text().len(),
                row@ == self.text().subrange(lo as int, i as int),
            decreases hi - i,
        {
            let c = crate::text_edit::rope_char(&self.rope, i);
            row.push(c);
            proof {
                assert(self.text().subrange(lo as int, i + 1) =~= self.text().subrange(
                    lo as int,
                    i as int,
                ).push(self.text()[i as int]));
            }
            i = i + 1;
        }
        proof {
            assert(row@ =~= self.visible_row_spec(line as int, width as int));
        }
        row
    }
}

} // verus!

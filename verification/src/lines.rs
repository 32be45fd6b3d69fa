//! Mathematical model of the document text.
//!
//! The document is a sequence of Unicode scalar values in which `'\n'` is
//! the only line terminator.  Lines are numbered from zero; line `l` spans
//! the characters from `line_start` up to (excluding) the next `'\n'`.
//! Everything the editor proves about cursor/line arithmetic rests on the
//! functions and lemmas of this module.

use vstd::prelude::*;

verus! {

/// Number of `'\n'` characters in `t`.
pub open spec fn count_nl(t: Seq<char>) -> nat
    decreases t.len(),
{
    if t.len() == 0 {
        0
    } else {
        count_nl(t.drop_last()) + (if t.last() == '\n' {
            1nat
        } else {
            0nat
        })
    }
}

/// Number of lines: one more than the number of terminators.
pub open spec fn line_count(t: Seq<char>) -> int {
    count_nl(t) as int + 1
}

/// Index of the first `'\n'` at or after `i`, or `t.len()` if none remains.
pub open spec fn next_newline(t: Seq<char>, i: int) -> int
    decreases t.len() - i,
{
    if i < 0 || i >= t.len() {
        t.len() as int
    } else if t[i] == '\n' {
        i
    } else {
        next_newline(t, i + 1)
    }
}

/// Character index of the start of line `l` (the index just after the
/// `l`-th terminator).
pub open spec fn line_start(t: Seq<char>, l: int) -> int
    decreases l,
{
    if l <= 0 {
        0
    } else {
        next_newline(t, line_start(t, l - 1)) + 1
    }
}

/// Length of line `l`, excluding its terminator.
pub open spec fn line_len(t: Seq<char>, l: int) -> int {
    next_newline(t, line_start(t, l)) - line_start(t, l)
}

/// Line containing character index `i` (for `i == t.len()`: the last line).
pub open spec fn line_of(t: Seq<char>, i: int) -> int {
    count_nl(t.take(i)) as int
}

/// `t` holds no carriage return.  The editor keeps its document in this
/// form: typed input excludes control characters and pasted text is
/// normalized, so `'\n'` alone terminates lines.
pub open spec fn cr_free(t: Seq<char>) -> bool {
    forall|i: int| 0 <= i < t.len() ==> t[i] != '\r'
}

/// `t` with `u` inserted at position `p`.
pub open spec fn splice_insert(t: Seq<char>, p: int, u: Seq<char>) -> Seq<char> {
    t.take(p) + u + t.skip(p)
}

/// `t` with the range `[a, b)` removed.
pub open spec fn splice_remove(t: Seq<char>, a: int, b: int) -> Seq<char> {
    t.take(a) + t.skip(b)
}

pub proof fn lemma_splice_insert_index(t: Seq<char>, p: int, u: Seq<char>)
    requires
        0 <= p <= t.len(),
    ensures
        splice_insert(t, p, u).len() == t.len() + u.len(),
        forall|j: int| 0 <= j < p ==> splice_insert(t, p, u)[j] == t[j],
        forall|j: int| p <= j < p + u.len() ==> splice_insert(t, p, u)[j] == u[j - p],
        forall|j: int|
            p + u.len() <= j < t.len() + u.len() ==> splice_insert(t, p, u)[j] == t[j - u.len()],
{
}

pub proof fn lemma_splice_remove_index(t: Seq<char>, a: int, b: int)
    requires
        0 <= a <= b <= t.len(),
    ensures
        splice_remove(t, a, b).len() == t.len() - (b - a),
        forall|j: int| 0 <= j < a ==> splice_remove(t, a, b)[j] == t[j],
        forall|j: int|
            a <= j < t.len() - (b - a) ==> splice_remove(t, a, b)[j] == t[j + (b - a)],
{
}

pub proof fn lemma_count_nl_concat(a: Seq<char>, b: Seq<char>)
    ensures
        count_nl(a + b) == count_nl(a) + count_nl(b),
    decreases b.len(),
{
    if b.len() == 0 {
        assert(a + b =~= a);
    } else {
        lemma_count_nl_concat(a, b.drop_last());
        assert((a + b).drop_last() =~= a + b.drop_last());
        assert((a + b).last() == b.last());
    }
}

/// There are never more terminators than characters.
pub proof fn lemma_count_nl_le_len(t: Seq<char>)
    ensures
        count_nl(t) <= t.len(),
    decreases t.len(),
{
    if t.len() > 0 {
        lemma_count_nl_le_len(t.drop_last());
    }
}

/// A sequence holds no `'\n'` exactly when its terminator count is zero.
pub proof fn lemma_count_nl_zero(t: Seq<char>)
    ensures
        (count_nl(t) == 0) <==> (forall|j: int| 0 <= j < t.len() ==> t[j] != '\n'),
    decreases t.len(),
{
    if t.len() > 0 {
        lemma_count_nl_zero(t.drop_last());
        assert(forall|j: int| 0 <= j < t.len() - 1 ==> t[j] == t.drop_last()[j]);
        assert(t.last() == t[t.len() - 1]);
    }
}

pub proof fn lemma_next_newline_props(t: Seq<char>, i: int)
    requires
        0 <= i <= t.len(),
    ensures
        i <= next_newline(t, i) <= t.len(),
        forall|j: int| i <= j < next_newline(t, i) ==> t[j] != '\n',
        next_newline(t, i) < t.len() ==> t[next_newline(t, i)] == '\n',
    decreases t.len() - i,
{
    if i < t.len() && t[i] != '\n' {
        lemma_next_newline_props(t, i + 1);
    }
}

/// The first terminator at or after `i` is the unique index `m` with no
/// terminator before it and a terminator (or the end of text) at it.
pub proof fn lemma_next_newline_unique(t: Seq<char>, i: int, m: int)
    requires
        0 <= i <= m <= t.len(),
        forall|j: int| i <= j < m ==> t[j] != '\n',
        m == t.len() || t[m] == '\n',
    ensures
        next_newline(t, i) == m,
    decreases m - i,
{
    if i < m {
        lemma_next_newline_unique(t, i + 1, m);
    }
}

/// When terminators remain after `i`, the scan finds one before the end.
pub proof fn lemma_nn_hits_newline(t: Seq<char>, i: int)
    requires
        0 <= i <= t.len(),
        count_nl(t.skip(i)) > 0,
    ensures
        next_newline(t, i) < t.len(),
        t[next_newline(t, i)] == '\n',
{
    lemma_next_newline_props(t, i);
    if next_newline(t, i) == t.len() {
        lemma_count_nl_zero(t.skip(i));
        assert(forall|k: int| 0 <= k < t.skip(i).len() ==> t.skip(i)[k] == t[i + k]);
    }
}

/// Position and newline-count facts about the start of each line.
pub proof fn lemma_line_start_props(t: Seq<char>, l: int)
    requires
        0 <= l < line_count(t),
    ensures
        0 <= line_start(t, l) <= t.len(),
        count_nl(t.take(line_start(t, l))) == l,
        count_nl(t.skip(line_start(t, l))) == count_nl(t) - l,
        l > 0 ==> line_start(t, l) >= 1 && t[line_start(t, l) - 1] == '\n',
    decreases l,
{
    if l == 0 {
        assert(t.take(0) =~= Seq::<char>::empty());
        assert(t.skip(0) =~= t);
    } else {
        lemma_line_start_props(t, l - 1);
        let s = line_start(t, l - 1);
        lemma_nn_hits_newline(t, s);
        let nn = next_newline(t, s);
        lemma_next_newline_props(t, s);
        // count up to nn: the line body adds no terminator
        assert(t.take(nn) =~= t.take(s) + t.subrange(s, nn));
        lemma_count_nl_concat(t.take(s), t.subrange(s, nn));
        lemma_count_nl_zero(t.subrange(s, nn));
        assert(forall|k: int|
            0 <= k < nn - s ==> t.subrange(s, nn)[k] == t[s + k]);
        assert(count_nl(t.take(nn)) == l - 1);
        // the terminator itself
        assert(t.take(nn + 1).drop_last() =~= t.take(nn));
        assert(t.take(nn + 1).last() == t[nn]);
        assert(count_nl(t.take(nn + 1)) == l);
        // remainder
        assert(t =~= t.take(nn + 1) + t.skip(nn + 1));
        lemma_count_nl_concat(t.take(nn + 1), t.skip(nn + 1));
    }
}

/// The last line is terminator-free: its scan runs to the end of the text.
pub proof fn lemma_last_line(t: Seq<char>)
    ensures
        next_newline(t, line_start(t, line_count(t) - 1)) == t.len(),
        line_start(t, line_count(t) - 1) <= t.len(),
{
    let l = line_count(t) - 1;
    lemma_line_start_props(t, l);
    let s = line_start(t, l);
    lemma_count_nl_zero(t.skip(s));
    assert forall|j: int| s <= j < t.len() implies t[j] != '\n' by {
        assert(t.skip(s)[j - s] == t[j]);
    }
    lemma_next_newline_unique(t, s, t.len() as int);
}

/// Line length is never negative, and the line body holds no terminator.
pub proof fn lemma_line_shape(t: Seq<char>, l: int)
    requires
        0 <= l < line_count(t),
    ensures
        0 <= line_len(t, l),
        line_start(t, l) + line_len(t, l) <= t.len(),
        forall|j: int|
            line_start(t, l) <= j < line_start(t, l) + line_len(t, l) ==> t[j] != '\n',
        l < line_count(t) - 1 ==> line_start(t, l) + line_len(t, l) < t.len()
            && t[line_start(t, l) + line_len(t, l)] == '\n',
        l == line_count(t) - 1 ==> line_start(t, l) + line_len(t, l) == t.len(),
{
    lemma_line_start_props(t, l);
    lemma_next_newline_props(t, line_start(t, l));
    if l < line_count(t) - 1 {
        lemma_nn_hits_newline(t, line_start(t, l));
    } else {
        lemma_last_line(t);
    }
}

/// A line that begins inside `a` begins at the same index in `a + b`.
pub proof fn lemma_line_start_concat_left(a: Seq<char>, b: Seq<char>, l: int)
    requires
        0 <= l <= count_nl(a),
    ensures
        line_start(a + b, l) == line_start(a, l),
    decreases l,
{
    if l > 0 {
        lemma_line_start_concat_left(a, b, l - 1);
        let s = line_start(a, l - 1);
        lemma_line_start_props(a, l - 1);
        lemma_nn_hits_newline(a, s);
        let nn = next_newline(a, s);
        lemma_next_newline_props(a, s);
        assert(forall|j: int| 0 <= j < a.len() ==> (a + b)[j] == a[j]);
        lemma_next_newline_unique(a + b, s, nn);
    }
}

/// For `j >= 1`, line `count_nl(a) + j` of `a + b` begins inside `b`, at
/// `b`'s own `j`-th line start shifted by `a.len()`.
pub proof fn lemma_line_start_concat_right(a: Seq<char>, b: Seq<char>, j: int)
    requires
        1 <= j <= count_nl(b),
    ensures
        line_start(a + b, count_nl(a) + j) == a.len() + line_start(b, j),
    decreases j,
{
    let ca = count_nl(a) as int;
    let t2 = a + b;
    assert(forall|j2: int| 0 <= j2 < a.len() ==> t2[j2] == a[j2]);
    assert(forall|k: int| 0 <= k < b.len() ==> t2[a.len() + k] == b[k]);
    if j == 1 {
        lemma_line_start_concat_left(a, b, ca);
        lemma_line_start_props(a, ca);
        let s = line_start(a, ca);
        // no terminator remains in `a` after `s`
        lemma_count_nl_zero(a.skip(s));
        // the next terminator is the first one of `b`
        assert(b.skip(0) =~= b);
        lemma_nn_hits_newline(b, 0);
        let nb = next_newline(b, 0);
        lemma_next_newline_props(b, 0);
        assert forall|j2: int| s <= j2 < a.len() + nb implies t2[j2] != '\n' by {
            if j2 < a.len() {
                assert(a.skip(s)[j2 - s] == a[j2]);
            } else {
                assert(t2[j2] == b[j2 - a.len()]);
            }
        }
        lemma_next_newline_unique(t2, s, a.len() + nb);
        assert(line_start(t2, ca + 1) == a.len() + nb + 1);
        assert(line_start(b, 1) == nb + 1);
    } else {
        lemma_line_start_concat_right(a, b, j - 1);
        let sb = line_start(b, j - 1);
        lemma_line_start_props(b, j - 1);
        lemma_nn_hits_newline(b, sb);
        let nb = next_newline(b, sb);
        lemma_next_newline_props(b, sb);
        lemma_next_newline_unique(t2, a.len() + sb, a.len() + nb);
    }
}

/// Newline counts of the two halves of a split add up to the whole.
pub proof fn lemma_count_nl_split(t: Seq<char>, p: int)
    requires
        0 <= p <= t.len(),
    ensures
        count_nl(t) == count_nl(t.take(p)) + count_nl(t.skip(p)),
{
    assert(t =~= t.take(p) + t.skip(p));
    lemma_count_nl_concat(t.take(p), t.skip(p));
}

/// The prefix of `t` that ends inside line `l` (at line offset `c`) holds
/// exactly `l` terminators.
pub proof fn lemma_count_nl_take_in_line(t: Seq<char>, l: int, c: int)
    requires
        0 <= l < line_count(t),
        0 <= c <= line_len(t, l),
    ensures
        count_nl(t.take(line_start(t, l) + c)) == l,
{
    let s = line_start(t, l);
    lemma_line_start_props(t, l);
    lemma_line_shape(t, l);
    assert(t.take(s + c) =~= t.take(s) + t.subrange(s, s + c));
    lemma_count_nl_concat(t.take(s), t.subrange(s, s + c));
    lemma_count_nl_zero(t.subrange(s, s + c));
    assert(forall|k: int| 0 <= k < c ==> #[trigger] t.subrange(s, s + c)[k] == t[s + k]);
}

/// Inserting terminator-free text inside line `l` leaves the line layout
/// intact and lengthens just that line.
pub proof fn lemma_insert_in_line(t: Seq<char>, l: int, c: int, u: Seq<char>)
    requires
        0 <= l < line_count(t),
        0 <= c <= line_len(t, l),
        count_nl(u) == 0,
    ensures
        ({
            let p = line_start(t, l) + c;
            let t2 = splice_insert(t, p, u);
            &&& line_count(t2) == line_count(t)
            &&& line_start(t2, l) == line_start(t, l)
            &&& line_len(t2, l) == line_len(t, l) + u.len()
        }),
{
    let s = line_start(t, l);
    let p = s + c;
    let nn = next_newline(t, s);
    let t2 = splice_insert(t, p, u);
    let a = t.take(p) + u;
    lemma_line_start_props(t, l);
    lemma_line_shape(t, l);
    lemma_splice_insert_index(t, p, u);
    lemma_count_nl_take_in_line(t, l, c);
    lemma_count_nl_split(t, p);
    lemma_count_nl_concat(t.take(p), u);
    assert(t2 =~= a + t.skip(p));
    lemma_count_nl_concat(a, t.skip(p));
    assert(line_count(t2) == line_count(t));
    // the line still begins where it did
    lemma_line_start_concat_left(a, t.skip(p), l);
    lemma_line_start_concat_left(t.take(p), u, l);
    assert(t =~= t.take(p) + t.skip(p));
    lemma_line_start_concat_left(t.take(p), t.skip(p), l);
    assert(line_start(t2, l) == s);
    // its terminator moved right by the inserted length
    lemma_count_nl_zero(u);
    assert forall|j: int| s <= j < nn + u.len() implies t2[j] != '\n' by {
        if j < p {
            assert(t2[j] == t[j]);
        } else if j < p + u.len() {
            assert(t2[j] == u[j - p]);
        } else {
            assert(t2[j] == t[j - u.len()]);
        }
    }
    if nn < t.len() {
        assert(t2[nn + u.len()] == t[nn]);
    }
    lemma_next_newline_unique(t2, s, nn + u.len());
}

/// Inserting text with `k >= 1` terminators inside line `l`: the document
/// gains `k` lines, and the cursor's landing line `l + k` starts where the
/// inserted text's own last line starts.
pub proof fn lemma_insert_multiline(t: Seq<char>, l: int, c: int, u: Seq<char>)
    requires
        0 <= l < line_count(t),
        0 <= c <= line_len(t, l),
        count_nl(u) >= 1,
    ensures
        ({
            let p = line_start(t, l) + c;
            let t2 = splice_insert(t, p, u);
            let k = count_nl(u) as int;
            let su = line_start(u, k);
            &&& line_count(t2) == line_count(t) + k
            &&& 0 <= su <= u.len()
            &&& line_start(t2, l + k) == p + su
            &&& line_len(t2, l + k) == (u.len() - su) + (line_len(t, l) - c)
        }),
{
    let s = line_start(t, l);
    let p = s + c;
    let nn = next_newline(t, s);
    let t2 = splice_insert(t, p, u);
    let k = count_nl(u) as int;
    let su = line_start(u, k);
    let a = t.take(p) + u;
    lemma_line_start_props(t, l);
    lemma_line_shape(t, l);
    lemma_splice_insert_index(t, p, u);
    lemma_count_nl_take_in_line(t, l, c);
    lemma_count_nl_split(t, p);
    lemma_count_nl_concat(t.take(p), u);
    assert(t2 =~= a + t.skip(p));
    lemma_count_nl_concat(a, t.skip(p));
    assert(line_count(t2) == line_count(t) + k);
    // where the last inserted line begins
    lemma_line_start_props(u, k);
    lemma_line_start_concat_left(a, t.skip(p), l + k);
    lemma_line_start_concat_right(t.take(p), u, k);
    assert(line_start(t2, l + k) == p + su);
    // its terminator: past the insertion, at the old line's terminator
    lemma_last_line(u);
    lemma_next_newline_props(u, su);
    assert forall|j: int| p + su <= j < nn + u.len() implies t2[j] != '\n' by {
        if j < p + u.len() {
            assert(t2[j] == u[j - p]);
        } else {
            assert(t2[j] == t[j - u.len()]);
        }
    }
    if nn < t.len() {
        assert(t2[nn + u.len()] == t[nn]);
    }
    lemma_next_newline_unique(t2, p + su, nn + u.len());
}

/// Removing a terminator-free range inside line `l` leaves the line layout
/// intact and shortens just that line.
pub proof fn lemma_remove_in_line(t: Seq<char>, l: int, c0: int, c1: int)
    requires
        0 <= l < line_count(t),
        0 <= c0 <= c1 <= line_len(t, l),
    ensures
        ({
            let s = line_start(t, l);
            let t2 = splice_remove(t, s + c0, s + c1);
            &&& line_count(t2) == line_count(t)
            &&& line_start(t2, l) == s
            &&& line_len(t2, l) == line_len(t, l) - (c1 - c0)
        }),
{
    let s = line_start(t, l);
    let a = s + c0;
    let b = s + c1;
    let nn = next_newline(t, s);
    let t2 = splice_remove(t, a, b);
    lemma_line_start_props(t, l);
    lemma_line_shape(t, l);
    lemma_splice_remove_index(t, a, b);
    lemma_count_nl_take_in_line(t, l, c0);
    lemma_count_nl_take_in_line(t, l, c1);
    lemma_count_nl_split(t, b);
    lemma_count_nl_concat(t.take(a), t.skip(b));
    assert(line_count(t2) == line_count(t));
    lemma_line_start_concat_left(t.take(a), t.skip(b), l);
    assert(t =~= t.take(a) + t.skip(a));
    lemma_line_start_concat_left(t.take(a), t.skip(a), l);
    assert(line_start(t2, l) == s);
    assert forall|j: int| s <= j < a + (nn - b) implies t2[j] != '\n' by {
        if j < a {
            assert(t2[j] == t[j]);
        } else {
            assert(t2[j] == t[j + (c1 - c0)]);
        }
    }
    if nn < t.len() {
        assert(t2[a + (nn - b)] == t[nn]);
    }
    lemma_next_newline_unique(t2, s, a + (nn - b));
}

/// Removing the terminator that ends line `l` merges lines `l` and `l + 1`.
pub proof fn lemma_remove_newline_join(t: Seq<char>, l: int)
    requires
        0 <= l < line_count(t) - 1,
    ensures
        ({
            let nn = line_start(t, l) + line_len(t, l);
            let t2 = splice_remove(t, nn, nn + 1);
            &&& line_count(t2) == line_count(t) - 1
            &&& line_start(t2, l) == line_start(t, l)
            &&& line_len(t2, l) == line_len(t, l) + line_len(t, l + 1)
        }),
{
    let s = line_start(t, l);
    let nn = s + line_len(t, l);
    let t2 = splice_remove(t, nn, nn + 1);
    lemma_line_start_props(t, l);
    lemma_line_shape(t, l);
    lemma_line_shape(t, l + 1);
    lemma_splice_remove_index(t, nn, nn + 1);
    lemma_count_nl_take_in_line(t, l, line_len(t, l));
    // the removed character is the line's terminator
    assert(t.take(nn + 1).drop_last() =~= t.take(nn));
    assert(t.take(nn + 1).last() == t[nn]);
    lemma_count_nl_split(t, nn + 1);
    lemma_count_nl_concat(t.take(nn), t.skip(nn + 1));
    assert(line_count(t2) == line_count(t) - 1);
    lemma_line_start_concat_left(t.take(nn), t.skip(nn + 1), l);
    assert(t =~= t.take(nn) + t.skip(nn));
    lemma_line_start_concat_left(t.take(nn), t.skip(nn), l);
    assert(line_start(t2, l) == s);
    // the merged line runs to the next line's old terminator
    let s1 = line_start(t, l + 1);
    assert(s1 == nn + 1);
    let nn1 = s1 + line_len(t, l + 1);
    assert forall|j: int| s <= j < nn1 - 1 implies t2[j] != '\n' by {
        if j < nn {
            assert(t2[j] == t[j]);
        } else {
            assert(t2[j] == t[j + 1]);
        }
    }
    if nn1 < t.len() {
        assert(t2[nn1 - 1] == t[nn1]);
    }
    lemma_next_newline_unique(t2, s, nn1 - 1);
}

/// Inserting a run and then removing that same run restores the document.
pub proof fn lemma_insert_then_remove_roundtrip(t: Seq<char>, p: int, u: Seq<char>)
    requires
        0 <= p <= t.len(),
    ensures
        splice_remove(splice_insert(t, p, u), p, p + u.len()) == t,
{
    lemma_splice_insert_index(t, p, u);
    lemma_splice_remove_index(splice_insert(t, p, u), p, p + u.len());
    assert(splice_remove(splice_insert(t, p, u), p, p + u.len()) =~= t);
}

/// A splice of carriage-return-free pieces stays carriage-return-free.
pub proof fn lemma_splice_insert_cr_free(t: Seq<char>, p: int, u: Seq<char>)
    requires
        0 <= p <= t.len(),
        cr_free(t),
        cr_free(u),
    ensures
        cr_free(splice_insert(t, p, u)),
{
    let t2 = splice_insert(t, p, u);
    lemma_splice_insert_index(t, p, u);
    assert forall|j: int| 0 <= j < t2.len() implies t2[j] != '\r' by {
        if j < p {
            assert(t2[j] == t[j]);
        } else if j < p + u.len() {
            assert(t2[j] == u[j - p]);
        } else {
            assert(t2[j] == t[j - u.len()]);
        }
    }
}

pub proof fn lemma_splice_remove_cr_free(t: Seq<char>, a: int, b: int)
    requires
        0 <= a <= b <= t.len(),
        cr_free(t),
    ensures
        cr_free(splice_remove(t, a, b)),
{
    let t2 = splice_remove(t, a, b);
    lemma_splice_remove_index(t, a, b);
    assert forall|j: int| 0 <= j < t2.len() implies t2[j] != '\r' by {
        if j < a {
            assert(t2[j] == t[j]);
        } else {
            assert(t2[j] == t[j + (b - a)]);
        }
    }
}

} // verus!

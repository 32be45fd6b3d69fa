//! Normalization of pasted text.
//!
//! Pasted blobs may mix line endings.  Scanning left to right, a `"\r\n"`
//! pair collapses to one `'\n'`, a bare `'\r'` becomes `'\n'`, and a bare
//! `'\n'` stays; runs of terminators keep one break per logical break.
//! The normalized text therefore holds no carriage return.

use vstd::prelude::*;
use vstd::string::StrSliceExecFns;
use crate::lines::cr_free;

verus! {

/// The normalized form of `s`: every `"\r\n"` or lone `'\r'` replaced by a
/// single `'\n'`.
pub open spec fn normalize_newlines(s: Seq<char>) -> Seq<char>
    decreases s.len(),
{
    if s.len() == 0 {
        Seq::<char>::empty()
    } else if s[0] == '\r' {
        if s.len() >= 2 && s[1] == '\n' {
            seq!['\n'] + normalize_newlines(s.skip(2))
        } else {
            seq!['\n'] + normalize_newlines(s.skip(1))
        }
    } else {
        seq![s[0]] + normalize_newlines(s.skip(1))
    }
}

/// Normalization never lengthens the text.
pub proof fn lemma_normalize_len(s: Seq<char>)
    ensures
        normalize_newlines(s).len() <= s.len(),
    decreases s.len(),
{
    if s.len() > 0 {
        if s[0] == '\r' && s.len() >= 2 && s[1] == '\n' {
            lemma_normalize_len(s.skip(2));
        } else {
            lemma_normalize_len(s.skip(1));
        }
    }
}

/// Normalized text holds no carriage return.
pub proof fn lemma_normalize_cr_free(s: Seq<char>)
    ensures
        cr_free(normalize_newlines(s)),
    decreases s.len(),
{
    if s.len() > 0 {
        let r = normalize_newlines(s);
        if s[0] == '\r' && s.len() >= 2 && s[1] == '\n' {
            lemma_normalize_cr_free(s.skip(2));
            let tail = normalize_newlines(s.skip(2));
            assert forall|j: int| 0 <= j < r.len() implies r[j] != '\r' by {
                if j > 0 {
                    assert(r[j] == tail[j - 1]);
                }
            }
        } else if s[0] == '\r' {
            lemma_normalize_cr_free(s.skip(1));
            let tail = normalize_newlines(s.skip(1));
            assert forall|j: int| 0 <= j < r.len() implies r[j] != '\r' by {
                if j > 0 {
                    assert(r[j] == tail[j - 1]);
                }
            }
        } else {
            lemma_normalize_cr_free(s.skip(1));
            let tail = normalize_newlines(s.skip(1));
            assert forall|j: int| 0 <= j < r.len() implies r[j] != '\r' by {
                if j > 0 {
                    assert(r[j] == tail[j - 1]);
                }
            }
        }
    }
}

/// Normalization is the identity on text that is already `'\n'`-only.
pub proof fn lemma_normalize_cr_free_id(s: Seq<char>)
    requires
        cr_free(s),
    ensures
        normalize_newlines(s) == s,
    decreases s.len(),
{
    if s.len() > 0 {
        assert(s[0] != '\r');
        assert forall|j: int| 0 <= j < s.skip(1).len() implies s.skip(1)[j] != '\r' by {
            assert(s.skip(1)[j] == s[j + 1]);
        }
        lemma_normalize_cr_free_id(s.skip(1));
        assert(seq![s[0]] + s.skip(1) =~= s);
    }
}

/// Normalization is idempotent: normalizing an already-normalized string
/// returns it unchanged.
pub proof fn lemma_normalize_idempotent(s: Seq<char>)
    ensures
        normalize_newlines(normalize_newlines(s)) == normalize_newlines(s),
{
    lemma_normalize_cr_free(s);
    lemma_normalize_cr_free_id(normalize_newlines(s));
}

/// Relies on `String::push`: appends exactly the given character to the
/// end of the string.
#[verifier::external_body]
pub(crate) fn push_char(s: &mut String, c: char)
    ensures
        final(s)@ == old(s)@.push(c),
{
    s.push(c);
}

/// Scans the pasted text left to right and collapses every `"\r\n"` pair
/// and every bare `'\r'` into a single `'\n'`.
pub fn normalize_paste(s: &str) -> (r: String)
    ensures
        r@ == normalize_newlines(s@),
        cr_free(r@),
        r@.len() <= s@.len(),
{
    proof {
        lemma_normalize_cr_free(s@);
        lemma_normalize_len(s@);
    }
    let n = s.unicode_len();
    let mut out = String::new();
    let mut i: usize = 0;
    proof {
        assert(s@.skip(0) =~= s@);
        assert(out@ + normalize_newlines(s@) =~= normalize_newlines(s@));
    }
    while i < n
        invariant
            i <= n,
            n == s@.len(),
            out@ + normalize_newlines(s@.skip(i as int)) == normalize_newlines(s@),
        decreases n - i,
    {
        let ghost rest = s@.skip(i as int);
        let ghost out0 = out@;
        let c = s.get_char(i);
        proof {
            assert(rest[0] == s@[i as int]);
        }
        if c == '\r' {
            push_char(&mut out, '\n');
            proof {
                assert(out@ =~= out0 + seq!['\n']);
            }
            if i + 1 < n && s.get_char(i + 1) == '\n' {
                proof {
                    assert(rest[1] == s@[i as int + 1]);
                    assert(rest.skip(2) =~= s@.skip(i as int + 2));
                    assert(normalize_newlines(rest) == seq!['\n'] + normalize_newlines(
                        rest.skip(2)));
                    assert((out0 + seq!['\n']) + normalize_newlines(rest.skip(2)) =~= out0 + (
                    seq!['\n'] + normalize_newlines(rest.skip(2))));
                }
                i = i + 2;
            } else {
                proof {
                    assert(!(rest.len() >= 2 && rest[1] == '\n'));
                    assert(rest.skip(1) =~= s@.skip(i as int + 1));
                    assert(normalize_newlines(rest) == seq!['\n'] + normalize_newlines(
                        rest.skip(1)));
                    assert((out0 + seq!['\n']) + normalize_newlines(rest.skip(1)) =~= out0 + (
                    seq!['\n'] + normalize_newlines(rest.skip(1))));
                }
                i = i + 1;
            }
        } else {
            push_char(&mut out, c);
            proof {
                assert(out@ =~= out0 + seq![c]);
                assert(rest.skip(1) =~= s@.skip(i as int + 1));
                assert(normalize_newlines(rest) == seq![c] + normalize_newlines(rest.skip(1)));
                assert((out0 + seq![c]) + normalize_newlines(rest.skip(1)) =~= out0 + (seq![c]
                    + normalize_newlines(rest.skip(1))));
            }
            i = i + 1;
        }
    }
    proof {
        assert(s@.skip(n as int) =~= Seq::<char>::empty());
        assert(out@ + normalize_newlines(s@.skip(n as int)) =~= out@);
    }
    out
}

} // verus!

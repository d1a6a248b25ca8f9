//! Splitting a document into lines.
//!
//! A line is a maximal span free of `'\n'`; a newline ends the line it
//! follows, and a final span with no terminating newline still counts as a
//! line. The empty text has no lines, and a text ending in a newline has no
//! trailing empty line.

use vstd::prelude::*;

verus! {

use vstd::string::StrSliceExecFns;

/// Position of the first newline character in `s`, or `s.len()` when `s`
/// holds none.
pub open spec fn first_nl(s: Seq<char>) -> int
    decreases s.len(),
{
    if s.len() == 0 {
        0
    } else if s[0] == '\n' {
        0
    } else {
        1 + first_nl(s.drop_first())
    }
}

pub proof fn lemma_first_nl_bounds(s: Seq<char>)
    ensures
        0 <= first_nl(s) <= s.len(),
        forall|i: int| 0 <= i < first_nl(s) ==> s[i] != '\n',
        first_nl(s) < s.len() ==> s[first_nl(s)] == '\n',
    decreases s.len(),
{
    if s.len() == 0 {
    } else if s[0] == '\n' {
    } else {
        lemma_first_nl_bounds(s.drop_first());
        let k = first_nl(s);
        assert forall|i: int| 0 <= i < k implies s[i] != '\n' by {
            if i >= 1 {
                assert(s.drop_first()[i - 1] == s[i]);
                assert(s.drop_first()[i - 1] != '\n');
            }
        }
        if k < s.len() {
            assert(s.drop_first()[k - 1] == s[k]);
        }
    }
}

/// `first_nl` is pinned down by its characterization: no newline strictly
/// before `k`, and either `k` is the end of the text or a newline sits there.
pub proof fn lemma_first_nl_at(s: Seq<char>, k: int)
    requires
        0 <= k <= s.len(),
        forall|i: int| 0 <= i < k ==> s[i] != '\n',
        k < s.len() ==> s[k] == '\n',
    ensures
        first_nl(s) == k,
    decreases s.len(),
{
    if s.len() == 0 {
    } else if s[0] == '\n' {
        assert(k == 0) by {
            if k > 0 {
                assert(s[0] != '\n');
            }
        }
    } else {
        assert(k >= 1) by {
            if k == 0 {
                assert(s[0] == '\n');
            }
        }
        assert forall|i: int| 0 <= i < k - 1 implies s.drop_first()[i] != '\n' by {
            assert(s.drop_first()[i] == s[i + 1]);
            assert(s[i + 1] != '\n');
        }
        if k - 1 < s.drop_first().len() {
            assert(s.drop_first()[k - 1] == s[k]);
        }
        lemma_first_nl_at(s.drop_first(), k - 1);
    }
}

/// The lines of `s`, in order. A carriage return directly before a newline
/// belongs to the line ending, not to the line.
pub open spec fn spec_lines(s: Seq<char>) -> Seq<Seq<char>>
    decreases s.len() via spec_lines_decreases
{
    if s.len() == 0 {
        Seq::empty()
    } else {
        let k = first_nl(s);
        if k < s.len() {
            let e = if k > 0 && s[k - 1] == '\r' {
                k - 1
            } else {
                k
            };
            seq![s.subrange(0, e)] + spec_lines(s.subrange(k + 1, s.len() as int))
        } else {
            seq![s]
        }
    }
}

#[via_fn]
proof fn spec_lines_decreases(s: Seq<char>) {
    lemma_first_nl_bounds(s);
}

/// Splits `s` into its lines, exactly as `spec_lines` describes.
pub fn split_lines(s: &str) -> (lines: Vec<String>)
    ensures
        lines.deep_view() == spec_lines(s@),
{
    let n: usize = s.unicode_len();
    let mut lines: Vec<String> = Vec::new();
    let mut pos: usize = 0;
    proof {
        assert(s@.subrange(0, n as int) =~= s@);
        assert(lines.deep_view() =~= Seq::<Seq<char>>::empty());
        assert(lines.deep_view() + spec_lines(s@) =~= spec_lines(s@));
    }
    while pos < n
        invariant
            pos <= n,
            n == s@.len(),
            spec_lines(s@) == lines.deep_view() + spec_lines(s@.subrange(pos as int, n as int)),
        decreases n - pos,
    {
        let ghost p = pos as int;
        let mut j: usize = pos;
        while j < n && s.get_char(j) != '\n'
            invariant
                pos <= j <= n,
                n == s@.len(),
                forall|i: int| pos <= i < j ==> s@[i] != '\n',
            decreases n - j,
        {
            j = j + 1;
        }
        let e: usize = if j < n && j > pos && s.get_char(j - 1) == '\r' {
            j - 1
        } else {
            j
        };
        let line: String = s.substring_char(pos, e).to_owned();
        let ghost t = s@.subrange(p, n as int);
        let ghost old_lines = lines.deep_view();
        proof {
            assert forall|i: int| 0 <= i < j - p implies t[i] != '\n' by {
                assert(t[i] == s@[p + i]);
            }
            if (j as int) < n as int {
                assert(t[j - p] == s@[j as int]);
            }
            lemma_first_nl_at(t, j - p);
            if j > pos {
                assert(t[j - 1 - p] == s@[j - 1]);
            }
            assert(line@ =~= t.subrange(0, e as int - p));
        }
        lines.push(line);
        proof {
            assert(lines.deep_view() =~= old_lines + seq![line@]);
        }
        if j < n {
            pos = j + 1;
            proof {
                let rest = s@.subrange(j + 1, n as int);
                assert(t.subrange(j + 1 - p, t.len() as int) =~= rest);
                assert(spec_lines(t) == seq![line@] + spec_lines(rest));
                assert(old_lines + (seq![line@] + spec_lines(rest)) =~= (old_lines + seq![
                    line@,
                ]) + spec_lines(rest));
            }
        } else {
            pos = n;
            proof {
                assert(t.subrange(0, j - p) =~= t);
                assert(spec_lines(t) == seq![line@]);
                let rest = s@.subrange(n as int, n as int);
                assert(rest =~= Seq::<char>::empty());
                assert(spec_lines(rest) =~= Seq::<Seq<char>>::empty());
                assert(old_lines + seq![line@] =~= (old_lines + seq![line@]) + spec_lines(rest));
            }
        }
    }
    proof {
        let rest = s@.subrange(pos as int, n as int);
        assert(rest =~= Seq::<char>::empty());
        assert(spec_lines(rest) =~= Seq::<Seq<char>>::empty());
        assert(lines.deep_view() + spec_lines(rest) =~= lines.deep_view());
    }
    lines
}

} // verus!

//! Splitting file contents into lines.
//!
//! A line is a maximal run of characters between line breaks.  Both `"\n"`
//! and `"\r\n"` end a line; a trailing break adds no empty final line, and a
//! final run without a trailing break still counts as a line.  A lone
//! carriage return that is not followed by a line feed stays in its line.

use vstd::prelude::*;
use vstd::string::StrSliceExecFns;

use crate::chars::chars_of;

verus! {

/// Index of the first line feed in `s`, or `s.len()` when there is none.
pub open spec fn first_newline(s: Seq<char>) -> nat
    decreases s.len(),
{
    if s.len() == 0 {
        0
    } else if s[0] == '\n' {
        0
    } else {
        1 + first_newline(s.drop_first())
    }
}

/// A line terminated by `"\r\n"` loses the carriage return as well.
pub open spec fn strip_cr(line: Seq<char>) -> Seq<char> {
    if line.len() > 0 && line.last() == '\r' {
        line.drop_last()
    } else {
        line
    }
}

/// The lines of `s`, in order, without their line breaks.
pub open spec fn spec_lines(s: Seq<char>) -> Seq<Seq<char>>
    decreases s.len(),
{
    if s.len() == 0 {
        Seq::empty()
    } else {
        let i = first_newline(s) as int;
        if i < s.len() {
            seq![strip_cr(s.take(i))] + spec_lines(s.skip(i + 1))
        } else {
            seq![s]
        }
    }
}

/// `first_newline` is the index before which no line feed occurs and at
/// which one stands, unless none occurs at all.
pub proof fn lemma_first_newline_at(s: Seq<char>, i: int)
    requires
        0 <= i <= s.len(),
        forall|j: int| 0 <= j < i ==> s[j] != '\n',
        i < s.len() ==> s[i] == '\n',
    ensures
        first_newline(s) == i,
    decreases s.len(),
{
    if s.len() == 0 {
    } else if s[0] == '\n' {
        assert(i == 0);
    } else {
        let t = s.drop_first();
        assert forall|j: int| 0 <= j < i - 1 implies t[j] != '\n' by {
            assert(t[j] == s[j + 1]);
        }
        if i - 1 < t.len() {
            assert(t[i - 1] == s[i]);
        }
        lemma_first_newline_at(t, i - 1);
    }
}

/// Splits `contents` into its lines, as [`spec_lines`] describes, returning
/// slices of the original text.
pub fn split_lines<'a>(contents: &'a str) -> (r: Vec<&'a str>)
    ensures
        r.deep_view() == spec_lines(contents@),
{
    let cs = chars_of(contents);
    let n = cs.len();
    let mut r: Vec<&'a str> = Vec::new();
    let mut pos: usize = 0;
    proof {
        assert(contents@.skip(0) =~= contents@);
        assert(r.deep_view() =~~= Seq::<Seq<char>>::empty());
        assert(Seq::<Seq<char>>::empty() + spec_lines(contents@) =~~= spec_lines(contents@));
    }
    while pos < n
        invariant
            pos <= n,
            n == contents@.len(),
            cs@ == contents@,
            spec_lines(contents@) == r.deep_view() + spec_lines(contents@.skip(pos as int)),
        decreases n - pos,
    {
        let mut end: usize = pos;
        while end < n && cs[end] != '\n'
            invariant
                pos <= end <= n,
                n == cs@.len(),
                cs@ == contents@,
                forall|j: int| pos <= j < end ==> cs@[j] != '\n',
            decreases n - end,
        {
            end += 1;
        }
        let newline_found = end < n;
        let line_end = if newline_found && end > pos && cs[end - 1] == '\r' {
            end - 1
        } else {
            end
        };
        let line = contents.substring_char(pos, line_end);
        let next = if newline_found {
            end + 1
        } else {
            n
        };
        let ghost prev = r.deep_view();
        proof {
            let s2 = contents@.skip(pos as int);
            let i = end - pos;
            assert forall|j: int| 0 <= j < i implies s2[j] != '\n' by {
                assert(s2[j] == contents@[pos + j]);
            }
            if newline_found {
                assert(s2[i] == contents@[end as int]);
            }
            lemma_first_newline_at(s2, i);
            if newline_found {
                assert(s2.take(i) =~= contents@.subrange(pos as int, end as int));
                assert(s2.skip(i + 1) =~= contents@.skip(next as int));
                if line_end < end {
                    assert(s2.take(i).last() == contents@[end - 1]);
                    assert(s2.take(i).drop_last() =~= contents@.subrange(
                        pos as int,
                        line_end as int,
                    ));
                    assert(line@ == strip_cr(s2.take(i)));
                } else {
                    if i > 0 {
                        assert(s2.take(i).last() == contents@[end - 1]);
                    }
                    assert(line@ =~= strip_cr(s2.take(i)));
                }
                assert(spec_lines(s2) == seq![line@] + spec_lines(contents@.skip(next as int)));
            } else {
                assert(s2 =~= contents@.subrange(pos as int, n as int));
                assert(line@ == s2);
                assert(contents@.skip(next as int) =~= Seq::<char>::empty());
                assert(spec_lines(contents@.skip(next as int)) =~~= Seq::<Seq<char>>::empty());
                assert(spec_lines(s2) =~~= seq![line@] + spec_lines(contents@.skip(next as int)));
            }
        }
        r.push(line);
        proof {
            assert(r.deep_view() =~~= prev.push(line@));
            assert(prev + (seq![line@] + spec_lines(contents@.skip(next as int))) =~~= r.deep_view()
                + spec_lines(contents@.skip(next as int)));
        }
        pos = next;
    }
    proof {
        assert(contents@.skip(n as int) =~= Seq::<char>::empty());
        assert(spec_lines(Seq::<char>::empty()) =~~= Seq::<Seq<char>>::empty());
        assert(r.deep_view() + Seq::<Seq<char>>::empty() =~~= r.deep_view());
    }
    r
}

} // verus!

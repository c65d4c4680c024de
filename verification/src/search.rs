//! The search engine: selecting the matching lines of a text.
//!
//! [`search`] returns the lines of `contents` that contain `query`;
//! [`search_case_insensitive`] lowercases both sides before the containment
//! test but returns the original lines.  Both preserve the order and the
//! multiplicity of the lines, and both are total: an empty result is an
//! answer, not a failure.

use vstd::prelude::*;

use crate::chars::chars_of;
use crate::config::Config;
use crate::lines::{spec_lines, split_lines};
use crate::matching::{contains_chars, contains_sub, lower_of, lowercase};

verus! {

/// `line` matches `query`: case-sensitively, `query` occurs in `line`;
/// case-insensitively, the lowercased query occurs in the lowercased line.
pub open spec fn line_matches(case_sensitive: bool, query: Seq<char>, line: Seq<char>) -> bool {
    if case_sensitive {
        contains_sub(line, query)
    } else {
        contains_sub(lower_of(line), lower_of(query))
    }
}

/// The subsequence of `lines` whose members match `query`, in order, with
/// multiplicity kept.
pub open spec fn matching_lines(
    case_sensitive: bool,
    query: Seq<char>,
    lines: Seq<Seq<char>>,
) -> Seq<Seq<char>>
    decreases lines.len(),
{
    if lines.len() == 0 {
        Seq::empty()
    } else {
        let rest = matching_lines(case_sensitive, query, lines.drop_last());
        if line_matches(case_sensitive, query, lines.last()) {
            rest.push(lines.last())
        } else {
            rest
        }
    }
}

/// What [`search`] returns: the lines of `contents` that contain `query`.
pub open spec fn spec_search(query: Seq<char>, contents: Seq<char>) -> Seq<Seq<char>> {
    matching_lines(true, query, spec_lines(contents))
}

/// What [`search_case_insensitive`] returns: the lines of `contents` whose
/// lowercased form contains the lowercased query, in their original casing.
pub open spec fn spec_search_case_insensitive(
    query: Seq<char>,
    contents: Seq<char>,
) -> Seq<Seq<char>> {
    matching_lines(false, query, spec_lines(contents))
}

proof fn lemma_matching_lines_push(
    case_sensitive: bool,
    query: Seq<char>,
    lines: Seq<Seq<char>>,
    l: Seq<char>,
)
    ensures
        matching_lines(case_sensitive, query, lines.push(l)) == (if line_matches(
            case_sensitive,
            query,
            l,
        ) {
            matching_lines(case_sensitive, query, lines).push(l)
        } else {
            matching_lines(case_sensitive, query, lines)
        }),
{
    let p = lines.push(l);
    assert(p.drop_last() =~= lines);
    assert(p.last() == l);
}

/// Returns the lines of `contents` that contain `query` as a contiguous run
/// of characters, in their original order, as slices of `contents`.
pub fn search<'a>(query: &str, contents: &'a str) -> (r: Vec<&'a str>)
    ensures
        r.deep_view() == spec_search(query@, contents@),
{
    let lines = split_lines(contents);
    let q = chars_of(query);
    let mut r: Vec<&'a str> = Vec::new();
    let nl = lines.len();
    proof {
        assert(r.deep_view() =~~= Seq::<Seq<char>>::empty());
        assert(lines.deep_view().take(0) =~~= Seq::<Seq<char>>::empty());
    }
    let mut i: usize = 0;
    while i < nl
        invariant
            i <= nl,
            nl == lines@.len(),
            q@ == query@,
            lines.deep_view() == spec_lines(contents@),
            r.deep_view() == matching_lines(true, query@, lines.deep_view().take(i as int)),
        decreases nl - i,
    {
        let line = lines[i];
        let lc = chars_of(line);
        let ghost prev = r.deep_view();
        let matched = contains_chars(&lc, &q);
        if matched {
            r.push(line);
        }
        proof {
            let ldv = lines.deep_view();
            assert(line@ == ldv[i as int]);
            assert(ldv.take(i as int).push(line@) =~~= ldv.take(i as int + 1));
            lemma_matching_lines_push(true, query@, ldv.take(i as int), line@);
            if matched {
                assert(r.deep_view() =~~= prev.push(line@));
            }
        }
        i += 1;
    }
    proof {
        assert(lines.deep_view().take(nl as int) =~~= lines.deep_view());
    }
    r
}

/// Returns the lines of `contents` whose lowercased form contains the
/// lowercased `query`, in their original order and original casing, as
/// slices of `contents`.
pub fn search_case_insensitive<'a>(query: &str, contents: &'a str) -> (r: Vec<&'a str>)
    ensures
        r.deep_view() == spec_search_case_insensitive(query@, contents@),
{
    let lines = split_lines(contents);
    let lq = lowercase(query);
    let q = chars_of(lq.as_str());
    let mut r: Vec<&'a str> = Vec::new();
    let nl = lines.len();
    proof {
        assert(r.deep_view() =~~= Seq::<Seq<char>>::empty());
        assert(lines.deep_view().take(0) =~~= Seq::<Seq<char>>::empty());
    }
    let mut i: usize = 0;
    while i < nl
        invariant
            i <= nl,
            nl == lines@.len(),
            q@ == lower_of(query@),
            lines.deep_view() == spec_lines(contents@),
            r.deep_view() == matching_lines(false, query@, lines.deep_view().take(i as int)),
        decreases nl - i,
    {
        let line = lines[i];
        let ll = lowercase(line);
        let lc = chars_of(ll.as_str());
        let ghost prev = r.deep_view();
        let matched = contains_chars(&lc, &q);
        if matched {
            r.push(line);
        }
        proof {
            let ldv = lines.deep_view();
            assert(line@ == ldv[i as int]);
            assert(ldv.take(i as int).push(line@) =~~= ldv.take(i as int + 1));
            lemma_matching_lines_push(false, query@, ldv.take(i as int), line@);
            if matched {
                assert(r.deep_view() =~~= prev.push(line@));
            }
        }
        i += 1;
    }
    proof {
        assert(lines.deep_view().take(nl as int) =~~= lines.deep_view());
    }
    r
}

/// Runs the search that `config` describes over `contents`: the matching
/// lines under the mode that `config.case_sensitive` selects.
pub fn search_with_config<'a>(config: &Config, contents: &'a str) -> (r: Vec<&'a str>)
    ensures
        r.deep_view() == matching_lines(
            config.case_sensitive,
            config.query@,
            spec_lines(contents@),
        ),
{
    if config.case_sensitive {
        search(config.query.as_str(), contents)
    } else {
        search_case_insensitive(config.query.as_str(), contents)
    }
}

} // verus!

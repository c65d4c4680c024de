//! The laws the search engine obeys, stated and proved once and for all.
//!
//! Each public proof function here states a property of [`spec_search`] or
//! [`spec_search_case_insensitive`], the sequences that [`search`] and
//! [`search_case_insensitive`] promise to return.
//!
//! [`search`]: crate::search::search
//! [`search_case_insensitive`]: crate::search::search_case_insensitive

use vstd::prelude::*;

use crate::lines::spec_lines;
use crate::matching::lemma_empty_needle_contained;
use crate::search::{
    line_matches, matching_lines, spec_search, spec_search_case_insensitive,
};

verus! {

proof fn lemma_matching_lines_keeps_all(
    case_sensitive: bool,
    query: Seq<char>,
    lines: Seq<Seq<char>>,
)
    requires
        forall|k: int| 0 <= k < lines.len() ==> line_matches(case_sensitive, query, #[trigger] lines[k]),
    ensures
        matching_lines(case_sensitive, query, lines) == lines,
    decreases lines.len(),
{
    if lines.len() == 0 {
        assert(matching_lines(case_sensitive, query, lines) =~~= lines);
    } else {
        let prefix = lines.drop_last();
        lemma_matching_lines_keeps_all(case_sensitive, query, prefix);
        assert(line_matches(case_sensitive, query, lines.last()));
        assert(prefix.push(lines.last()) =~~= lines);
    }
}

proof fn lemma_matching_lines_sound(case_sensitive: bool, query: Seq<char>, lines: Seq<Seq<char>>)
    ensures
        forall|a: int|
            0 <= a < matching_lines(case_sensitive, query, lines).len() ==> line_matches(
                case_sensitive,
                query,
                #[trigger] matching_lines(case_sensitive, query, lines)[a],
            ),
    decreases lines.len(),
{
    if lines.len() == 0 {
    } else {
        let prefix = lines.drop_last();
        lemma_matching_lines_sound(case_sensitive, query, prefix);
        let m = matching_lines(case_sensitive, query, prefix);
        let ml = matching_lines(case_sensitive, query, lines);
        if line_matches(case_sensitive, query, lines.last()) {
            assert forall|a: int| 0 <= a < ml.len() implies line_matches(
                case_sensitive,
                query,
                ml[a],
            ) by {
                if a < m.len() {
                    assert(ml[a] == m[a]);
                } else {
                    assert(ml[a] == lines.last());
                }
            }
        }
    }
}

proof fn lemma_matching_lines_complete(
    case_sensitive: bool,
    query: Seq<char>,
    lines: Seq<Seq<char>>,
    j: int,
)
    requires
        0 <= j < lines.len(),
        line_matches(case_sensitive, query, lines[j]),
    ensures
        matching_lines(case_sensitive, query, lines).contains(lines[j]),
    decreases lines.len(),
{
    let ml = matching_lines(case_sensitive, query, lines);
    let prefix = lines.drop_last();
    let m = matching_lines(case_sensitive, query, prefix);
    if j == lines.len() - 1 {
        assert(ml[m.len() as int] == lines[j]);
    } else {
        assert(prefix[j] == lines[j]);
        lemma_matching_lines_complete(case_sensitive, query, prefix, j);
        let k = choose|k: int| 0 <= k < m.len() && m[k] == lines[j];
        if line_matches(case_sensitive, query, lines.last()) {
            assert(ml[k] == m[k]);
        }
        assert(ml[k] == lines[j]);
    }
}

proof fn lemma_matching_lines_subsequence(
    case_sensitive: bool,
    query: Seq<char>,
    lines: Seq<Seq<char>>,
) -> (idx: Seq<int>)
    ensures
        idx.len() == matching_lines(case_sensitive, query, lines).len(),
        forall|a: int| 0 <= a < idx.len() ==> 0 <= #[trigger] idx[a] < lines.len(),
        forall|a: int, b: int| 0 <= a < b < idx.len() ==> idx[a] < idx[b],
        forall|a: int|
            0 <= a < idx.len() ==> matching_lines(case_sensitive, query, lines)[a] == lines[#[trigger] idx[a]],
    decreases lines.len(),
{
    if lines.len() == 0 {
        Seq::empty()
    } else {
        let prefix = lines.drop_last();
        let sub = lemma_matching_lines_subsequence(case_sensitive, query, prefix);
        let m = matching_lines(case_sensitive, query, prefix);
        let ml = matching_lines(case_sensitive, query, lines);
        if line_matches(case_sensitive, query, lines.last()) {
            let idx = sub.push(lines.len() - 1);
            assert forall|a: int| 0 <= a < idx.len() implies ml[a] == lines[#[trigger] idx[a]] by {
                if a < sub.len() {
                    assert(idx[a] == sub[a]);
                    assert(ml[a] == m[a]);
                    assert(prefix[sub[a]] == lines[sub[a]]);
                } else {
                    assert(idx[a] == lines.len() - 1);
                    assert(ml[a] == lines.last());
                }
            }
            idx
        } else {
            assert forall|a: int| 0 <= a < sub.len() implies ml[a] == lines[#[trigger] sub[a]] by {
                assert(ml[a] == m[a]);
                assert(prefix[sub[a]] == lines[sub[a]]);
            }
            sub
        }
    }
}

/// An empty query occurs in every line, so searching for it returns every
/// line of `contents`, in order.
pub proof fn lemma_empty_query_returns_all_lines(contents: Seq<char>)
    ensures
        spec_search(Seq::<char>::empty(), contents) == spec_lines(contents),
{
    let lines = spec_lines(contents);
    assert forall|k: int| 0 <= k < lines.len() implies line_matches(
        true,
        Seq::<char>::empty(),
        #[trigger] lines[k],
    ) by {
        lemma_empty_needle_contained(lines[k]);
    }
    lemma_matching_lines_keeps_all(true, Seq::<char>::empty(), lines);
}

/// The search result is a subsequence of the lines of `contents`: the index
/// sequence returned is strictly increasing and maps each result position to
/// the line it came from.  Every returned line contains `query`, and every
/// line that contains `query` is returned.
pub proof fn lemma_search_characterized(query: Seq<char>, contents: Seq<char>) -> (idx: Seq<int>)
    ensures
        idx.len() == spec_search(query, contents).len(),
        forall|a: int| 0 <= a < idx.len() ==> 0 <= #[trigger] idx[a] < spec_lines(contents).len(),
        forall|a: int, b: int| 0 <= a < b < idx.len() ==> idx[a] < idx[b],
        forall|a: int|
            0 <= a < idx.len() ==> spec_search(query, contents)[a] == spec_lines(contents)[#[trigger] idx[a]],
        forall|a: int|
            0 <= a < spec_search(query, contents).len() ==> line_matches(
                true,
                query,
                #[trigger] spec_search(query, contents)[a],
            ),
        forall|j: int|
            0 <= j < spec_lines(contents).len() && line_matches(
                true,
                query,
                #[trigger] spec_lines(contents)[j],
            ) ==> spec_search(query, contents).contains(spec_lines(contents)[j]),
{
    let lines = spec_lines(contents);
    lemma_matching_lines_sound(true, query, lines);
    assert forall|j: int|
        0 <= j < lines.len() && line_matches(true, query, #[trigger] lines[j]) implies spec_search(
        query,
        contents,
    ).contains(lines[j]) by {
        lemma_matching_lines_complete(true, query, lines, j);
    }
    lemma_matching_lines_subsequence(true, query, lines)
}

/// The case-insensitive search returns exactly the lines of `contents` whose
/// lowercased form contains the lowercased query — soundly, completely, in
/// order, and in their original casing, each being one of the original
/// lines.
pub proof fn lemma_search_case_insensitive_characterized(
    query: Seq<char>,
    contents: Seq<char>,
) -> (idx: Seq<int>)
    ensures
        idx.len() == spec_search_case_insensitive(query, contents).len(),
        forall|a: int| 0 <= a < idx.len() ==> 0 <= #[trigger] idx[a] < spec_lines(contents).len(),
        forall|a: int, b: int| 0 <= a < b < idx.len() ==> idx[a] < idx[b],
        forall|a: int|
            0 <= a < idx.len() ==> spec_search_case_insensitive(query, contents)[a] == spec_lines(
                contents,
            )[#[trigger] idx[a]],
        forall|a: int|
            0 <= a < spec_search_case_insensitive(query, contents).len() ==> line_matches(
                false,
                query,
                #[trigger] spec_search_case_insensitive(query, contents)[a],
            ),
        forall|j: int|
            0 <= j < spec_lines(contents).len() && line_matches(
                false,
                query,
                #[trigger] spec_lines(contents)[j],
            ) ==> spec_search_case_insensitive(query, contents).contains(spec_lines(contents)[j]),
{
    let lines = spec_lines(contents);
    lemma_matching_lines_sound(false, query, lines);
    assert forall|j: int|
        0 <= j < lines.len() && line_matches(false, query, #[trigger] lines[j]) implies spec_search_case_insensitive(
        query,
        contents,
    ).contains(lines[j]) by {
        lemma_matching_lines_complete(false, query, lines, j);
    }
    lemma_matching_lines_subsequence(false, query, lines)
}

/// Searching is deterministic: two runs on identical inputs yield identical,
/// order-stable results.
pub proof fn lemma_search_deterministic(
    query: Seq<char>,
    contents: Seq<char>,
    r1: Seq<Seq<char>>,
    r2: Seq<Seq<char>>,
)
    requires
        r1 == spec_search(query, contents),
        r2 == spec_search(query, contents),
    ensures
        r1 == r2,
{
}

} // verus!

//! The line matcher: which lines of a document contain a query.

use crate::case::{lemma_lowered_empty, lowered, CasePolicy};
use crate::lines::{lines_of, split_lines};
use crate::substring::{lemma_empty_occurs_everywhere, occurs_in};
use crate::text::{chars_of, string_of};
use vstd::prelude::*;

verus! {

/// `line` matches `query` under `policy`: the comparison key of the line
/// contains the comparison key of the query as a contiguous substring.
pub open spec fn line_matches(query: Seq<char>, line: Seq<char>, policy: CasePolicy) -> bool {
    occurs_in(policy.key(query), policy.key(line))
}

/// The test that `matching_lines` puts to each line.
pub open spec fn matcher(query: Seq<char>, policy: CasePolicy) -> spec_fn(Seq<char>) -> bool {
    |line: Seq<char>| line_matches(query, line, policy)
}

/// The lines of `contents` that match `query` under `policy`: each as it
/// stands in the document, in document order, as often as it occurs.
pub open spec fn matching_lines(query: Seq<char>, contents: Seq<char>, policy: CasePolicy) -> Seq<
    Seq<char>,
> {
    lines_of(contents).filter(matcher(query, policy))
}

/// Returns the lines of `contents` that match `query` under `policy`.
pub fn search(query: &str, contents: &str, policy: CasePolicy) -> (found: Vec<String>)
    ensures
        found.deep_view() == matching_lines(query@, contents@, policy),
{
    let query_chars = chars_of(query);
    let needle = policy.comparison_key(query_chars.as_slice());
    let lines = split_lines(contents);
    let mut found: Vec<String> = Vec::new();
    let mut i: usize = 0;
    let ghost all = lines.deep_view();
    let ghost test = matcher(query@, policy);
    proof {
        reveal(Seq::filter);
    }
    while i < lines.len()
        invariant
            i <= lines.len(),
            needle@ == policy.key(query@),
            all == lines.deep_view(),
            test == matcher(query@, policy),
            found.deep_view() == all.take(i as int).filter(test),
        decreases lines.len() - i,
    {
        proof {
            assert(all.take(i + 1) =~= all.take(i as int).push(all[i as int]));
            all.take(i as int).lemma_filter_push(all[i as int], test);
            assert(all[i as int] =~= lines@[i as int]@);
        }
        if policy.key_contains(lines[i].as_slice(), needle.as_slice()) {
            found.push(string_of(lines[i].as_slice()));
        }
        i += 1;
    }
    assert(all.take(lines.len() as int) =~= all);
    found
}

/// Returns the lines of `contents` that contain `query` exactly as it is
/// written.
pub fn search_case_sensitive(query: &str, contents: &str) -> (found: Vec<String>)
    ensures
        found.deep_view() == matching_lines(query@, contents@, CasePolicy::Sensitive),
        found.deep_view() == lines_of(contents@).filter(
            |line: Seq<char>| occurs_in(query@, line),
        ),
{
    proof {
        lemma_sensitive_finds_lines_containing_query(query@, contents@);
    }
    search(query, contents, CasePolicy::Sensitive)
}

/// Returns the lines of `contents` that contain `query` when the case of
/// letters is ignored.
pub fn search_case_insensitive(query: &str, contents: &str) -> (found: Vec<String>)
    ensures
        found.deep_view() == matching_lines(query@, contents@, CasePolicy::Insensitive),
        found.deep_view() == lines_of(contents@).filter(
            |line: Seq<char>| occurs_in(lowered(query@), lowered(line)),
        ),
{
    proof {
        lemma_insensitive_finds_lines_containing_lowered_query(query@, contents@);
    }
    search(query, contents, CasePolicy::Insensitive)
}

/// A case-sensitive search finds exactly the lines that contain the query
/// as it is written, in document order.
pub proof fn lemma_sensitive_finds_lines_containing_query(query: Seq<char>, contents: Seq<char>)
    ensures
        matching_lines(query, contents, CasePolicy::Sensitive) == lines_of(contents).filter(
            |line: Seq<char>| occurs_in(query, line),
        ),
{
    let direct = |line: Seq<char>| occurs_in(query, line);
    assert(matcher(query, CasePolicy::Sensitive) =~= direct);
}

/// A case-insensitive search finds exactly the lines whose lowercased text
/// contains the lowercased query, in document order.
pub proof fn lemma_insensitive_finds_lines_containing_lowered_query(
    query: Seq<char>,
    contents: Seq<char>,
)
    ensures
        matching_lines(query, contents, CasePolicy::Insensitive) == lines_of(contents).filter(
            |line: Seq<char>| occurs_in(lowered(query), lowered(line)),
        ),
{
    let direct = |line: Seq<char>| occurs_in(lowered(query), lowered(line));
    assert(matcher(query, CasePolicy::Insensitive) =~= direct);
}

/// Every line that a search finds is a line of the document and matches
/// the query.
pub proof fn lemma_found_lines_match(
    query: Seq<char>,
    contents: Seq<char>,
    policy: CasePolicy,
    i: int,
)
    requires
        0 <= i < matching_lines(query, contents, policy).len(),
    ensures
        lines_of(contents).contains(matching_lines(query, contents, policy)[i]),
        line_matches(query, matching_lines(query, contents, policy)[i], policy),
{
    let lines = lines_of(contents);
    let test = matcher(query, policy);
    lines.lemma_filter_pred(test, i);
    lines.lemma_filter_contains_rev(test, lines.filter(test)[i]);
}

/// Searching is a function of its inputs: two searches with the same
/// query, document and policy find the same lines in the same order.
pub proof fn lemma_same_inputs_same_lines(
    first: Vec<String>,
    second: Vec<String>,
    query: Seq<char>,
    contents: Seq<char>,
    policy: CasePolicy,
)
    requires
        first.deep_view() == matching_lines(query, contents, policy),
        second.deep_view() == matching_lines(query, contents, policy),
    ensures
        first.deep_view() == second.deep_view(),
        first@.len() == second@.len(),
        forall|i: int| 0 <= i < first@.len() ==> first@[i]@ == second@[i]@,
{
    assert(second.deep_view().len() == second@.len());
    assert forall|i: int| 0 <= i < first@.len() implies first@[i]@ == second@[i]@ by {
        assert(second.deep_view()[i] == second@[i]@);
    }
}

/// The empty query matches every line: the search finds all lines of the
/// document, under either policy.
pub proof fn lemma_empty_query_finds_every_line(contents: Seq<char>, policy: CasePolicy)
    ensures
        matching_lines(Seq::<char>::empty(), contents, policy) == lines_of(contents),
{
    let lines = lines_of(contents);
    let test = matcher(Seq::<char>::empty(), policy);
    lemma_lowered_empty();
    assert forall|i: int| 0 <= i < lines.len() implies test(#[trigger] lines[i]) by {
        lemma_empty_occurs_everywhere(policy.key(lines[i]));
    }
    lemma_filter_keeps_all(lines, test);
}

/// The search finds no line exactly when no line of the document matches
/// the query.
pub proof fn lemma_no_match_finds_nothing(query: Seq<char>, contents: Seq<char>, policy: CasePolicy)
    ensures
        matching_lines(query, contents, policy) == Seq::<Seq<char>>::empty() <==> forall|i: int|
            0 <= i < lines_of(contents).len() ==> !line_matches(
                query,
                #[trigger] lines_of(contents)[i],
                policy,
            ),
{
    let lines = lines_of(contents);
    let test = matcher(query, policy);
    if forall|i: int| 0 <= i < lines.len() ==> !line_matches(query, #[trigger] lines[i], policy) {
        lines.lemma_all_neg_filter_empty(test);
        assert(lines.filter(test) =~= Seq::<Seq<char>>::empty());
    } else {
        let i: int = choose|i: int|
            0 <= i < lines.len() && line_matches(query, #[trigger] lines[i], policy);
        lines.lemma_filter_contains(test, i);
    }
}

/// The empty document has no lines, so no search finds anything in it.
pub proof fn lemma_empty_document_finds_nothing(query: Seq<char>, policy: CasePolicy)
    ensures
        lines_of(Seq::<char>::empty()) == Seq::<Seq<char>>::empty(),
        matching_lines(query, Seq::<char>::empty(), policy) == Seq::<Seq<char>>::empty(),
{
    lemma_no_match_finds_nothing(query, Seq::<char>::empty(), policy);
}

/// A query whose comparison key is longer than the key of every line
/// finds nothing.
pub proof fn lemma_longer_query_finds_nothing(
    query: Seq<char>,
    contents: Seq<char>,
    policy: CasePolicy,
)
    requires
        forall|i: int|
            0 <= i < lines_of(contents).len() ==> policy.key(#[trigger] lines_of(contents)[i]).len()
                < policy.key(query).len(),
    ensures
        matching_lines(query, contents, policy) == Seq::<Seq<char>>::empty(),
{
    lemma_no_match_finds_nothing(query, contents, policy);
}

/// A filter whose test holds of every element keeps the sequence as it is.
proof fn lemma_filter_keeps_all(lines: Seq<Seq<char>>, test: spec_fn(Seq<char>) -> bool)
    requires
        forall|i: int| 0 <= i < lines.len() ==> test(#[trigger] lines[i]),
    ensures
        lines.filter(test) == lines,
    decreases lines.len(),
{
    reveal(Seq::filter);
    if lines.len() > 0 {
        lemma_filter_keeps_all(lines.drop_last(), test);
    }
}

} // verus!

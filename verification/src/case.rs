//! How case is treated when a line is compared with a query.

use crate::substring::{contains, occurs_in};
use vstd::prelude::*;
use vstd::slice::slice_to_vec;

verus! {

/// Whether letter case counts when a line is compared with a query.
#[derive(Clone, Copy, Debug, PartialEq, Eq, Structural)]
pub enum CasePolicy {
    /// Lines and query are compared as they stand.
    Sensitive,
    /// Lines and query are both lowercased before they are compared.
    Insensitive,
}

/// The lowercase mapping of one character: the one or more characters that
/// `char::to_lowercase` yields for it.
pub uninterp spec fn lowercase_of(c: char) -> Seq<char>;

/// `char::to_lowercase`, with the characters it yields collected in order.
/// The mapping depends on the character alone, not on its neighbours, on a
/// language or on a locale; which characters it yields is not stated here.
#[verifier::external_body]
fn to_lowercase_chars(c: char) -> (lower: Vec<char>)
    ensures
        lower@ == lowercase_of(c),
{
    c.to_lowercase().collect()
}

/// The mapping that `lowered` applies to each character.
pub open spec fn lowercase_mapping() -> spec_fn(char) -> Seq<char> {
    |c: char| lowercase_of(c)
}

/// `text` lowercased character by character: the lowercase mappings of its
/// characters, joined in order.
pub open spec fn lowered(text: Seq<char>) -> Seq<char> {
    text.flat_map(lowercase_mapping())
}

/// Lowercasing the empty text gives the empty text.
pub proof fn lemma_lowered_empty()
    ensures
        lowered(Seq::<char>::empty()) == Seq::<char>::empty(),
{
}

/// Lowercases `text` character by character.
pub fn lowercase(text: &[char]) -> (lower: Vec<char>)
    ensures
        lower@ == lowered(text@),
{
    let mut lower: Vec<char> = Vec::new();
    let mut i: usize = 0;
    while i < text.len()
        invariant
            i <= text.len(),
            lower@ == lowered(text@.take(i as int)),
        decreases text.len() - i,
    {
        let mut piece = to_lowercase_chars(text[i]);
        lower.append(&mut piece);
        proof {
            text@.lemma_flat_map_take_append(lowercase_mapping(), i as int);
        }
        i += 1;
    }
    assert(text@.take(text.len() as int) =~= text@);
    lower
}

impl CasePolicy {
    /// The policy that an ignore-case switch selects.
    pub open spec fn of_ignore_case(ignore_case: bool) -> CasePolicy {
        if ignore_case {
            CasePolicy::Insensitive
        } else {
            CasePolicy::Sensitive
        }
    }

    /// The policy that an ignore-case switch selects.
    pub fn from_ignore_case(ignore_case: bool) -> (policy: CasePolicy)
        ensures
            policy == Self::of_ignore_case(ignore_case),
    {
        if ignore_case {
            CasePolicy::Insensitive
        } else {
            CasePolicy::Sensitive
        }
    }

    /// The form in which `text` is compared under this policy: `text`
    /// itself when case counts, `text` lowercased when it does not.
    pub open spec fn key(self, text: Seq<char>) -> Seq<char> {
        match self {
            CasePolicy::Sensitive => text,
            CasePolicy::Insensitive => lowered(text),
        }
    }

    /// Computes the comparison key of `text`.
    pub fn comparison_key(self, text: &[char]) -> (key: Vec<char>)
        ensures
            key@ == self.key(text@),
    {
        match self {
            CasePolicy::Sensitive => slice_to_vec(text),
            CasePolicy::Insensitive => lowercase(text),
        }
    }

    /// Tests whether the comparison key of `line` contains `needle`, a
    /// comparison key already.
    pub fn key_contains(self, line: &[char], needle: &[char]) -> (found: bool)
        ensures
            found == occurs_in(needle@, self.key(line@)),
    {
        match self {
            CasePolicy::Sensitive => contains(line, needle),
            CasePolicy::Insensitive => {
                let key = lowercase(line);
                contains(key.as_slice(), needle)
            },
        }
    }
}

} // verus!

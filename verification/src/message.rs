//! Turning commit summaries into changelog entries.
//!
//! A summary becomes an entry where the commit pattern matches it: the entry
//! is the replacement template with the captured groups filled in. A summary
//! that the pattern does not match gives no entry.

use crate::error::ChangelogError;
use crate::model::{models, text_model, text_models};
use vstd::prelude::*;

verus! {

/// The error with which `regex::Regex::new` refuses a pattern.
#[verifier::external_type_specification]
#[verifier::external_body]
pub struct ExRegexError(regex::Error);

/// Whether `regex::Regex::new` compiles `pattern` to a regular expression.
pub uninterp spec fn regex_compiles(pattern: Seq<char>) -> bool;

/// What the regular expression `pattern` makes of a text: the expansion of
/// `replacement` by `regex::Captures::expand` over the leftmost match that
/// `regex::Regex::captures` finds in `text`, or nothing where there is no
/// match.
pub uninterp spec fn first_match_expansion(
    pattern: Seq<char>,
    text: Seq<char>,
    replacement: Seq<char>,
) -> Option<Seq<char>>;

/// Compiles `pattern` with `regex::Regex::new`, looks for its leftmost match
/// in `text` with `Regex::captures` and expands `replacement` over the match
/// with `Captures::expand`. The contract only names the outcome: the call
/// succeeds exactly when `regex_compiles` holds of the pattern, and then gives
/// `first_match_expansion` of the three texts.
#[verifier::external_body]
fn expand_first_match(
    pattern: &str,
    text: &str,
    replacement: &str,
) -> (r: Result<Option<String>, regex::Error>)
    ensures
        r is Ok <==> regex_compiles(pattern@),
        r matches Ok(entry) ==> text_model(entry) == first_match_expansion(
            pattern@,
            text@,
            replacement@,
        ),
{
    match regex::Regex::new(pattern) {
        Ok(compiled) => Ok(
            match compiled.captures(text) {
                Some(captures) => {
                    let mut entry = String::new();
                    captures.expand(replacement, &mut entry);
                    Some(entry)
                },
                None => None,
            },
        ),
        Err(error) => Err(error),
    }
}

/// The pattern that commit summaries are matched against unless another is
/// given: a description, then an issue number in the form `(issue #N)`.
pub fn default_commit_pattern() -> (pattern: &'static str)
    ensures
        pattern@ == r"(.+)\s+\(issue\s+#(\d+)\)"@,
{
    r"(.+)\s+\(issue\s+#(\d+)\)"
}

/// The template that entries are made from unless another is given: the
/// description, then the issue number as the summary wrote it.
pub fn default_commit_replacement() -> (replacement: &'static str)
    ensures
        replacement@ == "${1} (issue #${2})"@,
{
    "${1} (issue #${2})"
}

/// What a summary gives under a pattern and a replacement: a failure where
/// the pattern is no regular expression, else the entry, if there is one.
pub open spec fn message_outcome(
    pattern: Seq<char>,
    text: Seq<char>,
    replacement: Seq<char>,
) -> Result<Option<Seq<char>>, ChangelogError> {
    if regex_compiles(pattern) {
        Ok(first_match_expansion(pattern, text, replacement))
    } else {
        Err(ChangelogError::InvalidPattern)
    }
}

/// The entry that a commit summary gives, if it gives one: the replacement
/// expanded over the leftmost match of the pattern in the summary. Fails
/// where the pattern is no regular expression.
pub fn process_commit_message(
    text: &str,
    pattern: &str,
    replacement: &str,
) -> (r: Result<Option<String>, ChangelogError>)
    ensures
        match r {
            Ok(entry) => message_outcome(pattern@, text@, replacement@) == Ok::<
                Option<Seq<char>>,
                ChangelogError,
            >(text_model(entry)),
            Err(e) => message_outcome(pattern@, text@, replacement@) == Err::<
                Option<Seq<char>>,
                ChangelogError,
            >(e),
        },
{
    match expand_first_match(pattern, text, replacement) {
        Ok(entry) => Ok(entry),
        Err(_) => Err(ChangelogError::InvalidPattern),
    }
}

/// Accepts `pattern` where it is a regular expression.
pub fn validate_commit_pattern(pattern: &str) -> (r: Result<(), ChangelogError>)
    ensures
        r is Ok <==> regex_compiles(pattern@),
        r matches Err(e) ==> e == ChangelogError::InvalidPattern,
{
    match process_commit_message("", pattern, "") {
        Ok(_) => Ok(()),
        Err(e) => Err(e),
    }
}

/// The entry of a commit that may lack a summary.
pub open spec fn entry_of(
    summary: Option<Seq<char>>,
    pattern: Seq<char>,
    replacement: Seq<char>,
) -> Option<Seq<char>> {
    match summary {
        Some(text) => first_match_expansion(pattern, text, replacement),
        None => None,
    }
}

/// The texts that are present in `outcomes`, in order.
pub open spec fn present(outcomes: Seq<Option<Seq<char>>>) -> Seq<Seq<char>>
    decreases outcomes.len(),
{
    if outcomes.len() == 0 {
        Seq::<Seq<char>>::empty()
    } else {
        match outcomes.last() {
            Some(text) => present(outcomes.drop_last()).push(text),
            None => present(outcomes.drop_last()),
        }
    }
}

/// The entries of a run of commits, in the order in which the commits were
/// visited.
pub open spec fn entries_of(
    summaries: Seq<Option<Seq<char>>>,
    pattern: Seq<char>,
    replacement: Seq<char>,
) -> Seq<Seq<char>> {
    present(Seq::new(summaries.len(), |i: int| entry_of(summaries[i], pattern, replacement)))
}

/// Keeps the entries that are present, in order.
pub fn collect_entries(outcomes: Vec<Option<String>>) -> (entries: Vec<String>)
    ensures
        models(entries@) == present(text_models(outcomes@)),
{
    let mut entries: Vec<String> = Vec::new();
    for outcome in it: outcomes
        invariant
            it.seq() == outcomes@,
            models(entries@) == present(text_models(outcomes@).take(it.index() as int)),
    {
        assert(text_models(outcomes@).take(it.index() + 1).drop_last() =~= text_models(
            outcomes@,
        ).take(it.index() as int));
        match outcome {
            Some(text) => {
                entries.push(text);
            },
            None => {},
        }
    }
    assert(text_models(outcomes@).take(outcomes.len() as int) =~= text_models(outcomes@));
    entries
}

/// The changelog entries of the commits between two versions, from their
/// summaries in the order in which the commits were visited. A commit
/// without a summary, or with one that the pattern does not match, gives no
/// entry; no commits give no entries. Fails where the pattern is no regular
/// expression.
pub fn generate_version_changelog(
    summaries: &Vec<Option<String>>,
    pattern: &str,
    replacement: &str,
) -> (r: Result<Vec<String>, ChangelogError>)
    ensures
        match r {
            Ok(entries) => regex_compiles(pattern@) && models(entries@) == entries_of(
                text_models(summaries@),
                pattern@,
                replacement@,
            ) && entries.len() <= summaries.len(),
            Err(e) => !regex_compiles(pattern@) && e == ChangelogError::InvalidPattern,
        },
{
    match validate_commit_pattern(pattern) {
        Ok(_) => {},
        Err(e) => {
            return Err(e);
        },
    }
    let mut outcomes: Vec<Option<String>> = Vec::new();
    let mut i: usize = 0;
    while i < summaries.len()
        invariant
            i <= summaries.len(),
            outcomes.len() == i,
            regex_compiles(pattern@),
            forall|k: int|
                0 <= k < i ==> text_model(#[trigger] outcomes@[k]) == entry_of(
                    text_model(summaries@[k]),
                    pattern@,
                    replacement@,
                ),
        decreases summaries.len() - i,
    {
        let outcome = match &summaries[i] {
            Some(text) => match process_commit_message(text.as_str(), pattern, replacement) {
                Ok(entry) => entry,
                Err(e) => {
                    return Err(e);
                },
            },
            None => None,
        };
        outcomes.push(outcome);
        i += 1;
    }
    assert(text_models(outcomes@) =~= Seq::new(
        text_models(summaries@).len(),
        |i: int| entry_of(text_models(summaries@)[i], pattern@, replacement@),
    ));
    proof {
        lemma_present_is_shorter(text_models(outcomes@));
    }
    Ok(collect_entries(outcomes))
}

/// No more texts are present than there are outcomes.
pub proof fn lemma_present_is_shorter(outcomes: Seq<Option<Seq<char>>>)
    ensures
        present(outcomes).len() <= outcomes.len(),
    decreases outcomes.len(),
{
    if outcomes.len() > 0 {
        lemma_present_is_shorter(outcomes.drop_last());
    }
}

} // verus!

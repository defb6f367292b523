//! The changelog entries of each version pair.
//!
//! The commits of a pair are those that can be reached from its current
//! version and not from its previous one. The caller walks that range and
//! hands over the summaries in the order of the walk. The walk is expected
//! in the order of the repository's log, topological with the most recent
//! commit first; the entries keep the order of the walk, whatever it is.

use crate::error::ChangelogError;
use crate::message::{
    entries_of, generate_version_changelog, regex_compiles, validate_commit_pattern,
};
use crate::model::{models, text_models};
use crate::record::{VersionChangelog, VersionChangelogModel, VersionPair, VersionPairModel};
use vstd::prelude::*;
use vstd::string::StringExecFns;

verus! {

/// The revision range of a pair: the name of the previous commit, two dots,
/// the name of the current commit.
pub open spec fn range_text(pair: VersionPairModel) -> Seq<char> {
    pair.previous.record.commit + ".."@ + pair.current.record.commit
}

impl VersionPair {
    /// The revision range that holds the commits of this pair.
    pub fn range(&self) -> (text: String)
        ensures
            text@ == range_text(self@),
    {
        let mut text = self.previous.record.commit.name.clone();
        text.append("..");
        text.append(self.current.record.commit.name.as_str());
        text
    }
}

/// What a commit range is.
pub struct CommitRangeModel {
    pub pair: VersionPairModel,
    pub summaries: Seq<Option<Seq<char>>>,
}

/// A version pair with the summaries of its commits in the order of the
/// walk; a commit without a summary is in the list as nothing.
#[derive(Debug)]
pub struct CommitRange {
    pub pair: VersionPair,
    pub summaries: Vec<Option<String>>,
}

impl View for CommitRange {
    type V = CommitRangeModel;

    open spec fn view(&self) -> CommitRangeModel {
        CommitRangeModel { pair: self.pair@, summaries: text_models(self.summaries@) }
    }
}

/// The changelog of one range: its current version with its entries.
pub open spec fn range_changelog(
    range: CommitRangeModel,
    pattern: Seq<char>,
    replacement: Seq<char>,
) -> VersionChangelogModel {
    VersionChangelogModel {
        record: range.pair.current,
        entries: entries_of(range.summaries, pattern, replacement),
    }
}

/// The changelogs of the ranges, one for each and in their order.
pub open spec fn range_changelogs(
    ranges: Seq<CommitRangeModel>,
    pattern: Seq<char>,
    replacement: Seq<char>,
) -> Seq<VersionChangelogModel> {
    Seq::new(ranges.len(), |i: int| range_changelog(ranges[i], pattern, replacement))
}

/// The changelog of every version pair, in the order of the pairs: the
/// current version of the pair and the entries that its commits give. Fails
/// where the pattern is no regular expression.
pub fn generate_changelog(
    ranges: Vec<CommitRange>,
    pattern: &str,
    replacement: &str,
) -> (r: Result<Vec<VersionChangelog>, ChangelogError>)
    ensures
        match r {
            Ok(changelog) => regex_compiles(pattern@) && models(changelog@) == range_changelogs(
                models(ranges@),
                pattern@,
                replacement@,
            ),
            Err(e) => !regex_compiles(pattern@) && e == ChangelogError::InvalidPattern,
        },
{
    match validate_commit_pattern(pattern) {
        Ok(_) => {},
        Err(e) => {
            return Err(e);
        },
    }
    let mut changelog: Vec<VersionChangelog> = Vec::new();
    for range in it: ranges
        invariant
            it.seq() == ranges@,
            changelog.len() == it.index(),
            regex_compiles(pattern@),
            forall|k: int|
                0 <= k < it.index() ==> (#[trigger] changelog@[k])@ == range_changelog(
                    ranges@[k]@,
                    pattern@,
                    replacement@,
                ),
    {
        let entries = match generate_version_changelog(&range.summaries, pattern, replacement) {
            Ok(entries) => entries,
            Err(e) => {
                return Err(e);
            },
        };
        changelog.push(VersionChangelog { record: range.pair.current, entries });
    }
    Ok(changelog)
}

} // verus!

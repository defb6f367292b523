//! The values that flow through the changelog pipeline.

use crate::model::{models, text_model};
use crate::version::{Version, VersionModel};
use vstd::prelude::*;

verus! {

/// A copy of an optional text.
pub fn clone_text(text: &Option<String>) -> (r: Option<String>)
    ensures
        r == *text,
{
    match text {
        Some(t) => Some(t.clone()),
        None => None,
    }
}

/// A calendar date.
#[derive(Clone, Copy, Debug, PartialEq, Eq, Structural)]
pub struct CalendarDate {
    pub year: i32,
    pub month: u32,
    pub day: u32,
}

/// The name of a commit, as the repository writes it. The pipeline carries it
/// along and never looks inside.
#[derive(Debug)]
pub struct CommitId {
    pub name: String,
}

impl View for CommitId {
    type V = Seq<char>;

    open spec fn view(&self) -> Seq<char> {
        self.name@
    }
}

impl Clone for CommitId {
    fn clone(&self) -> (r: Self)
        ensures
            r == *self,
    {
        CommitId { name: self.name.clone() }
    }
}

/// What a version record is.
pub struct VersionRecordModel {
    pub version: VersionModel,
    pub description: Option<Seq<char>>,
    pub commit: Seq<char>,
}

/// A released version: the version, the text attached to it, if any, and the
/// commit it names.
#[derive(Debug)]
pub struct VersionRecord {
    pub version: Version,
    pub description: Option<String>,
    pub commit: CommitId,
}

impl View for VersionRecord {
    type V = VersionRecordModel;

    open spec fn view(&self) -> VersionRecordModel {
        VersionRecordModel {
            version: self.version@,
            description: text_model(self.description),
            commit: self.commit@,
        }
    }
}

impl Clone for VersionRecord {
    fn clone(&self) -> (r: Self)
        ensures
            r == *self,
    {
        VersionRecord {
            version: self.version.clone(),
            description: clone_text(&self.description),
            commit: self.commit.clone(),
        }
    }
}

/// What a dated version record is.
pub struct DatedVersionModel {
    pub record: VersionRecordModel,
    pub date: CalendarDate,
}

/// A version record with the day on which its commit was made.
#[derive(Debug)]
pub struct DatedVersionRecord {
    pub record: VersionRecord,
    pub date: CalendarDate,
}

impl View for DatedVersionRecord {
    type V = DatedVersionModel;

    open spec fn view(&self) -> DatedVersionModel {
        DatedVersionModel { record: self.record@, date: self.date }
    }
}

impl Clone for DatedVersionRecord {
    fn clone(&self) -> (r: Self)
        ensures
            r == *self,
    {
        DatedVersionRecord { record: self.record.clone(), date: self.date }
    }
}

/// What a version pair is.
pub struct VersionPairModel {
    pub current: DatedVersionModel,
    pub previous: DatedVersionModel,
}

/// A version and the nearest older one: the commits of the pair are those
/// that can be reached from `current` and not from `previous`.
#[derive(Debug)]
pub struct VersionPair {
    pub current: DatedVersionRecord,
    pub previous: DatedVersionRecord,
}

impl View for VersionPair {
    type V = VersionPairModel;

    open spec fn view(&self) -> VersionPairModel {
        VersionPairModel { current: self.current@, previous: self.previous@ }
    }
}

impl Clone for VersionPair {
    fn clone(&self) -> (r: Self)
        ensures
            r == *self,
    {
        VersionPair { current: self.current.clone(), previous: self.previous.clone() }
    }
}


/// What the changelog of a version is.
pub struct VersionChangelogModel {
    pub record: DatedVersionModel,
    pub entries: Seq<Seq<char>>,
}

/// A version with the changelog entries of the commits that it introduced,
/// in the order in which the commits were visited.
#[derive(Debug)]
pub struct VersionChangelog {
    pub record: DatedVersionRecord,
    pub entries: Vec<String>,
}

impl View for VersionChangelog {
    type V = VersionChangelogModel;

    open spec fn view(&self) -> VersionChangelogModel {
        VersionChangelogModel { record: self.record@, entries: models(self.entries@) }
    }
}

} // verus!

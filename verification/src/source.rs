//! The versions of a repository: one for each tag that names a version, one
//! for the initial commit, and one for the branch tip where the caller asks
//! for it.

use crate::error::ChangelogError;
use crate::model::{models, option_model, text_model};
use crate::record::{CommitId, VersionRecord, VersionRecordModel};
use crate::signature::{strip_signatures, without_signatures};
use crate::text::{has_prefix, strip_prefix};
use crate::version::{semver_parse, Version, VersionModel};
use vstd::prelude::*;
use vstd::utf8::{decode_utf8, valid_utf8};

verus! {

/// What a tag reference is.
pub struct TagModel {
    pub name: Seq<u8>,
    pub target: Seq<char>,
    pub message: Option<Seq<char>>,
}

/// A tag of the repository: the full name of its reference as bytes, the
/// object it names, and the message of the tag if it is annotated.
#[derive(Debug)]
pub struct TagReference {
    pub name: Vec<u8>,
    pub target: CommitId,
    pub message: Option<String>,
}

impl View for TagReference {
    type V = TagModel;

    open spec fn view(&self) -> TagModel {
        TagModel { name: self.name@, target: self.target@, message: text_model(self.message) }
    }
}

/// Why a tag stands for no version.
#[derive(Clone, Copy, Debug, PartialEq, Eq, Structural)]
pub enum TagError {
    /// The reference name is no UTF-8 text.
    NotUtf8,
    /// The reference name does not lie in the namespace of tags.
    NotATag,
    /// The tag's name is no semantic version.
    NotAVersion,
}

/// The namespace in which the references of tags lie.
pub open spec fn tag_prefix() -> Seq<char> {
    "refs/tags/"@
}

/// The version that a reference name stands for: its text behind the tag
/// namespace, read as a semantic version.
pub open spec fn tag_version(name: Seq<u8>) -> Result<VersionModel, TagError> {
    if !valid_utf8(name) {
        Err(TagError::NotUtf8)
    } else if !has_prefix(decode_utf8(name), tag_prefix()) {
        Err(TagError::NotATag)
    } else {
        match semver_parse(decode_utf8(name).skip(tag_prefix().len() as int)) {
            Some(version) => Ok(version),
            None => Err(TagError::NotAVersion),
        }
    }
}

/// The description that a tag's message gives: the message, without its
/// signature blocks where stripping is asked for.
pub open spec fn tag_description(
    message: Option<Seq<char>>,
    strip_signature: bool,
) -> Option<Seq<char>> {
    match message {
        Some(text) => Some(
            if strip_signature {
                without_signatures(text)
            } else {
                text
            },
        ),
        None => None,
    }
}

/// The record of a tag that stands for `version`.
pub open spec fn tagged_model(
    version: VersionModel,
    tag: TagModel,
    strip_signature: bool,
) -> VersionRecordModel {
    VersionRecordModel {
        version,
        description: tag_description(tag.message, strip_signature),
        commit: tag.target,
    }
}

/// The record of a tag, where the tag stands for a version.
pub open spec fn tag_record(
    tag: TagModel,
    strip_signature: bool,
) -> Result<VersionRecordModel, TagError> {
    match tag_version(tag.name) {
        Ok(version) => Ok(tagged_model(version, tag, strip_signature)),
        Err(e) => Err(e),
    }
}

/// The record of the tag `tag`, which stands for `version`.
pub fn tagged_record(
    version: Version,
    tag: &TagReference,
    strip_signature: bool,
) -> (record: VersionRecord)
    ensures
        record@ == tagged_model(version@, tag@, strip_signature),
{
    let description = match &tag.message {
        Some(text) => Some(
            if strip_signature {
                strip_signatures(text.as_str())
            } else {
                text.clone()
            },
        ),
        None => None,
    };
    VersionRecord { version, description, commit: tag.target.clone() }
}

/// The version record of a tag, or the reason why the tag stands for none.
pub fn process_tag(
    tag: &TagReference,
    strip_signature: bool,
) -> (r: Result<VersionRecord, TagError>)
    ensures
        match r {
            Ok(record) => tag_record(tag@, strip_signature) == Ok::<VersionRecordModel, TagError>(
                record@,
            ),
            Err(e) => tag_record(tag@, strip_signature) == Err::<VersionRecordModel, TagError>(e),
        },
{
    let bytes = tag.name.clone();
    let name = match String::from_utf8(bytes) {
        Ok(name) => name,
        Err(_) => {
            return Err(TagError::NotUtf8);
        },
    };
    let short = match strip_prefix(name.as_str(), "refs/tags/") {
        Some(short) => short,
        None => {
            return Err(TagError::NotATag);
        },
    };
    match Version::parse(short.as_str()) {
        Ok(version) => Ok(tagged_record(version, tag, strip_signature)),
        Err(_) => Err(TagError::NotAVersion),
    }
}

/// The records of the tags that stand for a version, in the order of the
/// tags.
pub open spec fn tag_records(tags: Seq<TagModel>, strip_signature: bool) -> Seq<VersionRecordModel>
    decreases tags.len(),
{
    if tags.len() == 0 {
        Seq::<VersionRecordModel>::empty()
    } else {
        let before = tag_records(tags.drop_last(), strip_signature);
        match tag_record(tags.last(), strip_signature) {
            Ok(record) => before.push(record),
            Err(_) => before,
        }
    }
}

/// The version of the initial commit.
pub open spec fn initial_version() -> VersionModel {
    VersionModel {
        major: 0,
        minor: 0,
        patch: 0,
        pre: Seq::<char>::empty(),
        build: Seq::<char>::empty(),
    }
}

/// The record of the initial commit: the last commit of the ancestry, which
/// the caller walks from the branch tip to its root, as version `0.0.0`
/// without a description. An empty ancestry has no initial commit.
pub fn find_initial_commit(ancestry: &Vec<CommitId>) -> (r: Result<VersionRecord, ChangelogError>)
    ensures
        match r {
            Ok(record) => ancestry.len() > 0 && record@ == (VersionRecordModel {
                version: initial_version(),
                description: None,
                commit: ancestry@[ancestry.len() - 1]@,
            }),
            Err(e) => ancestry.len() == 0 && e == ChangelogError::MissingInitialCommit,
        },
{
    if ancestry.len() == 0 {
        Err(ChangelogError::MissingInitialCommit)
    } else {
        Ok(
            VersionRecord {
                version: Version::new(0, 0, 0),
                description: None,
                commit: ancestry[ancestry.len() - 1].clone(),
            },
        )
    }
}

/// The record that stands for the branch tip: the tip under the version and
/// the description that the caller gives it, or nothing where the caller
/// gives no version.
pub open spec fn head_model(
    tip: Seq<char>,
    version: Option<VersionModel>,
    description: Option<Seq<char>>,
) -> Option<VersionRecordModel> {
    match version {
        Some(version) => Some(VersionRecordModel { version, description, commit: tip }),
        None => None,
    }
}

/// The record of the branch tip under the version and the description that
/// the caller gives it. Without a version the tip is no version of its own.
pub fn find_head(
    tip: CommitId,
    version: Option<Version>,
    description: Option<String>,
) -> (head: Option<VersionRecord>)
    ensures
        option_model(head) == head_model(tip@, option_model(version), text_model(description)),
{
    match version {
        Some(version) => Some(VersionRecord { version, description, commit: tip }),
        None => None,
    }
}

/// The versions of a repository with the ancestry `ancestry`: those of the
/// tags, then the initial commit, then the head where there is one.
pub open spec fn all_versions(
    tags: Seq<TagModel>,
    ancestry: Seq<Seq<char>>,
    head: Option<VersionRecordModel>,
    strip_signature: bool,
) -> Seq<VersionRecordModel> {
    tag_records(tags, strip_signature).push(
        VersionRecordModel {
            version: initial_version(),
            description: None,
            commit: ancestry.last(),
        },
    ) + match head {
        Some(record) => seq![record],
        None => Seq::<VersionRecordModel>::empty(),
    }
}

/// All versions of a repository, in no order of rank: those of the tags
/// that stand for a version, in the order of the tags, then the initial
/// commit, then the head where the caller gives one. A tag that stands for
/// no version is passed over. Fails where the ancestry of the branch tip is
/// empty.
pub fn find_all_versions(
    tags: &Vec<TagReference>,
    ancestry: &Vec<CommitId>,
    head: Option<VersionRecord>,
    strip_signature: bool,
) -> (r: Result<Vec<VersionRecord>, ChangelogError>)
    ensures
        match r {
            Ok(versions) => ancestry.len() > 0 && models(versions@) == all_versions(
                models(tags@),
                models(ancestry@),
                option_model(head),
                strip_signature,
            ),
            Err(e) => ancestry.len() == 0 && e == ChangelogError::MissingInitialCommit,
        },
{
    let initial = match find_initial_commit(ancestry) {
        Ok(initial) => initial,
        Err(e) => {
            return Err(e);
        },
    };
    let mut versions: Vec<VersionRecord> = Vec::new();
    let mut i: usize = 0;
    while i < tags.len()
        invariant
            i <= tags.len(),
            models(versions@) == tag_records(models(tags@).take(i as int), strip_signature),
        decreases tags.len() - i,
    {
        assert(models(tags@).take(i + 1).drop_last() =~= models(tags@).take(i as int));
        match process_tag(&tags[i], strip_signature) {
            Ok(record) => {
                versions.push(record);
            },
            Err(_) => {},
        }
        i += 1;
    }
    assert(models(tags@).take(tags.len() as int) =~= models(tags@));
    versions.push(initial);
    match head {
        Some(record) => {
            versions.push(record);
        },
        None => {},
    }
    Ok(versions)
}

} // verus!

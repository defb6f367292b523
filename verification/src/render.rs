//! Rendering of a changelog as a Markdown document.
//!
//! Each version gives a section: a first-level heading with the version and
//! its date, then, where descriptions are asked for and the version has one,
//! the description and a second-level heading `Changes`, then the entries as
//! an unordered list. The sections stand in the order of the changelog.

use crate::date::date_text;
use crate::model::models;
use crate::record::{
    DatedVersionModel, DatedVersionRecord, VersionChangelog, VersionChangelogModel,
};
use crate::version::version_text;
use markdown_composer::{List, ListBuilder, Markdown};
use vstd::prelude::*;
use vstd::string::StringExecFns;

verus! {

/// A Markdown document of `markdown_composer`.
#[verifier::external_type_specification]
#[verifier::external_body]
pub struct ExMarkdown(markdown_composer::Markdown);

/// A list of `markdown_composer`.
#[verifier::external_type_specification]
#[verifier::external_body]
pub struct ExList(markdown_composer::List);

/// A list of `markdown_composer` that is still being filled.
#[verifier::external_type_specification]
#[verifier::external_body]
pub struct ExListBuilder(markdown_composer::ListBuilder);

/// The elements that a document holds, each as the text it renders to.
pub uninterp spec fn document_elements(document: Markdown) -> Seq<Seq<char>>;

/// The footers that a document holds, each as the text it renders to.
pub uninterp spec fn document_footers(document: Markdown) -> Seq<Seq<char>>;

/// The text that a list renders to.
pub uninterp spec fn list_text(list: List) -> Seq<char>;

/// The items that a list builder holds, each as the text it renders to.
pub uninterp spec fn builder_items(builder: ListBuilder) -> Seq<Seq<char>>;

/// The texts of `parts`, each followed by a line break.
pub open spec fn lines(parts: Seq<Seq<char>>) -> Seq<char>
    decreases parts.len(),
{
    if parts.len() == 0 {
        Seq::<char>::empty()
    } else {
        lines(parts.drop_last()) + parts.last() + seq!['\n']
    }
}

/// The text of an unordered list: each item on a line of its own behind a
/// dash and a space.
pub open spec fn bulleted(items: Seq<Seq<char>>) -> Seq<char>
    decreases items.len(),
{
    if items.len() == 0 {
        Seq::<char>::empty()
    } else {
        bulleted(items.drop_last()) + seq!['-', ' '] + items.last() + seq!['\n']
    }
}

/// `Markdown::new` makes a document without elements and footers.
#[verifier::external_body]
fn new_document() -> (document: Markdown)
    ensures
        document_elements(document) == Seq::<Seq<char>>::empty(),
        document_footers(document) == Seq::<Seq<char>>::empty(),
{
    Markdown::new()
}

/// `Markdown::header1` adds a header of level one, which renders to a hash,
/// a space, the text and a line break. The footers stay.
#[verifier::external_body]
fn add_header1(document: &mut Markdown, text: &str)
    ensures
        document_elements(*final(document)) == document_elements(*old(document)).push(
            seq!['#', ' '] + text@ + seq!['\n'],
        ),
        document_footers(*final(document)) == document_footers(*old(document)),
{
    document.header1(text);
}

/// `Markdown::header2` adds a header of level two, which renders to two
/// hashes, a space, the text and a line break. The footers stay.
#[verifier::external_body]
fn add_header2(document: &mut Markdown, text: &str)
    ensures
        document_elements(*final(document)) == document_elements(*old(document)).push(
            seq!['#', '#', ' '] + text@ + seq!['\n'],
        ),
        document_footers(*final(document)) == document_footers(*old(document)),
{
    document.header2(text);
}

/// `Markdown::paragraph` adds a paragraph, which renders to the text and a
/// line break. The footers stay.
#[verifier::external_body]
fn add_paragraph(document: &mut Markdown, text: &str)
    ensures
        document_elements(*final(document)) == document_elements(*old(document)).push(
            text@ + seq!['\n'],
        ),
        document_footers(*final(document)) == document_footers(*old(document)),
{
    document.paragraph(text);
}

/// `Markdown::list` adds the list as an element. The footers stay.
#[verifier::external_body]
fn add_list(document: &mut Markdown, list: List)
    ensures
        document_elements(*final(document)) == document_elements(*old(document)).push(
            list_text(list),
        ),
        document_footers(*final(document)) == document_footers(*old(document)),
{
    document.list(list);
}

/// `Markdown::render` writes the elements and then the footers, each
/// followed by a line break.
#[verifier::external_body]
fn render_document(document: &Markdown) -> (text: String)
    ensures
        text@ == lines(document_elements(*document)) + lines(document_footers(*document)),
{
    document.render()
}

/// `List::builder` makes a list builder without items.
#[verifier::external_body]
fn new_list() -> (builder: ListBuilder)
    ensures
        builder_items(builder) == Seq::<Seq<char>>::empty(),
{
    List::builder()
}

/// `ListBuilder::append` adds the item behind the others; a string as item
/// renders to itself.
#[verifier::external_body]
fn append_item(builder: ListBuilder, item: String) -> (extended: ListBuilder)
    ensures
        builder_items(extended) == builder_items(builder).push(item@),
{
    builder.append(item)
}

/// `ListBuilder::unordered` makes an unordered list of the items, which
/// renders each item behind a dash and a space on a line of its own.
#[verifier::external_body]
fn unordered_list(builder: ListBuilder) -> (list: List)
    ensures
        list_text(list) == bulleted(builder_items(builder)),
{
    builder.unordered()
}

/// The heading of a version: the word `Version`, the version, and the date
/// in round brackets.
pub open spec fn heading_text(record: DatedVersionModel) -> Seq<char> {
    "Version "@ + version_text(record.record.version) + " ("@ + date_text(record.date) + ")"@
}

/// Whether the section of `record` shows a description.
pub open spec fn shows_description(record: DatedVersionModel, add_tag_description: bool) -> bool {
    add_tag_description && record.record.description is Some
        && record.record.description.unwrap().len() > 0
}

/// The elements of the section of one version, each as the text it renders
/// to.
pub open spec fn section_elements(
    changelog: VersionChangelogModel,
    add_tag_description: bool,
) -> Seq<Seq<char>> {
    seq![seq!['#', ' '] + heading_text(changelog.record) + seq!['\n']] + (if shows_description(
        changelog.record,
        add_tag_description,
    ) {
        seq![
            changelog.record.record.description.unwrap() + seq!['\n'],
            seq!['#', '#', ' '] + "Changes"@ + seq!['\n'],
        ]
    } else {
        Seq::<Seq<char>>::empty()
    }) + seq![bulleted(changelog.entries)]
}

/// The elements of the sections of all versions, in their order.
pub open spec fn changelog_elements(
    changelog: Seq<VersionChangelogModel>,
    add_tag_description: bool,
) -> Seq<Seq<char>>
    decreases changelog.len(),
{
    if changelog.len() == 0 {
        Seq::<Seq<char>>::empty()
    } else {
        changelog_elements(changelog.drop_last(), add_tag_description) + section_elements(
            changelog.last(),
            add_tag_description,
        )
    }
}

/// The document of a changelog: its elements, each followed by a line break.
pub open spec fn changelog_text(
    changelog: Seq<VersionChangelogModel>,
    add_tag_description: bool,
) -> Seq<char> {
    lines(changelog_elements(changelog, add_tag_description))
}

/// The heading of a version.
pub fn version_heading(record: &DatedVersionRecord) -> (heading: String)
    ensures
        heading@ == heading_text(record@),
{
    let mut heading = String::from_str("Version ");
    heading.append(record.record.version.to_text().as_str());
    heading.append(" (");
    heading.append(record.date.to_text().as_str());
    heading.append(")");
    heading
}

/// The unordered list of the entries.
fn entry_list(entries: &Vec<String>) -> (list: List)
    ensures
        list_text(list) == bulleted(models(entries@)),
{
    let mut builder = new_list();
    let mut i: usize = 0;
    while i < entries.len()
        invariant
            i <= entries.len(),
            builder_items(builder) == models(entries@).take(i as int),
        decreases entries.len() - i,
    {
        builder = append_item(builder, entries[i].clone());
        i += 1;
    }
    assert(models(entries@).take(entries.len() as int) =~= models(entries@));
    unordered_list(builder)
}

/// Renders the changelog as a Markdown document.
pub fn render_changelog(
    changelog: &Vec<VersionChangelog>,
    add_tag_description: bool,
) -> (rendered: String)
    ensures
        rendered@ == changelog_text(models(changelog@), add_tag_description),
{
    let mut document = new_document();
    let mut i: usize = 0;
    while i < changelog.len()
        invariant
            i <= changelog.len(),
            document_elements(document) == changelog_elements(
                models(changelog@).take(i as int),
                add_tag_description,
            ),
            document_footers(document) == Seq::<Seq<char>>::empty(),
        decreases changelog.len() - i,
    {
        let section = &changelog[i];
        assert(models(changelog@).take(i + 1).drop_last() =~= models(changelog@).take(i as int));
        add_header1(&mut document, version_heading(&section.record).as_str());
        if add_tag_description {
            match &section.record.record.description {
                Some(description) => {
                    if !description.as_str().is_empty() {
                        add_paragraph(&mut document, description.as_str());
                        add_header2(&mut document, "Changes");
                    }
                },
                None => {},
            }
        }
        add_list(&mut document, entry_list(&section.entries));
        i += 1;
    }
    assert(models(changelog@).take(changelog.len() as int) =~= models(changelog@));
    render_document(&document)
}

} // verus!

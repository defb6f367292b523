use git_changes::error::ChangelogError;
use git_changes::extractor::{generate_changelog, CommitRange};
use git_changes::message::{
    collect_entries, default_commit_pattern, default_commit_replacement,
    generate_version_changelog, process_commit_message, validate_commit_pattern,
};
use git_changes::record::{CalendarDate, CommitId, DatedVersionRecord, VersionPair, VersionRecord};
use git_changes::version::Version;

fn transform(summary: &str) -> Option<String> {
    process_commit_message(summary, default_commit_pattern(), default_commit_replacement()).unwrap()
}

fn summaries(texts: &[&str]) -> Vec<Option<String>> {
    texts.iter().map(|text| Some(text.to_string())).collect()
}

fn dated(version: &str, commit: &str) -> DatedVersionRecord {
    DatedVersionRecord {
        record: VersionRecord {
            version: Version::parse(version).unwrap(),
            description: None,
            commit: CommitId { name: commit.to_string() },
        },
        date: CalendarDate { year: 2021, month: 1, day: 1 },
    }
}

#[test]
fn summary_with_issue_becomes_entry() {
    assert_eq!(transform("Fix bug (issue #42)"), Some("Fix bug (issue #42)".to_string()));
}

#[test]
fn summary_without_issue_gives_no_entry() {
    assert_eq!(transform("Random commit"), None);
    assert_eq!(transform(""), None);
    assert_eq!(transform("Fix bug (issue 42)"), None);
    assert_eq!(transform("(issue #42)"), None);
}

#[test]
fn entry_is_the_template_over_the_match_only() {
    assert_eq!(
        transform("Merge: Fix bug (issue   #7) and more (issue #8) still"),
        Some("Merge: Fix bug (issue   #7) and more (issue #8)".to_string())
    );
}

#[test]
fn pattern_and_replacement_are_the_callers() {
    assert_eq!(
        process_commit_message("Add parser [GH-12]", r"(.+) \[GH-(\d+)\]", "$2: $1"),
        Ok(Some("12: Add parser".to_string()))
    );
    assert_eq!(
        process_commit_message(
            "Fix bug (issue #42)",
            default_commit_pattern(),
            "${1} (issue ${2})"
        ),
        Ok(Some("Fix bug (issue 42)".to_string()))
    );
    assert_eq!(
        process_commit_message("feat: shiny", r"^(?P<kind>\w+): (?P<what>.+)$", "$what [$kind] $$"),
        Ok(Some("shiny [feat] $".to_string()))
    );
    assert_eq!(process_commit_message("abc", "b", "${9}x"), Ok(Some("x".to_string())));
    assert_eq!(process_commit_message("abc", "", "-"), Ok(Some("-".to_string())));
    assert_eq!(process_commit_message("abc", "d", "-"), Ok(None));
}

#[test]
fn default_pattern_and_replacement() {
    assert_eq!(default_commit_pattern(), r"(.+)\s+\(issue\s+#(\d+)\)");
    assert_eq!(default_commit_replacement(), "${1} (issue #${2})");
    assert_eq!(validate_commit_pattern(default_commit_pattern()), Ok(()));
}

#[test]
fn pattern_that_does_not_compile_is_refused() {
    assert_eq!(validate_commit_pattern("foo(bar"), Err(ChangelogError::InvalidPattern));
    assert_eq!(validate_commit_pattern(r"\w{1000}"), Err(ChangelogError::InvalidPattern));
    assert_eq!(validate_commit_pattern(r"(?-u:\w){1000}"), Ok(()));
    assert_eq!(validate_commit_pattern(""), Ok(()));
}

#[test]
fn pattern_that_does_not_compile_fails_every_step() {
    assert_eq!(
        process_commit_message("foo(bar", "foo(bar", "$0"),
        Err(ChangelogError::InvalidPattern)
    );
    assert_eq!(
        generate_version_changelog(&summaries(&["foo(bar"]), "foo(bar", "$0"),
        Err(ChangelogError::InvalidPattern)
    );
    assert_eq!(
        generate_version_changelog(&Vec::new(), "foo(bar", "$0"),
        Err(ChangelogError::InvalidPattern)
    );
    assert_eq!(
        generate_changelog(Vec::new(), "foo(bar", "$0").unwrap_err(),
        ChangelogError::InvalidPattern
    );
}

#[test]
fn present_entries_are_kept_in_order() {
    let outcomes = vec![
        Some("first".to_string()),
        None,
        Some("second".to_string()),
        None,
        None,
        Some("third".to_string()),
    ];
    assert_eq!(collect_entries(outcomes), ["first", "second", "third"]);
    assert!(collect_entries(vec![None, None]).is_empty());
    assert!(collect_entries(Vec::new()).is_empty());
}

#[test]
fn summaries_between_two_versions() {
    let walk = summaries(&["Add feature (issue #1)", "typo fix", "Refactor (issue #2)"]);
    let entries =
        generate_version_changelog(&walk, default_commit_pattern(), default_commit_replacement())
            .unwrap();
    assert_eq!(entries, ["Add feature (issue #1)", "Refactor (issue #2)"]);
}

#[test]
fn commit_without_summary_gives_no_entry() {
    let walk = vec![None, Some("Fix (issue #3)".to_string()), None];
    let entries =
        generate_version_changelog(&walk, default_commit_pattern(), default_commit_replacement())
            .unwrap();
    assert_eq!(entries, ["Fix (issue #3)"]);
}

#[test]
fn empty_range_gives_no_entries() {
    let entries = generate_version_changelog(
        &Vec::new(),
        default_commit_pattern(),
        default_commit_replacement(),
    );
    assert_eq!(entries, Ok(Vec::new()));
}

#[test]
fn range_names_previous_then_current_commit() {
    let pair = VersionPair {
        current: dated("1.1.0", "bbbb2222"),
        previous: dated("1.0.0", "aaaa1111"),
    };
    assert_eq!(pair.range(), "aaaa1111..bbbb2222");
    let same = VersionPair { current: dated("1.1.0", "cafe"), previous: dated("1.0.0", "cafe") };
    assert_eq!(same.range(), "cafe..cafe");
}

#[test]
fn changelog_has_a_section_for_each_pair() {
    let ranges = vec![
        CommitRange {
            pair: VersionPair {
                current: dated("1.1.0", "c3"),
                previous: dated("1.0.0", "c2"),
            },
            summaries: summaries(&["Add feature (issue #1)", "typo fix", "Refactor (issue #2)"]),
        },
        CommitRange {
            pair: VersionPair {
                current: dated("1.0.0", "c2"),
                previous: dated("0.0.0", "c1"),
            },
            summaries: Vec::new(),
        },
    ];
    let changelog =
        generate_changelog(ranges, default_commit_pattern(), default_commit_replacement())
            .unwrap();
    assert_eq!(changelog.len(), 2);
    assert_eq!(changelog[0].record.record.version.to_text(), "1.1.0");
    assert_eq!(changelog[0].record.record.commit.name, "c3");
    assert_eq!(changelog[0].entries, ["Add feature (issue #1)", "Refactor (issue #2)"]);
    assert_eq!(changelog[1].record.record.version.to_text(), "1.0.0");
    assert!(changelog[1].entries.is_empty());
    assert!(generate_changelog(Vec::new(), "x", "y").unwrap().is_empty());
}

use git_changes::date::{find_version_dates, TimedVersionRecord};
use git_changes::extractor::{generate_changelog, CommitRange};
use git_changes::message::{default_commit_pattern, default_commit_replacement};
use git_changes::record::CommitId;
use git_changes::render::render_changelog;
use git_changes::sequencer::sequence_versions;
use git_changes::source::{find_all_versions, find_head, TagReference};
use git_changes::version::Version;

fn commit(name: &str) -> CommitId {
    CommitId { name: name.to_string() }
}

fn tag(name: &str, target: &str, message: Option<&str>) -> TagReference {
    TagReference {
        name: name.as_bytes().to_vec(),
        target: commit(target),
        message: message.map(|text| text.to_string()),
    }
}

fn seconds_of(commit: &str) -> i64 {
    match commit {
        "c0" => 1_577_836_800,
        "c1" => 1_580_515_200,
        "c2" => 1_583_020_800,
        "c3" => 1_585_699_200,
        _ => 1_588_291_200,
    }
}

fn summaries_of(range: &str) -> Vec<Option<String>> {
    let texts: &[&str] = match range {
        "c2..c3" => &["Break things (issue #9)"],
        "c1..c2" => &["Add feature (issue #1)", "typo fix", "Refactor (issue #2)"],
        "c0..c1" => &["Initial import"],
        "c3..c4" => &["Polish (issue #10)", "Work in progress"],
        _ => &[],
    };
    texts.iter().map(|text| Some(text.to_string())).collect()
}

fn run(
    head: Option<(&str, Option<&str>)>,
    selected: Option<Vec<&str>>,
    only_last: bool,
    add_tag_description: bool,
) -> String {
    let tags = vec![
        tag("refs/tags/1.0.0", "c1", None),
        tag("refs/tags/2.0.0-rc.1", "c3", None),
        tag(
            "refs/tags/1.1.0",
            "c2",
            Some(
                "Second release.\n-----BEGIN PGP SIGNATURE-----\nabc\n-----END PGP SIGNATURE-----",
            ),
        ),
        tag("refs/tags/not-a-version", "c3", None),
    ];
    let ancestry = vec![commit("c4"), commit("c3"), commit("c2"), commit("c1"), commit("c0")];
    let head = match head {
        Some((version, description)) => find_head(
            commit("c4"),
            Some(Version::parse(version).unwrap()),
            description.map(|text| text.to_string()),
        ),
        None => find_head(commit("c4"), None, None),
    };
    let versions = find_all_versions(&tags, &ancestry, head, true).unwrap();
    let timed = versions
        .into_iter()
        .map(|record| {
            let seconds = seconds_of(&record.commit.name);
            TimedVersionRecord { record, seconds }
        })
        .collect();
    let dated = find_version_dates(timed).unwrap();
    let selected = selected
        .map(|versions| versions.iter().map(|text| Version::parse(text).unwrap()).collect());
    let pairs = sequence_versions(dated, &selected, only_last);
    let ranges = pairs
        .into_iter()
        .map(|pair| {
            let summaries = summaries_of(&pair.range());
            CommitRange { pair, summaries }
        })
        .collect();
    let changelog =
        generate_changelog(ranges, default_commit_pattern(), default_commit_replacement())
            .unwrap();
    render_changelog(&changelog, add_tag_description)
}

#[test]
fn changelog_of_a_repository() {
    assert_eq!(
        run(None, None, false, false),
        "# Version 2.0.0-rc.1 (2020-04-01)\n\n- Break things (issue #9)\n\n\
         # Version 1.1.0 (2020-03-01)\n\n- Add feature (issue #1)\n- Refactor (issue #2)\n\n\
         # Version 1.0.0 (2020-02-01)\n\n\n"
    );
}

#[test]
fn changelog_with_descriptions() {
    assert_eq!(
        run(None, None, false, true),
        "# Version 2.0.0-rc.1 (2020-04-01)\n\n- Break things (issue #9)\n\n\
         # Version 1.1.0 (2020-03-01)\n\nSecond release.\n\n\n## Changes\n\n\
         - Add feature (issue #1)\n- Refactor (issue #2)\n\n\
         # Version 1.0.0 (2020-02-01)\n\n\n"
    );
}

#[test]
fn changelog_of_the_last_version_only() {
    assert_eq!(
        run(None, None, true, false),
        "# Version 2.0.0-rc.1 (2020-04-01)\n\n- Break things (issue #9)\n\n"
    );
}

#[test]
fn changelog_of_selected_versions() {
    assert_eq!(
        run(None, Some(vec!["1.1.0"]), false, false),
        "# Version 1.1.0 (2020-03-01)\n\n- Add feature (issue #1)\n- Refactor (issue #2)\n\n"
    );
    assert_eq!(run(None, Some(vec!["0.0.0"]), false, false), "");
}

#[test]
fn changelog_with_the_head_as_a_version() {
    assert_eq!(
        run(Some(("2.0.0", Some("Upcoming."))), None, true, true),
        "# Version 2.0.0 (2020-05-01)\n\nUpcoming.\n\n## Changes\n\n- Polish (issue #10)\n\n"
    );
}

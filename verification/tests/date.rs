use git_changes::date::{dated_record, find_version_dates, TimedVersionRecord};
use git_changes::error::ChangelogError;
use git_changes::record::{CalendarDate, CommitId, VersionRecord};
use git_changes::version::Version;

fn record(version: &str) -> VersionRecord {
    VersionRecord {
        version: Version::parse(version).unwrap(),
        description: Some("notes".to_string()),
        commit: CommitId { name: format!("commit-of-{}", version) },
    }
}

fn timed(version: &str, seconds: i64) -> TimedVersionRecord {
    TimedVersionRecord { record: record(version), seconds }
}

fn date(year: i32, month: u32, day: u32) -> CalendarDate {
    CalendarDate { year, month, day }
}

fn date_of(seconds: i64) -> CalendarDate {
    find_version_dates(vec![timed("1.0.0", seconds)]).unwrap()[0].date
}

#[test]
fn date_of_known_instants() {
    assert_eq!(date_of(0), date(1970, 1, 1));
    assert_eq!(date_of(86_399), date(1970, 1, 1));
    assert_eq!(date_of(86_400), date(1970, 1, 2));
    assert_eq!(date_of(-1), date(1969, 12, 31));
    assert_eq!(date_of(1_431_648_000), date(2015, 5, 15));
    assert_eq!(date_of(951_782_400), date(2000, 2, 29));
    assert_eq!(date_of(1_615_075_200), date(2021, 3, 7));
    assert_eq!(date_of(253_402_300_800), date(10000, 1, 1));
    assert_eq!(date_of(-62_198_755_200), date(-1, 1, 1));
}

#[test]
fn records_keep_their_order_and_content() {
    let dated =
        find_version_dates(vec![timed("1.1.0", 1_615_075_200), timed("1.0.0", 0)]).unwrap();
    assert_eq!(dated.len(), 2);
    assert_eq!(dated[0].record.version.to_text(), "1.1.0");
    assert_eq!(dated[0].record.commit.name, "commit-of-1.1.0");
    assert_eq!(dated[0].record.description, Some("notes".to_string()));
    assert_eq!(dated[0].date, date(2021, 3, 7));
    assert_eq!(dated[1].record.version.to_text(), "1.0.0");
    assert_eq!(dated[1].date, date(1970, 1, 1));
    assert!(find_version_dates(Vec::new()).unwrap().is_empty());
}

#[test]
fn instant_outside_the_calendar_fails() {
    for seconds in [i64::MAX, i64::MIN, 9_000_000_000_000_000] {
        assert_eq!(
            find_version_dates(vec![timed("1.0.0", 0), timed("0.0.0", seconds)]).unwrap_err(),
            ChangelogError::TimestampOutOfRange
        );
    }
}

#[test]
fn record_with_and_without_a_date() {
    let dated = dated_record(record("1.0.0"), Some(date(2021, 3, 7))).unwrap();
    assert_eq!(dated.date, date(2021, 3, 7));
    assert_eq!(dated.record.version.to_text(), "1.0.0");
    assert_eq!(
        dated_record(record("1.0.0"), None).unwrap_err(),
        ChangelogError::TimestampOutOfRange
    );
}

#[test]
fn date_text_has_four_two_and_two_digits() {
    assert_eq!(date(2021, 3, 7).to_text(), "2021-03-07");
    assert_eq!(date(1970, 1, 1).to_text(), "1970-01-01");
    assert_eq!(date(2015, 12, 31).to_text(), "2015-12-31");
    assert_eq!(date(0, 1, 1).to_text(), "0000-01-01");
    assert_eq!(date(33, 4, 3).to_text(), "0033-04-03");
    assert_eq!(date(9999, 12, 31).to_text(), "9999-12-31");
}

#[test]
fn years_beyond_four_digits_carry_a_sign() {
    assert_eq!(date(10000, 1, 1).to_text(), "+10000-01-01");
    assert_eq!(date(262142, 12, 31).to_text(), "+262142-12-31");
    assert_eq!(date(-1, 1, 1).to_text(), "-0001-01-01");
    assert_eq!(date(-12345, 6, 7).to_text(), "-12345-06-07");
    assert_eq!(date(i32::MIN, 1, 1).to_text(), "-2147483648-01-01");
}

#[test]
fn date_text_agrees_with_chrono() {
    for (year, month, day) in [
        (2021, 3, 7),
        (1970, 1, 1),
        (0, 1, 1),
        (-1, 12, 31),
        (-262143, 1, 1),
        (9999, 12, 31),
        (10000, 1, 1),
        (262142, 12, 31),
        (2000, 2, 29),
    ] {
        let theirs = chrono::NaiveDate::from_ymd_opt(year, month, day).unwrap().to_string();
        assert_eq!(date(year, month, day).to_text(), theirs);
    }
}

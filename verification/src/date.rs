//! The calendar date of a version.

use crate::decimal::{padded_decimal_text, push_padded_decimal};
use crate::error::ChangelogError;
use crate::model::models;
use crate::record::{
    CalendarDate, DatedVersionModel, DatedVersionRecord, VersionRecord, VersionRecordModel,
};
use vstd::prelude::*;

verus! {

/// The day on which the instant `seconds` after the start of 1970 falls in
/// universal time, as `chrono` tells it, or nothing where the instant lies
/// outside the range of `chrono`.
pub uninterp spec fn utc_date(seconds: int) -> Option<CalendarDate>;

/// Asks `chrono::DateTime::from_timestamp` for the instant `seconds` after
/// the start of 1970 and takes the year, month and day of its date in
/// universal time from `date_naive`. The contract only names the outcome:
/// `utc_date` of the seconds.
#[verifier::external_body]
fn date_of_timestamp(seconds: i64) -> (r: Option<CalendarDate>)
    ensures
        r == utc_date(seconds as int),
{
    match chrono::DateTime::from_timestamp(seconds, 0) {
        Some(instant) => {
            let date = instant.date_naive();
            Some(
                CalendarDate {
                    year: chrono::Datelike::year(&date),
                    month: chrono::Datelike::month(&date),
                    day: chrono::Datelike::day(&date),
                },
            )
        },
        None => None,
    }
}

/// A year as text: four digits for the years 0 to 9999, and a sign before at
/// least four digits for every other year.
pub open spec fn year_text(year: int) -> Seq<char> {
    if 0 <= year <= 9999 {
        padded_decimal_text(year as nat, 4)
    } else if year > 9999 {
        seq!['+'] + padded_decimal_text(year as nat, 4)
    } else {
        seq!['-'] + padded_decimal_text((-year) as nat, 4)
    }
}

/// A date as text: year, month and day with hyphens between, month and day
/// in two digits.
pub open spec fn date_text(date: CalendarDate) -> Seq<char> {
    year_text(date.year as int) + seq!['-'] + padded_decimal_text(date.month as nat, 2) + seq![
        '-',
    ] + padded_decimal_text(date.day as nat, 2)
}

impl CalendarDate {
    /// The date as text, such as `2021-03-07`.
    pub fn to_text(&self) -> (text: String)
        ensures
            text@ == date_text(*self),
    {
        let mut text = String::new();
        let year: i64 = self.year as i64;
        if year < 0 {
            text.push('-');
            push_padded_decimal(&mut text, (-year) as u64, 4);
        } else {
            if year > 9999 {
                text.push('+');
            }
            push_padded_decimal(&mut text, year as u64, 4);
        }
        text.push('-');
        push_padded_decimal(&mut text, self.month as u64, 2);
        text.push('-');
        push_padded_decimal(&mut text, self.day as u64, 2);
        text
    }
}

/// What a timed version record is.
pub struct TimedVersionModel {
    pub record: VersionRecordModel,
    pub seconds: int,
}

/// A version record and the time of its commit, in seconds since the start
/// of 1970.
#[derive(Debug)]
pub struct TimedVersionRecord {
    pub record: VersionRecord,
    pub seconds: i64,
}

impl View for TimedVersionRecord {
    type V = TimedVersionModel;

    open spec fn view(&self) -> TimedVersionModel {
        TimedVersionModel { record: self.record@, seconds: self.seconds as int }
    }
}

/// The record `record` with the date `date`, where there is a date.
pub fn dated_record(
    record: VersionRecord,
    date: Option<CalendarDate>,
) -> (r: Result<DatedVersionRecord, ChangelogError>)
    ensures
        match r {
            Ok(dated) => date == Some(dated.date) && dated.record == record,
            Err(e) => date is None && e == ChangelogError::TimestampOutOfRange,
        },
{
    match date {
        Some(date) => Ok(DatedVersionRecord { record, date }),
        None => Err(ChangelogError::TimestampOutOfRange),
    }
}

/// Whether every commit time of `versions` falls on a date.
pub open spec fn all_dated(versions: Seq<TimedVersionModel>) -> bool {
    forall|i: int| 0 <= i < versions.len() ==> utc_date((#[trigger] versions[i]).seconds) is Some
}

/// The records of `versions`, each with the date of its commit time.
pub open spec fn dated(versions: Seq<TimedVersionModel>) -> Seq<DatedVersionModel> {
    Seq::new(
        versions.len(),
        |i: int|
            DatedVersionModel {
                record: versions[i].record,
                date: utc_date(versions[i].seconds).unwrap(),
            },
    )
}

/// Gives each version the date of its commit time, in universal time. Fails
/// where a commit time falls on no date.
pub fn find_version_dates(
    versions: Vec<TimedVersionRecord>,
) -> (r: Result<Vec<DatedVersionRecord>, ChangelogError>)
    ensures
        match r {
            Ok(records) => all_dated(models(versions@)) && models(records@) == dated(
                models(versions@),
            ),
            Err(e) => !all_dated(models(versions@)) && e == ChangelogError::TimestampOutOfRange,
        },
{
    let mut records: Vec<DatedVersionRecord> = Vec::new();
    for version in it: versions
        invariant
            it.seq() == versions@,
            records.len() == it.index(),
            forall|k: int|
                0 <= k < it.index() ==> utc_date((#[trigger] models(versions@)[k]).seconds)
                    is Some,
            forall|k: int|
                0 <= k < it.index() ==> (#[trigger] records@[k])@ == (DatedVersionModel {
                    record: versions@[k].record@,
                    date: utc_date(versions@[k].seconds as int).unwrap(),
                }),
    {
        assert(models(versions@)[it.index() as int].seconds == version.seconds);
        let date = date_of_timestamp(version.seconds);
        match dated_record(version.record, date) {
            Ok(record) => {
                records.push(record);
            },
            Err(e) => {
                return Err(e);
            },
        }
    }
    Ok(records)
}

} // verus!

//! Publication-date gating over whole days, with a margin of eight days
//! for a first episode released early.

use vstd::prelude::*;

verus! {

/// Day number of the date part of an RFC 2822 timestamp, `None` when the
/// string does not parse.
pub uninterp spec fn rfc2822_day(s: Seq<char>) -> Option<int>;

/// Day number, year and month of a `YYYY-MM-DD` date string, `None` when
/// the string does not parse.
pub uninterp spec fn iso_date(s: Seq<char>) -> Option<(int, int, int)>;

/// A parsed calendar date: its day number and its year and month.
#[derive(Clone, Copy, Debug)]
pub struct ParsedDate {
    pub days: i64,
    pub year: i64,
    pub month: i64,
}

/// Relies on chrono's `DateTime::parse_from_rfc2822` and
/// `Datelike::num_days_from_ce`: parses an RFC 2822 timestamp and returns
/// the day number of its date part. chrono dates span roughly
/// ±262,000 years, so the day number stays far below 10^8.
#[verifier::external_body]
pub fn parse_rfc2822_day(s: &str) -> (r: Option<i64>)
    ensures
        match r {
            Some(d) => rfc2822_day(s@) == Some(d as int) && -100_000_000 < d < 100_000_000,
            None => rfc2822_day(s@) is None,
        },
{
    match chrono::DateTime::parse_from_rfc2822(s) {
        Ok(t) => Some(chrono::Datelike::num_days_from_ce(&t.date_naive()) as i64),
        Err(_) => None,
    }
}

/// Relies on chrono's `NaiveDate::parse_from_str` with format `%Y-%m-%d`
/// and the `Datelike` accessors `num_days_from_ce`, `year` and `month`.
/// chrono dates span roughly ±262,000 years, so the day number stays far
/// below 10^8; the month is between 1 and 12.
#[verifier::external_body]
pub fn parse_iso_date(s: &str) -> (r: Option<ParsedDate>)
    ensures
        match r {
            Some(d) => iso_date(s@) == Some((d.days as int, d.year as int, d.month as int))
                && -100_000_000 < d.days < 100_000_000 && 1 <= d.month <= 12,
            None => iso_date(s@) is None,
        },
{
    match chrono::NaiveDate::parse_from_str(s, "%Y-%m-%d") {
        Ok(d) => Some(
            ParsedDate {
                days: chrono::Datelike::num_days_from_ce(&d) as i64,
                year: chrono::Datelike::year(&d) as i64,
                month: chrono::Datelike::month(&d) as i64,
            },
        ),
        Err(_) => None,
    }
}

/// The publication-date gate: an item is held back only when both dates
/// parse and the publication day plus eight days still lies before the
/// season start. The slack admits a first episode released early.
pub open spec fn spec_date_gate(pub_date: Option<Seq<char>>, air_date: Seq<char>) -> bool {
    match pub_date {
        None => true,
        Some(p) => match (rfc2822_day(p), iso_date(air_date)) {
            (Some(d), Some(a)) => d + 8 >= a.0,
            _ => true,
        },
    }
}

/// Decides the date gate for an item against a season start date.
pub fn date_gate_passes(pub_date: &Option<String>, air_date: &str) -> (b: bool)
    ensures
        b == spec_date_gate(pub_date.deep_view(), air_date@),
{
    match pub_date {
        None => true,
        Some(p) => match parse_rfc2822_day(p.as_str()) {
            None => true,
            Some(d) => match parse_iso_date(air_date) {
                None => true,
                Some(a) => d + 8 >= a.days,
            },
        },
    }
}

} // verus!

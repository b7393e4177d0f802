//! The important dates of the scholarship season, as the administrators
//! publish them.
use vstd::prelude::*;
use crate::service::{fresh_id, is_hyphenated_uuid};
use crate::text::owned;

verus! {

broadcast use vstd::string::group_string_axioms;

/// When something happens: on one moment, or from one moment to another. Each
/// moment is written in RFC 3339.
pub enum DateSpan {
    Single(String),
    Range(String, String),
}

/// An important date, with a fresh identifier.
pub struct ImportantDate {
    pub id: String,
    pub title: String,
    pub date: DateSpan,
    pub description: String,
}

/// `d` is the date titled `title`, spanning `start` to `end` (or the single
/// moment `start` when `end` is `None`), described by `description`, with a
/// fresh identifier.
pub open spec fn is_date(
    d: ImportantDate,
    title: Seq<char>,
    start: Seq<char>,
    end: Option<Seq<char>>,
    description: Seq<char>,
) -> bool {
    &&& is_hyphenated_uuid(d.id@)
    &&& d.title@ == title
    &&& d.description@ == description
    &&& match (d.date, end) {
        (DateSpan::Single(s), None) => s@ == start,
        (DateSpan::Range(s, e), Some(x)) => s@ == start && e@ == x,
        _ => false,
    }
}

/// The season's dates, in order: each title, start, end and description.
pub open spec fn season() -> Seq<(Seq<char>, Seq<char>, Option<Seq<char>>, Seq<char>)> {
    seq![
        ("Provider Forms Open"@, "2026-01-20T07:15:00-05:00"@, Some("2026-03-03T23:59:00-05:00"@), ""@),
        ("Student Forms Open"@, "2026-03-03T07:15:00-05:00"@, Some("2026-03-27T14:05:00-05:00"@), ""@),
        (
            "Scholarship Decision Window"@,
            "2026-04-10T07:15:00-05:00"@,
            Some("2026-05-01T23:59:00-05:00"@),
            "Start date may change if available sooner."@,
        ),
        ("PHS Scholarship Committee"@, "2026-05-18T00:00:00-05:00"@, None, "Time TBD"@),
        ("Scholarship and Awards Night"@, "2026-06-09T00:00:00-05:00"@, None, "Time TBD"@),
    ]
}

fn range_date(title: &str, start: &str, end: &str, description: &str) -> (r: ImportantDate)
    ensures
        is_date(r, title@, start@, Some(end@), description@),
{
    ImportantDate {
        id: fresh_id(),
        title: owned(title),
        date: DateSpan::Range(owned(start), owned(end)),
        description: owned(description),
    }
}

fn single_date(title: &str, moment: &str, description: &str) -> (r: ImportantDate)
    ensures
        is_date(r, title@, moment@, None, description@),
{
    ImportantDate {
        id: fresh_id(),
        title: owned(title),
        date: DateSpan::Single(owned(moment)),
        description: owned(description),
    }
}

/// The season's important dates, each with a fresh identifier.
pub fn get_important_dates() -> (r: Vec<ImportantDate>)
    ensures
        r@.len() == season().len(),
        forall|i: int|
            0 <= i < r@.len() ==> is_date(
                #[trigger] r@[i],
                season()[i].0,
                season()[i].1,
                season()[i].2,
                season()[i].3,
            ),
{
    let mut v: Vec<ImportantDate> = Vec::new();
    v.push(range_date("Provider Forms Open", "2026-01-20T07:15:00-05:00", "2026-03-03T23:59:00-05:00", ""));
    v.push(range_date("Student Forms Open", "2026-03-03T07:15:00-05:00", "2026-03-27T14:05:00-05:00", ""));
    v.push(
        range_date(
            "Scholarship Decision Window",
            "2026-04-10T07:15:00-05:00",
            "2026-05-01T23:59:00-05:00",
            "Start date may change if available sooner.",
        ),
    );
    v.push(single_date("PHS Scholarship Committee", "2026-05-18T00:00:00-05:00", "Time TBD"));
    v.push(single_date("Scholarship and Awards Night", "2026-06-09T00:00:00-05:00", "Time TBD"));
    v
}

/// The moment that an RFC 3339 text denotes, as seconds since the Unix epoch
/// and the offset from UTC in seconds; `None` when the text is not RFC 3339.
pub uninterp spec fn rfc3339_moment(text: Seq<char>) -> Option<(i64, i32)>;

/// Reads an RFC 3339 moment (`DateTime::parse_from_rfc3339`, then its
/// `timestamp` and its offset's `local_minus_utc`): the result is
/// `rfc3339_moment` of the text.
#[verifier::external_body]
fn parse_rfc3339(text: &str) -> (r: Option<(i64, i32)>)
    ensures
        r == rfc3339_moment(text@),
{
    match chrono::DateTime::parse_from_rfc3339(text) {
        Ok(d) => Some((d.timestamp(), d.offset().local_minus_utc())),
        Err(_) => None,
    }
}

/// The moments of a date span: each as seconds since the Unix epoch with its
/// offset from UTC in seconds.
pub enum MomentSpan {
    Single((i64, i32)),
    Range((i64, i32), (i64, i32)),
}

/// The moments of a span, `None` when one of its texts is not RFC 3339.
pub fn span_moments(span: &DateSpan) -> (r: Option<MomentSpan>)
    ensures
        match span {
            DateSpan::Single(s) => match rfc3339_moment(s@) {
                Some(m) => r == Some(MomentSpan::Single(m)),
                None => r is None,
            },
            DateSpan::Range(s, e) => match (rfc3339_moment(s@), rfc3339_moment(e@)) {
                (Some(a), Some(b)) => r == Some(MomentSpan::Range(a, b)),
                _ => r is None,
            },
        },
{
    match span {
        DateSpan::Single(s) => match parse_rfc3339(s.as_str()) {
            Some(m) => Some(MomentSpan::Single(m)),
            None => None,
        },
        DateSpan::Range(s, e) => match (parse_rfc3339(s.as_str()), parse_rfc3339(e.as_str())) {
            (Some(a), Some(b)) => Some(MomentSpan::Range(a, b)),
            _ => None,
        },
    }
}

} // verus!

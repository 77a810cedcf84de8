//! Calendar dates and timestamps as plain numbers, ordered as the calendar
//! orders them, and the inclusive date ranges that the history queries take.

use crate::error::ServiceError;
use vstd::prelude::*;

verus! {

/// A calendar date.
#[derive(Clone, Copy, Debug, PartialEq, Eq, Structural)]
pub struct Date {
    pub year: i32,
    pub month: u32,
    pub day: u32,
}

/// A timestamp with a resolution of one second, without a time zone.
#[derive(Clone, Copy, Debug, PartialEq, Eq, Structural)]
pub struct DateTime {
    pub date: Date,
    pub hour: u32,
    pub minute: u32,
    pub second: u32,
}

impl Date {
    /// The month and the day lie in the ranges of a calendar.
    pub open spec fn wf(self) -> bool {
        &&& 1 <= self.month <= 12
        &&& 1 <= self.day <= 31
    }

    /// `self` is an earlier day than `other`.
    pub open spec fn is_before(self, other: Date) -> bool {
        ||| self.year < other.year
        ||| self.year == other.year && self.month < other.month
        ||| self.year == other.year && self.month == other.month && self.day < other.day
    }

    /// `self` is the same day as `other` or an earlier one.
    pub open spec fn not_after(self, other: Date) -> bool {
        self == other || self.is_before(other)
    }

    pub fn new(year: i32, month: u32, day: u32) -> (d: Date)
        ensures
            d == (Date { year, month, day }),
    {
        Date { year, month, day }
    }

    pub fn precedes(&self, other: &Date) -> (b: bool)
        ensures
            b == self.is_before(*other),
    {
        self.year < other.year || (self.year == other.year && (self.month < other.month || (
        self.month == other.month && self.day < other.day)))
    }

    pub fn at_most(&self, other: &Date) -> (b: bool)
        ensures
            b == self.not_after(*other),
    {
        !other.precedes(self)
    }
}

impl DateTime {
    /// The date and the time of day lie in the ranges of a calendar and a clock.
    pub open spec fn wf(self) -> bool {
        &&& self.date.wf()
        &&& self.hour < 24
        &&& self.minute < 60
        &&& self.second < 60
    }

    /// `self` is an earlier moment than `other`.
    pub open spec fn is_before(self, other: DateTime) -> bool {
        ||| self.date.is_before(other.date)
        ||| self.date == other.date && self.hour < other.hour
        ||| self.date == other.date && self.hour == other.hour && self.minute < other.minute
        ||| self.date == other.date && self.hour == other.hour && self.minute == other.minute
            && self.second < other.second
    }

    /// `self` is the same moment as `other` or an earlier one.
    pub open spec fn not_after(self, other: DateTime) -> bool {
        self == other || self.is_before(other)
    }

    pub fn new(year: i32, month: u32, day: u32, hour: u32, minute: u32, second: u32) -> (t:
        DateTime)
        ensures
            t == (DateTime { date: Date { year, month, day }, hour, minute, second }),
    {
        DateTime { date: Date { year, month, day }, hour, minute, second }
    }

    pub fn precedes(&self, other: &DateTime) -> (b: bool)
        ensures
            b == self.is_before(*other),
    {
        if self.date.precedes(&other.date) {
            true
        } else if other.date.precedes(&self.date) {
            false
        } else {
            self.hour < other.hour || (self.hour == other.hour && (self.minute < other.minute || (
            self.minute == other.minute && self.second < other.second)))
        }
    }
}

/// The order of timestamps is total.
pub proof fn lemma_moment_order_total(a: DateTime, b: DateTime)
    ensures
        a.is_before(b) || b.is_before(a) || a == b,
        !(a.is_before(b) && b.is_before(a)),
        !a.is_before(a),
{
}

/// The order of timestamps is transitive.
pub proof fn lemma_moment_order_transitive(a: DateTime, b: DateTime, c: DateTime)
    requires
        a.not_after(b),
        b.not_after(c),
    ensures
        a.not_after(c),
{
}

/// A range of days, both ends included.
#[derive(Clone, Copy, Debug, PartialEq, Eq, Structural)]
pub struct RangeParams {
    pub start_date: Date,
    pub end_date: Date,
}

impl RangeParams {
    /// The day lies between the two ends, which both belong to the range.
    pub open spec fn covers(self, day: Date) -> bool {
        self.start_date.not_after(day) && day.not_after(self.end_date)
    }

    /// The moment falls on a day of the range, at whatever time of that day.
    pub open spec fn covers_moment(self, moment: DateTime) -> bool {
        self.covers(moment.date)
    }

    pub fn new(start_date: Date, end_date: Date) -> (r: RangeParams)
        ensures
            r == (RangeParams { start_date, end_date }),
    {
        RangeParams { start_date, end_date }
    }

    /// The range that holds one day only.
    pub fn single(day: Date) -> (r: RangeParams)
        ensures
            r == (RangeParams { start_date: day, end_date: day }),
            forall|d: Date| r.covers(d) <==> d == day,
    {
        RangeParams { start_date: day, end_date: day }
    }

    pub fn contains(&self, day: &Date) -> (b: bool)
        ensures
            b == self.covers(*day),
    {
        self.start_date.at_most(day) && day.at_most(&self.end_date)
    }

    /// Whether the moment falls on a day of the range. The time of day plays
    /// no part: the last second of the last day is inside, the first second of
    /// the next day is outside.
    pub fn contains_moment(&self, moment: &DateTime) -> (b: bool)
        ensures
            b == self.covers_moment(*moment),
    {
        self.contains(&moment.date)
    }

    /// Reads the two ends of a range, each written as year, month and day
    /// with hyphens between them.
    pub fn parse(start: &str, end: &str) -> (r: Result<RangeParams, ServiceError>)
        ensures
            r == range_of_parsed(parsed_date(start@, date_format()), parsed_date(end@, date_format())),
    {
        let first = parse_date(start);
        let last = parse_date(end);
        range_from_ends(first, last)
    }
}

/// The range whose ends are the two dates, once both have been read.
pub fn range_from_ends(first: Result<Date, ServiceError>, last: Result<Date, ServiceError>) -> (r:
    Result<RangeParams, ServiceError>)
    ensures
        first is Ok && last is Ok ==> r == Ok::<RangeParams, ServiceError>(
            RangeParams { start_date: first->Ok_0, end_date: last->Ok_0 },
        ),
        first is Err || last is Err ==> r == Err::<RangeParams, ServiceError>(
            ServiceError::Validation,
        ),
{
    match (first, last) {
        (Ok(start_date), Ok(end_date)) => Ok(RangeParams { start_date, end_date }),
        _ => Err(ServiceError::Validation),
    }
}

/// A range includes both of its ends and compares on the calendar date: a
/// moment belongs to it exactly when its date lies between the ends, so every
/// moment of the first day and of the last day is inside, and every moment
/// of a later or an earlier day is outside.
pub proof fn lemma_range_is_inclusive(range: RangeParams, moment: DateTime)
    ensures
        range.covers_moment(moment) <==> range.start_date.not_after(moment.date)
            && moment.date.not_after(range.end_date),
        moment.date == range.end_date && range.start_date.not_after(range.end_date)
            ==> range.covers_moment(moment),
        moment.date == range.start_date && range.start_date.not_after(range.end_date)
            ==> range.covers_moment(moment),
        range.end_date.is_before(moment.date) ==> !range.covers_moment(moment),
        moment.date.is_before(range.start_date) ==> !range.covers_moment(moment),
{
}

/// The format in which dates are written in requests.
pub open spec fn date_format() -> Seq<char> {
    "%Y-%m-%d"@
}

/// The date that the calendar library reads from `text` under `format`, as
/// year, month and day, or `None` where it reads none.
pub uninterp spec fn parsed_date(text: Seq<char>, format: Seq<char>) -> Option<(int, int, int)>;

/// What a reading of a date comes to: the date, or a validation failure.
pub open spec fn date_of_parsed(parsed: Option<(int, int, int)>) -> Result<Date, ServiceError> {
    match parsed {
        Some((y, m, d)) => Ok(Date { year: y as i32, month: m as u32, day: d as u32 }),
        None => Err(ServiceError::Validation),
    }
}

/// What the readings of the two ends of a range come to.
pub open spec fn range_of_parsed(
    first: Option<(int, int, int)>,
    last: Option<(int, int, int)>,
) -> Result<RangeParams, ServiceError> {
    match (date_of_parsed(first), date_of_parsed(last)) {
        (Ok(start_date), Ok(end_date)) => Ok(RangeParams { start_date, end_date }),
        _ => Err(ServiceError::Validation),
    }
}

/// `chrono::format::ParseError`: why a text was not read as a date. It is
/// carried through as it is; nothing is claimed of what it holds.
#[verifier::external_type_specification]
#[verifier::external_body]
pub struct ExParseError(chrono::format::ParseError);

/// `chrono::NaiveDate::parse_from_str`. The result depends on the text and
/// the format alone. On success the date read is the one that `parsed_date`
/// names, its month between 1 and 12 and its day between 1 and 31; on failure
/// `parsed_date` names none.
#[verifier::external_body]
fn chrono_parse_date(text: &str, format: &str) -> (res: Result<Date, chrono::format::ParseError>)
    ensures
        res matches Ok(d) ==> d.wf() && parsed_date(text@, format@) == Some(
            (d.year as int, d.month as int, d.day as int),
        ),
        res is Err ==> parsed_date(text@, format@) is None,
{
    match chrono::NaiveDate::parse_from_str(text, format) {
        Ok(d) => Ok(
            Date {
                year: chrono::Datelike::year(&d),
                month: chrono::Datelike::month(&d),
                day: chrono::Datelike::day(&d),
            },
        ),
        Err(e) => Err(e),
    }
}

/// `chrono::Local::now`, read as a local date and time of day. Nothing is
/// claimed of the moment but that its parts lie in the ranges of a calendar
/// and a clock.
#[verifier::external_body]
fn chrono_local_now() -> (now: DateTime)
    ensures
        now.wf(),
{
    let n = chrono::Local::now().naive_local();
    DateTime {
        date: Date {
            year: chrono::Datelike::year(&n),
            month: chrono::Datelike::month(&n),
            day: chrono::Datelike::day(&n),
        },
        hour: chrono::Timelike::hour(&n),
        minute: chrono::Timelike::minute(&n),
        second: chrono::Timelike::second(&n),
    }
}

/// Turns the outcome of reading a date into the service's own terms: the
/// date as it was read, or a validation failure.
pub fn date_from_reading(reading: Result<Date, chrono::format::ParseError>) -> (r: Result<
    Date,
    ServiceError,
>)
    ensures
        reading matches Ok(d) ==> r == Ok::<Date, ServiceError>(d),
        reading is Err ==> r == Err::<Date, ServiceError>(ServiceError::Validation),
{
    match reading {
        Ok(d) => Ok(d),
        Err(_) => Err(ServiceError::Validation),
    }
}

/// Reads a date written as year, month and day with hyphens between them.
/// Text that is no such date is a validation failure.
pub fn parse_date(text: &str) -> (r: Result<Date, ServiceError>)
    ensures
        r == date_of_parsed(parsed_date(text@, date_format())),
        r matches Ok(d) ==> d.wf(),
        r matches Err(e) ==> e == ServiceError::Validation,
{
    let reading = chrono_parse_date(text, "%Y-%m-%d");
    date_from_reading(reading)
}

/// The local date and time at the moment of the call.
pub fn now() -> (t: DateTime)
    ensures
        t.wf(),
{
    chrono_local_now()
}

/// The local calendar date at the moment of the call.
pub fn today() -> (d: Date)
    ensures
        d.wf(),
{
    chrono_local_now().date
}

} // verus!

//! Instants and calendar dates as plain values.

use vstd::prelude::*;

verus! {

/// Nanoseconds in one second.
pub const NANOS_PER_SECOND: i128 = 1_000_000_000;

/// Seconds in one day.
pub const SECONDS_PER_DAY: i128 = 86_400;

/// Nanoseconds in one day.
pub const NANOS_PER_DAY: i128 = 86_400_000_000_000;

/// The earliest instant that dates can hold: -9999-01-01T00:00:00Z.
pub const MIN_UNIX_NANOS: i128 = -377_705_116_800_000_000_000;

/// The latest instant that dates can hold: 9999-12-31T23:59:59.999999999Z.
pub const MAX_UNIX_NANOS: i128 = 253_402_300_799_999_999_999;

/// Seconds east of UTC of Korea Standard Time.
pub const KST_OFFSET_SECONDS: i32 = 32_400;

/// An instant, with the UTC offset in which it was observed.
///
/// Two timestamps denote the same instant when their `unix_nanos` agree; the offset
/// only decides how the instant is shown as a local date and time.
#[derive(Clone, Copy, Debug, PartialEq, Eq)]
pub struct Timestamp {
    /// Nanoseconds since 1970-01-01T00:00:00Z.
    pub unix_nanos: i128,
    /// Seconds east of UTC.
    pub offset_seconds: i32,
}

/// A calendar date of the proleptic Gregorian calendar.
#[derive(Clone, Copy, Debug, PartialEq, Eq)]
pub struct CivilDate {
    pub year: i32,
    pub month: u8,
    pub day: u8,
}

/// Whether `year` is a leap year.
pub open spec fn is_leap_year(year: int) -> bool {
    (year % 4 == 0 && year % 100 != 0) || year % 400 == 0
}

/// The number of days of `month` in `year`.
pub open spec fn days_in_month(year: int, month: int) -> int {
    if month == 2 {
        if is_leap_year(year) { 29 } else { 28 }
    } else if month == 4 || month == 6 || month == 9 || month == 11 {
        30
    } else {
        31
    }
}

/// Whether `(year, month, day)` names a day that dates can hold: the years from
/// -9999 to 9999, months 1 to 12, and a day of that month.
pub open spec fn is_valid_date(year: int, month: int, day: int) -> bool {
    &&& -9999 <= year <= 9999
    &&& 1 <= month <= 12
    &&& 1 <= day <= days_in_month(year, month)
}

impl Timestamp {
    /// Whether the instant can be shown as a date and time both in UTC and in its offset:
    /// the offset is less than 26 hours either way, and the instant and its local date
    /// and time lie in the range that dates can hold.
    pub open spec fn valid(self) -> bool {
        &&& -93_599 <= self.offset_seconds <= 93_599
        &&& MIN_UNIX_NANOS <= self.unix_nanos <= MAX_UNIX_NANOS
        &&& MIN_UNIX_NANOS <= self.unix_nanos + self.offset_seconds * NANOS_PER_SECOND <= MAX_UNIX_NANOS
    }

    /// Whether `self` is no later than `other`.
    pub open spec fn spec_le(self, other: Timestamp) -> bool {
        self.unix_nanos <= other.unix_nanos
    }

    /// Whether `self` and `other` denote the same instant.
    pub open spec fn same_instant(self, other: Timestamp) -> bool {
        self.unix_nanos == other.unix_nanos
    }

    /// Whether `self` is no later than `other`.
    pub fn le(&self, other: &Timestamp) -> (b: bool)
        ensures
            b == self.spec_le(*other),
    {
        self.unix_nanos <= other.unix_nanos
    }

    /// Whether `self` and `other` denote the same instant.
    pub fn instant_eq(&self, other: &Timestamp) -> (b: bool)
        ensures
            b == self.same_instant(*other),
    {
        self.unix_nanos == other.unix_nanos
    }
}

/// Whether two optional instants agree: both absent, or both present and equal.
pub open spec fn same_optional_instant(a: Option<Timestamp>, b: Option<Timestamp>) -> bool {
    match (a, b) {
        (None, None) => true,
        (Some(x), Some(y)) => x.same_instant(y),
        _ => false,
    }
}

/// Whether two optional instants agree.
pub fn optional_instant_eq(a: &Option<Timestamp>, b: &Option<Timestamp>) -> (r: bool)
    ensures
        r == same_optional_instant(*a, *b),
{
    match (a, b) {
        (None, None) => true,
        (Some(x), Some(y)) => x.instant_eq(y),
        _ => false,
    }
}

/// The current instant in UTC (`OffsetDateTime::now_utc`). Which instant comes back
/// depends on the clock; only that it is given in UTC and lies in the range that dates
/// can hold is stated.
#[verifier::external_body]
pub(crate) fn now_utc() -> (t: Timestamp)
    ensures
        t.offset_seconds == 0,
        MIN_UNIX_NANOS <= t.unix_nanos <= MAX_UNIX_NANOS,
{
    Timestamp { unix_nanos: time::OffsetDateTime::now_utc().unix_timestamp_nanos(), offset_seconds: 0 }
}

/// A date and time of day, as a clock in some offset shows it.
#[derive(Clone, Copy, Debug, PartialEq, Eq)]
pub struct LocalDateTime {
    pub year: i32,
    pub month: u8,
    pub day: u8,
    pub hour: u8,
    pub minute: u8,
    pub second: u8,
}

impl LocalDateTime {
    /// The fields as integers.
    pub open spec fn fields(self) -> (int, int, int, int, int, int) {
        (self.year as int, self.month as int, self.day as int, self.hour as int, self.minute as int, self.second as int)
    }
}

/// The local date and time, as `(year, month, day, hour, minute, second)`, of the
/// instant `unix_nanos` in the offset `offset_seconds`, as the `time` crate shows it.
pub uninterp spec fn local_fields_of(unix_nanos: int, offset_seconds: int) -> (int, int, int, int, int, int);

/// The instant, in nanoseconds since the epoch, at which a clock in the offset
/// `offset_seconds` shows the given date and time (`PrimitiveDateTime::assume_offset`).
pub uninterp spec fn instant_of_local(year: int, month: int, day: int, hour: int, minute: int, second: int, offset_seconds: int) -> int;

/// Whether `(year, month, day)` is a date (`Date::from_calendar_date` with
/// `Month::try_from`, which accept exactly the valid dates).
#[verifier::external_body]
pub(crate) fn is_calendar_date(year: i32, month: u8, day: u8) -> (b: bool)
    ensures
        b == is_valid_date(year as int, month as int, day as int),
{
    match time::Month::try_from(month) {
        Ok(m) => time::Date::from_calendar_date(year, m, day).is_ok(),
        Err(_) => false,
    }
}

/// The date and time that a clock in `t`'s offset shows at the instant `t`
/// (`OffsetDateTime` fields).
#[verifier::external_body]
pub(crate) fn local_date_time(t: Timestamp) -> (f: LocalDateTime)
    requires
        t.valid(),
    ensures
        f.fields() == local_fields_of(t.unix_nanos as int, t.offset_seconds as int),
        is_valid_date(f.year as int, f.month as int, f.day as int),
        f.hour < 24 && f.minute < 60 && f.second < 60,
{
    let offset = time::UtcOffset::from_whole_seconds(t.offset_seconds).unwrap();
    let dt = time::OffsetDateTime::from_unix_timestamp_nanos(t.unix_nanos).unwrap().to_offset(offset);
    LocalDateTime {
        year: dt.year(),
        month: dt.month() as u8,
        day: dt.day(),
        hour: dt.hour(),
        minute: dt.minute(),
        second: dt.second(),
    }
}

/// The instant at which a clock in the offset `offset_seconds` shows `date` at
/// `hour:minute:second` (`PrimitiveDateTime::assume_offset`); that clock shows the same
/// date and time again at the instant.
#[verifier::external_body]
pub(crate) fn timestamp_at(date: CivilDate, hour: u8, minute: u8, second: u8, offset_seconds: i32) -> (t: Timestamp)
    requires
        is_valid_date(date.year as int, date.month as int, date.day as int),
        hour < 24 && minute < 60 && second < 60,
        -93_599 <= offset_seconds <= 93_599,
    ensures
        t.offset_seconds == offset_seconds,
        t.unix_nanos == instant_of_local(date.year as int, date.month as int, date.day as int, hour as int, minute as int, second as int, offset_seconds as int),
        local_fields_of(t.unix_nanos as int, offset_seconds as int) == (date.year as int, date.month as int, date.day as int, hour as int, minute as int, second as int),
{
    let d = time::Date::from_calendar_date(date.year, time::Month::try_from(date.month).unwrap(), date.day).unwrap();
    let tm = time::Time::from_hms(hour, minute, second).unwrap();
    let offset = time::UtcOffset::from_whole_seconds(offset_seconds).unwrap();
    Timestamp { unix_nanos: time::PrimitiveDateTime::new(d, tm).assume_offset(offset).unix_timestamp_nanos(), offset_seconds }
}

/// The date and time that `time`'s `PrimitiveDateTime::parse` reads from `text` with the
/// format description `format`, as `(year, month, day, hour, minute, second)`; `None`
/// when the format or the text does not parse.
pub uninterp spec fn parsed_date_time(text: Seq<char>, format: Seq<char>) -> Option<(int, int, int, int, int, int)>;

/// The date that `time`'s `Date::parse` reads from `text` with the format description
/// `format`, as `(year, month, day)`; `None` when the format or the text does not parse.
pub uninterp spec fn parsed_date(text: Seq<char>, format: Seq<char>) -> Option<(int, int, int)>;

/// Reads a date and time from `text` with a format description (`PrimitiveDateTime::parse`).
#[verifier::external_body]
pub(crate) fn parse_date_time_text(text: &str, format: &str) -> (r: Option<LocalDateTime>)
    ensures
        match r {
            Some(f) => parsed_date_time(text@, format@) == Some(f.fields())
                && is_valid_date(f.year as int, f.month as int, f.day as int)
                && f.hour < 24 && f.minute < 60 && f.second < 60,
            None => parsed_date_time(text@, format@) is None,
        },
{
    let fmt = match time::format_description::parse(format) {
        Ok(f) => f,
        Err(_) => return None,
    };
    match time::PrimitiveDateTime::parse(text, &fmt) {
        Ok(dt) => Some(LocalDateTime {
            year: dt.year(),
            month: dt.month() as u8,
            day: dt.day(),
            hour: dt.hour(),
            minute: dt.minute(),
            second: dt.second(),
        }),
        Err(_) => None,
    }
}

/// Reads a date from `text` with a format description (`Date::parse`).
#[verifier::external_body]
pub(crate) fn parse_date_text(text: &str, format: &str) -> (r: Option<CivilDate>)
    ensures
        match r {
            Some(d) => parsed_date(text@, format@) == Some((d.year as int, d.month as int, d.day as int))
                && is_valid_date(d.year as int, d.month as int, d.day as int),
            None => parsed_date(text@, format@) is None,
        },
{
    let fmt = match time::format_description::parse(format) {
        Ok(f) => f,
        Err(_) => return None,
    };
    match time::Date::parse(text, &fmt) {
        Ok(d) => Some(CivilDate { year: d.year(), month: d.month() as u8, day: d.day() }),
        Err(_) => None,
    }
}

/// The text (`Display`) and the debug form (`Debug`) of the error that `time`'s
/// `Date::parse` gives for `text` with the format description `format`; of the format
/// description's own error when that does not parse; two empty texts when the date reads.
pub uninterp spec fn date_parse_error(text: Seq<char>, format: Seq<char>) -> (Seq<char>, Seq<char>);

/// The text (`Display`) and the debug form (`Debug`) of the error that `time`'s
/// `PrimitiveDateTime::parse` gives for `text` with the format description `format`; of
/// the format description's own error when that does not parse; two empty texts when the
/// date and time read.
pub uninterp spec fn date_time_parse_error(text: Seq<char>, format: Seq<char>) -> (Seq<char>, Seq<char>);

/// Why a date does not read (`Date::parse`): its error's text and debug form.
#[verifier::external_body]
pub(crate) fn date_error_texts(text: &str, format: &str) -> (r: (String, String))
    ensures
        (r.0@, r.1@) == date_parse_error(text@, format@),
{
    let parsed = time::format_description::parse(format)
        .map_err(|e| (e.to_string(), format!("{e:?}")))
        .and_then(|f| time::Date::parse(text, &f).map_err(|e| (e.to_string(), format!("{e:?}"))));
    match parsed {
        Ok(_) => (String::new(), String::new()),
        Err(texts) => texts,
    }
}

/// Why a date and time do not read (`PrimitiveDateTime::parse`): its error's text and
/// debug form.
#[verifier::external_body]
pub(crate) fn date_time_error_texts(text: &str, format: &str) -> (r: (String, String))
    ensures
        (r.0@, r.1@) == date_time_parse_error(text@, format@),
{
    let parsed = time::format_description::parse(format)
        .map_err(|e| (e.to_string(), format!("{e:?}")))
        .and_then(|f| time::PrimitiveDateTime::parse(text, &f).map_err(|e| (e.to_string(), format!("{e:?}"))));
    match parsed {
        Ok(_) => (String::new(), String::new()),
        Err(texts) => texts,
    }
}

/// The instant, Korea Standard Time, of a local date and time.
pub open spec fn kst_instant(f: (int, int, int, int, int, int)) -> int {
    instant_of_local(f.0, f.1, f.2, f.3, f.4, f.5, KST_OFFSET_SECONDS as int)
}

/// The instant, Korea Standard Time, at which `text` read with `format` falls
/// (`PrimitiveDateTime::parse`, then `assume_offset` of +09:00).
pub fn kst_date_time_from_text(text: &str, format: &str) -> (r: Option<Timestamp>)
    ensures
        match r {
            Some(t) => parsed_date_time(text@, format@) matches Some(f)
                && t.unix_nanos == kst_instant(f) && t.offset_seconds == KST_OFFSET_SECONDS,
            None => parsed_date_time(text@, format@) is None,
        },
{
    match parse_date_time_text(text, format) {
        Some(f) => Some(timestamp_at(CivilDate { year: f.year, month: f.month, day: f.day }, f.hour, f.minute, f.second, KST_OFFSET_SECONDS)),
        None => None,
    }
}

/// The instant, Korea Standard Time, of midnight of the date that `text` read with
/// `format` gives (`Date::parse`, then `midnight().assume_offset` of +09:00).
pub fn kst_midnight_from_text(text: &str, format: &str) -> (r: Option<Timestamp>)
    ensures
        match r {
            Some(t) => parsed_date(text@, format@) matches Some(d)
                && t.unix_nanos == kst_instant((d.0, d.1, d.2, 0, 0, 0)) && t.offset_seconds == KST_OFFSET_SECONDS,
            None => parsed_date(text@, format@) is None,
        },
{
    match parse_date_text(text, format) {
        Some(d) => Some(timestamp_at(d, 0, 0, 0, KST_OFFSET_SECONDS)),
        None => None,
    }
}


/// The date that `time` reads from `text` as an ISO 8601 date (`Date::parse` with
/// `Iso8601::DATE`), as `(year, month, day)`; `None` when it does not parse.
pub uninterp spec fn parsed_iso8601_date(text: Seq<char>) -> Option<(int, int, int)>;

/// The text (`Display`) of the error that `time`'s `Date::parse` with `Iso8601::DATE`
/// gives for `text`; empty when the date reads.
pub uninterp spec fn iso8601_date_error(text: Seq<char>) -> Seq<char>;

/// Why an ISO 8601 date does not read (`Date::parse` with `Iso8601::DATE`): its error's
/// text.
#[verifier::external_body]
pub(crate) fn iso8601_error_text(text: &str) -> (r: String)
    ensures
        r@ == iso8601_date_error(text@),
{
    match time::Date::parse(text, &time::format_description::well_known::Iso8601::DATE) {
        Ok(_) => String::new(),
        Err(e) => e.to_string(),
    }
}

/// Reads an ISO 8601 date (`Date::parse` with `Iso8601::DATE`).
#[verifier::external_body]
pub(crate) fn parse_iso8601_date(text: &str) -> (r: Option<CivilDate>)
    ensures
        match r {
            Some(d) => parsed_iso8601_date(text@) == Some((d.year as int, d.month as int, d.day as int))
                && is_valid_date(d.year as int, d.month as int, d.day as int),
            None => parsed_iso8601_date(text@) is None,
        },
{
    match time::Date::parse(text, &time::format_description::well_known::Iso8601::DATE) {
        Ok(d) => Some(CivilDate { year: d.year(), month: d.month() as u8, day: d.day() }),
        Err(_) => None,
    }
}

} // verus!

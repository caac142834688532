//! Calendar events collected from a site, and the range a calendar crawl covers.

use vstd::prelude::*;
use crate::datetime::{Timestamp, same_optional_instant, optional_instant_eq};
use crate::text::{trim, trim_opt, trimmed_eq, trimmed_opt_eq};

verus! {

/// A closed interval of instants from `start` to `end`, with `start` no later than `end`.
#[derive(Clone, Debug)]
pub struct CalendarCrawlRange {
    start: Timestamp,
    end: Timestamp,
}

impl CalendarCrawlRange {
    /// The first instant of the range.
    pub closed spec fn spec_start(self) -> Timestamp {
        self.start
    }

    /// The last instant of the range.
    pub closed spec fn spec_end(self) -> Timestamp {
        self.end
    }

    /// The range's invariant: it starts no later than it ends.
    pub closed spec fn wf(self) -> bool {
        self.start.spec_le(self.end)
    }

    /// The range from `start` to `end`, refused when `start` is later than `end`.
    pub fn new(start: Timestamp, end: Timestamp) -> (r: Result<CalendarCrawlRange, &'static str>)
        ensures
            r is Ok <==> start.spec_le(end),
            r matches Ok(range) ==> range.wf() && range.spec_start() == start && range.spec_end() == end,
            r matches Err(m) ==> m@ == "calendar crawl range start must be before or equal to end"@,
    {
        if !start.le(&end) {
            return Err("calendar crawl range start must be before or equal to end");
        }
        Ok(CalendarCrawlRange { start, end })
    }

    /// The first instant of the range.
    pub fn start(&self) -> (t: Timestamp)
        ensures
            t == self.spec_start(),
    {
        self.start
    }

    /// The last instant of the range.
    pub fn end(&self) -> (t: Timestamp)
        ensures
            t == self.spec_end(),
    {
        self.end
    }

    /// Whether `starts_at` lies within the range, both ends included.
    pub fn contains_start(&self, starts_at: Timestamp) -> (b: bool)
        ensures
            b == (self.spec_start().spec_le(starts_at) && starts_at.spec_le(self.spec_end())),
    {
        self.start.le(&starts_at) && starts_at.le(&self.end)
    }
}

/// One calendar event.
#[derive(Clone, Debug)]
pub struct SsufidCalendar {
    pub id: String,
    pub title: String,
    pub description: Option<String>,
    pub starts_at: Timestamp,
    pub ends_at: Option<Timestamp>,
    pub location: Option<String>,
    pub url: Option<String>,
}

/// The events of one calendar, with its title, address and description.
#[derive(Clone, Debug)]
pub struct SsufidCalendarSiteData {
    pub title: String,
    pub source: String,
    pub description: String,
    pub items: Vec<SsufidCalendar>,
}

impl SsufidCalendar {
    /// Whether two events carry the same contents: texts equal once trimmed, and the
    /// same start and end instants.
    pub open spec fn spec_contents_eq(self, other: SsufidCalendar) -> bool {
        &&& trim(self.id@) == trim(other.id@)
        &&& trim(self.title@) == trim(other.title@)
        &&& trim_opt(self.description) == trim_opt(other.description)
        &&& self.starts_at.same_instant(other.starts_at)
        &&& same_optional_instant(self.ends_at, other.ends_at)
        &&& trim_opt(self.location) == trim_opt(other.location)
        &&& trim_opt(self.url) == trim_opt(other.url)
    }

    /// Whether two events carry the same contents.
    pub fn contents_eq(&self, other: &SsufidCalendar) -> (r: bool)
        ensures
            r == self.spec_contents_eq(*other),
    {
        trimmed_eq(self.id.as_str(), other.id.as_str())
            && trimmed_eq(self.title.as_str(), other.title.as_str())
            && trimmed_opt_eq(&self.description, &other.description)
            && self.starts_at.instant_eq(&other.starts_at)
            && optional_instant_eq(&self.ends_at, &other.ends_at)
            && trimmed_opt_eq(&self.location, &other.location)
            && trimmed_opt_eq(&self.url, &other.url)
    }
}

/// Two events carry the same contents exactly when their identifiers, titles,
/// descriptions, places and addresses agree once trimmed and they start and end at the
/// same instants: an event whose trimmed title (or any of these) changed never counts as
/// unchanged.
pub proof fn law_calendar_contents_eq_fields(a: SsufidCalendar, b: SsufidCalendar)
    ensures
        trim(a.title@) != trim(b.title@) ==> !a.spec_contents_eq(b),
        trim(a.id@) != trim(b.id@) ==> !a.spec_contents_eq(b),
        trim_opt(a.description) != trim_opt(b.description) ==> !a.spec_contents_eq(b),
        a.starts_at.unix_nanos != b.starts_at.unix_nanos ==> !a.spec_contents_eq(b),
        (a.ends_at is Some) != (b.ends_at is Some) ==> !a.spec_contents_eq(b),
        (a.ends_at matches Some(x) && b.ends_at matches Some(y) && x.unix_nanos != y.unix_nanos) ==> !a.spec_contents_eq(b),
        trim_opt(a.location) != trim_opt(b.location) ==> !a.spec_contents_eq(b),
        trim_opt(a.url) != trim_opt(b.url) ==> !a.spec_contents_eq(b),
        trim(a.id@) == trim(b.id@) && trim(a.title@) == trim(b.title@) && trim_opt(a.description) == trim_opt(b.description)
            && a.starts_at.unix_nanos == b.starts_at.unix_nanos && trim_opt(a.location) == trim_opt(b.location)
            && trim_opt(a.url) == trim_opt(b.url) && (match (a.ends_at, b.ends_at) {
                (None, None) => true,
                (Some(x), Some(y)) => x.unix_nanos == y.unix_nanos,
                _ => false,
            }) ==> a.spec_contents_eq(b),
{
}

/// Sameness of event contents is an equivalence: reflexive, symmetric and transitive.
pub proof fn lemma_calendar_contents_eq_equivalence(a: SsufidCalendar, b: SsufidCalendar, c: SsufidCalendar)
    ensures
        a.spec_contents_eq(a),
        a.spec_contents_eq(b) == b.spec_contents_eq(a),
        a.spec_contents_eq(b) && b.spec_contents_eq(c) ==> a.spec_contents_eq(c),
{
}

} // verus!

use std::collections::BTreeMap;

use ssufid::calendar::{CalendarCrawlRange, SsufidCalendar, SsufidCalendarSiteData};
use ssufid::datetime::Timestamp;
use ssufid::ics::{escape_text, fold_line, format_ics_datetime, to_ics};
use ssufid::merge::{merge_calendar_entries, merge_entries, merge_entries_at};
use ssufid::post::{Attachment, SsufidPost};
use ssufid::runner::{
    filter_calendar_entries_by_days, filter_calendar_entries_by_days_at, next_retry_action, newest_first,
    reversed_events, RetryAction, RETRY_COUNT,
};

const NANOS: i128 = 1_000_000_000;

fn at(y: i32, m: u8, d: u8, h: u8, mi: u8, s: u8, offset_hours: i8) -> Timestamp {
    let date = time::Date::from_calendar_date(y, time::Month::try_from(m).unwrap(), d).unwrap();
    let clock = time::Time::from_hms(h, mi, s).unwrap();
    let offset = time::UtcOffset::from_hms(offset_hours, 0, 0).unwrap();
    let dt = time::PrimitiveDateTime::new(date, clock).assume_offset(offset);
    Timestamp { unix_nanos: dt.unix_timestamp_nanos(), offset_seconds: offset.whole_seconds() }
}

fn now() -> Timestamp {
    let dt = time::OffsetDateTime::now_utc();
    Timestamp { unix_nanos: dt.unix_timestamp_nanos(), offset_seconds: 0 }
}

fn plus_seconds(t: Timestamp, s: i64) -> Timestamp {
    Timestamp { unix_nanos: t.unix_nanos + (s as i128) * NANOS, offset_seconds: t.offset_seconds }
}

fn meta(k: &str, v: &str) -> Option<BTreeMap<String, String>> {
    let mut m = BTreeMap::new();
    m.insert(k.to_string(), v.to_string());
    Some(m)
}

fn event(id: &str, title: &str, starts_at: Timestamp) -> SsufidCalendar {
    SsufidCalendar {
        id: id.to_string(),
        title: title.to_string(),
        description: None,
        starts_at,
        ends_at: None,
        location: None,
        url: None,
    }
}

fn post(id: &str, title: &str, created_at: Timestamp) -> SsufidPost {
    SsufidPost {
        id: id.to_string(),
        url: format!("http://example.com/{}", id),
        author: None,
        title: title.to_string(),
        description: None,
        category: vec![],
        created_at,
        updated_at: None,
        thumbnail: None,
        content: format!("Content {}", id),
        attachments: vec![],
        metadata: None,
    }
}

#[test]
fn test_escape_text() {
    assert_eq!(escape_text("Hello, world;\nLine 2\\"), "Hello\\, world\\;\\nLine 2\\\\");
}

#[test]
fn test_calendar_site_data_to_ics() {
    let site = SsufidCalendarSiteData {
        title: "Test Calendar".to_string(),
        source: "https://example.com/calendar".to_string(),
        description: "Calendar Description".to_string(),
        items: vec![
            SsufidCalendar {
                id: "event-1".to_string(),
                title: "Event 1".to_string(),
                description: Some("Description 1".to_string()),
                starts_at: at(2024, 3, 22, 12, 0, 0, 9),
                ends_at: Some(at(2024, 3, 22, 13, 0, 0, 9)),
                location: Some("Seoul".to_string()),
                url: Some("https://example.com/events/1".to_string()),
            },
            SsufidCalendar {
                id: "event-2".to_string(),
                title: "Event 2".to_string(),
                description: None,
                starts_at: at(2024, 3, 23, 9, 0, 0, 0),
                ends_at: None,
                location: None,
                url: None,
            },
        ],
    };

    let ics = to_ics(&site);

    assert!(ics.contains("BEGIN:VCALENDAR"));
    assert!(ics.contains("VERSION:2.0"));
    assert!(ics.contains("PRODID:-//ssufid//calendar//KO"));
    assert!(ics.contains("X-WR-CALNAME:Test Calendar"));
    assert!(ics.contains("X-WR-CALDESC:Calendar Description"));
    assert!(ics.contains("BEGIN:VEVENT"));
    assert!(ics.contains("UID:event-1"));
    assert!(ics.contains("SUMMARY:Event 1"));
    assert!(ics.contains("DESCRIPTION:Description 1"));
    assert!(ics.contains("DTSTART:20240322T030000Z"));
    assert!(ics.contains("DTEND:20240322T040000Z"));
    assert!(ics.contains("LOCATION:Seoul"));
    assert!(ics.contains("URL:https://example.com/events/1"));
    assert!(ics.contains("UID:event-2"));
    assert!(ics.contains("SUMMARY:Event 2"));
    assert!(ics.contains("END:VCALENDAR"));
}

#[test]
fn test_merge_entries() {
    let now = now();
    let attachment = || Attachment { url: "http://example.com/attach1.doc".to_string(), name: None, mime_type: None };
    let old_entries = vec![
        SsufidPost {
            id: "1".to_string(),
            url: "http://example.com/1".to_string(),
            author: Some("Author 1".to_string()),
            title: "Old Title 1".to_string(),
            description: Some("Description for 1".to_string()),
            category: vec!["Category 1".to_string()],
            created_at: plus_seconds(now, -1),
            updated_at: None,
            thumbnail: Some("http://example.com/thumb1.jpg".to_string()),
            content: "Old Content 1".to_string(),
            attachments: vec![attachment()],
            metadata: meta("meta_key_1", "meta_value_1"),
        },
        SsufidPost {
            id: "2".to_string(),
            url: "http://example.com/2".to_string(),
            author: Some("Author 2".to_string()),
            title: "Old Title 2".to_string(),
            description: Some("Description for 2".to_string()),
            category: vec!["Category 2".to_string()],
            created_at: now,
            updated_at: Some(now),
            thumbnail: Some("http://example.com/thumb2.jpg".to_string()),
            content: "Old Content 2".to_string(),
            attachments: vec![],
            metadata: None,
        },
        SsufidPost {
            id: "0".to_string(),
            url: "http://example.com/1".to_string(),
            author: Some("Author 1".to_string()),
            title: "Old Title 1".to_string(),
            description: Some("Description for 1".to_string()),
            category: vec!["Category 1".to_string()],
            created_at: plus_seconds(now, -2),
            updated_at: None,
            thumbnail: Some("http://example.com/thumb1.jpg".to_string()),
            content: "Old Content 1".to_string(),
            attachments: vec![attachment()],
            metadata: meta("meta_key_1", "meta_value_1"),
        },
    ];

    let new_entries = vec![
        SsufidPost {
            id: "1".to_string(),
            url: "http://example.com/1".to_string(),
            author: Some("Author 1".to_string()),
            title: "Old Title 1".to_string(),
            description: Some("Description for 1".to_string()),
            category: vec!["Category 1".to_string()],
            created_at: now,
            updated_at: None,
            thumbnail: Some("http://example.com/thumb1.jpg".to_string()),
            content: "Old Content 1".to_string(),
            attachments: vec![attachment()],
            metadata: meta("meta_key_1", "meta_value_1"),
        },
        SsufidPost {
            id: "2".to_string(),
            url: "http://example.com/2_new".to_string(),
            author: Some("Author 2 Updated".to_string()),
            title: "Updated Title 2".to_string(),
            description: Some("Description for 2 Updated".to_string()),
            category: vec!["Category 2".to_string()],
            created_at: plus_seconds(now, 1),
            updated_at: None,
            thumbnail: Some("http://example.com/thumb2_new.jpg".to_string()),
            content: "Old Content 2".to_string(),
            attachments: vec![Attachment {
                url: "http://example.com/attach2.png".to_string(),
                name: Some("New Attachment".to_string()),
                mime_type: Some("image/png".to_string()),
            }],
            metadata: meta("meta_key_2", "meta_value_2"),
        },
        SsufidPost {
            id: "3".to_string(),
            url: "http://example.com/3".to_string(),
            author: Some("New Author 3".to_string()),
            title: "New Title 3".to_string(),
            description: Some("Description for 3".to_string()),
            category: vec!["Category 3".to_string()],
            created_at: plus_seconds(now, 2),
            updated_at: None,
            thumbnail: None,
            content: "New Content 3".to_string(),
            attachments: vec![],
            metadata: None,
        },
        SsufidPost {
            id: "4".to_string(),
            url: "http://example.com/4".to_string(),
            author: Some("Author 4".to_string()),
            title: "Title 4".to_string(),
            description: Some("Description for 4".to_string()),
            category: vec!["Category 4".to_string()],
            created_at: plus_seconds(now, 3),
            updated_at: Some(plus_seconds(now, 3)),
            thumbnail: Some("http://example.com/thumb4.jpg".to_string()),
            content: "Content 4".to_string(),
            attachments: vec![],
            metadata: None,
        },
    ];

    let result = merge_entries(old_entries, new_entries);

    assert_eq!(result[0].id, "0");
    assert!(result[1].updated_at.is_none());
    assert_eq!(result[1].title, "Old Title 1");
    assert!(result[2].updated_at.is_some());
    assert_eq!(result[2].title, "Updated Title 2");
    assert!(result[3].updated_at.is_none());
    assert_eq!(result[3].title, "New Title 3");
    assert_eq!(result[4].updated_at, Some(plus_seconds(now, 3)));
    assert_eq!(result[4].title, "Title 4");
}

#[test]
fn test_filter_calendar_entries_by_days() {
    let now = now();
    let entries = vec![
        event("old", "Old Event", plus_seconds(now, -31 * 24 * 3600)),
        event("recent", "Recent Event", plus_seconds(now, -5 * 24 * 3600)),
    ];

    let filtered = filter_calendar_entries_by_days(entries.clone(), 10).unwrap();
    assert_eq!(filtered.len(), 1);
    assert_eq!(filtered[0].id, "recent");

    let unfiltered = filter_calendar_entries_by_days(entries, 0).unwrap();
    assert_eq!(unfiltered.len(), 2);
}

#[test]
fn test_merge_calendar_entries() {
    let now = now();
    let old_entries = vec![
        SsufidCalendar {
            id: "1".to_string(),
            title: "Old Event 1".to_string(),
            description: Some("Old Description 1".to_string()),
            starts_at: now,
            ends_at: Some(plus_seconds(now, 3600)),
            location: Some("Room A".to_string()),
            url: Some("https://example.com/events/1".to_string()),
        },
        event("0", "Older Event", plus_seconds(now, -3600)),
    ];

    let new_entries = vec![
        SsufidCalendar {
            id: "1".to_string(),
            title: "Old Event 1".to_string(),
            description: Some("Old Description 1".to_string()),
            starts_at: now,
            ends_at: Some(plus_seconds(now, 3600)),
            location: Some("Room A".to_string()),
            url: Some("https://example.com/events/1".to_string()),
        },
        SsufidCalendar {
            id: "2".to_string(),
            title: "Updated Event 2".to_string(),
            description: Some("Updated Description 2".to_string()),
            starts_at: plus_seconds(now, 1800),
            ends_at: Some(plus_seconds(now, 5400)),
            location: Some("Room B".to_string()),
            url: Some("https://example.com/events/2".to_string()),
        },
    ];

    let result = merge_calendar_entries(old_entries, new_entries);

    assert_eq!(result.len(), 3);
    assert_eq!(result[0].id, "0");
    assert_eq!(result[1].id, "1");
    assert_eq!(result[2].id, "2");
    assert_eq!(result[2].title, "Updated Event 2");
}

#[test]
fn merge_keeps_every_identifier_once_and_stamps_changes() {
    let base = at(2024, 5, 1, 12, 0, 0, 9);
    let clock = at(2024, 6, 1, 0, 0, 0, 0);
    let old_entries = vec![post("a", "A", base), post("b", "B", plus_seconds(base, 10))];
    let new_entries = vec![
        post("b", "B changed", plus_seconds(base, 10)),
        post("c", "C", plus_seconds(base, 20)),
        post("a", "A", base),
    ];
    let merged = merge_entries_at(old_entries, new_entries, clock);
    let ids: Vec<&str> = merged.iter().map(|p| p.id.as_str()).collect();
    assert_eq!(ids, vec!["a", "b", "c"]);
    assert_eq!(merged[0].updated_at, None);
    assert_eq!(merged[1].title, "B changed");
    assert_eq!(merged[1].updated_at, Some(clock));
    assert_eq!(merged[2].updated_at, None);
}

#[test]
fn merge_of_nothing_new_keeps_the_old_posts() {
    let base = at(2024, 5, 1, 12, 0, 0, 9);
    let old_entries = vec![post("x", "X", base)];
    let merged = merge_entries_at(old_entries, vec![], at(2024, 6, 1, 0, 0, 0, 0));
    assert_eq!(merged.len(), 1);
    assert_eq!(merged[0].id, "x");
    assert_eq!(merged[0].title, "X");
}

#[test]
fn filter_at_a_fixed_instant_keeps_the_cutoff_day() {
    let clock = at(2024, 6, 30, 0, 0, 0, 0);
    let entries = vec![
        event("before", "Before", plus_seconds(clock, -10 * 24 * 3600 - 1)),
        event("edge", "Edge", plus_seconds(clock, -10 * 24 * 3600)),
        event("after", "After", plus_seconds(clock, 3600)),
    ];
    let kept = filter_calendar_entries_by_days_at(entries, 10, clock);
    let ids: Vec<&str> = kept.iter().map(|e| e.id.as_str()).collect();
    assert_eq!(ids, vec!["edge", "after"]);
}

#[test]
fn newest_first_reverses_and_limits() {
    let base = at(2024, 1, 1, 0, 0, 0, 9);
    let entries = vec![post("1", "one", base), post("2", "two", base), post("3", "three", base)];
    let newest = newest_first(entries, 2);
    let ids: Vec<&str> = newest.iter().map(|p| p.id.as_str()).collect();
    assert_eq!(ids, vec!["3", "2"]);
}

#[test]
fn reversed_events_reverses_the_order() {
    let base = at(2024, 1, 1, 0, 0, 0, 9);
    let entries = vec![event("1", "one", base), event("2", "two", base)];
    let ids: Vec<String> = reversed_events(entries).into_iter().map(|e| e.id).collect();
    assert_eq!(ids, vec!["2".to_string(), "1".to_string()]);
}

#[test]
fn retries_stop_after_success_or_the_last_attempt() {
    assert_eq!(next_retry_action(0, RETRY_COUNT, false), RetryAction::Attempt(1));
    assert_eq!(next_retry_action(1, RETRY_COUNT, true), RetryAction::Succeed);
    assert_eq!(next_retry_action(1, RETRY_COUNT, false), RetryAction::Attempt(2));
    assert_eq!(next_retry_action(RETRY_COUNT, RETRY_COUNT, false), RetryAction::GiveUp);
}

#[test]
fn ics_datetime_is_shown_in_utc() {
    assert_eq!(format_ics_datetime(at(2024, 3, 22, 12, 0, 0, 9)), "20240322T030000Z");
    assert_eq!(format_ics_datetime(at(1999, 12, 31, 23, 59, 59, 0)), "19991231T235959Z");
}

#[test]
fn folded_lines_stay_within_the_limit_and_unfold_back() {
    let line = "DESCRIPTION:".to_string() + &"가나다라마바사아자차카타파하".repeat(8);
    let folded = fold_line(&line);
    for physical in folded.split("\r\n") {
        assert!(physical.len() <= 75);
    }
    assert_eq!(folded.replace("\r\n ", ""), line);
    assert!(folded.split("\r\n").skip(1).all(|seg| seg.starts_with(' ')));
    assert_eq!(fold_line("SUMMARY:short"), "SUMMARY:short");
    let exact = "x".repeat(75);
    assert_eq!(fold_line(&exact), exact);
    let longer = "x".repeat(76);
    assert_eq!(fold_line(&longer), "x".repeat(75) + "\r\n x");
}

#[test]
fn lines_with_line_feeds_fold_by_bytes_since_the_last_fold() {
    let line = "a\n".repeat(50);
    let folded = fold_line(&line);
    assert_eq!(folded.replace("\r\n ", ""), line);
    for segment in folded.split("\r\n") {
        assert!(segment.len() <= 75);
    }
    assert!(folded.split("\r\n").skip(1).all(|seg| seg.starts_with(' ')));
    assert_eq!(folded, "a\n".repeat(37) + "a\r\n \n" + &"a\n".repeat(12));
    assert_eq!(fold_line("a\nb"), "a\nb");
}

#[test]
fn escaped_backslashes_start_escape_pairs() {
    let escaped = escape_text("a\\b;c,d\ne\r");
    assert_eq!(escaped, "a\\\\b\\;c\\,d\\ne");
    let chars: Vec<char> = escaped.chars().collect();
    let mut i = 0;
    while i < chars.len() {
        if chars[i] == '\\' {
            assert!(i + 1 < chars.len() && matches!(chars[i + 1], '\\' | ';' | ',' | 'n'));
            i += 2;
        } else {
            i += 1;
        }
    }
}

#[test]
fn crawl_range_refuses_an_end_before_its_start() {
    let a = at(2024, 1, 1, 0, 0, 0, 9);
    let b = at(2024, 2, 1, 0, 0, 0, 9);
    let range = CalendarCrawlRange::new(a, b).unwrap();
    assert!(range.contains_start(a));
    assert!(range.contains_start(b));
    assert!(!range.contains_start(plus_seconds(b, 1)));
    assert_eq!(CalendarCrawlRange::new(b, a).unwrap_err(), "calendar crawl range start must be before or equal to end");
}

#[test]
fn contents_eq_ignores_surrounding_white_space() {
    let base = at(2024, 1, 1, 0, 0, 0, 9);
    let a = post("1", "Title", base);
    let mut b = post("1", "  Title ", base);
    b.content = " Content 1\n".to_string();
    assert!(a.contents_eq(&b));
    b.title = "Other".to_string();
    assert!(!a.contents_eq(&b));
}

#[test]
fn attachment_from_guess_guesses_the_mime_type() {
    let a = Attachment::from_guess("report.pdf".to_string(), "http://example.com/r".to_string());
    assert_eq!(a.mime_type, Some("application/pdf".to_string()));
    assert_eq!(a.name, Some("report.pdf".to_string()));
}

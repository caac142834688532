use ssufid::academic_calendar::SsuAcademicCalendarPlugin;
use ssufid::datetime::Timestamp;

fn at(y: i32, m: u8, d: u8, h: u8, mi: u8, s: u8) -> Timestamp {
    let date = time::Date::from_calendar_date(y, time::Month::try_from(m).unwrap(), d).unwrap();
    let clock = time::Time::from_hms(h, mi, s).unwrap();
    let offset = time::UtcOffset::from_hms(9, 0, 0).unwrap();
    let dt = time::PrimitiveDateTime::new(date, clock).assume_offset(offset);
    Timestamp { unix_nanos: dt.unix_timestamp_nanos(), offset_seconds: offset.whole_seconds() }
}

const SAMPLE_HTML: &str = r#"
    <div id="calendar">
        <h4>2026년</h4>
        <div id="calendar202601" class="row align-items-start">
            <div class="col-12 col-md-4 col-xl-2 m-hide">
                <div class="grid text-center pt-4">
                    <span class="d-inline-block mr-1">2026</span>
                    <span class="h1 font-weight-bold font-size-50">01 </span>
                </div>
            </div>
            <div class="col-12 col-md-8 col-xl-10">
                <div class="grid">
                    <ul class="tb">
                        <li>
                            <div class="row">
                                <div class="col-12 col-lg-4 col-xl-3 font-weight-normal text-primary">
                                    01.05 (월) ~ 01.28 (수)
                                </div>
                                <div class="col-12 col-lg-8 col-xl-9">
                                    2026학년도 1학기 휴학/복학 신청기간(1차)
                                </div>
                            </div>
                        </li>
                        <li>
                            <div class="row">
                                <div class="col-12 col-lg-4 col-xl-3 font-weight-normal text-primary">
                                    01.08 (목)
                                </div>
                                <div class="col-12 col-lg-8 col-xl-9">
                                    <a href="/academic-event">2025학년도 2학기 성적증명서 발급개시</a>
                                </div>
                            </div>
                        </li>
                    </ul>
                </div>
            </div>
        </div>
        <div id="calendar202612" class="row align-items-start">
            <div class="col-12 col-md-4 col-xl-2 m-hide">
                <div class="grid text-center pt-4">
                    <span class="d-inline-block mr-1">2026</span>
                    <span class="h1 font-weight-bold font-size-50">12 </span>
                </div>
            </div>
            <div class="col-12 col-md-8 col-xl-10">
                <div class="grid">
                    <ul class="tb">
                        <li>
                            <div class="row">
                                <div class="col-12 col-lg-4 col-xl-3 font-weight-normal text-primary">
                                    12.28 (월) ~ 01.03 (일)
                                </div>
                                <div class="col-12 col-lg-8 col-xl-9">
                                    겨울방학
                                </div>
                            </div>
                        </li>
                    </ul>
                </div>
            </div>
        </div>
    </div>
    "#;

#[test]
fn test_parse_single_day_event() {
    let (starts_at, ends_at) = SsuAcademicCalendarPlugin::parse_event_dates("01.08 (목)", 2026, 1).unwrap();

    assert_eq!(starts_at, at(2026, 1, 8, 0, 0, 0));
    assert_eq!(ends_at, Some(at(2026, 1, 8, 23, 59, 59)));
}

#[test]
fn test_parse_range_event() {
    let (starts_at, ends_at) =
        SsuAcademicCalendarPlugin::parse_event_dates("02.23 (월) ~ 02.27 (금)", 2026, 2).unwrap();

    assert_eq!(starts_at, at(2026, 2, 23, 0, 0, 0));
    assert_eq!(ends_at, Some(at(2026, 2, 27, 23, 59, 59)));
}

#[test]
fn test_parse_cross_year_range_event() {
    let (starts_at, ends_at) =
        SsuAcademicCalendarPlugin::parse_event_dates("12.28 (월) ~ 01.03 (일)", 2026, 12).unwrap();

    assert_eq!(starts_at, at(2026, 12, 28, 0, 0, 0));
    assert_eq!(ends_at, Some(at(2027, 1, 3, 23, 59, 59)));
}

#[test]
fn test_build_event_id_is_stable_for_whitespace() {
    let starts_at = at(2026, 3, 3, 0, 0, 0);
    let left = SsuAcademicCalendarPlugin::build_event_id("2026학년도   1학기 개강", starts_at, None);
    let right = SsuAcademicCalendarPlugin::build_event_id("2026학년도 1학기 개강", starts_at, None);

    assert_eq!(left, right);
}

#[test]
fn test_parse_year_page() {
    let page_url = SsuAcademicCalendarPlugin::year_page_url(2026).unwrap();
    let items = SsuAcademicCalendarPlugin::parse_year_page(SAMPLE_HTML, 2026, &page_url).unwrap();

    assert_eq!(items.len(), 3);
    assert_eq!(items[0].title, "2026학년도 1학기 휴학/복학 신청기간(1차)");
    assert_eq!(items[0].starts_at, at(2026, 1, 5, 0, 0, 0));
    assert_eq!(items[0].ends_at, Some(at(2026, 1, 28, 23, 59, 59)));
    assert_eq!(items[1].ends_at, Some(at(2026, 1, 8, 23, 59, 59)));
    assert_eq!(items[1].url.as_deref(), Some("https://ssu.ac.kr/academic-event"));
    assert_eq!(items[2].starts_at, at(2026, 12, 28, 0, 0, 0));
    assert_eq!(items[2].ends_at, Some(at(2027, 1, 3, 23, 59, 59)));
}

#[test]
fn test_target_years_with_limit_zero() {
    let now = at(2026, 3, 23, 12, 0, 0);
    assert_eq!(SsuAcademicCalendarPlugin::target_years(0, now), vec![2025, 2026, 2027]);
}

#[test]
fn test_target_years_with_limit_crosses_previous_year() {
    let now = at(2026, 1, 3, 12, 0, 0);
    assert_eq!(SsuAcademicCalendarPlugin::target_years(30, now), vec![2025, 2026]);
}

#[test]
fn test_target_years_in_december_includes_next_year() {
    let now = at(2026, 12, 15, 12, 0, 0);
    assert_eq!(SsuAcademicCalendarPlugin::target_years(30, now), vec![2026, 2027]);
}

#[test]
fn year_page_url_names_the_year() {
    let url = SsuAcademicCalendarPlugin::year_page_url(2024).unwrap();
    assert!(url.starts_with("https://ssu.ac.kr/"));
    assert!(url.ends_with("?years=2024"));
}

#[test]
fn build_event_id_joins_identifier_dates_and_slug() {
    let id = SsuAcademicCalendarPlugin::build_event_id("Spring  Break!", at(2026, 3, 2, 0, 0, 0), Some(at(2026, 3, 6, 23, 59, 59)));
    assert_eq!(id, "ssu-academic-calendar:2026-03-02:2026-03-06:spring-break");
    let open = SsuAcademicCalendarPlugin::build_event_id("개강", at(2026, 3, 2, 0, 0, 0), None);
    assert_eq!(open, "ssu-academic-calendar:2026-03-02:_:개강");
}

#[test]
fn slugify_lowers_ascii_and_joins_words_with_dashes() {
    assert_eq!(SsuAcademicCalendarPlugin::slugify("  Hello,   World  "), "hello-world");
    assert_eq!(SsuAcademicCalendarPlugin::slugify("!!!"), "event");
    assert_eq!(SsuAcademicCalendarPlugin::slugify(""), "event");
    let once = SsuAcademicCalendarPlugin::slugify("A  b\tC");
    assert_eq!(once, SsuAcademicCalendarPlugin::slugify("A b C"));
}

#[test]
fn normalize_whitespace_is_idempotent() {
    let once = SsuAcademicCalendarPlugin::normalize_whitespace("  a \t b\n\nc  ");
    assert_eq!(once, "a b c");
    assert_eq!(SsuAcademicCalendarPlugin::normalize_whitespace(&once), once);
}

#[test]
fn normalize_date_text_unifies_marks_and_drops_parentheses() {
    assert_eq!(SsuAcademicCalendarPlugin::strip_parenthesized("a (b (c)) d)"), "a  d");
    assert_eq!(SsuAcademicCalendarPlugin::normalize_date_text("03.02 (월) – 03.06 (금)"), "03.02 ~ 03.06");
}

#[test]
fn partial_dates_read_with_or_without_a_month() {
    let a = SsuAcademicCalendarPlugin::parse_partial_date(" 03.15. ").unwrap();
    assert_eq!((a.month, a.day), (Some(3), 15));
    let b = SsuAcademicCalendarPlugin::parse_partial_date("7").unwrap();
    assert_eq!((b.month, b.day), (None, 7));
    assert!(SsuAcademicCalendarPlugin::parse_partial_date("x.1").is_err());
}

#[test]
fn dates_from_parts_refuse_impossible_days() {
    assert!(SsuAcademicCalendarPlugin::date_from_parts(2024, 2, 29).is_ok());
    assert!(SsuAcademicCalendarPlugin::date_from_parts(2023, 2, 29).is_err());
    assert!(SsuAcademicCalendarPlugin::date_from_parts(2023, 13, 1).is_err());
    assert_eq!(SsuAcademicCalendarPlugin::next_month(2023, 12), (2024, 1));
    assert_eq!(SsuAcademicCalendarPlugin::next_month(2023, 5), (2023, 6));
}

#[test]
fn event_dates_without_a_start_are_refused() {
    assert!(SsuAcademicCalendarPlugin::parse_event_dates("(월)", 2026, 1).is_err());
    assert!(SsuAcademicCalendarPlugin::parse_event_dates("01.02 ~ 01.03 ~ 01.04", 2026, 1).is_err());
}

#[test]
fn a_page_without_a_calendar_is_refused() {
    let url = SsuAcademicCalendarPlugin::year_page_url(2026).unwrap();
    assert!(SsuAcademicCalendarPlugin::parse_year_page("<html><body></body></html>", 2026, &url).is_err());
}

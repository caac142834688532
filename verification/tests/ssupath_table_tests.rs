use ssufid::error::PluginError;
use ssufid::plugins::ssupath::SsuPathPluginError;
use ssufid::plugins::ssupath_table::{SsuPathCourseTable, SsuPathDivisionTable, SsuPathDivisionTableRow, SsuPathProgramTable};

fn parse_message(e: SsuPathPluginError) -> String {
    match e.into_plugin_error() {
        PluginError::Parse { plugin, message } => {
            assert_eq!(plugin, "path.ssu.ac.kr");
            message
        }
        other => panic!("unexpected error {:?}", other),
    }
}

fn pairs(v: &[(&str, &str)]) -> Vec<(String, String)> {
    v.iter().map(|(k, v)| (k.to_string(), v.to_string())).collect()
}

const PROGRAM_PAGE: &str = "<html><body><div id=\"tilesContent\"><div class=\"intro\">intro</div>\
<div class=\"table_top\"><h4>  봉사 프로그램 </h4></div>\
<div class=\"table_wrap\"><table><tbody>\
<tr><th>프로그램 주요내용</th><td>\t함께\t봉사합니다 </td></tr>\
<tr><th>대상</th><td>재학생</td><th>장소</th><td>온라인</td></tr>\
</tbody></table></div></div></body></html>";

#[test]
fn program_table_reads_title_content_and_pairs() {
    assert!(SsuPathProgramTable::readable(PROGRAM_PAGE));
    let t = SsuPathProgramTable::from_document(PROGRAM_PAGE).unwrap();
    assert_eq!(t.title, "봉사 프로그램");
    assert_eq!(t.content, "함께봉사합니다");
    // A row's keys are its cells at even places, its values those from the second on.
    assert_eq!(t.info, pairs(&[("대상", "재학생"), ("장소", "장소")]));
}

#[test]
fn program_table_without_title_or_table_is_refused() {
    let no_title = "<html><body><div id=\"tilesContent\"><p>x</p></div></body></html>";
    let e = SsuPathProgramTable::from_document(no_title).unwrap_err();
    assert_eq!(parse_message(e), "Cannot parse title of content");
    let no_table = "<html><body><div id=\"tilesContent\"><p>x</p><div class=\"table_top\"><h4>T</h4></div></div></body></html>";
    let e = SsuPathProgramTable::from_document(no_table).unwrap_err();
    assert_eq!(parse_message(e), "Cannot find program table of content");
}

#[test]
fn program_table_without_content_is_not_readable() {
    let page = PROGRAM_PAGE.replace("프로그램 주요내용", "개요");
    assert!(!SsuPathProgramTable::readable(&page));
    assert!(SsuPathProgramTable::try_from_document(&page).is_none());
    assert!(SsuPathProgramTable::try_from_document(PROGRAM_PAGE).unwrap().is_ok());
}

const COURSE_PAGE: &str = "<html><body><div id=\"tilesContent\">\
<div class=\"a\">a</div><div class=\"b\">b</div><div class=\"c\">c</div>\
<div class=\"table_top\"><h4>과정</h4></div>\
<div class=\"table_wrap\"><table><tbody><tr><th>기간</th><td>4\t주</td></tr></tbody></table></div>\
<div class=\"table_wrap\"><table><tbody>\
<tr class=\"first\"><th>1주차</th><th>주제</th><td>소개</td><th>강사</th><td>홍길동</td></tr>\
<tr><th>장소</th><td>강의실</td><th>비고</th></tr>\
</tbody></table></div>\
<div class=\"table_wrap\"><table><tbody><tr><td>2주차</td></tr></tbody></table></div>\
</div></body></html>";

#[test]
fn course_table_reads_overview_and_weeks() {
    let t = SsuPathCourseTable::from_document(COURSE_PAGE).unwrap();
    assert_eq!(t.overview, pairs(&[("기간", "4주")]));
    assert_eq!(t.weeks.len(), 2);
    assert_eq!(t.weeks[0].0, "1주차");
    assert_eq!(t.weeks[0].1, pairs(&[("주제", "소개"), ("강사", "홍길동"), ("장소", "강의실")]));
    assert_eq!(t.weeks[1].0, "2주차");
    assert!(t.weeks[1].1.is_empty());
}

#[test]
fn course_table_errors() {
    let none = "<html><body><div id=\"tilesContent\"></div></body></html>";
    assert_eq!(parse_message(SsuPathCourseTable::from_document(none).unwrap_err()), "Cannot find course table of content");
    let empty_week = COURSE_PAGE.replace("<tr><td>2주차</td></tr>", "<tr></tr>");
    assert_eq!(parse_message(SsuPathCourseTable::from_document(&empty_week).unwrap_err()), "Cannot parse week name");
}

fn division_headers() -> Vec<String> {
    ["번호", "분반명", "신청기간", "운영기간", "모집정원", "대기정원", "신청인원", "대기신청인원"]
        .iter()
        .map(|s| s.to_string())
        .collect()
}

fn cells(v: &[&str]) -> Vec<String> {
    v.iter().map(|s| format!("<td>{}</td>", s)).collect()
}

#[test]
fn division_row_reads_every_field() {
    let row = SsuPathDivisionTableRow::from_elem(
        division_headers(),
        cells(&[" 1 ", "1분반", "2024.03.01 09:00 ~ 2024.03.10 18:00", "2024-03-11 09:00:00 ~ 2024-03-12 18:00:00", "30", "5", "12", "0"]),
    )
    .unwrap();
    assert_eq!(row.order, 1);
    assert_eq!(row.name, "1분반");
    // 2024-03-01 09:00 in Korea Standard Time is 00:00 UTC.
    assert_eq!(row.apply_duration.0.unix_nanos, 1_709_251_200_000_000_000);
    assert_eq!(row.apply_duration.0.offset_seconds, 9 * 3600);
    assert_eq!(row.operate_duration.1.unix_nanos, 1_710_234_000_000_000_000);
    assert_eq!((row.total, row.awaiter, row.applier, row.await_applier), (30, 5, 12, 0));
}

#[test]
fn division_row_errors() {
    let e = SsuPathDivisionTableRow::from_elem(division_headers(), cells(&["1", "a"])).unwrap_err();
    assert_eq!(parse_message(e), "Cannot parse division table row, incorrect number of columns: expected 8, got 2");
    let mut heads = division_headers();
    heads[1] = "이름".to_string();
    let e = SsuPathDivisionTableRow::from_elem(
        heads,
        cells(&["1", "a", "2024.03.01 09:00 ~ 2024.03.10 18:00", "2024.03.01 09:00 ~ 2024.03.10 18:00", "1", "1", "1", "1"]),
    )
    .unwrap_err();
    assert_eq!(parse_message(e), "Cannot deserialize value to SsuPathDivisionTableRow: missing field `분반명`");
    let e = SsuPathDivisionTableRow::from_elem(
        division_headers(),
        cells(&["x", "a", "", "", "", "", "", ""]),
    )
    .unwrap_err();
    assert_eq!(parse_message(e), "Cannot deserialize value to SsuPathDivisionTableRow: invalid number at `번호`");
    let e = SsuPathDivisionTableRow::from_elem(
        division_headers(),
        cells(&["1", "a", "soon", "", "", "", "", ""]),
    )
    .unwrap_err();
    assert_eq!(
        parse_message(e),
        "Cannot deserialize value to SsuPathDivisionTableRow: Cannot parse date range: Cannot parse apply duration of entry"
    );
}

#[test]
fn division_table_reads_heads_and_rows() {
    let page = "<html><body><form name=\"viewForm\"><div class=\"table_wrap\"><table>\
<thead><tr><th>번호</th><th>분반명</th><th>신청기간</th><th>운영기간</th><th>모집정원</th><th>대기정원</th><th>신청인원</th><th>대기신청인원</th></tr></thead>\
<tbody><tr><td>2</td><td>B</td><td>2024.03.01 09:00 ~ 2024.03.10 18:00</td><td>2024.03.11 09:00 ~ 2024.03.12 18:00</td><td>1,0</td><td>0</td><td>0</td><td>0</td></tr></tbody>\
</table></div></form></body></html>";
    let e = SsuPathDivisionTable::from_document(page).unwrap_err();
    assert_eq!(parse_message(e), "Cannot deserialize value to SsuPathDivisionTableRow: invalid number at `모집정원`");
    let page = page.replace("1,0", "10");
    let t = SsuPathDivisionTable::from_document(&page).unwrap();
    assert_eq!(t.headers, division_headers());
    assert_eq!(t.rows.len(), 1);
    assert_eq!((t.rows[0].order, t.rows[0].total), (2, 10));
    let none = "<html><body><p>none</p></body></html>";
    assert_eq!(parse_message(SsuPathDivisionTable::from_document(none).unwrap_err()), "Cannot find division table of content");
}

use ssufid::datetime::Timestamp;
use ssufid::error::PluginError;
use ssufid::plugins::aix_notice::{AixNoticeRow, AixPlugin as AixNoticePlugin};
use ssufid::plugins::dorm_notice::{DormCrawl, SsuDormPlugin as DormNoticePlugin, SsuDormPostMetadata as DormNoticeMetadata};
use ssufid::plugins::gnuboard::{gnuboard_sites, CseEmploymentPlugin, GnuboardLayout, GnuboardListing, GnuboardMetadata, SwBachelorPlugin, SwGraduatePlugin};
use ssufid::plugins::infocom::{InfocomListing, InfocomPlugin};
use ssufid::plugins::lawyer::{extend_dedup, LawyerCrawl, LawyerPlugin, LawyerStep, PostMetadata as LawyerMetadata};
use ssufid::plugins::lawyer_notice::{self, LawyerPluginError, LawyerPostMetadata};
use ssufid::plugins::materials::{MaterialsListing, MaterialsPlugin, PostMetadata as MaterialsMetadata};
use ssufid::plugins::me::{MeCrawl, MePlugin, MePluginError, MePostMetadata, MeStep};
use ssufid::plugins::ssucatch::{SsuCatchMetadata, SsuCatchPlugin};
use ssufid::plugins::stat::{SsuStatPlugin, SsuStatPostMetadata, StatCrawl, StatFetch};
use ssufid::plugins::wordpress::{wordpress_sites, WordpressDateStyle, WordpressListing, WordpressMetadata, WordpressRow, WordpressSite};
use ssufid::plugins::{biz, oasis_board, stat};

fn at(y: i32, m: u8, d: u8, h: u8, mi: u8, s: u8, offset_hours: i8) -> Timestamp {
    let date = time::Date::from_calendar_date(y, time::Month::try_from(m).unwrap(), d).unwrap();
    let clock = time::Time::from_hms(h, mi, s).unwrap();
    let offset = time::UtcOffset::from_hms(offset_hours, 0, 0).unwrap();
    let dt = time::PrimitiveDateTime::new(date, clock).assume_offset(offset);
    Timestamp { unix_nanos: dt.unix_timestamp_nanos(), offset_seconds: offset.whole_seconds() }
}

fn date_error(text: &str, format: &str) -> time::error::Parse {
    time::Date::parse(text, &time::format_description::parse(format).unwrap()).unwrap_err()
}

fn kst(y: i32, m: u8, d: u8, h: u8, mi: u8, s: u8) -> Timestamp {
    at(y, m, d, h, mi, s, 9)
}

fn date_of(t: &Timestamp) -> time::Date {
    let offset = time::UtcOffset::from_whole_seconds(t.offset_seconds).unwrap();
    time::OffsetDateTime::from_unix_timestamp_nanos(t.unix_nanos).unwrap().to_offset(offset).date()
}

fn parse_message(e: &PluginError) -> &str {
    match e {
        PluginError::Parse { message, .. } => message.as_str(),
        _ => panic!("not a parse error: {:?}", e),
    }
}

const STAT_LIST: &str = "<!DOCTYPE html><html lang=\"ko\"><head><meta charset=\"utf-8\"><title>List</title></head><body>
<div class=\"table-responsive notice-table\">
    <table class=\"table\">
        <tbody>
            <tr>
                <td>463</td>
                <td><a href=\"notice_view.html?category=1&idx=1256\">2025학년도 기과융 학부생 하계인턴십 모집</a></td>
                <td>관리자</td>
                <td>2025.06.02</td>
                <td>78</td>
            </tr>
            <tr>
                <td>462</td>
                <td><a href=\"notice_view.html?category=1&idx=1253\">2025-1학기 졸업고사 결과</a></td>
                <td>관리자</td>
                <td>2025.03.18</td>
                <td>398</td>
            </tr>
        </tbody>
    </table>
</div>
<div class=\"paging\">
    <ul class=\"pagination justify-content-center\">
        <li class=\"page-item active\" ><a href=\"#none\" class=\"page-link\" >1</a></li>
        <li class=\"page-item\"><a href=\"#none\" class=\"page-link\" onclick=\"fnGoPage(2)\">2</a></li>
        <li class=\"page-item\"><a href=\"#none\" class=\"page-link\" onclick=\"fnGoPage(3)\">3</a></li>
        <li class=\"page-item\"><a href=\"#none\" class=\"page-link\" onclick=\"fnGoPage(24)\" style='margin-left:15px;'>>></a></li>
    </ul>
</div>
</body></html>";

const STAT_DETAIL: &str = "<!DOCTYPE html><html lang=\"ko\"><head><meta charset=\"utf-8\"><title>Detail</title></head><body>
<div class=\"table-responsive noticeView-table\">
    <table class=\"table\">
        <tr>
            <th colspan=\"2\">2025학년도 기과융 학부생 하계인턴십 모집</th>
        </tr>
        <tr>
            <td><i class=\"far fa-calendar-alt\"></i> 날짜 ㅣ 2025.06.02 </td>
            <td><i class=\"fas fa-mouse\"></i> 조회수 ㅣ 79 </td>
        </tr>
        <tr>
            <td>
                <i class=\"fas fa-file-upload\"></i>
                <span>첨부파일</span> &nbsp; <a href='/include/fileDownload.php?fileName=5c767d695f571e67d44e7644df6287a0.hwp'>붙임1-IIBS_2025학년도-학부생-인턴십-신청서.hwp</a>
            </td>
        </tr>
        <tr>
            <td colspan=\"2\" class=\"content\">
                <p>숭실대학교 기초과학융합연구소에서는 학부 재학생을 대상으로 연구를 직접 수행할 수 있는 기회를 제공하여 우수한 연구 인력 양성 및 대학원 진학을 돕고자 학부생 인턴십 과정을 모집합니다.</p>
            </td>
        </tr>
    </table>
</div>
</body></html>";

#[test]
fn test_date_parsing() {
    assert_eq!(date_of(&SsuStatPlugin::parse_date("2024.01.01").unwrap()), time::Date::from_calendar_date(2024, time::Month::January, 1).unwrap());
    assert_eq!(
        date_of(&SsuStatPlugin::parse_date("날짜 ㅣ 2023.12.31").unwrap()),
        time::Date::from_calendar_date(2023, time::Month::December, 31).unwrap()
    );
}

#[test]
fn test_parse_list_page_metadata_extraction() {
    let (metas, next) = SsuStatPlugin::parse_list_page(STAT_LIST, 1).unwrap();
    assert_eq!(metas.len(), 2, "Should parse 2 valid post items.");
    assert_eq!(metas[0].id, "1256");
    assert_eq!(metas[0].title_stub, "2025학년도 기과융 학부생 하계인턴십 모집");
    assert_eq!(metas[0].author, "관리자");
    assert_eq!(metas[0].date_str, "2025.06.02");
    assert_eq!(metas[0].url, "http://stat.ssu.ac.kr/notice_view.html?category=1&idx=1256");
    assert_eq!(metas[1].id, "1253");
    assert_eq!(metas[1].title_stub, "2025-1학기 졸업고사 결과");
    assert!(next);
    let (_, next_at_last) = SsuStatPlugin::parse_list_page(STAT_LIST, 24).unwrap();
    assert!(!next_at_last);
}

#[test]
fn test_get_last_page_number_parsing() {
    assert_eq!(SsuStatPlugin::get_last_page_number(STAT_LIST).unwrap(), 24, "Last page should be 24 from '>>' link.");
    let plain = "<div class=\"paging\"><ul class=\"pagination\"><a class=\"page-link\" onclick=\"fnGoPage(7)\">7</a>\
        <a class=\"page-link\" href=\"/notice.html?page=9\">9</a><a class=\"page-link\" onclick=\"other(99)\">x</a></ul></div>";
    assert_eq!(SsuStatPlugin::get_last_page_number(plain).unwrap(), 9);
    assert_eq!(SsuStatPlugin::get_last_page_number("<p>no paging</p>").unwrap(), 1);
}

#[test]
fn test_parse_full_post_detail_1256() {
    let metadata = SsuStatPostMetadata {
        id: "1256".to_string(),
        url: "http://stat.ssu.ac.kr/notice_view.html?category=1&idx=1256".to_string(),
        title_stub: "2025학년도 기과융 학부생 하계인턴십 모집".to_string(),
        author: "관리자".to_string(),
        date_str: "2025.06.02".to_string(),
    };
    let post = SsuStatPlugin::parse_post_page(STAT_DETAIL, &metadata).unwrap();
    assert_eq!(post.title, "2025학년도 기과융 학부생 하계인턴십 모집");
    assert_eq!(post.created_at, kst(2025, 6, 2, 0, 0, 0));
    assert!(post.content.contains("숭실대학교 기초과학융합연구소"));
    assert_eq!(post.attachments.len(), 1);
    assert_eq!(post.attachments[0].name.as_deref(), Some("붙임1-IIBS_2025학년도-학부생-인턴십-신청서.hwp"));
    assert_eq!(
        post.attachments[0].url,
        "http://stat.ssu.ac.kr/include/fileDownload.php?fileName=5c767d695f571e67d44e7644df6287a0.hwp"
    );
    assert_eq!(post.author.as_deref(), Some("관리자"));
    assert_eq!(post.category, vec!["공지사항".to_string()]);
}

#[test]
fn stat_post_without_title_is_refused() {
    let metadata = SsuStatPostMetadata {
        id: "1".to_string(),
        url: "http://stat.ssu.ac.kr/notice_view.html?idx=1".to_string(),
        title_stub: String::new(),
        author: String::new(),
        date_str: "2025.01.01".to_string(),
    };
    let e = SsuStatPlugin::parse_post_page("<p>nothing</p>", &metadata).unwrap_err();
    assert_eq!(parse_message(&e), "Title not found on detail page: http://stat.ssu.ac.kr/notice_view.html?idx=1");
    let e = SsuStatPlugin::parse_date("2025/01/01").unwrap_err();
    assert_eq!(e.message(), format!("Date parsing failed: Could not parse '2025/01/01': {}", date_error("2025/01/01", "[year].[month].[day]")));
}

#[test]
fn stat_fetches_retry_past_the_check_for_robots() {
    let url = "http://stat.ssu.ac.kr/notice.html?category=1&page=1";
    match SsuStatPlugin::after_fetch(url, 1, b"<html>ok</html>") {
        StatFetch::Accept(h) => assert_eq!(h, "<html>ok</html>"),
        _ => panic!("page refused"),
    }
    let check = b"<p>Please prove that you are human</p>";
    match SsuStatPlugin::after_fetch(url, 1, check) {
        StatFetch::Refetch(u) => assert_eq!(u, url),
        _ => panic!("no refetch"),
    }
    match SsuStatPlugin::after_fetch(url, 2, check) {
        StatFetch::Refetch(u) => assert_eq!(u, format!("{}&ckattempt=1", url)),
        _ => panic!("no refetch"),
    }
    match SsuStatPlugin::after_fetch("http://stat.ssu.ac.kr/x", 2, check) {
        StatFetch::Refetch(u) => assert_eq!(u, "http://stat.ssu.ac.kr/x?ckattempt=1"),
        _ => panic!("no refetch"),
    }
    match SsuStatPlugin::after_fetch(url, 3, check) {
        StatFetch::Refuse(e) => assert_eq!(parse_message(&e), format!("Security page detected, could not bypass: {}", url)),
        _ => panic!("not refused"),
    }
}

#[test]
fn stat_crawl_stops_after_three_empty_pages_or_the_limit() {
    let mut c = StatCrawl::new();
    assert!(c.wants_page(0, 10));
    assert!(c.take_listing(0, true));
    assert!(c.take_listing(0, true));
    assert!(!c.take_listing(0, true));
    let mut c = StatCrawl::new();
    assert!(c.take_listing(5, false));
    assert!(!c.has_next_page);
    assert!(!c.finish_page(5, 10));
    let mut c = StatCrawl::new();
    assert!(c.take_listing(5, true));
    assert!(!c.finish_page(10, 10));
    assert!(c.finish_page(5, 10));
    assert_eq!(c.page, 2);
    assert_eq!(SsuStatPlugin::posts_to_fetch(10, 5, 8), 3);
    assert_eq!(SsuStatPlugin::posts_to_fetch(2, 5, 8), 2);
    let e = PluginError::Parse { plugin: stat::IDENTIFIER.to_string(), message: "x SecurityPageDetected".to_string() };
    assert!(SsuStatPlugin::aborts_crawl(&e));
    let e = PluginError::Request { plugin: stat::IDENTIFIER.to_string(), message: "SecurityPageDetected".to_string() };
    assert!(!SsuStatPlugin::aborts_crawl(&e));
}

#[test]
fn test_selectors_creation() {
    for s in [
        biz::NOTICE_ITEMS_SELECTOR,
        biz::POST_LINK_SELECTOR,
        biz::DATE_AUTHOR_SELECTOR,
        biz::TITLE_DETAIL_SELECTOR,
        biz::CONTENT_DETAIL_SELECTOR,
        biz::ATTACHMENTS_CONTAINER_SELECTOR,
        biz::ATTACHMENT_ITEM_SELECTOR,
    ] {
        assert!(scraper::Selector::parse(s).is_ok(), "{}", s);
    }
}

#[test]
fn selectors_compile_and_are_not_empty() {
    for s in [
        oasis_board::NOTICE_LIST_ITEM_SELECTOR,
        oasis_board::NOTICE_URL_TITLE_SELECTOR,
        oasis_board::NOTICE_AUTHOR_SELECTOR,
        oasis_board::NOTICE_DATE_SELECTOR,
        oasis_board::POST_TITLE_SELECTOR,
        oasis_board::POST_CONTENT_SELECTOR,
        oasis_board::POST_ATTACHMENTS_SELECTOR,
        oasis_board::POST_INFO_AUTHOR_SELECTOR,
        oasis_board::POST_INFO_DATE_SELECTOR,
    ] {
        assert!(!s.is_empty());
        assert!(scraper::Selector::parse(s).is_ok(), "{}", s);
    }
}

#[test]
fn plugin_constants_check() {
    assert_eq!(lawyer_notice::IDENTIFIER, "lawyer.ssu.ac.kr");
    assert_eq!(lawyer_notice::TITLE, "숭실대학교 국제법무학과");
}

#[test]
fn lawyer_notice_pages_and_listing() {
    let html = "<div class=\"wrap\"><div id=\" 7 \"><p class=\"b-title\"><a> 제목 </a></p><p class=\"b-date\"> 2024-02-03 </p></div>\
        <div id=\"8\"><p class=\"b-title\"><a></a></p><p class=\"b-date\">2024-02-03</p></div></div>";
    let metas = lawyer_notice::LawyerPlugin::parse_list_page(html);
    assert_eq!(metas.len(), 1);
    assert_eq!(metas[0].id, "7");
    assert_eq!(metas[0].url, "http://lawyer.ssu.ac.kr/web/05/notice_view.do?board_seq=7");
    assert_eq!(metas[0].title, "제목");
    assert_eq!(metas[0].date_str, "2024-02-03");
    let post_html = "<dl class=\"board_view_info_title\"><dd> 제목2 </dd></dl>\
        <ul class=\"board_view_info_user\"><li><dl><dd>법학과</dd></dl></li></ul>\
        <div id=\"board_content\"><p>c</p></div>\
        <div class=\"board_view_file\"><ul><li><a href=\"/file/1.hwp\">1.hwp (5KB)</a></li></ul></div>";
    let p = lawyer_notice::LawyerPlugin::parse_post_page(post_html, &metas[0]).unwrap();
    assert_eq!(p.title, "제목2");
    assert_eq!(p.author.as_deref(), Some("숭실대학교 국제법무학과"));
    assert_eq!(p.content, "<p>c</p>");
    assert_eq!(p.created_at, at(2024, 2, 3, 0, 0, 0, 0));
    assert_eq!(p.attachments.len(), 1);
    assert_eq!(p.attachments[0].url, "http://lawyer.ssu.ac.kr/file/1.hwp");
    assert_eq!(p.attachments[0].name.as_deref(), Some("1.hwp"));
    let bad = LawyerPostMetadata { id: "1".to_string(), url: "not a url".to_string(), title: String::new(), date_str: "2024-01-01".to_string() };
    assert!(matches!(lawyer_notice::LawyerPlugin::parse_post_page(post_html, &bad), Err(LawyerPluginError::UrlParseError(_))));
    let bad_date = LawyerPostMetadata { date_str: "soon".to_string(), ..metas[0].clone() };
    match lawyer_notice::LawyerPlugin::parse_post_page(post_html, &bad_date) {
        Err(e) => {
            let why = time::Date::parse("soon", &time::format_description::well_known::Iso8601::DATE).unwrap_err();
            assert_eq!(e.message(), format!("Date parsing failed: {}", why));
        }
        Ok(_) => panic!("date accepted"),
    }
    assert_eq!(lawyer_notice::LawyerPlugin::pages_to_crawl(0), 0);
    assert_eq!(lawyer_notice::LawyerPlugin::pages_to_crawl(15), 1);
    assert_eq!(lawyer_notice::LawyerPlugin::pages_to_crawl(16), 2);
    let mut all = Vec::new();
    assert!(lawyer_notice::LawyerPlugin::add_page(&mut all, metas.clone()));
    assert!(lawyer_notice::LawyerPlugin::add_page(&mut all, Vec::new()));
    assert_eq!(lawyer_notice::LawyerPlugin::limit_listing(all, 0).len(), 0);
    assert_eq!(lawyer_notice::LawyerPlugin::page_url(2).unwrap(), "http://lawyer.ssu.ac.kr/web/05/notice_list.do?currPage=2");
}

fn lawyer_meta(id: &str) -> LawyerMetadata {
    LawyerMetadata { id: id.to_string(), title: format!("t{}", id), date_str: "2024-01-02".to_string() }
}

#[test]
fn lawyer_board_pages_forms_and_listing() {
    let html = "<div class=\"board-list-body\"><div class=\"col noti\" id=\"1\"><p class=\"b-title\"><a>pinned</a></p></div>\
        <div class=\"col\" id=\"55\"><p class=\"b-title\"><a> 제목 </a></p><p class=\"b-date\"> 2024-01-02 </p></div>\
        <div class=\"col\" id=\"56\"><p class=\"b-title\"><a>날짜 없음</a></p></div></div>";
    let metas = LawyerPlugin::parse_list_page(html).unwrap();
    assert_eq!(metas.len(), 2);
    assert_eq!((metas[0].id.as_str(), metas[0].title.as_str(), metas[0].date_str.as_str()), ("55", "제목", "2024-01-02"));
    assert_eq!(metas[1].date_str, "");
    let e = LawyerPlugin::parse_list_page("<div class=\"board-list-body\"><div class=\"col\"></div></div>").unwrap_err();
    assert_eq!(parse_message(&e), "Failed to extract post ID from div.col");
    let e = LawyerPlugin::parse_list_page("<div class=\"board-list-body\"><div class=\"col\" id=\"9\"></div></div>").unwrap_err();
    assert_eq!(parse_message(&e), "Failed to find title for post ID 9");
    let post = "<div class=\"titlearea\"><h4> 상세 </h4></div><ul class=\"date-view\"><li>등록일 2024-01-03 조회 5</li></ul>\
        <div class=\"board-content\"><p>x</p></div><div class=\"board-attach\"><file> a.hwp </file></div>";
    let p = LawyerPlugin::parse_post_page(post, &metas[0]).unwrap();
    assert_eq!(p.title, "상세");
    assert_eq!(p.created_at, kst(2024, 1, 3, 0, 0, 0));
    assert_eq!(p.content, "<p>x</p>");
    assert_eq!(p.url, "http://lawyer.ssu.ac.kr/web/05/notice_list.do");
    assert_eq!(p.attachments.len(), 1);
    assert_eq!(p.attachments[0].name.as_deref(), Some("a.hwp"));
    let e = LawyerPlugin::parse_post_page("<div class=\"board-content\"></div>", &metas[1]).unwrap_err();
    assert_eq!(parse_message(&e), format!("Failed to parse date string '' with format '[year]-[month]-[day]': {}", date_error("", "[year]-[month]-[day]")));
    let e = LawyerPlugin::parse_post_page("<p></p>", &metas[0]).unwrap_err();
    assert_eq!(parse_message(&e), "Failed to find content element for post ID 55 - 제목");
    let form = LawyerPlugin::list_form(3);
    assert_eq!(form[4], ("pageno".to_string(), "3".to_string()));
    assert_eq!(form[3], ("menuid".to_string(), "1003".to_string()));
    let form = LawyerPlugin::post_form("77".to_string());
    assert_eq!(form[2], ("pdsid".to_string(), "77".to_string()));
    let merged = extend_dedup(vec![lawyer_meta("1"), lawyer_meta("2")], vec![lawyer_meta("2"), lawyer_meta("3"), lawyer_meta("2")]);
    let ids: Vec<&str> = merged.iter().map(|m| m.id.as_str()).collect();
    assert_eq!(ids, vec!["1", "2", "3", "2"]);
    let mut c = LawyerCrawl::new();
    assert!(matches!(c.take_page(Ok(vec![lawyer_meta("1"), lawyer_meta("2")]), 3), LawyerStep::Next(2)));
    assert!(matches!(c.take_page(Ok(vec![lawyer_meta("3"), lawyer_meta("4")]), 3), LawyerStep::Done));
    assert_eq!(c.metas.len(), 3);
    let mut c = LawyerCrawl::new();
    let failure = PluginError::Request { plugin: "lawyer.ssu.ac.kr".to_string(), message: "down".to_string() };
    assert!(matches!(c.take_page(Err(failure.clone()), 3), LawyerStep::Fail(_)));
    c.page = 2;
    assert!(matches!(c.take_page(Err(failure), 3), LawyerStep::Done));
    let older = ssufid::post::SsufidPost { created_at: kst(2024, 1, 1, 0, 0, 0), ..p.clone() };
    let newer = ssufid::post::SsufidPost { created_at: kst(2024, 2, 1, 0, 0, 0), id: "n".to_string(), ..p.clone() };
    let sorted = LawyerPlugin::newest_first(vec![older, newer]);
    assert_eq!(sorted[0].id, "n");
}

const GNU_LIST: &str = "<div id=\"bo_list\"><table><tbody>\
    <tr><td class=\"td_num2\"><p> 학사 </p></td><td class=\"td_subject\"><div><a href=\"https://cse.ssu.ac.kr/bbs/board.php?bo_table=notice&wr_id=&wr_id=123\">제목</a></div></td><td class=\"td_name sv_use\"><span> 관리자 </span></td></tr>\
    <tr><td class=\"td_subject\"><div><a href=\"https://cse.ssu.ac.kr/bbs/board.php?bo_table=notice\">no id</a></div></td></tr>\
    <tr><td class=\"td_subject\"><div><a href=\"https://cse.ssu.ac.kr/bbs/board.php?wr_id=124\">두번째</a></div></td></tr>\
    </tbody></table></div>";

#[test]
fn gnuboard_list_and_post_pages() {
    let site = CseEmploymentPlugin::new().site();
    assert_eq!(site.identifier, "cse.ssu.ac.kr/employment");
    assert_eq!(site.page_url(3), "https://cse.ssu.ac.kr/bbs/board.php?bo_table=employment&page=3");
    let metas = site.parse_list_page(GNU_LIST).unwrap();
    assert_eq!(metas.len(), 2);
    assert_eq!(metas[0].id, "123");
    assert_eq!(metas[0].category.as_deref(), Some("학사"));
    assert_eq!(metas[0].author.as_deref(), Some("관리자"));
    assert_eq!(metas[1].id, "124");
    assert_eq!(metas[1].category, None);
    let e = site.parse_list_page("<p>nothing</p>").unwrap_err();
    assert_eq!(parse_message(&e), "Table element not found");
    let post = "<div id=\"bo_v_title\"><span class=\"bo_v_tit\"> 제목 </span></div>\
        <div id=\"bo_v_info\"><strong class=\"if_date\"><span>작성일</span>24-03-05 10:20</strong></div>\
        <div id=\"bo_v_con\"><p>a</p><img src=\"x.png\"><p>b</p></div>\
        <div id=\"bo_v_file\"><ul><li><a href=\"https://f/1\"><strong>file.pdf</strong> (1KB)</a></li><li><a>nolink</a></li></ul></div>";
    let p = site.parse_post_page(post, &metas[0]).unwrap();
    assert_eq!(p.title, "제목");
    assert_eq!(p.thumbnail.as_deref(), Some("x.png"));
    assert_eq!(p.content, "<p>a</p>\n<img src=\"x.png\">\n<p>b</p>");
    assert_eq!(p.created_at, kst(2024, 3, 5, 10, 20, 0));
    assert_eq!(p.category, vec!["학사".to_string()]);
    assert_eq!(p.attachments.len(), 2);
    assert_eq!(p.attachments[0].url, "https://f/1");
    assert_eq!(p.attachments[0].name.as_deref(), Some("file.pdf"));
    assert_eq!(p.attachments[1].url, "");
    assert_eq!(p.attachments[1].name, None);
    let e = site.parse_post_page("<div id=\"bo_v_title\"><span class=\"bo_v_tit\">t</span></div><div id=\"bo_v_con\"></div>", &metas[0]).unwrap_err();
    assert_eq!(parse_message(&e), format!("Created date element not found: URL {}", metas[0].url));
    assert_eq!(SwBachelorPlugin::new().site().base_url, "https://sw.ssu.ac.kr/bbs/board.php?bo_table=notice");
    assert_eq!(SwGraduatePlugin::new().site().identifier, "sw.ssu.ac.kr/graduate");
    let sites = gnuboard_sites();
    assert_eq!(sites.len(), 7);
    assert!(sites.iter().any(|s| s.layout == GnuboardLayout::Eco));
}

#[test]
fn gnuboard_listing_takes_what_is_wanted() {
    let meta = |id: &str| GnuboardMetadata { category: None, id: id.to_string(), url: String::new(), author: None };
    let mut l = GnuboardListing::new(3);
    assert!(l.wants_page());
    assert!(l.take_page(vec![meta("1"), meta("2")]));
    assert_eq!(l.remain, 1);
    assert!(l.take_page(vec![meta("3"), meta("4")]));
    assert!(!l.wants_page());
    assert_eq!(l.metas.len(), 3);
    assert_eq!(l.page, 3);
    let mut l = GnuboardListing::new(3);
    assert!(!l.take_page(Vec::new()));
}

fn table_site() -> WordpressSite {
    WordpressSite {
        identifier: "x.ssu.ac.kr",
        title: "t",
        description: "d",
        base_url: "https://x.ssu.ac.kr/board",
        dates: WordpressDateStyle::Dash,
        row: WordpressRow::Table,
    }
}

#[test]
fn wordpress_list_and_post_pages() {
    let site = table_site();
    assert_eq!(site.page_url(2), "https://x.ssu.ac.kr/board/page/2");
    let html = "<div class=\"baord_table\"><table><tbody>\
        <tr><td>공지</td><td><a href=\"https://x.ssu.ac.kr/board/?slug=abc\">  제목 </a></td><td>관리자</td><td>2024-05-01</td></tr>\
        <tr><td>12</td><td><a href=\"https://x.ssu.ac.kr/board/?slug=def\">두번째</a></td><td>관리자</td><td> 2024-04-01 </td></tr>\
        </tbody></table></div>";
    let metas = site.parse_list_page(html).unwrap();
    assert_eq!(metas.len(), 2);
    assert!(metas[0].is_announcement);
    assert!(!metas[1].is_announcement);
    assert_eq!(metas[0].title, "  제목 ");
    assert_eq!(metas[0].created_at, kst(2024, 5, 1, 0, 0, 0));
    let empty = "<div class=\"baord_table\"><table><tbody><tr><td colspan=\"4\">게시글이 없습니다</td></tr></tbody></table></div>";
    assert_eq!(site.parse_list_page(empty).unwrap().len(), 0);
    let bad = "<div class=\"baord_table\"><table><tbody><tr><td>1</td><td><a href=\"u\">t</a></td><td>x</td><td>May 1</td></tr></tbody></table></div>";
    assert_eq!(parse_message(&site.parse_list_page(bad).unwrap_err()), format!("Failed to parse date: {:?}", date_error("May 1", "[year]-[month]-[day]")));
    let post = "<table class=\"t_view\"><tr><td><p class=\"title\">제목<span>x</span></p>\
        <ul class=\"date_w\"><li><dl><dt>작성일</dt><dd> 2024-05-01 </dd></dl></li></ul>\
        <div class=\"td_box\"><p>본문</p></div></td></tr></table>";
    let p = site.parse_post_page(post, &metas[0]).unwrap();
    assert_eq!(p.id, "abc");
    assert_eq!(p.title, "제목");
    assert_eq!(p.content, "<p>본문</p>");
    assert_eq!(p.category, vec!["공지".to_string()]);
    assert_eq!(p.created_at, kst(2024, 5, 1, 0, 0, 0));
    let q = site.parse_post_page(post, &metas[1]).unwrap();
    assert!(q.category.is_empty());
    let no_slug = WordpressMetadata { url: "https://x.ssu.ac.kr/board/?p=1".to_string(), ..metas[1].clone() };
    assert_eq!(parse_message(&site.parse_post_page(post, &no_slug).unwrap_err()), "Failed to find 'slug' query parameter in the URL");
    let soar = WordpressSite { row: WordpressRow::Soar, dates: WordpressDateStyle::Korean, ..site };
    let soar_html = "<div class=\"baord_table\"><table><tbody>\
        <tr><td><a class=\"notice_color\" href=\"https://soar.ssu.ac.kr/news/notice/?slug=1\">공지 제목</a></td><td>x</td><td>2024년 3월 5일</td></tr>\
        </tbody></table></div>";
    let s = soar.parse_list_page(soar_html).unwrap();
    assert!(s[0].is_announcement);
    assert_eq!(s[0].created_at, kst(2024, 3, 5, 0, 0, 0));
    assert_eq!(wordpress_sites().len(), 31);
}

#[test]
fn wordpress_listing_counts_announcements_and_sorts() {
    let meta = |ann: bool, day: u8| WordpressMetadata {
        is_announcement: ann,
        title: String::new(),
        url: format!("u{}", day),
        created_at: kst(2024, 1, day, 0, 0, 0),
    };
    let mut l = WordpressListing::new();
    assert!(l.wants_page(2));
    assert!(l.take_page(vec![meta(true, 5), meta(false, 3)]));
    assert_eq!(l.announcements, 1);
    assert!(l.wants_page(2));
    assert!(l.take_page(vec![meta(false, 4)]));
    assert!(!l.wants_page(2));
    assert!(!l.take_page(Vec::new()));
    let v = l.finish();
    let days: Vec<&str> = v.iter().map(|m| m.url.as_str()).collect();
    assert_eq!(days, vec!["u3", "u4", "u5"]);
}

#[test]
fn me_pages_paging_and_crawl() {
    let html = "<table class=\"board-list\"><tbody><tr><td class=\"w_cell\">공지</td>\
        <td class=\"subject\"><a href=\"/notice/notice01.php?no=3061533&page=1\"> 제목 </a></td><td> 관리자 </td><td> 2024-06-01 </td></tr>\
        <tr><td class=\"w_cell\">12</td><td class=\"subject\"><a href=\"/notice/notice01.php?no=12\">t</a></td><td>a</td><td>2024-05-01</td></tr>\
        </tbody></table>";
    let metas = MePlugin::parse_list_page(html).unwrap();
    assert_eq!(metas.len(), 2);
    assert_eq!(metas[0].id, "3061533");
    assert_eq!(metas[0].url, "http://me.ssu.ac.kr/notice/notice01.php?no=3061533&page=1");
    assert_eq!(metas[0].title_from_list, "제목");
    assert_eq!(metas[0].author_from_list, "관리자");
    assert_eq!(metas[0].date_from_list, "2024-06-01");
    assert!(metas[0].is_notice);
    assert!(!metas[1].is_notice);
    let no_link = "<table class=\"board-list\"><tbody><tr><td>x</td></tr></tbody></table>";
    match MePlugin::parse_list_page(no_link) {
        Err(e) => assert_eq!(e.message(), "HTML element not found: td.subject > a"),
        Ok(_) => panic!("accepted"),
    }
    let with_last = format!("{}<div class=\"paging\"><a class=\"last\" href=\"?page=10\">끝</a></div>", html);
    assert!(MePlugin::has_more_pages(&with_last, 9).unwrap());
    assert!(!MePlugin::has_more_pages(&with_last, 10).unwrap());
    let with_next = format!("{}<div class=\"paging\"><a href=\"?page=3\">3</a></div>", html);
    assert!(MePlugin::has_more_pages(&with_next, 2).unwrap());
    assert!(!MePlugin::has_more_pages(&with_next, 3).unwrap());
    assert!(!MePlugin::has_more_pages("<p></p>", 1).unwrap());
    let post = "<div class=\"view_tit\"><h3 class=\"v_tit\">제목</h3><ul class=\"v_list\"><li>관리자</li><li>2024-06-02</li></ul></div>\
        <div class=\"view_con\"><p>c</p></div><div class=\"view_date\"><ul><li class=\"file\"><a href=\"/file/a.pdf\"> a.pdf </a></li></ul></div>";
    let p = MePlugin::parse_post_page(post, &metas[0]).unwrap();
    assert_eq!(p.created_at, kst(2024, 6, 2, 0, 0, 0));
    assert_eq!(p.content, "<div class=\"view_con\"><p>c</p></div>");
    assert_eq!(p.attachments[0].url, "http://me.ssu.ac.kr/file/a.pdf");
    assert_eq!(p.category, vec!["공지".to_string()]);
    let bad = MePostMetadata { date_from_list: "soon".to_string(), ..metas[1].clone() };
    assert!(matches!(MePlugin::parse_post_page("<p></p>", &bad), Err(MePluginError::DateParse(_))));
    let mut c = MeCrawl::new();
    assert!(matches!(c.take_page(metas.clone(), 5), MeStep::CheckMore));
    assert!(matches!(c.take_page(metas.clone(), 5), MeStep::CheckMore));
    assert_eq!(c.pages_without_new, 1);
    assert!(c.after_check(true));
    assert_eq!(c.page, 2);
    assert!(matches!(c.take_page(metas.clone(), 5), MeStep::CheckMore));
    assert!(matches!(c.take_page(metas.clone(), 5), MeStep::Done));
    assert_eq!(c.metas.len(), 2);
    let mut c = MeCrawl::new();
    assert!(matches!(c.take_page(metas.clone(), 1), MeStep::Done));
    assert_eq!(c.finish(1).len(), 1);
}

#[test]
fn ssucatch_pages_and_paging() {
    let html = "<ul class=\"notice-lists\"><li>header</li>\
        <li><div class=\"notice_col3\"><a href=\"https://scatch.ssu.ac.kr/notice/?slug=abc&category=x\">t</a></div><div class=\"notice_col4\"> 학생처 </div></li>\
        <li><div class=\"notice_col3\"><a href=\"https://scatch.ssu.ac.kr/notice/?category=x\">t</a></div></li></ul>";
    let metas = SsuCatchPlugin::try_parse_list_page(html).unwrap();
    assert_eq!(metas.len(), 1);
    assert_eq!(metas[0].id, "abc");
    assert_eq!(metas[0].author, "학생처");
    assert!(SsuCatchPlugin::try_parse_list_page("<p>no list</p>").is_none());
    let post = "<div class=\"bg-white\"><h2>제목</h2><span class=\"label\">학사</span><span class=\"label\"></span>\
        <div class=\"clearfix\"><div class=\"float-left mr-4\"> 2024년 3월 5일 </div></div><div><p>본문</p></div><img src=\"t.png\"></div>\
        <div class=\"download-list\"><a download href=\"/f/1.pdf\"> 1.pdf </a></div>";
    let p = SsuCatchPlugin::try_parse_post_page(post, &metas[0]).unwrap();
    assert_eq!(p.title, "제목");
    assert_eq!(p.category, vec!["학사".to_string()]);
    assert_eq!(p.created_at, kst(2024, 3, 5, 0, 0, 0));
    assert_eq!(p.content, "<div><p>본문</p></div>");
    assert_eq!(p.thumbnail.as_deref(), Some("t.png"));
    assert_eq!(p.attachments[0].url, "https://scatch.ssu.ac.kr/f/1.pdf");
    assert!(SsuCatchPlugin::try_parse_post_page("<p></p>", &metas[0]).is_none());
    let paging = "<a class=\"next-btn-last\" href=\"https://scatch.ssu.ac.kr/notice/page/57/\">last</a>";
    assert_eq!(SsuCatchPlugin::try_get_last_page_number(paging), Some(57));
    assert_eq!(SsuCatchPlugin::try_get_last_page_number("<p></p>"), None);
    assert_eq!(SsuCatchPlugin::pages_to_crawl(30), 3);
    let meta = |id: &str| SsuCatchMetadata { id: id.to_string(), url: String::new(), author: String::new() };
    let listed = SsuCatchPlugin::take_listed(vec![vec![meta("1"), meta("2")], vec![meta("3")]], 2);
    assert_eq!(listed.len(), 2);
    assert_eq!(listed[1].id, "2");
    assert_eq!(SsuCatchPlugin::page_url(2), "https://scatch.ssu.ac.kr/공지사항/page/2");
}

#[test]
fn infocom_pages_and_listing() {
    let html = "<a class=\"con_box\" href=\"/kor/notice/undergraduate.php?idx=123\"><div class=\"subject\"><span> 제목 </span></div>\
        <ul class=\"info\"><li class=\"date\">2024. 05. 06</li></ul></a>\
        <a class=\"con_box\" href=\"/kor/notice/undergraduate.php\"><div class=\"subject\"><span>x</span></div></a>";
    let metas = InfocomPlugin::parse_list_page(html).unwrap();
    assert_eq!(metas.len(), 1);
    assert_eq!(metas[0].id, "123");
    assert_eq!(metas[0].url, "http://infocom.ssu.ac.kr/kor/notice/undergraduate.php?idx=123");
    assert_eq!(metas[0].title, "제목");
    assert_eq!(metas[0].date, kst(2024, 5, 6, 0, 0, 0));
    let post = "<div class=\"view_box\"><div class=\"con\"><p>c</p></div><div class=\"file\"><a href=\"file.pdf\"> f </a><a>none</a></div></div>";
    let d = InfocomPlugin::try_parse_post_page(post, &metas[0].url).unwrap();
    assert_eq!(d.content, "<p>c</p>");
    assert_eq!(d.attachments.len(), 1);
    assert_eq!(d.attachments[0].url, "http://infocom.ssu.ac.kr/kor/notice/file.pdf");
    assert!(InfocomPlugin::try_parse_post_page(post, "not a url").is_none());
    let p = InfocomPlugin::into_post(metas[0].clone(), d);
    assert_eq!(p.title, "제목");
    assert_eq!(InfocomPlugin::page_url(2), "http://infocom.ssu.ac.kr/kor/notice/undergraduate.php?pNo=2&code=notice");
    let mut l = InfocomListing::new();
    assert!(l.wants_page(1));
    assert!(l.take_page(metas.clone()));
    assert!(!l.wants_page(1));
    assert!(l.wants_page(0));
    assert!(!l.take_page(Vec::new()));
    assert_eq!(l.finish(0).len(), 1);
}

#[test]
fn materials_pages_and_listing() {
    let html = "<div class=\"news-list\"><ul><li><a href=\" /bbs/board.php?tbl=bbs51&mode=VIEW&num=77 \">\
        <div class=\"txt_box\"><div class=\"tit_box\"><strong><span class=\"tag01\">공지</span> 제목 </strong></div></div></a></li></ul></div>";
    let metas = MaterialsPlugin::try_parse_list_page(html).unwrap().unwrap();
    assert_eq!(metas.len(), 1);
    assert_eq!(metas[0].id, "77");
    assert_eq!(metas[0].url, "https://materials.ssu.ac.kr/bbs/board.php?tbl=bbs51&mode=VIEW&num=77");
    assert_eq!(metas[0].title, "공지 제목");
    assert!(metas[0].is_notice);
    let no_num = "<div class=\"news-list\"><ul><li><a href=\"/bbs/board.php?tbl=bbs51\"><strong>x</strong></a></li></ul></div>";
    let e = MaterialsPlugin::try_parse_list_page(no_num).unwrap().unwrap_err();
    assert_eq!(parse_message(&e), "Could not extract post ID ('num') from URL: https://materials.ssu.ac.kr/bbs/board.php?tbl=bbs51");
    let post = "<div class=\"basic_bd01_view\"><div class=\"inner\"><div class=\"tit_box\"><p> 상세 </p><span> 2024.07.08 </span></div>\
        <div class=\"view_box\"><p>c</p><div class=\"file_box\"><ul><li><a href=\"/file/x.hwp\"> x.hwp </a></li></ul></div></div></div></div>";
    let p = MaterialsPlugin::parse_post_page(post, &metas[0]).unwrap();
    assert_eq!(p.title, "상세");
    assert_eq!(p.created_at, kst(2024, 7, 8, 0, 0, 0));
    assert_eq!(p.attachments[0].url, "https://materials.ssu.ac.kr/file/x.hwp");
    assert_eq!(p.attachments[0].name.as_deref(), Some("x.hwp"));
    assert_eq!(p.category, vec!["공지".to_string()]);
    let e = MaterialsPlugin::parse_post_page("<p></p>", &metas[0]).unwrap_err();
    assert_eq!(parse_message(&e), format!("No date found in post detail page for {}", metas[0].url));
    let meta = |id: &str| MaterialsMetadata { id: id.to_string(), url: String::new(), title: String::new(), is_notice: false };
    let mut l = MaterialsListing::new();
    assert_eq!(l.next_page(), 1);
    assert!(l.take_page(vec![meta("1")], 2));
    assert_eq!(l.next_page(), 2);
    assert!(!l.take_page(vec![meta("2"), meta("3")], 2));
    assert_eq!(l.metas.len(), 2);
}

#[test]
fn aix_notice_list_post_and_description() {
    let html = "<div class=\"table-responsive\"><table><tbody>\
        <tr><td><a href=\"notice_view.html?idx=5\"> 제목 </a></td><td>x</td><td>2024.01.02</td><td>y</td></tr>\
        <tr><td>short</td></tr></tbody></table></div>";
    let rows = AixNoticePlugin::parse_notice_list(html, 10).unwrap();
    assert_eq!(rows.len(), 1);
    assert_eq!(rows[0].post_url, "https://aix.ssu.ac.kr/notice_view.html?idx=5");
    assert_eq!(rows[0].post_id, "5");
    assert_eq!(rows[0].title, "제목");
    assert_eq!(AixNoticePlugin::parse_notice_list(html, 0).unwrap().len(), 0);
    assert_eq!(AixNoticePlugin::limit(50), 20);
    let bad = "<div class=\"table-responsive\"><table><tbody><tr><td><a href=\"other.html\">t</a></td><td></td><td></td><td></td></tr></tbody></table></div>";
    let e = AixNoticePlugin::parse_notice_list(bad, 10).unwrap_err();
    assert_eq!(parse_message(&e), "Skipping row with no suitable notice_view.html link in title: 't'");
    let post = "<div class=\"sub_notice_view\"><table><tbody><tr><td>title</td></tr>\
        <tr><td><li><a href=\"/lib/download.php?file_name=a.pdf\"> a.pdf </a></li></td></tr>\
        <tr><td><p>본문</p></td></tr></tbody></table></div>";
    let (content, atts) = AixNoticePlugin::parse_post_page(post).unwrap();
    assert_eq!(content, "<p>본문</p>");
    assert_eq!(atts.len(), 1);
    assert_eq!(atts[0].url, "https://aix.ssu.ac.kr/lib/download.php?file_name=a.pdf");
    assert_eq!(atts[0].mime_type.as_deref(), Some("application/pdf"));
    let long: String = "가".repeat(40);
    assert_eq!(AixNoticePlugin::description(&long), format!("{}...", "가".repeat(40)));
    let longer: String = "a".repeat(120);
    assert_eq!(AixNoticePlugin::description(&longer), format!("{}...", "a".repeat(100)));
    assert_eq!(AixNoticePlugin::description("<p>짧음</p>"), "짧음");
    let p = AixNoticePlugin::into_post(rows[0].clone(), content, atts);
    assert_eq!(p.created_at, at(2024, 1, 2, 0, 0, 0, 0));
    assert_eq!(p.category, vec!["공지사항".to_string()]);
    let _: Option<AixNoticeRow> = None;
}

#[test]
fn dorm_notice_pages_and_crawl() {
    let html = "<table bordercolor=\"#CCCCCC\" frame=\"hsides\"><tbody><tr><th>번호</th></tr>\
        <tr><td>1</td><td><a href=\"javascript:viewContent('123','456')\"> 제목 </a></td><td></td><td></td><td>2024-01-01</td></tr>\
        <tr><td><strong>공지</strong></td><td><a href=\"javascript:viewContent('1','2')\">x</a></td></tr></tbody></table>";
    let metas = DormNoticePlugin::parse_list_page(html);
    assert_eq!(metas.len(), 1);
    assert_eq!(metas[0].id, "456");
    assert_eq!(metas[0].title_from_list, "제목");
    assert_eq!(metas[0].date_str_from_list, "2024-01-01");
    let post = "<table summary=\"제목\"><tr><td class=\"bbs_title_style\"> 제목 </td></tr>\
        <tr><td height=\"25\">작성자: 운영사무실 조회수: 12 작성일: 2024-01-02 10:11</td></tr></table>\
        <table summary=\"내용\"><tr><td class=\"bbs_contents_style\"><p>x</p></td></tr></table>\
        <table summary=\"첨부파일\"><tr><td><a href=\"file_down.php?f=1\">f.hwp</a></td></tr></table>";
    let p = DormNoticePlugin::try_parse_post_page(post, &metas[0]).unwrap().unwrap();
    assert_eq!(p.title, "제목");
    assert_eq!(p.author.as_deref(), Some("운영사무실"));
    assert_eq!(p.created_at, kst(2024, 1, 2, 10, 11, 0));
    assert_eq!(p.content, "<td class=\"bbs_contents_style\"><p>x</p></td>");
    assert_eq!(p.attachments[0].url, "https://ssudorm.ssu.ac.kr:444/SShostel/file_down.php?f=1");
    let backwards = "<table summary=\"제목\"><tr><td height=\"25\">조회수: 1 작성자: a</td></tr></table>";
    assert!(DormNoticePlugin::try_parse_post_page(backwards, &metas[0]).is_none());
    let no_title = DormNoticeMetadata { ..metas[0].clone() };
    match DormNoticePlugin::try_parse_post_page("<p></p>", &no_title).unwrap() {
        Err(PluginError::Custom { kind, message, .. }) => {
            assert_eq!(kind, "TitleNotFound");
            assert_eq!(message, format!("Title not found for post: {}", no_title.url));
        },
        _ => panic!("title accepted"),
    }
    let mut c = DormCrawl::new();
    assert!(c.wants_page(3));
    assert_eq!(c.take_listing(5, 3), 3);
    c.post_failed();
    assert_eq!(c.collected, 2);
    assert!(c.finish_page(2, 3));
    assert_eq!(c.page, 2);
    assert!(!c.finish_page(3, 3));
    assert_eq!(DormNoticePlugin::page_url(3), "https://ssudorm.ssu.ac.kr:444/SShostel/mall_main.php?viewform=B0001_noticeboard_list&board_no=1&next=30");
}

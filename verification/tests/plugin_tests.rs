use ssufid::datetime::Timestamp;
use ssufid::error::PluginError;
use ssufid::plugins::aix::{AixCrawlState, AixPlugin, AixPostMetadata};
use ssufid::plugins::biz::{parse_date_author_string, BizMetadata, BizPlugin};
use ssufid::plugins::chemeng::{ChemEngPlugin, ChemEngPostMetadata};
use ssufid::plugins::ee::{full_url, EeListItem, EePlugin};
use ssufid::plugins::inso::{InsoPlugin, InsoPostMetadata};
use ssufid::plugins::lifelongedu::{LifelongEduError, LifelongEduPlugin};
use ssufid::plugins::oasis_board::{OasisMetadata, OasisPlugin};
use ssufid::plugins::ssudorm::{SsuDormPlugin, SsuDormPostMetadata};
use ssufid::plugins::ssupath::{SsuPathCredential, SsuPathPlugin, SsuPathProgram, SsuPathProgramKind};
use ssufid::plugins::study::{construct_post_url, select_post_numbers, StudyBoardRequest, StudyFile, StudyPaginationInfo};

fn kst(y: i32, m: u8, d: u8, h: u8, mi: u8, s: u8) -> Timestamp {
    let date = time::Date::from_calendar_date(y, time::Month::try_from(m).unwrap(), d).unwrap();
    let clock = time::Time::from_hms(h, mi, s).unwrap();
    let offset = time::UtcOffset::from_hms(9, 0, 0).unwrap();
    let dt = time::PrimitiveDateTime::new(date, clock).assume_offset(offset);
    Timestamp { unix_nanos: dt.unix_timestamp_nanos(), offset_seconds: offset.whole_seconds() }
}

fn parse_message(e: &PluginError) -> &str {
    match e {
        PluginError::Parse { message, .. } => message.as_str(),
        _ => panic!("not a parse error: {:?}", e),
    }
}

#[test]
fn test_construct_post_url() {
    let sb_seq = 2945;
    let url = construct_post_url(sb_seq);
    assert_eq!(url, Some("https://study.ssu.ac.kr/community/notice_view.do?sbSeq=Mjk0NQ%3D%3D".to_string()));
}

#[test]
fn test_parse_date_author_string() {
    let (date, author) = parse_date_author_string("2024-07-30 / 경영학부").unwrap();
    assert_eq!(date, "2024-07-30".to_string());
    assert_eq!(author, "경영학부".to_string());
}

#[test]
fn date_author_string_without_a_slash_is_refused() {
    let e = parse_date_author_string("2024-07-30").unwrap_err();
    assert_eq!(parse_message(&e), "Detail page: Could not parse date from detail string: 2024-07-30");
    let (date, author) = parse_date_author_string(" a / b / c ").unwrap();
    assert_eq!((date.as_str(), author.as_str()), ("a", "b / c"));
}

#[test]
fn test_parse_wr_id() {
    let url1 = "http://lifelongedu.ssu.ac.kr/bbs/board.php?bo_table=univ&wr_id=710";
    assert_eq!(LifelongEduPlugin::parse_wr_id_from_url(url1).unwrap(), "710");

    let url2 = "http://lifelongedu.ssu.ac.kr/bbs/board.php?bo_table=univ&wr_id=710&page=2&test=true";
    assert_eq!(LifelongEduPlugin::parse_wr_id_from_url(url2).unwrap(), "710");

    let url3 = "http://lifelongedu.ssu.ac.kr/bbs/board.php?bo_table=univ";
    assert!(LifelongEduPlugin::parse_wr_id_from_url(url3).is_err());
}

#[test]
fn lifelongedu_errors_name_what_is_missing() {
    assert!(matches!(LifelongEduPlugin::parse_wr_id_from_url("not a url"), Err(LifelongEduError::UrlNotFound)));
    let e = LifelongEduPlugin::parse_wr_id_from_url("http://x.kr/a?b=1").unwrap_err();
    assert_eq!(e.message(), "wr_id (post ID) not found in URL: http://x.kr/a?b=1");
}

#[test]
fn lifelongedu_post_dates_get_their_century() {
    let t = LifelongEduPlugin::parse_datetime_from_post("작성일 : 24-07-02 11:20").unwrap();
    assert_eq!(t, kst(2024, 7, 2, 11, 20, 0));
    let u = LifelongEduPlugin::parse_datetime_from_post("2024-06-30 09:05").unwrap();
    assert_eq!(u, kst(2024, 6, 30, 9, 5, 0));
    match LifelongEduPlugin::parse_datetime_from_post("작성일 : 어제") {
        Err(LifelongEduError::DateParse(text)) => {
            let f = time::format_description::parse("[year]-[month]-[day] [hour]:[minute]").unwrap();
            assert_eq!(text, time::PrimitiveDateTime::parse("어제", &f).unwrap_err().to_string());
        }
        other => panic!("unexpected {:?}", other),
    }
}

#[test]
fn lifelongedu_crawl_reads_a_bounded_number_of_pages() {
    assert_eq!(LifelongEduPlugin::max_pages_to_check(30), 4);
    assert!(LifelongEduPlugin::reads_page(4, 0, 30));
    assert!(!LifelongEduPlugin::reads_page(5, 0, 30));
    assert!(!LifelongEduPlugin::reads_page(1, 30, 30));
}

#[test]
fn test_extract_id() {
    let plugin = OasisPlugin::new();
    let url1 = "https://oasis.ssu.ac.kr/library-services/bulletin/notice/3039";
    assert_eq!(plugin.extract_id_from_url(url1).unwrap(), "3039");
    let url2 = "https://oasis.ssu.ac.kr/library-services/bulletin/notice/123";
    assert_eq!(plugin.extract_id_from_url(url2).unwrap(), "123");
    let url3 = "https://oasis.ssu.ac.kr/library-services/bulletin/notice/3039?query=param";
    assert_eq!(plugin.extract_id_from_url(url3).unwrap(), "3039");

    let invalid_url_no_id = "https://oasis.ssu.ac.kr/library-services/bulletin/notice/";
    assert!(plugin.extract_id_from_url(invalid_url_no_id).is_err());
    let invalid_url_not_number = "https://oasis.ssu.ac.kr/library-services/bulletin/notice/abc";
    assert!(plugin.extract_id_from_url(invalid_url_not_number).is_err());
}

#[test]
fn test_parse_notice_list_mocked() {
    let plugin = OasisPlugin::new();
    let mock_html = r#"
        <table class="board-table-valign-top">
            <tbody>
                <tr> <!-- Header Row, should be skipped or handled if selectors are too general -->
                    <th>번호</th><th class="subject">제목</th><th class="writer">작성자</th><th class="date">작성일</th><th>조회수</th>
                </tr>
                <tr>
                    <td class="td-num">123</td>
                    <td class="subject"><a href="/library-services/bulletin/notice/3039">공지사항 제목 1</a></td>
                    <td class="writer">도서관팀</td>
                    <td class="date">2023.10.26</td>
                    <td class="td-hit">100</td>
                </tr>
                <tr>
                    <td class="td-num">공지</td> <!-- "공지" items might not have a numeric ID in this cell -->
                    <td class="subject"><a href="/library-services/bulletin/notice/3040">중요 공지사항 제목 2</a></td>
                    <td class="writer">정보서비스팀</td>
                    <td class="date">2023.10.27</td>
                    <td class="td-hit">200</td>
                </tr>
                <tr>
                    <td class="td-num">121</td>
                    <td class="subject"><a href="/library-services/bulletin/notice/invalid-id-format">ID형식오류</a></td>
                    <td class="writer">도서관팀</td>
                    <td class="date">2023.10.28</td>
                    <td class="td-hit">300</td>
                </tr>
            </tbody>
        </table>
        "#;

    let metadata_list = plugin
        .parse_notice_list_metadata_from_html(mock_html, ssufid::plugins::oasis_board::BASE_URL)
        .expect("Parsing notice list metadata should not fail overall for this mock");

    assert_eq!(metadata_list.len(), 2, "Should only include items with valid IDs");

    let meta1 = &metadata_list[0];
    assert_eq!(meta1.id, "3039");
    assert_eq!(meta1.title, "공지사항 제목 1");
    assert_eq!(meta1.author_name, Some("도서관팀".to_string()));
    assert_eq!(meta1.date_str, "2023.10.26");
    assert_eq!(meta1.url, "https://oasis.ssu.ac.kr/library-services/bulletin/notice/3039");

    let meta2 = &metadata_list[1];
    assert_eq!(meta2.id, "3040");
    assert_eq!(meta2.title, "중요 공지사항 제목 2");
    assert_eq!(meta2.author_name, Some("정보서비스팀".to_string()));
    assert_eq!(meta2.date_str, "2023.10.27");
    assert_eq!(meta2.url, "https://oasis.ssu.ac.kr/library-services/bulletin/notice/3040");
}

#[test]
fn test_parse_post_details_mocked() {
    let plugin = OasisPlugin::new();
    let mock_metadata = OasisMetadata {
        id: "3039".to_string(),
        url: "https://oasis.ssu.ac.kr/library-services/bulletin/notice/3039".to_string(),
        title: "미리 정의된 공지사항 제목".to_string(),
        author_name: Some("목록페이지작성자".to_string()),
        date_str: "2023.10.26".to_string(),
    };

    let mock_html_post = r#"
        <div>
            <div class="board-view-title-wrap">
                 <div class="subject"><h1>실제 공지사항 제목</h1></div>
            </div>
            <div class="board-view-info-wrap">
                <ul>
                    <li class="name"><span>실제작성자</span></li>
                    <li class="date"><span>2023.11.15 14:30</span></li>
                </ul>
            </div>
            <div class="view-content">
                <p>이것은 공지사항의 내용입니다.</p>
                <img src="/some/image.jpg">
            </div>
            <div class="file_list_wrap">
                <ul class="file_list">
                    <li><a href="/download?file_id=1">첨부파일1.pdf</a><span>(123KB)</span></li>
                    <li><a href="/download?file_id=2&name=첨부파일2.docx">첨부파일2.docx</a><span>(45KB)</span></li>
                    <li><a href="javascript:void(0);">무효한링크.txt</a></li>
                </ul>
            </div>
        </div>
        "#;

    let post = plugin.parse_post_details_from_html(&mock_metadata, mock_html_post).unwrap();

    assert_eq!(post.id, "3039");
    assert_eq!(post.title, "실제 공지사항 제목");
    assert_eq!(post.author, Some("실제작성자".to_string()));
    let expected_content = "<p>이것은 공지사항의 내용입니다.</p>\n                <img src=\"/some/image.jpg\">";
    assert_eq!(post.content.trim().replace("  ", ""), expected_content.trim().replace("  ", ""));

    assert_eq!(post.created_at, kst(2023, 11, 15, 14, 30, 0));

    assert_eq!(post.attachments.len(), 2);
    let attach1 = &post.attachments[0];
    assert_eq!(attach1.name, Some("첨부파일1.pdf".to_string()));
    assert_eq!(attach1.url, "https://oasis.ssu.ac.kr/download?file_id=1");
    assert_eq!(attach1.mime_type, Some("application/pdf".to_string()));

    let attach2 = &post.attachments[1];
    assert_eq!(attach2.name, Some("첨부파일2.docx".to_string()));
    assert_eq!(
        attach2.url,
        "https://oasis.ssu.ac.kr/download?file_id=2&name=%EC%B2%A8%EB%B6%80%ED%8C%8C%EC%9D%BC2.docx"
    );
    assert_eq!(
        attach2.mime_type,
        Some("application/vnd.openxmlformats-officedocument.wordprocessingml.document".to_string())
    );
}

#[test]
fn oasis_post_with_an_unreadable_date_is_refused() {
    let plugin = OasisPlugin::new();
    let meta = OasisMetadata {
        id: "1".to_string(),
        url: "https://oasis.ssu.ac.kr/x/1".to_string(),
        title: "t".to_string(),
        author_name: None,
        date_str: "someday".to_string(),
    };
    let e = plugin.parse_post_details_from_html(&meta, "<div></div>").unwrap_err();
    assert!(matches!(e, PluginError::Parse { .. }));
    let ok = OasisMetadata { date_str: "2023.10.26".to_string(), ..meta };
    let post = plugin.parse_post_details_from_html(&ok, "<div></div>").unwrap();
    assert_eq!(post.created_at, kst(2023, 10, 26, 0, 0, 0));
    assert_eq!(post.title, "t");
    assert_eq!(post.content, "");
}

#[test]
fn plugin_compiles() {
    let _plugin = AixPlugin::new();
}

#[test]
fn aix_list_page_rows_and_next_page() {
    let html = r#"<html><body>
        <div class="table-responsive"><table class="table"><tbody>
            <tr><th>제목</th></tr>
            <tr><td>[공지] <a href="/notice_view.html?idx=61&page=1">학사 안내</a></td><td>관리자</td><td>2025.06.11</td></tr>
            <tr><td><a href="javascript:void(0)">스크립트</a></td><td></td><td></td></tr>
        </tbody></table></div>
        <div class="paging"><ul class="pagination">
            <li class="page-item"><a class="page-link" onclick="fnGoPage(2)">2</a></li>
        </ul></div>
    </body></html>"#;
    let (metas, next) = AixPlugin::parse_list_page(html, 1).unwrap();
    assert_eq!(metas.len(), 1);
    assert_eq!(metas[0].id, "61");
    assert_eq!(metas[0].url, "https://aix.ssu.ac.kr/notice_view.html?idx=61&page=1");
    assert_eq!(metas[0].title_main, "학사 안내");
    assert_eq!(metas[0].title_prefix, "[공지]");
    assert_eq!(metas[0].author, "관리자");
    assert_eq!(metas[0].date_str, "2025.06.11");
    assert_eq!(next, Some(2));
    let (_, last) = AixPlugin::parse_list_page(html, 2).unwrap();
    assert_eq!(last, None);
}

#[test]
fn aix_row_without_a_post_number_is_refused() {
    let html = r#"<div class="table-responsive"><table class="table"><tbody>
        <tr><td><a href="/notice_view.html?page=1">x</a></td><td></td><td></td></tr>
    </tbody></table></div>"#;
    let e = AixPlugin::parse_list_page(html, 1).unwrap_err();
    assert_eq!(parse_message(&e), "Post ID (idx) not found in URL: https://aix.ssu.ac.kr/notice_view.html?page=1");
}

#[test]
fn aix_post_page_reads_its_line_of_author_and_date() {
    let meta = AixPostMetadata {
        id: "61".to_string(),
        url: "https://aix.ssu.ac.kr/notice_view.html?idx=61".to_string(),
        title_prefix: "[공지]".to_string(),
        title_main: "학사 안내".to_string(),
        author: String::new(),
        date_str: "2025.06.01".to_string(),
    };
    let html = r#"<div class="sub_notice_view"><table>
        <tr><th><h4> 학사 안내 (수정) </h4></th></tr>
        <tr><td>작성자 : 학부사무실 ｜ 작성일 : 2025.06.11 ｜ 조회수: 3785</td></tr>
        <tr><td><a href="/files/a.pdf">a.pdf</a></td></tr>
        <tr><td><p>본문</p></td></tr>
    </table></div>"#;
    let post = AixPlugin::parse_post_page(html, &meta).unwrap();
    assert_eq!(post.title, "학사 안내 (수정)");
    assert_eq!(post.author, Some("학부사무실".to_string()));
    assert_eq!(post.created_at, kst(2025, 6, 11, 0, 0, 0));
    assert_eq!(post.attachments.len(), 1);
    assert_eq!(post.attachments[0].url, "https://aix.ssu.ac.kr/files/a.pdf");
    assert_eq!(post.attachments[0].name, Some("a.pdf".to_string()));
    assert!(post.content.contains("본문"));
    let bad = AixPlugin::parse_post_page("<div></div>", &AixPostMetadata { date_str: "soon".to_string(), ..meta });
    assert!(bad.is_err());
}

#[test]
fn aix_crawl_stops_on_an_empty_page_or_past_the_last() {
    let mut s = AixCrawlState::new();
    assert!(s.wants_page(10));
    let row = |id: &str| AixPostMetadata {
        id: id.to_string(),
        url: String::new(),
        title_prefix: String::new(),
        title_main: String::new(),
        author: String::new(),
        date_str: String::new(),
    };
    s.take_page(vec![row("1"), row("2")], Some(2));
    assert_eq!(s.current_page, 2);
    assert!(s.wants_page(10));
    assert!(!s.wants_page(2));
    s.take_page(vec![], Some(3));
    assert!(!s.wants_page(10));
    let picked = s.selected(1);
    assert_eq!(picked.len(), 1);
    assert_eq!(picked[0].id, "1");
    assert_eq!(AixPlugin::page_url(1), "https://aix.ssu.ac.kr/notice.html");
    assert_eq!(AixPlugin::page_url(3), "https://aix.ssu.ac.kr/notice.html?page=3");
}

#[test]
fn ee_full_url_joins_a_path() {
    assert_eq!(full_url("http://example.com", "/path").unwrap(), "http://example.com/path");
    assert!(matches!(full_url("not a base", "/x"), Err(PluginError::Custom { .. })));
}

#[test]
fn ee_dates_read_with_or_without_a_time() {
    assert_eq!(EePlugin::parse_date_string("2025-05-12 14:44:58").unwrap(), kst(2025, 5, 12, 14, 44, 58));
    assert_eq!(EePlugin::parse_date_string("2025.05.12").unwrap(), kst(2025, 5, 12, 0, 0, 0));
    assert!(EePlugin::parse_date_string("12 May").is_err());
}

#[test]
fn ee_post_numbers_come_from_the_idx_pair() {
    let url1 = "http://ee.ssu.ac.kr/sub/sub05_01.php?boardid=notice&mode=view&idx=232&sk=&sw=&offset=&category=";
    assert_eq!(EePlugin::extract_idx_from_url(url1).unwrap(), "232");
    assert!(EePlugin::extract_idx_from_url("http://ee.ssu.ac.kr/sub/sub05_01.php").is_err());
}

#[test]
fn ee_pages_and_download_links() {
    let list = r#"<div class="board-list2"><ul>
        <li class="label"><div class="subject"><a href="x">header</a></div></li>
        <li><div class="subject"><a href=" /sub/sub05_01.php?mode=view&idx=7 "> 공지 </a></div></li>
        <li><div class="subject"><a href="/y">  </a></div></li>
    </ul></div><div class="paginate"><a class="next" href="?page=2">next</a></div>"#;
    let (items, has_next) = EePlugin::parse_list_page(list);
    assert_eq!(items.len(), 1);
    assert_eq!(items[0].relative_url, "/sub/sub05_01.php?mode=view&idx=7");
    assert_eq!(items[0].title_on_list, "공지");
    assert!(has_next);
    let (url, id) = EePlugin::view_target(&items[0]).unwrap();
    assert_eq!(url, "http://ee.ssu.ac.kr/sub/sub05_01.php?mode=view&idx=7");
    assert_eq!(id, "7");
    assert_eq!(
        EePlugin::attachment_url("javascript:download('notice','12','3')"),
        Some("http://ee.ssu.ac.kr/module/board/download.php?boardid=notice&b_idx=12&idx=3".to_string())
    );
    let view = r#"<div class="board-view"><div class="head"><h3 class="tit">제목</h3>
        <div class="info"><span class="date">2025-05-12 14:44:58</span></div>
        <div class="files"><a href="javascript:download('notice','12','3')" onclick="download()"></a></div></div>
        <div class="body"><p>본문</p></div></div>"#;
    let post = EePlugin::parse_view_page(view, &items[0], url.clone(), id.clone()).unwrap();
    assert_eq!(post.title, "제목");
    assert_eq!(post.author, Some("전기공학부".to_string()));
    assert_eq!(post.content, "<p>본문</p>");
    assert_eq!(post.attachments.len(), 1);
    assert_eq!(post.attachments[0].name, Some("Attachment for post 7".to_string()));
    let item = EeListItem { relative_url: String::new(), title_on_list: String::new() };
    assert!(EePlugin::parse_view_page("<div></div>", &item, url, id).is_err());
    assert!(EePlugin::limit_reached(3, 3));
    assert!(!EePlugin::limit_reached(3, 0));
    assert!(!EePlugin::reads_next_page(0, 2, true));
    assert!(EePlugin::reads_next_page(0, 1, true));
}

#[test]
fn dorm_pages_decode_and_read() {
    assert_eq!(SsuDormPlugin::decode_euc_kr(&[0xB0, 0xF8, 0xC1, 0xF6]), "공지");
    assert_eq!(SsuDormPlugin::decode_euc_kr(b"plain"), "plain");
    assert_eq!(SsuDormPlugin::post_id_from_call("javascript:viewContent('2345')"), Some("2345".to_string()));
    assert_eq!(SsuDormPlugin::post_id_from_call("javascript:viewContent('null')"), None);
    assert_eq!(SsuDormPlugin::post_id_from_call("javascript:viewContent()"), None);
    assert!(SsuDormPlugin::list_page_url(3).ends_with("&next=30"));
    let list = r##"<table bordercolor="#CCCCCC" frame="hsides"><tbody>
        <tr><td>h</td></tr><tr><td>h</td></tr>
        <tr><td>1</td><td><a href="javascript:viewContent('88')">기숙사 공지</a></td><td></td><td></td><td>2025-03-01</td></tr>
    </tbody></table>"##;
    let metas = SsuDormPlugin::parse_list_page(list);
    assert_eq!(metas.len(), 1);
    assert_eq!(metas[0].id, "88");
    assert!(metas[0].url.ends_with("&idx=88"));
    assert_eq!(metas[0].title_from_list, "기숙사 공지");
    assert_eq!(metas[0].date_str_from_list, "2025-03-01");
    let page = r##"<table><tr><td bgcolor="#edf8fc"> 제목 </td></tr>
        <tr><td height="38"><table><tbody><tr><td>작성자 : 관리실</td><td>x</td><td>작성일 : 2025-03-01 10:30</td></tr></tbody></table></td></tr>
        <tr><td class="descript"><p>본문</p></td></tr></table>"##;
    let post = SsuDormPlugin::parse_post_page(page, &metas[0]).unwrap();
    assert_eq!(post.title, "제목");
    assert_eq!(post.author, Some("관리실".to_string()));
    assert_eq!(post.created_at, kst(2025, 3, 1, 10, 30, 0));
    let meta = SsuDormPostMetadata { id: "1".to_string(), url: "u".to_string(), title_from_list: String::new(), date_str_from_list: String::new() };
    let e = SsuDormPlugin::parse_post_page("<p></p>", &meta).unwrap_err().into_plugin_error();
    match e {
        PluginError::Custom { kind, message, .. } => {
            assert_eq!(kind, "TitleNotFound");
            assert_eq!(message, "Title not found for post: u");
        },
        other => panic!("unexpected {:?}", other),
    }
}

#[test]
fn ssupath_reads_a_single_program_entry() {
    let entry = r#"<ul><li>
        <div class="img_wrap"><img src="/thumb.png"></div>
        <a class="tit" data-params='{"encSddpbSeq":"ABC123"}'>AI 특강</a>
        <p class="desc">설명</p>
        <div class="label_box">모집중</div>
        <ul class="major_type"><li>컴퓨터</li><li> </li></ul>
        <div class="info_wrap">
            <dl><dt>신청대상</dt><dd>학부생</dd></dl>
            <dl><dt>신청신분</dt><dd>재학생</dd></dl>
            <dl><dt>신청기간</dt><dd>2025.03.01 09:00 ~ 2025.03.10 18:00</dd></dl>
            <dl><dt>교육기간</dt><dd>2025-03-11 10:00:00 ~ 2025-03-12 12:00:00</dd></dl>
        </div>
        <div class="etc_cont">
            <dl><dt>마일리지</dt><dd>1,000</dd></dl>
            <dl><dt>신청자</dt><dd>12</dd></dl>
            <dl><dt>대기자</dt><dd>0</dd></dl>
            <dl><dt>모집정원</dt><dd>30</dd></dl>
        </div>
    </li></ul>"#;
    let p = SsuPathProgram::from_element(entry).unwrap();
    assert_eq!(p.id, "ABC123");
    assert_eq!(p.title, "AI 특강");
    assert_eq!(p.thumbnail, "/thumb.png");
    assert_eq!(p.major_types, vec!["컴퓨터".to_string()]);
    assert_eq!(p.target, "학부생");
    match &p.kind {
        SsuPathProgramKind::Single { apply_duration, course_duration, miles, applier, awaiter, total } => {
            assert_eq!(apply_duration.0, kst(2025, 3, 1, 9, 0, 0));
            assert_eq!(apply_duration.1, kst(2025, 3, 10, 18, 0, 0));
            assert_eq!(course_duration.0, kst(2025, 3, 11, 10, 0, 0));
            assert_eq!((*miles, *applier, *awaiter, *total), (1000, 12, 0, 30));
        },
        _ => panic!("expected a single program"),
    }
    assert_eq!(p.create_at(), kst(2025, 3, 1, 9, 0, 0));
    let missing = SsuPathProgram::from_element("<div></div>").unwrap_err().into_plugin_error();
    assert_eq!(parse_message(&missing), "Cannot parse title of entry");
    let plugin = SsuPathPlugin::new(SsuPathCredential::Token("20250000".to_string(), "t".to_string()));
    assert!(matches!(plugin.credential, SsuPathCredential::Token(..)));
    assert_eq!(SsuPathPlugin::pages_for(25), 3);
    assert_eq!(SsuPathPlugin::pages_for(0), 0);
}

#[test]
fn biz_list_and_post_pages() {
    let list = r#"<ul id="bList01">
        <li class="paging"><span>1</span></li>
        <li><div><a href="/bbs/view.do?bId=BBS_03_NOTICE&aId=77">공지 제목</a></div><div><span>2024-07-30 / 경영학부</span></div></li>
    </ul>"#;
    let metas = BizPlugin::parse_list_page(list).unwrap();
    assert_eq!(metas.len(), 1);
    assert_eq!(metas[0].id, "77");
    assert_eq!(metas[0].url, "http://biz.ssu.ac.kr/bbs/view.do?bId=BBS_03_NOTICE&aId=77");
    assert_eq!(metas[0].date_str, "2024-07-30");
    assert_eq!(metas[0].author, "경영학부");
    let page = r#"<div id="postTitle"><span>제목</span></div><div id="postContents">본문</div>
        <ul id="postFileList"><li><a href="download.do?f=1">a.hwp</a></li></ul>"#;
    let post = BizPlugin::parse_post_page(page, &metas[0]).unwrap();
    assert_eq!(post.title, "제목");
    assert_eq!(post.created_at, kst(2024, 7, 30, 0, 0, 0));
    assert_eq!(post.attachments[0].url, "http://biz.ssu.ac.kr/bbs/download.do?f=1");
    let meta = BizMetadata { id: "1".to_string(), url: "u".to_string(), date_str: "x".to_string(), author: "a".to_string() };
    let e = BizPlugin::parse_post_page("<p></p>", &meta).unwrap_err();
    assert_eq!(parse_message(&e), "Detail page: Title (div#postTitle > span.fixedPost) not found for URL: u");
    let mut all = vec![meta.clone(), meta.clone()];
    BizPlugin::add_page(&mut all, vec![meta.clone(), meta.clone(), meta], 3);
    assert_eq!(all.len(), 3);
}

#[test]
fn chemeng_list_total_pages_and_post() {
    let list = r#"<body><table>
        <tr><th>번호</th><th>제목</th><th>작성자</th><th>작성일</th></tr>
        <tr><td>공지</td><td><a href="/sub/sub03_01.php?mode=view">장학 공지 안내입니다 여러분</a></td><td>학과</td><td>2025-02-03</td></tr>
        <tr><td>12</td><td><a href="/sub/sub03_01.php?mode=view&idx=99">일반</a></td><td>조교</td><td>2025-02-04</td></tr>
        <tr><td>11</td><td><a href="/sub/sub03_01.php?mode=view&idx=98">날짜 없음</a></td><td>조교</td><td>미정</td></tr>
    </table><p>페이지정보 : 1 / 69 쪽</p></body>"#;
    let metas = ChemEngPlugin::parse_list_page(list).unwrap();
    assert_eq!(metas.len(), 2);
    assert_eq!(metas[0].id, "notice_2025-02-03_장학 공지 안내입니");
    assert_eq!(metas[1].id, "99");
    assert_eq!(metas[1].url, "http://chemeng.ssu.ac.kr/sub/sub03_01.php?mode=view&idx=99");
    assert_eq!(ChemEngPlugin::get_total_pages_from_list_html(list), 69);
    assert_eq!(ChemEngPlugin::get_total_pages_from_list_html("<body></body>"), 70);
    assert_eq!(
        ChemEngPlugin::get_list_page_url(3),
        Some("http://chemeng.ssu.ac.kr/sub/sub03_01.php?boardid=notice1&offset=20".to_string())
    );
    let meta = ChemEngPostMetadata {
        id: "99".to_string(),
        url: "u".to_string(),
        title_on_list: "일반".to_string(),
        author_on_list: "조교".to_string(),
        date_str_on_list: "2025-02-04".to_string(),
    };
    let page = r#"<div class="board-view"><div class="head"><h3 class="tit"></h3>
        <div class="info"><span class="name">작성자 <strong>교수</strong></span><span class="date">2025-02-05</span></div></div>
        <div class="body">본문</div></div>"#;
    let post = ChemEngPlugin::parse_post_page(page, &meta).unwrap();
    assert_eq!(post.title, "일반");
    assert_eq!(post.author, Some("교수".to_string()));
    assert_eq!(post.created_at, kst(2025, 2, 5, 0, 0, 0));
    assert_eq!(post.category, vec!["학부공지사항".to_string()]);
}

#[test]
fn inso_list_and_post_pages() {
    let list = r#"<div class="board_list"><table><tbody>
        <tr><td class="subject"><a href="/sub/sub04_01.php?boardid=notice&mode=view&idx=5">제목</a></td></tr>
        <tr><td>no link</td></tr>
    </tbody></table></div>"#;
    let metas = InsoPlugin::parse_list_page(list).unwrap();
    assert_eq!(metas.len(), 1);
    assert_eq!(metas[0].id, "5");
    assert_eq!(metas[0].url, "http://inso.ssu.ac.kr/sub/sub04_01.php?boardid=notice&mode=view&idx=5");
    let page = r#"<div class="board_view">
        <dl><dt>제목</dt><dd>공지</dd></dl>
        <dl><dt>작성자</dt><dd>학과</dd></dl>
        <dl><dt>작성일</dt><dd>2025-04-01</dd></dl>
        <dl><dt>조회</dt><dd>3</dd></dl>
        <dl><dt>분류</dt><dd>학사</dd></dl>
    </div>
    <a title="첨부파일 내려받기(새창열림)" href="javascript:download('notice','10','20')">파일.pdf</a>
    <div class="view_content"><p>본문</p></div>"#;
    let post = InsoPlugin::parse_post_page(page, &metas[0]).unwrap();
    assert_eq!(post.title, "공지");
    assert_eq!(post.author, Some("학과".to_string()));
    assert_eq!(post.created_at, kst(2025, 4, 1, 0, 0, 0));
    assert_eq!(post.category, vec!["학사".to_string()]);
    assert_eq!(post.attachments[0].url, "http://inso.ssu.ac.kr/module/board/download.php?boardid=notice&b_idx=10&idx=20");
    assert_eq!(post.content, "<p>본문</p>");
    let meta = InsoPostMetadata { id: "1".to_string(), url: "u".to_string() };
    let e = InsoPlugin::parse_post_page("<p></p>", &meta).unwrap_err();
    assert_eq!(parse_message(&e), "Failed to extract title: No title found in the post content");
}

#[test]
fn study_request_pages_and_post_numbers() {
    let info = StudyPaginationInfo {
        current_page_no: 1,
        first_page_no: 1,
        first_page_no_on_page_list: 1,
        first_record_index: 0,
        last_page_no: 9,
        last_page_no_on_page_list: 9,
        last_record_index: 10,
        page_size: 10,
        record_count_per_page: 10,
        total_page_count: 9,
        total_record_count: 90,
        view_record_count: 10,
    };
    let mut req = StudyBoardRequest::from_list_response("site".to_string(), "sec".to_string(), "board".to_string(), info);
    assert_eq!(req.page, 1);
    req.set_page(2);
    assert_eq!((req.current_page_no, req.page, req.total_page_count), (2, 2, 9));
    assert_eq!(select_post_numbers(&vec![5, 3, 5, 9, 1], 3), vec![3, 5, 9]);
    let f = StudyFile {
        file_no: 1,
        file_order: 1,
        file_nm: "a.pdf".to_string(),
        file_ext: "pdf".to_string(),
        save_path: String::new(),
        reg_dt: String::new(),
        status: 1,
    };
    let a = f.to_attachment("https://study.ssu.ac.kr/p".to_string());
    assert_eq!(a.name, Some("a.pdf".to_string()));
    assert_eq!(a.url, "https://study.ssu.ac.kr/p");
    assert_eq!(a.mime_type, None);
}

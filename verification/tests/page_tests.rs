use ssufid::plugins::chemeng::{ChemEngPlugin, ChemEngPostMetadata};
use ssufid::plugins::lifelongedu::{LifelongEduError, LifelongEduMetadata, LifelongEduPlugin};
use ssufid::plugins::ssupath::{SsuPathPlugin, SsuPathProgram};
use ssufid::plugins::ssupath_table::construct_content;
use ssufid::runner::{selection_conflicts, site_selected};
use ssufid::plugins::study::StudyPlugin;
use ssufid::error::PluginError;
use ssufid::plugins::mediamba::MediambaPlugin;
use ssufid::plugins::oasis::OasisPlugin;
use ssufid::plugins::startup::StartupPlugin;

fn datetime_error(text: &str, format: &str) -> String {
    let f = time::format_description::parse(format).unwrap();
    time::PrimitiveDateTime::parse(text, &f).unwrap_err().to_string()
}

fn names(v: &[&str]) -> Vec<String> {
    v.iter().map(|s| s.to_string()).collect()
}

#[test]
fn site_selection_follows_the_chosen_and_the_left_out() {
    let none: Vec<String> = Vec::new();
    assert!(site_selected("eco.ssu.ac.kr", &none, &none));
    assert!(site_selected("eco.ssu.ac.kr", &names(&["eco.ssu.ac.kr"]), &none));
    assert!(!site_selected("sec.ssu.ac.kr", &names(&["eco.ssu.ac.kr"]), &none));
    assert!(!site_selected("eco.ssu.ac.kr", &none, &names(&["eco.ssu.ac.kr"])));
    assert!(site_selected("sec.ssu.ac.kr", &none, &names(&["eco.ssu.ac.kr"])));
    assert!(selection_conflicts(&names(&["a"]), &names(&["b"])));
    assert!(!selection_conflicts(&names(&["a"]), &none));
    assert!(!selection_conflicts(&none, &none));
}

const LIST_PAGE: &str = "<html><body><table class=\"board_list\"><tbody>\
<tr class=\"bg0\"><td class=\"num\"><b>공지</b></td><td class=\"subject\"><a href=\"./board.php?bo_table=univ&amp;wr_id=712\"> 수강 안내 </a></td><td class=\"name\"><span class=\"member\">관리자</span></td></tr>\
<tr class=\"bg1\"><td class=\"num\">3</td><td class=\"subject\"><a href=\"./board.php?bo_table=univ&amp;wr_id=710\">학사 일정</a></td><td class=\"name\"></td></tr>\
<tr class=\"bg0\"><td class=\"num\"><b>공지</b></td><td class=\"subject\">링크 없음</td></tr>\
</tbody></table></body></html>";

#[test]
fn lifelongedu_list_page_reads_rows() {
    let metas = LifelongEduPlugin::parse_list_page(LIST_PAGE).unwrap();
    assert_eq!(metas.len(), 2);
    assert_eq!(metas[0].id, "712");
    assert_eq!(metas[0].url, "http://lifelongedu.ssu.ac.kr/bbs/board.php?bo_table=univ&wr_id=712");
    assert_eq!(metas[0].title, "수강 안내");
    assert_eq!(metas[0].author, "관리자");
    assert!(metas[0].is_notice);
    assert_eq!(metas[1].id, "710");
    assert_eq!(metas[1].author, "Unknown");
    assert!(!metas[1].is_notice);
}

#[test]
fn lifelongedu_list_row_without_link_is_refused() {
    let page = LIST_PAGE.replace("<td class=\"num\"><b>공지</b></td><td class=\"subject\">링크 없음", "<td class=\"num\">1</td><td class=\"subject\">링크 없음");
    assert!(matches!(LifelongEduPlugin::parse_list_page(&page), Err(LifelongEduError::UrlNotFound)));
    let no_id = LIST_PAGE.replace("wr_id=710", "page=2");
    match LifelongEduPlugin::parse_list_page(&no_id) {
        Err(LifelongEduError::IdNotFoundInUrl(u)) => {
            assert_eq!(u, "http://lifelongedu.ssu.ac.kr/bbs/board.php?bo_table=univ&page=2")
        }
        other => panic!("unexpected {:?}", other),
    }
}

fn meta() -> LifelongEduMetadata {
    LifelongEduMetadata {
        id: "710".to_string(),
        url: "http://lifelongedu.ssu.ac.kr/bbs/board.php?bo_table=univ&wr_id=710".to_string(),
        title: "목록 제목".to_string(),
        author: "목록 작성자".to_string(),
        is_notice: true,
    }
}

const POST_PAGE: &str = "<html><body>\
<div style=\"font-size:13px; font-weight:bold\"> 본문 제목 </div>\
<div style=\"margin-top:6px\"><span style=\"color:#888\">작성일 : 24-07-01 09:30</span></div>\
<div id=\"writeContents\"><p>내용</p></div>\
<div id=\"bo_v_file\"><ul><li><a href=\"./download.php?bo_table=univ&amp;wr_id=710&amp;no=0\"> 안내.pdf </a></li></ul></div>\
</body></html>";

#[test]
fn lifelongedu_post_page_reads_fields() {
    assert!(LifelongEduPlugin::post_page_readable(POST_PAGE));
    let p = LifelongEduPlugin::parse_post_page(POST_PAGE, &meta()).unwrap();
    assert_eq!(p.title, "본문 제목");
    assert_eq!(p.author, Some("목록 작성자".to_string()));
    // 2024-07-01 09:30 in Korea Standard Time is 00:30 UTC.
    assert_eq!(p.created_at.unix_nanos, 1_719_793_800_000_000_000);
    assert_eq!(p.content, "<div id=\"writeContents\"><p>내용</p></div>");
    assert_eq!(p.category, vec!["공지".to_string()]);
    assert_eq!(p.attachments.len(), 1);
    assert_eq!(p.attachments[0].name, Some("안내.pdf".to_string()));
    assert_eq!(p.attachments[0].url, "http://lifelongedu.ssu.ac.kr/bbs/download.php?bo_table=univ&wr_id=710&no=0");
}

#[test]
fn lifelongedu_post_page_errors() {
    let no_date = POST_PAGE.replace("margin-top:6px", "margin-top:9px");
    assert!(matches!(LifelongEduPlugin::parse_post_page(&no_date, &meta()), Err(LifelongEduError::DateNotFound)));
    let bad_date = POST_PAGE.replace("24-07-01 09:30", "어제");
    match LifelongEduPlugin::parse_post_page(&bad_date, &meta()) {
        Err(LifelongEduError::DateParse(t)) => assert_eq!(t, datetime_error("어제", "[year]-[month]-[day] [hour]:[minute]")),
        other => panic!("unexpected {:?}", other),
    }
    let no_content = POST_PAGE.replace("writeContents", "other");
    match LifelongEduPlugin::try_parse_post_page(&no_content, &meta()) {
        Some(Err(LifelongEduError::ContentNotFound(u))) => assert_eq!(u, meta().url),
        other => panic!("unexpected {:?}", other),
    }
}

#[test]
fn ssupath_content_frames_the_front_matter() {
    let out = construct_content("a: b", &names(&["c: d\n", "1주차:\n  e: f\n"]), &Some("분반: []\n".to_string()), "본문");
    assert_eq!(out, "---\na: b\nc: d\n1주차:\n  e: f\n분반: []\n\n---\n본문");
    let out = construct_content("x: y\n", &Vec::new(), &None, "");
    assert_eq!(out, "---\nx: y\n\n\n---\n");
}

#[test]
fn ssupath_program_post_carries_the_entry() {
    let entry = r#"<ul><li>
        <div class="img_wrap"><img src="/thumb.png"></div>
        <a class="tit" data-params='{"encSddpbSeq":"ABC123"}'>AI 특강</a>
        <p class="desc">설명</p>
        <div class="label_box">모집중</div>
        <ul class="major_type"><li>컴퓨터</li></ul>
        <div class="info_wrap">
            <dl><dt>신청대상</dt><dd>학부생</dd></dl>
            <dl><dt>신청신분</dt><dd>재학생</dd></dl>
            <dl><dt>신청기간</dt><dd>2025.03.01 09:00 ~ 2025.03.10 18:00</dd></dl>
            <dl><dt>교육기간</dt><dd>2025-03-11 10:00:00 ~ 2025-03-12 12:00:00</dd></dl>
        </div>
        <div class="etc_cont">
            <dl><dt>마일리지</dt><dd>10</dd></dl>
            <dl><dt>신청자</dt><dd>1</dd></dl>
            <dl><dt>대기자</dt><dd>0</dd></dl>
            <dl><dt>모집정원</dt><dd>3</dd></dl>
        </div>
    </li></ul>"#;
    let program = SsuPathProgram::from_element(entry).unwrap();
    let post = SsuPathPlugin::program_post(&program, "표 제목".to_string(), "내용".to_string(), None);
    assert_eq!(post.id, "ABC123");
    assert_eq!(post.url, "https://path.ssu.ac.kr/ptfol/imng/icmpNsbjtPgm/findIcmpNsbjtPgmInfo.do?encSddpbSeq=ABC123");
    assert_eq!(post.title, "표 제목");
    assert_eq!(post.description, Some("설명".to_string()));
    assert_eq!(post.category, vec!["모집중".to_string()]);
    assert_eq!(post.author, Some("컴퓨터".to_string()));
    assert_eq!(post.thumbnail, Some("/thumb.png".to_string()));
    assert_eq!(post.created_at, program.create_at());
    assert!(post.attachments.is_empty());
}

#[test]
fn study_compressed_data_round_trips() {
    let body = "{\"page\":2,\"siteCd\":\"국제처\"}";
    let packed = StudyPlugin::compressed_request_body(body);
    assert_eq!(packed, lz_str::compress_to_utf16(body));
    assert!(StudyPlugin::decompressible(&packed));
    assert_eq!(StudyPlugin::decompress_string(&packed).unwrap(), body);
    assert!(!StudyPlugin::decompressible("line\nbreak"));
    assert_eq!(StudyPlugin::board_list_url(), "https://study.ssu.ac.kr/xhr16/board/boardList.do");
}

#[test]
fn study_model_text_reads_the_textarea() {
    let page = "<html><body><textarea id=\"model\">abc&amp;def</textarea></body></html>";
    assert_eq!(StudyPlugin::model_text(page).unwrap(), "abc&def");
    match StudyPlugin::model_text("<html><body></body></html>") {
        Err(PluginError::Custom { plugin, kind, message }) => {
            assert_eq!(plugin, "study.ssu.ac.kr");
            assert_eq!(kind, "Failed to find model textarea");
            assert_eq!(message, "The page structure may have changed");
        }
        other => panic!("unexpected {:?}", other),
    }
}

#[test]
fn lifelongedu_list_url_numbers_the_page() {
    assert_eq!(
        LifelongEduPlugin::list_url(3),
        "http://lifelongedu.ssu.ac.kr/bbs/board.php?bo_table=univ&page=3"
    );
}

#[test]
fn api_addresses_carry_the_limit() {
    assert_eq!(
        OasisPlugin::list_url(20),
        "https://oasis.ssu.ac.kr/pyxis-api/1/bulletin-boards/1/bulletins?nameOption=part&isSeq=false&onlyWriter=false&max=20"
    );
    assert_eq!(OasisPlugin::post_api_url(7), "https://oasis.ssu.ac.kr/pyxis-api/1/bulletins/1/7?nameOption=part");
    assert_eq!(
        StartupPlugin::list_url(5),
        "https://startup.ssu.ac.kr/api/board/content/list?boardEnName=notice&categoryCodeId&pageNum=1&pageSize=5&searchMonth="
    );
    assert_eq!(
        MediambaPlugin::list_url(10),
        "https://api.mediamba.ssu.ac.kr/v1/board/?page=0&size=10&menuId=89&content="
    );
    assert!(MediambaPlugin::check_content_response(true, "200 OK").is_ok());
    match MediambaPlugin::check_content_response(false, "500 Internal Server Error") {
        Err(ssufid::error::PluginError::Parse { message, .. }) => {
            assert_eq!(message, "Failed to receive content: 500 Internal Server Error")
        }
        other => panic!("unexpected {:?}", other),
    }
}

#[test]
fn chemeng_crawl_takes_the_first_listed_posts() {
    assert!(!ChemEngPlugin::crawls(0));
    assert!(ChemEngPlugin::crawls(1));
    let metas: Vec<ChemEngPostMetadata> = (0..5)
        .map(|i| ChemEngPostMetadata {
            id: i.to_string(),
            url: format!("u{i}"),
            title_on_list: String::new(),
            author_on_list: String::new(),
            date_str_on_list: String::new(),
        })
        .collect();
    let kept = ChemEngPlugin::limit_listing(metas, 3);
    assert_eq!(kept.iter().map(|m| m.id.clone()).collect::<Vec<_>>(), vec!["0", "1", "2"]);
}

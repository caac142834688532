use ssufid::datetime::Timestamp;
use ssufid::error::PluginError;
use ssufid::plugins::{mediamba, oasis, ssfilm, startup, stu, study};

fn kst(y: i32, m: u8, d: u8, h: u8, mi: u8, s: u8) -> Timestamp {
    let date = time::Date::from_calendar_date(y, time::Month::try_from(m).unwrap(), d).unwrap();
    let clock = time::Time::from_hms(h, mi, s).unwrap();
    let offset = time::UtcOffset::from_hms(9, 0, 0).unwrap();
    let dt = time::PrimitiveDateTime::new(date, clock).assume_offset(offset);
    Timestamp { unix_nanos: dt.unix_timestamp_nanos(), offset_seconds: offset.whole_seconds() }
}

#[test]
fn stu_dates_and_posts() {
    assert_eq!(stu::parse_stu_datetime("2025/03/04 10:11:12").unwrap(), kst(2025, 3, 4, 10, 11, 12));
    assert!(matches!(stu::parse_stu_datetime("2025-03-04"), Err(PluginError::Parse { .. })));
    let p = stu::StuPost {
        post_id: 42,
        title: "공지".to_string(),
        content: "c".to_string(),
        date: kst(2025, 3, 4, 0, 0, 0),
        category: Some("학생회".to_string()),
        thumb_nail: None,
        author: "총학".to_string(),
    }
    .into_post();
    assert_eq!(p.id, "42");
    assert_eq!(p.url, "https://stu.ssu.ac.kr/notice/42");
    assert_eq!(p.category, vec!["학생회".to_string()]);
    assert!(stu::check_response(true, None).is_ok());
    match stu::check_response(false, None) {
        Err(PluginError::Custom { message, .. }) => assert_eq!(message, "Unknown error"),
        other => panic!("unexpected {:?}", other),
    }
}

#[test]
fn startup_posts_and_flags() {
    assert_eq!(startup::parse_yn("Y"), Some(true));
    assert_eq!(startup::parse_yn("n"), Some(false));
    assert_eq!(startup::parse_yn("maybe"), None);
    assert_eq!(startup::parse_startup_datetime("2025-01-02T03:04:05").unwrap(), kst(2025, 1, 2, 3, 4, 5));
    assert!(startup::check_response(200, None).is_ok());
    assert!(startup::check_response(500, Some("boom".to_string())).is_err());
    let post = startup::StartupPost {
        board_content_id: 7,
        board_title: "t".to_string(),
        board_content: "c".to_string(),
        user_id: "u".to_string(),
        notice_yn: true,
        reg_date: kst(2025, 1, 1, 0, 0, 0),
        update_date: kst(2025, 1, 2, 0, 0, 0),
        category_name: "창업".to_string(),
        file_list: vec![startup::StartupFile { file_id: 9, file_origin_name: "a.hwp".to_string() }],
    }
    .into_post();
    assert_eq!(post.url, "https://startup.ssu.ac.kr/board/notice/7?boardEnName=notice");
    assert_eq!(post.updated_at, Some(kst(2025, 1, 2, 0, 0, 0)));
    assert_eq!(post.attachments.len(), 1);
    assert!(post.attachments[0].url.ends_with("/resource/download/9"));
}

#[test]
fn ssfilm_urls_and_paging() {
    assert_eq!(
        ssfilm::construct_file_url("a b.pdf", "2025"),
        Some("http://ssfilm.ssu.ac.kr/download_file?filename=a+b.pdf&filepath=%2Fresource%2Fupload%2Fnotice%2F2025".to_string())
    );
    assert_eq!(ssfilm::list_page_url(ssfilm::API_BASE_URL, None), ssfilm::API_BASE_URL);
    assert!(ssfilm::list_page_url(ssfilm::API_BASE_URL, Some(10)).ends_with("?LastNoticeIndex=10"));
    assert_eq!(ssfilm::next_notice_index("12", Some(3)), Some(12));
    assert_eq!(ssfilm::next_notice_index("x", Some(3)), Some(3));
    assert!(ssfilm::wants_more_posts(1, 2, 5));
    assert!(!ssfilm::wants_more_posts(1, 2, 0));
    assert_eq!(ssfilm::parse_ssfilm_datetime("2025-05-06 07:08:09").unwrap(), kst(2025, 5, 6, 7, 8, 9));
}

#[test]
fn mediamba_posts_use_the_rendered_content() {
    let p = mediamba::MediambaPost {
        id: 3,
        title: "t".to_string(),
        content: "**md**".to_string(),
        user_name: "u".to_string(),
        created_at: kst(2025, 1, 1, 0, 0, 0),
        updated_at: kst(2025, 1, 2, 0, 0, 0),
    }
    .to_ssufid_post("<p><strong>md</strong></p>".to_string());
    assert_eq!(p.content, "<p><strong>md</strong></p>");
    assert_eq!(p.id, "3");
    assert!(mediamba::check_response(false, "no".to_string()).is_err());
    assert_eq!(mediamba::parse_mediamba_datetime("2025-01-01 00:00:00").unwrap(), kst(2025, 1, 1, 0, 0, 0));
}

#[test]
fn oasis_bulletins_become_posts() {
    let p = oasis::OasisPost {
        id: 5,
        title: "t".to_string(),
        content: "c".to_string(),
        worker_name: "w".to_string(),
        date_created: kst(2025, 1, 1, 0, 0, 0),
        last_updated: kst(2025, 1, 3, 0, 0, 0),
        attachments: vec![oasis::OasisAttachment {
            logical_name: "f.pdf".to_string(),
            original_image_url: "https://oasis.ssu.ac.kr/f.pdf".to_string(),
            file_type: "application/pdf".to_string(),
        }],
    }
    .into_post();
    assert_eq!(p.id, "5");
    assert_eq!(p.attachments.len(), 1);
    assert_eq!(p.attachments[0].name, Some("f.pdf".to_string()));
    assert!(oasis::check_response(true, "k", String::new()).is_ok());
    assert_eq!(oasis::parse_oasis_datetime("2025-01-01 09:00:00").unwrap(), kst(2025, 1, 1, 9, 0, 0));
}

#[test]
fn study_dates_and_paging() {
    assert_eq!(study::parse_study_datetime("2025.02.03").unwrap(), kst(2025, 2, 3, 0, 0, 0));
    assert!(study::parse_study_datetime("2025-02-03").is_err());
    assert!(study::wants_next_page(3, 5, 1, 4));
    assert!(!study::wants_next_page(5, 5, 1, 4));
    assert!(!study::wants_next_page(3, 5, 4, 4));
}

//! The residence halls' notices as read through their summary tables: reading list pages
//! and post pages, and the decisions of the crawl. The pages are the dormitory's, decoded
//! from EUC-KR as there.

use vstd::prelude::*;
use crate::datetime::{parsed_date, parsed_date_time, kst_instant, KST_OFFSET_SECONDS, kst_midnight_from_text, kst_date_time_from_text, date_parse_error, date_time_parse_error, date_error_texts, date_time_error_texts};
use crate::error::{PluginError, concat};
use crate::html::{
    cell_at, first_matches_in_each, opt_views, text_concat, fragment_first_attr, document_matches, first_text,
    joined_url, url_parses, first_in_each, first_attr_in_fragment, text_of_element, first_text_of, select_in_document,
    join_url, is_url,
};
use crate::plugins::ssudorm::{
    SsuDormError, dorm_error_kind, dorm_error_message, post_id_in_call, SsuDormPlugin as ListReader,
    LIST_PAGE_URL, POST_VIEW_URL_BASE, LIST_ITEM_SELECTOR, TITLE_IN_LIST_SELECTOR, DATE_IN_LIST_SELECTOR,
};
use crate::post::{Attachment, SsufidPost, opt_view};
use crate::text::{
    trim, trim_str, chars_of, string_of, copy_range, views, int_text, int_to_text, seq_index_of, find_text,
    has_text, contains_text, starts_with, has_prefix, lemma_seq_index_of,
};

verus! {

/// The plugin's identifier.
pub const IDENTIFIER: &'static str = "ssudorm.ssu.ac.kr";
/// The site's title.
pub const TITLE: &'static str = "숭실대학교 생활관";
/// The site's description.
pub const DESCRIPTION: &'static str = "숭실대학교 생활관 홈페이지의 공지사항을 제공합니다.";
/// The site's address, against which attachment links are resolved.
pub const BASE_URL: &'static str = "https://ssudorm.ssu.ac.kr:444/SShostel/";
/// A post page's title.
pub const TITLE_SELECTOR: &'static str = "table[summary*='제목'] td.bbs_title_style";
/// A post page's line with its author and date.
pub const AUTHOR_SELECTOR: &'static str = "table[summary*='제목'] td[height='25']";
/// A post page's content.
pub const CONTENT_SELECTOR: &'static str = "table[summary*='내용'] td.bbs_contents_style";
/// A post page's attachment links.
pub const ATTACHMENT_SELECTOR: &'static str = "table[summary*='첨부파일'] a[href*='file_down']";
/// The label before the author.
pub const AUTHOR_LABEL: &'static str = "작성자:";
/// The label after the author.
pub const VIEWS_LABEL: &'static str = "조회수:";
/// The label before the date.
pub const DATE_LABEL: &'static str = "작성일:";
/// The author of posts that name none.
pub const DEFAULT_AUTHOR: &'static str = "운영사무실";
/// The format of a date and time.
pub const DATE_TIME_FORMAT: &'static str = "[year]-[month]-[day] [hour]:[minute]:[second]";
/// The format of a date.
pub const DATE_FORMAT: &'static str = "[year]-[month]-[day]";
/// The category of every post.
pub const CATEGORY: &'static str = "공지사항";
/// The list page after which a crawl stops.
pub const MAX_PAGES_TO_TRY: u32 = 50;

/// The residence halls plugin.
pub struct SsuDormPlugin;

/// A post as the list shows it.
#[derive(Clone, Debug)]
pub struct SsuDormPostMetadata {
    pub id: String,
    pub url: String,
    pub title_from_list: String,
    pub date_str_from_list: String,
}

/// The fields of a listed post.
pub open spec fn meta_fields(m: SsuDormPostMetadata) -> (Seq<char>, Seq<char>, Seq<char>, Seq<char>) {
    (m.id@, m.url@, m.title_from_list@, m.date_str_from_list@)
}

/// The address of list page `page` (counting from 1).
pub open spec fn page_url_of(page: int) -> Seq<char> {
    LIST_PAGE_URL@ + "&next="@ + int_text(if page > 0 { (page - 1) * 15 } else { 0 })
}

/// What row `i` of a list page gives: nothing for a header row (one with a heading cell or
/// a cell with bold text) or a row without a post link with a number, else its post.
pub open spec fn row_meta(html: Seq<char>, i: int) -> Option<(Seq<char>, Seq<char>, Seq<char>, Seq<char>)> {
    if cell_at(first_matches_in_each(html, LIST_ITEM_SELECTOR@, "th"@), i) is Some
        || cell_at(first_matches_in_each(html, LIST_ITEM_SELECTOR@, "td > strong"@), i) is Some {
        None
    } else {
        match cell_at(first_matches_in_each(html, LIST_ITEM_SELECTOR@, TITLE_IN_LIST_SELECTOR@), i) {
            None => None,
            Some(l) => {
                let href = match fragment_first_attr(l, "a"@, "href"@) { Some(h) => h, None => Seq::empty() };
                match post_id_in_call(href) {
                    None => None,
                    Some(id) => Some((id, POST_VIEW_URL_BASE@ + "&idx="@ + id, trim(text_concat(l)),
                        match cell_at(first_matches_in_each(html, LIST_ITEM_SELECTOR@, DATE_IN_LIST_SELECTOR@), i) {
                            Some(d) => trim(text_concat(d)),
                            None => Seq::empty(),
                        })),
                }
            },
        }
    }
}

/// `metas` are the posts of the first `n` rows, in order.
pub open spec fn rows_follow(metas: Seq<SsuDormPostMetadata>, html: Seq<char>, n: int) -> bool
    decreases n,
{
    if n <= 0 {
        metas.len() == 0
    } else {
        match row_meta(html, n - 1) {
            Some(v) => metas.len() > 0 && meta_fields(metas.last()) == v && rows_follow(metas.drop_last(), html, n - 1),
            None => rows_follow(metas, html, n - 1),
        }
    }
}

/// The author and date line of a post page, or the empty text.
pub open spec fn author_line(html: Seq<char>) -> Seq<char> {
    match first_text(html, AUTHOR_SELECTOR@) {
        Some(t) => t,
        None => Seq::empty(),
    }
}

/// Whether the line can be cut into its author: when it holds both labels, the one after
/// the author does not come first.
pub open spec fn line_readable(s: Seq<char>) -> bool {
    !(seq_index_of(s, AUTHOR_LABEL@) >= 0 && seq_index_of(s, VIEWS_LABEL@) >= 0
        && seq_index_of(s, VIEWS_LABEL@) < seq_index_of(s, AUTHOR_LABEL@) + AUTHOR_LABEL@.len())
}

/// The author that a line names: the trimmed text between its labels, or the default
/// author when there is none or it is empty.
pub open spec fn author_of_line(s: Seq<char>) -> Seq<char> {
    let a = seq_index_of(s, AUTHOR_LABEL@);
    let v = seq_index_of(s, VIEWS_LABEL@);
    if a >= 0 && v >= 0 && trim(s.subrange(a + AUTHOR_LABEL@.len(), v)).len() > 0 {
        trim(s.subrange(a + AUTHOR_LABEL@.len(), v))
    } else {
        DEFAULT_AUTHOR@
    }
}

/// The date that a line names: the trimmed text after its date label, or the empty text.
pub open spec fn date_of_line(s: Seq<char>) -> Seq<char> {
    let d = seq_index_of(s, DATE_LABEL@);
    if d >= 0 { trim(s.skip(d + DATE_LABEL@.len())) } else { Seq::empty() }
}

/// The date text of a post: that of its page's line, else the listed one.
pub open spec fn final_date(html: Seq<char>, listed: Seq<char>) -> Seq<char> {
    let d = date_of_line(author_line(html));
    if d.len() > 0 { d } else { listed }
}

/// `s` with its spaces turned into `T`.
pub open spec fn spaces_to_t(s: Seq<char>) -> Seq<char> {
    s.map_values(|c: char| if c == ' ' { 'T' } else { c })
}

/// The local date and time that a date text stands for: with a colon, read as a date and
/// time with seconds (its spaces turned into `T`, else with `:00` added); without, read
/// as a date at midnight.
pub open spec fn date_fields(d: Seq<char>) -> Option<(int, int, int, int, int, int)> {
    if has_text(d, ":"@) {
        match parsed_date_time(spaces_to_t(d), DATE_TIME_FORMAT@) {
            Some(f) => Some(f),
            None => parsed_date_time(d + ":00"@, DATE_TIME_FORMAT@),
        }
    } else {
        match parsed_date(d, DATE_FORMAT@) {
            Some(ymd) => Some((ymd.0, ymd.1, ymd.2, 0, 0, 0)),
            None => None,
        }
    }
}

/// The address of an attachment link's target: as it stands when it starts with `http`,
/// else resolved against the site's address.
pub open spec fn attachment_url(h: Seq<char>) -> Option<Seq<char>> {
    if starts_with(h, "http"@) { Some(h) } else { joined_url(BASE_URL@, h) }
}

/// Whether a post page's attachment links can be resolved: the site's address is a URL
/// when a target must be resolved against it.
pub open spec fn attachments_readable(links: Seq<Seq<char>>) -> bool {
    forall|i: int| 0 <= i < links.len() ==>
        (fragment_first_attr(#[trigger] links[i], "a"@, "href"@) matches Some(h) ==> (starts_with(h, "http"@) || url_parses(BASE_URL@)))
}

/// The first attachment link whose target cannot be resolved, as its refusal's message.
pub open spec fn attachments_failure(links: Seq<Seq<char>>) -> Option<Seq<char>>
    decreases links.len(),
{
    if links.len() == 0 {
        None
    } else {
        match fragment_first_attr(links[0], "a"@, "href"@) {
            Some(h) => if attachment_url(h) is None {
                Some("Failed to join attachment URL "@ + h)
            } else {
                attachments_failure(links.drop_first())
            },
            None => attachments_failure(links.drop_first()),
        }
    }
}

/// `atts` are the attachments of the links `links`, in order, links without a target
/// left out.
pub open spec fn attachments_follow(atts: Seq<Attachment>, links: Seq<Seq<char>>) -> bool
    decreases links.len(),
{
    if links.len() == 0 {
        atts.len() == 0
    } else {
        match fragment_first_attr(links.last(), "a"@, "href"@) {
            Some(h) => {
                let name = trim(text_concat(links.last()));
                &&& atts.len() > 0
                &&& opt_view(atts.last().name) == (if name.len() > 0 { Some(name) } else { None })
                &&& Some(atts.last().url@) == attachment_url(h)
                &&& atts.last().mime_type is None
                &&& attachments_follow(atts.drop_last(), links.drop_last())
            },
            None => attachments_follow(atts, links.drop_last()),
        }
    }
}

/// Whether a post page can be read: its author line can be cut, and its attachment links
/// can be resolved.
pub open spec fn post_page_readable(html: Seq<char>) -> bool {
    line_readable(author_line(html)) && attachments_readable(document_matches(html, ATTACHMENT_SELECTOR@))
}

/// `e` is the dormitory's error `d` as the plugin reports it.
pub open spec fn dorm_error_is(e: PluginError, kind: Seq<char>, msg: Seq<char>) -> bool {
    e matches PluginError::Custom { plugin, kind: k, message } && plugin@ == IDENTIFIER@ && k@ == kind && message@ == msg
}

/// Why the post page of `meta` is refused: no title, an unreadable date, no content, or
/// an attachment link that cannot be resolved; in that order.
pub open spec fn post_failure(html: Seq<char>, meta: SsuDormPostMetadata, e: PluginError) -> bool {
    let d = final_date(html, meta.date_str_from_list@);
    if first_text(html, TITLE_SELECTOR@) is None {
        dorm_error_is(e, "TitleNotFound"@, "Title not found for post: "@ + meta.url@)
    } else if date_fields(d) is None {
        dorm_error_is(e, "DateParse"@, "Date string parsing error: "@
            + (if has_text(d, ":"@) {
                "Failed to parse datetime '"@ + d + "': "@ + date_time_parse_error(d + ":00"@, DATE_TIME_FORMAT@).0
            } else {
                "Failed to parse date '"@ + d + "': "@ + date_parse_error(d, DATE_FORMAT@).0
            }))
    } else if document_matches(html, CONTENT_SELECTOR@).len() == 0 {
        dorm_error_is(e, "ContentNotFound"@, "Content not found for post: "@ + meta.url@)
    } else {
        attachments_failure(document_matches(html, ATTACHMENT_SELECTOR@)) matches Some(m)
            && (e matches PluginError::Parse { plugin, message } && plugin@ == IDENTIFIER@ && message@ == m)
    }
}

/// The state of a crawl: the posts counted as gathered and the next list page.
pub struct DormCrawl {
    pub collected: u32,
    pub page: u32,
}

impl SsuDormPlugin {
    /// The plugin.
    pub fn new() -> (p: SsuDormPlugin)
        ensures
            p == SsuDormPlugin,
    {
        SsuDormPlugin
    }

    /// The address of list page `page` (counting from 1).
    pub fn page_url(page: u32) -> (out: String)
        requires
            page > 0 ==> (page - 1) * 15 <= u32::MAX,
        ensures
            out@ == page_url_of(page as int),
    {
        let offset: u32 = if page > 0 { (page - 1) * 15 } else { 0 };
        let mut out = concat(LIST_PAGE_URL, "&next=");
        out.append(int_to_text(offset as i64).as_str());
        out
    }

    /// Reads row `i` of a list page (see `row_meta`).
    fn parse_row(i: usize, cols: &Vec<Vec<Option<String>>>, html: Ghost<Seq<char>>) -> (r: Option<SsuDormPostMetadata>)
        requires
            cols@.len() == 4,
            opt_views(cols@[0]@) == first_matches_in_each(html@, LIST_ITEM_SELECTOR@, "th"@),
            opt_views(cols@[1]@) == first_matches_in_each(html@, LIST_ITEM_SELECTOR@, "td > strong"@),
            opt_views(cols@[2]@) == first_matches_in_each(html@, LIST_ITEM_SELECTOR@, TITLE_IN_LIST_SELECTOR@),
            opt_views(cols@[3]@) == first_matches_in_each(html@, LIST_ITEM_SELECTOR@, DATE_IN_LIST_SELECTOR@),
        ensures
            match r {
                Some(m) => row_meta(html@, i as int) == Some(meta_fields(m)),
                None => row_meta(html@, i as int) is None,
            },
    {
        let th = i < cols[0].len() && {
            proof {
                assert(opt_views(cols@[0]@)[i as int] == opt_view(cols@[0]@[i as int]));
            }
            cols[0][i].is_some()
        };
        let strong = i < cols[1].len() && {
            proof {
                assert(opt_views(cols@[1]@)[i as int] == opt_view(cols@[1]@[i as int]));
            }
            cols[1][i].is_some()
        };
        if th || strong {
            return None;
        }
        if i >= cols[2].len() {
            return None;
        }
        proof {
            assert(opt_views(cols@[2]@)[i as int] == opt_view(cols@[2]@[i as int]));
        }
        let l = match &cols[2][i] {
            Some(l) => l,
            None => return None,
        };
        let href = match first_attr_in_fragment(l.as_str(), "a", "href") {
            Some(h) => h,
            None => String::new(),
        };
        let id = match ListReader::post_id_from_call(href.as_str()) {
            Some(id) => id,
            None => return None,
        };
        let mut url = concat(POST_VIEW_URL_BASE, "&idx=");
        url.append(id.as_str());
        let title_from_list = trim_str(text_of_element(l.as_str()).as_str());
        let date_str_from_list = if i < cols[3].len() {
            proof {
                assert(opt_views(cols@[3]@)[i as int] == opt_view(cols@[3]@[i as int]));
            }
            match &cols[3][i] {
                Some(d) => trim_str(text_of_element(d.as_str()).as_str()),
                None => String::new(),
            }
        } else {
            String::new()
        };
        Some(SsuDormPostMetadata { id, url, title_from_list, date_str_from_list })
    }

    /// Reads a list page: the posts of its rows (see `row_meta`), in order.
    pub fn parse_list_page(html: &str) -> (metas: Vec<SsuDormPostMetadata>)
        ensures
            rows_follow(metas@, html@, first_matches_in_each(html@, LIST_ITEM_SELECTOR@, TITLE_IN_LIST_SELECTOR@).len() as int),
    {
        let mut cols: Vec<Vec<Option<String>>> = Vec::new();
        cols.push(first_in_each(html, LIST_ITEM_SELECTOR, "th"));
        cols.push(first_in_each(html, LIST_ITEM_SELECTOR, "td > strong"));
        cols.push(first_in_each(html, LIST_ITEM_SELECTOR, TITLE_IN_LIST_SELECTOR));
        cols.push(first_in_each(html, LIST_ITEM_SELECTOR, DATE_IN_LIST_SELECTOR));
        let n = cols[2].len();
        let mut metas: Vec<SsuDormPostMetadata> = Vec::new();
        let mut i: usize = 0;
        while i < n
            invariant
                cols@.len() == 4,
                n == cols@[2]@.len(),
                i <= n,
                opt_views(cols@[0]@) == first_matches_in_each(html@, LIST_ITEM_SELECTOR@, "th"@),
                opt_views(cols@[1]@) == first_matches_in_each(html@, LIST_ITEM_SELECTOR@, "td > strong"@),
                opt_views(cols@[2]@) == first_matches_in_each(html@, LIST_ITEM_SELECTOR@, TITLE_IN_LIST_SELECTOR@),
                opt_views(cols@[3]@) == first_matches_in_each(html@, LIST_ITEM_SELECTOR@, DATE_IN_LIST_SELECTOR@),
                rows_follow(metas@, html@, i as int),
            decreases n - i,
        {
            let ghost before = metas@;
            match Self::parse_row(i, &cols, Ghost(html@)) {
                Some(m) => {
                    metas.push(m);
                    proof {
                        assert(metas@.drop_last() == before);
                    }
                },
                None => {},
            }
            i += 1;
        }
        metas
    }

    /// The author and date line's author (see `author_of_line`), when it can be cut.
    fn author_of(line: &String) -> (a: String)
        requires
            line_readable(line@),
        ensures
            a@ == author_of_line(line@),
    {
        let v = chars_of(line.as_str());
        let al = chars_of(AUTHOR_LABEL);
        let vl = chars_of(VIEWS_LABEL);
        proof {
            reveal_strlit("작성자:");
            reveal_strlit("조회수:");
            lemma_seq_index_of(v@, al@);
            lemma_seq_index_of(v@, vl@);
        }
        if let Some(a) = find_text(&v, &al) {
            if let Some(b) = find_text(&v, &vl) {
                let s = trim_str(string_of(&copy_range(&v, a + al.len(), b)).as_str());
                if s.as_str().unicode_len() > 0 {
                    return s;
                }
            }
        }
        String::from_str(DEFAULT_AUTHOR)
    }

    /// The date that the author and date line names (see `date_of_line`).
    fn date_of(line: &String) -> (d: String)
        ensures
            d@ == date_of_line(line@),
    {
        let v = chars_of(line.as_str());
        let dl = chars_of(DATE_LABEL);
        proof {
            reveal_strlit("작성일:");
        }
        match find_text(&v, &dl) {
            Some(k) => {
                let n = v.len();
                let m = dl.len();
                assert(k + m <= n);
                let rest = copy_range(&v, k + m, n);
                proof {
                    assert(rest@ == v@.skip(k + dl@.len()));
                }
                trim_str(string_of(&rest).as_str())
            },
            None => String::new(),
        }
    }

    /// Whether a post page can be read (see `post_page_readable`).
    pub fn post_page_readable(html: &str) -> (b: bool)
        ensures
            b == post_page_readable(html@),
    {
        let line = match first_text_of(html, AUTHOR_SELECTOR) {
            Some(t) => t,
            None => String::new(),
        };
        let v = chars_of(line.as_str());
        let al = chars_of(AUTHOR_LABEL);
        let vl = chars_of(VIEWS_LABEL);
        proof {
            reveal_strlit("작성자:");
            reveal_strlit("조회수:");
        }
        let al_len = al.len();
        let v_len = v.len();
        if let Some(a) = find_text(&v, &al) {
            assert(a + al_len <= v_len);
            if let Some(b) = find_text(&v, &vl) {
                if b < a + al_len {
                    return false;
                }
            }
        }
        if is_url(BASE_URL) {
            return true;
        }
        let links = select_in_document(html, ATTACHMENT_SELECTOR);
        let ghost ls = views(links@);
        let http = chars_of("http");
        let mut i: usize = 0;
        while i < links.len()
            invariant
                i <= links@.len(),
                ls == views(links@),
                ls == document_matches(html@, ATTACHMENT_SELECTOR@),
                http@ == "http"@,
                !url_parses(BASE_URL@),
                line_readable(author_line(html@)),
                forall|j: int| 0 <= j < i ==>
                    (fragment_first_attr(#[trigger] ls[j], "a"@, "href"@) matches Some(h) ==> starts_with(h, "http"@)),
            decreases links@.len() - i,
        {
            proof {
                assert(ls[i as int] == links@[i as int]@);
            }
            if let Some(h) = first_attr_in_fragment(links[i].as_str(), "a", "href") {
                if !has_prefix(&chars_of(h.as_str()), &http) {
                    return false;
                }
            }
            i += 1;
        }
        true
    }

    /// Reads the post page, which can be read, of the post listed as `meta` (see
    /// `post_failure`): its title, author (see `author_of_line`), date (see
    /// `final_date` and `date_fields`), Korea Standard Time, content as the HTML of its
    /// content element, attachments, and the one category of notices.
    pub fn parse_post_page(html: &str, meta: &SsuDormPostMetadata) -> (r: Result<SsufidPost, PluginError>)
        requires
            post_page_readable(html@),
        ensures
            match r {
                Err(e) => post_failure(html@, *meta, e),
                Ok(p) => {
                    &&& first_text(html@, TITLE_SELECTOR@) == Some(p.title@)
                    &&& date_fields(final_date(html@, meta.date_str_from_list@)) matches Some(f)
                    &&& p.created_at.unix_nanos == kst_instant(f)
                    &&& p.created_at.offset_seconds == KST_OFFSET_SECONDS
                    &&& document_matches(html@, CONTENT_SELECTOR@).len() > 0
                    &&& p.content@ == document_matches(html@, CONTENT_SELECTOR@)[0]
                    &&& attachments_failure(document_matches(html@, ATTACHMENT_SELECTOR@)) is None
                    &&& attachments_follow(p.attachments@, document_matches(html@, ATTACHMENT_SELECTOR@))
                    &&& p.id == meta.id
                    &&& p.url == meta.url
                    &&& opt_view(p.author) == Some(author_of_line(author_line(html@)))
                    &&& views(p.category@) == seq![CATEGORY@]
                    &&& p.description is None
                    &&& p.updated_at is None
                    &&& p.thumbnail is None
                    &&& p.metadata is None
                },
            },
    {
        let title = match first_text_of(html, TITLE_SELECTOR) {
            Some(t) => t,
            None => return Err(SsuDormError::TitleNotFound(meta.url.clone()).into_plugin_error()),
        };
        let line = match first_text_of(html, AUTHOR_SELECTOR) {
            Some(t) => t,
            None => String::new(),
        };
        let author = Self::author_of(&line);
        let from_line = Self::date_of(&line);
        let date = if from_line.as_str().unicode_len() > 0 { from_line } else { meta.date_str_from_list.clone() };
        let created_at = if contains_text(date.as_str(), ":") {
            let dv = chars_of(date.as_str());
            let mut t: Vec<char> = Vec::new();
            let mut k: usize = 0;
            while k < dv.len()
                invariant
                    k <= dv@.len(),
                    t@ == spaces_to_t(dv@.take(k as int)),
                decreases dv@.len() - k,
            {
                proof {
                    assert(spaces_to_t(dv@.take(k + 1)) =~= spaces_to_t(dv@.take(k as int)).push(if dv@[k as int] == ' ' { 'T' } else { dv@[k as int] }));
                }
                t.push(if dv[k] == ' ' { 'T' } else { dv[k] });
                k += 1;
            }
            proof {
                assert(dv@.take(dv@.len() as int) == dv@);
            }
            match kst_date_time_from_text(string_of(&t).as_str(), DATE_TIME_FORMAT) {
                Some(c) => c,
                None => {
                    let with_seconds = concat(date.as_str(), ":00");
                    match kst_date_time_from_text(with_seconds.as_str(), DATE_TIME_FORMAT) {
                        Some(c) => c,
                        None => {
                            let mut m = concat("Failed to parse datetime '", date.as_str());
                            m.append("': ");
                            m.append(date_time_error_texts(with_seconds.as_str(), DATE_TIME_FORMAT).0.as_str());
                            return Err(SsuDormError::DateParse(m).into_plugin_error());
                        },
                    }
                },
            }
        } else {
            match kst_midnight_from_text(date.as_str(), DATE_FORMAT) {
                Some(c) => c,
                None => {
                    let mut m = concat("Failed to parse date '", date.as_str());
                    m.append("': ");
                    m.append(date_error_texts(date.as_str(), DATE_FORMAT).0.as_str());
                    return Err(SsuDormError::DateParse(m).into_plugin_error());
                },
            }
        };
        let contents = select_in_document(html, CONTENT_SELECTOR);
        if contents.len() == 0 {
            return Err(SsuDormError::ContentNotFound(meta.url.clone()).into_plugin_error());
        }
        proof {
            assert(views(contents@)[0] == contents@[0]@);
        }
        let content = contents[0].clone();
        let links = select_in_document(html, ATTACHMENT_SELECTOR);
        let ghost ls = views(links@);
        let http = chars_of("http");
        let mut attachments: Vec<Attachment> = Vec::new();
        let mut i: usize = 0;
        proof {
            assert(ls.skip(0) == ls);
        }
        while i < links.len()
            invariant
                i <= links@.len(),
                ls == views(links@),
                ls == document_matches(html@, ATTACHMENT_SELECTOR@),
                http@ == "http"@,
                post_page_readable(html@),
                attachments_follow(attachments@, ls.take(i as int)),
                attachments_failure(ls) == attachments_failure(ls.skip(i as int)),
                first_text(html@, TITLE_SELECTOR@) is Some,
                date_fields(final_date(html@, meta.date_str_from_list@)) is Some,
                document_matches(html@, CONTENT_SELECTOR@).len() > 0,
            decreases links@.len() - i,
        {
            proof {
                assert(ls.take(i + 1).drop_last() == ls.take(i as int));
                assert(ls.take(i + 1).last() == links@[i as int]@);
                assert(ls.skip(i as int)[0] == links@[i as int]@);
                assert(ls.skip(i as int).drop_first() == ls.skip(i + 1));
                assert(ls[i as int] == links@[i as int]@);
            }
            let ghost before = attachments@;
            if let Some(h) = first_attr_in_fragment(links[i].as_str(), "a", "href") {
                let url = if has_prefix(&chars_of(h.as_str()), &http) {
                    h.clone()
                } else {
                    match join_url(BASE_URL, h.as_str()) {
                        Some(u) => u,
                        None => return Err(PluginError::parse(IDENTIFIER, concat("Failed to join attachment URL ", h.as_str()))),
                    }
                };
                let name = trim_str(text_of_element(links[i].as_str()).as_str());
                let name_opt = if name.as_str().unicode_len() == 0 { None } else { Some(name) };
                attachments.push(Attachment { name: name_opt, url, mime_type: None });
                proof {
                    assert(attachments@.drop_last() == before);
                }
            }
            i += 1;
        }
        proof {
            assert(ls.take(ls.len() as int) == ls);
            assert(ls.skip(ls.len() as int) =~= Seq::<Seq<char>>::empty());
        }
        let mut category: Vec<String> = Vec::new();
        category.push(String::from_str(CATEGORY));
        proof {
            assert(views(category@) =~= seq![CATEGORY@]);
        }
        Ok(SsufidPost {
            id: meta.id.clone(),
            url: meta.url.clone(),
            author: Some(author),
            title,
            description: None,
            category,
            created_at,
            updated_at: None,
            thumbnail: None,
            content,
            attachments,
            metadata: None,
        })
    }

    /// Reads a post page, or gives none when it cannot be read.
    pub fn try_parse_post_page(html: &str, meta: &SsuDormPostMetadata) -> (r: Option<Result<SsufidPost, PluginError>>)
        ensures
            r is Some <==> post_page_readable(html@),
    {
        if Self::post_page_readable(html) { Some(Self::parse_post_page(html, meta)) } else { None }
    }
}

impl DormCrawl {
    /// A crawl before its first list page.
    pub fn new() -> (c: DormCrawl)
        ensures
            c.collected == 0,
            c.page == 1,
    {
        DormCrawl { collected: 0, page: 1 }
    }

    /// Whether the crawl reads another list page: fewer posts than `posts_limit` are
    /// counted and the page is within those allowed.
    pub fn wants_page(&self, posts_limit: u32) -> (b: bool)
        ensures
            b == (self.collected < posts_limit && self.page <= MAX_PAGES_TO_TRY),
    {
        self.collected < posts_limit && self.page <= MAX_PAGES_TO_TRY
    }

    /// Takes in a list page that listed `found` posts: as many as fit under `posts_limit`
    /// are fetched, and counted.
    pub fn take_listing(&mut self, found: usize, posts_limit: u32) -> (n: usize)
        ensures
            n <= found,
            n == (if old(self).collected >= posts_limit { 0 } else if found <= posts_limit - old(self).collected {
                found as int
            } else {
                posts_limit - old(self).collected
            }),
            final(self).collected == old(self).collected + n,
            final(self).page == old(self).page,
    {
        let room: u32 = if self.collected >= posts_limit { 0 } else { posts_limit - self.collected };
        let n: usize = if found <= room as usize { found } else { room as usize };
        self.collected = self.collected + n as u32;
        n
    }

    /// A post could not be fetched: it no longer counts.
    pub fn post_failed(&mut self)
        ensures
            final(self).collected == (if old(self).collected > 0 { old(self).collected - 1 } else { 0 }),
            final(self).page == old(self).page,
    {
        self.collected = self.collected.saturating_sub(1);
    }

    /// Ends a list page with `gathered` posts; false when the crawl ends, having gathered
    /// `posts_limit`; the next page comes otherwise.
    pub fn finish_page(&mut self, gathered: usize, posts_limit: u32) -> (go_on: bool)
        ensures
            go_on == (gathered < posts_limit),
            go_on ==> final(self).page == (if old(self).page < u32::MAX { old(self).page + 1 } else { u32::MAX as int }),
            !go_on ==> final(self).page == old(self).page,
            final(self).collected == old(self).collected,
    {
        if gathered >= posts_limit as usize {
            return false;
        }
        if self.page < u32::MAX {
            self.page = self.page + 1;
        }
        true
    }
}

} // verus!

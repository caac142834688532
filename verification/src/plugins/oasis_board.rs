//! The library's notices, read from its web pages: the list page and the post pages.

use vstd::prelude::*;
use crate::datetime::{Timestamp, parsed_date, parsed_date_time, kst_instant, KST_OFFSET_SECONDS, kst_date_time_from_text, kst_midnight_from_text, date_parse_error, date_time_parse_error, date_error_texts, date_time_error_texts};
use crate::error::{PluginError, concat};
use crate::html::{cell_at, 
    document_matches, fragment_first_attr, joined_url, first_matches_in_each, url_parses, opt_views, text_concat,
    select_in_document, first_attr_in_fragment, join_url, first_in_each, is_url, text_of_element, first_inner_html,
    first_inner_html_in_document, url_path_segments, path_segments_of,
};
use crate::post::{Attachment, SsufidPost, opt_view, guessed_mime, guess_mime};
use crate::text::{trim, trim_str, chars_of, starts_with, has_prefix, first_index_of, find_char, views};

verus! {

/// The plugin's identifier.
pub const IDENTIFIER: &'static str = "oasis.ssu.ac.kr";
/// The site's title.
pub const TITLE: &'static str = "숭실대학교 도서관 공지사항";
/// The site's description.
pub const DESCRIPTION: &'static str = "숭실대학교 도서관 웹사이트의 공지사항을 제공합니다.";
/// The site's address.
pub const BASE_URL: &'static str = "https://oasis.ssu.ac.kr";
/// The path of the notice list.
pub const LIST_PATH: &'static str = "/library-services/bulletin/notice";
/// The rows of the list.
pub const NOTICE_LIST_ITEM_SELECTOR: &'static str = "table.board-table-valign-top > tbody > tr";
/// A row's link with its title.
pub const NOTICE_URL_TITLE_SELECTOR: &'static str = "td.subject > a";
/// A row's author cell.
pub const NOTICE_AUTHOR_SELECTOR: &'static str = "td.writer";
/// A row's date cell.
pub const NOTICE_DATE_SELECTOR: &'static str = "td.date, td.td-date";
/// A post page's title.
pub const POST_TITLE_SELECTOR: &'static str = "div.subject > h1, div.board-view-title-wrap > div.subject, h2.title, .title_view .subject";
/// A post page's content.
pub const POST_CONTENT_SELECTOR: &'static str = "div.view-content, div.content, div.view_content, article.content, div.fr-view";
/// A post page's attachment links.
pub const POST_ATTACHMENTS_SELECTOR: &'static str = "div.file_list_wrap ul.file_list li a, div.file-list a, .attached-file a, .file_add a";
/// A post page's author.
pub const POST_INFO_AUTHOR_SELECTOR: &'static str = "div.board-view-info-wrap > ul > li.name > span, span.writer, .writer_info .name, dd.writer";
/// A post page's date.
pub const POST_INFO_DATE_SELECTOR: &'static str = "div.board-view-info-wrap > ul > li.date > span, span.date, .writer_info .date, dd.date";
/// The format of a date with a time.
pub const DATE_FORMAT_POST_DATETIME: &'static str = "[year].[month].[day] [hour]:[minute]";
/// The format of a date alone.
pub const DATE_FORMAT_POST_DATE: &'static str = "[year].[month].[day]";

/// Whether `c` is numeric in Unicode (`char::is_numeric`).
pub uninterp spec fn unicode_numeric(c: char) -> bool;

/// Whether `c` is numeric (`char::is_numeric`); among ASCII characters, exactly the
/// digits are.
#[verifier::external_body]
pub(crate) fn is_numeric(c: char) -> (b: bool)
    ensures
        b == unicode_numeric(c),
        (c as u32) < 128 ==> (b == ('0' <= c && c <= '9')),
{
    c.is_numeric()
}

/// The library plugin that reads its web pages.
pub struct OasisPlugin;

/// A notice as the list shows it.
#[derive(Clone, Debug)]
pub struct OasisMetadata {
    pub id: String,
    pub url: String,
    pub title: String,
    pub author_name: Option<String>,
    pub date_str: String,
}

/// Why a row of the list could not be read.
#[derive(Clone, Debug)]
pub enum OasisMetadataError {
    UrlNotFound,
    DateNotFound,
    IdExtractionFailed(String),
}

/// Whether every character of `s` is numeric.
pub open spec fn all_numeric(s: Seq<char>) -> bool {
    forall|i: int| 0 <= i < s.len() ==> unicode_numeric(#[trigger] s[i])
}

/// The number of a notice's address: its last path segment, when it is not empty and is
/// all numeric.
pub open spec fn notice_id_of(url: Seq<char>) -> Option<Seq<char>> {
    match url_path_segments(url) {
        Some(s) => if s.len() > 0 && s.last().len() > 0 && all_numeric(s.last()) { Some(s.last()) } else { None },
        None => None,
    }
}


/// The cells of row `i` that `selector` picks.
pub open spec fn row_cell(html: Seq<char>, i: int, selector: Seq<char>) -> Option<Seq<char>> {
    cell_at(first_matches_in_each(html, NOTICE_LIST_ITEM_SELECTOR@, selector), i)
}

/// What row `i` of the list yields, for addresses resolved against `base`: -1 when it
/// cannot be read (a link without a target, an address that does not resolve, no date),
/// 0 when it is skipped (no link, an empty title, no number in its address), 1 when it is
/// a notice.
pub open spec fn row_outcome(html: Seq<char>, i: int, base: Seq<char>) -> int {
    match row_cell(html, i, NOTICE_URL_TITLE_SELECTOR@) {
        None => 0,
        Some(a) => match fragment_first_attr(a, "a"@, "href"@) {
            None => -1,
            Some(h) => if trim(text_concat(a)).len() == 0 {
                0
            } else {
                match joined_url(base, h) {
                    None => -1,
                    Some(u) => if notice_id_of(u) is None {
                        0
                    } else if row_cell(html, i, NOTICE_DATE_SELECTOR@) is None {
                        -1
                    } else {
                        1
                    },
                }
            },
        },
    }
}

/// `m` is the notice of row `i`.
pub open spec fn row_meta_ok(m: OasisMetadata, html: Seq<char>, i: int, base: Seq<char>) -> bool {
    let a = row_cell(html, i, NOTICE_URL_TITLE_SELECTOR@)->0;
    let u = joined_url(base, fragment_first_attr(a, "a"@, "href"@)->0)->0;
    &&& m.id@ == notice_id_of(u)->0
    &&& m.url@ == u
    &&& m.title@ == trim(text_concat(a))
    &&& opt_view(m.author_name) == (match row_cell(html, i, NOTICE_AUTHOR_SELECTOR@) {
        Some(w) => if trim(text_concat(w)).len() > 0 { Some(trim(text_concat(w))) } else { None },
        None => None,
    })
    &&& m.date_str@ == trim(text_concat(row_cell(html, i, NOTICE_DATE_SELECTOR@)->0))
}

/// `metas` are the notices of the first `n` rows, in order, skipped rows left out.
pub open spec fn rows_follow(metas: Seq<OasisMetadata>, html: Seq<char>, n: int, base: Seq<char>) -> bool
    decreases n,
{
    if n <= 0 {
        metas.len() == 0
    } else if row_outcome(html, n - 1, base) == 1 {
        &&& metas.len() > 0
        &&& row_meta_ok(metas.last(), html, n - 1, base)
        &&& rows_follow(metas.drop_last(), html, n - 1, base)
    } else {
        rows_follow(metas, html, n - 1, base)
    }
}

/// Whether one of the first `n` rows cannot be read.
pub open spec fn some_row_fails(html: Seq<char>, n: int, base: Seq<char>) -> bool {
    exists|i: int| 0 <= i < n && row_outcome(html, i, base) == -1
}

/// The trimmed text of the first element of the document that matches `selector`, if any.
pub open spec fn first_text_of(html: Seq<char>, selector: Seq<char>) -> Option<Seq<char>> {
    let m = document_matches(html, selector);
    if m.len() > 0 { Some(trim(text_concat(m[0]))) } else { None }
}

/// The date text of a post page: its own date, or the list's.
pub open spec fn post_date_text(html: Seq<char>, m: OasisMetadata) -> Seq<char> {
    match first_text_of(html, POST_INFO_DATE_SELECTOR@) {
        Some(d) => d,
        None => m.date_str@,
    }
}

/// The instant of a post's date: with a time when the text has a colon, else midnight;
/// Korea Standard Time.
pub open spec fn oasis_date_of(s: Seq<char>) -> Option<int> {
    if first_index_of(s, ':') >= 0 {
        match parsed_date_time(s, DATE_FORMAT_POST_DATETIME@) {
            Some(f) => Some(kst_instant(f)),
            None => None,
        }
    } else {
        match parsed_date(s, DATE_FORMAT_POST_DATE@) {
            Some(d) => Some(kst_instant((d.0, d.1, d.2, 0, 0, 0))),
            None => None,
        }
    }
}

/// The message a post's date text is refused with when it does not read: the text, the
/// format tried (with a time when the text has a colon), and `time`'s error.
pub open spec fn oasis_date_failure(s: Seq<char>) -> Seq<char> {
    if first_index_of(s, ':') >= 0 {
        "Failed to parse post datetime '"@ + s + "' with format '"@ + DATE_FORMAT_POST_DATETIME@ + "': "@
            + date_time_parse_error(s, DATE_FORMAT_POST_DATETIME@).0
    } else {
        "Failed to parse post date '"@ + s + "' with format '"@ + DATE_FORMAT_POST_DATE@ + "': "@
            + date_parse_error(s, DATE_FORMAT_POST_DATE@).0
    }
}

/// `atts` are the attachments of the links `links`, in order: links without a target, with
/// a script or blank target, or whose target does not resolve against the site's address,
/// left out.
pub open spec fn attachments_follow(atts: Seq<Attachment>, links: Seq<Seq<char>>) -> bool
    decreases links.len(),
{
    if links.len() == 0 {
        atts.len() == 0
    } else {
        match fragment_first_attr(links.last(), "a"@, "href"@) {
            Some(h) => if starts_with(h, "javascript:"@) || trim(h).len() == 0 {
                attachments_follow(atts, links.drop_last())
            } else {
                match joined_url(BASE_URL@, h) {
                    Some(u) => {
                        let name = trim(text_concat(links.last()));
                        &&& atts.len() > 0
                        &&& opt_view(atts.last().name) == (if name.len() > 0 { Some(name) } else { None })
                        &&& atts.last().url@ == u
                        &&& opt_view(atts.last().mime_type) == guessed_mime(name)
                        &&& attachments_follow(atts.drop_last(), links.drop_last())
                    },
                    None => attachments_follow(atts, links.drop_last()),
                }
            },
            None => attachments_follow(atts, links.drop_last()),
        }
    }
}

impl OasisPlugin {
    /// The plugin.
    pub fn new() -> (p: OasisPlugin)
        ensures
            p == OasisPlugin,
    {
        OasisPlugin
    }

    /// The number of a notice's address (see `notice_id_of`); refused with the address
    /// when it has none.
    pub fn extract_id_from_url(&self, url_str: &str) -> (r: Result<String, OasisMetadataError>)
        ensures
            match r {
                Ok(id) => notice_id_of(url_str@) == Some(id@),
                Err(e) => notice_id_of(url_str@) is None && (e matches OasisMetadataError::IdExtractionFailed(u) && u@ == url_str@),
            },
    {
        let segments = match path_segments_of(url_str) {
            Some(s) => s,
            None => return Err(OasisMetadataError::IdExtractionFailed(String::from_str(url_str))),
        };
        if segments.len() == 0 {
            proof {
                assert(views(segments@).len() == 0);
            }
            return Err(OasisMetadataError::IdExtractionFailed(String::from_str(url_str)));
        }
        let last = segments[segments.len() - 1].clone();
        proof {
            assert(views(segments@).last() == last@);
        }
        let v = chars_of(last.as_str());
        if v.len() == 0 {
            proof {
                assert(last@.len() == 0);
            }
            return Err(OasisMetadataError::IdExtractionFailed(String::from_str(url_str)));
        }
        let mut i: usize = 0;
        while i < v.len()
            invariant
                i <= v.len(),
                v@ == last@,
                url_path_segments(url_str@) == Some(views(segments@)),
                views(segments@).len() > 0,
                views(segments@).last() == last@,
                forall|j: int| 0 <= j < i ==> unicode_numeric(#[trigger] v@[j]),
            decreases v.len() - i,
        {
            if !is_numeric(v[i]) {
                proof {
                    assert(!unicode_numeric(last@[i as int]));
                }
                return Err(OasisMetadataError::IdExtractionFailed(String::from_str(url_str)));
            }
            i += 1;
        }
        proof {
            assert(v@ == last@);
        }
        Ok(last)
    }

    /// Reads row `i` of the list (see `row_outcome` and `row_meta_ok`).
    fn parse_row(
        &self,
        html: &str,
        base: &str,
        i: usize,
        anchors: &Vec<Option<String>>,
        authors: &Vec<Option<String>>,
        dates: &Vec<Option<String>>,
    ) -> (r: Result<Option<OasisMetadata>, PluginError>)
        requires
            i < anchors@.len(),
            opt_views(anchors@) == first_matches_in_each(html@, NOTICE_LIST_ITEM_SELECTOR@, NOTICE_URL_TITLE_SELECTOR@),
            opt_views(authors@) == first_matches_in_each(html@, NOTICE_LIST_ITEM_SELECTOR@, NOTICE_AUTHOR_SELECTOR@),
            opt_views(dates@) == first_matches_in_each(html@, NOTICE_LIST_ITEM_SELECTOR@, NOTICE_DATE_SELECTOR@),
        ensures
            r is Err <==> row_outcome(html@, i as int, base@) == -1,
            r matches Err(e) ==> (e is Parse),
            r matches Ok(None) ==> row_outcome(html@, i as int, base@) == 0,
            r matches Ok(Some(m)) ==> row_outcome(html@, i as int, base@) == 1 && row_meta_ok(m, html@, i as int, base@),
    {
        proof {
            assert(opt_views(anchors@)[i as int] == opt_view(anchors@[i as int]));
        }
        let a = match &anchors[i] {
            Some(a) => a,
            None => return Ok(None),
        };
        let href = match first_attr_in_fragment(a.as_str(), "a", "href") {
            Some(h) => h,
            None => return Err(PluginError::parse(IDENTIFIER, String::from_str("URL href not found: UrlNotFound"))),
        };
        let text = text_of_element(a.as_str());
        let title = trim_str(text.as_str());
        if title.as_str().unicode_len() == 0 {
            return Ok(None);
        }
        let full_url = match join_url(base, href.as_str()) {
            Some(u) => u,
            None => {
                let mut m = concat("Failed to join URL: ", base);
                m.append(" with ");
                m.append(href.as_str());
                return Err(PluginError::parse(IDENTIFIER, m));
            },
        };
        let id = match self.extract_id_from_url(full_url.as_str()) {
            Ok(id) => id,
            Err(_) => return Ok(None),
        };
        let author_name = if i < authors.len() {
            proof {
                assert(opt_views(authors@)[i as int] == opt_view(authors@[i as int]));
            }
            match &authors[i] {
                Some(w) => {
                    let t = text_of_element(w.as_str());
                    let s = trim_str(t.as_str());
                    if s.as_str().unicode_len() > 0 { Some(s) } else { None }
                },
                None => None,
            }
        } else {
            None
        };
        let date_str = if i < dates.len() {
            proof {
                assert(opt_views(dates@)[i as int] == opt_view(dates@[i as int]));
            }
            match &dates[i] {
                Some(d) => {
                    let t = text_of_element(d.as_str());
                    trim_str(t.as_str())
                },
                None => return Err(PluginError::parse(IDENTIFIER, String::from_str("Date string not found: DateNotFound"))),
            }
        } else {
            return Err(PluginError::parse(IDENTIFIER, String::from_str("Date string not found: DateNotFound")));
        };
        Ok(Some(OasisMetadata { id, url: full_url, title, author_name, date_str }))
    }

    /// Reads the notice list, resolving addresses against `base_url_for_joins`: the
    /// notices of its rows in order, skipped rows left out; refused when a row cannot be
    /// read.
    pub fn parse_notice_list_metadata_from_html(&self, html_content: &str, base_url_for_joins: &str) -> (r: Result<Vec<OasisMetadata>, PluginError>)
        ensures
            r is Err <==> some_row_fails(html_content@,
                first_matches_in_each(html_content@, NOTICE_LIST_ITEM_SELECTOR@, NOTICE_URL_TITLE_SELECTOR@).len() as int,
                base_url_for_joins@),
            r matches Err(e) ==> (e is Parse),
            r matches Ok(metas) ==> rows_follow(metas@, html_content@,
                first_matches_in_each(html_content@, NOTICE_LIST_ITEM_SELECTOR@, NOTICE_URL_TITLE_SELECTOR@).len() as int,
                base_url_for_joins@),
    {
        let html = html_content;
        let base = base_url_for_joins;
        let anchors = first_in_each(html, NOTICE_LIST_ITEM_SELECTOR, NOTICE_URL_TITLE_SELECTOR);
        let authors = first_in_each(html, NOTICE_LIST_ITEM_SELECTOR, NOTICE_AUTHOR_SELECTOR);
        let dates = first_in_each(html, NOTICE_LIST_ITEM_SELECTOR, NOTICE_DATE_SELECTOR);
        let mut metas: Vec<OasisMetadata> = Vec::new();
        let mut i: usize = 0;
        while i < anchors.len()
            invariant
                i <= anchors@.len(),
                html@ == html_content@,
                base@ == base_url_for_joins@,
                opt_views(anchors@) == first_matches_in_each(html@, NOTICE_LIST_ITEM_SELECTOR@, NOTICE_URL_TITLE_SELECTOR@),
                opt_views(authors@) == first_matches_in_each(html@, NOTICE_LIST_ITEM_SELECTOR@, NOTICE_AUTHOR_SELECTOR@),
                opt_views(dates@) == first_matches_in_each(html@, NOTICE_LIST_ITEM_SELECTOR@, NOTICE_DATE_SELECTOR@),
                rows_follow(metas@, html@, i as int, base@),
                !some_row_fails(html@, i as int, base@),
            decreases anchors@.len() - i,
        {
            let ghost before = metas@;
            match self.parse_row(html, base, i, &anchors, &authors, &dates) {
                Ok(Some(m)) => {
                    metas.push(m);
                    proof {
                        assert(metas@.drop_last() == before);
                    }
                },
                Ok(None) => {},
                Err(e) => {
                    proof {
                        assert(opt_views(anchors@).len() == anchors@.len());
                        assert(row_outcome(html_content@, i as int, base_url_for_joins@) == -1);
                        assert(some_row_fails(html_content@,
                            first_matches_in_each(html_content@, NOTICE_LIST_ITEM_SELECTOR@, NOTICE_URL_TITLE_SELECTOR@).len() as int,
                            base_url_for_joins@));
                    }
                    return Err(e);
                },
            }
            proof {
                assert(rows_follow(metas@, html@, i + 1, base@));
                assert forall|j: int| 0 <= j < i + 1 implies row_outcome(html@, j, base@) != -1 by {
                    if j < i {
                        assert(!(0 <= j < i && row_outcome(html@, j, base@) == -1));
                    }
                }
            }
            i += 1;
        }
        proof {
            assert(opt_views(anchors@).len() == anchors@.len());
        }
        Ok(metas)
    }

    /// The attachments of a post page's links (see `attachments_follow`).
    fn attachments_of(links: &Vec<String>) -> (atts: Vec<Attachment>)
        ensures
            attachments_follow(atts@, views(links@)),
    {
        let ghost ls = views(links@);
        let mut atts: Vec<Attachment> = Vec::new();
        let mut i: usize = 0;
        while i < links.len()
            invariant
                i <= links.len(),
                ls == views(links@),
                attachments_follow(atts@, ls.take(i as int)),
            decreases links.len() - i,
        {
            proof {
                assert(ls.take(i + 1).drop_last() == ls.take(i as int));
                assert(ls.take(i + 1).last() == links@[i as int]@);
            }
            let ghost before = atts@;
            match first_attr_in_fragment(links[i].as_str(), "a", "href") {
                Some(h) => {
                    let skip = has_prefix(&chars_of(h.as_str()), &chars_of("javascript:"))
                        || trim_str(h.as_str()).as_str().unicode_len() == 0;
                    if !skip {
                        match join_url(BASE_URL, h.as_str()) {
                            Some(url) => {
                                let text = text_of_element(links[i].as_str());
                                let name = trim_str(text.as_str());
                                let mime_type = guess_mime(name.as_str());
                                let name_opt = if name.as_str().unicode_len() > 0 { Some(name) } else { None };
                                atts.push(Attachment { name: name_opt, url, mime_type });
                                proof {
                                    assert(atts@.drop_last() == before);
                                }
                            },
                            None => {},
                        }
                    }
                },
                None => {},
            }
            i += 1;
        }
        proof {
            assert(ls.take(ls.len() as int) == ls);
        }
        atts
    }

    /// The trimmed text of the first element of the document that matches the selector.
    fn first_text(html: &str, selector: &str) -> (r: Option<String>)
        ensures
            opt_view(r) == first_text_of(html@, selector@),
    {
        let m = select_in_document(html, selector);
        if m.len() == 0 {
            return None;
        }
        proof {
            assert(views(m@)[0] == m@[0]@);
        }
        let t = text_of_element(m[0].as_str());
        Some(trim_str(t.as_str()))
    }

    /// Reads a post page for the notice listed as `metadata`: its title (or the list's),
    /// its content, its date (see `post_date_text` and `oasis_date_of`), its author (or the
    /// list's) and its attachments. Refused when the date does not read.
    pub fn parse_post_details_from_html(&self, metadata: &OasisMetadata, html_content: &str) -> (r: Result<SsufidPost, PluginError>)
        ensures
            r is Err <==> oasis_date_of(post_date_text(html_content@, *metadata)) is None,
            r matches Err(e) ==> (e matches PluginError::Parse { message, .. }
                && message@ == oasis_date_failure(post_date_text(html_content@, *metadata))),
            r matches Ok(p) ==> {
                let html = html_content@;
                &&& p.id == metadata.id
                &&& p.url == metadata.url
                &&& p.title@ == (match first_text_of(html, POST_TITLE_SELECTOR@) { Some(t) => t, None => metadata.title@ })
                &&& p.content@ == (match first_inner_html(html, POST_CONTENT_SELECTOR@) { Some(c) => c, None => Seq::empty() })
                &&& oasis_date_of(post_date_text(html, *metadata)) == Some(p.created_at.unix_nanos as int)
                &&& p.created_at.offset_seconds == KST_OFFSET_SECONDS
                &&& opt_view(p.author) == (match first_text_of(html, POST_INFO_AUTHOR_SELECTOR@) {
                    Some(a) => Some(a),
                    None => opt_view(metadata.author_name),
                })
                &&& attachments_follow(p.attachments@, document_matches(html, POST_ATTACHMENTS_SELECTOR@))
                &&& p.description is None
                &&& p.category@.len() == 0
                &&& p.updated_at is None
                &&& p.thumbnail is None
                &&& p.metadata is None
            },
    {
        let html = html_content;
        let title = match Self::first_text(html, POST_TITLE_SELECTOR) {
            Some(t) => t,
            None => metadata.title.clone(),
        };
        let content = match first_inner_html_in_document(html, POST_CONTENT_SELECTOR) {
            Some(c) => c,
            None => String::new(),
        };
        let date_text = match Self::first_text(html, POST_INFO_DATE_SELECTOR) {
            Some(d) => d,
            None => metadata.date_str.clone(),
        };
        let has_time = match find_char(&chars_of(date_text.as_str()), ':') {
            Some(_) => true,
            None => false,
        };
        let created_at = if has_time {
            match kst_date_time_from_text(date_text.as_str(), DATE_FORMAT_POST_DATETIME) {
                Some(t) => t,
                None => {
                    let mut m = concat("Failed to parse post datetime '", date_text.as_str());
                    m.append("' with format '");
                    m.append(DATE_FORMAT_POST_DATETIME);
                    m.append("': ");
                    m.append(date_time_error_texts(date_text.as_str(), DATE_FORMAT_POST_DATETIME).0.as_str());
                    return Err(PluginError::parse(IDENTIFIER, m));
                },
            }
        } else {
            match kst_midnight_from_text(date_text.as_str(), DATE_FORMAT_POST_DATE) {
                Some(t) => t,
                None => {
                    let mut m = concat("Failed to parse post date '", date_text.as_str());
                    m.append("' with format '");
                    m.append(DATE_FORMAT_POST_DATE);
                    m.append("': ");
                    m.append(date_error_texts(date_text.as_str(), DATE_FORMAT_POST_DATE).0.as_str());
                    return Err(PluginError::parse(IDENTIFIER, m));
                },
            }
        };
        let author = match Self::first_text(html, POST_INFO_AUTHOR_SELECTOR) {
            Some(a) => Some(a),
            None => metadata.author_name.clone(),
        };
        let links = select_in_document(html, POST_ATTACHMENTS_SELECTOR);
        let attachments = Self::attachments_of(&links);
        Ok(SsufidPost {
            id: metadata.id.clone(),
            url: metadata.url.clone(),
            title,
            author,
            description: None,
            category: Vec::new(),
            created_at,
            updated_at: None,
            thumbnail: None,
            content,
            attachments,
            metadata: None,
        })
    }

    /// The address of the notice list.
    pub fn list_url() -> (out: String)
        ensures
            out@ == BASE_URL@ + LIST_PATH@,
    {
        concat(BASE_URL, LIST_PATH)
    }
}

} // verus!

//! The statistics and actuarial science department's notices: getting past its check for
//! robots, reading its list pages, their paging and its post pages, and the decisions of
//! its crawl.

use vstd::prelude::*;
use crate::datetime::{Timestamp, parsed_date, kst_instant, KST_OFFSET_SECONDS, kst_midnight_from_text, date_parse_error, date_error_texts};
use crate::error::{PluginError, concat};
use crate::html::{
    cell_at, document_matches, fragment_first_attr, first_matches_in_each, opt_views, text_concat, joined_url,
    url_query_pairs, first_value_for, url_parses, first_inner_html, select_in_document, first_attr_in_fragment,
    first_in_each, text_of_element, join_url, query_pairs_of, find_pair_value, is_url,
    first_inner_html_in_document, first_text, first_text_of,
};
use crate::post::{Attachment, SsufidPost, opt_view};
use crate::plugins::ssudorm::{euc_kr_text, decode_euc_kr_bytes};
use crate::text::{
    trim, trim_str, chars_of, string_of, views, int_text, int_to_text, has_text, contains_text, last_piece,
    last_piece_of, starts_with, has_prefix, second_piece_at_either, second_piece_at_either_of, parse_unsigned,
    parse_unsigned_text, lemma_parse_unsigned_range,
};

verus! {

/// The plugin's identifier.
pub const IDENTIFIER: &'static str = "stat.ssu.ac.kr";
/// The site's title.
pub const TITLE: &'static str = "숭실대학교 정보통계보험수리학과 공지사항";
/// The site's description.
pub const DESCRIPTION: &'static str = "정보통계보험수리학과 공지사항을 제공합니다.";
/// The site's address.
pub const BASE_URL: &'static str = "http://stat.ssu.ac.kr";
/// The browser that requests claim to come from.
pub const USER_AGENT: &'static str = "Mozilla/5.0 (Windows NT 10.0; Win64; x64) AppleWebKit/537.36 (KHTML, like Gecko) Chrome/91.0.4472.124 Safari/537.36";
/// The pause between requests, in milliseconds.
pub const REQUEST_DELAY_MS: u64 = 500;
/// The rows of a list page.
pub const NOTICE_ITEM_SELECTOR: &'static str = "div.table-responsive.notice-table > table.table > tbody > tr";
/// A row's link to its post.
pub const ITEM_LINK_SELECTOR: &'static str = "td:nth-child(2) > a";
/// A row's author cell.
pub const ITEM_AUTHOR_SELECTOR: &'static str = "td:nth-child(3)";
/// A row's date cell.
pub const ITEM_DATE_SELECTOR: &'static str = "td:nth-child(4)";
/// The links of a list page's paging.
pub const PAGINATION_LINK_SELECTOR: &'static str = "div.paging > ul.pagination a.page-link";
/// A post page's title.
pub const POST_TITLE_SELECTOR: &'static str = "div.table-responsive.noticeView-table > table.table tr:first-child > th";
/// A post page's cell with its date.
pub const POST_DATE_INFO_SELECTOR: &'static str = "div.table-responsive.noticeView-table > table.table tr:nth-child(2) > td:first-child";
/// A post page's content.
pub const POST_CONTENT_SELECTOR: &'static str = "div.table-responsive.noticeView-table > table.table tr > td.content";
/// A post page's attachment links.
pub const ATTACHMENT_ITEM_SELECTOR: &'static str = "div.table-responsive.noticeView-table > table.table tr td:has(i.fas.fa-file-upload) > a[href^=\"/include/fileDownload.php\"]";
/// The Korean text of the site's check for robots.
pub const SECURITY_MARKER_KO: &'static str = "자동등록방지를 위해 보안절차를 거치고 있습니다";
/// The English text of the site's check for robots.
pub const SECURITY_MARKER_EN: &'static str = "Please prove that you are human";
/// What separates a label from a post page's date.
pub const DATE_LABEL_SEPARATOR: &'static str = "ㅣ";
/// The format of a post's date.
pub const DATE_FORMAT: &'static str = "[year].[month].[day]";
/// The category of every post.
pub const CATEGORY: &'static str = "공지사항";
/// How many empty list pages in a row end a crawl.
pub const MAX_EMPTY_PAGES: u32 = 3;
/// The list page past which a crawl for many posts stops.
pub const PAGE_CAP: u32 = 50;
/// The number of posts above which the page cap applies.
pub const PAGE_CAP_LIMIT: u32 = 200;

/// The statistics and actuarial science department plugin.
pub struct SsuStatPlugin;

/// Why a page of the site could not be read.
#[derive(Clone, Debug)]
pub enum SsuStatError {
    ParseError(String),
    MetadataExtractionFailed(String),
    PostIdNotFound(String),
    DateParseFailed(String),
    ContentNotFound(String),
    TitleNotFound(String),
    SecurityPageDetected(String),
}

/// The message of an error.
pub open spec fn stat_error_message(e: SsuStatError) -> Seq<char> {
    match e {
        SsuStatError::ParseError(s) => "HTML parsing error: "@ + s@,
        SsuStatError::MetadataExtractionFailed(s) => "Metadata extraction failed for field: "@ + s@,
        SsuStatError::PostIdNotFound(s) => "Post ID (idx) not found in URL: "@ + s@,
        SsuStatError::DateParseFailed(s) => "Date parsing failed: "@ + s@,
        SsuStatError::ContentNotFound(s) => "Content not found on detail page: "@ + s@,
        SsuStatError::TitleNotFound(s) => "Title not found on detail page: "@ + s@,
        SsuStatError::SecurityPageDetected(s) => "Security page detected, could not bypass: "@ + s@,
    }
}

/// `e` is the plugin's refusal of unreadable content with the message `msg`.
pub open spec fn parse_error_is(e: PluginError, msg: Seq<char>) -> bool {
    e matches PluginError::Parse { plugin, message } && plugin@ == IDENTIFIER@ && message@ == msg
}

impl SsuStatError {
    /// The error's message.
    pub fn message(&self) -> (m: String)
        ensures
            m@ == stat_error_message(*self),
    {
        match self {
            SsuStatError::ParseError(s) => concat("HTML parsing error: ", s.as_str()),
            SsuStatError::MetadataExtractionFailed(s) => concat("Metadata extraction failed for field: ", s.as_str()),
            SsuStatError::PostIdNotFound(s) => concat("Post ID (idx) not found in URL: ", s.as_str()),
            SsuStatError::DateParseFailed(s) => concat("Date parsing failed: ", s.as_str()),
            SsuStatError::ContentNotFound(s) => concat("Content not found on detail page: ", s.as_str()),
            SsuStatError::TitleNotFound(s) => concat("Title not found on detail page: ", s.as_str()),
            SsuStatError::SecurityPageDetected(s) => concat("Security page detected, could not bypass: ", s.as_str()),
        }
    }

    /// The error as the plugin reports it: unreadable content, with the error's message.
    pub fn into_plugin_error(self) -> (e: PluginError)
        ensures
            parse_error_is(e, stat_error_message(self)),
    {
        let m = self.message();
        PluginError::parse(IDENTIFIER, m)
    }
}

/// A post as the list page shows it.
#[derive(Clone, Debug)]
pub struct SsuStatPostMetadata {
    pub id: String,
    pub url: String,
    pub title_stub: String,
    pub author: String,
    pub date_str: String,
}

/// The fields of a listed post: number, address, title, author and date.
pub open spec fn meta_fields(m: SsuStatPostMetadata) -> (Seq<char>, Seq<char>, Seq<char>, Seq<char>, Seq<char>) {
    (m.id@, m.url@, m.title_stub@, m.author@, m.date_str@)
}

/// Whether a page is the site's check for robots.
pub open spec fn is_security_page(html: Seq<char>) -> bool {
    has_text(html, SECURITY_MARKER_KO@) || has_text(html, SECURITY_MARKER_EN@)
}

/// The address of the last try at a page: `url` with the flag `ckattempt=1` added to its
/// query.
pub open spec fn retry_url(url: Seq<char>) -> Seq<char> {
    if has_text(url, "?"@) { url + "&ckattempt=1"@ } else { url + "?ckattempt=1"@ }
}

/// What comes of a fetch of a page: its text, another address to fetch, or a refusal.
pub enum StatFetch {
    Accept(String),
    Refetch(String),
    Refuse(PluginError),
}

/// The page number of a paging link's call: the text between its first bracket and the
/// next one, as a `u32`.
pub open spec fn onclick_page(o: Seq<char>) -> Option<int> {
    match second_piece_at_either(o, '(', ')') {
        Some(a) => parse_unsigned(a, u32::MAX as int),
        None => None,
    }
}

/// The page number of a paging link's address: its `page` pair, as a `u32`, once resolved
/// against the site's address.
pub open spec fn href_page(h: Seq<char>) -> Option<int> {
    match joined_url(BASE_URL@, h) {
        Some(u) => match url_query_pairs(u) {
            Some(p) => match first_value_for(p, "page"@) {
                Some(v) => parse_unsigned(v, u32::MAX as int),
                None => None,
            },
            None => None,
        },
        None => None,
    }
}

/// What a paging link gives to the search for the largest page number: `None` when it is
/// refused (the site's address does not parse), else the page it names, if any. A link
/// with a call names a page when the call is `fnGoPage`; one without, when its address
/// holds `page=`.
pub open spec fn first_pass_page(l: Seq<char>) -> Option<Option<int>> {
    match fragment_first_attr(l, "a"@, "onclick"@) {
        Some(o) => Some(if starts_with(o, "fnGoPage("@) { onclick_page(o) } else { None }),
        None => match fragment_first_attr(l, "a"@, "href"@) {
            Some(h) => if has_text(h, "page="@) {
                if url_parses(BASE_URL@) { Some(href_page(h)) } else { None }
            } else {
                Some(None)
            },
            None => Some(None),
        },
    }
}

/// The largest page number that the paging links name, and at least 1; `None` when a link
/// is refused.
pub open spec fn largest_page(links: Seq<Seq<char>>) -> Option<int>
    decreases links.len(),
{
    if links.len() == 0 {
        Some(1)
    } else {
        match largest_page(links.drop_last()) {
            None => None,
            Some(m) => match first_pass_page(links.last()) {
                None => None,
                Some(Some(p)) => Some(if p > m { p } else { m }),
                Some(None) => Some(m),
            },
        }
    }
}

/// What a paging link gives to the search for a link to the last page: one whose text
/// holds `>>` or `»` gives the page of its call, or else of its address (refused when the
/// site's address does not parse).
pub open spec fn second_pass_page(l: Seq<char>) -> Option<Option<int>> {
    if has_text(text_concat(l), ">>"@) || has_text(text_concat(l), "»"@) {
        match fragment_first_attr(l, "a"@, "onclick"@) {
            Some(o) => Some(onclick_page(o)),
            None => match fragment_first_attr(l, "a"@, "href"@) {
                Some(h) => if url_parses(BASE_URL@) { Some(href_page(h)) } else { None },
                None => Some(None),
            },
        }
    } else {
        Some(None)
    }
}

/// The page of the first link to the last page that names one, if any; `None` when a link
/// before it is refused.
pub open spec fn last_link_page(links: Seq<Seq<char>>) -> Option<Option<int>>
    decreases links.len(),
{
    if links.len() == 0 {
        Some(None)
    } else {
        match second_pass_page(links[0]) {
            None => None,
            Some(Some(p)) => Some(Some(p)),
            Some(None) => last_link_page(links.drop_first()),
        }
    }
}

/// The last page of the list as a list page's paging shows it: the page of its first link
/// to the last page, else the largest page its links name; `None` when a link is refused.
pub open spec fn last_page_number(html: Seq<char>) -> Option<int> {
    let links = document_matches(html, PAGINATION_LINK_SELECTOR@);
    match largest_page(links) {
        None => None,
        Some(m) => match last_link_page(links) {
            None => None,
            Some(Some(p)) => Some(p),
            Some(None) => Some(m),
        },
    }
}

/// The message with which the paging is refused.
pub open spec fn pagination_failure() -> Seq<char> {
    "HTML parsing error: "@ + "Base URL for pagination parse error"@
}

/// The address of list page `page`.
pub open spec fn list_url_of(page: int) -> Seq<char> {
    BASE_URL@ + "/notice.html?category=1&page="@ + int_text(page)
}

/// What row `i` of a list page read from `page_url` gives: its refusal's message, nothing
/// (no link), or its post's fields (see `meta_fields`).
pub open spec fn row_result(html: Seq<char>, page_url: Seq<char>, i: int)
    -> Result<Option<(Seq<char>, Seq<char>, Seq<char>, Seq<char>, Seq<char>)>, Seq<char>>
{
    match cell_at(first_matches_in_each(html, NOTICE_ITEM_SELECTOR@, ITEM_LINK_SELECTOR@), i) {
        None => Ok(None),
        Some(l) => match fragment_first_attr(l, "a"@, "href"@) {
            None => Err("Metadata extraction failed for field: "@ + "URL"@),
            Some(raw) => if !url_parses(page_url) {
                Err("HTML parsing error: "@ + "Base page URL parse error"@)
            } else {
                match joined_url(page_url, raw) {
                    None => Err("HTML parsing error: "@ + "Joining URL error"@),
                    Some(full) => match url_query_pairs(full) {
                        None => Err("HTML parsing error: "@ + ("Invalid URL: "@ + full)),
                        Some(p) => match first_value_for(p, "idx"@) {
                            None => Err("Post ID (idx) not found in URL: "@ + full),
                            Some(id) => match cell_at(first_matches_in_each(html, NOTICE_ITEM_SELECTOR@, ITEM_AUTHOR_SELECTOR@), i) {
                                None => Err("Metadata extraction failed for field: "@ + "author"@),
                                Some(a) => match cell_at(first_matches_in_each(html, NOTICE_ITEM_SELECTOR@, ITEM_DATE_SELECTOR@), i) {
                                    None => Err("Metadata extraction failed for field: "@ + "date"@),
                                    Some(d) => Ok(Some((id, full, trim(text_concat(l)), trim(text_concat(a)), trim(text_concat(d))))),
                                },
                            },
                        },
                    },
                }
            },
        },
    }
}

/// `metas` are the posts of the first `n` rows, in order; no row among them is refused.
pub open spec fn rows_follow(metas: Seq<SsuStatPostMetadata>, html: Seq<char>, page_url: Seq<char>, n: int) -> bool
    decreases n,
{
    if n <= 0 {
        metas.len() == 0
    } else {
        match row_result(html, page_url, n - 1) {
            Ok(Some(v)) => metas.len() > 0 && meta_fields(metas.last()) == v && rows_follow(metas.drop_last(), html, page_url, n - 1),
            Ok(None) => rows_follow(metas, html, page_url, n - 1),
            Err(_) => false,
        }
    }
}

/// The first refused row among the first `n`, as its message.
pub open spec fn first_row_failure(html: Seq<char>, page_url: Seq<char>, n: int) -> Option<Seq<char>>
    decreases n,
{
    if n <= 0 {
        None
    } else if first_row_failure(html, page_url, n - 1) is Some {
        first_row_failure(html, page_url, n - 1)
    } else {
        match row_result(html, page_url, n - 1) {
            Err(m) => Some(m),
            Ok(_) => None,
        }
    }
}

/// The number of rows of a list page.
pub open spec fn row_count(html: Seq<char>) -> int {
    first_matches_in_each(html, NOTICE_ITEM_SELECTOR@, ITEM_LINK_SELECTOR@).len() as int
}

/// The date that a post page's date text stands for: the text after its last label
/// separator, trimmed, read as `[year].[month].[day]`.
pub open spec fn clean_date(s: Seq<char>) -> Seq<char> {
    trim(last_piece(s, DATE_LABEL_SEPARATOR@))
}

/// The date text of a post page: its date cell, else the date of its row.
pub open spec fn date_info(html: Seq<char>, date_str: Seq<char>) -> Seq<char> {
    match first_text(html, POST_DATE_INFO_SELECTOR@) {
        Some(t) => t,
        None => date_str,
    }
}

/// Why an attachment link of a post at `base` is refused, as its message.
pub open spec fn attachment_link_failure(base: Seq<char>, h: Seq<char>) -> Option<Seq<char>> {
    if !url_parses(base) {
        Some("HTML parsing error: "@ + "Base post URL parse error"@)
    } else if joined_url(base, h) is None {
        Some("HTML parsing error: "@ + "Joining attachment URL error"@)
    } else {
        None
    }
}

/// The first refused attachment link among `links`, as its message.
pub open spec fn attachments_failure(base: Seq<char>, links: Seq<Seq<char>>) -> Option<Seq<char>>
    decreases links.len(),
{
    if links.len() == 0 {
        None
    } else {
        match fragment_first_attr(links[0], "a"@, "href"@) {
            Some(h) => if attachment_link_failure(base, h) is Some {
                attachment_link_failure(base, h)
            } else {
                attachments_failure(base, links.drop_first())
            },
            None => attachments_failure(base, links.drop_first()),
        }
    }
}

/// `atts` are the attachments of the links `links` of a post at `base`, in order, links
/// without a target left out.
pub open spec fn attachments_follow(atts: Seq<Attachment>, base: Seq<char>, links: Seq<Seq<char>>) -> bool
    decreases links.len(),
{
    if links.len() == 0 {
        atts.len() == 0
    } else {
        match fragment_first_attr(links.last(), "a"@, "href"@) {
            Some(h) => {
                &&& atts.len() > 0
                &&& opt_view(atts.last().name) == Some(trim(text_concat(links.last())))
                &&& Some(atts.last().url@) == joined_url(base, h)
                &&& atts.last().mime_type is None
                &&& attachments_follow(atts.drop_last(), base, links.drop_last())
            },
            None => attachments_follow(atts, base, links.drop_last()),
        }
    }
}

/// Why the post page of the post at `url`, listed with the date `date_str`, is refused,
/// as its message: no title, an unreadable date, no content or a refused attachment
/// link; in that order.
pub open spec fn post_failure(html: Seq<char>, url: Seq<char>, date_str: Seq<char>) -> Option<Seq<char>> {
    if first_text(html, POST_TITLE_SELECTOR@) is None {
        Some("Title not found on detail page: "@ + url)
    } else if parsed_date(clean_date(date_info(html, date_str)), DATE_FORMAT@) is None {
        Some("Date parsing failed: "@ + ("Could not parse '"@ + clean_date(date_info(html, date_str)) + "': "@
            + date_parse_error(clean_date(date_info(html, date_str)), DATE_FORMAT@).0))
    } else if first_inner_html(html, POST_CONTENT_SELECTOR@) is None {
        Some("Content not found on detail page: "@ + url)
    } else {
        attachments_failure(url, document_matches(html, ATTACHMENT_ITEM_SELECTOR@))
    }
}

/// The state of a crawl between list pages: the next page, whether the site showed one
/// more, and how many empty pages came in a row.
pub struct StatCrawl {
    pub page: u32,
    pub has_next_page: bool,
    pub empty_pages: u32,
}

impl SsuStatPlugin {
    /// The plugin.
    pub fn new() -> (p: SsuStatPlugin)
        ensures
            p == SsuStatPlugin,
    {
        SsuStatPlugin
    }

    /// Decodes a page fetched at `url` on try `attempt` (1 to 3) and decides what comes of
    /// it: a page that is not the check for robots is taken; the check is fetched again at
    /// the same address after the first try and at `retry_url` after the second, and
    /// refused after the third.
    pub fn after_fetch(url: &str, attempt: u8, bytes: &[u8]) -> (r: StatFetch)
        requires
            1 <= attempt <= 3,
        ensures
            match r {
                StatFetch::Accept(h) => h@ == euc_kr_text(bytes@) && !is_security_page(h@),
                StatFetch::Refetch(u) => is_security_page(euc_kr_text(bytes@)) && attempt < 3
                    && u@ == (if attempt == 1 { url@ } else { retry_url(url@) }),
                StatFetch::Refuse(e) => is_security_page(euc_kr_text(bytes@)) && attempt == 3
                    && parse_error_is(e, "Security page detected, could not bypass: "@ + url@),
            },
    {
        let html = decode_euc_kr_bytes(bytes);
        let security = contains_text(html.as_str(), SECURITY_MARKER_KO) || contains_text(html.as_str(), SECURITY_MARKER_EN);
        if !security {
            return StatFetch::Accept(html);
        }
        if attempt == 1 {
            StatFetch::Refetch(String::from_str(url))
        } else if attempt == 2 {
            let u = if contains_text(url, "?") { concat(url, "&ckattempt=1") } else { concat(url, "?ckattempt=1") };
            StatFetch::Refetch(u)
        } else {
            StatFetch::Refuse(SsuStatError::SecurityPageDetected(String::from_str(url)).into_plugin_error())
        }
    }

    /// The page number of a paging link's call (see `onclick_page`).
    fn onclick_page_of(o: &str) -> (r: Option<u32>)
        ensures
            match r {
                Some(p) => onclick_page(o@) == Some(p as int),
                None => onclick_page(o@) is None,
            },
    {
        let v = chars_of(o);
        match second_piece_at_either_of(&v, '(', ')') {
            Some(a) => {
                proof {
                    lemma_parse_unsigned_range(a@, u32::MAX as int);
                }
                match parse_unsigned_text(&a, 0xffff_ffff) {
                    Some(n) => Some(n as u32),
                    None => None,
                }
            },
            None => None,
        }
    }

    /// The page number of a paging link's address (see `href_page`).
    fn href_page_of(h: &str) -> (r: Option<u32>)
        ensures
            match r {
                Some(p) => href_page(h@) == Some(p as int),
                None => href_page(h@) is None,
            },
    {
        let u = match join_url(BASE_URL, h) {
            Some(u) => u,
            None => return None,
        };
        let pairs = match query_pairs_of(u.as_str()) {
            Some(p) => p,
            None => return None,
        };
        let v = match find_pair_value(&pairs, "page") {
            Some(v) => v,
            None => return None,
        };
        let digits = chars_of(v.as_str());
        proof {
            lemma_parse_unsigned_range(digits@, u32::MAX as int);
        }
        match parse_unsigned_text(&digits, 0xffff_ffff) {
            Some(n) => Some(n as u32),
            None => None,
        }
    }

    /// What a paging link gives to the first search (see `first_pass_page`).
    fn first_pass_of(l: &str) -> (r: Result<Option<u32>, ()>)
        ensures
            match r {
                Ok(Some(p)) => first_pass_page(l@) == Some(Some(p as int)),
                Ok(None) => first_pass_page(l@) == Some(None::<int>),
                Err(_) => first_pass_page(l@) is None,
            },
    {
        match first_attr_in_fragment(l, "a", "onclick") {
            Some(o) => {
                let v = chars_of(o.as_str());
                let prefix = chars_of("fnGoPage(");
                if has_prefix(&v, &prefix) { Ok(Self::onclick_page_of(o.as_str())) } else { Ok(None) }
            },
            None => match first_attr_in_fragment(l, "a", "href") {
                Some(h) => {
                    if contains_text(h.as_str(), "page=") {
                        if is_url(BASE_URL) { Ok(Self::href_page_of(h.as_str())) } else { Err(()) }
                    } else {
                        Ok(None)
                    }
                },
                None => Ok(None),
            },
        }
    }

    /// What a paging link gives to the second search (see `second_pass_page`).
    fn second_pass_of(l: &str) -> (r: Result<Option<u32>, ()>)
        ensures
            match r {
                Ok(Some(p)) => second_pass_page(l@) == Some(Some(p as int)),
                Ok(None) => second_pass_page(l@) == Some(None::<int>),
                Err(_) => second_pass_page(l@) is None,
            },
    {
        let text = text_of_element(l);
        if !(contains_text(text.as_str(), ">>") || contains_text(text.as_str(), "»")) {
            return Ok(None);
        }
        match first_attr_in_fragment(l, "a", "onclick") {
            Some(o) => Ok(Self::onclick_page_of(o.as_str())),
            None => match first_attr_in_fragment(l, "a", "href") {
                Some(h) => if is_url(BASE_URL) { Ok(Self::href_page_of(h.as_str())) } else { Err(()) },
                None => Ok(None),
            },
        }
    }

    /// The last page of the list as a list page's paging shows it (see
    /// `last_page_number`); refused when a link with an address must be resolved and the
    /// site's address does not parse.
    pub fn get_last_page_number(html: &str) -> (r: Result<u32, PluginError>)
        ensures
            match r {
                Ok(p) => last_page_number(html@) == Some(p as int),
                Err(e) => last_page_number(html@) is None && parse_error_is(e, pagination_failure()),
            },
    {
        let links = select_in_document(html, PAGINATION_LINK_SELECTOR);
        let ghost ls = views(links@);
        let mut max_page: u32 = 1;
        let mut i: usize = 0;
        while i < links.len()
            invariant
                i <= links@.len(),
                ls == views(links@),
                ls == document_matches(html@, PAGINATION_LINK_SELECTOR@),
                largest_page(ls.take(i as int)) == Some(max_page as int),
            decreases links@.len() - i,
        {
            proof {
                assert(ls.take(i + 1).drop_last() == ls.take(i as int));
                assert(ls.take(i + 1).last() == links@[i as int]@);
            }
            match Self::first_pass_of(links[i].as_str()) {
                Ok(Some(p)) => {
                    if p > max_page {
                        max_page = p;
                    }
                },
                Ok(None) => {},
                Err(_) => {
                    proof {
                        lemma_largest_page_refused(ls, i + 1);
                    }
                    return Err(SsuStatError::ParseError(String::from_str("Base URL for pagination parse error")).into_plugin_error());
                },
            }
            i += 1;
        }
        proof {
            assert(ls.take(ls.len() as int) == ls);
            assert(ls.skip(0) == ls);
        }
        let mut j: usize = 0;
        while j < links.len()
            invariant
                j <= links@.len(),
                ls == views(links@),
                ls == document_matches(html@, PAGINATION_LINK_SELECTOR@),
                largest_page(ls) == Some(max_page as int),
                last_link_page(ls) == last_link_page(ls.skip(j as int)),
            decreases links@.len() - j,
        {
            proof {
                assert(ls.skip(j as int)[0] == links@[j as int]@);
                assert(ls.skip(j as int).drop_first() == ls.skip(j + 1));
            }
            match Self::second_pass_of(links[j].as_str()) {
                Ok(Some(p)) => return Ok(p),
                Ok(None) => {},
                Err(_) => {
                    return Err(SsuStatError::ParseError(String::from_str("Base URL for pagination parse error")).into_plugin_error());
                },
            }
            j += 1;
        }
        proof {
            assert(ls.skip(ls.len() as int) =~= Seq::<Seq<char>>::empty());
        }
        Ok(max_page)
    }

    /// The address of list page `page`.
    pub fn list_url(page: u32) -> (out: String)
        ensures
            out@ == list_url_of(page as int),
    {
        let mut out = concat(BASE_URL, "/notice.html?category=1&page=");
        let n = int_to_text(page as i64);
        out.append(n.as_str());
        out
    }

    /// Reads row `i` of a list page read from `page_url` (see `row_result`).
    fn parse_row(page_url: &str, i: usize, links: &Vec<Option<String>>, authors: &Vec<Option<String>>,
        dates: &Vec<Option<String>>, html: Ghost<Seq<char>>) -> (r: Result<Option<SsuStatPostMetadata>, PluginError>)
        requires
            i < links@.len(),
            opt_views(links@) == first_matches_in_each(html@, NOTICE_ITEM_SELECTOR@, ITEM_LINK_SELECTOR@),
            opt_views(authors@) == first_matches_in_each(html@, NOTICE_ITEM_SELECTOR@, ITEM_AUTHOR_SELECTOR@),
            opt_views(dates@) == first_matches_in_each(html@, NOTICE_ITEM_SELECTOR@, ITEM_DATE_SELECTOR@),
        ensures
            match r {
                Err(e) => row_result(html@, page_url@, i as int) matches Err(m) && parse_error_is(e, m),
                Ok(None) => row_result(html@, page_url@, i as int) is Ok && row_result(html@, page_url@, i as int)->Ok_0 is None,
                Ok(Some(m)) => row_result(html@, page_url@, i as int) is Ok && row_result(html@, page_url@, i as int)->Ok_0 == Some(meta_fields(m)),
            },
    {
        proof {
            assert(opt_views(links@)[i as int] == opt_view(links@[i as int]));
        }
        let l = match &links[i] {
            Some(l) => l,
            None => return Ok(None),
        };
        let raw = match first_attr_in_fragment(l.as_str(), "a", "href") {
            Some(h) => h,
            None => return Err(SsuStatError::MetadataExtractionFailed(String::from_str("URL")).into_plugin_error()),
        };
        if !is_url(page_url) {
            return Err(SsuStatError::ParseError(String::from_str("Base page URL parse error")).into_plugin_error());
        }
        let full = match join_url(page_url, raw.as_str()) {
            Some(u) => u,
            None => return Err(SsuStatError::ParseError(String::from_str("Joining URL error")).into_plugin_error()),
        };
        let pairs = match query_pairs_of(full.as_str()) {
            Some(p) => p,
            None => return Err(SsuStatError::ParseError(concat("Invalid URL: ", full.as_str())).into_plugin_error()),
        };
        let id = match find_pair_value(&pairs, "idx") {
            Some(v) => v,
            None => return Err(SsuStatError::PostIdNotFound(full).into_plugin_error()),
        };
        let a = if i < authors.len() {
            proof {
                assert(opt_views(authors@)[i as int] == opt_view(authors@[i as int]));
            }
            match &authors[i] {
                Some(a) => a,
                None => return Err(SsuStatError::MetadataExtractionFailed(String::from_str("author")).into_plugin_error()),
            }
        } else {
            return Err(SsuStatError::MetadataExtractionFailed(String::from_str("author")).into_plugin_error());
        };
        let d = if i < dates.len() {
            proof {
                assert(opt_views(dates@)[i as int] == opt_view(dates@[i as int]));
            }
            match &dates[i] {
                Some(d) => d,
                None => return Err(SsuStatError::MetadataExtractionFailed(String::from_str("date")).into_plugin_error()),
            }
        } else {
            return Err(SsuStatError::MetadataExtractionFailed(String::from_str("date")).into_plugin_error());
        };
        let title_stub = trim_str(text_of_element(l.as_str()).as_str());
        let author = trim_str(text_of_element(a.as_str()).as_str());
        let date_str = trim_str(text_of_element(d.as_str()).as_str());
        Ok(Some(SsuStatPostMetadata { id, url: full, title_stub, author, date_str }))
    }

    /// Reads list page `page`: the posts of its rows with links, in order, and whether a
    /// later page follows (it is before the last page that the paging shows, and this one
    /// listed posts); refused at the first row that cannot be read, or when the paging is.
    pub fn parse_list_page(html: &str, page: u32) -> (r: Result<(Vec<SsuStatPostMetadata>, bool), PluginError>)
        ensures
            match r {
                Ok((metas, next)) => {
                    &&& first_row_failure(html@, list_url_of(page as int), row_count(html@)) is None
                    &&& rows_follow(metas@, html@, list_url_of(page as int), row_count(html@))
                    &&& last_page_number(html@) matches Some(last)
                    &&& next == (page < last && metas@.len() > 0)
                },
                Err(e) => match first_row_failure(html@, list_url_of(page as int), row_count(html@)) {
                    Some(m) => parse_error_is(e, m),
                    None => last_page_number(html@) is None && parse_error_is(e, pagination_failure()),
                },
            },
    {
        let page_url = Self::list_url(page);
        let links = first_in_each(html, NOTICE_ITEM_SELECTOR, ITEM_LINK_SELECTOR);
        let authors = first_in_each(html, NOTICE_ITEM_SELECTOR, ITEM_AUTHOR_SELECTOR);
        let dates = first_in_each(html, NOTICE_ITEM_SELECTOR, ITEM_DATE_SELECTOR);
        let ghost n = opt_views(links@).len() as int;
        let ghost pu = page_url@;
        let mut metas: Vec<SsuStatPostMetadata> = Vec::new();
        let mut i: usize = 0;
        while i < links.len()
            invariant
                i <= links@.len(),
                n == links@.len(),
                pu == page_url@,
                pu == list_url_of(page as int),
                opt_views(links@) == first_matches_in_each(html@, NOTICE_ITEM_SELECTOR@, ITEM_LINK_SELECTOR@),
                opt_views(authors@) == first_matches_in_each(html@, NOTICE_ITEM_SELECTOR@, ITEM_AUTHOR_SELECTOR@),
                opt_views(dates@) == first_matches_in_each(html@, NOTICE_ITEM_SELECTOR@, ITEM_DATE_SELECTOR@),
                first_row_failure(html@, pu, i as int) is None,
                rows_follow(metas@, html@, pu, i as int),
            decreases links@.len() - i,
        {
            let ghost before = metas@;
            match Self::parse_row(page_url.as_str(), i, &links, &authors, &dates, Ghost(html@)) {
                Ok(Some(m)) => {
                    metas.push(m);
                    proof {
                        assert(metas@.drop_last() == before);
                    }
                },
                Ok(None) => {},
                Err(e) => {
                    proof {
                        lemma_first_row_failure_stays(html@, pu, i + 1, n);
                    }
                    return Err(e);
                },
            }
            i += 1;
        }
        let last = Self::get_last_page_number(html)?;
        let next = page < last && metas.len() > 0;
        Ok((metas, next))
    }

    /// Reads the date of a post page's date text (see `clean_date`), at midnight, Korea
    /// Standard Time.
    pub fn parse_date(date_str: &str) -> (r: Result<Timestamp, SsuStatError>)
        ensures
            match r {
                Ok(t) => parsed_date(clean_date(date_str@), DATE_FORMAT@) matches Some(d)
                    && t.unix_nanos == kst_instant((d.0, d.1, d.2, 0, 0, 0)) && t.offset_seconds == KST_OFFSET_SECONDS,
                Err(e) => parsed_date(clean_date(date_str@), DATE_FORMAT@) is None
                    && stat_error_message(e) == "Date parsing failed: "@ + ("Could not parse '"@ + clean_date(date_str@) + "': "@
                    + date_parse_error(clean_date(date_str@), DATE_FORMAT@).0),
            },
    {
        let v = chars_of(date_str);
        let sep = chars_of(DATE_LABEL_SEPARATOR);
        proof {
            reveal_strlit("ㅣ");
        }
        let piece = last_piece_of(&v, &sep);
        let clean = trim_str(string_of(&piece).as_str());
        match kst_midnight_from_text(clean.as_str(), DATE_FORMAT) {
            Some(t) => Ok(t),
            None => {
                let mut m = concat("Could not parse '", clean.as_str());
                m.append("': ");
                m.append(date_error_texts(clean.as_str(), DATE_FORMAT).0.as_str());
                Err(SsuStatError::DateParseFailed(m))
            },
        }
    }

    /// The attachments of a post at `base` (see `attachments_follow`); refused at the first
    /// link that cannot be resolved.
    fn attachments_of(base: &str, links: &Vec<String>) -> (r: Result<Vec<Attachment>, PluginError>)
        ensures
            match r {
                Ok(atts) => attachments_failure(base@, views(links@)) is None && attachments_follow(atts@, base@, views(links@)),
                Err(e) => attachments_failure(base@, views(links@)) matches Some(m) && parse_error_is(e, m),
            },
    {
        let ghost ls = views(links@);
        let mut atts: Vec<Attachment> = Vec::new();
        let mut i: usize = 0;
        proof {
            assert(ls.skip(0) == ls);
        }
        while i < links.len()
            invariant
                i <= links.len(),
                ls == views(links@),
                attachments_follow(atts@, base@, ls.take(i as int)),
                attachments_failure(base@, ls) == attachments_failure(base@, ls.skip(i as int)),
            decreases links.len() - i,
        {
            proof {
                assert(ls.take(i + 1).drop_last() == ls.take(i as int));
                assert(ls.take(i + 1).last() == links@[i as int]@);
                assert(ls.skip(i as int)[0] == links@[i as int]@);
                assert(ls.skip(i as int).drop_first() == ls.skip(i + 1));
            }
            let ghost before = atts@;
            match first_attr_in_fragment(links[i].as_str(), "a", "href") {
                Some(h) => {
                    let name = trim_str(text_of_element(links[i].as_str()).as_str());
                    if !is_url(base) {
                        return Err(SsuStatError::ParseError(String::from_str("Base post URL parse error")).into_plugin_error());
                    }
                    let url = match join_url(base, h.as_str()) {
                        Some(u) => u,
                        None => return Err(SsuStatError::ParseError(String::from_str("Joining attachment URL error")).into_plugin_error()),
                    };
                    atts.push(Attachment { name: Some(name), url, mime_type: None });
                    proof {
                        assert(atts@.drop_last() == before);
                    }
                },
                None => {},
            }
            i += 1;
        }
        proof {
            assert(ls.take(ls.len() as int) == ls);
        }
        Ok(atts)
    }

    /// Reads the post page of the post listed as `metadata` (see `post_failure`): its
    /// title, its date (from its date cell, else from its row), its content and
    /// attachments; its author from its row, and the one category of notices.
    pub fn parse_post_page(html: &str, metadata: &SsuStatPostMetadata) -> (r: Result<SsufidPost, PluginError>)
        ensures
            match r {
                Err(e) => post_failure(html@, metadata.url@, metadata.date_str@) matches Some(m) && parse_error_is(e, m),
                Ok(p) => {
                    &&& post_failure(html@, metadata.url@, metadata.date_str@) is None
                    &&& p.id == metadata.id
                    &&& p.url == metadata.url
                    &&& Some(p.title@) == first_text(html@, POST_TITLE_SELECTOR@)
                    &&& opt_view(p.author) == Some(metadata.author@)
                    &&& parsed_date(clean_date(date_info(html@, metadata.date_str@)), DATE_FORMAT@) matches Some(d)
                    &&& p.created_at.unix_nanos == kst_instant((d.0, d.1, d.2, 0, 0, 0))
                    &&& p.created_at.offset_seconds == KST_OFFSET_SECONDS
                    &&& first_inner_html(html@, POST_CONTENT_SELECTOR@) matches Some(c) && p.content@ == trim(c)
                    &&& attachments_follow(p.attachments@, metadata.url@, document_matches(html@, ATTACHMENT_ITEM_SELECTOR@))
                    &&& views(p.category@) == seq![CATEGORY@]
                    &&& p.description is None
                    &&& p.updated_at is None
                    &&& p.thumbnail is None
                    &&& p.metadata is None
                },
            },
    {
        let title = match first_text_of(html, POST_TITLE_SELECTOR) {
            Some(t) => t,
            None => return Err(SsuStatError::TitleNotFound(metadata.url.clone()).into_plugin_error()),
        };
        let date_text = match first_text_of(html, POST_DATE_INFO_SELECTOR) {
            Some(t) => t,
            None => metadata.date_str.clone(),
        };
        let created_at = match Self::parse_date(date_text.as_str()) {
            Ok(t) => t,
            Err(e) => return Err(e.into_plugin_error()),
        };
        let content = match first_inner_html_in_document(html, POST_CONTENT_SELECTOR) {
            Some(c) => trim_str(c.as_str()),
            None => return Err(SsuStatError::ContentNotFound(metadata.url.clone()).into_plugin_error()),
        };
        let links = select_in_document(html, ATTACHMENT_ITEM_SELECTOR);
        let attachments = Self::attachments_of(metadata.url.as_str(), &links)?;
        let mut category: Vec<String> = Vec::new();
        category.push(String::from_str(CATEGORY));
        proof {
            assert(views(category@) =~= seq![CATEGORY@]);
        }
        Ok(SsufidPost {
            id: metadata.id.clone(),
            url: metadata.url.clone(),
            title,
            author: Some(metadata.author.clone()),
            description: None,
            category,
            created_at,
            updated_at: None,
            thumbnail: None,
            content,
            attachments,
            metadata: None,
        })
    }

    /// Whether a failure to read a post ends the whole crawl: it is a refusal of unreadable
    /// content whose message names `SecurityPageDetected`.
    pub fn aborts_crawl(e: &PluginError) -> (b: bool)
        ensures
            b == (e matches PluginError::Parse { message, .. } && has_text(message@, "SecurityPageDetected"@)),
    {
        match e {
            PluginError::Parse { message, .. } => contains_text(message.as_str(), "SecurityPageDetected"),
            _ => false,
        }
    }

    /// How many posts of a list page that listed `found` are fetched, with `collected`
    /// posts gathered: as many as fit under `posts_limit`.
    pub fn posts_to_fetch(found: usize, collected: usize, posts_limit: u32) -> (n: usize)
        ensures
            n <= found,
            collected >= posts_limit ==> n == 0,
            collected < posts_limit ==> n == (if found <= posts_limit - collected { found as int } else { posts_limit - collected }),
    {
        if collected >= posts_limit as usize {
            0
        } else {
            let room = posts_limit as usize - collected;
            if found <= room { found } else { room }
        }
    }
}

impl StatCrawl {
    /// A crawl before its first list page.
    pub fn new() -> (c: StatCrawl)
        ensures
            c.page == 1,
            c.has_next_page,
            c.empty_pages == 0,
    {
        StatCrawl { page: 1, has_next_page: true, empty_pages: 0 }
    }

    /// Whether the crawl reads another list page, with `collected` posts gathered: the
    /// site showed one, and fewer than `posts_limit` are gathered.
    pub fn wants_page(&self, collected: usize, posts_limit: u32) -> (b: bool)
        ensures
            b == (self.has_next_page && collected < posts_limit),
    {
        self.has_next_page && collected < posts_limit as usize
    }

    /// Takes in a list page that listed `found` posts and said whether another follows;
    /// false when the crawl ends here: the page was the third empty one in a row.
    pub fn take_listing(&mut self, found: usize, next_page_exists: bool) -> (go_on: bool)
        ensures
            found == 0 ==> final(self).empty_pages == (if old(self).empty_pages < u32::MAX { old(self).empty_pages + 1 } else { u32::MAX as int }),
            found > 0 ==> final(self).empty_pages == 0,
            go_on == (final(self).empty_pages < MAX_EMPTY_PAGES),
            go_on ==> final(self).has_next_page == next_page_exists,
            !go_on ==> final(self).has_next_page == old(self).has_next_page,
            final(self).page == old(self).page,
    {
        if found == 0 {
            if self.empty_pages < u32::MAX {
                self.empty_pages = self.empty_pages + 1;
            }
            if self.empty_pages >= MAX_EMPTY_PAGES {
                return false;
            }
        } else {
            self.empty_pages = 0;
        }
        self.has_next_page = next_page_exists;
        true
    }

    /// Ends a list page with `collected` posts gathered; false when the crawl ends: the
    /// limit is reached, the next page is past the cap for a crawl of more than 200
    /// posts, or the site showed no further page and the limit is not reached.
    pub fn finish_page(&mut self, collected: usize, posts_limit: u32) -> (go_on: bool)
        ensures
            final(self).has_next_page == old(self).has_next_page,
            final(self).empty_pages == old(self).empty_pages,
            collected >= posts_limit ==> !go_on && final(self).page == old(self).page,
            collected < posts_limit ==> final(self).page == (if old(self).page < u32::MAX { old(self).page + 1 } else { u32::MAX as int }),
            go_on == (collected < posts_limit
                && !(final(self).page > PAGE_CAP && posts_limit > PAGE_CAP_LIMIT)
                && (old(self).has_next_page || posts_limit <= collected)),
    {
        if collected >= posts_limit as usize {
            return false;
        }
        if self.page < u32::MAX {
            self.page = self.page + 1;
        }
        if self.page > PAGE_CAP && posts_limit > PAGE_CAP_LIMIT {
            return false;
        }
        if !self.has_next_page && (posts_limit as usize) > collected {
            return false;
        }
        true
    }
}

/// A row that refuses stays the first refusal among any longer prefix of rows.
proof fn lemma_first_row_failure_stays(html: Seq<char>, page_url: Seq<char>, k: int, n: int)
    requires
        0 < k <= n,
        first_row_failure(html, page_url, k) is Some,
    ensures
        first_row_failure(html, page_url, n) == first_row_failure(html, page_url, k),
    decreases n - k,
{
    if n > k {
        lemma_first_row_failure_stays(html, page_url, k, n - 1);
    }
}

/// Once a link among the first `k` is refused, the search for the largest page is refused.
proof fn lemma_largest_page_refused(links: Seq<Seq<char>>, k: int)
    requires
        0 < k <= links.len(),
        largest_page(links.take(k)) is None,
    ensures
        largest_page(links) is None,
    decreases links.len() - k,
{
    if k < links.len() {
        assert(links.take(k + 1).drop_last() == links.take(k));
        lemma_largest_page_refused(links, k + 1);
    } else {
        assert(links.take(k) == links);
    }
}

} // verus!

//! The mechanical engineering department's notices: reading its list pages, its paging
//! and its post pages, and the decisions of its crawl.

use vstd::prelude::*;
use crate::datetime::{parsed_date, kst_instant, KST_OFFSET_SECONDS, kst_midnight_from_text, date_parse_error, date_error_texts};
use crate::error::{PluginError, concat};
use crate::html::{
    cell_at, document_matches, first_matches_in_each, opt_views, text_concat, fragment_first_attr, joined_url,
    url_parses, url_query_pairs, first_value_for, first_text, all_matches_in_each, nested_views, select_in_document,
    first_in_each, first_attr_in_fragment, join_url, is_url, query_pairs_of, find_pair_value, text_of_element,
    first_text_of, matches_in_each,
};
use crate::post::{Attachment, SsufidPost, opt_view};
use crate::text::{
    trim, trim_str, chars_of, views, int_text, int_to_text, has_text, contains_text, lowercase_text, to_lowercase,
    parse_unsigned, parse_unsigned_text, lemma_parse_unsigned_range,
};

verus! {

/// The plugin's identifier.
pub const IDENTIFIER: &'static str = "me.ssu.ac.kr";
/// The site's title.
pub const TITLE: &'static str = "숭실대학교 기계공학부";
/// The site's description.
pub const DESCRIPTION: &'static str = "숭실대학교 기계공학부 공지사항을 제공합니다.";
/// The site's address.
pub const BASE_URL: &'static str = "http://me.ssu.ac.kr";
/// The address of the notice list, against which its paging links are resolved.
pub const LIST_PAGE_URL: &'static str = "http://me.ssu.ac.kr/notice/notice01.php";
/// The rows of a list page.
pub const POST_ROW_SELECTOR: &'static str = "table.board-list > tbody > tr";
/// A row's link to its post.
pub const POST_LINK_SELECTOR: &'static str = "td.subject > a";
/// A row's author cell.
pub const AUTHOR_IN_LIST_SELECTOR: &'static str = "td:nth-of-type(3)";
/// A row's date cell.
pub const DATE_IN_LIST_SELECTOR: &'static str = "td:nth-of-type(4)";
/// A row's number cell.
pub const POST_ID_IN_LIST_SELECTOR: &'static str = "td.w_cell:first-child";
/// The icon of a pinned row.
pub const NOTICE_ICON_SELECTOR: &'static str = "span.ico";
/// The links of the paging that name a page.
pub const PAGINATION_LINKS_SELECTOR: &'static str = "div.paging > a[href*=\"page=\"]";
/// The paging's link to the last page.
pub const LAST_PAGE_SELECTOR: &'static str = "div.paging > a.last";
/// A post page's title.
pub const TITLE_SELECTOR: &'static str = "div.view_tit > h3.v_tit";
/// A post page's author.
pub const AUTHOR_IN_DETAIL_SELECTOR: &'static str = "div.view_tit > ul.v_list > li:nth-child(1)";
/// A post page's date.
pub const DATE_IN_DETAIL_SELECTOR: &'static str = "div.view_tit > ul.v_list > li:nth-child(2)";
/// A post page's content.
pub const CONTENT_SELECTOR: &'static str = "div.view_con";
/// A post page's list of files.
pub const FILE_ITEM_SELECTOR: &'static str = "div.view_date > ul > li.file";
/// A post page's attachment links.
pub const ATTACHMENT_LINK_SELECTOR: &'static str = "div.view_date > ul > li.file > a";
/// The format of a post's date.
pub const DATE_FORMAT: &'static str = "[year]-[month]-[day]";
/// The category of pinned posts.
pub const NOTICE_CATEGORY: &'static str = "공지";
/// How many pages in a row without new posts end a crawl.
pub const MAX_PAGES_WITHOUT_NEW_POSTS: u8 = 3;
/// The list page after which a crawl stops.
pub const MAX_TOTAL_PAGES_TO_CRAWL: u32 = 50;

/// The mechanical engineering department plugin.
pub struct MePlugin;

/// Why a page of the site could not be had or read.
#[derive(Clone, Debug)]
pub enum MePluginError {
    Reqwest(String),
    UrlParse(String),
    DateParse(String),
    DateFormat(String),
    ElementNotFound { selector: String },
    AttributeNotFound { selector: String, attribute: String },
    IdNotFoundInUrl(String),
}

/// The message of an error.
pub open spec fn me_error_message(e: MePluginError) -> Seq<char> {
    match e {
        MePluginError::Reqwest(s) => "Reqwest error: "@ + s@,
        MePluginError::UrlParse(s) => "URL parsing error: "@ + s@,
        MePluginError::DateParse(s) => "Date parsing error: "@ + s@,
        MePluginError::DateFormat(s) => "Date format description error: "@ + s@,
        MePluginError::ElementNotFound { selector } => "HTML element not found: "@ + selector@,
        MePluginError::AttributeNotFound { selector, attribute } =>
            "Attribute not found: "@ + attribute@ + " in element selected by "@ + selector@,
        MePluginError::IdNotFoundInUrl(s) => "ID not found in URL: "@ + s@,
    }
}

impl MePluginError {
    /// The error's message.
    pub fn message(&self) -> (m: String)
        ensures
            m@ == me_error_message(*self),
    {
        match self {
            MePluginError::Reqwest(s) => concat("Reqwest error: ", s.as_str()),
            MePluginError::UrlParse(s) => concat("URL parsing error: ", s.as_str()),
            MePluginError::DateParse(s) => concat("Date parsing error: ", s.as_str()),
            MePluginError::DateFormat(s) => concat("Date format description error: ", s.as_str()),
            MePluginError::ElementNotFound { selector } => concat("HTML element not found: ", selector.as_str()),
            MePluginError::AttributeNotFound { selector, attribute } => {
                let mut m = concat("Attribute not found: ", attribute.as_str());
                m.append(" in element selected by ");
                m.append(selector.as_str());
                m
            },
            MePluginError::IdNotFoundInUrl(s) => concat("ID not found in URL: ", s.as_str()),
        }
    }

    /// The error as the plugin reports it: of the plugin's own kind, with the error's
    /// message.
    pub fn into_plugin_error(self) -> (e: PluginError)
        ensures
            e matches PluginError::Custom { plugin, kind, message } && plugin@ == IDENTIFIER@ && kind@ == IDENTIFIER@
                && message@ == me_error_message(self),
    {
        let m = self.message();
        PluginError::custom(IDENTIFIER, String::from_str(IDENTIFIER), m)
    }
}

/// A post as the list shows it.
#[derive(Clone, Debug)]
pub struct MePostMetadata {
    pub id: String,
    pub url: String,
    pub title_from_list: String,
    pub author_from_list: String,
    pub date_from_list: String,
    pub is_notice: bool,
}

/// The fields of a listed post.
pub open spec fn meta_fields(m: MePostMetadata) -> (Seq<char>, Seq<char>, Seq<char>, Seq<char>, Seq<char>, bool) {
    (m.id@, m.url@, m.title_from_list@, m.author_from_list@, m.date_from_list@, m.is_notice)
}

/// The trimmed text of an optional cell, or the empty text.
pub open spec fn cell_text(c: Option<Seq<char>>) -> Seq<char> {
    match c {
        Some(h) => trim(text_concat(h)),
        None => Seq::empty(),
    }
}

/// The cells of column `selector` of a list page.
pub open spec fn column(html: Seq<char>, selector: Seq<char>) -> Seq<Option<Seq<char>>> {
    first_matches_in_each(html, POST_ROW_SELECTOR@, selector)
}

/// The address of list page `page`.
pub open spec fn list_url_of(page: int) -> Seq<char> {
    BASE_URL@ + "/notice/notice01.php?page="@ + int_text(page)
}

/// What row `i` of a list page gives: its post's fields, or its refusal.
pub open spec fn row_result(html: Seq<char>, i: int)
    -> Result<(Seq<char>, Seq<char>, Seq<char>, Seq<char>, Seq<char>, bool), ()>
{
    match cell_at(column(html, POST_LINK_SELECTOR@), i) {
        None => Err(()),
        Some(l) => match fragment_first_attr(l, "a"@, "href"@) {
            None => Err(()),
            Some(h) => match joined_url(BASE_URL@, h) {
                None => Err(()),
                Some(abs) => match url_query_pairs(abs) {
                    None => Err(()),
                    Some(p) => match first_value_for(p, "no"@) {
                        None => Err(()),
                        Some(id) => {
                            let idc = cell_text(cell_at(column(html, POST_ID_IN_LIST_SELECTOR@), i));
                            Ok((id, abs, trim(text_concat(l)), cell_text(cell_at(column(html, AUTHOR_IN_LIST_SELECTOR@), i)),
                                cell_text(cell_at(column(html, DATE_IN_LIST_SELECTOR@), i)),
                                cell_at(column(html, NOTICE_ICON_SELECTOR@), i) is Some
                                    || has_text(lowercase_text(idc), "공지"@) || has_text(lowercase_text(idc), "notice"@)))
                        },
                    },
                },
            },
        },
    }
}

/// The message that a refused row's error carries, as the refusal of row `i` names it.
pub open spec fn row_error_is(html: Seq<char>, i: int, e: MePluginError) -> bool {
    match cell_at(column(html, POST_LINK_SELECTOR@), i) {
        None => e is ElementNotFound,
        Some(l) => match fragment_first_attr(l, "a"@, "href"@) {
            None => e is AttributeNotFound,
            Some(h) => match joined_url(BASE_URL@, h) {
                None => e == MePluginError::UrlParse(e->UrlParse_0) && e->UrlParse_0@ == h,
                Some(abs) => match url_query_pairs(abs) {
                    None => e == MePluginError::UrlParse(e->UrlParse_0) && e->UrlParse_0@ == abs,
                    Some(_) => e == MePluginError::IdNotFoundInUrl(e->IdNotFoundInUrl_0) && e->IdNotFoundInUrl_0@ == abs,
                },
            },
        },
    }
}

/// The first refused row among the first `n`.
pub open spec fn first_failing_row(html: Seq<char>, n: int) -> Option<int>
    decreases n,
{
    if n <= 0 {
        None
    } else if first_failing_row(html, n - 1) is Some {
        first_failing_row(html, n - 1)
    } else if row_result(html, n - 1) is Err {
        Some(n - 1)
    } else {
        None
    }
}

/// The number of rows of a list page.
pub open spec fn row_count(html: Seq<char>) -> int {
    column(html, POST_LINK_SELECTOR@).len() as int
}

/// The page that the paging's link to the last page names, once resolved against the
/// list's address, as a `u32`.
pub open spec fn last_page_link(html: Seq<char>) -> Option<int> {
    let m = document_matches(html, LAST_PAGE_SELECTOR@);
    if m.len() > 0 {
        match fragment_first_attr(m[0], "a"@, "href"@) {
            Some(h) => match joined_url(LIST_PAGE_URL@, h) {
                Some(u) => match url_query_pairs(u) {
                    Some(p) => match first_value_for(p, "page"@) {
                        Some(v) => parse_unsigned(v, u32::MAX as int),
                        None => None,
                    },
                    None => None,
                },
                None => None,
            },
            None => None,
        }
    } else {
        None
    }
}

/// Whether some paging link's address holds `page=` and the page after `current`.
pub open spec fn links_to_next(html: Seq<char>, current: int) -> bool {
    let links = document_matches(html, PAGINATION_LINKS_SELECTOR@);
    exists|i: int| 0 <= i < links.len()
        && (fragment_first_attr(#[trigger] links[i], "a"@, "href"@) matches Some(h) && has_text(h, "page="@ + int_text(current + 1)))
}

/// Whether a list page shows a page after `current`: it lists posts, and its link to the
/// last page names a later page; without such a link, a paging link to the next page.
pub open spec fn more_pages(html: Seq<char>, current: int) -> bool {
    if document_matches(html, POST_ROW_SELECTOR@).len() == 0 {
        false
    } else {
        match last_page_link(html) {
            Some(max) => current < max,
            None => links_to_next(html, current),
        }
    }
}

/// The attachment links of a post page: those in its first list of files.
pub open spec fn attachment_links(html: Seq<char>) -> Seq<Seq<char>> {
    let groups = all_matches_in_each(html, FILE_ITEM_SELECTOR@, ATTACHMENT_LINK_SELECTOR@);
    if groups.len() > 0 { groups[0] } else { Seq::empty() }
}

/// `atts` are the attachments of the links `links` of a post at `base`, in order, links
/// without a target left out.
pub open spec fn attachments_follow(atts: Seq<Attachment>, base: Seq<char>, links: Seq<Seq<char>>) -> bool
    decreases links.len(),
{
    if links.len() == 0 {
        atts.len() == 0
    } else {
        match fragment_first_attr(links.last(), "a"@, "href"@) {
            Some(h) => {
                let name = trim(text_concat(links.last()));
                &&& atts.len() > 0
                &&& opt_view(atts.last().name) == (if name.len() > 0 { Some(name) } else { None })
                &&& Some(atts.last().url@) == joined_url(base, h)
                &&& atts.last().mime_type is None
                &&& attachments_follow(atts.drop_last(), base, links.drop_last())
            },
            None => attachments_follow(atts, base, links.drop_last()),
        }
    }
}

/// Whether some attachment link of a post at `base` cannot be resolved.
pub open spec fn attachments_refused(base: Seq<char>, links: Seq<Seq<char>>) -> bool {
    exists|i: int| 0 <= i < links.len()
        && (fragment_first_attr(#[trigger] links[i], "a"@, "href"@) matches Some(h) && joined_url(base, h) is None)
}

/// A field of a post page, else the listed one.
pub open spec fn field_or(html: Seq<char>, selector: Seq<char>, listed: Seq<char>) -> Seq<char> {
    match first_text(html, selector) {
        Some(t) => t,
        None => listed,
    }
}

/// Whether `metas` holds a post with the number `id`.
pub open spec fn has_id(metas: Seq<MePostMetadata>, id: Seq<char>) -> bool {
    exists|i: int| 0 <= i < metas.len() && (#[trigger] metas[i]).id@ == id
}

/// The posts of `items` with new numbers added to `metas` in order, until `limit` are
/// listed; and whether any was added.
pub open spec fn absorb(metas: Seq<MePostMetadata>, items: Seq<MePostMetadata>, limit: int) -> (Seq<MePostMetadata>, bool)
    decreases items.len(),
{
    if items.len() == 0 {
        (metas, false)
    } else if has_id(metas, items[0].id@) {
        absorb(metas, items.drop_first(), limit)
    } else if metas.len() + 1 >= limit {
        (metas.push(items[0]), true)
    } else {
        (absorb(metas.push(items[0]), items.drop_first(), limit).0, true)
    }
}

/// What comes after a list page: a check of the paging, or the end of the listing.
#[derive(PartialEq, Eq, Structural)]
pub enum MeStep {
    CheckMore,
    Done,
}

/// The listing so far: the page, the pages in a row without new posts, and the posts.
pub struct MeCrawl {
    pub page: u32,
    pub pages_without_new: u8,
    pub metas: Vec<MePostMetadata>,
}

impl MePlugin {
    /// The plugin.
    pub fn new() -> (p: MePlugin)
        ensures
            p == MePlugin,
    {
        MePlugin
    }

    /// The address of list page `page`.
    pub fn list_url(page: u32) -> (out: String)
        ensures
            out@ == list_url_of(page as int),
    {
        let mut out = concat(BASE_URL, "/notice/notice01.php?page=");
        out.append(int_to_text(page as i64).as_str());
        out
    }

    /// Reads row `i` of a list page (see `row_result` and `row_error_is`).
    fn parse_row(i: usize, cols: &Vec<Vec<Option<String>>>, html: Ghost<Seq<char>>) -> (r: Result<MePostMetadata, MePluginError>)
        requires
            cols@.len() == 5,
            i < cols@[0]@.len(),
            opt_views(cols@[0]@) == column(html@, POST_LINK_SELECTOR@),
            opt_views(cols@[1]@) == column(html@, AUTHOR_IN_LIST_SELECTOR@),
            opt_views(cols@[2]@) == column(html@, DATE_IN_LIST_SELECTOR@),
            opt_views(cols@[3]@) == column(html@, POST_ID_IN_LIST_SELECTOR@),
            opt_views(cols@[4]@) == column(html@, NOTICE_ICON_SELECTOR@),
        ensures
            match r {
                Ok(m) => row_result(html@, i as int) == Ok::<(Seq<char>, Seq<char>, Seq<char>, Seq<char>, Seq<char>, bool), ()>(meta_fields(m)),
                Err(e) => row_result(html@, i as int) is Err && row_error_is(html@, i as int, e),
            },
    {
        let links = &cols[0];
        proof {
            assert(opt_views(links@)[i as int] == opt_view(links@[i as int]));
        }
        let l = match &links[i] {
            Some(l) => l,
            None => return Err(MePluginError::ElementNotFound { selector: String::from_str(POST_LINK_SELECTOR) }),
        };
        let href = match first_attr_in_fragment(l.as_str(), "a", "href") {
            Some(h) => h,
            None => return Err(MePluginError::AttributeNotFound {
                selector: String::from_str(POST_LINK_SELECTOR),
                attribute: String::from_str("href"),
            }),
        };
        let abs = match join_url(BASE_URL, href.as_str()) {
            Some(u) => u,
            None => return Err(MePluginError::UrlParse(href)),
        };
        let pairs = match query_pairs_of(abs.as_str()) {
            Some(p) => p,
            None => return Err(MePluginError::UrlParse(abs)),
        };
        let id = match find_pair_value(&pairs, "no") {
            Some(v) => v,
            None => return Err(MePluginError::IdNotFoundInUrl(abs)),
        };
        let title_from_list = trim_str(text_of_element(l.as_str()).as_str());
        let author_from_list = Self::cell_text_of(&cols[1], i, Ghost(column(html@, AUTHOR_IN_LIST_SELECTOR@)));
        let date_from_list = Self::cell_text_of(&cols[2], i, Ghost(column(html@, DATE_IN_LIST_SELECTOR@)));
        let id_cell = Self::cell_text_of(&cols[3], i, Ghost(column(html@, POST_ID_IN_LIST_SELECTOR@)));
        let icon = if i < cols[4].len() {
            proof {
                assert(opt_views(cols@[4]@)[i as int] == opt_view(cols@[4]@[i as int]));
            }
            cols[4][i].is_some()
        } else {
            false
        };
        let lower = to_lowercase(id_cell.as_str());
        let is_notice = icon || contains_text(lower.as_str(), "공지") || contains_text(lower.as_str(), "notice");
        Ok(MePostMetadata { id, url: abs, title_from_list, author_from_list, date_from_list, is_notice })
    }

    /// The trimmed text of cell `i` of a column, or the empty text.
    fn cell_text_of(cells: &Vec<Option<String>>, i: usize, col: Ghost<Seq<Option<Seq<char>>>>) -> (t: String)
        requires
            opt_views(cells@) == col@,
        ensures
            t@ == cell_text(cell_at(col@, i as int)),
    {
        if i >= cells.len() {
            return String::new();
        }
        proof {
            assert(opt_views(cells@)[i as int] == opt_view(cells@[i as int]));
        }
        match &cells[i] {
            Some(c) => trim_str(text_of_element(c.as_str()).as_str()),
            None => String::new(),
        }
    }

    /// Reads a list page: the posts of its rows, in order; refused at the first row that
    /// cannot be read.
    pub fn parse_list_page(html: &str) -> (r: Result<Vec<MePostMetadata>, MePluginError>)
        ensures
            match r {
                Ok(metas) => {
                    &&& first_failing_row(html@, row_count(html@)) is None
                    &&& metas@.len() == row_count(html@)
                    &&& forall|i: int| 0 <= i < metas@.len() ==>
                        row_result(html@, i) == Ok::<(Seq<char>, Seq<char>, Seq<char>, Seq<char>, Seq<char>, bool), ()>(meta_fields(#[trigger] metas@[i]))
                },
                Err(e) => first_failing_row(html@, row_count(html@)) matches Some(k) && row_error_is(html@, k, e),
            },
    {
        let mut cols: Vec<Vec<Option<String>>> = Vec::new();
        cols.push(first_in_each(html, POST_ROW_SELECTOR, POST_LINK_SELECTOR));
        cols.push(first_in_each(html, POST_ROW_SELECTOR, AUTHOR_IN_LIST_SELECTOR));
        cols.push(first_in_each(html, POST_ROW_SELECTOR, DATE_IN_LIST_SELECTOR));
        cols.push(first_in_each(html, POST_ROW_SELECTOR, POST_ID_IN_LIST_SELECTOR));
        cols.push(first_in_each(html, POST_ROW_SELECTOR, NOTICE_ICON_SELECTOR));
        let n = cols[0].len();
        let mut metas: Vec<MePostMetadata> = Vec::new();
        let mut i: usize = 0;
        while i < n
            invariant
                cols@.len() == 5,
                n == cols@[0]@.len(),
                i <= n,
                opt_views(cols@[0]@) == column(html@, POST_LINK_SELECTOR@),
                opt_views(cols@[1]@) == column(html@, AUTHOR_IN_LIST_SELECTOR@),
                opt_views(cols@[2]@) == column(html@, DATE_IN_LIST_SELECTOR@),
                opt_views(cols@[3]@) == column(html@, POST_ID_IN_LIST_SELECTOR@),
                opt_views(cols@[4]@) == column(html@, NOTICE_ICON_SELECTOR@),
                first_failing_row(html@, i as int) is None,
                metas@.len() == i,
                forall|j: int| 0 <= j < i ==>
                    row_result(html@, j) == Ok::<(Seq<char>, Seq<char>, Seq<char>, Seq<char>, Seq<char>, bool), ()>(meta_fields(#[trigger] metas@[j])),
            decreases n - i,
        {
            match Self::parse_row(i, &cols, Ghost(html@)) {
                Ok(m) => metas.push(m),
                Err(e) => {
                    proof {
                        lemma_first_failing_row_stays(html@, i + 1, n as int);
                    }
                    return Err(e);
                },
            }
            i += 1;
        }
        Ok(metas)
    }

    /// Whether a list page shows a page after `current` (see `more_pages`); refused when
    /// the list's address does not parse and the page has a link to its last page.
    pub fn has_more_pages(html: &str, current: u32) -> (r: Result<bool, MePluginError>)
        requires
            current < u32::MAX,
        ensures
            match r {
                Ok(b) => b == more_pages(html@, current as int),
                Err(e) => !url_parses(LIST_PAGE_URL@) && e is UrlParse,
            },
    {
        let rows = select_in_document(html, POST_ROW_SELECTOR);
        if rows.len() == 0 {
            proof {
                assert(views(rows@).len() == 0);
            }
            return Ok(false);
        }
        let lasts = select_in_document(html, LAST_PAGE_SELECTOR);
        if lasts.len() > 0 {
            proof {
                assert(views(lasts@)[0] == lasts@[0]@);
            }
            if let Some(h) = first_attr_in_fragment(lasts[0].as_str(), "a", "href") {
                if !is_url(LIST_PAGE_URL) {
                    return Err(MePluginError::UrlParse(String::from_str(LIST_PAGE_URL)));
                }
                if let Some(u) = join_url(LIST_PAGE_URL, h.as_str()) {
                    if let Some(pairs) = query_pairs_of(u.as_str()) {
                        if let Some(v) = find_pair_value(&pairs, "page") {
                            let digits = chars_of(v.as_str());
                            proof {
                                lemma_parse_unsigned_range(digits@, u32::MAX as int);
                            }
                            if let Some(max) = parse_unsigned_text(&digits, 0xffff_ffff) {
                                return Ok((current as u64) < max);
                            }
                        }
                    }
                }
            }
        }
        proof {
            assert(last_page_link(html@) is None);
            assert(document_matches(html@, POST_ROW_SELECTOR@).len() > 0);
        }
        let mut wanted = String::from_str("page=");
        wanted.append(int_to_text(current as i64 + 1).as_str());
        let links = select_in_document(html, PAGINATION_LINKS_SELECTOR);
        let ghost ls = views(links@);
        let mut i: usize = 0;
        while i < links.len()
            invariant
                i <= links@.len(),
                ls == views(links@),
                ls == document_matches(html@, PAGINATION_LINKS_SELECTOR@),
                wanted@ == "page="@ + int_text(current + 1),
                last_page_link(html@) is None,
                document_matches(html@, POST_ROW_SELECTOR@).len() > 0,
                forall|j: int| 0 <= j < i ==>
                    !(fragment_first_attr(#[trigger] ls[j], "a"@, "href"@) matches Some(h) && has_text(h, wanted@)),
            decreases links@.len() - i,
        {
            proof {
                assert(ls[i as int] == links@[i as int]@);
            }
            if let Some(h) = first_attr_in_fragment(links[i].as_str(), "a", "href") {
                if contains_text(h.as_str(), wanted.as_str()) {
                    return Ok(true);
                }
            }
            i += 1;
        }
        Ok(false)
    }

    /// Reads the post page of the post listed as `meta`: refused when its date (its date
    /// field, else the listed one) does not read or an attachment link cannot be
    /// resolved. Its title and author (else the listed ones), its content as the HTML of
    /// its content element (empty when missing), its attachments, and the category of
    /// pinned posts when it is one.
    pub fn parse_post_page(html: &str, meta: &MePostMetadata) -> (r: Result<SsufidPost, MePluginError>)
        ensures
            match r {
                Err(e) => {
                    ||| (parsed_date(field_or(html@, DATE_IN_DETAIL_SELECTOR@, meta.date_from_list@), DATE_FORMAT@) is None
                        && (e matches MePluginError::DateParse(s)
                            && s@ == date_parse_error(field_or(html@, DATE_IN_DETAIL_SELECTOR@, meta.date_from_list@), DATE_FORMAT@).0))
                    ||| (parsed_date(field_or(html@, DATE_IN_DETAIL_SELECTOR@, meta.date_from_list@), DATE_FORMAT@) is Some
                        && (!url_parses(meta.url@) || attachments_refused(meta.url@, attachment_links(html@)))
                        && e is UrlParse)
                },
                Ok(p) => {
                    &&& parsed_date(field_or(html@, DATE_IN_DETAIL_SELECTOR@, meta.date_from_list@), DATE_FORMAT@) matches Some(d)
                    &&& p.created_at.unix_nanos == kst_instant((d.0, d.1, d.2, 0, 0, 0))
                    &&& p.created_at.offset_seconds == KST_OFFSET_SECONDS
                    &&& p.id == meta.id
                    &&& p.url == meta.url
                    &&& p.title@ == field_or(html@, TITLE_SELECTOR@, meta.title_from_list@)
                    &&& opt_view(p.author) == Some(field_or(html@, AUTHOR_IN_DETAIL_SELECTOR@, meta.author_from_list@))
                    &&& p.content@ == (if document_matches(html@, CONTENT_SELECTOR@).len() > 0 {
                        document_matches(html@, CONTENT_SELECTOR@)[0]
                    } else {
                        Seq::empty()
                    })
                    &&& attachments_follow(p.attachments@, meta.url@, attachment_links(html@))
                    &&& views(p.category@) == (if meta.is_notice { seq![NOTICE_CATEGORY@] } else { Seq::empty() })
                    &&& p.description is None
                    &&& p.updated_at is None
                    &&& p.thumbnail is None
                    &&& p.metadata is None
                },
            },
    {
        let title = match first_text_of(html, TITLE_SELECTOR) {
            Some(t) => t,
            None => meta.title_from_list.clone(),
        };
        let author = match first_text_of(html, AUTHOR_IN_DETAIL_SELECTOR) {
            Some(t) => t,
            None => meta.author_from_list.clone(),
        };
        let date = match first_text_of(html, DATE_IN_DETAIL_SELECTOR) {
            Some(t) => t,
            None => meta.date_from_list.clone(),
        };
        let created_at = match kst_midnight_from_text(date.as_str(), DATE_FORMAT) {
            Some(t) => t,
            None => return Err(MePluginError::DateParse(date_error_texts(date.as_str(), DATE_FORMAT).0)),
        };
        let contents = select_in_document(html, CONTENT_SELECTOR);
        let content = if contents.len() > 0 {
            proof {
                assert(views(contents@)[0] == contents@[0]@);
            }
            contents[0].clone()
        } else {
            String::new()
        };
        let groups = matches_in_each(html, FILE_ITEM_SELECTOR, ATTACHMENT_LINK_SELECTOR);
        let links: Vec<String> = if groups.len() > 0 {
            proof {
                assert(nested_views(groups@)[0] == views(groups@[0]@));
            }
            groups[0].clone()
        } else {
            Vec::new()
        };
        proof {
            assert(views(links@) == attachment_links(html@));
        }
        let ghost ls = views(links@);
        let mut attachments: Vec<Attachment> = Vec::new();
        let mut i: usize = 0;
        while i < links.len()
            invariant
                i <= links@.len(),
                ls == views(links@),
                ls == attachment_links(html@),
                attachments_follow(attachments@, meta.url@, ls.take(i as int)),
                forall|j: int| 0 <= j < i ==>
                    !(fragment_first_attr(#[trigger] ls[j], "a"@, "href"@) matches Some(h) && joined_url(meta.url@, h) is None),
                parsed_date(field_or(html@, DATE_IN_DETAIL_SELECTOR@, meta.date_from_list@), DATE_FORMAT@) is Some,
            decreases links@.len() - i,
        {
            proof {
                assert(ls.take(i + 1).drop_last() == ls.take(i as int));
                assert(ls.take(i + 1).last() == links@[i as int]@);
                assert(ls[i as int] == links@[i as int]@);
            }
            let ghost before = attachments@;
            if let Some(h) = first_attr_in_fragment(links[i].as_str(), "a", "href") {
                if !is_url(meta.url.as_str()) {
                    return Err(MePluginError::UrlParse(meta.url.clone()));
                }
                let url = match join_url(meta.url.as_str(), h.as_str()) {
                    Some(u) => u,
                    None => {
                        proof {
                            assert(fragment_first_attr(ls[i as int], "a"@, "href"@) matches Some(hh) && joined_url(meta.url@, hh) is None);
                            assert(attachments_refused(meta.url@, attachment_links(html@)));
                        }
                        return Err(MePluginError::UrlParse(h));
                    },
                };
                let name = trim_str(text_of_element(links[i].as_str()).as_str());
                let name_opt = if name.as_str().unicode_len() > 0 { Some(name) } else { None };
                attachments.push(Attachment { name: name_opt, url, mime_type: None });
                proof {
                    assert(attachments@.drop_last() == before);
                }
            }
            i += 1;
        }
        proof {
            assert(ls.take(ls.len() as int) == ls);
        }
        let mut category: Vec<String> = Vec::new();
        if meta.is_notice {
            category.push(String::from_str(NOTICE_CATEGORY));
        }
        proof {
            if meta.is_notice {
                assert(views(category@) =~= seq![NOTICE_CATEGORY@]);
            } else {
                assert(views(category@) =~= Seq::<Seq<char>>::empty());
            }
        }
        Ok(SsufidPost {
            id: meta.id.clone(),
            url: meta.url.clone(),
            title,
            author: Some(author),
            description: None,
            category,
            created_at,
            updated_at: None,
            thumbnail: None,
            content,
            attachments,
            metadata: None,
        })
    }
}

/// Whether `metas` holds a post with the number `id`.
fn holds_id(metas: &Vec<MePostMetadata>, id: &String) -> (b: bool)
    ensures
        b == has_id(metas@, id@),
{
    let mut i: usize = 0;
    while i < metas.len()
        invariant
            i <= metas@.len(),
            forall|j: int| 0 <= j < i ==> (#[trigger] metas@[j]).id@ != id@,
        decreases metas@.len() - i,
    {
        if metas[i].id == *id {
            return true;
        }
        i += 1;
    }
    false
}

impl MeCrawl {
    /// A crawl before its first list page.
    pub fn new() -> (c: MeCrawl)
        ensures
            c.page == 1,
            c.pages_without_new == 0,
            c.metas@.len() == 0,
    {
        MeCrawl { page: 1, pages_without_new: 0, metas: Vec::new() }
    }

    /// Whether the crawl reads the current page: it is within the pages allowed.
    pub fn wants_page(&self) -> (b: bool)
        ensures
            b == (self.page <= MAX_TOTAL_PAGES_TO_CRAWL),
    {
        self.page <= MAX_TOTAL_PAGES_TO_CRAWL
    }

    /// A list page could not be read: the crawl moves to the next page, counting one more
    /// page without new posts; false when that makes three in a row.
    pub fn page_failed(&mut self) -> (go_on: bool)
        requires
            old(self).page <= MAX_TOTAL_PAGES_TO_CRAWL,
            old(self).pages_without_new < MAX_PAGES_WITHOUT_NEW_POSTS,
        ensures
            final(self).page == old(self).page + 1,
            final(self).pages_without_new == old(self).pages_without_new + 1,
            final(self).metas@ == old(self).metas@,
            go_on == (final(self).pages_without_new < MAX_PAGES_WITHOUT_NEW_POSTS),
    {
        self.page = self.page + 1;
        self.pages_without_new = self.pages_without_new + 1;
        self.pages_without_new < MAX_PAGES_WITHOUT_NEW_POSTS
    }

    /// Takes in the posts of a list page (see `absorb`): those with new numbers join the
    /// listing until `posts_limit` are listed. The listing ends when that many are listed,
    /// or when this is the third page in a row without new posts; the paging is checked
    /// otherwise.
    pub fn take_page(&mut self, items: Vec<MePostMetadata>, posts_limit: u32) -> (s: MeStep)
        requires
            old(self).pages_without_new < MAX_PAGES_WITHOUT_NEW_POSTS,
        ensures
            final(self).metas@ == absorb(old(self).metas@, items@, posts_limit as int).0,
            final(self).page == old(self).page,
            ({
                let found = absorb(old(self).metas@, items@, posts_limit as int).1;
                if final(self).metas@.len() >= posts_limit {
                    s == MeStep::Done
                } else if !found {
                    final(self).pages_without_new == old(self).pages_without_new + 1
                        && (s == MeStep::Done <==> final(self).pages_without_new >= MAX_PAGES_WITHOUT_NEW_POSTS)
                } else {
                    final(self).pages_without_new == 0 && s == MeStep::CheckMore
                }
            }),
    {
        let ghost start = self.metas@;
        let ghost src = items@;
        let limit = posts_limit as usize;
        let mut found = false;
        let mut stop = false;
        let mut i: usize = 0;
        let n = items.len();
        let mut rest = items;
        proof {
            assert(src.skip(0) == src);
        }
        while i < n && !stop
            invariant
                n == src.len(),
                i <= n,
                rest@ == src.skip(i as int),
                limit == posts_limit,
                self.page == old(self).page,
                self.pages_without_new == old(self).pages_without_new,
                self.pages_without_new < MAX_PAGES_WITHOUT_NEW_POSTS,
                !stop ==> absorb(start, src, limit as int) == (absorb(self.metas@, src.skip(i as int), limit as int).0,
                    found || absorb(self.metas@, src.skip(i as int), limit as int).1),
                stop ==> absorb(start, src, limit as int) == (self.metas@, true) && found && self.metas@.len() >= limit,
            decreases n - i,
        {
            let m = rest.remove(0);
            proof {
                assert(m == src.skip(i as int)[0]);
                assert(rest@ =~= src.skip(i + 1));
                assert(src.skip(i as int).drop_first() =~= src.skip(i + 1));
            }
            if !holds_id(&self.metas, &m.id) {
                self.metas.push(m);
                found = true;
                if self.metas.len() >= limit {
                    stop = true;
                }
            }
            i += 1;
        }
        proof {
            if !stop {
                assert(src.skip(n as int) =~= Seq::<MePostMetadata>::empty());
            }
        }
        if self.metas.len() >= limit {
            return MeStep::Done;
        }
        if !found {
            self.pages_without_new = self.pages_without_new + 1;
            if self.pages_without_new >= MAX_PAGES_WITHOUT_NEW_POSTS {
                return MeStep::Done;
            }
        } else {
            self.pages_without_new = 0;
        }
        MeStep::CheckMore
    }

    /// Takes in the check of the paging: the crawl goes on to the next page only when it
    /// showed one.
    pub fn after_check(&mut self, more: bool) -> (go_on: bool)
        requires
            old(self).page < u32::MAX,
        ensures
            go_on == more,
            final(self).page == (if more { old(self).page + 1 } else { old(self).page as int }),
            final(self).metas@ == old(self).metas@,
            final(self).pages_without_new == old(self).pages_without_new,
    {
        if more {
            self.page = self.page + 1;
        }
        more
    }

    /// The listed posts, at most `posts_limit` of them.
    pub fn finish(self, posts_limit: u32) -> (r: Vec<MePostMetadata>)
        ensures
            r@ == self.metas@.take(if self.metas@.len() <= posts_limit { self.metas@.len() as int } else { posts_limit as int }),
    {
        let mut v = self.metas;
        v.truncate(posts_limit as usize);
        v
    }
}

/// A row that is refused stays the first refused row among any longer prefix of rows.
proof fn lemma_first_failing_row_stays(html: Seq<char>, k: int, n: int)
    requires
        0 < k <= n,
        first_failing_row(html, k) is Some,
    ensures
        first_failing_row(html, n) == first_failing_row(html, k),
    decreases n - k,
{
    if n > k {
        lemma_first_failing_row_stays(html, k, n - 1);
    }
}

} // verus!

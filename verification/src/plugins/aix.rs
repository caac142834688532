//! The AI convergence school's notices: reading its list pages and post pages, and the
//! decisions of its crawl.

use vstd::prelude::*;
use crate::datetime::{Timestamp, parsed_date, kst_instant, KST_OFFSET_SECONDS, kst_midnight_from_text, date_parse_error, date_error_texts};
use crate::error::{PluginError, concat};
use crate::html::{cell_at, 
    document_matches, fragment_first_attr, joined_url, url_query_pairs, first_value_for, first_matches_in_each,
    document_attrs, url_parses, opt_views, text_concat, select_in_document, first_attr_in_fragment, join_url,
    query_pairs_of, find_pair_value, first_in_each, attrs_in_document, is_url, text_of_element,
};
use crate::post::{Attachment, SsufidPost, opt_view};
use crate::text::{
    trim, trim_str, chars_of, string_of, remove_all, remove_text, starts_with, has_prefix, first_piece, second_piece,
    first_piece_of, second_piece_of, trimmed_copy, parse_unsigned, parse_unsigned_text, lemma_parse_unsigned_range, copy_range, int_text, int_to_text,
};

verus! {

/// The plugin's identifier.
pub const IDENTIFIER: &'static str = "aix.ssu.ac.kr";
/// The site's title.
pub const TITLE: &'static str = "숭실대학교 AI융합학부";
/// The site's description.
pub const DESCRIPTION: &'static str = "숭실대학교 AI융합학부 공지사항을 제공합니다.";
/// The site's address.
pub const BASE_URL: &'static str = "https://aix.ssu.ac.kr";
/// The format of the site's dates.
pub const DATE_FORMAT: &'static str = "[year].[month].[day]";
/// The rows of a list page.
pub const ROW_SELECTOR: &'static str = "div.table-responsive > table.table > tbody > tr";
/// A row's link to its post.
pub const LINK_SELECTOR: &'static str = "td:nth-child(1) > a";
/// A row's title cell.
pub const TITLE_CELL_SELECTOR: &'static str = "td:nth-child(1)";
/// A row's author cell.
pub const AUTHOR_CELL_SELECTOR: &'static str = "td:nth-child(2)";
/// A row's date cell.
pub const DATE_CELL_SELECTOR: &'static str = "td:nth-child(3)";
/// The page links under a list.
pub const PAGINATION_SELECTOR: &'static str = "div.paging ul.pagination li.page-item a.page-link";
/// The link to the last list page.
pub const LAST_ARROW_SELECTOR: &'static str = "a[onclick*='last_arrow.png']";
/// A post page's title.
pub const TITLE_DETAIL_SELECTOR: &'static str = "div.sub_notice_view table th h4";
/// A post page's line of author, date and views.
pub const META_LINE_SELECTOR: &'static str = "div.sub_notice_view table tr:nth-child(2) > td";
/// A post page's content.
pub const CONTENT_SELECTOR: &'static str = "div.sub_notice_view table tr:nth-child(4) > td";
/// A post page's attachment links.
pub const ATTACHMENT_SELECTOR: &'static str = "div.sub_notice_view table tr:nth-child(3) > td a";
/// The query key of a post's number.
pub const POST_ID_KEY: &'static str = "idx";
/// What a page link calls, before the page number.
pub const PAGE_CALL_PREFIX: &'static str = "fnGoPage(";
/// The list page after which a crawl stops.
pub const MAX_PAGE: u32 = 100;

/// The AI convergence school plugin.
pub struct AixPlugin;

/// Why a part of the site could not be read.
#[derive(Clone, Debug)]
pub enum AixPluginError {
    /// The post's address has no post number.
    PostIdNotFound(String),
    /// A date could not be read; the text says which.
    DateParsing(String),
}

/// The message of an error.
pub open spec fn aix_error_message(e: AixPluginError) -> Seq<char> {
    match e {
        AixPluginError::PostIdNotFound(u) => "Post ID (idx) not found in URL: "@ + u@,
        AixPluginError::DateParsing(m) => "Date parsing failed: "@ + m@,
    }
}

impl AixPluginError {
    /// The error's message (see `aix_error_message`).
    pub fn message(&self) -> (m: String)
        ensures
            m@ == aix_error_message(*self),
    {
        match self {
            AixPluginError::PostIdNotFound(u) => concat("Post ID (idx) not found in URL: ", u.as_str()),
            AixPluginError::DateParsing(t) => concat("Date parsing failed: ", t.as_str()),
        }
    }
}

/// A post as the list page shows it.
#[derive(Clone, Debug)]
pub struct AixPostMetadata {
    pub id: String,
    pub url: String,
    pub title_prefix: String,
    pub title_main: String,
    pub author: String,
    pub date_str: String,
}

/// The address of the list page `page_num`.
pub open spec fn list_page_url(page_num: u32) -> Seq<char> {
    if page_num == 1 {
        BASE_URL@ + "/notice.html"@
    } else {
        BASE_URL@ + "/notice.html?page="@ + int_text(page_num as int)
    }
}

/// The text of an optional cell, trimmed; empty when there is no cell.
pub open spec fn trimmed_text(cell: Option<Seq<char>>) -> Seq<char> {
    match cell {
        Some(h) => trim(text_concat(h)),
        None => Seq::empty(),
    }
}


/// The number of rows of a list page.
pub open spec fn row_count(html: Seq<char>) -> int {
    first_matches_in_each(html, ROW_SELECTOR@, LINK_SELECTOR@).len() as int
}

/// The link of row `i`.
pub open spec fn row_link(html: Seq<char>, i: int) -> Option<Seq<char>> {
    cell_at(first_matches_in_each(html, ROW_SELECTOR@, LINK_SELECTOR@), i)
}

/// The trimmed text of the cell of row `i` that `selector` picks.
pub open spec fn row_cell_text(html: Seq<char>, i: int, selector: Seq<char>) -> Seq<char> {
    trimmed_text(cell_at(first_matches_in_each(html, ROW_SELECTOR@, selector), i))
}

/// What row `i` yields: -1 when it cannot be read (its address does not resolve or has
/// no post number), 0 when it is skipped (no link, no target, or a script link), 1 when
/// it is a post.
pub open spec fn row_outcome(html: Seq<char>, i: int) -> int {
    match row_link(html, i) {
        None => 0,
        Some(l) => match fragment_first_attr(l, "a"@, "href"@) {
            None => 0,
            Some(h) => if starts_with(h, "javascript:"@) {
                0
            } else {
                match joined_url(BASE_URL@, h) {
                    None => -1,
                    Some(u) => match url_query_pairs(u) {
                        None => -1,
                        Some(p) => if first_value_for(p, POST_ID_KEY@) is Some { 1 } else { -1 },
                    },
                }
            },
        },
    }
}

/// `m` is what row `i`, a post, yields.
pub open spec fn row_meta_ok(m: AixPostMetadata, html: Seq<char>, i: int) -> bool {
    let l = row_link(html, i)->0;
    let h = fragment_first_attr(l, "a"@, "href"@)->0;
    let u = joined_url(BASE_URL@, h)->0;
    let main = trim(text_concat(l));
    &&& m.id@ == first_value_for(url_query_pairs(u)->0, POST_ID_KEY@)->0
    &&& m.url@ == u
    &&& m.title_main@ == main
    &&& m.title_prefix@ == trim(remove_all(row_cell_text(html, i, TITLE_CELL_SELECTOR@), main))
    &&& m.author@ == row_cell_text(html, i, AUTHOR_CELL_SELECTOR@)
    &&& m.date_str@ == row_cell_text(html, i, DATE_CELL_SELECTOR@)
}

/// `metas` are what the first `n` rows yield, in order, skipped rows left out.
pub open spec fn rows_follow(metas: Seq<AixPostMetadata>, html: Seq<char>, n: int) -> bool
    decreases n,
{
    if n <= 0 {
        metas.len() == 0
    } else if row_outcome(html, n - 1) == 1 {
        &&& metas.len() > 0
        &&& row_meta_ok(metas.last(), html, n - 1)
        &&& rows_follow(metas.drop_last(), html, n - 1)
    } else {
        rows_follow(metas, html, n - 1)
    }
}

/// Whether some row among the first `n` cannot be read.
pub open spec fn some_row_fails(html: Seq<char>, n: int) -> bool {
    exists|i: int| 0 <= i < n && row_outcome(html, i) == -1
}

/// The page number that a page link's call names: `fnGoPage(`, a number that fits in
/// `u32`, `)`.
pub open spec fn onclick_page(s: Seq<char>) -> Option<int> {
    if starts_with(s, PAGE_CALL_PREFIX@) && s.len() > PAGE_CALL_PREFIX@.len() && s.last() == ')' {
        parse_unsigned(s.subrange(PAGE_CALL_PREFIX@.len() as int, s.len() - 1), u32::MAX as int)
    } else {
        None
    }
}

/// Whether some call among `calls` names a page after `page`.
pub open spec fn page_beyond(calls: Seq<Option<Seq<char>>>, page: int) -> bool {
    exists|i: int| 0 <= i < calls.len() && (#[trigger] calls[i] matches Some(a) && (onclick_page(a) matches Some(p) && p > page))
}

/// The list page after `page_num`, when the page has posts and its page links or its
/// last-page link name a later page.
pub open spec fn next_page_of(html: Seq<char>, page_num: u32, has_posts: bool) -> Option<u32> {
    if has_posts && (page_beyond(document_attrs(html, PAGINATION_SELECTOR@, "onclick"@), page_num as int)
        || page_beyond(document_attrs(html, LAST_ARROW_SELECTOR@, "onclick"@), page_num as int)) {
        Some((page_num + 1) as u32)
    } else {
        None
    }
}

impl AixPlugin {
    /// The plugin.
    pub fn new() -> (p: AixPlugin)
        ensures
            p == AixPlugin,
    {
        AixPlugin
    }

    /// Reads a date of the site, trimmed: midnight of the date, Korea Standard Time.
    pub fn parse_date(date_str: &str) -> (r: Result<Timestamp, AixPluginError>)
        ensures
            match r {
                Ok(t) => (parsed_date(trim(date_str@), DATE_FORMAT@) matches Some(d)
                    && t.unix_nanos == kst_instant((d.0, d.1, d.2, 0, 0, 0))) && t.offset_seconds == KST_OFFSET_SECONDS,
                Err(AixPluginError::DateParsing(m)) => parsed_date(trim(date_str@), DATE_FORMAT@) is None
                    && m@ == "Failed to parse date string '"@ + date_str@ + "': "@ + date_parse_error(trim(date_str@), DATE_FORMAT@).0,
                Err(_) => false,
            },
    {
        let trimmed = trim_str(date_str);
        match kst_midnight_from_text(trimmed.as_str(), DATE_FORMAT) {
            Some(t) => Ok(t),
            None => {
                let mut m = concat("Failed to parse date string '", date_str);
                m.append("': ");
                m.append(date_error_texts(trimmed.as_str(), DATE_FORMAT).0.as_str());
                Err(AixPluginError::DateParsing(m))
            },
        }
    }

    /// The address of the list page `page_num` (see `list_page_url`).
    pub fn page_url(page_num: u32) -> (out: String)
        ensures
            out@ == list_page_url(page_num),
    {
        if page_num == 1 {
            concat(BASE_URL, "/notice.html")
        } else {
            let mut out = concat(BASE_URL, "/notice.html?page=");
            let n = int_to_text(page_num as i64);
            out.append(n.as_str());
            out
        }
    }

    /// The page number named by a page link's call (see `onclick_page`).
    pub fn onclick_page_number(call: &str) -> (r: Option<u32>)
        ensures
            match r {
                Some(p) => onclick_page(call@) == Some(p as int),
                None => onclick_page(call@) is None,
            },
    {
        let v = chars_of(call);
        let prefix = chars_of(PAGE_CALL_PREFIX);
        if !has_prefix(&v, &prefix) || v.len() <= prefix.len() || v[v.len() - 1] != ')' {
            return None;
        }
        let inner = copy_range(&v, prefix.len(), v.len() - 1);
        match parse_unsigned_text(&inner, 4294967295u64) {
            Some(n) => Some(n as u32),
            None => None,
        }
    }

    /// Whether some call among `calls` names a page after `page` (see `page_beyond`).
    pub fn names_later_page(calls: &Vec<Option<String>>, page: u32) -> (b: bool)
        ensures
            b == page_beyond(opt_views(calls@), page as int),
    {
        let ghost cs = opt_views(calls@);
        let mut i: usize = 0;
        while i < calls.len()
            invariant
                i <= calls.len(),
                cs == opt_views(calls@),
                forall|j: int| 0 <= j < i ==> !(#[trigger] cs[j] matches Some(a) && (onclick_page(a) matches Some(p) && p > page)),
            decreases calls.len() - i,
        {
            proof {
                assert(cs[i as int] == opt_view(calls@[i as int]));
            }
            match &calls[i] {
                Some(call) => match Self::onclick_page_number(call.as_str()) {
                    Some(p) => {
                        if p > page {
                            return true;
                        }
                    },
                    None => {},
                },
                None => {},
            }
            i += 1;
        }
        false
    }

    /// The trimmed text of the `i`th cell of a list, or empty text.
    fn cell_text(cells: &Vec<Option<String>>, i: usize) -> (out: String)
        ensures
            out@ == trimmed_text(cell_at(opt_views(cells@), i as int)),
    {
        if i < cells.len() {
            proof {
                assert(opt_views(cells@)[i as int] == opt_view(cells@[i as int]));
            }
            match &cells[i] {
                Some(h) => {
                    let text = text_of_element(h.as_str());
                    trim_str(text.as_str())
                },
                None => String::new(),
            }
        } else {
            String::new()
        }
    }

    /// Reads row `i` of the list page `html`, given the page's cells (see `row_outcome`
    /// and `row_meta_ok`).
    fn parse_row(
        html: &str,
        i: usize,
        links: &Vec<Option<String>>,
        titles: &Vec<Option<String>>,
        authors: &Vec<Option<String>>,
        dates: &Vec<Option<String>>,
    ) -> (r: Result<Option<AixPostMetadata>, PluginError>)
        requires
            i < links@.len(),
            opt_views(links@) == first_matches_in_each(html@, ROW_SELECTOR@, LINK_SELECTOR@),
            opt_views(titles@) == first_matches_in_each(html@, ROW_SELECTOR@, TITLE_CELL_SELECTOR@),
            opt_views(authors@) == first_matches_in_each(html@, ROW_SELECTOR@, AUTHOR_CELL_SELECTOR@),
            opt_views(dates@) == first_matches_in_each(html@, ROW_SELECTOR@, DATE_CELL_SELECTOR@),
        ensures
            r is Err <==> row_outcome(html@, i as int) == -1,
            r matches Err(e) ==> (e is Parse),
            r matches Ok(None) ==> row_outcome(html@, i as int) == 0,
            r matches Ok(Some(m)) ==> row_outcome(html@, i as int) == 1 && row_meta_ok(m, html@, i as int),
    {
        proof {
            assert(opt_views(links@)[i as int] == opt_view(links@[i as int]));
        }
        let link = match &links[i] {
            Some(l) => l,
            None => return Ok(None),
        };
        let href = match first_attr_in_fragment(link.as_str(), "a", "href") {
            Some(h) => h,
            None => return Ok(None),
        };
        let main_text = text_of_element(link.as_str());
        let title_main = trim_str(main_text.as_str());
        let full = Self::cell_text(titles, i);
        let removed = remove_text(&chars_of(full.as_str()), &chars_of(title_main.as_str()));
        let title_prefix = string_of(&trimmed_copy(&removed));
        let author = Self::cell_text(authors, i);
        let date_str = Self::cell_text(dates, i);
        if has_prefix(&chars_of(href.as_str()), &chars_of("javascript:")) {
            return Ok(None);
        }
        let post_url = match join_url(BASE_URL, href.as_str()) {
            Some(u) => u,
            None => return Err(PluginError::parse(IDENTIFIER, concat("Failed to join URL ", href.as_str()))),
        };
        let pairs = match query_pairs_of(post_url.as_str()) {
            Some(p) => p,
            None => return Err(PluginError::parse(IDENTIFIER, concat("Failed to parse post_url for id ", post_url.as_str()))),
        };
        let id = match find_pair_value(&pairs, POST_ID_KEY) {
            Some(v) => v,
            None => {
                let e = AixPluginError::PostIdNotFound(post_url);
                return Err(PluginError::parse(IDENTIFIER, e.message()));
            },
        };
        Ok(Some(AixPostMetadata { id, url: post_url, title_prefix, title_main, author, date_str }))
    }

    /// Reads a list page: the posts of its rows, in order, skipped rows left out, and the
    /// next list page (see `next_page_of`). Refused when a row cannot be read.
    pub fn parse_list_page(html: &str, page_num: u32) -> (r: Result<(Vec<AixPostMetadata>, Option<u32>), PluginError>)
        ensures
            r is Err <==> some_row_fails(html@, row_count(html@)),
            r matches Err(e) ==> (e is Parse),
            r matches Ok((metas, next)) ==> rows_follow(metas@, html@, row_count(html@))
                && next == next_page_of(html@, page_num, metas@.len() > 0),
    {
        let links = first_in_each(html, ROW_SELECTOR, LINK_SELECTOR);
        let titles = first_in_each(html, ROW_SELECTOR, TITLE_CELL_SELECTOR);
        let authors = first_in_each(html, ROW_SELECTOR, AUTHOR_CELL_SELECTOR);
        let dates = first_in_each(html, ROW_SELECTOR, DATE_CELL_SELECTOR);
        proof {
            assert(links@.len() == row_count(html@));
        }
        let mut metas: Vec<AixPostMetadata> = Vec::new();
        let mut i: usize = 0;
        while i < links.len()
            invariant
                i <= links@.len(),
                links@.len() == row_count(html@),
                opt_views(links@) == first_matches_in_each(html@, ROW_SELECTOR@, LINK_SELECTOR@),
                opt_views(titles@) == first_matches_in_each(html@, ROW_SELECTOR@, TITLE_CELL_SELECTOR@),
                opt_views(authors@) == first_matches_in_each(html@, ROW_SELECTOR@, AUTHOR_CELL_SELECTOR@),
                opt_views(dates@) == first_matches_in_each(html@, ROW_SELECTOR@, DATE_CELL_SELECTOR@),
                rows_follow(metas@, html@, i as int),
                !some_row_fails(html@, i as int),
            decreases links@.len() - i,
        {
            let ghost before = metas@;
            match Self::parse_row(html, i, &links, &titles, &authors, &dates) {
                Ok(Some(m)) => {
                    metas.push(m);
                    proof {
                        assert(metas@.drop_last() == before);
                    }
                },
                Ok(None) => {},
                Err(e) => {
                    proof {
                        assert(some_row_fails(html@, row_count(html@)));
                    }
                    return Err(e);
                },
            }
            proof {
                assert(rows_follow(metas@, html@, i + 1));
                assert forall|j: int| 0 <= j < i + 1 implies row_outcome(html@, j) != -1 by {
                    if j < i {
                        assert(!(0 <= j < i && row_outcome(html@, j) == -1));
                    }
                }
            }
            i += 1;
        }
        let calls = attrs_in_document(html, PAGINATION_SELECTOR, "onclick");
        let arrows = attrs_in_document(html, LAST_ARROW_SELECTOR, "onclick");
        let has_posts = metas.len() > 0;
        let next = if has_posts && (Self::names_later_page(&calls, page_num) || Self::names_later_page(&arrows, page_num)) {
            proof {
                if page_num == u32::MAX {
                    if page_beyond(opt_views(calls@), page_num as int) {
                        let k = choose|k: int| 0 <= k < opt_views(calls@).len() && (#[trigger] opt_views(calls@)[k] matches Some(a)
                            && (onclick_page(a) matches Some(p) && p > page_num));
                        lemma_onclick_page_bound(opt_views(calls@)[k]->0);
                    } else {
                        let k = choose|k: int| 0 <= k < opt_views(arrows@).len() && (#[trigger] opt_views(arrows@)[k] matches Some(a)
                            && (onclick_page(a) matches Some(p) && p > page_num));
                        lemma_onclick_page_bound(opt_views(arrows@)[k]->0);
                    }
                }
            }
            Some(page_num + 1)
        } else {
            None
        };
        Ok((metas, next))
    }
}

/// A page number named by a call fits in `u32`.
proof fn lemma_onclick_page_bound(s: Seq<char>)
    ensures
        onclick_page(s) matches Some(p) ==> 0 <= p <= u32::MAX,
{
    if starts_with(s, PAGE_CALL_PREFIX@) && s.len() > PAGE_CALL_PREFIX@.len() && s.last() == ')' {
        lemma_parse_unsigned_range(s.subrange(PAGE_CALL_PREFIX@.len() as int, s.len() - 1), u32::MAX as int);
    }
}

/// The HTML of the first element of the document that matches `selector`, if any.
pub open spec fn first_match(html: Seq<char>, selector: Seq<char>) -> Option<Seq<char>> {
    let m = document_matches(html, selector);
    if m.len() > 0 { Some(m[0]) } else { None }
}

/// The first element of the document that matches the selector, if any.
fn first_in_document(html: &str, selector: &str) -> (r: Option<String>)
    ensures
        opt_view(r) == first_match(html@, selector@),
{
    let all = select_in_document(html, selector);
    if all.len() > 0 {
        proof {
            assert(all@[0]@ == document_matches(html@, selector@)[0]);
        }
        Some(all[0].clone())
    } else {
        None
    }
}

/// The title of a post page: its heading, trimmed, or else the list's prefix and title.
pub open spec fn post_title_of(html: Seq<char>, m: AixPostMetadata) -> Seq<char> {
    match first_match(html, TITLE_DETAIL_SELECTOR@) {
        Some(h) => trim(text_concat(h)),
        None => m.title_prefix@ + " "@ + m.title_main@,
    }
}

/// The line of author, date and views of a post page, or empty text.
pub open spec fn meta_line_of(html: Seq<char>) -> Seq<char> {
    match first_match(html, META_LINE_SELECTOR@) {
        Some(h) => text_concat(h),
        None => Seq::empty(),
    }
}

/// The author named in a post's line: the value after the label of its first part,
/// trimmed, when not empty.
pub open spec fn author_detail_of(line: Seq<char>) -> Option<Seq<char>> {
    match second_piece(first_piece(line, "｜"@), ":"@) {
        Some(v) => if trim(v).len() > 0 { Some(trim(v)) } else { None },
        None => None,
    }
}

/// The date text named in a post's line: the value after the label of its second part,
/// trimmed, or else `fallback`.
pub open spec fn date_detail_of(line: Seq<char>, fallback: Seq<char>) -> Seq<char> {
    match second_piece(line, "｜"@) {
        Some(part) => match second_piece(part, ":"@) {
            Some(v) => trim(v),
            None => fallback,
        },
        None => fallback,
    }
}

/// The address of an attachment link's target: as it is when it starts with `http`,
/// else resolved against the site's address (kept as it is when it does not resolve), or
/// appended to the site's address when that is no URL.
pub open spec fn attachment_url_of(h: Seq<char>) -> Seq<char> {
    if starts_with(h, "http"@) {
        h
    } else if !url_parses(BASE_URL@) {
        BASE_URL@ + (if starts_with(h, "/"@) { Seq::empty() } else { "/"@ }) + h
    } else {
        match joined_url(BASE_URL@, h) {
            Some(u) => u,
            None => h,
        }
    }
}

/// `atts` are the attachments of the links `links`, in order, links without a target
/// left out.
pub open spec fn attachments_follow(atts: Seq<Attachment>, links: Seq<Seq<char>>) -> bool
    decreases links.len(),
{
    if links.len() == 0 {
        atts.len() == 0
    } else {
        match fragment_first_attr(links.last(), "a"@, "href"@) {
            Some(h) => {
                &&& atts.len() > 0
                &&& opt_view(atts.last().name) == Some(trim(text_concat(links.last())))
                &&& atts.last().url@ == attachment_url_of(h)
                &&& atts.last().mime_type is None
                &&& attachments_follow(atts.drop_last(), links.drop_last())
            },
            None => attachments_follow(atts, links.drop_last()),
        }
    }
}

/// The date text of a post page read for the post listed as `m`.
pub open spec fn post_date_text(html: Seq<char>, m: AixPostMetadata) -> Seq<char> {
    date_detail_of(meta_line_of(html), m.date_str@)
}

impl AixPlugin {
    /// The address of an attachment link's target (see `attachment_url_of`).
    pub fn attachment_url(href: &str) -> (out: String)
        ensures
            out@ == attachment_url_of(href@),
    {
        let v = chars_of(href);
        if has_prefix(&v, &chars_of("http")) {
            return String::from_str(href);
        }
        if !is_url(BASE_URL) {
            let mut out = String::from_str(BASE_URL);
            if !has_prefix(&v, &chars_of("/")) {
                out.append("/");
            }
            out.append(href);
            proof {
                reveal_strlit("/");
                assert(Seq::<char>::empty() + href@ =~= href@);
            }
            return out;
        }
        match join_url(BASE_URL, href) {
            Some(u) => u,
            None => String::from_str(href),
        }
    }

    /// The attachments of a post page's links (see `attachments_follow`).
    fn attachments_of(links: &Vec<String>) -> (atts: Vec<Attachment>)
        ensures
            attachments_follow(atts@, crate::text::views(links@)),
    {
        let ghost ls = crate::text::views(links@);
        let mut atts: Vec<Attachment> = Vec::new();
        let mut i: usize = 0;
        while i < links.len()
            invariant
                i <= links.len(),
                ls == crate::text::views(links@),
                attachments_follow(atts@, ls.take(i as int)),
            decreases links.len() - i,
        {
            proof {
                assert(ls.take(i + 1).drop_last() == ls.take(i as int));
                assert(ls.take(i + 1).last() == links@[i as int]@);
            }
            let ghost before = atts@;
            match first_attr_in_fragment(links[i].as_str(), "a", "href") {
                Some(h) => {
                    let name_text = text_of_element(links[i].as_str());
                    let name = trim_str(name_text.as_str());
                    let url = Self::attachment_url(h.as_str());
                    atts.push(Attachment { name: Some(name), url, mime_type: None });
                    proof {
                        assert(atts@.drop_last() == before);
                    }
                },
                None => {},
            }
            i += 1;
        }
        proof {
            assert(ls.take(ls.len() as int) == ls);
        }
        atts
    }

    /// Reads a post page for the post listed as `metadata`: its title, its author, its
    /// date (see `post_date_text`), its content and its attachments. Refused when the date
    /// does not read.
    pub fn parse_post_page(html: &str, metadata: &AixPostMetadata) -> (r: Result<SsufidPost, PluginError>)
        ensures
            r is Err <==> parsed_date(trim(post_date_text(html@, *metadata)), DATE_FORMAT@) is None,
            r matches Err(e) ==> (e matches PluginError::Parse { message, .. }
                && message@ == "Date parsing failed: "@ + ("Failed to parse date string '"@ + post_date_text(html@, *metadata) + "': "@
                    + date_parse_error(trim(post_date_text(html@, *metadata)), DATE_FORMAT@).0)),
            r matches Ok(p) ==> {
                &&& p.id == metadata.id
                &&& p.url == metadata.url
                &&& p.title@ == post_title_of(html@, *metadata)
                &&& opt_view(p.author) == (match author_detail_of(meta_line_of(html@)) {
                    Some(a) => Some(a),
                    None => if metadata.author@.len() > 0 { Some(metadata.author@) } else { None },
                })
                &&& parsed_date(trim(post_date_text(html@, *metadata)), DATE_FORMAT@) matches Some(d)
                &&& p.created_at.unix_nanos == kst_instant((d.0, d.1, d.2, 0, 0, 0))
                &&& p.created_at.offset_seconds == KST_OFFSET_SECONDS
                &&& p.updated_at is None
                &&& p.content@ == (match first_match(html@, CONTENT_SELECTOR@) { Some(c) => c, None => Seq::empty() })
                &&& attachments_follow(p.attachments@, document_matches(html@, ATTACHMENT_SELECTOR@))
                &&& p.category@.len() == 0
                &&& p.thumbnail is None
                &&& p.description is None
                &&& p.metadata is None
            },
    {
        let title = match first_in_document(html, TITLE_DETAIL_SELECTOR) {
            Some(h) => {
                let text = text_of_element(h.as_str());
                trim_str(text.as_str())
            },
            None => {
                let mut t = String::from_str(metadata.title_prefix.as_str());
                t.append(" ");
                t.append(metadata.title_main.as_str());
                t
            },
        };
        let line = match first_in_document(html, META_LINE_SELECTOR) {
            Some(h) => text_of_element(h.as_str()),
            None => String::new(),
        };
        let line_chars = chars_of(line.as_str());
        let bar = chars_of("｜");
        let colon = chars_of(":");
        proof {
            reveal_strlit("｜");
            reveal_strlit(":");
        }
        let author_part = first_piece_of(&line_chars, &bar);
        let author_detail = match second_piece_of(&author_part, &colon) {
            Some(v) => {
                let tv = trimmed_copy(&v);
                if tv.len() > 0 { Some(string_of(&tv)) } else { None }
            },
            None => None,
        };
        let date_text = match second_piece_of(&line_chars, &bar) {
            Some(part) => match second_piece_of(&part, &colon) {
                Some(v) => string_of(&trimmed_copy(&v)),
                None => metadata.date_str.clone(),
            },
            None => metadata.date_str.clone(),
        };
        let created_at = match Self::parse_date(date_text.as_str()) {
            Ok(t) => t,
            Err(e) => return Err(PluginError::parse(IDENTIFIER, e.message())),
        };
        let content = match first_in_document(html, CONTENT_SELECTOR) {
            Some(c) => c,
            None => String::new(),
        };
        let links = select_in_document(html, ATTACHMENT_SELECTOR);
        let attachments = Self::attachments_of(&links);
        let author = match author_detail {
            Some(a) => Some(a),
            None => if metadata.author.as_str().unicode_len() > 0 { Some(metadata.author.clone()) } else { None },
        };
        Ok(SsufidPost {
            id: metadata.id.clone(),
            url: metadata.url.clone(),
            title,
            author,
            description: None,
            category: Vec::new(),
            created_at,
            updated_at: None,
            thumbnail: None,
            content,
            attachments,
            metadata: None,
        })
    }
}

/// The state of a crawl: the posts listed so far, the list page to read next, and whether
/// another list page is read.
pub struct AixCrawlState {
    pub collected: Vec<AixPostMetadata>,
    pub current_page: u32,
    pub more: bool,
}

impl AixCrawlState {
    /// A crawl that has read nothing and reads the first list page next.
    pub fn new() -> (s: AixCrawlState)
        ensures
            s.collected@.len() == 0,
            s.current_page == 1,
            s.more,
    {
        AixCrawlState { collected: Vec::new(), current_page: 1, more: true }
    }

    /// Whether the crawl reads another list page: fewer than `posts_limit` posts are
    /// listed, and there is a page to read.
    pub fn wants_page(&self, posts_limit: u32) -> (b: bool)
        ensures
            b == (self.collected@.len() < posts_limit && self.more),
    {
        self.collected.len() < posts_limit as usize && self.more
    }

    /// Takes in what a list page gave: an empty page ends the crawl; otherwise its posts
    /// are added, and the crawl goes on to the next page it named, unless that is past
    /// the last page read, or it named none.
    pub fn take_page(&mut self, batch: Vec<AixPostMetadata>, next: Option<u32>)
        ensures
            batch@.len() == 0 ==> {
                &&& final(self).collected@ == old(self).collected@
                &&& final(self).current_page == old(self).current_page
                &&& !final(self).more
            },
            batch@.len() > 0 ==> final(self).collected@ == old(self).collected@ + batch@,
            batch@.len() > 0 ==> match next {
                Some(p) => final(self).current_page == p && final(self).more == (p <= MAX_PAGE),
                None => final(self).current_page == old(self).current_page && !final(self).more,
            },
    {
        if batch.len() == 0 {
            self.more = false;
            return;
        }
        let mut batch = batch;
        self.collected.append(&mut batch);
        match next {
            Some(p) => {
                self.current_page = p;
                self.more = p <= MAX_PAGE;
            },
            None => {
                self.more = false;
            },
        }
    }

    /// The first `posts_limit` posts listed.
    pub fn selected(self, posts_limit: u32) -> (v: Vec<AixPostMetadata>)
        ensures
            v@ == (if self.collected@.len() <= posts_limit { self.collected@ } else { self.collected@.take(posts_limit as int) }),
    {
        let mut v = self.collected;
        v.truncate(posts_limit as usize);
        v
    }
}

/// The posts of a list of fetch results, in order, the failures left out.
pub open spec fn successes(results: Seq<Result<SsufidPost, PluginError>>) -> Seq<SsufidPost>
    decreases results.len(),
{
    if results.len() == 0 {
        Seq::empty()
    } else {
        match results.last() {
            Ok(p) => successes(results.drop_last()).push(p),
            Err(_) => successes(results.drop_last()),
        }
    }
}

/// The posts that were fetched, in order (see `successes`).
pub fn successful_posts(results: Vec<Result<SsufidPost, PluginError>>) -> (posts: Vec<SsufidPost>)
    ensures
        posts@ == successes(results@),
{
    let ghost all = results@;
    let mut posts: Vec<SsufidPost> = Vec::new();
    for res in it: results
        invariant
            it.seq() == all,
            posts@ == successes(all.take(it.index() as int)),
    {
        proof {
            assert(all.take(it.index() + 1).drop_last() == all.take(it.index() as int));
            assert(all.take(it.index() + 1).last() == res);
        }
        match res {
            Ok(p) => posts.push(p),
            Err(_) => {},
        }
    }
    proof {
        assert(all.take(all.len() as int) == all);
    }
    posts
}

} // verus!

//! Boards built on WordPress, which many department sites share: the sites, reading
//! their list pages and post pages, and the listing of a crawl.

use vstd::prelude::*;
use crate::datetime::{
    Timestamp, parsed_date, kst_instant, KST_OFFSET_SECONDS, kst_midnight_from_text, date_parse_error,
    date_error_texts,
};
use crate::error::{PluginError, concat};
use crate::html::{
    children_of_matches, fragment_first_element, fragment_element_attr, fragment_text_nodes, text_concat,
    document_matches, first_inner_html, url_query_pairs, first_value_for, nested_views, children_in_each,
    first_element_in_fragment, first_element_attr, fragment_texts, text_of_element, select_in_document,
    first_inner_html_in_document, query_pairs_of, find_pair_value,
};
use crate::order::is_stable_sort_of;
use crate::post::{SsufidPost, opt_view};
use crate::text::{trim, trim_str, views, int_text, int_to_text, has_text, contains_text};

verus! {

/// How a board writes its dates.
#[derive(Clone, Copy, Debug, PartialEq, Eq)]
pub enum WordpressDateStyle {
    /// `2024-07-30`
    Dash,
    /// `2024.07.30`
    Dot,
    /// `2024년 7월 30일`
    Korean,
}

/// How a board's list rows place their number, title and date.
#[derive(Clone, Copy, Debug, PartialEq, Eq)]
pub enum WordpressRow {
    /// Number, title, another cell, date.
    Table,
    /// Number, title, date.
    Bioinfo,
    /// Title, another cell, date; announcements marked on the title.
    Soar,
}

/// A site whose notices are a WordPress board.
#[derive(Clone, Copy, Debug)]
pub struct WordpressSite {
    pub identifier: &'static str,
    pub title: &'static str,
    pub description: &'static str,
    pub base_url: &'static str,
    pub dates: WordpressDateStyle,
    pub row: WordpressRow,
}

/// The rows of a list page.
pub const BOARD_TABLE_ITEM_SELECTOR: &'static str = "div.baord_table tbody > tr";
/// A post page's title.
pub const TITLE_SELECTOR: &'static str = "table.t_view p.title";
/// A post page's date.
pub const DATE_SELECTOR: &'static str = "table.t_view ul.date_w > li > dl:first-child > dd";
/// A post page's content.
pub const CONTENT_SELECTOR: &'static str = "table.t_view div.td_box";
/// How many posts a listing keeps at most.
pub const MAX_LISTED: usize = 100;
/// The category of announcements.
pub const ANNOUNCEMENT_CATEGORY: &'static str = "공지";
/// The kind of the refusal that marks a page without entries.
pub const NO_ENTRY: &'static str = "NO_ENTRY";

/// The format description of a date style.
pub open spec fn date_format(style: WordpressDateStyle) -> Seq<char> {
    match style {
        WordpressDateStyle::Dash => "[year]-[month]-[day]"@,
        WordpressDateStyle::Dot => "[year].[month].[day]"@,
        WordpressDateStyle::Korean => "[year]년 [month padding:none]월 [day padding:none]일"@,
    }
}

/// The format description of a date style.
pub fn date_format_of(style: WordpressDateStyle) -> (f: &'static str)
    ensures
        f@ == date_format(style),
{
    match style {
        WordpressDateStyle::Dash => "[year]-[month]-[day]",
        WordpressDateStyle::Dot => "[year].[month].[day]",
        WordpressDateStyle::Korean => "[year]년 [month padding:none]월 [day padding:none]일",
    }
}

/// A post as the list shows it.
#[derive(Clone, Debug)]
pub struct WordpressMetadata {
    pub is_announcement: bool,
    pub title: String,
    pub url: String,
    pub created_at: Timestamp,
}

/// `e` is the refusal, by the board's site, of unreadable content with the message `msg`.
pub open spec fn parse_error_is(site: WordpressSite, e: PluginError, msg: Seq<char>) -> bool {
    e matches PluginError::Parse { plugin, message } && plugin@ == site.identifier@ && message@ == msg
}

/// The address of list page `page` of a board.
pub open spec fn page_url_of(site: WordpressSite, page: int) -> Seq<char> {
    site.base_url@ + "/page/"@ + int_text(page)
}

/// The first text of an element given by its HTML, if it has text.
pub open spec fn first_text_node(h: Seq<char>) -> Option<Seq<char>> {
    if fragment_text_nodes(h).len() > 0 { Some(fragment_text_nodes(h)[0]) } else { None }
}

/// The positions of a row's title cell and date cell.
pub open spec fn cell_positions(row: WordpressRow) -> (int, int) {
    match row {
        WordpressRow::Table => (1, 3),
        WordpressRow::Bioinfo => (1, 2),
        WordpressRow::Soar => (0, 2),
    }
}

/// Whether a row marks an announcement: the first text of its number cell holds `공지`,
/// or, on boards that mark the title, the title's class holds `notice_color`.
pub open spec fn is_announcement_row(row: WordpressRow, cells: Seq<Seq<char>>, title_el: Seq<char>) -> bool {
    match row {
        WordpressRow::Soar => fragment_element_attr(title_el, "class"@) matches Some(c) && has_text(c, "notice_color"@),
        _ => first_text_node(cells[0]) matches Some(t) && has_text(t, "공지"@),
    }
}

/// What a list row with the child elements `cells` gives: its post as announcement flag,
/// title, address and date; or a refusal, `None` when it marks a page without entries
/// and otherwise its message.
pub open spec fn row_result(row: WordpressRow, style: WordpressDateStyle, cells: Seq<Seq<char>>)
    -> Result<(bool, Seq<char>, Seq<char>, (int, int, int)), Option<Seq<char>>>
{
    let (t, d) = cell_positions(row);
    if row != WordpressRow::Soar && cells.len() == 0 {
        Err(Some("Failed to find number element in the board item"@))
    } else if cells.len() == 1 {
        Err(None)
    } else if cells.len() <= t || fragment_first_element(cells[t]) is None {
        Err(Some("Failed to find title element"@))
    } else if cells.len() <= d {
        Err(Some("Failed to find date element"@))
    } else {
        let title_el = fragment_first_element(cells[t])->0;
        match fragment_element_attr(title_el, "href"@) {
            None => Err(Some("Failed to find URL in the title element"@)),
            Some(url) => match first_text_node(cells[d]) {
                None => Err(Some("Failed to find date text"@)),
                Some(dt) => match parsed_date(trim(dt), date_format(style)) {
                    None => Err(Some("Failed to parse date: "@ + date_parse_error(trim(dt), date_format(style)).1)),
                    Some(ymd) => Ok((is_announcement_row(row, cells, title_el), text_concat(title_el), url, ymd)),
                },
            },
        }
    }
}

/// The fields of a listed post: announcement flag, title, address and instant.
pub open spec fn meta_matches(m: WordpressMetadata, v: (bool, Seq<char>, Seq<char>, (int, int, int))) -> bool {
    &&& m.is_announcement == v.0
    &&& m.title@ == v.1
    &&& m.url@ == v.2
    &&& m.created_at.unix_nanos == kst_instant((v.3.0, v.3.1, v.3.2, 0, 0, 0))
    &&& m.created_at.offset_seconds == KST_OFFSET_SECONDS
}

/// `m` is the post that the row with the child elements `cells` gives.
pub open spec fn meta_of_row(m: WordpressMetadata, row: WordpressRow, style: WordpressDateStyle, cells: Seq<Seq<char>>) -> bool {
    match row_result(row, style, cells) {
        Ok(v) => meta_matches(m, v),
        Err(_) => false,
    }
}

/// The first refused row among `rows`: `None` when none is, else its refusal.
pub open spec fn first_row_refusal(row: WordpressRow, style: WordpressDateStyle, rows: Seq<Seq<Seq<char>>>) -> Option<Option<Seq<char>>>
    decreases rows.len(),
{
    if rows.len() == 0 {
        None
    } else {
        match first_row_refusal(row, style, rows.drop_last()) {
            Some(r) => Some(r),
            None => match row_result(row, style, rows.last()) {
                Err(r) => Some(r),
                Ok(_) => None,
            },
        }
    }
}

/// The number of posts of a list that are announcements.
pub open spec fn announcement_count(s: Seq<WordpressMetadata>) -> int
    decreases s.len(),
{
    if s.len() == 0 {
        0
    } else {
        announcement_count(s.drop_last()) + if s.last().is_announcement { 1int } else { 0int }
    }
}

/// Listed posts are ordered by the instant they were created.
pub open spec fn meta_le(a: WordpressMetadata, b: WordpressMetadata) -> bool {
    a.created_at.unix_nanos <= b.created_at.unix_nanos
}

/// Why the post page of `meta` is refused, as its message: an address without a `slug`
/// pair, no title, no date or an unreadable one, or no content; in that order.
pub open spec fn post_failure(style: WordpressDateStyle, html: Seq<char>, meta: WordpressMetadata) -> Option<Seq<char>> {
    let titles = document_matches(html, TITLE_SELECTOR@);
    let dates = document_matches(html, DATE_SELECTOR@);
    if url_query_pairs(meta.url@) is None {
        Some("Failed to parse URL"@)
    } else if first_value_for(url_query_pairs(meta.url@)->0, "slug"@) is None {
        Some("Failed to find 'slug' query parameter in the URL"@)
    } else if titles.len() == 0 || first_text_node(titles[0]) is None {
        Some("Failed to find title in the post"@)
    } else if dates.len() == 0 || first_text_node(dates[0]) is None {
        Some("Failed to find date in the post"@)
    } else if parsed_date(trim(first_text_node(dates[0])->0), date_format(style)) is None {
        Some("Failed to parse date: "@ + date_parse_error(trim(first_text_node(dates[0])->0), date_format(style)).1)
    } else if first_inner_html(html, CONTENT_SELECTOR@) is None {
        Some("Failed to find content in the post"@)
    } else {
        None
    }
}

/// The posts listed so far, the announcements among them, and the next list page.
pub struct WordpressListing {
    pub metas: Vec<WordpressMetadata>,
    pub announcements: u64,
    pub page: u32,
}

impl WordpressSite {
    /// The address of list page `page`.
    pub fn page_url(&self, page: u32) -> (out: String)
        ensures
            out@ == page_url_of(*self, page as int),
    {
        let mut out = concat(self.base_url, "/page/");
        out.append(int_to_text(page as i64).as_str());
        out
    }

    /// Reads a list row (see `row_result`).
    fn resolve_row(&self, cells: &Vec<String>) -> (r: Result<WordpressMetadata, Option<PluginError>>)
        ensures
            match r {
                Ok(m) => row_result(self.row, self.dates, views(cells@)) matches Ok(v) && meta_matches(m, v),
                Err(None) => row_result(self.row, self.dates, views(cells@)) == Err::<(bool, Seq<char>, Seq<char>, (int, int, int)), Option<Seq<char>>>(None),
                Err(Some(e)) => row_result(self.row, self.dates, views(cells@)) matches Err(Some(m)) && parse_error_is(*self, e, m),
            },
    {
        let ghost cs = views(cells@);
        let (t, d): (usize, usize) = match self.row {
            WordpressRow::Table => (1, 3),
            WordpressRow::Bioinfo => (1, 2),
            WordpressRow::Soar => (0, 2),
        };
        let is_soar = match self.row {
            WordpressRow::Soar => true,
            _ => false,
        };
        if !is_soar && cells.len() == 0 {
            return Err(Some(PluginError::parse(self.identifier, String::from_str("Failed to find number element in the board item"))));
        }
        if cells.len() == 1 {
            return Err(None);
        }
        if cells.len() <= t {
            return Err(Some(PluginError::parse(self.identifier, String::from_str("Failed to find title element"))));
        }
        proof {
            assert(cs[t as int] == cells@[t as int]@);
        }
        let title_el = match first_element_in_fragment(cells[t].as_str()) {
            Some(e) => e,
            None => return Err(Some(PluginError::parse(self.identifier, String::from_str("Failed to find title element")))),
        };
        if cells.len() <= d {
            return Err(Some(PluginError::parse(self.identifier, String::from_str("Failed to find date element"))));
        }
        proof {
            assert(cs[d as int] == cells@[d as int]@);
            assert(cs[0] == cells@[0]@);
        }
        let is_announcement = if is_soar {
            match first_element_attr(title_el.as_str(), "class") {
                Some(c) => contains_text(c.as_str(), "notice_color"),
                None => false,
            }
        } else {
            let nodes = fragment_texts(cells[0].as_str());
            if nodes.len() > 0 {
                proof {
                    assert(views(nodes@)[0] == nodes@[0]@);
                }
                contains_text(nodes[0].as_str(), "공지")
            } else {
                false
            }
        };
        let title = text_of_element(title_el.as_str());
        let url = match first_element_attr(title_el.as_str(), "href") {
            Some(u) => u,
            None => return Err(Some(PluginError::parse(self.identifier, String::from_str("Failed to find URL in the title element")))),
        };
        let nodes = fragment_texts(cells[d].as_str());
        if nodes.len() == 0 {
            return Err(Some(PluginError::parse(self.identifier, String::from_str("Failed to find date text"))));
        }
        proof {
            assert(views(nodes@)[0] == nodes@[0]@);
        }
        let date_text = trim_str(nodes[0].as_str());
        let created_at = match kst_midnight_from_text(date_text.as_str(), date_format_of(self.dates)) {
            Some(c) => c,
            None => {
                let (_, debug) = date_error_texts(date_text.as_str(), date_format_of(self.dates));
                return Err(Some(PluginError::parse(self.identifier, concat("Failed to parse date: ", debug.as_str()))));
            },
        };
        Ok(WordpressMetadata { is_announcement, title, url, created_at })
    }

    /// Reads a list page: the posts of its rows, in order; no posts when the first refused
    /// row marks a page without entries, and refused when it is refused otherwise.
    pub fn parse_list_page(&self, html: &str) -> (r: Result<Vec<WordpressMetadata>, PluginError>)
        ensures
            ({
                let rows = children_of_matches(html@, BOARD_TABLE_ITEM_SELECTOR@);
                match r {
                    Ok(metas) => match first_row_refusal(self.row, self.dates, rows) {
                        None => metas@.len() == rows.len() && forall|i: int| 0 <= i < rows.len() ==>
                            meta_of_row(#[trigger] metas@[i], self.row, self.dates, rows[i]),
                        Some(None) => metas@.len() == 0,
                        Some(Some(_)) => false,
                    },
                    Err(e) => first_row_refusal(self.row, self.dates, rows) matches Some(Some(m)) && parse_error_is(*self, e, m),
                }
            }),
    {
        let rows = children_in_each(html, BOARD_TABLE_ITEM_SELECTOR);
        let ghost rs = nested_views(rows@);
        let mut metas: Vec<WordpressMetadata> = Vec::new();
        let mut i: usize = 0;
        while i < rows.len()
            invariant
                i <= rows@.len(),
                rs == nested_views(rows@),
                rs == children_of_matches(html@, BOARD_TABLE_ITEM_SELECTOR@),
                first_row_refusal(self.row, self.dates, rs.take(i as int)) is None,
                metas@.len() == i,
                forall|j: int| 0 <= j < i ==> meta_of_row(#[trigger] metas@[j], self.row, self.dates, rs[j]),
            decreases rows@.len() - i,
        {
            proof {
                assert(rs[i as int] == views(rows@[i as int]@));
                assert(rs.take(i + 1).drop_last() == rs.take(i as int));
                assert(rs.take(i + 1).last() == rs[i as int]);
            }
            let ghost before = metas@;
            match self.resolve_row(&rows[i]) {
                Ok(m) => {
                    metas.push(m);
                    proof {
                        assert forall|j: int| 0 <= j < i implies #[trigger] metas@[j] == before[j] by {}
                        assert(metas@[i as int] == m);
                    }
                },
                Err(r) => {
                    proof {
                        lemma_first_row_refusal_stays(self.row, self.dates, rs, i + 1);
                    }
                    return match r {
                        None => Ok(Vec::new()),
                        Some(e) => Err(e),
                    };
                },
            }
            i += 1;
        }
        proof {
            assert(rs.take(rs.len() as int) == rs);
        }
        Ok(metas)
    }

    /// Reads the post page of the post listed as `meta` (see `post_failure`): its number
    /// from the `slug` pair of its address, its title and date as their elements' first
    /// text, its content; announcements get their category.
    pub fn parse_post_page(&self, html: &str, meta: &WordpressMetadata) -> (r: Result<SsufidPost, PluginError>)
        ensures
            match r {
                Err(e) => post_failure(self.dates, html@, *meta) matches Some(m) && parse_error_is(*self, e, m),
                Ok(p) => {
                    let titles = document_matches(html@, TITLE_SELECTOR@);
                    let dates = document_matches(html@, DATE_SELECTOR@);
                    &&& post_failure(self.dates, html@, *meta) is None
                    &&& Some(p.id@) == first_value_for(url_query_pairs(meta.url@)->0, "slug"@)
                    &&& p.url == meta.url
                    &&& Some(p.title@) == first_text_node(titles[0])
                    &&& parsed_date(trim(first_text_node(dates[0])->0), date_format(self.dates)) matches Some(d)
                    &&& p.created_at.unix_nanos == kst_instant((d.0, d.1, d.2, 0, 0, 0))
                    &&& p.created_at.offset_seconds == KST_OFFSET_SECONDS
                    &&& Some(p.content@) == first_inner_html(html@, CONTENT_SELECTOR@)
                    &&& views(p.category@) == (if meta.is_announcement { seq![ANNOUNCEMENT_CATEGORY@] } else { Seq::empty() })
                    &&& p.author is None
                    &&& p.attachments@.len() == 0
                    &&& p.description is None
                    &&& p.updated_at is None
                    &&& p.thumbnail is None
                    &&& p.metadata is None
                },
            },
    {
        let pairs = match query_pairs_of(meta.url.as_str()) {
            Some(p) => p,
            None => return Err(PluginError::parse(self.identifier, String::from_str("Failed to parse URL"))),
        };
        let id = match find_pair_value(&pairs, "slug") {
            Some(v) => v,
            None => return Err(PluginError::parse(self.identifier, String::from_str("Failed to find 'slug' query parameter in the URL"))),
        };
        let titles = select_in_document(html, TITLE_SELECTOR);
        if titles.len() == 0 {
            return Err(PluginError::parse(self.identifier, String::from_str("Failed to find title in the post")));
        }
        proof {
            assert(views(titles@)[0] == titles@[0]@);
        }
        let title_nodes = fragment_texts(titles[0].as_str());
        if title_nodes.len() == 0 {
            return Err(PluginError::parse(self.identifier, String::from_str("Failed to find title in the post")));
        }
        proof {
            assert(views(title_nodes@)[0] == title_nodes@[0]@);
        }
        let title = title_nodes[0].clone();
        let dates = select_in_document(html, DATE_SELECTOR);
        if dates.len() == 0 {
            return Err(PluginError::parse(self.identifier, String::from_str("Failed to find date in the post")));
        }
        proof {
            assert(views(dates@)[0] == dates@[0]@);
        }
        let date_nodes = fragment_texts(dates[0].as_str());
        if date_nodes.len() == 0 {
            return Err(PluginError::parse(self.identifier, String::from_str("Failed to find date in the post")));
        }
        proof {
            assert(views(date_nodes@)[0] == date_nodes@[0]@);
        }
        let date_text = trim_str(date_nodes[0].as_str());
        let created_at = match kst_midnight_from_text(date_text.as_str(), date_format_of(self.dates)) {
            Some(c) => c,
            None => {
                let (_, debug) = date_error_texts(date_text.as_str(), date_format_of(self.dates));
                return Err(PluginError::parse(self.identifier, concat("Failed to parse date: ", debug.as_str())));
            },
        };
        let content = match first_inner_html_in_document(html, CONTENT_SELECTOR) {
            Some(c) => c,
            None => return Err(PluginError::parse(self.identifier, String::from_str("Failed to find content in the post"))),
        };
        let mut category: Vec<String> = Vec::new();
        if meta.is_announcement {
            category.push(String::from_str(ANNOUNCEMENT_CATEGORY));
        }
        proof {
            if meta.is_announcement {
                assert(views(category@) =~= seq![ANNOUNCEMENT_CATEGORY@]);
            } else {
                assert(views(category@) =~= Seq::<Seq<char>>::empty());
            }
        }
        Ok(SsufidPost {
            id,
            url: meta.url.clone(),
            title,
            author: None,
            description: None,
            category,
            created_at,
            updated_at: None,
            thumbnail: None,
            content,
            attachments: Vec::new(),
            metadata: None,
        })
    }
}

impl WordpressListing {
    /// A listing before its first page.
    pub fn new() -> (l: WordpressListing)
        ensures
            l.metas@.len() == 0,
            l.announcements == 0,
            l.page == 1,
    {
        WordpressListing { metas: Vec::new(), announcements: 0, page: 1 }
    }

    /// Whether the listing wants another page: fewer posts are listed than `posts_limit`
    /// and the announcements among them.
    pub fn wants_page(&self, posts_limit: u32) -> (b: bool)
        ensures
            b == (self.metas@.len() < posts_limit + self.announcements),
    {
        (self.metas.len() as u128) < (posts_limit as u128) + (self.announcements as u128)
    }

    /// Takes in the posts of the current list page: they join the listing and their
    /// announcements are counted (up to the largest count a `u64` holds); false when the
    /// page gave none, which ends the listing, and the next page comes otherwise.
    pub fn take_page(&mut self, items: Vec<WordpressMetadata>) -> (go_on: bool)
        ensures
            final(self).metas@ == old(self).metas@ + items@,
            final(self).announcements == (if old(self).announcements + announcement_count(items@) <= u64::MAX {
                old(self).announcements + announcement_count(items@)
            } else {
                u64::MAX as int
            }),
            go_on == (items@.len() > 0),
            go_on ==> final(self).page == (if old(self).page < u32::MAX { old(self).page + 1 } else { u32::MAX as int }),
            !go_on ==> final(self).page == old(self).page,
    {
        let ghost src = items@;
        let mut count: u64 = 0;
        let mut i: usize = 0;
        while i < items.len()
            invariant
                i <= items@.len(),
                src == items@,
                count == announcement_count(src.take(i as int)),
                count <= i,
            decreases items@.len() - i,
        {
            proof {
                assert(src.take(i + 1).drop_last() == src.take(i as int));
            }
            if items[i].is_announcement {
                count = count + 1;
            }
            i += 1;
        }
        proof {
            assert(src.take(src.len() as int) == src);
        }
        self.announcements = self.announcements.saturating_add(count);
        let empty = items.len() == 0;
        let mut items = items;
        self.metas.append(&mut items);
        if empty {
            return false;
        }
        if self.page < u32::MAX {
            self.page = self.page + 1;
        }
        true
    }

    /// The listing's posts, oldest first (posts of the same day keep their order), and at
    /// most the first hundred of them.
    pub fn finish(self) -> (r: Vec<WordpressMetadata>)
        ensures
            exists|sorted: Seq<WordpressMetadata>|
                is_stable_sort_of(self.metas@, sorted, |a: WordpressMetadata, b: WordpressMetadata| meta_le(a, b))
                && r@ == sorted.take(if sorted.len() <= MAX_LISTED { sorted.len() as int } else { MAX_LISTED as int }),
    {
        let mut v = self.metas;
        sort_metadata_by_date(&mut v);
        let ghost sorted = v@;
        v.truncate(MAX_LISTED);
        v
    }
}

/// Sorts listed posts by creation instant, keeping the order of posts created at the
/// same instant (`slice::sort_by`, whose sort is stable).
#[verifier::external_body]
fn sort_metadata_by_date(v: &mut Vec<WordpressMetadata>)
    ensures
        is_stable_sort_of(old(v)@, final(v)@, |a: WordpressMetadata, b: WordpressMetadata| meta_le(a, b)),
{
    v.sort_by(|a, b| a.created_at.unix_nanos.cmp(&b.created_at.unix_nanos));
}

/// A row that is refused stays the first refusal of any longer list of rows.
proof fn lemma_first_row_refusal_stays(row: WordpressRow, style: WordpressDateStyle, rows: Seq<Seq<Seq<char>>>, k: int)
    requires
        0 < k <= rows.len(),
        first_row_refusal(row, style, rows.take(k)) is Some,
    ensures
        first_row_refusal(row, style, rows) == first_row_refusal(row, style, rows.take(k)),
    decreases rows.len() - k,
{
    if k < rows.len() {
        assert(rows.take(k + 1).drop_last() == rows.take(k));
        lemma_first_row_refusal_stays(row, style, rows, k + 1);
    } else {
        assert(rows.take(k) == rows);
    }
}

/// Every WordPress site that the aggregator reads.
pub fn wordpress_sites() -> (v: Vec<WordpressSite>)
    ensures
        v@.len() == 31,
{
    let mut v: Vec<WordpressSite> = Vec::new();
    v.push(WordpressSite {
        identifier: "accounting.ssu.ac.kr",
        title: "숭실대학교 회계학과 공지사항",
        description: "숭실대학교 회계학과 홈페이지의 공지사항을 제공합니다.",
        base_url: "https://accounting.ssu.ac.kr/%ea%b2%8c%ec%8b%9c%ed%8c%90/%ed%96%89%ec%a0%95%ea%b3%b5%ec%a7%80%ec%82%ac%ed%95%ad",
        dates: WordpressDateStyle::Dash,
        row: WordpressRow::Table,
    });
    v.push(WordpressSite {
        identifier: "actx.ssu.ac.kr",
        title: "숭실대학교 회계세무학과 공지사항",
        description: "숭실대학교 회계세무학과 홈페이지의 공지사항을 제공합니다.",
        base_url: "https://actx.ssu.ac.kr/%ed%95%99%ec%82%ac%ec%95%88%eb%82%b4/m2sub1",
        dates: WordpressDateStyle::Dash,
        row: WordpressRow::Table,
    });
    v.push(WordpressSite {
        identifier: "bioinfo.ssu.ac.kr",
        title: "숭실대학교 의생명시스템학부 공지사항",
        description: "숭실대학교 의생명시스템학부 홈페이지의 공지사항을 제공합니다.",
        base_url: "https://bioinfo.ssu.ac.kr/%ea%b2%8c%ec%8b%9c%ed%8c%90/%ea%b3%b5%ec%a7%80%ec%82%ac%ed%95%ad",
        dates: WordpressDateStyle::Dot,
        row: WordpressRow::Bioinfo,
    });
    v.push(WordpressSite {
        identifier: "chem.ssu.ac.kr",
        title: "숭실대학교 화학과 공지사항",
        description: "숭실대학교 화학과 홈페이지의 공지사항을 제공합니다.",
        base_url: "https://chem.ssu.ac.kr/%ea%b3%b5%ec%a7%80%ec%82%ac%ed%95%ad",
        dates: WordpressDateStyle::Dot,
        row: WordpressRow::Table,
    });
    v.push(WordpressSite {
        identifier: "chilan.ssu.ac.kr",
        title: "숭실대학교 중어중문학과 공지사항",
        description: "숭실대학교 중어중문학과 홈페이지의 공지사항을 제공합니다.",
        base_url: "https://chilan.ssu.ac.kr/%ed%95%99%ea%b3%bc%ec%82%ac%eb%ac%b4%ec%8b%a4%ec%95%8c%eb%a6%bc/%ea%b3%b5%ec%a7%80%ec%82%ac%ed%95%ad",
        dates: WordpressDateStyle::Dash,
        row: WordpressRow::Table,
    });
    v.push(WordpressSite {
        identifier: "counsel.ssu.ac.kr",
        title: "숭실대학교 상담심리학과 공지사항",
        description: "숭실대학교 상담심리학과 홈페이지의 공지사항을 제공합니다.",
        base_url: "https://counsel.ssu.ac.kr/%ec%95%8c%eb%a6%bc%eb%a7%88%eb%8b%b9/%ea%b3%b5%ec%a7%80%ec%82%ac%ed%95%ad",
        dates: WordpressDateStyle::Dash,
        row: WordpressRow::Table,
    });
    v.push(WordpressSite {
        identifier: "docs.ssu.ac.kr",
        title: "숭실대학교 기독교학과 공지사항",
        description: "숭실대학교 기독교학과 홈페이지의 공지사항을 제공합니다.",
        base_url: "https://docs.ssu.ac.kr/%ED%95%99%EA%B3%BC%EC%82%AC%EB%AC%B4%EC%8B%A4%EC%95%8C%EB%A6%BC/%EA%B3%B5%EC%A7%80%EC%82%AC%ED%95%AD",
        dates: WordpressDateStyle::Dash,
        row: WordpressRow::Table,
    });
    v.push(WordpressSite {
        identifier: "englan.ssu.ac.kr",
        title: "숭실대학교 영어영문학과 공지사항",
        description: "숭실대학교 영어영문학과 홈페이지의 공지사항을 제공합니다.",
        base_url: "https://englan.ssu.ac.kr/%eb%8c%80%ed%95%99%ec%9b%90/%ea%b3%b5%ec%a7%80%ec%82%ac%ed%95%ad",
        dates: WordpressDateStyle::Dash,
        row: WordpressRow::Table,
    });
    v.push(WordpressSite {
        identifier: "ensb.ssu.ac.kr",
        title: "숭실대학교 벤처중소기업학과 공지사항",
        description: "숭실대학교 벤처중소기업학과 홈페이지의 공지사항을 제공합니다.",
        base_url: "https://ensb.ssu.ac.kr/%ed%95%99%eb%b6%80%ec%95%8c%eb%a6%bc/%ed%95%99%eb%b6%80%ea%b3%b5%ec%a7%80%ec%82%ac%ed%95%ad",
        dates: WordpressDateStyle::Dot,
        row: WordpressRow::Table,
    });
    v.push(WordpressSite {
        identifier: "finance.ssu.ac.kr",
        title: "숭실대학교 금융학부 공지사항",
        description: "숭실대학교 금융학부 홈페이지의 공지사항을 제공합니다.",
        base_url: "https://finance.ssu.ac.kr/%ea%b2%8c%ec%8b%9c%ed%8c%90/%ed%96%89%ec%a0%95%ea%b3%b5%ec%a7%80%ec%82%ac%ed%95%ad",
        dates: WordpressDateStyle::Dot,
        row: WordpressRow::Table,
    });
    v.push(WordpressSite {
        identifier: "france.ssu.ac.kr",
        title: "숭실대학교 불어불문학과 공지사항",
        description: "숭실대학교 불어불문학과 홈페이지의 공지사항을 제공합니다.",
        base_url: "https://france.ssu.ac.kr/%ed%95%99%ea%b3%bc%ec%82%ac%eb%ac%b4%ec%8b%a4%ec%95%8c%eb%a6%bc/%ea%b3%b5%ec%a7%80%ec%82%ac%ed%95%ad",
        dates: WordpressDateStyle::Dash,
        row: WordpressRow::Table,
    });
    v.push(WordpressSite {
        identifier: "gerlan.ssu.ac.kr",
        title: "숭실대학교 독어독문학과 공지사항",
        description: "숭실대학교 독어독문학과 홈페이지의 공지사항을 제공합니다.",
        base_url: "https://gerlan.ssu.ac.kr/%ed%95%99%ea%b3%bc%ec%82%ac%eb%ac%b4%ec%8b%a4%ec%95%8c%eb%a6%bc/%ea%b3%b5%ec%a7%80%ec%82%ac%ed%95%ad",
        dates: WordpressDateStyle::Dash,
        row: WordpressRow::Table,
    });
    v.push(WordpressSite {
        identifier: "gtrade.ssu.ac.kr",
        title: "숭실대학교 글로벌통상학과 공지사항",
        description: "숭실대학교 글로벌통상학과 홈페이지의 공지사항을 제공합니다.",
        base_url: "https://gtrade.ssu.ac.kr/%ed%95%99%eb%b6%80%ec%95%8c%eb%a6%bc/%ea%b3%b5%ec%a7%80%ec%82%ac%ed%95%ad",
        dates: WordpressDateStyle::Dot,
        row: WordpressRow::Table,
    });
    v.push(WordpressSite {
        identifier: "history.ssu.ac.kr",
        title: "숭실대학교 사학과 공지사항",
        description: "숭실대학교 사학과 홈페이지의 공지사항을 제공합니다.",
        base_url: "https://history.ssu.ac.kr/%ED%95%99%EA%B3%BC%EC%86%8C%EC%8B%9D/%ED%95%99%EA%B3%BC%EA%B3%B5%EC%A7%80",
        dates: WordpressDateStyle::Dash,
        row: WordpressRow::Table,
    });
    v.push(WordpressSite {
        identifier: "iise.ssu.ac.kr",
        title: "숭실대학교 산업정보시스템공학과 공지사항",
        description: "숭실대학교 산업정보시스템공학과 홈페이지의 공지사항을 제공합니다.",
        base_url: "https://iise.ssu.ac.kr/cummunity/notice/",
        dates: WordpressDateStyle::Korean,
        row: WordpressRow::Table,
    });
    v.push(WordpressSite {
        identifier: "itrans.ssu.ac.kr",
        title: "숭실대학교 국제무역학과 공지사항",
        description: "숭실대학교 국제무역학과 홈페이지의 공지사항을 제공합니다.",
        base_url: "https://itrans.ssu.ac.kr/community/%ea%b3%b5%ec%a7%80%ec%82%ac%ed%95%ad",
        dates: WordpressDateStyle::Korean,
        row: WordpressRow::Table,
    });
    v.push(WordpressSite {
        identifier: "japanstu.ssu.ac.kr",
        title: "숭실대학교 일어일문학과 공지사항",
        description: "숭실대학교 일어일문학과 홈페이지의 공지사항을 제공합니다.",
        base_url: "https://japanstu.ssu.ac.kr/%ed%95%99%ea%b3%bc%ec%82%ac%eb%ac%b4%ec%8b%a4%ec%95%8c%eb%a6%bc/%ea%b3%b5%ec%a7%80%ec%82%ac%ed%95%ad",
        dates: WordpressDateStyle::Dash,
        row: WordpressRow::Table,
    });
    v.push(WordpressSite {
        identifier: "korlan.ssu.ac.kr",
        title: "숭실대학교 국어국문학과 공지사항",
        description: "숭실대학교 국어국문학과 홈페이지의 공지사항을 제공합니다.",
        base_url: "https://korlan.ssu.ac.kr/%ed%95%99%ea%b3%bc%ec%82%ac%eb%ac%b4%ec%8b%a4%ec%95%8c%eb%a6%bc/%ea%b3%b5%ec%a7%80%ec%82%ac%ed%95%ad",
        dates: WordpressDateStyle::Dash,
        row: WordpressRow::Table,
    });
    v.push(WordpressSite {
        identifier: "law.ssu.ac.kr",
        title: "숭실대학교 법학과 공지사항",
        description: "숭실대학교 법학과 홈페이지의 공지사항을 제공합니다.",
        base_url: "https://law.ssu.ac.kr/menu5/m5sub3",
        dates: WordpressDateStyle::Dash,
        row: WordpressRow::Table,
    });
    v.push(WordpressSite {
        identifier: "lawyer.ssu.ac.kr",
        title: "숭실대학교 국제법무학과 공지사항",
        description: "숭실대학교 국제법무학과 홈페이지의 공지사항을 제공합니다.",
        base_url: "https://lawyer.ssu.ac.kr/%ED%95%99%EA%B3%BC-%EC%86%8C%EC%8B%9D/%ED%95%99%EA%B3%BC-%EA%B3%B5%EC%A7%80/",
        dates: WordpressDateStyle::Korean,
        row: WordpressRow::Table,
    });
    v.push(WordpressSite {
        identifier: "lifelongedu.ssu.ac.kr",
        title: "숭실대학교 평생교육학과 공지사항",
        description: "숭실대학교 평생교육학과 홈페이지의 공지사항을 제공합니다.",
        base_url: "https://lifelongedu.ssu.ac.kr/%ED%95%99%EA%B3%BC%EC%82%AC%EB%AC%B4%EC%8B%A4%EC%95%8C%EB%A6%BC/%EA%B3%B5%EC%A7%80%EC%82%AC%ED%95%AD",
        dates: WordpressDateStyle::Dash,
        row: WordpressRow::Table,
    });
    v.push(WordpressSite {
        identifier: "masscom.ssu.ac.kr",
        title: "숭실대학교 언론홍보학과 공지사항",
        description: "숭실대학교 언론홍보학과 홈페이지의 공지사항을 제공합니다.",
        base_url: "https://masscom.ssu.ac.kr/%ea%b3%b5%ec%a7%80%ec%82%ac%ed%95%ad/%ed%95%99%eb%b6%80%ea%b3%b5%ec%a7%80",
        dates: WordpressDateStyle::Korean,
        row: WordpressRow::Table,
    });
    v.push(WordpressSite {
        identifier: "math.ssu.ac.kr",
        title: "숭실대학교 수학과 공지사항",
        description: "숭실대학교 수학과 홈페이지의 공지사항을 제공합니다.",
        base_url: "https://math.ssu.ac.kr/?page_id=977",
        dates: WordpressDateStyle::Dot,
        row: WordpressRow::Table,
    });
    v.push(WordpressSite {
        identifier: "mysoongsil.ssu.ac.kr",
        title: "숭실대학교 사회복지학부 공지사항",
        description: "숭실대학교 사회복지학부 홈페이지의 공지사항을 제공합니다.",
        base_url: "https://mysoongsil.ssu.ac.kr/%ea%b3%b5%ec%a7%80%ec%82%ac%ed%95%ad-2/%ed%95%99%eb%b6%80-%ea%b3%b5%ec%a7%80%ec%82%ac%ed%95%ad",
        dates: WordpressDateStyle::Dot,
        row: WordpressRow::Table,
    });
    v.push(WordpressSite {
        identifier: "philo.ssu.ac.kr",
        title: "숭실대학교 철학과 공지사항",
        description: "숭실대학교 철학과 홈페이지의 공지사항을 제공합니다.",
        base_url: "https://philo.ssu.ac.kr/%ed%95%99%ea%b3%bc%ec%82%ac%eb%ac%b4%ec%8b%a4%ec%95%8c%eb%a6%bc/%ea%b3%b5%ec%a7%80%ec%82%ac%ed%95%ad",
        dates: WordpressDateStyle::Dash,
        row: WordpressRow::Table,
    });
    v.push(WordpressSite {
        identifier: "physics.ssu.ac.kr",
        title: "숭실대학교 물리학과 공지사항",
        description: "숭실대학교 물리학과 홈페이지의 공지사항을 제공합니다.",
        base_url: "https://physics.ssu.ac.kr/%ea%b2%8c%ec%8b%9c%ed%8c%90/%ea%b3%b5%ec%a7%80%ec%82%ac%ed%95%ad",
        dates: WordpressDateStyle::Dash,
        row: WordpressRow::Table,
    });
    v.push(WordpressSite {
        identifier: "politics.ssu.ac.kr",
        title: "숭실대학교 정치외교학과 공지사항",
        description: "숭실대학교 정치외교학과 홈페이지의 공지사항을 제공합니다.",
        base_url: "https://politics.ssu.ac.kr/%ed%95%99%ea%b3%bc%ea%b3%b5%ec%a7%80/%ed%95%99%eb%b6%80-%ea%b3%b5%ec%a7%80%ec%82%ac%ed%95%ad",
        dates: WordpressDateStyle::Dash,
        row: WordpressRow::Table,
    });
    v.push(WordpressSite {
        identifier: "pubad.ssu.ac.kr",
        title: "숭실대학교 행정학부 공지사항",
        description: "숭실대학교 행정학부 홈페이지의 공지사항을 제공합니다.",
        base_url: "https://pubad.ssu.ac.kr/%ec%a0%95%eb%b3%b4%ea%b4%91%ec%9e%a5/%ed%95%99%eb%b6%80-%ea%b3%b5%ec%a7%80%ec%82%ac%ed%95%ad",
        dates: WordpressDateStyle::Dot,
        row: WordpressRow::Table,
    });
    v.push(WordpressSite {
        identifier: "sls.ssu.ac.kr",
        title: "숭실대학교 자유전공학부 공지사항",
        description: "숭실대학교 자유전공학부 홈페이지의 공지사항을 제공합니다.",
        base_url: "https://sls.ssu.ac.kr/%ed%95%99%eb%b6%80%ec%86%8c%ec%8b%9d/%ea%b3%b5%ec%a7%80%ec%82%ac%ed%95%ad",
        dates: WordpressDateStyle::Korean,
        row: WordpressRow::Table,
    });
    v.push(WordpressSite {
        identifier: "soar.ssu.ac.kr",
        title: "숭실대학교 건축학부 공지사항",
        description: "숭실대학교 건축학부 홈페이지의 공지사항을 제공합니다.",
        base_url: "https://soar.ssu.ac.kr/news/notice",
        dates: WordpressDateStyle::Korean,
        row: WordpressRow::Soar,
    });
    v.push(WordpressSite {
        identifier: "sports.ssu.ac.kr",
        title: "숭실대학교 스포츠학부 공지사항",
        description: "숭실대학교 스포츠학부 홈페이지의 공지사항을 제공합니다.",
        base_url: "http://sports.ssu.ac.kr/%ec%9e%90%eb%a3%8c%ec%8b%a4/%ec%8b%a0%ec%95%99%ec%9e%90%eb%a3%8c%ec%8b%a4",
        dates: WordpressDateStyle::Dot,
        row: WordpressRow::Table,
    });
    v
}

} // verus!

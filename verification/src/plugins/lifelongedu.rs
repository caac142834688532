//! The lifelong education centre's notices: reading post numbers and dates, and the
//! decisions of its crawl.

use vstd::prelude::*;
use crate::datetime::{Timestamp, parsed_date_time, kst_instant, KST_OFFSET_SECONDS, kst_date_time_from_text, date_time_parse_error, date_time_error_texts};
use crate::error::{PluginError, concat};
use crate::html::{
    url_query_pairs, first_value_for, query_pairs_of, find_pair_value, first_matches_in_each, opt_views, first_in_each,
    fragment_first_attr, first_attr_in_fragment, joined_url, join_url, text_concat, text_of_element, document_matches,
    select_in_document,
};
use crate::post::{opt_view, SsufidPost, Attachment};
use crate::text::{chars_of, trimmed_copy, string_of, second_piece, second_piece_of, trim, is_digit, utf8_bytes, has_utf8_bytes, trim_str};

verus! {

/// The plugin's identifier.
pub const IDENTIFIER: &'static str = "lifelongedu.ssu.ac.kr";
/// The site's title.
pub const TITLE: &'static str = "숭실대학교 평생교육원";
/// The site's description.
pub const DESCRIPTION: &'static str = "숭실대학교 평생교육원 학부 공지사항을 제공합니다.";
/// The address of the board.
pub const BASE_URL: &'static str = "http://lifelongedu.ssu.ac.kr/bbs/board.php?bo_table=univ";
/// The query key of a post's number.
pub const POST_ID_KEY: &'static str = "wr_id";
/// What separates a label from its value in a post's date line.
pub const LABEL_SEPARATOR: &'static str = " : ";
/// The format of a post's date and time, once its year has four digits.
pub const POST_DATETIME_FORMAT: &'static str = "[year]-[month]-[day] [hour]:[minute]";
/// How many posts a list page shows, for the bound on the pages read.
pub const POSTS_PER_PAGE: u32 = 15;

/// The lifelong education centre plugin.
pub struct LifelongEduPlugin;

/// Why a page of the site could not be read.
#[derive(Clone, Debug)]
pub enum LifelongEduError {
    /// A list row has no usable link.
    UrlNotFound,
    /// The address has no post number.
    IdNotFoundInUrl(String),
    /// A list row has no title.
    TitleNotFound,
    /// A post page has no date.
    DateNotFound,
    /// The date text, as prepared for reading, is no date and time: `time`'s error text.
    DateParse(String),
    /// A post page at this address has no content.
    ContentNotFound(String),
}

/// The message of an error.
pub open spec fn error_message(e: LifelongEduError) -> Seq<char> {
    match e {
        LifelongEduError::UrlNotFound => "URL not found for post item"@,
        LifelongEduError::IdNotFoundInUrl(u) => "wr_id (post ID) not found in URL: "@ + u@,
        LifelongEduError::TitleNotFound => "Title not found for post item"@,
        LifelongEduError::DateNotFound => "Date not found for post item"@,
        LifelongEduError::DateParse(t) => "Date parsing error: "@ + t@,
        LifelongEduError::ContentNotFound(u) => "Content not found on post page: "@ + u@,
    }
}

impl LifelongEduError {
    /// The error's message (see `error_message`).
    pub fn message(&self) -> (m: String)
        ensures
            m@ == error_message(*self),
    {
        match self {
            LifelongEduError::UrlNotFound => String::from_str("URL not found for post item"),
            LifelongEduError::IdNotFoundInUrl(u) => concat("wr_id (post ID) not found in URL: ", u.as_str()),
            LifelongEduError::TitleNotFound => String::from_str("Title not found for post item"),
            LifelongEduError::DateNotFound => String::from_str("Date not found for post item"),
            LifelongEduError::DateParse(t) => concat("Date parsing error: ", t.as_str()),
            LifelongEduError::ContentNotFound(u) => concat("Content not found on post page: ", u.as_str()),
        }
    }

    /// The error as the plugin reports it: unreadable content, with the error's message.
    pub fn into_plugin_error(self) -> (e: PluginError)
        ensures
            e matches PluginError::Parse { plugin, message } && plugin@ == IDENTIFIER@ && message@ == error_message(self),
    {
        let m = self.message();
        PluginError::parse(IDENTIFIER, m)
    }
}

/// Whether a date text starts with a two-digit year and a dash, and has at least five
/// bytes.
pub open spec fn has_short_year(t: Seq<char>) -> bool {
    &&& t.len() >= 3
    &&& is_digit(t[0])
    &&& is_digit(t[1])
    &&& t[2] == '-'
    &&& utf8_bytes(t) >= 5
}

/// The date text of a post's date line as it is read: the value after its label (or the
/// whole line), trimmed, with `20` put before a two-digit year.
pub open spec fn post_date_text(s: Seq<char>) -> Seq<char> {
    let part = match second_piece(s, LABEL_SEPARATOR@) {
        Some(p) => trim(p),
        None => trim(s),
    };
    if has_short_year(part) { "20"@ + part } else { part }
}

/// The post number of an address, if it is one: the value of its first `wr_id` query pair.
pub open spec fn post_id_of(url: Seq<char>) -> Result<Seq<char>, ()> {
    match url_query_pairs(url) {
        None => Err(()),
        Some(pairs) => match first_value_for(pairs, POST_ID_KEY@) {
            Some(v) => Ok(v),
            None => Err(()),
        },
    }
}

impl LifelongEduPlugin {
    /// The plugin.
    pub fn new() -> (p: LifelongEduPlugin)
        ensures
            p == LifelongEduPlugin,
    {
        LifelongEduPlugin
    }

    /// The post number in a post's address: its first `wr_id` query value. Refused with
    /// `UrlNotFound` when the text is no URL, and with `IdNotFoundInUrl` when it has no
    /// such pair.
    pub fn parse_wr_id_from_url(url_str: &str) -> (r: Result<String, LifelongEduError>)
        ensures
            match r {
                Ok(id) => post_id_of(url_str@) == Ok::<Seq<char>, ()>(id@),
                Err(LifelongEduError::UrlNotFound) => url_query_pairs(url_str@) is None,
                Err(LifelongEduError::IdNotFoundInUrl(u)) => u@ == url_str@ && url_query_pairs(url_str@) is Some
                    && post_id_of(url_str@) is Err,
                Err(_) => false,
            },
    {
        match query_pairs_of(url_str) {
            None => Err(LifelongEduError::UrlNotFound),
            Some(pairs) => match find_pair_value(&pairs, POST_ID_KEY) {
                Some(id) => Ok(id),
                None => Err(LifelongEduError::IdNotFoundInUrl(String::from_str(url_str))),
            },
        }
    }

    /// Prepares a post's date line for reading (see `post_date_text`).
    pub fn post_date_text_of(datetime_str: &str) -> (out: String)
        ensures
            out@ == post_date_text(datetime_str@),
    {
        let v = chars_of(datetime_str);
        let sep = chars_of(LABEL_SEPARATOR);
        proof {
            reveal_strlit(" : ");
        }
        let part: Vec<char> = match second_piece_of(&v, &sep) {
            Some(p) => trimmed_copy(&p),
            None => trimmed_copy(&v),
        };
        let short_year = part.len() >= 3 && is_ascii_digit(part[0]) && is_ascii_digit(part[1]) && part[2] == '-'
            && has_utf8_bytes(&part, 5);
        let text = string_of(&part);
        if short_year {
            let mut out = String::from_str("20");
            out.append(text.as_str());
            proof {
                reveal_strlit("20");
            }
            out
        } else {
            text
        }
    }

    /// The instant of a post's date line, Korea Standard Time (see `post_date_text`);
    /// refused with `DateParse` of `time`'s error when the prepared text is no date and
    /// time.
    pub fn parse_datetime_from_post(datetime_str: &str) -> (r: Result<Timestamp, LifelongEduError>)
        ensures
            match r {
                Ok(t) => (parsed_date_time(post_date_text(datetime_str@), POST_DATETIME_FORMAT@) matches Some(f)
                    && t.unix_nanos == kst_instant(f)) && t.offset_seconds == KST_OFFSET_SECONDS,
                Err(LifelongEduError::DateParse(text)) => text@ == date_time_parse_error(post_date_text(datetime_str@), POST_DATETIME_FORMAT@).0
                    && parsed_date_time(post_date_text(datetime_str@), POST_DATETIME_FORMAT@) is None,
                Err(_) => false,
            },
    {
        let text = Self::post_date_text_of(datetime_str);
        match kst_date_time_from_text(text.as_str(), POST_DATETIME_FORMAT) {
            Some(t) => Ok(t),
            None => Err(LifelongEduError::DateParse(date_time_error_texts(text.as_str(), POST_DATETIME_FORMAT).0)),
        }
    }
}

/// Whether `c` is an ASCII digit.
fn is_ascii_digit(c: char) -> (b: bool)
    ensures
        b == is_digit(c),
{
    '0' <= c && c <= '9'
}

/// A post as the list page shows it.
#[derive(Clone, Debug)]
pub struct LifelongEduMetadata {
    pub id: String,
    pub url: String,
    pub title: String,
    pub author: String,
    pub is_notice: bool,
}

/// The most list pages that a crawl for `posts_limit` posts reads.
pub open spec fn max_pages(posts_limit: u32) -> int {
    (posts_limit as int) / (POSTS_PER_PAGE as int) + 2
}

/// The post numbers of a list of rows.
pub open spec fn ids_of(rows: Seq<LifelongEduMetadata>) -> Seq<Seq<char>> {
    rows.map_values(|m: LifelongEduMetadata| m.id@)
}

/// `rows` with each row of `page` added, in order, whose number is not there yet.
pub open spec fn with_new_rows(rows: Seq<LifelongEduMetadata>, page: Seq<LifelongEduMetadata>) -> Seq<LifelongEduMetadata>
    decreases page.len(),
{
    if page.len() == 0 {
        rows
    } else {
        let before = with_new_rows(rows, page.drop_last());
        if ids_of(before).contains(page.last().id@) { before } else { before.push(page.last()) }
    }
}

impl LifelongEduPlugin {
    /// The most list pages that a crawl for `posts_limit` posts reads.
    pub fn max_pages_to_check(posts_limit: u32) -> (n: u32)
        ensures
            n == max_pages(posts_limit),
    {
        posts_limit / POSTS_PER_PAGE + 2
    }

    /// Whether the crawl reads the list page `current_page`: it is within the bound on
    /// pages, and fewer than `posts_limit` posts are known.
    pub fn reads_page(current_page: u32, collected: usize, posts_limit: u32) -> (b: bool)
        ensures
            b == (current_page <= max_pages(posts_limit) && collected < posts_limit),
    {
        current_page <= Self::max_pages_to_check(posts_limit) && collected < posts_limit as usize
    }

    /// Adds the rows of a list page whose post numbers are new (see `with_new_rows`).
    pub fn add_new_rows(rows: &mut Vec<LifelongEduMetadata>, page: Vec<LifelongEduMetadata>)
        ensures
            final(rows)@ == with_new_rows(old(rows)@, page@),
    {
        let ghost start = rows@;
        let ghost all = page@;
        let total = page.len();
        let mut page = page;
        let mut i: usize = 0;
        while page.len() > 0
            invariant
                i <= all.len(),
                all.len() == total,
                page@ == all.skip(i as int),
                rows@ == with_new_rows(start, all.take(i as int)),
            decreases page.len(),
        {
            let m = page.remove(0);
            proof {
                assert(all.take(i + 1).drop_last() == all.take(i as int));
                assert(all.take(i + 1).last() == m);
                assert(page@ =~= all.skip(i + 1));
            }
            let mut present = false;
            let mut k: usize = 0;
            while k < rows.len()
                invariant
                    k <= rows.len(),
                    present <==> exists|j: int| 0 <= j < k && rows@[j].id@ == m.id@,
                decreases rows.len() - k,
            {
                if rows[k].id == m.id {
                    present = true;
                }
                k += 1;
            }
            proof {
                if present {
                    let j = choose|j: int| 0 <= j < rows.len() && rows@[j].id@ == m.id@;
                    assert(ids_of(rows@)[j] == m.id@);
                } else {
                    assert forall|j: int| 0 <= j < ids_of(rows@).len() implies ids_of(rows@)[j] != m.id@ by {
                        assert(ids_of(rows@)[j] == rows@[j].id@);
                    }
                }
            }
            if !present {
                rows.push(m);
            }
            i += 1;
        }
        proof {
            assert(all.take(all.len() as int) == all);
        }
    }
}


/// The rows of a list page.
pub const LIST_ITEM_SELECTOR: &'static str = "table.board_list tr[class^=\"bg\"]";
/// A row's link, whose text is the post's title.
pub const LINK_SELECTOR: &'static str = "td.subject a";
/// A row's author.
pub const LIST_AUTHOR_SELECTOR: &'static str = "td.name span.member";
/// What marks a row as a notice.
pub const NOTICE_SELECTOR: &'static str = "td.num b";
/// The author of a row that shows none.
pub const UNKNOWN_AUTHOR: &'static str = "Unknown";
/// A link element.
pub const ANCHOR_SELECTOR: &'static str = "a";
/// The attribute of a link's target.
pub const HREF: &'static str = "href";
/// A post page's title.
pub const POST_TITLE_SELECTOR: &'static str = "div[style*=\"font-size:13px; font-weight:bold\"]";
/// A post page's author.
pub const POST_AUTHOR_SELECTOR: &'static str = "#bo_v_info span.sv_member";
/// A post page's date line.
pub const POST_DATE_SELECTOR: &'static str = "div[style*=\"margin-top:6px\"] > span[style*=\"color:#888\"]";
/// A post page's content.
pub const POST_CONTENT_SELECTOR: &'static str = "#writeContents";
/// A post page's attachment links.
pub const ATTACHMENT_SELECTOR: &'static str = "#bo_v_file ul li a";
/// The address that attachment links are relative to.
pub const ATTACHMENT_BASE: &'static str = "http://lifelongedu.ssu.ac.kr/bbs/";
/// The category of a notice.
pub const NOTICE_CATEGORY: &'static str = "공지";

/// The entry `i` of `s`, or none past its end.
pub open spec fn opt_at(s: Seq<Option<Seq<char>>>, i: int) -> Option<Seq<char>> {
    if 0 <= i < s.len() { s[i] } else { None }
}

/// A row read: the post's number, address, title and author, and whether it is a notice.
pub type RowRead = (Seq<char>, Seq<char>, Seq<char>, Seq<char>, bool);

/// The message of a row without a usable link.
pub open spec fn url_not_found() -> Seq<char> {
    error_message(LifelongEduError::UrlNotFound)
}

/// What a list row gives, from its first link, its first author and whether it is marked
/// a notice: nothing for a notice without a link; a refusal for a row without a link, a
/// target, or a target that resolves against the board's address, or whose target has no
/// post number; otherwise the post, whose address is the resolved target, whose title is
/// the link's trimmed text, and whose author is the trimmed author or `Unknown`.
pub open spec fn row_outcome(link: Option<Seq<char>>, author: Option<Seq<char>>, notice: bool) -> Option<Result<RowRead, Seq<char>>> {
    match link {
        None => if notice { None } else { Some(Err(url_not_found())) },
        Some(a) => match fragment_first_attr(a, ANCHOR_SELECTOR@, HREF@) {
            None => Some(Err(url_not_found())),
            Some(h) => match joined_url(BASE_URL@, h) {
                None => Some(Err(url_not_found())),
                Some(u) => match url_query_pairs(u) {
                    None => Some(Err(url_not_found())),
                    Some(p) => match first_value_for(p, POST_ID_KEY@) {
                        None => Some(Err("wr_id (post ID) not found in URL: "@ + u)),
                        Some(id) => Some(Ok((
                            id,
                            u,
                            trim(text_concat(a)),
                            match author {
                                Some(x) => trim(text_concat(x)),
                                None => UNKNOWN_AUTHOR@,
                            },
                            notice,
                        ))),
                    },
                },
            },
        },
    }
}

/// The posts of the first `n` rows, whose links, authors and notice marks are given, or
/// the message of the first refused row.
pub open spec fn rows_outcome(
    links: Seq<Option<Seq<char>>>,
    authors: Seq<Option<Seq<char>>>,
    notices: Seq<Option<Seq<char>>>,
    n: nat,
) -> Result<Seq<RowRead>, Seq<char>>
    decreases n,
{
    if n == 0 {
        Ok(Seq::empty())
    } else {
        match rows_outcome(links, authors, notices, (n - 1) as nat) {
            Err(m) => Err(m),
            Ok(rows) => match row_outcome(opt_at(links, n - 1), opt_at(authors, n - 1), opt_at(notices, n - 1) is Some) {
                None => Ok(rows),
                Some(Err(m)) => Err(m),
                Some(Ok(r)) => Ok(rows.push(r)),
            },
        }
    }
}

/// The posts of a list page, or the message of its first refused row.
pub open spec fn list_outcome(html: Seq<char>) -> Result<Seq<RowRead>, Seq<char>> {
    let links = first_matches_in_each(html, LIST_ITEM_SELECTOR@, LINK_SELECTOR@);
    rows_outcome(
        links,
        first_matches_in_each(html, LIST_ITEM_SELECTOR@, LIST_AUTHOR_SELECTOR@),
        first_matches_in_each(html, LIST_ITEM_SELECTOR@, NOTICE_SELECTOR@),
        links.len(),
    )
}

/// The view of a listed post.
pub open spec fn row_view(m: LifelongEduMetadata) -> RowRead {
    (m.id@, m.url@, m.title@, m.author@, m.is_notice)
}

/// The trimmed text of the first element of the document `html` that matches `selector`.
pub open spec fn first_doc_text(html: Seq<char>, selector: Seq<char>) -> Option<Seq<char>> {
    let m = document_matches(html, selector);
    if m.len() > 0 { Some(trim(text_concat(m[0]))) } else { None }
}

/// Why a post page is refused, checked in order: it has no date, its date does not read
/// (see `post_date_text`), or it has no content.
pub open spec fn post_refusal(html: Seq<char>, url: Seq<char>) -> Option<Seq<char>> {
    match first_doc_text(html, POST_DATE_SELECTOR@) {
        None => Some(error_message(LifelongEduError::DateNotFound)),
        Some(d) => if parsed_date_time(post_date_text(d), POST_DATETIME_FORMAT@) is None {
            Some("Date parsing error: "@ + date_time_parse_error(post_date_text(d), POST_DATETIME_FORMAT@).0)
        } else if document_matches(html, POST_CONTENT_SELECTOR@).len() == 0 {
            Some("Content not found on post page: "@ + url)
        } else {
            None
        },
    }
}

/// Whether every attachment link of a post page that has a target resolves against the
/// attachments' address.
pub open spec fn attachments_resolve(html: Seq<char>) -> bool {
    forall|i: int| 0 <= i < document_matches(html, ATTACHMENT_SELECTOR@).len() ==>
        (fragment_first_attr(#[trigger] document_matches(html, ATTACHMENT_SELECTOR@)[i], ANCHOR_SELECTOR@, HREF@) matches Some(h)
            ==> joined_url(ATTACHMENT_BASE@, h) is Some)
}

/// Whether a post page reads without failing: when it is not refused, its attachment
/// links resolve.
pub open spec fn post_page_readable(html: Seq<char>) -> bool {
    post_refusal(html, Seq::empty()) is None ==> attachments_resolve(html)
}

/// The attachments of a post page: for each link with a target, its trimmed text and its
/// resolved target, in order.
pub open spec fn attachments_of(links: Seq<Seq<char>>) -> Seq<(Seq<char>, Seq<char>)>
    decreases links.len(),
{
    if links.len() == 0 {
        Seq::empty()
    } else {
        let rest = attachments_of(links.drop_last());
        match fragment_first_attr(links.last(), ANCHOR_SELECTOR@, HREF@) {
            Some(h) => rest.push((trim(text_concat(links.last())), joined_url(ATTACHMENT_BASE@, h)->0)),
            None => rest,
        }
    }
}

/// The views of attachments read here: each one's name and address.
pub open spec fn attachment_views(v: Seq<Attachment>) -> Seq<(Seq<char>, Seq<char>)> {
    v.map_values(|a: Attachment| (a.name->0@, a.url@))
}

/// `p` is the post that the page `html` gives for the listed post `meta`: the page's title
/// (or the list's), the page's author (or the list's), the date read, the content's HTML,
/// the notice category for a notice, and the attachments.
pub open spec fn post_is(p: SsufidPost, html: Seq<char>, meta: LifelongEduMetadata) -> bool {
    &&& p.id@ == meta.id@
    &&& p.url@ == meta.url@
    &&& p.title@ == (match first_doc_text(html, POST_TITLE_SELECTOR@) { Some(t) => t, None => meta.title@ })
    &&& p.author == Some(p.author->0)
    &&& p.author->0@ == (match first_doc_text(html, POST_AUTHOR_SELECTOR@) { Some(t) => t, None => meta.author@ })
    &&& (parsed_date_time(post_date_text(first_doc_text(html, POST_DATE_SELECTOR@)->0), POST_DATETIME_FORMAT@) matches Some(f)
        && p.created_at.unix_nanos == kst_instant(f))
    &&& p.created_at.offset_seconds == KST_OFFSET_SECONDS
    &&& p.updated_at is None
    &&& p.description is None
    &&& p.thumbnail is None
    &&& p.metadata is None
    &&& p.content@ == document_matches(html, POST_CONTENT_SELECTOR@)[0]
    &&& (if meta.is_notice { p.category@.len() == 1 && p.category@[0]@ == NOTICE_CATEGORY@ } else { p.category@.len() == 0 })
    &&& attachment_views(p.attachments@) == attachments_of(document_matches(html, ATTACHMENT_SELECTOR@))
    &&& forall|i: int| 0 <= i < p.attachments@.len() ==> (#[trigger] p.attachments@[i]).name is Some && p.attachments@[i].mime_type is None
}

impl LifelongEduPlugin {
    /// Reads a list page: the posts of its rows in order (see `row_outcome`), or the
    /// first refusal.
    pub fn parse_list_page(html: &str) -> (r: Result<Vec<LifelongEduMetadata>, LifelongEduError>)
        ensures
            match r {
                Ok(metas) => list_outcome(html@) == Ok::<Seq<RowRead>, Seq<char>>(metas@.map_values(|m: LifelongEduMetadata| row_view(m))),
                Err(e) => list_outcome(html@) == Err::<Seq<RowRead>, Seq<char>>(error_message(e)),
            },
    {
        let links = first_in_each(html, LIST_ITEM_SELECTOR, LINK_SELECTOR);
        let authors = first_in_each(html, LIST_ITEM_SELECTOR, LIST_AUTHOR_SELECTOR);
        let notices = first_in_each(html, LIST_ITEM_SELECTOR, NOTICE_SELECTOR);
        let ghost ls = opt_views(links@);
        let ghost aus = opt_views(authors@);
        let ghost ns = opt_views(notices@);
        let mut out: Vec<LifelongEduMetadata> = Vec::new();
        proof {
            assert(out@.map_values(|m: LifelongEduMetadata| row_view(m)) =~= Seq::<RowRead>::empty());
        }
        let mut i: usize = 0;
        while i < links.len()
            invariant
                i <= links.len(),
                ls == first_matches_in_each(html@, LIST_ITEM_SELECTOR@, LINK_SELECTOR@),
                aus == first_matches_in_each(html@, LIST_ITEM_SELECTOR@, LIST_AUTHOR_SELECTOR@),
                ns == first_matches_in_each(html@, LIST_ITEM_SELECTOR@, NOTICE_SELECTOR@),
                ls == opt_views(links@),
                aus == opt_views(authors@),
                ns == opt_views(notices@),
                ls.len() == links.len(),
                rows_outcome(ls, aus, ns, i as nat) == Ok::<Seq<RowRead>, Seq<char>>(out@.map_values(|m: LifelongEduMetadata| row_view(m))),
            decreases links.len() - i,
        {
            let ghost before = out@;
            let notice = i < notices.len() && notices[i].is_some();
            let author_text: String = if i < authors.len() {
                match &authors[i] {
                    Some(a) => trim_str(text_of_element(a.as_str()).as_str()),
                    None => String::from_str(UNKNOWN_AUTHOR),
                }
            } else {
                String::from_str(UNKNOWN_AUTHOR)
            };
            proof {
                assert(opt_at(ls, i as int) == opt_view(links@[i as int]));
                assert(notice == (opt_at(ns, i as int) is Some));
                assert(author_text@ == match opt_at(aus, i as int) {
                    Some(x) => trim(text_concat(x)),
                    None => UNKNOWN_AUTHOR@,
                });
            }
            match &links[i] {
                None => {
                    if !notice {
                        proof {
                            lemma_rows_err_stays(ls, aus, ns, i as nat + 1, ls.len());
                        }
                        return Err(LifelongEduError::UrlNotFound);
                    }
                },
                Some(a) => {
                    let href = match first_attr_in_fragment(a.as_str(), ANCHOR_SELECTOR, HREF) {
                        Some(h) => h,
                        None => {
                            proof {
                                lemma_rows_err_stays(ls, aus, ns, i as nat + 1, ls.len());
                            }
                            return Err(LifelongEduError::UrlNotFound);
                        },
                    };
                    let url = match join_url(BASE_URL, href.as_str()) {
                        Some(u) => u,
                        None => {
                            proof {
                                lemma_rows_err_stays(ls, aus, ns, i as nat + 1, ls.len());
                            }
                            return Err(LifelongEduError::UrlNotFound);
                        },
                    };
                    let id = match Self::parse_wr_id_from_url(url.as_str()) {
                        Ok(id) => id,
                        Err(e) => {
                            proof {
                                lemma_rows_err_stays(ls, aus, ns, i as nat + 1, ls.len());
                            }
                            return Err(e);
                        },
                    };
                    let title = trim_str(text_of_element(a.as_str()).as_str());
                    let m = LifelongEduMetadata { id, url, title, author: author_text, is_notice: notice };
                    out.push(m);
                    proof {
                        assert(out@.map_values(|m: LifelongEduMetadata| row_view(m))
                            =~= before.map_values(|m: LifelongEduMetadata| row_view(m)).push(row_view(m)));
                    }
                },
            }
            i += 1;
        }
        Ok(out)
    }

    /// Whether a post page reads without failing (see `post_page_readable`).
    pub fn post_page_readable(html: &str) -> (b: bool)
        ensures
            b == post_page_readable(html@),
    {
        let dates = select_in_document(html, POST_DATE_SELECTOR);
        if dates.len() > 0 {
            proof {
                assert(crate::text::views(dates@)[0] == dates@[0]@);
            }
            let d = trim_str(text_of_element(dates[0].as_str()).as_str());
            if Self::parse_datetime_from_post(d.as_str()).is_err() {
                return true;
            }
            if select_in_document(html, POST_CONTENT_SELECTOR).len() == 0 {
                return true;
            }
        } else {
            return true;
        }
        let links = select_in_document(html, ATTACHMENT_SELECTOR);
        let ghost ls = crate::text::views(links@);
        let mut i: usize = 0;
        while i < links.len()
            invariant
                i <= links.len(),
                ls == crate::text::views(links@),
                ls == document_matches(html@, ATTACHMENT_SELECTOR@),
                forall|j: int| 0 <= j < i ==> (fragment_first_attr(#[trigger] ls[j], ANCHOR_SELECTOR@, HREF@) matches Some(h)
                    ==> joined_url(ATTACHMENT_BASE@, h) is Some),
                post_refusal(html@, Seq::empty()) is None,
            decreases links.len() - i,
        {
            proof {
                assert(ls[i as int] == links@[i as int]@);
            }
            match first_attr_in_fragment(links[i].as_str(), ANCHOR_SELECTOR, HREF) {
                Some(h) => {
                    if join_url(ATTACHMENT_BASE, h.as_str()).is_none() {
                        proof {
                            assert(!attachments_resolve(html@)) by {
                                assert(fragment_first_attr(document_matches(html@, ATTACHMENT_SELECTOR@)[i as int], ANCHOR_SELECTOR@, HREF@) == Some(h@));
                            }
                        }
                        return false;
                    }
                },
                None => {},
            }
            i += 1;
        }
        true
    }

    /// Reads a post page for the listed post `meta` (see `post_refusal` and `post_is`).
    pub fn parse_post_page(html: &str, meta: &LifelongEduMetadata) -> (r: Result<SsufidPost, LifelongEduError>)
        requires
            post_page_readable(html@),
        ensures
            match r {
                Ok(p) => post_refusal(html@, meta.url@) is None && post_is(p, html@, *meta),
                Err(e) => post_refusal(html@, meta.url@) == Some(error_message(e)),
            },
    {
        let titles = select_in_document(html, POST_TITLE_SELECTOR);
        let title = if titles.len() > 0 {
            proof {
                assert(crate::text::views(titles@)[0] == titles@[0]@);
            }
            trim_str(text_of_element(titles[0].as_str()).as_str())
        } else {
            meta.title.clone()
        };
        let authors = select_in_document(html, POST_AUTHOR_SELECTOR);
        let author = if authors.len() > 0 {
            proof {
                assert(crate::text::views(authors@)[0] == authors@[0]@);
            }
            trim_str(text_of_element(authors[0].as_str()).as_str())
        } else {
            meta.author.clone()
        };
        let dates = select_in_document(html, POST_DATE_SELECTOR);
        if dates.len() == 0 {
            return Err(LifelongEduError::DateNotFound);
        }
        proof {
            assert(crate::text::views(dates@)[0] == dates@[0]@);
        }
        let d = trim_str(text_of_element(dates[0].as_str()).as_str());
        let created_at = match Self::parse_datetime_from_post(d.as_str()) {
            Ok(t) => t,
            Err(e) => return Err(e),
        };
        let contents = select_in_document(html, POST_CONTENT_SELECTOR);
        if contents.len() == 0 {
            return Err(LifelongEduError::ContentNotFound(meta.url.clone()));
        }
        proof {
            assert(crate::text::views(contents@)[0] == contents@[0]@);
            assert(post_refusal(html@, Seq::empty()) is None);
        }
        let content = contents[0].clone();
        let links = select_in_document(html, ATTACHMENT_SELECTOR);
        let ghost ls = crate::text::views(links@);
        let mut attachments: Vec<Attachment> = Vec::new();
        let mut i: usize = 0;
        while i < links.len()
            invariant
                i <= links.len(),
                ls == crate::text::views(links@),
                ls == document_matches(html@, ATTACHMENT_SELECTOR@),
                attachments_resolve(html@),
                attachment_views(attachments@) == attachments_of(ls.take(i as int)),
                forall|j: int| 0 <= j < attachments@.len() ==> (#[trigger] attachments@[j]).name is Some && attachments@[j].mime_type is None,
            decreases links.len() - i,
        {
            proof {
                assert(ls[i as int] == links@[i as int]@);
                assert(ls.take(i + 1).drop_last() =~= ls.take(i as int));
                assert(ls.take(i + 1).last() == ls[i as int]);
            }
            match first_attr_in_fragment(links[i].as_str(), ANCHOR_SELECTOR, HREF) {
                Some(h) => {
                    let url = match join_url(ATTACHMENT_BASE, h.as_str()) {
                        Some(u) => u,
                        None => {
                            proof {
                                assert(false);
                            }
                            String::new()
                        },
                    };
                    let name = trim_str(text_of_element(links[i].as_str()).as_str());
                    let ghost before = attachments@;
                    attachments.push(Attachment { url, name: Some(name), mime_type: None });
                    proof {
                        assert(attachment_views(attachments@) =~= attachment_views(before).push((name@, url@)));
                    }
                },
                None => {},
            }
            i += 1;
        }
        proof {
            assert(ls.take(links.len() as int) =~= ls);
        }
        let mut category: Vec<String> = Vec::new();
        if meta.is_notice {
            category.push(String::from_str(NOTICE_CATEGORY));
        }
        Ok(SsufidPost {
            id: meta.id.clone(),
            url: meta.url.clone(),
            author: Some(author),
            title,
            description: None,
            category,
            created_at,
            updated_at: None,
            thumbnail: None,
            content,
            attachments,
            metadata: None,
        })
    }

    /// Reads a post page when it reads without failing (see `parse_post_page`); `None`
    /// otherwise.
    pub fn try_parse_post_page(html: &str, meta: &LifelongEduMetadata) -> (r: Option<Result<SsufidPost, LifelongEduError>>)
        ensures
            match r {
                Some(Ok(p)) => post_page_readable(html@) && post_refusal(html@, meta.url@) is None && post_is(p, html@, *meta),
                Some(Err(e)) => post_page_readable(html@) && post_refusal(html@, meta.url@) == Some(error_message(e)),
                None => !post_page_readable(html@),
            },
    {
        if Self::post_page_readable(html) { Some(Self::parse_post_page(html, meta)) } else { None }
    }
}


/// Once the rows read so far are refused, more rows are refused with the same message.
proof fn lemma_rows_err_stays(
    links: Seq<Option<Seq<char>>>,
    authors: Seq<Option<Seq<char>>>,
    notices: Seq<Option<Seq<char>>>,
    k: nat,
    n: nat,
)
    requires
        k <= n,
        rows_outcome(links, authors, notices, k) is Err,
    ensures
        rows_outcome(links, authors, notices, n) == rows_outcome(links, authors, notices, k),
    decreases n - k,
{
    if k < n {
        lemma_rows_err_stays(links, authors, notices, k, (n - 1) as nat);
    }
}


impl LifelongEduPlugin {
    /// The address of the list page `page`: the board's address with `&page=` and the
    /// page's number.
    pub fn list_url(page: u32) -> (out: String)
        ensures
            out@ == BASE_URL@ + "&page="@ + crate::text::int_text(page as int),
    {
        let mut out = concat(BASE_URL, "&page=");
        out.append(crate::text::int_to_text(page as i64).as_str());
        out
    }
}

} // verus!

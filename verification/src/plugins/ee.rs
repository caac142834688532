//! The electrical engineering school's notices: reading its list pages and post pages,
//! and the decisions of its crawl.

use vstd::prelude::*;
use crate::datetime::{Timestamp, parsed_date, parsed_date_time, kst_instant, KST_OFFSET_SECONDS, kst_midnight_from_text, kst_date_time_from_text};
use crate::error::{PluginError, concat};
use crate::html::{
    document_matches, fragment_first_attr, joined_url, url_query_pairs, first_value_for, first_matches_in_each,
    url_parses, opt_views, text_concat, select_in_document, first_attr_in_fragment, join_url, query_pairs_of,
    find_pair_value, first_in_each, is_url, text_of_element, first_inner_html, first_inner_html_in_document,
};
use crate::post::{Attachment, SsufidPost, opt_view};
use crate::text::{
    trim, trim_str, chars_of, string_of, remove_all, remove_text, starts_with, has_prefix, trimmed_copy, int_text,
    int_to_text, split_char, split_at_char, trim_char, trim_matches_char, views,
};

verus! {

/// The plugin's identifier.
pub const IDENTIFIER: &'static str = "ee.ssu.ac.kr";
/// The site's title.
pub const TITLE: &'static str = "숭실대학교 전기공학부";
/// The site's description.
pub const DESCRIPTION: &'static str = "숭실대학교 전기공학부 학부소식 공지사항을 제공합니다.";
/// The site's address.
pub const BASE_URL: &'static str = "http://ee.ssu.ac.kr";
/// The path of the notice list.
pub const LIST_PATH: &'static str = "/sub/sub05_01.php";
/// The items of a list page.
pub const POST_ITEM_SELECTOR: &'static str = "div.board-list2 > ul > li:not(.label)";
/// An item's link to its post.
pub const POST_LINK_SELECTOR: &'static str = "div.subject > a";
/// A post page's title.
pub const TITLE_VIEW_SELECTOR: &'static str = "div.board-view > div.head > h3.tit";
/// A post page's author.
pub const AUTHOR_VIEW_SELECTOR: &'static str = "div.board-view > div.head > div.info > span.name strong";
/// A post page's date.
pub const DATE_VIEW_SELECTOR: &'static str = "div.board-view > div.head > div.info > span.date";
/// A post page's content.
pub const CONTENT_VIEW_SELECTOR: &'static str = "div.board-view > div.body";
/// A post page's attachment links.
pub const ATTACHMENT_SELECTOR: &'static str = "div.board-view > div.head > div.files a[onclick*='download'], div.board-view > div.body a[href^='/uploaded/']";
/// The link to the next list page, when there is one.
pub const NEXT_PAGE_SELECTOR: &'static str = "div.paginate > a.next:not(.disabled)";
/// The author of a post page that names none.
pub const DEFAULT_AUTHOR: &'static str = "전기공학부";
/// The format of a date with a time.
pub const DATETIME_FORMAT: &'static str = "[year]-[month]-[day] [hour]:[minute]:[second]";
/// The format of a date alone.
pub const DATE_FORMAT: &'static str = "[year].[month].[day]";
/// The query key of a post's number.
pub const POST_ID_KEY: &'static str = "idx";
/// How a download link starts.
pub const DOWNLOAD_CALL: &'static str = "javascript:download";
/// How a download link's arguments start.
pub const DOWNLOAD_CALL_OPEN: &'static str = "javascript:download(";

/// The electrical engineering school plugin.
pub struct EePlugin;

/// `path` resolved against `base`: refused when `base` is no URL, or the path does not
/// resolve.
pub open spec fn full_url_of(base: Seq<char>, path: Seq<char>) -> Option<Seq<char>> {
    if url_parses(base) { joined_url(base, path) } else { None }
}

/// `path` resolved against `base` (see `full_url_of`); refused with the kind `UrlParse`
/// when `base` is no URL, and `UrlJoin` when the path does not resolve.
pub fn full_url(base: &str, path: &str) -> (r: Result<String, PluginError>)
    ensures
        match r {
            Ok(u) => full_url_of(base@, path@) == Some(u@),
            Err(e) => full_url_of(base@, path@) is None && (e matches PluginError::Custom { kind, .. }
                && kind@ == (if url_parses(base@) { "UrlJoin"@ } else { "UrlParse"@ })),
        },
{
    if !is_url(base) {
        return Err(PluginError::custom(IDENTIFIER, String::from_str("UrlParse"), concat("Base URL parse error: ", base)));
    }
    match join_url(base, path) {
        Some(u) => Ok(u),
        None => Err(PluginError::custom(IDENTIFIER, String::from_str("UrlJoin"), concat("URL join error: ", path))),
    }
}

/// The instant of a post's date: a date and time, or else a date at midnight, Korea
/// Standard Time.
pub open spec fn ee_date_of(s: Seq<char>) -> Option<int> {
    match parsed_date_time(s, DATETIME_FORMAT@) {
        Some(f) => Some(kst_instant(f)),
        None => match parsed_date(s, DATE_FORMAT@) {
            Some(d) => Some(kst_instant((d.0, d.1, d.2, 0, 0, 0))),
            None => None,
        },
    }
}

/// An item of a list page: its link's target and its title.
#[derive(Clone, Debug)]
pub struct EeListItem {
    pub relative_url: String,
    pub title_on_list: String,
}

/// `items` are what the list entries with links `links` give, in order: those whose link
/// has a target and a title that is not empty.
pub open spec fn list_items_follow(items: Seq<EeListItem>, links: Seq<Option<Seq<char>>>) -> bool
    decreases links.len(),
{
    if links.len() == 0 {
        items.len() == 0
    } else {
        match links.last() {
            Some(l) => match fragment_first_attr(l, "a"@, "href"@) {
                Some(h) => if trim(text_concat(l)).len() > 0 {
                    &&& items.len() > 0
                    &&& items.last().relative_url@ == trim(h)
                    &&& items.last().title_on_list@ == trim(text_concat(l))
                    &&& list_items_follow(items.drop_last(), links.drop_last())
                } else {
                    list_items_follow(items, links.drop_last())
                },
                None => list_items_follow(items, links.drop_last()),
            },
            None => list_items_follow(items, links.drop_last()),
        }
    }
}

/// The trimmed text of the first element that matches `selector`, when it is not empty.
pub open spec fn nonempty_text(html: Seq<char>, selector: Seq<char>) -> Option<Seq<char>> {
    let m = document_matches(html, selector);
    if m.len() > 0 && trim(text_concat(m[0])).len() > 0 { Some(trim(text_concat(m[0]))) } else { None }
}

/// The trimmed inner HTML of the first element that matches `selector`, when it is not
/// empty.
pub open spec fn nonempty_inner_html(html: Seq<char>, selector: Seq<char>) -> Option<Seq<char>> {
    match first_inner_html(html, selector) {
        Some(h) => if trim(h).len() > 0 { Some(trim(h)) } else { None },
        None => None,
    }
}

/// The arguments of a download link: the text without the call's opening and without
/// closing parentheses, split at commas, each trimmed of white space and then of quotes.
pub open spec fn download_params(h: Seq<char>) -> Seq<Seq<char>> {
    split_char(remove_all(remove_all(h, DOWNLOAD_CALL_OPEN@), ")"@), ',').map_values(|p: Seq<char>| trim_char(trim(p), '\''))
}

/// The address of an attachment link's target: the download address for a download call
/// with three arguments, else the target resolved against the site's address.
pub open spec fn attachment_target(h: Seq<char>) -> Option<Seq<char>> {
    if starts_with(h, DOWNLOAD_CALL@) && download_params(h).len() == 3 {
        let p = download_params(h);
        Some(BASE_URL@ + "/module/board/download.php?boardid="@ + p[0] + "&b_idx="@ + p[1] + "&idx="@ + p[2])
    } else {
        full_url_of(BASE_URL@, h)
    }
}

/// The name of an attachment: its link's trimmed text, or a name made from the post's
/// number when that is empty.
pub open spec fn attachment_name_of(link: Seq<char>, post_id: Seq<char>) -> Seq<char> {
    if trim(text_concat(link)).len() == 0 { "Attachment for post "@ + post_id } else { trim(text_concat(link)) }
}

/// `atts` are the attachments of the links `links`, in order, for the post `post_id`:
/// links without a target, or whose target gives no address, left out.
pub open spec fn attachments_follow(atts: Seq<Attachment>, links: Seq<Seq<char>>, post_id: Seq<char>) -> bool
    decreases links.len(),
{
    if links.len() == 0 {
        atts.len() == 0
    } else {
        match fragment_first_attr(links.last(), "a"@, "href"@) {
            Some(h) => match attachment_target(h) {
                Some(u) => {
                    &&& atts.len() > 0
                    &&& opt_view(atts.last().name) == Some(attachment_name_of(links.last(), post_id))
                    &&& atts.last().url@ == u
                    &&& atts.last().mime_type is None
                    &&& attachments_follow(atts.drop_last(), links.drop_last(), post_id)
                },
                None => attachments_follow(atts, links.drop_last(), post_id),
            },
            None => attachments_follow(atts, links.drop_last(), post_id),
        }
    }
}

impl EePlugin {
    /// The plugin.
    pub fn new() -> (p: EePlugin)
        ensures
            p == EePlugin,
    {
        EePlugin
    }

    /// The address of the list page `page`.
    pub fn list_page_url(page: u32) -> (out: String)
        ensures
            out@ == BASE_URL@ + LIST_PATH@ + "?page="@ + int_text(page as int),
    {
        let mut out = concat(BASE_URL, LIST_PATH);
        out.append("?page=");
        let n = int_to_text(page as i64);
        out.append(n.as_str());
        out
    }

    /// Reads a post's date (see `ee_date_of`); refused when it is neither form.
    pub fn parse_date_string(date_str: &str) -> (r: Result<Timestamp, PluginError>)
        ensures
            match r {
                Ok(t) => ee_date_of(date_str@) == Some(t.unix_nanos as int) && t.offset_seconds == KST_OFFSET_SECONDS,
                Err(e) => ee_date_of(date_str@) is None && (e matches PluginError::Parse { message, .. }
                    && message@ == "Failed to parse date string: "@ + date_str@),
            },
    {
        match kst_date_time_from_text(date_str, DATETIME_FORMAT) {
            Some(t) => Ok(t),
            None => match kst_midnight_from_text(date_str, DATE_FORMAT) {
                Some(t) => Ok(t),
                None => Err(PluginError::parse(IDENTIFIER, concat("Failed to parse date string: ", date_str))),
            },
        }
    }

    /// The post number in a post's address: its first `idx` query value; refused when the
    /// text is no URL or has no such pair.
    pub fn extract_idx_from_url(url_str: &str) -> (r: Result<String, PluginError>)
        ensures
            match r {
                Ok(id) => url_query_pairs(url_str@) matches Some(p) && first_value_for(p, POST_ID_KEY@) == Some(id@),
                Err(e) => (e is Parse) && match url_query_pairs(url_str@) {
                    Some(p) => first_value_for(p, POST_ID_KEY@) is None,
                    None => true,
                },
            },
    {
        match query_pairs_of(url_str) {
            None => Err(PluginError::parse(IDENTIFIER, concat("Failed to parse URL for idx extraction ", url_str))),
            Some(pairs) => match find_pair_value(&pairs, POST_ID_KEY) {
                Some(v) => Ok(v),
                None => Err(PluginError::parse(IDENTIFIER, concat("Could not find 'idx' in URL: ", url_str))),
            },
        }
    }

    /// Reads a list page: its items (see `list_items_follow`), and whether a next page is
    /// linked.
    pub fn parse_list_page(html: &str) -> (r: (Vec<EeListItem>, bool))
        ensures
            list_items_follow(r.0@, first_matches_in_each(html@, POST_ITEM_SELECTOR@, POST_LINK_SELECTOR@)),
            r.1 == (document_matches(html@, NEXT_PAGE_SELECTOR@).len() > 0),
    {
        let links = first_in_each(html, POST_ITEM_SELECTOR, POST_LINK_SELECTOR);
        let ghost ls = opt_views(links@);
        let mut items: Vec<EeListItem> = Vec::new();
        let mut i: usize = 0;
        while i < links.len()
            invariant
                i <= links.len(),
                ls == opt_views(links@),
                list_items_follow(items@, ls.take(i as int)),
            decreases links.len() - i,
        {
            proof {
                assert(ls.take(i + 1).drop_last() == ls.take(i as int));
                assert(ls.take(i + 1).last() == opt_view(links@[i as int]));
            }
            let ghost before = items@;
            match &links[i] {
                Some(l) => match first_attr_in_fragment(l.as_str(), "a", "href") {
                    Some(h) => {
                        let text = text_of_element(l.as_str());
                        let title = trim_str(text.as_str());
                        if title.as_str().unicode_len() > 0 {
                            let relative_url = trim_str(h.as_str());
                            items.push(EeListItem { relative_url, title_on_list: title });
                            proof {
                                assert(items@.drop_last() == before);
                            }
                        }
                    },
                    None => {},
                },
                None => {},
            }
            i += 1;
        }
        proof {
            assert(ls.take(ls.len() as int) == ls);
        }
        let next = select_in_document(html, NEXT_PAGE_SELECTOR);
        proof {
            assert(next@.len() == document_matches(html@, NEXT_PAGE_SELECTOR@).len());
        }
        (items, next.len() > 0)
    }

    /// The address and the number of the post that a list item links to; refused when the
    /// address does not resolve or has no number.
    pub fn view_target(item: &EeListItem) -> (r: Result<(String, String), PluginError>)
        ensures
            match r {
                Ok((url, id)) => full_url_of(BASE_URL@, item.relative_url@) == Some(url@)
                    && (url_query_pairs(url@) matches Some(p) && first_value_for(p, POST_ID_KEY@) == Some(id@)),
                Err(_) => match full_url_of(BASE_URL@, item.relative_url@) {
                    None => true,
                    Some(u) => match url_query_pairs(u) {
                        Some(p) => first_value_for(p, POST_ID_KEY@) is None,
                        None => true,
                    },
                },
            },
    {
        let url = full_url(BASE_URL, item.relative_url.as_str())?;
        let id = Self::extract_idx_from_url(url.as_str())?;
        Ok((url, id))
    }

    /// Whether the crawl stops before another post: `posts_limit` posts are crawled, and
    /// the limit is not zero.
    pub fn limit_reached(crawled: usize, posts_limit: u32) -> (b: bool)
        ensures
            b == (crawled >= posts_limit && posts_limit > 0),
    {
        crawled >= posts_limit as usize && posts_limit > 0
    }

    /// Whether the crawl reads the list page after `page`: the page gave posts or was the
    /// first, and it links a next page.
    pub fn reads_next_page(found_on_page: usize, page: u32, has_next_page: bool) -> (b: bool)
        ensures
            b == (!(found_on_page == 0 && page > 1) && has_next_page),
    {
        !(found_on_page == 0 && page > 1) && has_next_page
    }

    /// The arguments of a download link (see `download_params`).
    pub fn download_arguments(href: &str) -> (out: Vec<String>)
        ensures
            views(out@) == download_params(href@),
    {
        let v = chars_of(href);
        let a = remove_text(&v, &chars_of(DOWNLOAD_CALL_OPEN));
        let b = remove_text(&a, &chars_of(")"));
        let parts = split_at_char(&b, ',');
        let ghost ps = parts@.map_values(|p: Vec<char>| p@);
        let mut out: Vec<String> = Vec::new();
        let mut i: usize = 0;
        while i < parts.len()
            invariant
                i <= parts.len(),
                ps == parts@.map_values(|p: Vec<char>| p@),
                views(out@) == ps.take(i as int).map_values(|p: Seq<char>| trim_char(trim(p), '\'')),
            decreases parts.len() - i,
        {
            let t = trimmed_copy(&parts[i]);
            let q = trim_matches_char(&t, '\'');
            let s = string_of(&q);
            let ghost before = out@;
            out.push(s);
            proof {
                assert(ps[i as int] == parts@[i as int]@);
                assert(views(out@) =~= views(before).push(s@));
                assert(ps.take(i + 1).map_values(|p: Seq<char>| trim_char(trim(p), '\''))
                    =~= ps.take(i as int).map_values(|p: Seq<char>| trim_char(trim(p), '\'')).push(trim_char(trim(ps[i as int]), '\'')));
            }
            i += 1;
        }
        proof {
            assert(ps.take(ps.len() as int) == ps);
        }
        out
    }

    /// The address of an attachment link's target (see `attachment_target`).
    pub fn attachment_url(href: &str) -> (r: Option<String>)
        ensures
            opt_view(r) == attachment_target(href@),
    {
        if has_prefix(&chars_of(href), &chars_of(DOWNLOAD_CALL)) {
            let p = Self::download_arguments(href);
            if p.len() == 3 {
                let mut out = concat(BASE_URL, "/module/board/download.php?boardid=");
                out.append(p[0].as_str());
                out.append("&b_idx=");
                out.append(p[1].as_str());
                out.append("&idx=");
                out.append(p[2].as_str());
                proof {
                    assert(views(p@)[0] == p@[0]@ && views(p@)[1] == p@[1]@ && views(p@)[2] == p@[2]@);
                }
                return Some(out);
            }
        }
        match full_url(BASE_URL, href) {
            Ok(u) => Some(u),
            Err(_) => None,
        }
    }

    /// The attachments of a post page's links for the post `post_id` (see
    /// `attachments_follow`).
    fn attachments_of(links: &Vec<String>, post_id: &str) -> (atts: Vec<Attachment>)
        ensures
            attachments_follow(atts@, views(links@), post_id@),
    {
        let ghost ls = views(links@);
        let mut atts: Vec<Attachment> = Vec::new();
        let mut i: usize = 0;
        while i < links.len()
            invariant
                i <= links.len(),
                ls == views(links@),
                attachments_follow(atts@, ls.take(i as int), post_id@),
            decreases links.len() - i,
        {
            proof {
                assert(ls.take(i + 1).drop_last() == ls.take(i as int));
                assert(ls.take(i + 1).last() == links@[i as int]@);
            }
            let ghost before = atts@;
            match first_attr_in_fragment(links[i].as_str(), "a", "href") {
                Some(h) => match Self::attachment_url(h.as_str()) {
                    Some(url) => {
                        let text = text_of_element(links[i].as_str());
                        let trimmed = trim_str(text.as_str());
                        let name = if trimmed.as_str().unicode_len() == 0 {
                            concat("Attachment for post ", post_id)
                        } else {
                            trimmed
                        };
                        atts.push(Attachment { name: Some(name), url, mime_type: None });
                        proof {
                            assert(atts@.drop_last() == before);
                        }
                    },
                    None => {},
                },
                None => {},
            }
            i += 1;
        }
        proof {
            assert(ls.take(ls.len() as int) == ls);
        }
        atts
    }

    /// The trimmed text of the first element that matches the selector, when it is not
    /// empty (see `nonempty_text`).
    fn extract_text(html: &str, selector: &str) -> (r: Option<String>)
        ensures
            opt_view(r) == nonempty_text(html@, selector@),
    {
        let m = select_in_document(html, selector);
        if m.len() == 0 {
            return None;
        }
        proof {
            assert(m@[0]@ == document_matches(html@, selector@)[0]);
        }
        let text = text_of_element(m[0].as_str());
        let t = trim_str(text.as_str());
        if t.as_str().unicode_len() > 0 { Some(t) } else { None }
    }

    /// Reads the page of the post `post_id` at `post_url`, listed as `item`: its title
    /// (or the list's), its author (or the school's name), its date, its content and its
    /// attachments. Refused when the page has no date, no content, or a date that does not
    /// read.
    pub fn parse_view_page(html: &str, item: &EeListItem, post_url: String, post_id: String) -> (r: Result<SsufidPost, PluginError>)
        ensures
            r is Ok <==> ((nonempty_text(html@, DATE_VIEW_SELECTOR@) matches Some(d) && ee_date_of(d) is Some)
                && nonempty_inner_html(html@, CONTENT_VIEW_SELECTOR@) is Some),
            r matches Err(e) ==> (e is Parse),
            r matches Ok(p) ==> {
                &&& p.id == post_id
                &&& p.url == post_url
                &&& p.title@ == (match nonempty_text(html@, TITLE_VIEW_SELECTOR@) { Some(t) => t, None => item.title_on_list@ })
                &&& opt_view(p.author) == Some(match nonempty_text(html@, AUTHOR_VIEW_SELECTOR@) { Some(a) => a, None => DEFAULT_AUTHOR@ })
                &&& p.content@ == nonempty_inner_html(html@, CONTENT_VIEW_SELECTOR@)->0
                &&& ee_date_of(nonempty_text(html@, DATE_VIEW_SELECTOR@)->0) == Some(p.created_at.unix_nanos as int)
                &&& p.created_at.offset_seconds == KST_OFFSET_SECONDS
                &&& p.updated_at is None
                &&& attachments_follow(p.attachments@, document_matches(html@, ATTACHMENT_SELECTOR@), post_id@)
                &&& p.description is None
                &&& p.category@.len() == 0
                &&& p.thumbnail is None
                &&& p.metadata is None
            },
    {
        let title = match Self::extract_text(html, TITLE_VIEW_SELECTOR) {
            Some(t) => t,
            None => item.title_on_list.clone(),
        };
        let author = match Self::extract_text(html, AUTHOR_VIEW_SELECTOR) {
            Some(a) => a,
            None => String::from_str(DEFAULT_AUTHOR),
        };
        let date_text = match Self::extract_text(html, DATE_VIEW_SELECTOR) {
            Some(d) => d,
            None => return Err(PluginError::parse(IDENTIFIER, String::from_str("Could not find date string on view page"))),
        };
        let content = match first_inner_html_in_document(html, CONTENT_VIEW_SELECTOR) {
            Some(h) => {
                let t = trim_str(h.as_str());
                if t.as_str().unicode_len() > 0 {
                    t
                } else {
                    return Err(PluginError::parse(IDENTIFIER, String::from_str("Could not find content on view page")));
                }
            },
            None => return Err(PluginError::parse(IDENTIFIER, String::from_str("Could not find content on view page"))),
        };
        let links = select_in_document(html, ATTACHMENT_SELECTOR);
        let attachments = Self::attachments_of(&links, post_id.as_str());
        let created_at = Self::parse_date_string(date_text.as_str())?;
        Ok(SsufidPost {
            id: post_id,
            title,
            author: Some(author),
            content,
            url: post_url,
            created_at,
            updated_at: None,
            attachments,
            description: None,
            category: Vec::new(),
            thumbnail: None,
            metadata: None,
        })
    }
}

} // verus!

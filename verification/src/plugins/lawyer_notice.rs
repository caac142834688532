//! The international law department's notices as its public list shows them: the
//! addresses of list pages, reading list pages and post pages, and the decisions of the
//! crawl.

use vstd::prelude::*;
use crate::datetime::{CivilDate, parsed_iso8601_date, parse_iso8601_date, instant_of_local, timestamp_at, iso8601_date_error, iso8601_error_text};
use crate::error::{PluginError, concat};
use crate::html::{
    cell_at, document_matches, document_attrs, first_matches_in_each, opt_views, text_concat, first_inner_html,
    first_text, fragment_first_attr, joined_url, url_parses, url_parse_outcome, url_scheme_and_host,
    attrs_in_document, first_in_each, text_of_element, select_in_document, first_inner_html_in_document,
    first_text_of, first_attr_in_fragment, join_url, is_url, parse_url, scheme_and_host,
};
use crate::post::{Attachment, SsufidPost, opt_view};
use crate::text::{trim, trim_str, chars_of, string_of, views, int_text, int_to_text, first_piece, first_piece_of};

verus! {

/// The plugin's identifier.
pub const IDENTIFIER: &'static str = "lawyer.ssu.ac.kr";
/// The site's title, also the author of posts that name none of their own.
pub const TITLE: &'static str = "숭실대학교 국제법무학과";
/// The site's description.
pub const DESCRIPTION: &'static str = "숭실대학교 국제법무학과 공지사항을 제공합니다.";
/// The address of the notice list.
pub const BASE_URL: &'static str = "http://lawyer.ssu.ac.kr/web/05/notice_list.do";
/// The address of a post's page, before its number.
pub const VIEW_URL_BASE: &'static str = "http://lawyer.ssu.ac.kr/web/05/notice_view.do";
/// How many posts a list page shows.
pub const POSTS_PER_PAGE: u32 = 15;
/// The elements of a list page that may hold a post.
pub const POST_ROW_SELECTOR: &'static str = "div";
/// A post's title link in the list.
pub const TITLE_LINK_SELECTOR: &'static str = "p.b-title > a";
/// A post's date in the list.
pub const DATE_SELECTOR: &'static str = "p.b-date";
/// A post page's title.
pub const POST_TITLE_SELECTOR: &'static str = "dl.board_view_info_title > dd";
/// A post page's author.
pub const POST_AUTHOR_SELECTOR: &'static str = "ul.board_view_info_user > li:nth-child(1) > dl > dd";
/// A post page's content.
pub const POST_CONTENT_SELECTOR: &'static str = "div#board_content";
/// A post page's attachment links.
pub const POST_ATTACHMENT_SELECTOR: &'static str = "div.board_view_file > ul > li > a";
/// The author that the site shows for every post, which stands for none.
pub const GENERIC_AUTHOR: &'static str = "법학과";

/// The international law department plugin, reading the public list.
pub struct LawyerPlugin;

/// Why a page of the site could not be had or read.
#[derive(Clone, Debug)]
pub enum LawyerPluginError {
    RequestError(String),
    UrlParseError(String),
    HtmlParsingError(String),
    SelectorError(String),
    DateParseError(String),
    MissingFieldError(String),
}

/// The message of an error.
pub open spec fn lawyer_error_message(e: LawyerPluginError) -> Seq<char> {
    match e {
        LawyerPluginError::RequestError(s) => "Network request failed: "@ + s@,
        LawyerPluginError::UrlParseError(s) => "URL parsing failed: "@ + s@,
        LawyerPluginError::HtmlParsingError(s) => "HTML parsing error: "@ + s@,
        LawyerPluginError::SelectorError(s) => "Selector error: "@ + s@,
        LawyerPluginError::DateParseError(s) => "Date parsing failed: "@ + s@,
        LawyerPluginError::MissingFieldError(s) => "Mandatory field missing: "@ + s@,
    }
}

impl LawyerPluginError {
    /// The error's message.
    pub fn message(&self) -> (m: String)
        ensures
            m@ == lawyer_error_message(*self),
    {
        match self {
            LawyerPluginError::RequestError(s) => concat("Network request failed: ", s.as_str()),
            LawyerPluginError::UrlParseError(s) => concat("URL parsing failed: ", s.as_str()),
            LawyerPluginError::HtmlParsingError(s) => concat("HTML parsing error: ", s.as_str()),
            LawyerPluginError::SelectorError(s) => concat("Selector error: ", s.as_str()),
            LawyerPluginError::DateParseError(s) => concat("Date parsing failed: ", s.as_str()),
            LawyerPluginError::MissingFieldError(s) => concat("Mandatory field missing: ", s.as_str()),
        }
    }

    /// The error as the plugin reports it: of the plugin's own kind, with the error's
    /// message.
    pub fn into_plugin_error(self) -> (e: PluginError)
        ensures
            e matches PluginError::Custom { plugin, kind, message } && plugin@ == IDENTIFIER@ && kind@ == IDENTIFIER@
                && message@ == lawyer_error_message(self),
    {
        let m = self.message();
        PluginError::custom(IDENTIFIER, String::from_str(IDENTIFIER), m)
    }
}

/// A post as the list shows it.
#[derive(Clone, Debug)]
pub struct LawyerPostMetadata {
    pub id: String,
    pub url: String,
    pub title: String,
    pub date_str: String,
}

/// The fields of a listed post: number, address, title and date.
pub open spec fn meta_fields(m: LawyerPostMetadata) -> (Seq<char>, Seq<char>, Seq<char>, Seq<char>) {
    (m.id@, m.url@, m.title@, m.date_str@)
}

/// The address of list page `page`.
pub open spec fn page_url_of(page: int) -> Seq<char> {
    BASE_URL@ + "?currPage="@ + int_text(page)
}

/// A text, if it is not empty.
pub open spec fn non_empty(s: Seq<char>) -> Option<Seq<char>> {
    if s.len() > 0 { Some(s) } else { None }
}

/// What element `i` of a list page gives: a post when it has an `id` that is not blank,
/// a title link and a date with text, and the address made from its number parses.
pub open spec fn row_post(html: Seq<char>, i: int) -> Option<(Seq<char>, Seq<char>, Seq<char>, Seq<char>)> {
    match cell_at(document_attrs(html, POST_ROW_SELECTOR@, "id"@), i) {
        None => None,
        Some(raw_id) => {
            let id = trim(raw_id);
            if id.len() == 0 {
                None
            } else {
                match cell_at(first_matches_in_each(html, POST_ROW_SELECTOR@, TITLE_LINK_SELECTOR@), i) {
                    None => None,
                    Some(t) => match cell_at(first_matches_in_each(html, POST_ROW_SELECTOR@, DATE_SELECTOR@), i) {
                        None => None,
                        Some(d) => {
                            let title = trim(text_concat(t));
                            let date = trim(text_concat(d));
                            if title.len() == 0 || date.len() == 0 {
                                None
                            } else {
                                match url_parse_outcome(VIEW_URL_BASE@ + "?board_seq="@ + id) {
                                    Ok(u) => Some((id, u, title, date)),
                                    Err(_) => None,
                                }
                            }
                        },
                    },
                }
            }
        },
    }
}

/// `metas` are the posts of the first `n` elements, in order.
pub open spec fn rows_follow(metas: Seq<LawyerPostMetadata>, html: Seq<char>, n: int) -> bool
    decreases n,
{
    if n <= 0 {
        metas.len() == 0
    } else {
        match row_post(html, n - 1) {
            Some(v) => metas.len() > 0 && meta_fields(metas.last()) == v && rows_follow(metas.drop_last(), html, n - 1),
            None => rows_follow(metas, html, n - 1),
        }
    }
}

/// The number of elements of a list page that may hold a post.
pub open spec fn row_count(html: Seq<char>) -> int {
    document_attrs(html, POST_ROW_SELECTOR@, "id"@).len() as int
}

/// The address against which a post's attachment links are resolved: the scheme and host
/// of the post's address, when they make an address, else the list's address.
pub open spec fn attachment_base(scheme: Seq<char>, host: Seq<char>) -> Seq<char> {
    let origin = scheme + "://"@ + host;
    if url_parses(origin) { origin } else { BASE_URL@ }
}

/// The name of an attachment link with the text `t`: the trimmed text before its first
/// bracket.
pub open spec fn attachment_name(t: Seq<char>) -> Seq<char> {
    trim(first_piece(trim(t), "("@))
}

/// The attachment that an attachment link gives, resolved against `base`: none when it
/// has no target, its target does not resolve or its name is empty.
pub open spec fn attachment_of(base: Seq<char>, l: Seq<char>) -> Option<(Seq<char>, Seq<char>)> {
    match fragment_first_attr(l, "a"@, "href"@) {
        None => None,
        Some(h) => match joined_url(base, h) {
            None => None,
            Some(u) => if attachment_name(text_concat(l)).len() > 0 { Some((attachment_name(text_concat(l)), u)) } else { None },
        },
    }
}

/// `atts` are the attachments that the links `links` give, in order.
pub open spec fn attachments_follow(atts: Seq<Attachment>, base: Seq<char>, links: Seq<Seq<char>>) -> bool
    decreases links.len(),
{
    if links.len() == 0 {
        atts.len() == 0
    } else {
        match attachment_of(base, links.last()) {
            Some((name, u)) => {
                &&& atts.len() > 0
                &&& opt_view(atts.last().name) == Some(name)
                &&& atts.last().url@ == u
                &&& atts.last().mime_type is None
                &&& attachments_follow(atts.drop_last(), base, links.drop_last())
            },
            None => attachments_follow(atts, base, links.drop_last()),
        }
    }
}

/// The author of a post page: its author field, when it is neither empty nor the generic
/// one, else the site's title.
pub open spec fn author_of(html: Seq<char>) -> Seq<char> {
    match first_text(html, POST_AUTHOR_SELECTOR@) {
        Some(a) => if a.len() > 0 && a != GENERIC_AUTHOR@ { a } else { TITLE@ },
        None => TITLE@,
    }
}

impl LawyerPlugin {
    /// The plugin.
    pub fn new() -> (p: LawyerPlugin)
        ensures
            p == LawyerPlugin,
    {
        LawyerPlugin
    }

    /// The address of list page `page`, as the `url` crate reads it; refused when it does
    /// not parse.
    pub fn page_url(page: u32) -> (r: Result<String, LawyerPluginError>)
        ensures
            match r {
                Ok(u) => url_parse_outcome(page_url_of(page as int)) == Ok::<Seq<char>, Seq<char>>(u@),
                Err(e) => url_parse_outcome(page_url_of(page as int)) matches Err(m)
                    && e == LawyerPluginError::UrlParseError(e->UrlParseError_0) && e->UrlParseError_0@ == m,
            },
    {
        let mut s = concat(BASE_URL, "?currPage=");
        s.append(int_to_text(page as i64).as_str());
        match parse_url(s.as_str()) {
            Ok(u) => Ok(u),
            Err(m) => Err(LawyerPluginError::UrlParseError(m)),
        }
    }

    /// Reads element `i` of a list page (see `row_post`).
    fn parse_row(i: usize, ids: &Vec<Option<String>>, titles: &Vec<Option<String>>, dates: &Vec<Option<String>>,
        html: Ghost<Seq<char>>) -> (r: Option<LawyerPostMetadata>)
        requires
            i < ids@.len(),
            opt_views(ids@) == document_attrs(html@, POST_ROW_SELECTOR@, "id"@),
            opt_views(titles@) == first_matches_in_each(html@, POST_ROW_SELECTOR@, TITLE_LINK_SELECTOR@),
            opt_views(dates@) == first_matches_in_each(html@, POST_ROW_SELECTOR@, DATE_SELECTOR@),
        ensures
            match r {
                Some(m) => row_post(html@, i as int) == Some(meta_fields(m)),
                None => row_post(html@, i as int) is None,
            },
    {
        proof {
            assert(opt_views(ids@)[i as int] == opt_view(ids@[i as int]));
        }
        let raw = match &ids[i] {
            Some(r) => r,
            None => return None,
        };
        let id = trim_str(raw.as_str());
        if id.as_str().unicode_len() == 0 {
            return None;
        }
        if i >= titles.len() || i >= dates.len() {
            return None;
        }
        proof {
            assert(opt_views(titles@)[i as int] == opt_view(titles@[i as int]));
            assert(opt_views(dates@)[i as int] == opt_view(dates@[i as int]));
        }
        let t = match &titles[i] {
            Some(t) => t,
            None => return None,
        };
        let d = match &dates[i] {
            Some(d) => d,
            None => return None,
        };
        let title = trim_str(text_of_element(t.as_str()).as_str());
        let date_str = trim_str(text_of_element(d.as_str()).as_str());
        if title.as_str().unicode_len() == 0 || date_str.as_str().unicode_len() == 0 {
            return None;
        }
        let mut address = concat(VIEW_URL_BASE, "?board_seq=");
        address.append(id.as_str());
        match parse_url(address.as_str()) {
            Ok(url) => Some(LawyerPostMetadata { id, url, title, date_str }),
            Err(_) => None,
        }
    }

    /// Reads a list page: the posts of its elements (see `row_post`), in order.
    pub fn parse_list_page(html: &str) -> (metas: Vec<LawyerPostMetadata>)
        ensures
            rows_follow(metas@, html@, row_count(html@)),
    {
        let ids = attrs_in_document(html, POST_ROW_SELECTOR, "id");
        let titles = first_in_each(html, POST_ROW_SELECTOR, TITLE_LINK_SELECTOR);
        let dates = first_in_each(html, POST_ROW_SELECTOR, DATE_SELECTOR);
        let mut metas: Vec<LawyerPostMetadata> = Vec::new();
        let mut i: usize = 0;
        while i < ids.len()
            invariant
                i <= ids@.len(),
                opt_views(ids@) == document_attrs(html@, POST_ROW_SELECTOR@, "id"@),
                opt_views(titles@) == first_matches_in_each(html@, POST_ROW_SELECTOR@, TITLE_LINK_SELECTOR@),
                opt_views(dates@) == first_matches_in_each(html@, POST_ROW_SELECTOR@, DATE_SELECTOR@),
                rows_follow(metas@, html@, i as int),
            decreases ids@.len() - i,
        {
            let ghost before = metas@;
            match Self::parse_row(i, &ids, &titles, &dates, Ghost(html@)) {
                Some(m) => {
                    metas.push(m);
                    proof {
                        assert(metas@.drop_last() == before);
                    }
                },
                None => {},
            }
            i += 1;
        }
        metas
    }

    /// The attachments of a post page resolved against `base` (see `attachments_follow`).
    fn attachments_of(base: &str, links: &Vec<String>) -> (atts: Vec<Attachment>)
        ensures
            attachments_follow(atts@, base@, views(links@)),
    {
        let ghost ls = views(links@);
        let mut atts: Vec<Attachment> = Vec::new();
        let mut i: usize = 0;
        while i < links.len()
            invariant
                i <= links.len(),
                ls == views(links@),
                attachments_follow(atts@, base@, ls.take(i as int)),
            decreases links.len() - i,
        {
            proof {
                assert(ls.take(i + 1).drop_last() == ls.take(i as int));
                assert(ls.take(i + 1).last() == links@[i as int]@);
                reveal_strlit("(");
            }
            let ghost before = atts@;
            match first_attr_in_fragment(links[i].as_str(), "a", "href") {
                Some(h) => match join_url(base, h.as_str()) {
                    Some(u) => {
                        let text = trim_str(text_of_element(links[i].as_str()).as_str());
                        let tv = chars_of(text.as_str());
                        let open = chars_of("(");
                        let name = trim_str(string_of(&first_piece_of(&tv, &open)).as_str());
                        if name.as_str().unicode_len() > 0 {
                            atts.push(Attachment { name: Some(name), url: u, mime_type: None });
                            proof {
                                assert(atts@.drop_last() == before);
                            }
                        }
                    },
                    None => {},
                },
                None => {},
            }
            i += 1;
        }
        proof {
            assert(ls.take(ls.len() as int) == ls);
        }
        atts
    }

    /// Reads the post page of the post listed as `meta`: refused when the post's address
    /// does not parse or its listed date is no ISO 8601 date. Its title (else the listed
    /// one), its author (see `author_of`), its content (empty when missing), its
    /// attachments resolved against its address's scheme and host (see
    /// `attachment_base`), and its date at midnight, UTC.
    pub fn parse_post_page(html: &str, meta: &LawyerPostMetadata) -> (r: Result<SsufidPost, LawyerPluginError>)
        ensures
            match r {
                Err(e) => {
                    ||| (url_scheme_and_host(meta.url@) matches Err(m) && e == LawyerPluginError::UrlParseError(e->UrlParseError_0)
                            && e->UrlParseError_0@ == m)
                    ||| (url_scheme_and_host(meta.url@) is Ok && parsed_iso8601_date(meta.date_str@) is None
                            && e == LawyerPluginError::DateParseError(e->DateParseError_0) && e->DateParseError_0@ == iso8601_date_error(meta.date_str@))
                },
                Ok(p) => {
                    &&& parsed_iso8601_date(meta.date_str@) matches Some(d)
                    &&& p.created_at.unix_nanos == instant_of_local(d.0, d.1, d.2, 0, 0, 0, 0)
                    &&& p.created_at.offset_seconds == 0
                    &&& p.id == meta.id
                    &&& p.url == meta.url
                    &&& p.title@ == (match first_text(html@, POST_TITLE_SELECTOR@) {
                        Some(t) => if t.len() > 0 { t } else { meta.title@ },
                        None => meta.title@,
                    })
                    &&& opt_view(p.author) == Some(author_of(html@))
                    &&& p.content@ == (match first_inner_html(html@, POST_CONTENT_SELECTOR@) { Some(c) => c, None => Seq::empty() })
                    &&& url_scheme_and_host(meta.url@) matches Ok((scheme, host))
                    &&& attachments_follow(p.attachments@, attachment_base(scheme, host),
                        document_matches(html@, POST_ATTACHMENT_SELECTOR@))
                    &&& p.category@.len() == 0
                    &&& p.description is None
                    &&& p.updated_at is None
                    &&& p.thumbnail is None
                    &&& p.metadata is None
                },
            },
    {
        let (scheme, host) = match scheme_and_host(meta.url.as_str()) {
            Ok(p) => p,
            Err(m) => return Err(LawyerPluginError::UrlParseError(m)),
        };
        let title = match first_text_of(html, POST_TITLE_SELECTOR) {
            Some(t) => if t.as_str().unicode_len() > 0 { t } else { meta.title.clone() },
            None => meta.title.clone(),
        };
        let author = match first_text_of(html, POST_AUTHOR_SELECTOR) {
            Some(a) => if a.as_str().unicode_len() > 0 && a != String::from_str(GENERIC_AUTHOR) { a } else { String::from_str(TITLE) },
            None => String::from_str(TITLE),
        };
        let content = match first_inner_html_in_document(html, POST_CONTENT_SELECTOR) {
            Some(c) => c,
            None => String::new(),
        };
        let mut origin = concat(scheme.as_str(), "://");
        origin.append(host.as_str());
        let base = if is_url(origin.as_str()) { origin } else { String::from_str(BASE_URL) };
        let links = select_in_document(html, POST_ATTACHMENT_SELECTOR);
        let attachments = Self::attachments_of(base.as_str(), &links);
        let created_at = match parse_iso8601_date(meta.date_str.as_str()) {
            Some(d) => timestamp_at(d, 0, 0, 0, 0),
            None => return Err(LawyerPluginError::DateParseError(iso8601_error_text(meta.date_str.as_str()))),
        };
        Ok(SsufidPost {
            id: meta.id.clone(),
            url: meta.url.clone(),
            title,
            author: Some(author),
            description: None,
            category: Vec::new(),
            created_at,
            updated_at: None,
            thumbnail: None,
            content,
            attachments,
            metadata: None,
        })
    }

    /// How many list pages a crawl for `posts_limit` posts reads: the limit over the
    /// posts of a page, rounded up.
    pub fn pages_to_crawl(posts_limit: u32) -> (n: u32)
        ensures
            n * POSTS_PER_PAGE >= posts_limit,
            n == 0 || (n - 1) * POSTS_PER_PAGE < posts_limit,
    {
        let n = ((posts_limit as u64 + 14) / 15) as u32;
        assert(n * 15 >= posts_limit && (n == 0 || (n - 1) * 15 < posts_limit)) by (nonlinear_arith)
            requires
                n == (posts_limit + 14) / 15,
        ;
        n
    }

    /// Adds a list page's posts to those listed, in order; false, adding nothing, when the
    /// page is empty and a page's worth of posts are listed, which ends the listing.
    pub fn add_page(all: &mut Vec<LawyerPostMetadata>, page: Vec<LawyerPostMetadata>) -> (go_on: bool)
        ensures
            go_on == !(page@.len() == 0 && old(all)@.len() >= POSTS_PER_PAGE),
            go_on ==> final(all)@ == old(all)@ + page@,
            !go_on ==> final(all)@ == old(all)@,
    {
        if page.len() == 0 && all.len() >= POSTS_PER_PAGE as usize {
            return false;
        }
        let mut page = page;
        all.append(&mut page);
        true
    }

    /// The first `posts_limit` posts listed.
    pub fn limit_listing(all: Vec<LawyerPostMetadata>, posts_limit: u32) -> (r: Vec<LawyerPostMetadata>)
        ensures
            r@ == all@.take(if all@.len() <= posts_limit { all@.len() as int } else { posts_limit as int }),
    {
        let mut all = all;
        all.truncate(posts_limit as usize);
        all
    }
}

} // verus!

//! The dormitory's notices: decoding its EUC-KR pages, reading its list pages and post
//! pages, and the decisions of its crawl.

use vstd::prelude::*;
use crate::datetime::{Timestamp, parsed_date_time, kst_instant, KST_OFFSET_SECONDS, kst_date_time_from_text};
use crate::error::{PluginError, concat};
use crate::html::{cell_at, 
    document_matches, fragment_first_attr, first_matches_in_each, opt_views, text_concat, select_in_document,
    first_attr_in_fragment, first_in_each, text_of_element, fragment_text_nodes, fragment_texts,
};
use crate::post::{SsufidPost, opt_view};
use crate::text::{
    trim, trim_str, chars_of, string_of, trimmed_copy, int_text, int_to_text, split_char, split_at_char,
    first_index_of, find_char, copy_range, second_piece, second_piece_of, views,
};

verus! {

/// The plugin's identifier.
pub const IDENTIFIER: &'static str = "ssudorm.ssu.ac.kr";
/// The site's title.
pub const TITLE: &'static str = "숭실대학교 기숙사";
/// The site's description.
pub const DESCRIPTION: &'static str = "숭실대학교 기숙사 홈페이지의 공지사항을 제공합니다.";
/// The address of the notice list.
pub const LIST_PAGE_URL: &'static str = "https://ssudorm.ssu.ac.kr:444/SShostel/mall_main.php?viewform=B0001_noticeboard_list&board_no=1";
/// The address of a post's page, before its number.
pub const POST_VIEW_URL_BASE: &'static str = "https://ssudorm.ssu.ac.kr:444/SShostel/mall_main.php?viewform=B0001_noticeboard_view&board_no=1";
/// The rows of a list page.
pub const LIST_ITEM_SELECTOR: &'static str = "table[bordercolor=\"#CCCCCC\"][frame=\"hsides\"] > tbody > tr";
/// A row's link to its post.
pub const TITLE_IN_LIST_SELECTOR: &'static str = "td:nth-child(2) > a[href*='javascript:viewContent' i]";
/// A row's date cell.
pub const DATE_IN_LIST_SELECTOR: &'static str = "td:nth-child(5)";
/// A post page's title.
pub const TITLE_SELECTOR: &'static str = "td[bgcolor=\"#edf8fc\"]";
/// A post page's cells of author and date.
pub const METADATA_SELECTOR: &'static str = "td[height=\"38\"] > table > tbody > tr > td";
/// A post page's content.
pub const CONTENT_SELECTOR: &'static str = "td.descript";
/// The format of a post's date and time.
pub const DATETIME_FORMAT: &'static str = "[year]-[month]-[day] [hour]:[minute]";
/// How many posts a list page shows.
pub const POSTS_PER_PAGE: u32 = 15;
/// How many rows of a list page come before its posts.
pub const HEADER_ROWS: usize = 2;
/// The list page after which a crawl stops.
pub const MAX_PAGES_TO_TRY: u32 = 50;

/// The text that the `encoding_rs` crate decodes from EUC-KR bytes.
pub uninterp spec fn euc_kr_text(bytes: Seq<u8>) -> Seq<char>;

/// Decodes EUC-KR bytes (`EUC_KR.decode`, with byte-order-mark sniffing and malformed
/// sequences replaced). Bytes that are all ASCII carry no byte-order mark and decode to
/// the same characters.
#[verifier::external_body]
pub(crate) fn decode_euc_kr_bytes(bytes: &[u8]) -> (out: String)
    ensures
        out@ == euc_kr_text(bytes@),
        (forall|i: int| 0 <= i < bytes@.len() ==> bytes@[i] < 0x80) ==> out@ == bytes@.map_values(|b: u8| b as char),
{
    encoding_rs::EUC_KR.decode(bytes).0.into_owned()
}

/// The dormitory plugin.
pub struct SsuDormPlugin;

/// Why a post could not be read.
#[derive(Clone, Debug)]
pub enum SsuDormError {
    PostIdParse(String),
    PostIdNotFound(String),
    TitleNotFound(String),
    ContentNotFound(String),
    DateParse(String),
    AuthorDateStringParse(String),
}

/// The kind of an error.
pub open spec fn dorm_error_kind(e: SsuDormError) -> Seq<char> {
    match e {
        SsuDormError::PostIdParse(_) => "PostIdParse"@,
        SsuDormError::PostIdNotFound(_) => "PostIdNotFound"@,
        SsuDormError::TitleNotFound(_) => "TitleNotFound"@,
        SsuDormError::ContentNotFound(_) => "ContentNotFound"@,
        SsuDormError::DateParse(_) => "DateParse"@,
        SsuDormError::AuthorDateStringParse(_) => "AuthorDateStringParse"@,
    }
}

/// The message of an error.
pub open spec fn dorm_error_message(e: SsuDormError) -> Seq<char> {
    match e {
        SsuDormError::PostIdParse(s) => "Failed to parse post ID from onclick attribute: "@ + s@,
        SsuDormError::PostIdNotFound(s) => "Post ID not found in onclick attribute: "@ + s@,
        SsuDormError::TitleNotFound(s) => "Title not found for post: "@ + s@,
        SsuDormError::ContentNotFound(s) => "Content not found for post: "@ + s@,
        SsuDormError::DateParse(s) => "Date string parsing error: "@ + s@,
        SsuDormError::AuthorDateStringParse(s) => "Author/Date string parsing error: "@ + s@,
    }
}

impl SsuDormError {
    /// The error as the plugin reports it: of its own kind, with its message.
    pub fn into_plugin_error(self) -> (e: PluginError)
        ensures
            e matches PluginError::Custom { plugin, kind, message } && plugin@ == IDENTIFIER@
                && kind@ == dorm_error_kind(self) && message@ == dorm_error_message(self),
    {
        match self {
            SsuDormError::PostIdParse(s) => PluginError::custom(IDENTIFIER, String::from_str("PostIdParse"),
                concat("Failed to parse post ID from onclick attribute: ", s.as_str())),
            SsuDormError::PostIdNotFound(s) => PluginError::custom(IDENTIFIER, String::from_str("PostIdNotFound"),
                concat("Post ID not found in onclick attribute: ", s.as_str())),
            SsuDormError::TitleNotFound(s) => PluginError::custom(IDENTIFIER, String::from_str("TitleNotFound"),
                concat("Title not found for post: ", s.as_str())),
            SsuDormError::ContentNotFound(s) => PluginError::custom(IDENTIFIER, String::from_str("ContentNotFound"),
                concat("Content not found for post: ", s.as_str())),
            SsuDormError::DateParse(s) => PluginError::custom(IDENTIFIER, String::from_str("DateParse"),
                concat("Date string parsing error: ", s.as_str())),
            SsuDormError::AuthorDateStringParse(s) => PluginError::custom(IDENTIFIER, String::from_str("AuthorDateStringParse"),
                concat("Author/Date string parsing error: ", s.as_str())),
        }
    }
}

/// A post as the list page shows it.
#[derive(Clone, Debug)]
pub struct SsuDormPostMetadata {
    pub id: String,
    pub url: String,
    pub title_from_list: String,
    pub date_str_from_list: String,
}

/// `s` split at its quotes and commas.
pub open spec fn quote_comma_pieces(s: Seq<char>) -> Seq<Seq<char>> {
    split_char(s.map_values(|c: char| if c == ',' { '\'' } else { c }), '\'')
}

/// The post number in a link's call: the piece before the last one of the call split at
/// quotes and commas, when there are more than two pieces and it is neither empty nor
/// `null`.
pub open spec fn post_id_in_call(href: Seq<char>) -> Option<Seq<char>> {
    let parts = quote_comma_pieces(href);
    if parts.len() > 2 && parts[parts.len() - 2].len() > 0 && parts[parts.len() - 2] != "null"@ {
        Some(parts[parts.len() - 2])
    } else {
        None
    }
}


/// What the row `i` of a list page gives: its post, when it has a link whose call names
/// a post number.
pub open spec fn row_id(html: Seq<char>, i: int) -> Option<Seq<char>> {
    match cell_at(first_matches_in_each(html, LIST_ITEM_SELECTOR@, TITLE_IN_LIST_SELECTOR@), i) {
        Some(l) => post_id_in_call(match fragment_first_attr(l, "a"@, "href"@) { Some(h) => h, None => Seq::empty() }),
        None => None,
    }
}

/// `m` is the post of the row `i` with the number `id`.
pub open spec fn row_meta_ok(m: SsuDormPostMetadata, html: Seq<char>, i: int, id: Seq<char>) -> bool {
    let l = cell_at(first_matches_in_each(html, LIST_ITEM_SELECTOR@, TITLE_IN_LIST_SELECTOR@), i)->0;
    &&& m.id@ == id
    &&& m.url@ == POST_VIEW_URL_BASE@ + "&idx="@ + id
    &&& m.title_from_list@ == trim(text_concat(l))
    &&& m.date_str_from_list@ == (match cell_at(first_matches_in_each(html, LIST_ITEM_SELECTOR@, DATE_IN_LIST_SELECTOR@), i) {
        Some(d) => trim(text_concat(d)),
        None => Seq::empty(),
    })
}

/// `metas` are the posts of the rows from the third up to `n`, in order, rows without a
/// post left out.
pub open spec fn rows_follow(metas: Seq<SsuDormPostMetadata>, html: Seq<char>, n: int) -> bool
    decreases n,
{
    if n <= HEADER_ROWS {
        metas.len() == 0
    } else {
        match row_id(html, n - 1) {
            Some(id) => {
                &&& metas.len() > 0
                &&& row_meta_ok(metas.last(), html, n - 1, id)
                &&& rows_follow(metas.drop_last(), html, n - 1)
            },
            None => rows_follow(metas, html, n - 1),
        }
    }
}

/// The first text node of an element given by its HTML, if it has one.
pub open spec fn first_text(html: Seq<char>) -> Option<Seq<char>> {
    let t = fragment_text_nodes(html);
    if t.len() > 0 { Some(t[0]) } else { None }
}

/// The text after the first `:` of `s`, if it has one.
pub open spec fn after_colon(s: Seq<char>) -> Option<Seq<char>> {
    let k = first_index_of(s, ':');
    if k < 0 { None } else { Some(s.skip(k + 1)) }
}

/// The author of a post page: the second piece, at colons, of the first text of its first
/// author-and-date cell, trimmed.
pub open spec fn dorm_author_of(html: Seq<char>) -> Option<Seq<char>> {
    let cells = document_matches(html, METADATA_SELECTOR@);
    if cells.len() > 0 {
        match first_text(cells[0]) {
            Some(t) => match second_piece(t, ":"@) {
                Some(a) => Some(trim(a)),
                None => None,
            },
            None => None,
        }
    } else {
        None
    }
}

/// The date text of a post page: what follows the first colon of the first text of its
/// third author-and-date cell, trimmed.
pub open spec fn dorm_date_text_of(html: Seq<char>) -> Option<Seq<char>> {
    let cells = document_matches(html, METADATA_SELECTOR@);
    if cells.len() > 2 {
        match first_text(cells[2]) {
            Some(t) => match after_colon(t) {
                Some(d) => Some(trim(d)),
                None => None,
            },
            None => None,
        }
    } else {
        None
    }
}

/// The HTML of the first element of the document that matches `selector`, if any.
pub open spec fn first_match(html: Seq<char>, selector: Seq<char>) -> Option<Seq<char>> {
    let m = document_matches(html, selector);
    if m.len() > 0 { Some(m[0]) } else { None }
}

/// The text that an error carries.
pub open spec fn dorm_error_payload(e: SsuDormError) -> Seq<char> {
    match e {
        SsuDormError::PostIdParse(s) => s@,
        SsuDormError::PostIdNotFound(s) => s@,
        SsuDormError::TitleNotFound(s) => s@,
        SsuDormError::ContentNotFound(s) => s@,
        SsuDormError::DateParse(s) => s@,
        SsuDormError::AuthorDateStringParse(s) => s@,
    }
}

/// Why a post page is refused for the post listed as `m`, as an error's kind and text;
/// none when it reads. The checks come in order: title, author and date text, date,
/// content.
pub open spec fn dorm_post_failure(html: Seq<char>, m: SsuDormPostMetadata) -> Option<(Seq<char>, Seq<char>)> {
    if first_match(html, TITLE_SELECTOR@) is None {
        Some(("TitleNotFound"@, m.url@))
    } else if dorm_author_of(html) is None || dorm_date_text_of(html) is None {
        Some(("AuthorDateStringParse"@, m.url@))
    } else if parsed_date_time(dorm_date_text_of(html)->0, DATETIME_FORMAT@) is None {
        Some(("DateParse"@, dorm_date_text_of(html)->0))
    } else if first_match(html, CONTENT_SELECTOR@) is None {
        Some(("ContentNotFound"@, m.url@))
    } else {
        None
    }
}

impl SsuDormPlugin {
    /// The plugin.
    pub fn new() -> (p: SsuDormPlugin)
        ensures
            p == SsuDormPlugin,
    {
        SsuDormPlugin
    }

    /// Decodes a page of the site from EUC-KR.
    pub fn decode_euc_kr(bytes: &[u8]) -> (out: String)
        ensures
            out@ == euc_kr_text(bytes@),
    {
        decode_euc_kr_bytes(bytes)
    }

    /// The address of the list page `page` (counting from 1): the list with the offset of
    /// its first post.
    pub fn list_page_url(page: u32) -> (out: String)
        requires
            page > 0 ==> (page - 1) * 15 <= u32::MAX,
        ensures
            out@ == LIST_PAGE_URL@ + "&next="@ + int_text(if page > 0 { (page - 1) * 15 } else { 0 }),
    {
        let offset: u32 = if page > 0 { (page - 1) * POSTS_PER_PAGE } else { 0 };
        let mut out = concat(LIST_PAGE_URL, "&next=");
        let n = int_to_text(offset as i64);
        out.append(n.as_str());
        out
    }

    /// The post number in a link's call (see `post_id_in_call`).
    pub fn post_id_from_call(href: &str) -> (r: Option<String>)
        ensures
            opt_view(r) == post_id_in_call(href@),
    {
        let v = chars_of(href);
        let mut w: Vec<char> = Vec::new();
        let mut i: usize = 0;
        while i < v.len()
            invariant
                i <= v.len(),
                w@ == v@.take(i as int).map_values(|c: char| if c == ',' { '\'' } else { c }),
            decreases v.len() - i,
        {
            let c = v[i];
            w.push(if c == ',' { '\'' } else { c });
            proof {
                assert(w@ =~= v@.take(i + 1).map_values(|c: char| if c == ',' { '\'' } else { c }));
            }
            i += 1;
        }
        proof {
            assert(v@.take(v@.len() as int) == v@);
        }
        let parts = split_at_char(&w, '\'');
        let ghost ps = parts@.map_values(|p: Vec<char>| p@);
        if parts.len() <= 2 {
            return None;
        }
        let k = parts.len() - 2;
        proof {
            assert(ps[k as int] == parts@[k as int]@);
            reveal_strlit("null");
        }
        let id = string_of(&parts[k]);
        if id.as_str().unicode_len() == 0 || id == String::from_str("null") {
            return None;
        }
        Some(id)
    }

    /// Reads a list page: the posts of its rows after the first two, in order, rows
    /// without a post left out (see `rows_follow`).
    pub fn parse_list_page(html: &str) -> (metas: Vec<SsuDormPostMetadata>)
        ensures
            rows_follow(metas@, html@, first_matches_in_each(html@, LIST_ITEM_SELECTOR@, TITLE_IN_LIST_SELECTOR@).len() as int),
    {
        let links = first_in_each(html, LIST_ITEM_SELECTOR, TITLE_IN_LIST_SELECTOR);
        let dates = first_in_each(html, LIST_ITEM_SELECTOR, DATE_IN_LIST_SELECTOR);
        let mut metas: Vec<SsuDormPostMetadata> = Vec::new();
        let mut i: usize = HEADER_ROWS;
        if links.len() < HEADER_ROWS {
            return metas;
        }
        while i < links.len()
            invariant
                HEADER_ROWS <= i <= links@.len(),
                opt_views(links@) == first_matches_in_each(html@, LIST_ITEM_SELECTOR@, TITLE_IN_LIST_SELECTOR@),
                opt_views(dates@) == first_matches_in_each(html@, LIST_ITEM_SELECTOR@, DATE_IN_LIST_SELECTOR@),
                rows_follow(metas@, html@, i as int),
            decreases links@.len() - i,
        {
            proof {
                assert(opt_views(links@)[i as int] == opt_view(links@[i as int]));
            }
            let ghost before = metas@;
            match &links[i] {
                Some(l) => {
                    let href = match first_attr_in_fragment(l.as_str(), "a", "href") {
                        Some(h) => h,
                        None => String::new(),
                    };
                    match Self::post_id_from_call(href.as_str()) {
                        Some(id) => {
                            let mut url = concat(POST_VIEW_URL_BASE, "&idx=");
                            url.append(id.as_str());
                            let text = text_of_element(l.as_str());
                            let title = trim_str(text.as_str());
                            let date = if i < dates.len() {
                                proof {
                                    assert(opt_views(dates@)[i as int] == opt_view(dates@[i as int]));
                                }
                                match &dates[i] {
                                    Some(d) => {
                                        let dt = text_of_element(d.as_str());
                                        trim_str(dt.as_str())
                                    },
                                    None => String::new(),
                                }
                            } else {
                                String::new()
                            };
                            metas.push(SsuDormPostMetadata { id, url, title_from_list: title, date_str_from_list: date });
                            proof {
                                assert(metas@.drop_last() == before);
                            }
                        },
                        None => {},
                    }
                },
                None => {},
            }
            i += 1;
        }
        metas
    }

    /// Whether the crawl reads the list page `page`: fewer than `posts_limit` posts are
    /// listed, and the page is within the bound on pages.
    pub fn reads_page(collected: usize, posts_limit: u32, page: u32) -> (b: bool)
        ensures
            b == (collected < posts_limit && page <= MAX_PAGES_TO_TRY),
    {
        collected < posts_limit as usize && page <= MAX_PAGES_TO_TRY
    }

    /// The first `posts_limit` posts listed.
    pub fn first_posts(metas: Vec<SsuDormPostMetadata>, posts_limit: u32) -> (v: Vec<SsuDormPostMetadata>)
        ensures
            v@ == (if metas@.len() <= posts_limit { metas@ } else { metas@.take(posts_limit as int) }),
    {
        let mut v = metas;
        v.truncate(posts_limit as usize);
        v
    }

    /// Reads a post page for the post listed as `metadata`: its title, its author, its
    /// date and its content (see `dorm_post_failure` for when it is refused).
    pub fn parse_post_page(html: &str, metadata: &SsuDormPostMetadata) -> (r: Result<SsufidPost, SsuDormError>)
        ensures
            match r {
                Err(e) => dorm_post_failure(html@, *metadata) == Some((dorm_error_kind(e), dorm_error_payload(e))),
                Ok(p) => {
                    &&& dorm_post_failure(html@, *metadata) is None
                    &&& parsed_date_time(dorm_date_text_of(html@)->0, DATETIME_FORMAT@) matches Some(f)
                    &&& p.created_at.unix_nanos == kst_instant(f)
                    &&& p.created_at.offset_seconds == KST_OFFSET_SECONDS
                    &&& p.id == metadata.id
                    &&& p.url == metadata.url
                    &&& opt_view(p.author) == dorm_author_of(html@)
                    &&& p.title@ == trim(text_concat(first_match(html@, TITLE_SELECTOR@)->0))
                    &&& p.content@ == first_match(html@, CONTENT_SELECTOR@)->0
                    &&& p.description is None
                    &&& p.category@.len() == 0
                    &&& p.updated_at is None
                    &&& p.thumbnail is None
                    &&& p.attachments@.len() == 0
                    &&& p.metadata is None
                },
            },
    {
        let titles = select_in_document(html, TITLE_SELECTOR);
        if titles.len() == 0 {
            return Err(SsuDormError::TitleNotFound(metadata.url.clone()));
        }
        proof {
            assert(titles@[0]@ == document_matches(html@, TITLE_SELECTOR@)[0]);
        }
        let title_text = text_of_element(titles[0].as_str());
        let title = trim_str(title_text.as_str());
        let cells = select_in_document(html, METADATA_SELECTOR);
        let colon = chars_of(":");
        proof {
            reveal_strlit(":");
        }
        let author = if cells.len() > 0 {
            proof {
                assert(cells@[0]@ == document_matches(html@, METADATA_SELECTOR@)[0]);
            }
            let texts = fragment_texts(cells[0].as_str());
            if texts.len() > 0 {
                proof {
                    assert(texts@[0]@ == fragment_text_nodes(cells@[0]@)[0]);
                }
                match second_piece_of(&chars_of(texts[0].as_str()), &colon) {
                    Some(a) => Some(string_of(&trimmed_copy(&a))),
                    None => None,
                }
            } else {
                None
            }
        } else {
            None
        };
        let author = match author {
            Some(a) => a,
            None => return Err(SsuDormError::AuthorDateStringParse(metadata.url.clone())),
        };
        let date_text = if cells.len() > 2 {
            proof {
                assert(cells@[2]@ == document_matches(html@, METADATA_SELECTOR@)[2]);
            }
            let texts = fragment_texts(cells[2].as_str());
            if texts.len() > 0 {
                proof {
                    assert(texts@[0]@ == fragment_text_nodes(cells@[2]@)[0]);
                }
                let t = chars_of(texts[0].as_str());
                match find_char(&t, ':') {
                    Some(k) => {
                        let rest = copy_range(&t, k + 1, t.len());
                        proof {
                            assert(rest@ == t@.skip(k + 1));
                        }
                        Some(string_of(&trimmed_copy(&rest)))
                    },
                    None => None,
                }
            } else {
                None
            }
        } else {
            None
        };
        let date_text = match date_text {
            Some(d) => d,
            None => return Err(SsuDormError::AuthorDateStringParse(metadata.url.clone())),
        };
        let created_at = match kst_date_time_from_text(date_text.as_str(), DATETIME_FORMAT) {
            Some(t) => t,
            None => return Err(SsuDormError::DateParse(date_text)),
        };
        let contents = select_in_document(html, CONTENT_SELECTOR);
        if contents.len() == 0 {
            return Err(SsuDormError::ContentNotFound(metadata.url.clone()));
        }
        proof {
            assert(contents@[0]@ == document_matches(html@, CONTENT_SELECTOR@)[0]);
        }
        let content = contents[0].clone();
        Ok(SsufidPost {
            id: metadata.id.clone(),
            url: metadata.url.clone(),
            author: Some(author),
            title,
            description: None,
            category: Vec::new(),
            created_at,
            updated_at: None,
            thumbnail: None,
            content,
            attachments: Vec::new(),
            metadata: None,
        })
    }
}

} // verus!

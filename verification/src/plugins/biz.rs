//! The business school's notices: the pieces of its list rows.

use vstd::prelude::*;
use crate::datetime::{Timestamp, parsed_date, kst_instant, KST_OFFSET_SECONDS, kst_midnight_from_text, date_parse_error, date_error_texts};
use crate::error::{PluginError, concat};
use crate::html::{cell_at, 
    document_matches, fragment_matches, fragment_first_attr, joined_url, url_query_pairs, first_matches_in_each, opt_views,
    text_concat, select_in_document, select_in_fragment, first_attr_in_fragment, join_url, query_pairs_of, first_in_each,
    text_of_element, pair_views,
};
use crate::post::{Attachment, SsufidPost, opt_view};
use crate::text::{chars_of, copy_range, trimmed_copy, string_of, find_char, first_index_of, lemma_first_index_of, trim, trim_str, seq_index_of, find_text, views};

verus! {

/// The plugin's identifier.
pub const IDENTIFIER: &'static str = "biz.ssu.ac.kr";

/// The message of a list row whose "date / author" text has no author part.
pub const DATE_EXTRACTION_MESSAGE: &'static str = "Detail page: Could not parse date from detail string: ";

/// The date and the author written in a "date / author" text: the parts before and after
/// its first `/`, each trimmed; none when there is no `/`.
pub open spec fn date_author_parts(s: Seq<char>) -> Option<(Seq<char>, Seq<char>)> {
    let k = first_index_of(s, '/');
    if k < 0 {
        None
    } else {
        Some((trim(s.take(k)), trim(s.skip(k + 1))))
    }
}

/// Splits a "date / author" text into its date and its author (see `date_author_parts`).
pub fn parse_date_author_string(s: &str) -> (r: Result<(String, String), PluginError>)
    ensures
        match r {
            Ok((date, author)) => date_author_parts(s@) == Some((date@, author@)),
            Err(e) => {
                &&& date_author_parts(s@) is None
                &&& e matches PluginError::Parse { plugin, message }
                &&& plugin@ == IDENTIFIER@
                &&& message@ == DATE_EXTRACTION_MESSAGE@ + s@
            },
        },
{
    let v = chars_of(s);
    match find_char(&v, '/') {
        Some(k) => {
            let date = trimmed_copy(&copy_range(&v, 0, k));
            let author = trimmed_copy(&copy_range(&v, k + 1, v.len()));
            proof {
                lemma_first_index_of(v@, '/');
                assert(v@.take(k as int) == v@.subrange(0, k as int));
                assert(v@.skip(k + 1) == v@.subrange(k + 1, v@.len() as int));
            }
            Ok((string_of(&date), string_of(&author)))
        },
        None => Err(PluginError::parse(IDENTIFIER, concat(DATE_EXTRACTION_MESSAGE, s))),
    }
}

/// The site's address.
pub const BIZ_BASE_URL: &'static str = "http://biz.ssu.ac.kr";
/// The site's title.
pub const TITLE: &'static str = "숭실대학교 경영학부 공지사항";
/// The site's description.
pub const DESCRIPTION: &'static str = "숭실대학교 경영학부 홈페이지의 공지사항을 제공합니다.";
/// The base against which attachment links resolve.
pub const ATTACHMENT_BASE: &'static str = "http://biz.ssu.ac.kr/bbs/";
/// The items of a list page.
pub const NOTICE_ITEMS_SELECTOR: &'static str = "ul#bList01 li";
/// An item's link with its title.
pub const POST_LINK_SELECTOR: &'static str = "div > a";
/// An item's "date / author" text.
pub const DATE_AUTHOR_SELECTOR: &'static str = "div:nth-of-type(2) > span";
/// A post page's title.
pub const TITLE_DETAIL_SELECTOR: &'static str = "div#postTitle > span";
/// A post page's content.
pub const CONTENT_DETAIL_SELECTOR: &'static str = "div#postContents";
/// A post page's list of attachments.
pub const ATTACHMENTS_CONTAINER_SELECTOR: &'static str = "ul#postFileList";
/// An attachment link in that list.
pub const ATTACHMENT_ITEM_SELECTOR: &'static str = "li > a";
/// The format of a post's date.
pub const DATE_FORMAT_BIZ: &'static str = "[year]-[month]-[day]";
/// The list page after which a crawl stops.
pub const MAX_PAGE: u32 = 50;

/// The business school plugin.
pub struct BizPlugin;

/// A post as the list page shows it.
#[derive(Clone, Debug)]
pub struct BizMetadata {
    pub id: String,
    pub url: String,
    pub date_str: String,
    pub author: String,
}

/// The value of the first query pair named `k1` or `k2`, if there is one.
pub open spec fn first_value_for_either(pairs: Seq<(Seq<char>, Seq<char>)>, k1: Seq<char>, k2: Seq<char>) -> Option<Seq<char>>
    decreases pairs.len(),
{
    if pairs.len() == 0 {
        None
    } else if pairs[0].0 == k1 || pairs[0].0 == k2 {
        Some(pairs[0].1)
    } else {
        first_value_for_either(pairs.drop_first(), k1, k2)
    }
}

/// The value of the first pair named `k1` or `k2` (see `first_value_for_either`).
fn find_value_either(pairs: &Vec<(String, String)>, k1: &str, k2: &str) -> (r: Option<String>)
    ensures
        opt_view(r) == first_value_for_either(pair_views(pairs@), k1@, k2@),
{
    let a = String::from_str(k1);
    let b = String::from_str(k2);
    let mut i: usize = 0;
    proof {
        assert(pair_views(pairs@).skip(0) =~= pair_views(pairs@));
    }
    while i < pairs.len()
        invariant
            i <= pairs.len(),
            a@ == k1@,
            b@ == k2@,
            first_value_for_either(pair_views(pairs@), k1@, k2@) == first_value_for_either(pair_views(pairs@).skip(i as int), k1@, k2@),
        decreases pairs.len() - i,
    {
        let ghost rest = pair_views(pairs@).skip(i as int);
        proof {
            assert(rest[0] == (pairs@[i as int].0@, pairs@[i as int].1@));
            assert(rest.drop_first() =~= pair_views(pairs@).skip(i + 1));
        }
        if pairs[i].0 == a || pairs[i].0 == b {
            return Some(pairs[i].1.clone());
        }
        i += 1;
    }
    None
}


/// Why item `i` of a list page is refused, as its message; none when it reads or is
/// skipped. The checks come in order: the link's target, its resolution, its number, and
/// (unless the item is an empty script link) its "date / author" text.
pub open spec fn item_failure(html: Seq<char>, i: int) -> Option<Seq<char>> {
    match cell_at(first_matches_in_each(html, NOTICE_ITEMS_SELECTOR@, POST_LINK_SELECTOR@), i) {
        None => None,
        Some(l) => match fragment_first_attr(l, "a"@, "href"@) {
            None => Some("List page: Post link not found in list item (li > div > a)"@),
            Some(h) => match joined_url(BIZ_BASE_URL@, h) {
                None => Some("URL join error for '"@ + h + "' with base '"@ + BIZ_BASE_URL@ + "'"@),
                Some(u) => match url_query_pairs(u) {
                    None => Some("URL re-parse error for '"@ + u + "'"@),
                    Some(p) => if first_value_for_either(p, "aId"@, "seq"@) is None {
                        Some("List page: Post ID (aId/seq) not found in URL: "@ + u)
                    } else if trim(text_concat(l)).len() == 0 && seq_index_of(h, "javascript:void(0)"@) >= 0 {
                        None
                    } else {
                        match cell_at(first_matches_in_each(html, NOTICE_ITEMS_SELECTOR@, DATE_AUTHOR_SELECTOR@), i) {
                            None => Some("List page: Date/Author string not found for post"@),
                            Some(d) => if date_author_parts(trim(text_concat(d))) is None {
                                Some(DATE_EXTRACTION_MESSAGE@ + trim(text_concat(d)))
                            } else {
                                None
                            },
                        }
                    },
                },
            },
        },
    }
}

/// Whether item `i` of a list page, which is not refused, gives a post: it has a link,
/// and is not an empty script link.
pub open spec fn item_gives_post(html: Seq<char>, i: int) -> bool {
    match cell_at(first_matches_in_each(html, NOTICE_ITEMS_SELECTOR@, POST_LINK_SELECTOR@), i) {
        None => false,
        Some(l) => {
            let h = fragment_first_attr(l, "a"@, "href"@)->0;
            !(trim(text_concat(l)).len() == 0 && seq_index_of(h, "javascript:void(0)"@) >= 0)
        },
    }
}

/// `m` is the post of item `i`.
pub open spec fn item_meta_ok(m: BizMetadata, html: Seq<char>, i: int) -> bool {
    let l = cell_at(first_matches_in_each(html, NOTICE_ITEMS_SELECTOR@, POST_LINK_SELECTOR@), i)->0;
    let u = joined_url(BIZ_BASE_URL@, fragment_first_attr(l, "a"@, "href"@)->0)->0;
    let d = trim(text_concat(cell_at(first_matches_in_each(html, NOTICE_ITEMS_SELECTOR@, DATE_AUTHOR_SELECTOR@), i)->0));
    &&& m.id@ == first_value_for_either(url_query_pairs(u)->0, "aId"@, "seq"@)->0
    &&& m.url@ == u
    &&& (m.date_str@, m.author@) == date_author_parts(d)->0
}

/// `metas` are the posts of the first `n` items, in order, items without a post left out.
pub open spec fn items_follow(metas: Seq<BizMetadata>, html: Seq<char>, n: int) -> bool
    decreases n,
{
    if n <= 0 {
        metas.len() == 0
    } else if item_gives_post(html, n - 1) {
        &&& metas.len() > 0
        &&& item_meta_ok(metas.last(), html, n - 1)
        &&& items_follow(metas.drop_last(), html, n - 1)
    } else {
        items_follow(metas, html, n - 1)
    }
}

/// The first refused item among the first `n`, as its message.
pub open spec fn first_item_failure(html: Seq<char>, n: int) -> Option<Seq<char>>
    decreases n,
{
    if n <= 0 {
        None
    } else if first_item_failure(html, n - 1) is Some {
        first_item_failure(html, n - 1)
    } else {
        item_failure(html, n - 1)
    }
}

/// `e` is the plugin's refusal of unreadable content with the message `msg`.
pub open spec fn parse_error_is(e: PluginError, msg: Seq<char>) -> bool {
    e matches PluginError::Parse { plugin, message } && plugin@ == IDENTIFIER@ && message@ == msg
}

/// The trimmed text of the first element of the document that matches `selector`, if
/// any.
pub open spec fn first_text_of(html: Seq<char>, selector: Seq<char>) -> Option<Seq<char>> {
    let m = document_matches(html, selector);
    if m.len() > 0 { Some(trim(text_concat(m[0]))) } else { None }
}

/// The attachment links of a post page: those of its first list of attachments.
pub open spec fn attachment_links(html: Seq<char>) -> Seq<Seq<char>> {
    let c = document_matches(html, ATTACHMENTS_CONTAINER_SELECTOR@);
    if c.len() > 0 { fragment_matches(c[0], ATTACHMENT_ITEM_SELECTOR@) } else { Seq::empty() }
}

/// The first attachment link among `links` with a target that does not resolve.
pub open spec fn attachment_failure(links: Seq<Seq<char>>) -> Option<Seq<char>>
    decreases links.len(),
{
    if links.len() == 0 {
        None
    } else {
        match fragment_first_attr(links[0], "a"@, "href"@) {
            Some(h) => if joined_url(ATTACHMENT_BASE@, h) is None {
                Some("Attachment URL join error for '"@ + h + "' with base '"@ + ATTACHMENT_BASE@ + "'"@)
            } else {
                attachment_failure(links.drop_first())
            },
            None => attachment_failure(links.drop_first()),
        }
    }
}

/// `atts` are the attachments of the links `links`, in order, links without a target left
/// out.
pub open spec fn attachments_follow(atts: Seq<Attachment>, links: Seq<Seq<char>>) -> bool
    decreases links.len(),
{
    if links.len() == 0 {
        atts.len() == 0
    } else {
        match fragment_first_attr(links.last(), "a"@, "href"@) {
            Some(h) => {
                &&& atts.len() > 0
                &&& opt_view(atts.last().name) == Some(trim(text_concat(links.last())))
                &&& atts.last().url@ == joined_url(ATTACHMENT_BASE@, h)->0
                &&& atts.last().mime_type is None
                &&& attachments_follow(atts.drop_last(), links.drop_last())
            },
            None => attachments_follow(atts, links.drop_last()),
        }
    }
}

/// Why a post page is refused for the post listed as `m`: no title, a date that does not
/// read, no content, or an attachment that does not resolve; in that order.
pub open spec fn post_failure(html: Seq<char>, m: BizMetadata) -> Option<Seq<char>> {
    if !(first_text_of(html, TITLE_DETAIL_SELECTOR@) matches Some(t) && t.len() > 0) {
        Some("Detail page: Title (div#postTitle > span.fixedPost) not found for URL: "@ + m.url@)
    } else if parsed_date(m.date_str@, DATE_FORMAT_BIZ@) is None {
        Some("Detail page: Date parsing error '"@ + m.date_str@ + "': "@ + date_parse_error(m.date_str@, DATE_FORMAT_BIZ@).0)
    } else if document_matches(html, CONTENT_DETAIL_SELECTOR@).len() == 0 {
        Some("Detail page: Content (ul#postContent) not found for URL: "@ + m.url@)
    } else {
        attachment_failure(attachment_links(html))
    }
}

impl BizPlugin {
    /// The plugin.
    pub fn new() -> (p: BizPlugin)
        ensures
            p == BizPlugin,
    {
        BizPlugin
    }

    /// The address of the list page `page`.
    pub fn list_url(page: u32) -> (out: String)
        ensures
            out@ == BIZ_BASE_URL@ + "/bbs/list.do?bId=BBS_03_NOTICE&page="@ + crate::text::int_text(page as int),
    {
        let mut out = concat(BIZ_BASE_URL, "/bbs/list.do?bId=BBS_03_NOTICE&page=");
        let n = crate::text::int_to_text(page as i64);
        out.append(n.as_str());
        out
    }

    /// Reads item `i` of a list page (see `item_failure`, `item_gives_post` and
    /// `item_meta_ok`).
    fn parse_item(html: &str, i: usize, links: &Vec<Option<String>>, dates: &Vec<Option<String>>) -> (r: Result<Option<BizMetadata>, PluginError>)
        requires
            i < links@.len(),
            opt_views(links@) == first_matches_in_each(html@, NOTICE_ITEMS_SELECTOR@, POST_LINK_SELECTOR@),
            opt_views(dates@) == first_matches_in_each(html@, NOTICE_ITEMS_SELECTOR@, DATE_AUTHOR_SELECTOR@),
        ensures
            match r {
                Err(e) => item_failure(html@, i as int) matches Some(m) && parse_error_is(e, m),
                Ok(None) => item_failure(html@, i as int) is None && !item_gives_post(html@, i as int),
                Ok(Some(m)) => item_failure(html@, i as int) is None && item_gives_post(html@, i as int)
                    && item_meta_ok(m, html@, i as int),
            },
    {
        proof {
            assert(opt_views(links@)[i as int] == opt_view(links@[i as int]));
        }
        let l = match &links[i] {
            Some(l) => l,
            None => return Ok(None),
        };
        let href = match first_attr_in_fragment(l.as_str(), "a", "href") {
            Some(h) => h,
            None => return Err(PluginError::parse(IDENTIFIER, String::from_str("List page: Post link not found in list item (li > div > a)"))),
        };
        let full_url = match join_url(BIZ_BASE_URL, href.as_str()) {
            Some(u) => u,
            None => {
                let mut m = concat("URL join error for '", href.as_str());
                m.append("' with base '");
                m.append(BIZ_BASE_URL);
                m.append("'");
                return Err(PluginError::parse(IDENTIFIER, m));
            },
        };
        let pairs = match query_pairs_of(full_url.as_str()) {
            Some(p) => p,
            None => {
                let mut m = concat("URL re-parse error for '", full_url.as_str());
                m.append("'");
                return Err(PluginError::parse(IDENTIFIER, m));
            },
        };
        let id = match find_value_either(&pairs, "aId", "seq") {
            Some(v) => v,
            None => return Err(PluginError::parse(IDENTIFIER, concat("List page: Post ID (aId/seq) not found in URL: ", full_url.as_str()))),
        };
        let text = text_of_element(l.as_str());
        let title = trim_str(text.as_str());
        let void_link = chars_of("javascript:void(0)");
        proof {
            reveal_strlit("javascript:void(0)");
        }
        if title.as_str().unicode_len() == 0 {
            match find_text(&chars_of(href.as_str()), &void_link) {
                Some(_) => return Ok(None),
                None => {},
            }
        }
        let d = if i < dates.len() {
            proof {
                assert(opt_views(dates@)[i as int] == opt_view(dates@[i as int]));
            }
            match &dates[i] {
                Some(d) => d,
                None => return Err(PluginError::parse(IDENTIFIER, String::from_str("List page: Date/Author string not found for post"))),
            }
        } else {
            return Err(PluginError::parse(IDENTIFIER, String::from_str("List page: Date/Author string not found for post")));
        };
        let dtext = text_of_element(d.as_str());
        let date_author = trim_str(dtext.as_str());
        let (date_str, author) = parse_date_author_string(date_author.as_str())?;
        Ok(Some(BizMetadata { id, url: full_url, date_str, author }))
    }

    /// Reads a list page: the posts of its items, in order, items without a link and empty
    /// script links left out; refused at the first item that cannot be read (see
    /// `first_item_failure`).
    pub fn parse_list_page(html: &str) -> (r: Result<Vec<BizMetadata>, PluginError>)
        ensures
            match r {
                Ok(metas) => first_item_failure(html@, first_matches_in_each(html@, NOTICE_ITEMS_SELECTOR@, POST_LINK_SELECTOR@).len() as int) is None
                    && items_follow(metas@, html@, first_matches_in_each(html@, NOTICE_ITEMS_SELECTOR@, POST_LINK_SELECTOR@).len() as int),
                Err(e) => first_item_failure(html@, first_matches_in_each(html@, NOTICE_ITEMS_SELECTOR@, POST_LINK_SELECTOR@).len() as int) matches Some(m)
                    && parse_error_is(e, m),
            },
    {
        let links = first_in_each(html, NOTICE_ITEMS_SELECTOR, POST_LINK_SELECTOR);
        let dates = first_in_each(html, NOTICE_ITEMS_SELECTOR, DATE_AUTHOR_SELECTOR);
        let ghost n = opt_views(links@).len() as int;
        let mut metas: Vec<BizMetadata> = Vec::new();
        let mut i: usize = 0;
        while i < links.len()
            invariant
                i <= links@.len(),
                n == links@.len(),
                opt_views(links@) == first_matches_in_each(html@, NOTICE_ITEMS_SELECTOR@, POST_LINK_SELECTOR@),
                opt_views(dates@) == first_matches_in_each(html@, NOTICE_ITEMS_SELECTOR@, DATE_AUTHOR_SELECTOR@),
                first_item_failure(html@, i as int) is None,
                items_follow(metas@, html@, i as int),
            decreases links@.len() - i,
        {
            let ghost before = metas@;
            match Self::parse_item(html, i, &links, &dates) {
                Ok(Some(m)) => {
                    metas.push(m);
                    proof {
                        assert(metas@.drop_last() == before);
                    }
                },
                Ok(None) => {},
                Err(e) => {
                    proof {
                        lemma_first_item_failure_stays(html@, i + 1, n);
                    }
                    return Err(e);
                },
            }
            i += 1;
        }
        Ok(metas)
    }

    /// The attachments of the links `links` (see `attachments_follow`); refused at the
    /// first link whose target does not resolve.
    fn attachments_of(links: &Vec<String>) -> (r: Result<Vec<Attachment>, PluginError>)
        ensures
            match r {
                Ok(atts) => attachment_failure(views(links@)) is None && attachments_follow(atts@, views(links@)),
                Err(e) => attachment_failure(views(links@)) matches Some(m) && parse_error_is(e, m),
            },
    {
        let ghost ls = views(links@);
        let mut atts: Vec<Attachment> = Vec::new();
        let mut i: usize = 0;
        proof {
            assert(ls.skip(0) == ls);
        }
        while i < links.len()
            invariant
                i <= links.len(),
                ls == views(links@),
                attachments_follow(atts@, ls.take(i as int)),
                attachment_failure(ls) == attachment_failure(ls.skip(i as int)),
            decreases links.len() - i,
        {
            proof {
                assert(ls.take(i + 1).drop_last() == ls.take(i as int));
                assert(ls.take(i + 1).last() == links@[i as int]@);
                assert(ls.skip(i as int)[0] == links@[i as int]@);
                assert(ls.skip(i as int).drop_first() == ls.skip(i + 1));
            }
            let ghost before = atts@;
            match first_attr_in_fragment(links[i].as_str(), "a", "href") {
                Some(h) => {
                    let url = match join_url(ATTACHMENT_BASE, h.as_str()) {
                        Some(u) => u,
                        None => {
                            let mut m = concat("Attachment URL join error for '", h.as_str());
                            m.append("' with base '");
                            m.append(ATTACHMENT_BASE);
                            m.append("'");
                            return Err(PluginError::parse(IDENTIFIER, m));
                        },
                    };
                    let text = text_of_element(links[i].as_str());
                    let name = trim_str(text.as_str());
                    atts.push(Attachment { name: Some(name), url, mime_type: None });
                    proof {
                        assert(atts@.drop_last() == before);
                    }
                },
                None => {},
            }
            i += 1;
        }
        proof {
            assert(ls.take(ls.len() as int) == ls);
        }
        Ok(atts)
    }

    /// Reads a post page for the post listed as `metadata` (see `post_failure`): its
    /// title, its date, its content and its attachments; its author is the list's.
    pub fn parse_post_page(html: &str, metadata: &BizMetadata) -> (r: Result<SsufidPost, PluginError>)
        ensures
            match r {
                Err(e) => post_failure(html@, *metadata) matches Some(m) && parse_error_is(e, m),
                Ok(p) => {
                    &&& post_failure(html@, *metadata) is None
                    &&& p.id == metadata.id
                    &&& p.url == metadata.url
                    &&& p.author == Some(metadata.author)
                    &&& p.title@ == first_text_of(html@, TITLE_DETAIL_SELECTOR@)->0
                    &&& parsed_date(metadata.date_str@, DATE_FORMAT_BIZ@) matches Some(d)
                    &&& p.created_at.unix_nanos == kst_instant((d.0, d.1, d.2, 0, 0, 0))
                    &&& p.created_at.offset_seconds == KST_OFFSET_SECONDS
                    &&& p.content@ == document_matches(html@, CONTENT_DETAIL_SELECTOR@)[0]
                    &&& attachments_follow(p.attachments@, attachment_links(html@))
                    &&& p.description is None
                    &&& p.category@.len() == 0
                    &&& p.updated_at is None
                    &&& p.thumbnail is None
                    &&& p.metadata is None
                },
            },
    {
        let titles = select_in_document(html, TITLE_DETAIL_SELECTOR);
        let title = if titles.len() > 0 {
            proof {
                assert(views(titles@)[0] == titles@[0]@);
            }
            let t = text_of_element(titles[0].as_str());
            trim_str(t.as_str())
        } else {
            String::new()
        };
        if title.as_str().unicode_len() == 0 {
            return Err(PluginError::parse(IDENTIFIER, concat("Detail page: Title (div#postTitle > span.fixedPost) not found for URL: ", metadata.url.as_str())));
        }
        let created_at = match kst_midnight_from_text(metadata.date_str.as_str(), DATE_FORMAT_BIZ) {
            Some(t) => t,
            None => {
                let mut m = concat("Detail page: Date parsing error '", metadata.date_str.as_str());
                m.append("': ");
                m.append(date_error_texts(metadata.date_str.as_str(), DATE_FORMAT_BIZ).0.as_str());
                return Err(PluginError::parse(IDENTIFIER, m));
            },
        };
        let contents = select_in_document(html, CONTENT_DETAIL_SELECTOR);
        if contents.len() == 0 {
            return Err(PluginError::parse(IDENTIFIER, concat("Detail page: Content (ul#postContent) not found for URL: ", metadata.url.as_str())));
        }
        proof {
            assert(views(contents@)[0] == contents@[0]@);
        }
        let content = contents[0].clone();
        let containers = select_in_document(html, ATTACHMENTS_CONTAINER_SELECTOR);
        let links = if containers.len() > 0 {
            proof {
                assert(views(containers@)[0] == containers@[0]@);
            }
            select_in_fragment(containers[0].as_str(), ATTACHMENT_ITEM_SELECTOR)
        } else {
            Vec::new()
        };
        proof {
            assert(views(links@) == attachment_links(html@));
        }
        let attachments = Self::attachments_of(&links)?;
        Ok(SsufidPost {
            id: metadata.id.clone(),
            url: metadata.url.clone(),
            author: Some(metadata.author.clone()),
            title,
            description: None,
            category: Vec::new(),
            created_at,
            updated_at: None,
            thumbnail: None,
            content,
            attachments,
            metadata: None,
        })
    }

    /// Whether the crawl reads another list page: fewer than `posts_limit` posts are
    /// listed.
    pub fn wants_page(collected: usize, posts_limit: u32) -> (b: bool)
        ensures
            b == (collected < posts_limit),
    {
        collected < posts_limit as usize
    }

    /// Adds the posts of a list page, in order, while fewer than `posts_limit` are listed.
    pub fn add_page(all: &mut Vec<BizMetadata>, page: Vec<BizMetadata>, posts_limit: u32)
        ensures
            old(all)@.len() >= posts_limit ==> final(all)@ == old(all)@,
            old(all)@.len() < posts_limit ==> final(all)@ == old(all)@ + page@.take(
                if page@.len() <= posts_limit - old(all)@.len() { page@.len() as int } else { posts_limit - old(all)@.len() }),
    {
        let ghost start = all@;
        let ghost items = page@;
        let total = page.len();
        let mut page = page;
        let mut i: usize = 0;
        while i < total && all.len() < posts_limit as usize
            invariant
                total == items.len(),
                i <= total,
                page@ == items.skip(i as int),
                all@ == start + items.take(i as int),
                start.len() >= posts_limit ==> i == 0,
                start.len() < posts_limit ==> all@.len() <= posts_limit,
            decreases total - i,
        {
            let m = page.remove(0);
            proof {
                assert(items.take(i + 1) == items.take(i as int).push(m));
                assert(page@ =~= items.skip(i + 1));
            }
            all.push(m);
            i += 1;
        }
    }

    /// Whether the crawl goes on after reading the list page `page`: the next page is
    /// within the bound.
    pub fn continues_after(page: u32) -> (b: bool)
        ensures
            b == (page + 1 <= MAX_PAGE),
    {
        page < MAX_PAGE
    }
}

/// Once an item among the first `k` is refused, the first refusal among the first `n`
/// is the same.
proof fn lemma_first_item_failure_stays(html: Seq<char>, k: int, n: int)
    requires
        0 < k <= n,
        first_item_failure(html, k) is Some,
    ensures
        first_item_failure(html, n) == first_item_failure(html, k),
    decreases n - k,
{
    if n > k {
        lemma_first_item_failure_stays(html, k, n - 1);
    }
}

} // verus!

//! The information sociology department's notices: reading its list pages and post
//! pages, and the decisions of its crawl.

use vstd::prelude::*;
use crate::datetime::{Timestamp, parsed_date, kst_instant, KST_OFFSET_SECONDS, kst_midnight_from_text, date_parse_error, date_error_texts};
use crate::error::{PluginError, concat};
use crate::html::{cell_at, 
    document_matches, fragment_first_attr, url_query_pairs, first_value_for, first_matches_in_each, opt_views,
    text_concat, select_in_document, first_attr_in_fragment, query_pairs_of, find_pair_value, first_in_each,
    text_of_element, first_inner_html, first_inner_html_in_document, first_element_child_texts, nested_views,
    child_texts_of_first, concat_all, concat_strings,
};
use crate::post::{Attachment, SsufidPost, opt_view};
use crate::text::{trim, trim_str, chars_of, string_of, nth_piece, nth_piece_of, second_piece, second_piece_of, first_piece, first_piece_of, views, int_text, int_to_text};

verus! {

/// The plugin's identifier.
pub const IDENTIFIER: &'static str = "inso.ssu.ac.kr";
/// The site's title.
pub const TITLE: &'static str = "정보사회학과 공지사항";
/// The site's description.
pub const DESCRIPTION: &'static str = "숭실대학교 정보사회학과 공지사항을 제공합니다.";
/// The address of the notice board.
pub const BASE_URL: &'static str = "http://inso.ssu.ac.kr/sub/sub04_01.php";
/// The site's root, before a link's path.
pub const SITE_ROOT: &'static str = "http://inso.ssu.ac.kr";
/// The rows of a list page.
pub const POST_ROW_SELECTOR: &'static str = "div.board_list > table > tbody > tr";
/// A row's link with its title.
pub const POST_LINK_AND_TITLE_SELECTOR: &'static str = "td.subject > a";
/// A post page's fields.
pub const METADATA_LIST_SELECTOR: &'static str = "div.board_view > dl";
/// A post page's content.
pub const VIEW_CONTENT_SELECTOR: &'static str = "div.view_content";
/// A post page's attachment links.
pub const ATTACHMENT_LINKS_SELECTOR: &'static str = "a[title='첨부파일 내려받기(새창열림)";
/// The format of a post's date.
pub const DATE_FORMAT: &'static str = "[year]-[month]-[day]";
/// How many posts a list page shows.
pub const POSTS_PER_PAGE: u32 = 10;
/// The opening of a download call's arguments.
pub const CALL_OPEN: &'static str = "('";
/// The closing of a download call's arguments.
pub const CALL_CLOSE: &'static str = "')";
/// What separates a download call's arguments.
pub const ARG_SEPARATOR: &'static str = "','";

/// The information sociology department plugin.
pub struct InsoPlugin;

/// A post as the list page shows it.
#[derive(Clone, Debug)]
pub struct InsoPostMetadata {
    pub id: String,
    pub url: String,
}

/// `e` is the plugin's refusal of unreadable content with the message `msg`.
pub open spec fn parse_error_is(e: PluginError, msg: Seq<char>) -> bool {
    e matches PluginError::Parse { plugin, message } && plugin@ == IDENTIFIER@ && message@ == msg
}


/// What row `i` of a list page gives: its refusal's message, nothing (no link), or its
/// post as number and address.
pub open spec fn row_result(html: Seq<char>, i: int) -> Result<Option<(Seq<char>, Seq<char>)>, Seq<char>> {
    match cell_at(first_matches_in_each(html, POST_ROW_SELECTOR@, POST_LINK_AND_TITLE_SELECTOR@), i) {
        None => Ok(None),
        Some(l) => match fragment_first_attr(l, "a"@, "href"@) {
            None => Err("Failed to find 'href' attribute in post link"@),
            Some(h) => {
                let u = SITE_ROOT@ + h;
                match url_query_pairs(u) {
                    None => Err("URL parsing error: "@ + u),
                    Some(p) => match first_value_for(p, "idx"@) {
                        None => Err("Could not find 'idx' in post URL: "@ + u),
                        Some(id) => Ok(Some((id, u))),
                    },
                }
            },
        },
    }
}

/// `metas` are the posts of the first `n` rows, in order; no row among them is refused.
pub open spec fn rows_follow(metas: Seq<InsoPostMetadata>, html: Seq<char>, n: int) -> bool
    decreases n,
{
    if n <= 0 {
        metas.len() == 0
    } else {
        match row_result(html, n - 1) {
            Ok(Some(v)) => metas.len() > 0 && (metas.last().id@, metas.last().url@) == v && rows_follow(metas.drop_last(), html, n - 1),
            Ok(None) => rows_follow(metas, html, n - 1),
            Err(_) => false,
        }
    }
}

/// The first refused row among the first `n`, as its message.
pub open spec fn first_row_failure(html: Seq<char>, n: int) -> Option<Seq<char>>
    decreases n,
{
    if n <= 0 {
        None
    } else if first_row_failure(html, n - 1) is Some {
        first_row_failure(html, n - 1)
    } else {
        match row_result(html, n - 1) {
            Err(m) => Some(m),
            Ok(_) => None,
        }
    }
}

/// The value of a field of a post page: the trimmed text of the last child of the field's
/// definition list, if it has one.
pub open spec fn field_value(dl: Seq<char>) -> Option<Seq<char>> {
    let c = first_element_child_texts(dl);
    if c.len() > 0 { Some(trim(concat_all(c.last()))) } else { None }
}

/// The field `k` of a post page, if it is there.
pub open spec fn field_at(html: Seq<char>, k: int) -> Option<Seq<char>> {
    let dls = document_matches(html, METADATA_LIST_SELECTOR@);
    if 0 <= k < dls.len() { field_value(dls[k]) } else { None }
}

/// The arguments of an attachment link's call: the text between `('` and `')`, split at
/// `','`.
pub open spec fn call_args(h: Seq<char>) -> Option<Seq<char>> {
    match second_piece(h, CALL_OPEN@) {
        Some(s) => Some(first_piece(s, CALL_CLOSE@)),
        None => None,
    }
}

/// Why an attachment link is refused, as its message.
pub open spec fn attachment_link_failure(h: Seq<char>) -> Option<Seq<char>> {
    match call_args(h) {
        None => Some("Failed to parse attachment URL"@),
        Some(a) => if nth_piece(a, ARG_SEPARATOR@, 1) is None {
            Some("Failed to parse b_idx from attachment URL"@)
        } else if nth_piece(a, ARG_SEPARATOR@, 2) is None {
            Some("Failed to parse idx from attachment URL"@)
        } else {
            None
        },
    }
}

/// The first refused attachment link among `links`, as its message.
pub open spec fn attachments_failure(links: Seq<Seq<char>>) -> Option<Seq<char>>
    decreases links.len(),
{
    if links.len() == 0 {
        None
    } else {
        match fragment_first_attr(links[0], "a"@, "href"@) {
            Some(h) => if attachment_link_failure(h) is Some {
                attachment_link_failure(h)
            } else {
                attachments_failure(links.drop_first())
            },
            None => attachments_failure(links.drop_first()),
        }
    }
}

/// The download address of an attachment link's call.
pub open spec fn download_url_of(h: Seq<char>) -> Seq<char> {
    let a = call_args(h)->0;
    "http://inso.ssu.ac.kr/module/board/download.php?boardid="@ + nth_piece(a, ARG_SEPARATOR@, 0)->0
        + "&b_idx="@ + nth_piece(a, ARG_SEPARATOR@, 1)->0 + "&idx="@ + nth_piece(a, ARG_SEPARATOR@, 2)->0
}

/// `atts` are the attachments of the links `links`, in order, links without a target left
/// out.
pub open spec fn attachments_follow(atts: Seq<Attachment>, links: Seq<Seq<char>>) -> bool
    decreases links.len(),
{
    if links.len() == 0 {
        atts.len() == 0
    } else {
        match fragment_first_attr(links.last(), "a"@, "href"@) {
            Some(h) => {
                let name = trim(text_concat(links.last()));
                &&& atts.len() > 0
                &&& opt_view(atts.last().name) == (if name.len() > 0 { Some(name) } else { None })
                &&& atts.last().url@ == download_url_of(h)
                &&& atts.last().mime_type is None
                &&& attachments_follow(atts.drop_last(), links.drop_last())
            },
            None => attachments_follow(atts, links.drop_last()),
        }
    }
}

/// Why a post page is refused, as its message: a missing title, author, date or
/// category field, an unreadable date, a refused attachment link, or no content; in that
/// order.
pub open spec fn post_failure(html: Seq<char>) -> Option<Seq<char>> {
    if field_at(html, 0) is None {
        Some("Failed to extract title: No title found in the post content"@)
    } else if field_at(html, 1) is None {
        Some("Failed to extract author: No title found in the post content"@)
    } else if field_at(html, 2) is None {
        Some("Failed to extract date: No title found in the post content"@)
    } else if parsed_date(field_at(html, 2)->0, DATE_FORMAT@) is None {
        Some("Failed to parse date: "@ + date_parse_error(field_at(html, 2)->0, DATE_FORMAT@).1)
    } else if field_at(html, 4) is None {
        Some("Failed to extract category: No title found in the post content"@)
    } else if attachments_failure(document_matches(html, ATTACHMENT_LINKS_SELECTOR@)) is Some {
        attachments_failure(document_matches(html, ATTACHMENT_LINKS_SELECTOR@))
    } else if first_inner_html(html, VIEW_CONTENT_SELECTOR@) is None {
        Some("Failed to find content in the post"@)
    } else {
        None
    }
}

impl InsoPlugin {
    /// The plugin.
    pub fn new() -> (p: InsoPlugin)
        ensures
            p == InsoPlugin,
    {
        InsoPlugin
    }

    /// The address of the list page that starts at the post `page_offset`.
    pub fn list_url(page_offset: u32) -> (out: String)
        ensures
            out@ == BASE_URL@ + "?boardid=notice&category=&mode=list&offset="@ + int_text(page_offset as int),
    {
        let mut out = concat(BASE_URL, "?boardid=notice&category=&mode=list&offset=");
        let n = int_to_text(page_offset as i64);
        out.append(n.as_str());
        out
    }

    /// Reads row `i` of a list page (see `row_result`).
    fn parse_row(html: &str, i: usize, links: &Vec<Option<String>>) -> (r: Result<Option<InsoPostMetadata>, PluginError>)
        requires
            i < links@.len(),
            opt_views(links@) == first_matches_in_each(html@, POST_ROW_SELECTOR@, POST_LINK_AND_TITLE_SELECTOR@),
        ensures
            match r {
                Err(e) => row_result(html@, i as int) matches Err(m) && parse_error_is(e, m),
                Ok(None) => row_result(html@, i as int) == Ok::<Option<(Seq<char>, Seq<char>)>, Seq<char>>(None),
                Ok(Some(m)) => row_result(html@, i as int) == Ok::<Option<(Seq<char>, Seq<char>)>, Seq<char>>(Some((m.id@, m.url@))),
            },
    {
        proof {
            assert(opt_views(links@)[i as int] == opt_view(links@[i as int]));
        }
        let l = match &links[i] {
            Some(l) => l,
            None => return Ok(None),
        };
        let href = match first_attr_in_fragment(l.as_str(), "a", "href") {
            Some(h) => h,
            None => return Err(PluginError::parse(IDENTIFIER, String::from_str("Failed to find 'href' attribute in post link"))),
        };
        let url = concat(SITE_ROOT, href.as_str());
        let pairs = match query_pairs_of(url.as_str()) {
            Some(p) => p,
            None => return Err(PluginError::parse(IDENTIFIER, concat("URL parsing error: ", url.as_str()))),
        };
        let id = match find_pair_value(&pairs, "idx") {
            Some(v) => v,
            None => return Err(PluginError::parse(IDENTIFIER, concat("Could not find 'idx' in post URL: ", url.as_str()))),
        };
        Ok(Some(InsoPostMetadata { id, url }))
    }

    /// Reads a list page: the posts of its rows with links, in order; refused at the
    /// first row that cannot be read (see `first_row_failure`).
    pub fn parse_list_page(html: &str) -> (r: Result<Vec<InsoPostMetadata>, PluginError>)
        ensures
            match r {
                Ok(metas) => {
                    let n = first_matches_in_each(html@, POST_ROW_SELECTOR@, POST_LINK_AND_TITLE_SELECTOR@).len() as int;
                    first_row_failure(html@, n) is None && rows_follow(metas@, html@, n)
                },
                Err(e) => first_row_failure(html@, first_matches_in_each(html@, POST_ROW_SELECTOR@, POST_LINK_AND_TITLE_SELECTOR@).len() as int) matches Some(m)
                    && parse_error_is(e, m),
            },
    {
        let links = first_in_each(html, POST_ROW_SELECTOR, POST_LINK_AND_TITLE_SELECTOR);
        let ghost n = opt_views(links@).len() as int;
        let mut metas: Vec<InsoPostMetadata> = Vec::new();
        let mut i: usize = 0;
        while i < links.len()
            invariant
                i <= links@.len(),
                n == links@.len(),
                opt_views(links@) == first_matches_in_each(html@, POST_ROW_SELECTOR@, POST_LINK_AND_TITLE_SELECTOR@),
                first_row_failure(html@, i as int) is None,
                rows_follow(metas@, html@, i as int),
            decreases links@.len() - i,
        {
            let ghost before = metas@;
            match Self::parse_row(html, i, &links) {
                Ok(Some(m)) => {
                    metas.push(m);
                    proof {
                        assert(metas@.drop_last() == before);
                    }
                },
                Ok(None) => {},
                Err(e) => {
                    proof {
                        lemma_first_row_failure_stays(html@, i + 1, n);
                    }
                    return Err(e);
                },
            }
            i += 1;
        }
        Ok(metas)
    }

    /// The value of field `k` of a post page (see `field_at`).
    fn field(dls: &Vec<String>, k: usize) -> (r: Option<String>)
        ensures
            opt_view(r) == (if k < dls@.len() { field_value(dls@[k as int]@) } else { None }),
    {
        if k >= dls.len() {
            return None;
        }
        let children = child_texts_of_first(dls[k].as_str());
        if children.len() == 0 {
            return None;
        }
        proof {
            assert(nested_views(children@).last() == views(children@[children@.len() - 1]@));
        }
        let last = children.len() - 1;
        let t = concat_strings(&children[last]);
        Some(trim_str(t.as_str()))
    }

    /// The download address of an attachment link's call, or its refusal's message.
    fn attachment_url(href: &str) -> (r: Result<String, String>)
        ensures
            match r {
                Ok(u) => attachment_link_failure(href@) is None && u@ == download_url_of(href@),
                Err(m) => attachment_link_failure(href@) == Some(m@),
            },
    {
        let v = chars_of(href);
        let open = chars_of(CALL_OPEN);
        let close = chars_of(CALL_CLOSE);
        let sep = chars_of(ARG_SEPARATOR);
        proof {
            reveal_strlit("('");
            reveal_strlit("')");
            reveal_strlit("','");
        }
        let inner = match second_piece_of(&v, &open) {
            Some(s) => first_piece_of(&s, &close),
            None => return Err(String::from_str("Failed to parse attachment URL")),
        };
        let board = match nth_piece_of(&inner, &sep, 0) {
            Some(b) => b,
            None => return Err(String::from_str("Failed to parse attachment URL")),
        };
        let b_idx = match nth_piece_of(&inner, &sep, 1) {
            Some(b) => b,
            None => return Err(String::from_str("Failed to parse b_idx from attachment URL")),
        };
        let idx = match nth_piece_of(&inner, &sep, 2) {
            Some(b) => b,
            None => return Err(String::from_str("Failed to parse idx from attachment URL")),
        };
        let mut u = concat("http://inso.ssu.ac.kr/module/board/download.php?boardid=", string_of(&board).as_str());
        u.append("&b_idx=");
        u.append(string_of(&b_idx).as_str());
        u.append("&idx=");
        u.append(string_of(&idx).as_str());
        Ok(u)
    }

    /// The attachments of the links `links` (see `attachments_follow`); refused at the
    /// first link whose call does not read.
    fn attachments_of(links: &Vec<String>) -> (r: Result<Vec<Attachment>, PluginError>)
        ensures
            match r {
                Ok(atts) => attachments_failure(views(links@)) is None && attachments_follow(atts@, views(links@)),
                Err(e) => attachments_failure(views(links@)) matches Some(m) && parse_error_is(e, m),
            },
    {
        let ghost ls = views(links@);
        let mut atts: Vec<Attachment> = Vec::new();
        let mut i: usize = 0;
        proof {
            assert(ls.skip(0) == ls);
        }
        while i < links.len()
            invariant
                i <= links.len(),
                ls == views(links@),
                attachments_follow(atts@, ls.take(i as int)),
                attachments_failure(ls) == attachments_failure(ls.skip(i as int)),
            decreases links.len() - i,
        {
            proof {
                assert(ls.take(i + 1).drop_last() == ls.take(i as int));
                assert(ls.take(i + 1).last() == links@[i as int]@);
                assert(ls.skip(i as int)[0] == links@[i as int]@);
                assert(ls.skip(i as int).drop_first() == ls.skip(i + 1));
            }
            let ghost before = atts@;
            match first_attr_in_fragment(links[i].as_str(), "a", "href") {
                Some(h) => {
                    let url = match Self::attachment_url(h.as_str()) {
                        Ok(u) => u,
                        Err(m) => return Err(PluginError::parse(IDENTIFIER, m)),
                    };
                    let text = text_of_element(links[i].as_str());
                    let name = trim_str(text.as_str());
                    let name_opt = if name.as_str().unicode_len() > 0 { Some(name) } else { None };
                    atts.push(Attachment { name: name_opt, url, mime_type: None });
                    proof {
                        assert(atts@.drop_last() == before);
                    }
                },
                None => {},
            }
            i += 1;
        }
        proof {
            assert(ls.take(ls.len() as int) == ls);
        }
        Ok(atts)
    }

    /// Reads a post page for the post listed as `metadata` (see `post_failure`): its title,
    /// author, date and category from its fields, its attachments and its content.
    pub fn parse_post_page(html: &str, metadata: &InsoPostMetadata) -> (r: Result<SsufidPost, PluginError>)
        ensures
            match r {
                Err(e) => post_failure(html@) matches Some(m) && parse_error_is(e, m),
                Ok(p) => {
                    &&& post_failure(html@) is None
                    &&& p.id == metadata.id
                    &&& p.url == metadata.url
                    &&& p.title@ == field_at(html@, 0)->0
                    &&& opt_view(p.author) == (if field_at(html@, 1)->0.len() > 0 { Some(field_at(html@, 1)->0) } else { None })
                    &&& parsed_date(field_at(html@, 2)->0, DATE_FORMAT@) matches Some(d)
                    &&& p.created_at.unix_nanos == kst_instant((d.0, d.1, d.2, 0, 0, 0))
                    &&& p.created_at.offset_seconds == KST_OFFSET_SECONDS
                    &&& views(p.category@) == seq![field_at(html@, 4)->0]
                    &&& attachments_follow(p.attachments@, document_matches(html@, ATTACHMENT_LINKS_SELECTOR@))
                    &&& opt_view(Some(p.content)) == first_inner_html(html@, VIEW_CONTENT_SELECTOR@)
                    &&& p.description is None
                    &&& p.updated_at is None
                    &&& p.thumbnail is None
                    &&& p.metadata is None
                },
            },
    {
        let dls = select_in_document(html, METADATA_LIST_SELECTOR);
        proof {
            assert forall|k: int| 0 <= k < dls@.len() implies #[trigger] dls@[k]@ == document_matches(html@, METADATA_LIST_SELECTOR@)[k] by {
                assert(views(dls@)[k] == dls@[k]@);
            }
        }
        let title = match Self::field(&dls, 0) {
            Some(t) => t,
            None => return Err(PluginError::parse(IDENTIFIER, String::from_str("Failed to extract title: No title found in the post content"))),
        };
        let author = match Self::field(&dls, 1) {
            Some(t) => t,
            None => return Err(PluginError::parse(IDENTIFIER, String::from_str("Failed to extract author: No title found in the post content"))),
        };
        let date_text = match Self::field(&dls, 2) {
            Some(t) => t,
            None => return Err(PluginError::parse(IDENTIFIER, String::from_str("Failed to extract date: No title found in the post content"))),
        };
        let created_at = match kst_midnight_from_text(date_text.as_str(), DATE_FORMAT) {
            Some(t) => t,
            None => {
                let debug = date_error_texts(date_text.as_str(), DATE_FORMAT).1;
                return Err(PluginError::parse(IDENTIFIER, concat("Failed to parse date: ", debug.as_str())));
            },
        };
        let category = match Self::field(&dls, 4) {
            Some(t) => t,
            None => return Err(PluginError::parse(IDENTIFIER, String::from_str("Failed to extract category: No title found in the post content"))),
        };
        let links = select_in_document(html, ATTACHMENT_LINKS_SELECTOR);
        let attachments = Self::attachments_of(&links)?;
        let content = match first_inner_html_in_document(html, VIEW_CONTENT_SELECTOR) {
            Some(c) => c,
            None => return Err(PluginError::parse(IDENTIFIER, String::from_str("Failed to find content in the post"))),
        };
        let author_opt = if author.as_str().unicode_len() > 0 { Some(author) } else { None };
        let mut categories: Vec<String> = Vec::new();
        categories.push(category);
        proof {
            assert(views(categories@) =~= seq![field_at(html@, 4)->0]);
        }
        Ok(SsufidPost {
            id: metadata.id.clone(),
            url: metadata.url.clone(),
            title,
            author: author_opt,
            description: None,
            category: categories,
            created_at,
            updated_at: None,
            thumbnail: None,
            content,
            attachments,
            metadata: None,
        })
    }

    /// Adds the posts of a list page, in order, while fewer than `posts_limit` are listed.
    pub fn add_page(all: &mut Vec<InsoPostMetadata>, page: Vec<InsoPostMetadata>, posts_limit: u32)
        ensures
            old(all)@.len() >= posts_limit ==> final(all)@ == old(all)@,
            old(all)@.len() < posts_limit ==> final(all)@ == old(all)@ + page@.take(
                if page@.len() <= posts_limit - old(all)@.len() { page@.len() as int } else { posts_limit - old(all)@.len() }),
    {
        let ghost start = all@;
        let ghost items = page@;
        let total = page.len();
        let mut page = page;
        let mut i: usize = 0;
        while i < total && all.len() < posts_limit as usize
            invariant
                total == items.len(),
                i <= total,
                page@ == items.skip(i as int),
                all@ == start + items.take(i as int),
                start.len() >= posts_limit ==> i == 0,
                start.len() < posts_limit ==> all@.len() <= posts_limit,
            decreases total - i,
        {
            let m = page.remove(0);
            proof {
                assert(items.take(i + 1) == items.take(i as int).push(m));
                assert(page@ =~= items.skip(i + 1));
            }
            all.push(m);
            i += 1;
        }
    }

    /// Whether the crawl reads the list page after one that gave `found` posts, with
    /// `collected` posts listed: the page was full, and fewer than `posts_limit` are listed.
    pub fn reads_next_page(found: usize, collected: usize, posts_limit: u32) -> (b: bool)
        ensures
            b == (found > 0 && collected < posts_limit && found >= POSTS_PER_PAGE),
    {
        found > 0 && collected < posts_limit as usize && found >= POSTS_PER_PAGE as usize
    }
}

/// Once a row among the first `k` is refused, the first refusal among the first `n` is
/// the same.
proof fn lemma_first_row_failure_stays(html: Seq<char>, k: int, n: int)
    requires
        0 < k <= n,
        first_row_failure(html, k) is Some,
    ensures
        first_row_failure(html, n) == first_row_failure(html, k),
    decreases n - k,
{
    if n > k {
        lemma_first_row_failure_stays(html, k, n - 1);
    }
}

} // verus!

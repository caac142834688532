//! The AI convergence department's notices as its single notice page lists them:
//! reading that page and its post pages, and the posts that they make.

use vstd::prelude::*;
use crate::datetime::{CivilDate, Timestamp, parsed_date, instant_of_local, parse_date_text, timestamp_at, date_parse_error, date_error_texts};
use crate::error::{PluginError, concat};
use crate::html::{
    all_matches_in_each, nested_views, fragment_matches, fragment_first_attr, text_concat, joined_url, url_parses,
    url_query_pairs, first_value_for, document_inner_htmls, matches_in_each, select_in_fragment,
    first_attr_in_fragment, join_url, is_url, query_pairs_of, find_pair_value, text_of_element, inner_htmls_in_document,
};
use crate::post::{Attachment, SsufidPost, opt_view, guessed_mime};
use crate::text::{trim, trim_str, chars_of, string_of_range, views, starts_with, has_prefix, utf8_bytes, has_utf8_bytes};

verus! {

/// The plugin's identifier.
pub const IDENTIFIER: &'static str = "aix";
/// The site's title.
pub const TITLE: &'static str = "숭실대학교 AI융합학부";
/// The site's description.
pub const DESCRIPTION: &'static str = "숭실대학교 AI융합학부 공지사항을 제공합니다.";
/// The site's address.
pub const BASE_URL: &'static str = "https://aix.ssu.ac.kr/";
/// The address of the notice page.
pub const NOTICE_LIST_URL: &'static str = "https://aix.ssu.ac.kr/notice.html";
/// The site's root, against which attachment links are resolved.
pub const ATTACHMENT_BASE_URL: &'static str = "https://aix.ssu.ac.kr";
/// The most posts a crawl reads.
pub const MAX_POSTS_LIMIT: u32 = 20;
/// The rows of the notice page.
pub const ROW_SELECTOR: &'static str = "div.table-responsive > table > tbody > tr";
/// A row's cells.
pub const CELL_SELECTOR: &'static str = "td";
/// Links.
pub const LINK_SELECTOR: &'static str = "a";
/// The start of a link to a post.
pub const POST_LINK_PREFIX: &'static str = "notice_view.html";
/// A post page's cells: the second holds its attachments, the third its content.
pub const CONTENT_SELECTOR: &'static str = "div.sub_notice_view > table > tbody > tr > td";
/// A post page's attachment links.
pub const ATTACHMENT_SELECTOR: &'static str = "div.sub_notice_view > table > tbody > tr > td > li > a";
/// The format of a post's date.
pub const DATE_FORMAT: &'static str = "[year].[month].[day]";
/// The category of every post.
pub const CATEGORY: &'static str = "공지사항";
/// The length, in bytes, above which a description is cut.
pub const DESCRIPTION_BYTES: usize = 100;
/// The length, in characters, to which a long description is cut.
pub const DESCRIPTION_CHARS: usize = 100;

/// The AI convergence department plugin, reading the single notice page.
pub struct AixPlugin;

/// A post as the notice page lists it.
#[derive(Clone, Debug)]
pub struct AixNoticeRow {
    pub post_url: String,
    pub post_id: String,
    pub title: String,
    pub created_at: CivilDate,
}

/// `e` is the plugin's refusal of unreadable content with the message `msg`.
pub open spec fn parse_error_is(e: PluginError, msg: Seq<char>) -> bool {
    e matches PluginError::Parse { plugin, message } && plugin@ == IDENTIFIER@ && message@ == msg
}

/// The most posts a crawl for `posts_limit` reads.
pub open spec fn limit_of(posts_limit: int) -> int {
    if posts_limit < MAX_POSTS_LIMIT { posts_limit } else { MAX_POSTS_LIMIT as int }
}

/// The title of a row: the trimmed text of the first link of its first cell, else of the
/// cell.
pub open spec fn row_title(cell: Seq<char>) -> Seq<char> {
    let links = fragment_matches(cell, LINK_SELECTOR@);
    if links.len() > 0 { trim(text_concat(links[0])) } else { trim(text_concat(cell)) }
}

/// The target of a link, when it starts as a post's does.
pub open spec fn post_target(link: Seq<char>) -> Option<Seq<char>> {
    match fragment_first_attr(link, "a"@, "href"@) {
        Some(h) => if starts_with(h, POST_LINK_PREFIX@) { Some(h) } else { None },
        None => None,
    }
}

/// The first link of a cell whose target starts as a post's does, if any.
pub open spec fn first_post_link(links: Seq<Seq<char>>) -> Option<Seq<char>>
    decreases links.len(),
{
    if links.len() == 0 {
        None
    } else if post_target(links[0]) is Some {
        post_target(links[0])
    } else {
        first_post_link(links.drop_first())
    }
}

/// The link to a row's post: the target of the first link of its first cell when it
/// starts as a post's does, else the first such target in the cell.
pub open spec fn row_link(cell: Seq<char>) -> Option<Seq<char>> {
    let links = fragment_matches(cell, LINK_SELECTOR@);
    if links.len() > 0 && post_target(links[0]) is Some {
        post_target(links[0])
    } else {
        first_post_link(links)
    }
}

/// What a row with the cells `cells` gives: nothing with fewer than four cells, its post
/// as address, number, title and date, or its refusal's message.
pub open spec fn row_result(cells: Seq<Seq<char>>) -> Result<Option<(Seq<char>, Seq<char>, Seq<char>, (int, int, int))>, Seq<char>> {
    if cells.len() < 4 {
        Ok(None)
    } else {
        let title = row_title(cells[0]);
        match row_link(cells[0]) {
            None => Err("Skipping row with no suitable notice_view.html link in title: '"@ + title + "'"@),
            Some(rel) => match joined_url(NOTICE_LIST_URL@, rel) {
                None => Err("Failed to join post URL '"@ + rel + "' with base '"@ + NOTICE_LIST_URL@ + "'"@),
                Some(u) => match url_query_pairs(u) {
                    None => Err("Could not parse idx from post URL: "@ + u),
                    Some(p) => match first_value_for(p, "idx"@) {
                        None => Err("Could not parse idx from post URL: "@ + u),
                        Some(id) => {
                            let d = trim(text_concat(cells[2]));
                            match parsed_date(d, DATE_FORMAT@) {
                                None => Err("Failed to parse date '"@ + d + "': "@ + date_parse_error(d, DATE_FORMAT@).0),
                                Some(ymd) => Ok(Some((u, id, title, ymd))),
                            }
                        },
                    },
                },
            },
        }
    }
}

/// Whether a listed post's date is a date.
pub open spec fn row_date_valid(r: AixNoticeRow) -> bool {
    crate::datetime::is_valid_date(r.created_at.year as int, r.created_at.month as int, r.created_at.day as int)
}

/// The fields of a listed post.
pub open spec fn row_fields(r: AixNoticeRow) -> (Seq<char>, Seq<char>, Seq<char>, (int, int, int)) {
    (r.post_url@, r.post_id@, r.title@, (r.created_at.year as int, r.created_at.month as int, r.created_at.day as int))
}

/// What reading the rows `rows` gives, keeping at most `limit` posts: the posts in order,
/// or the first refusal met before the limit is reached.
pub open spec fn rows_read(rows: Seq<Seq<Seq<char>>>, limit: int) -> Result<Seq<(Seq<char>, Seq<char>, Seq<char>, (int, int, int))>, Seq<char>>
    decreases rows.len(),
{
    if rows.len() == 0 || limit <= 0 {
        Ok(Seq::empty())
    } else {
        match row_result(rows[0]) {
            Err(m) => Err(m),
            Ok(None) => rows_read(rows.drop_first(), limit),
            Ok(Some(v)) => match rows_read(rows.drop_first(), limit - 1) {
                Ok(rest) => Ok(seq![v] + rest),
                Err(m) => Err(m),
            },
        }
    }
}

/// The description of a post: the text of its content, cut to its first hundred
/// characters and an ellipsis when it is longer than a hundred bytes.
pub open spec fn description_of(text: Seq<char>) -> Seq<char> {
    if utf8_bytes(text) > DESCRIPTION_BYTES {
        text.take(if text.len() < DESCRIPTION_CHARS { text.len() as int } else { DESCRIPTION_CHARS as int }) + "..."@
    } else {
        text
    }
}

/// The attachment links of a post page: those of its second cell.
pub open spec fn attachment_links(html: Seq<char>) -> Seq<Seq<char>> {
    let groups = all_matches_in_each(html, CONTENT_SELECTOR@, ATTACHMENT_SELECTOR@);
    if groups.len() > 1 { groups[1] } else { Seq::empty() }
}

/// `atts` are the attachments of the links `links`, in order, links without a target
/// left out: each named by its trimmed text, at its target resolved against the site's
/// root, of the type its name suggests.
pub open spec fn attachments_follow(atts: Seq<Attachment>, links: Seq<Seq<char>>) -> bool
    decreases links.len(),
{
    if links.len() == 0 {
        atts.len() == 0
    } else {
        match fragment_first_attr(links.last(), "a"@, "href"@) {
            Some(h) => {
                let name = trim(text_concat(links.last()));
                &&& atts.len() > 0
                &&& opt_view(atts.last().name) == Some(name)
                &&& Some(atts.last().url@) == joined_url(ATTACHMENT_BASE_URL@, h)
                &&& opt_view(atts.last().mime_type) == guessed_mime(name)
                &&& attachments_follow(atts.drop_last(), links.drop_last())
            },
            None => attachments_follow(atts, links.drop_last()),
        }
    }
}

/// The first attachment link that cannot be resolved, as its refusal's message.
pub open spec fn attachments_failure(links: Seq<Seq<char>>) -> Option<Seq<char>>
    decreases links.len(),
{
    if links.len() == 0 {
        None
    } else {
        match fragment_first_attr(links[0], "a"@, "href"@) {
            Some(h) => if joined_url(ATTACHMENT_BASE_URL@, h) is None {
                Some("Failed to parse attachment URL '"@ + h + "' with base '"@ + ATTACHMENT_BASE_URL@ + "'"@)
            } else {
                attachments_failure(links.drop_first())
            },
            None => attachments_failure(links.drop_first()),
        }
    }
}

impl AixPlugin {
    /// The plugin.
    pub fn new() -> (p: AixPlugin)
        ensures
            p == AixPlugin,
    {
        AixPlugin
    }

    /// The most posts a crawl for `posts_limit` reads.
    pub fn limit(posts_limit: u32) -> (n: u32)
        ensures
            n == limit_of(posts_limit as int),
    {
        if posts_limit < MAX_POSTS_LIMIT { posts_limit } else { MAX_POSTS_LIMIT }
    }

    /// The link to a row's post (see `row_link`).
    fn row_link_of(cell: &str) -> (r: Option<String>)
        ensures
            opt_view(r) == row_link(cell@),
    {
        let links = select_in_fragment(cell, LINK_SELECTOR);
        let ghost ls = views(links@);
        let prefix = chars_of(POST_LINK_PREFIX);
        if links.len() > 0 {
            proof {
                assert(ls[0] == links@[0]@);
            }
            if let Some(h) = first_attr_in_fragment(links[0].as_str(), "a", "href") {
                if has_prefix(&chars_of(h.as_str()), &prefix) {
                    return Some(h);
                }
            }
        }
        let mut i: usize = 0;
        proof {
            assert(ls.skip(0) == ls);
            reveal_strlit("notice_view.html");
        }
        while i < links.len()
            invariant
                i <= links@.len(),
                ls == views(links@),
                prefix@ == POST_LINK_PREFIX@,
                row_link(cell@) == first_post_link(ls),
                first_post_link(ls) == first_post_link(ls.skip(i as int)),
            decreases links@.len() - i,
        {
            proof {
                assert(ls.skip(i as int)[0] == links@[i as int]@);
                assert(ls.skip(i as int).drop_first() == ls.skip(i + 1));
            }
            if let Some(h) = first_attr_in_fragment(links[i].as_str(), "a", "href") {
                if has_prefix(&chars_of(h.as_str()), &prefix) {
                    return Some(h);
                }
            }
            i += 1;
        }
        proof {
            assert(ls.skip(ls.len() as int) =~= Seq::<Seq<char>>::empty());
        }
        None
    }

    /// Reads a row (see `row_result`).
    fn parse_row(cells: &Vec<String>) -> (r: Result<Option<AixNoticeRow>, PluginError>)
        ensures
            match r {
                Ok(None) => row_result(views(cells@)) == Ok::<Option<(Seq<char>, Seq<char>, Seq<char>, (int, int, int))>, Seq<char>>(None),
                Ok(Some(row)) => row_result(views(cells@)) == Ok::<Option<(Seq<char>, Seq<char>, Seq<char>, (int, int, int))>, Seq<char>>(Some(row_fields(row)))
                    && row_date_valid(row),
                Err(e) => row_result(views(cells@)) matches Err(m) && parse_error_is(e, m),
            },
    {
        if cells.len() < 4 {
            return Ok(None);
        }
        proof {
            assert(views(cells@)[0] == cells@[0]@);
            assert(views(cells@)[2] == cells@[2]@);
        }
        let links = select_in_fragment(cells[0].as_str(), LINK_SELECTOR);
        let title = if links.len() > 0 {
            proof {
                assert(views(links@)[0] == links@[0]@);
            }
            trim_str(text_of_element(links[0].as_str()).as_str())
        } else {
            trim_str(text_of_element(cells[0].as_str()).as_str())
        };
        let rel = match Self::row_link_of(cells[0].as_str()) {
            Some(h) => h,
            None => {
                let mut m = concat("Skipping row with no suitable notice_view.html link in title: '", title.as_str());
                m.append("'");
                return Err(PluginError::parse(IDENTIFIER, m));
            },
        };
        let url = match join_url(NOTICE_LIST_URL, rel.as_str()) {
            Some(u) => u,
            None => {
                let mut m = concat("Failed to join post URL '", rel.as_str());
                m.append("' with base '");
                m.append(NOTICE_LIST_URL);
                m.append("'");
                return Err(PluginError::parse(IDENTIFIER, m));
            },
        };
        let pairs = match query_pairs_of(url.as_str()) {
            Some(p) => p,
            None => return Err(PluginError::parse(IDENTIFIER, concat("Could not parse idx from post URL: ", url.as_str()))),
        };
        let id = match find_pair_value(&pairs, "idx") {
            Some(v) => v,
            None => return Err(PluginError::parse(IDENTIFIER, concat("Could not parse idx from post URL: ", url.as_str()))),
        };
        let d = trim_str(text_of_element(cells[2].as_str()).as_str());
        let date = match parse_date_text(d.as_str(), DATE_FORMAT) {
            Some(date) => date,
            None => {
                let mut m = concat("Failed to parse date '", d.as_str());
                m.append("': ");
                m.append(date_error_texts(d.as_str(), DATE_FORMAT).0.as_str());
                return Err(PluginError::parse(IDENTIFIER, m));
            },
        };
        Ok(Some(AixNoticeRow { post_url: url, post_id: id, title, created_at: date }))
    }

    /// Reads the notice page for a crawl for `posts_limit` posts: the posts of its rows
    /// with four cells or more, in order, until the crawl's limit is reached; refused at
    /// the first row that cannot be read before then (see `rows_read`).
    pub fn parse_notice_list(html: &str, posts_limit: u32) -> (r: Result<Vec<AixNoticeRow>, PluginError>)
        ensures
            match r {
                Ok(rows) => rows_read(all_matches_in_each(html@, ROW_SELECTOR@, CELL_SELECTOR@), limit_of(posts_limit as int))
                    == Ok::<Seq<(Seq<char>, Seq<char>, Seq<char>, (int, int, int))>, Seq<char>>(rows@.map_values(|x: AixNoticeRow| row_fields(x)))
                    && forall|i: int| 0 <= i < rows@.len() ==> row_date_valid(#[trigger] rows@[i]),
                Err(e) => rows_read(all_matches_in_each(html@, ROW_SELECTOR@, CELL_SELECTOR@), limit_of(posts_limit as int)) matches Err(m)
                    && parse_error_is(e, m),
            },
    {
        let limit = Self::limit(posts_limit);
        let rows = matches_in_each(html, ROW_SELECTOR, CELL_SELECTOR);
        let ghost rs = nested_views(rows@);
        let mut out: Vec<AixNoticeRow> = Vec::new();
        let mut i: usize = 0;
        proof {
            assert(rs.skip(0) == rs);
        }
        while i < rows.len() && out.len() < limit as usize
            invariant
                i <= rows@.len(),
                rs == nested_views(rows@),
                rs == all_matches_in_each(html@, ROW_SELECTOR@, CELL_SELECTOR@),
                out@.len() <= limit,
                limit == limit_of(posts_limit as int),
                forall|k: int| 0 <= k < out@.len() ==> row_date_valid(#[trigger] out@[k]),
                ({
                    let done = out@.map_values(|x: AixNoticeRow| row_fields(x));
                    match rows_read(rs.skip(i as int), limit - out@.len()) {
                        Ok(rest) => rows_read(rs, limit as int) == Ok::<Seq<(Seq<char>, Seq<char>, Seq<char>, (int, int, int))>, Seq<char>>(done + rest),
                        Err(m) => rows_read(rs, limit as int) == Err::<Seq<(Seq<char>, Seq<char>, Seq<char>, (int, int, int))>, Seq<char>>(m),
                    }
                }),
            decreases rows@.len() - i,
        {
            proof {
                assert(rs.skip(i as int)[0] == views(rows@[i as int]@));
                assert(rs.skip(i as int).drop_first() == rs.skip(i + 1));
            }
            let ghost before = out@;
            let ghost k = limit - before.len();
            match Self::parse_row(&rows[i]) {
                Ok(Some(row)) => {
                    out.push(row);
                    proof {
                        let done0 = before.map_values(|x: AixNoticeRow| row_fields(x));
                        let done1 = out@.map_values(|x: AixNoticeRow| row_fields(x));
                        assert(done1 =~= done0 + seq![row_fields(row)]);
                        assert(forall|kk: int| 0 <= kk < out@.len() ==> row_date_valid(#[trigger] out@[kk])) by {
                            assert forall|kk: int| 0 <= kk < out@.len() implies row_date_valid(#[trigger] out@[kk]) by {
                                if kk < before.len() {
                                    assert(out@[kk] == before[kk]);
                                }
                            }
                        }
                        match rows_read(rs.skip(i + 1), k - 1) {
                            Ok(rest) => {
                                assert(done0 + (seq![row_fields(row)] + rest) =~= done1 + rest);
                            },
                            Err(m) => {},
                        }
                    }
                },
                Ok(None) => {},
                Err(e) => return Err(e),
            }
            i += 1;
        }
        proof {
            if i == rows@.len() {
                assert(rs.skip(i as int) =~= Seq::<Seq<Seq<char>>>::empty());
            }
        }
        Ok(out)
    }

    /// The description of a post with the content `content` (see `description_of`).
    pub fn description(content: &str) -> (d: String)
        ensures
            d@ == description_of(text_concat(content@)),
    {
        let text = text_of_element(content);
        let v = chars_of(text.as_str());
        if has_utf8_bytes(&v, DESCRIPTION_BYTES + 1) {
            let n = if v.len() < DESCRIPTION_CHARS { v.len() } else { DESCRIPTION_CHARS };
            let mut d = string_of_range(&v, 0, n);
            d.append("...");
            proof {
                assert(v@.subrange(0, n as int) == v@.take(n as int));
            }
            d
        } else {
            text
        }
    }

    /// Reads a post page: its content, the inner HTML of its third cell (empty when
    /// missing), and the attachments of its second cell; refused at the first attachment
    /// link that cannot be resolved.
    pub fn parse_post_page(html: &str) -> (r: Result<(String, Vec<Attachment>), PluginError>)
        ensures
            match r {
                Ok((content, atts)) => {
                    &&& attachments_failure(attachment_links(html@)) is None
                    &&& content@ == (if document_inner_htmls(html@, CONTENT_SELECTOR@).len() > 2 {
                        document_inner_htmls(html@, CONTENT_SELECTOR@)[2]
                    } else {
                        Seq::empty()
                    })
                    &&& attachments_follow(atts@, attachment_links(html@))
                },
                Err(e) => attachments_failure(attachment_links(html@)) matches Some(m) && parse_error_is(e, m),
            },
    {
        let inners = inner_htmls_in_document(html, CONTENT_SELECTOR);
        let content = if inners.len() > 2 {
            proof {
                assert(views(inners@)[2] == inners@[2]@);
            }
            inners[2].clone()
        } else {
            String::new()
        };
        let groups = matches_in_each(html, CONTENT_SELECTOR, ATTACHMENT_SELECTOR);
        let links: Vec<String> = if groups.len() > 1 {
            proof {
                assert(nested_views(groups@)[1] == views(groups@[1]@));
            }
            groups[1].clone()
        } else {
            Vec::new()
        };
        proof {
            assert(views(links@) == attachment_links(html@));
        }
        let ghost ls = views(links@);
        let mut atts: Vec<Attachment> = Vec::new();
        let mut i: usize = 0;
        proof {
            assert(ls.skip(0) == ls);
        }
        while i < links.len()
            invariant
                i <= links@.len(),
                ls == views(links@),
                ls == attachment_links(html@),
                attachments_follow(atts@, ls.take(i as int)),
                attachments_failure(ls) == attachments_failure(ls.skip(i as int)),
            decreases links@.len() - i,
        {
            proof {
                assert(ls.take(i + 1).drop_last() == ls.take(i as int));
                assert(ls.take(i + 1).last() == links@[i as int]@);
                assert(ls.skip(i as int)[0] == links@[i as int]@);
                assert(ls.skip(i as int).drop_first() == ls.skip(i + 1));
            }
            let ghost before = atts@;
            if let Some(h) = first_attr_in_fragment(links[i].as_str(), "a", "href") {
                let name = trim_str(text_of_element(links[i].as_str()).as_str());
                let url = match join_url(ATTACHMENT_BASE_URL, h.as_str()) {
                    Some(u) => u,
                    None => {
                        let mut m = concat("Failed to parse attachment URL '", h.as_str());
                        m.append("' with base '");
                        m.append(ATTACHMENT_BASE_URL);
                        m.append("'");
                        return Err(PluginError::parse(IDENTIFIER, m));
                    },
                };
                atts.push(Attachment::from_guess(name, url));
                proof {
                    assert(atts@.drop_last() == before);
                }
            }
            i += 1;
        }
        proof {
            assert(ls.take(ls.len() as int) == ls);
        }
        Ok((content, atts))
    }

    /// The post that a listed post and its page make: its date at midnight, UTC, its
    /// description from its content (see `description_of`), and the one category of
    /// notices.
    pub fn into_post(row: AixNoticeRow, content: String, attachments: Vec<Attachment>) -> (p: SsufidPost)
        requires
            row_date_valid(row),
        ensures
            p.id == row.post_id,
            p.url == row.post_url,
            p.title == row.title,
            p.created_at.unix_nanos == instant_of_local(row.created_at.year as int, row.created_at.month as int,
                row.created_at.day as int, 0, 0, 0, 0),
            p.created_at.offset_seconds == 0,
            opt_view(p.description) == Some(description_of(text_concat(content@))),
            views(p.category@) == seq![CATEGORY@],
            p.content == content,
            p.attachments == attachments,
            p.author is None,
            p.updated_at is None,
            p.thumbnail is None,
            p.metadata is None,
    {
        let description = Self::description(content.as_str());
        let mut category: Vec<String> = Vec::new();
        category.push(String::from_str(CATEGORY));
        proof {
            assert(views(category@) =~= seq![CATEGORY@]);
        }
        SsufidPost {
            id: row.post_id,
            url: row.post_url,
            author: None,
            title: row.title,
            description: Some(description),
            category,
            created_at: timestamp_at(row.created_at, 0, 0, 0, 0),
            updated_at: None,
            thumbnail: None,
            content,
            attachments,
            metadata: None,
        }
    }
}

} // verus!

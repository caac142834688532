//! The international law department's notices, whose pages are fetched by form posts:
//! the forms, reading list pages and post pages, and the decisions of the crawl.

use vstd::prelude::*;
use crate::datetime::{parsed_date, kst_instant, KST_OFFSET_SECONDS, kst_midnight_from_text, date_parse_error, date_error_texts};
use crate::error::{PluginError, concat};
use crate::html::{
    cell_at, document_matches, document_attrs, first_matches_in_each, opt_views, text_concat, first_inner_html,
    first_text, attrs_in_document, first_in_each, text_of_element, select_in_document, first_inner_html_in_document,
    first_text_of,
};
use crate::order::{is_stable_sort_of, post_le, compare_posts};
use crate::post::{Attachment, SsufidPost, opt_view};
use crate::text::{trim, trim_str, chars_of, string_of, views, int_text, int_to_text, nth_piece, nth_piece_of, first_word, first_word_of};

verus! {

/// The plugin's identifier.
pub const IDENTIFIER: &'static str = "lawyer.ssu.ac.kr";
/// The site's title.
pub const TITLE: &'static str = "숭실대학교 국제법무학과";
/// The site's description.
pub const DESCRIPTION: &'static str = "숭실대학교 국제법무학과 홈페이지의 공지사항을 제공합니다.";
/// The address of the notice list, to which list forms are posted.
pub const BASE_URL: &'static str = "http://lawyer.ssu.ac.kr/web/05/notice_list.do";
/// The address to which a post's form is posted.
pub const POST_VIEW_URL: &'static str = "http://lawyer.ssu.ac.kr/web/05/notice_view.do";
/// The posts of a list page, without the pinned ones.
pub const POST_ITEM_SELECTOR: &'static str = "div.board-list-body > div.col:not(.noti)";
/// A post's title link in the list.
pub const POST_TITLE_SELECTOR: &'static str = "p.b-title > a";
/// A post's date in the list.
pub const POST_DATE_SELECTOR: &'static str = "p.b-date";
/// A post page's title.
pub const DETAIL_TITLE_SELECTOR: &'static str = "div.titlearea > h4";
/// A post page's line with its date.
pub const DETAIL_DATE_SELECTOR: &'static str = "ul.date-view > li:nth-child(1)";
/// A post page's content.
pub const DETAIL_CONTENT_SELECTOR: &'static str = "div.board-content";
/// A post page's attachments.
pub const DETAIL_ATTACHMENTS_SELECTOR: &'static str = "div.board-attach file";
/// The format of a post's date.
pub const DATE_FORMAT: &'static str = "[year]-[month]-[day]";
/// The label before a post page's date.
pub const DATE_LABEL: &'static str = "등록일";
/// The list page after which a crawl stops.
pub const MAX_PAGES_TO_CRAWL: u32 = 500;

/// The international law department plugin.
pub struct LawyerPlugin;

/// A post as the list shows it.
#[derive(Clone, Debug)]
pub struct PostMetadata {
    pub id: String,
    pub title: String,
    pub date_str: String,
}

/// The fields of a listed post: number, title and date.
pub open spec fn meta_fields(m: PostMetadata) -> (Seq<char>, Seq<char>, Seq<char>) {
    (m.id@, m.title@, m.date_str@)
}

/// `e` is the plugin's refusal of unreadable content with the message `msg`.
pub open spec fn parse_error_is(e: PluginError, msg: Seq<char>) -> bool {
    e matches PluginError::Parse { plugin, message } && plugin@ == IDENTIFIER@ && message@ == msg
}

/// The pairs of a form: the search fields empty, the post `pdsid`, the board's menu and
/// the page `pageno`.
pub open spec fn form_of(pdsid: Seq<char>, pageno: Seq<char>) -> Seq<(Seq<char>, Seq<char>)> {
    seq![("stype"@, Seq::empty()), ("stxt"@, Seq::empty()), ("pdsid"@, pdsid), ("menuid"@, "1003"@), ("pageno"@, pageno)]
}

/// The views of the pairs of a form.
pub open spec fn form_views(v: Seq<(String, String)>) -> Seq<(Seq<char>, Seq<char>)> {
    v.map_values(|p: (String, String)| (p.0@, p.1@))
}

/// What item `i` of a list page gives: its post's fields (its `id`, its trimmed title,
/// and its trimmed date or nothing), or its refusal's message.
pub open spec fn item_result(html: Seq<char>, i: int) -> Result<(Seq<char>, Seq<char>, Seq<char>), Seq<char>> {
    match cell_at(document_attrs(html, POST_ITEM_SELECTOR@, "id"@), i) {
        None => Err("Failed to extract post ID from div.col"@),
        Some(id) => match cell_at(first_matches_in_each(html, POST_ITEM_SELECTOR@, POST_TITLE_SELECTOR@), i) {
            None => Err("Failed to find title for post ID "@ + id),
            Some(t) => Ok((id, trim(text_concat(t)), match cell_at(first_matches_in_each(html, POST_ITEM_SELECTOR@, POST_DATE_SELECTOR@), i) {
                Some(d) => trim(text_concat(d)),
                None => Seq::empty(),
            })),
        },
    }
}

/// The number of items of a list page.
pub open spec fn item_count(html: Seq<char>) -> int {
    document_attrs(html, POST_ITEM_SELECTOR@, "id"@).len() as int
}

/// The first refused item among the first `n`, as its message.
pub open spec fn first_item_failure(html: Seq<char>, n: int) -> Option<Seq<char>>
    decreases n,
{
    if n <= 0 {
        None
    } else if first_item_failure(html, n - 1) is Some {
        first_item_failure(html, n - 1)
    } else {
        match item_result(html, n - 1) {
            Err(m) => Some(m),
            Ok(_) => None,
        }
    }
}

/// The list without the later ones of each run of neighbours with the same number
/// (`Vec::dedup` with equality by number).
pub open spec fn dedup_by_id(s: Seq<PostMetadata>) -> Seq<PostMetadata>
    decreases s.len(),
{
    if s.len() == 0 {
        s
    } else if s.len() >= 2 && s[s.len() - 2].id@ == s.last().id@ {
        dedup_by_id(s.drop_last())
    } else {
        dedup_by_id(s.drop_last()).push(s.last())
    }
}

/// The date text of a post page: the first word after the label on its date line, else
/// the date of its row.
pub open spec fn detail_date(html: Seq<char>, date_str: Seq<char>) -> Seq<char> {
    let m = document_matches(html, DETAIL_DATE_SELECTOR@);
    if m.len() > 0 {
        match nth_piece(text_concat(m[0]), DATE_LABEL@, 1) {
            Some(part) => match first_word(part) {
                Some(w) => w,
                None => date_str,
            },
            None => date_str,
        }
    } else {
        date_str
    }
}

/// Why the post page of `meta` is refused, as its message: an unreadable date, then no
/// content.
pub open spec fn post_failure(html: Seq<char>, meta: PostMetadata) -> Option<Seq<char>> {
    let d = detail_date(html, meta.date_str@);
    if parsed_date(d, DATE_FORMAT@) is None {
        Some("Failed to parse date string '"@ + d + "' with format '"@ + DATE_FORMAT@ + "': "@ + date_parse_error(d, DATE_FORMAT@).0)
    } else if first_inner_html(html, DETAIL_CONTENT_SELECTOR@) is None {
        Some("Failed to find content element for post ID "@ + meta.id@ + " - "@ + meta.title@)
    } else {
        None
    }
}

/// `atts` are the attachments named by the elements `els`: each with its trimmed text as
/// name and the list's address.
pub open spec fn attachments_follow(atts: Seq<Attachment>, els: Seq<Seq<char>>) -> bool {
    &&& atts.len() == els.len()
    &&& forall|i: int| 0 <= i < els.len() ==> {
        &&& opt_view((#[trigger] atts[i]).name) == Some(trim(text_concat(els[i])))
        &&& atts[i].url@ == BASE_URL@
        &&& atts[i].mime_type is None
    }
}

/// What comes after a list page: the next page to fetch, the end of the listing, or a
/// failure.
pub enum LawyerStep {
    Next(u32),
    Done,
    Fail(PluginError),
}

/// The listing so far: the page last asked for and the posts gathered.
pub struct LawyerCrawl {
    pub page: u32,
    pub metas: Vec<PostMetadata>,
}

impl LawyerPlugin {
    /// The plugin.
    pub fn new() -> (p: LawyerPlugin)
        ensures
            p == LawyerPlugin,
    {
        LawyerPlugin
    }

    /// The form posted for list page `page`.
    pub fn list_form(page: u32) -> (f: Vec<(String, String)>)
        ensures
            form_views(f@) == form_of(Seq::empty(), int_text(page as int)),
    {
        let mut f: Vec<(String, String)> = Vec::new();
        f.push((String::from_str("stype"), String::new()));
        f.push((String::from_str("stxt"), String::new()));
        f.push((String::from_str("pdsid"), String::new()));
        f.push((String::from_str("menuid"), String::from_str("1003")));
        f.push((String::from_str("pageno"), int_to_text(page as i64)));
        proof {
            assert(form_views(f@) =~= form_of(Seq::empty(), int_text(page as int)));
        }
        f
    }

    /// The form posted for the post `pdsid`.
    pub fn post_form(pdsid: String) -> (f: Vec<(String, String)>)
        ensures
            form_views(f@) == form_of(pdsid@, "1"@),
    {
        let ghost id = pdsid@;
        let mut f: Vec<(String, String)> = Vec::new();
        f.push((String::from_str("stype"), String::new()));
        f.push((String::from_str("stxt"), String::new()));
        f.push((String::from_str("pdsid"), pdsid));
        f.push((String::from_str("menuid"), String::from_str("1003")));
        f.push((String::from_str("pageno"), String::from_str("1")));
        proof {
            assert(form_views(f@) =~= form_of(id, "1"@));
        }
        f
    }

    /// Reads item `i` of a list page (see `item_result`).
    fn parse_item(i: usize, ids: &Vec<Option<String>>, titles: &Vec<Option<String>>, dates: &Vec<Option<String>>,
        html: Ghost<Seq<char>>) -> (r: Result<PostMetadata, PluginError>)
        requires
            i < ids@.len(),
            opt_views(ids@) == document_attrs(html@, POST_ITEM_SELECTOR@, "id"@),
            opt_views(titles@) == first_matches_in_each(html@, POST_ITEM_SELECTOR@, POST_TITLE_SELECTOR@),
            opt_views(dates@) == first_matches_in_each(html@, POST_ITEM_SELECTOR@, POST_DATE_SELECTOR@),
        ensures
            match r {
                Ok(m) => item_result(html@, i as int) == Ok::<(Seq<char>, Seq<char>, Seq<char>), Seq<char>>(meta_fields(m)),
                Err(e) => item_result(html@, i as int) matches Err(m) && parse_error_is(e, m),
            },
    {
        proof {
            assert(opt_views(ids@)[i as int] == opt_view(ids@[i as int]));
        }
        let id = match &ids[i] {
            Some(id) => id.clone(),
            None => return Err(PluginError::parse(IDENTIFIER, String::from_str("Failed to extract post ID from div.col"))),
        };
        let t = if i < titles.len() {
            proof {
                assert(opt_views(titles@)[i as int] == opt_view(titles@[i as int]));
            }
            match &titles[i] {
                Some(t) => t,
                None => return Err(PluginError::parse(IDENTIFIER, concat("Failed to find title for post ID ", id.as_str()))),
            }
        } else {
            return Err(PluginError::parse(IDENTIFIER, concat("Failed to find title for post ID ", id.as_str())));
        };
        let title = trim_str(text_of_element(t.as_str()).as_str());
        let date_str = if i < dates.len() {
            proof {
                assert(opt_views(dates@)[i as int] == opt_view(dates@[i as int]));
            }
            match &dates[i] {
                Some(d) => trim_str(text_of_element(d.as_str()).as_str()),
                None => String::new(),
            }
        } else {
            String::new()
        };
        Ok(PostMetadata { id, title, date_str })
    }

    /// Reads a list page: the posts of its items, in order; refused at the first item
    /// without a number or a title.
    pub fn parse_list_page(html: &str) -> (r: Result<Vec<PostMetadata>, PluginError>)
        ensures
            match r {
                Ok(metas) => {
                    &&& first_item_failure(html@, item_count(html@)) is None
                    &&& metas@.len() == item_count(html@)
                    &&& forall|i: int| 0 <= i < metas@.len() ==>
                        item_result(html@, i) == Ok::<(Seq<char>, Seq<char>, Seq<char>), Seq<char>>(meta_fields(#[trigger] metas@[i]))
                },
                Err(e) => first_item_failure(html@, item_count(html@)) matches Some(m) && parse_error_is(e, m),
            },
    {
        let ids = attrs_in_document(html, POST_ITEM_SELECTOR, "id");
        let titles = first_in_each(html, POST_ITEM_SELECTOR, POST_TITLE_SELECTOR);
        let dates = first_in_each(html, POST_ITEM_SELECTOR, POST_DATE_SELECTOR);
        let ghost n = opt_views(ids@).len() as int;
        let mut metas: Vec<PostMetadata> = Vec::new();
        let mut i: usize = 0;
        while i < ids.len()
            invariant
                i <= ids@.len(),
                n == ids@.len(),
                opt_views(ids@) == document_attrs(html@, POST_ITEM_SELECTOR@, "id"@),
                opt_views(titles@) == first_matches_in_each(html@, POST_ITEM_SELECTOR@, POST_TITLE_SELECTOR@),
                opt_views(dates@) == first_matches_in_each(html@, POST_ITEM_SELECTOR@, POST_DATE_SELECTOR@),
                first_item_failure(html@, i as int) is None,
                metas@.len() == i,
                forall|j: int| 0 <= j < i ==>
                    item_result(html@, j) == Ok::<(Seq<char>, Seq<char>, Seq<char>), Seq<char>>(meta_fields(#[trigger] metas@[j])),
            decreases ids@.len() - i,
        {
            match Self::parse_item(i, &ids, &titles, &dates, Ghost(html@)) {
                Ok(m) => {
                    metas.push(m);
                },
                Err(e) => {
                    proof {
                        lemma_first_item_failure_stays(html@, i + 1, n);
                    }
                    return Err(e);
                },
            }
            i += 1;
        }
        Ok(metas)
    }

    /// The date text of a post page (see `detail_date`).
    fn detail_date_of(html: &str, date_str: &String) -> (d: String)
        ensures
            d@ == detail_date(html@, date_str@),
    {
        let m = select_in_document(html, DETAIL_DATE_SELECTOR);
        if m.len() == 0 {
            return date_str.clone();
        }
        proof {
            assert(views(m@)[0] == m@[0]@);
            reveal_strlit("등록일");
        }
        let full = chars_of(text_of_element(m[0].as_str()).as_str());
        let label = chars_of(DATE_LABEL);
        match nth_piece_of(&full, &label, 1) {
            Some(part) => match first_word_of(string_of(&part).as_str()) {
                Some(w) => w,
                None => date_str.clone(),
            },
            None => date_str.clone(),
        }
    }

    /// Reads the post page of the post listed as `meta` (see `post_failure`): its title
    /// (else the listed one), its date (see `detail_date`) at midnight, Korea Standard
    /// Time, its content and its attachments, all at the list's address.
    pub fn parse_post_page(html: &str, meta: &PostMetadata) -> (r: Result<SsufidPost, PluginError>)
        ensures
            match r {
                Err(e) => post_failure(html@, *meta) matches Some(m) && parse_error_is(e, m),
                Ok(p) => {
                    &&& post_failure(html@, *meta) is None
                    &&& p.id == meta.id
                    &&& p.url@ == BASE_URL@
                    &&& p.title@ == (match first_text(html@, DETAIL_TITLE_SELECTOR@) { Some(t) => t, None => meta.title@ })
                    &&& parsed_date(detail_date(html@, meta.date_str@), DATE_FORMAT@) matches Some(d)
                    &&& p.created_at.unix_nanos == kst_instant((d.0, d.1, d.2, 0, 0, 0))
                    &&& p.created_at.offset_seconds == KST_OFFSET_SECONDS
                    &&& Some(p.content@) == first_inner_html(html@, DETAIL_CONTENT_SELECTOR@)
                    &&& attachments_follow(p.attachments@, document_matches(html@, DETAIL_ATTACHMENTS_SELECTOR@))
                    &&& p.author is None
                    &&& p.category@.len() == 0
                    &&& p.description is None
                    &&& p.updated_at is None
                    &&& p.thumbnail is None
                    &&& p.metadata is None
                },
            },
    {
        let title = match first_text_of(html, DETAIL_TITLE_SELECTOR) {
            Some(t) => t,
            None => meta.title.clone(),
        };
        let date_text = Self::detail_date_of(html, &meta.date_str);
        let created_at = match kst_midnight_from_text(date_text.as_str(), DATE_FORMAT) {
            Some(t) => t,
            None => {
                let mut m = concat("Failed to parse date string '", date_text.as_str());
                m.append("' with format '");
                m.append(DATE_FORMAT);
                m.append("': ");
                m.append(date_error_texts(date_text.as_str(), DATE_FORMAT).0.as_str());
                return Err(PluginError::parse(IDENTIFIER, m));
            },
        };
        let content = match first_inner_html_in_document(html, DETAIL_CONTENT_SELECTOR) {
            Some(c) => c,
            None => {
                let mut m = concat("Failed to find content element for post ID ", meta.id.as_str());
                m.append(" - ");
                m.append(meta.title.as_str());
                return Err(PluginError::parse(IDENTIFIER, m));
            },
        };
        let els = select_in_document(html, DETAIL_ATTACHMENTS_SELECTOR);
        let mut attachments: Vec<Attachment> = Vec::new();
        let mut i: usize = 0;
        while i < els.len()
            invariant
                i <= els@.len(),
                views(els@) == document_matches(html@, DETAIL_ATTACHMENTS_SELECTOR@),
                attachments_follow(attachments@, views(els@).take(i as int)),
            decreases els@.len() - i,
        {
            let name = trim_str(text_of_element(els[i].as_str()).as_str());
            attachments.push(Attachment { name: Some(name), url: String::from_str(BASE_URL), mime_type: None });
            proof {
                assert(views(els@).take(i + 1)[i as int] == els@[i as int]@);
            }
            i += 1;
        }
        proof {
            assert(views(els@).take(els@.len() as int) == views(els@));
        }
        Ok(SsufidPost {
            id: meta.id.clone(),
            url: String::from_str(BASE_URL),
            title,
            author: None,
            description: None,
            category: Vec::new(),
            created_at,
            updated_at: None,
            thumbnail: None,
            content,
            attachments,
            metadata: None,
        })
    }

    /// The posts, newest first; posts created at the same instant keep their order.
    pub fn newest_first(posts: Vec<SsufidPost>) -> (r: Vec<SsufidPost>)
        ensures
            is_stable_sort_of(posts@, r@, |a: SsufidPost, b: SsufidPost| post_le(b, a)),
    {
        let mut v = posts;
        sort_posts_newest_first(&mut v);
        v
    }
}

/// The list `all` followed by `page`, then without the later ones of each run of
/// neighbours with the same number (see `dedup_by_id`).
pub fn extend_dedup(all: Vec<PostMetadata>, page: Vec<PostMetadata>) -> (r: Vec<PostMetadata>)
    ensures
        r@ == dedup_by_id(all@ + page@),
{
    let mut src = all;
    let mut rest = page;
    src.append(&mut rest);
    let ghost s = src@;
    let mut out: Vec<PostMetadata> = Vec::new();
    let mut i: usize = 0;
    let n = src.len();
    let mut items = src;
    let mut prev: Option<String> = None;
    while i < n
        invariant
            n == s.len(),
            i <= n,
            items@ == s.skip(i as int),
            out@ == dedup_by_id(s.take(i as int)),
            i == 0 ==> prev is None,
            i > 0 ==> prev == Some(s[i - 1].id),
        decreases n - i,
    {
        let m = items.remove(0);
        proof {
            assert(m == s[i as int]);
            assert(s.take(i + 1).drop_last() == s.take(i as int));
            assert(s.take(i + 1).last() == m);
            assert(items@ =~= s.skip(i + 1));
            if i > 0 {
                assert(s.take(i + 1)[i - 1] == s[i - 1]);
            }
        }
        let same = match &prev {
            Some(p) => *p == m.id,
            None => false,
        };
        prev = Some(m.id.clone());
        if !same {
            out.push(m);
        }
        i += 1;
    }
    proof {
        assert(s.take(n as int) == s);
    }
    out
}

impl LawyerCrawl {
    /// A listing before its first page.
    pub fn new() -> (c: LawyerCrawl)
        ensures
            c.page == 1,
            c.metas@.len() == 0,
    {
        LawyerCrawl { page: 1, metas: Vec::new() }
    }

    /// Takes in what the fetch of the current list page gave and decides what comes next.
    /// A failure on the first page fails the crawl and ends the listing on a later page;
    /// an empty page ends it. Otherwise the page's posts join the list, which loses the
    /// later ones of runs of neighbours with the same number; the listing ends once the
    /// list holds `posts_limit` posts (cut to that many; a limit of 0 sets none) or at the
    /// last page allowed, and goes on to the next page otherwise.
    pub fn take_page(&mut self, result: Result<Vec<PostMetadata>, PluginError>, posts_limit: u32) -> (s: LawyerStep)
        requires
            old(self).page >= 1,
        ensures
            match result {
                Err(e) => final(self).metas@ == old(self).metas@ && final(self).page == old(self).page
                    && (if old(self).page == 1 { s == LawyerStep::Fail(e) } else { s is Done }),
                Ok(items) => if items@.len() == 0 {
                    final(self).metas@ == old(self).metas@ && final(self).page == old(self).page && s is Done
                } else {
                    let merged = dedup_by_id(old(self).metas@ + items@);
                    if posts_limit > 0 && merged.len() >= posts_limit {
                        final(self).metas@ == merged.take(posts_limit as int) && s is Done && final(self).page == old(self).page
                    } else if old(self).page >= MAX_PAGES_TO_CRAWL {
                        final(self).metas@ == merged && s is Done && final(self).page == old(self).page
                    } else {
                        final(self).metas@ == merged && final(self).page == old(self).page + 1
                            && s == LawyerStep::Next((old(self).page + 1) as u32)
                    }
                },
            },
    {
        let items = match result {
            Err(e) => {
                if self.page == 1 {
                    return LawyerStep::Fail(e);
                }
                return LawyerStep::Done;
            },
            Ok(items) => items,
        };
        if items.len() == 0 {
            return LawyerStep::Done;
        }
        let mut all: Vec<PostMetadata> = Vec::new();
        std::mem::swap(&mut all, &mut self.metas);
        let mut merged = extend_dedup(all, items);
        if posts_limit > 0 && merged.len() >= posts_limit as usize {
            merged.truncate(posts_limit as usize);
            self.metas = merged;
            return LawyerStep::Done;
        }
        self.metas = merged;
        if self.page >= MAX_PAGES_TO_CRAWL {
            return LawyerStep::Done;
        }
        self.page = self.page + 1;
        LawyerStep::Next(self.page)
    }
}

/// Sorts posts newest first, keeping the order of posts created at the same instant
/// (`slice::sort_by` with the comparison reversed; its sort is stable).
#[verifier::external_body]
fn sort_posts_newest_first(v: &mut Vec<SsufidPost>)
    ensures
        is_stable_sort_of(old(v)@, final(v)@, |a: SsufidPost, b: SsufidPost| post_le(b, a)),
{
    v.sort_by(|a, b| compare_posts(b, a));
}

/// An item that refuses stays the first refusal among any longer prefix of items.
proof fn lemma_first_item_failure_stays(html: Seq<char>, k: int, n: int)
    requires
        0 < k <= n,
        first_item_failure(html, k) is Some,
    ensures
        first_item_failure(html, n) == first_item_failure(html, k),
    decreases n - k,
{
    if n > k {
        lemma_first_item_failure_stays(html, k, n - 1);
    }
}

} // verus!

//! The materials science and engineering department's notices: reading its list pages
//! and post pages, and the listing of a crawl.

use vstd::prelude::*;
use crate::datetime::{parsed_date, kst_instant, KST_OFFSET_SECONDS, kst_midnight_from_text, date_parse_error, date_error_texts};
use crate::error::{PluginError, concat};
use crate::html::{
    cell_at, document_matches, first_matches_in_each, opt_views, text_concat, fragment_first_attr, fragment_matches,
    joined_url, url_parses, url_query_pairs, first_value_for, first_text, first_inner_html, select_in_document,
    first_in_each, first_attr_in_fragment, select_in_fragment, join_url, is_url, query_pairs_of, find_pair_value,
    text_of_element, first_text_of, first_inner_html_in_document,
};
use crate::post::{Attachment, SsufidPost, opt_view};
use crate::text::{trim, trim_str, views, int_text, int_to_text};

verus! {

/// The plugin's identifier.
pub const IDENTIFIER: &'static str = "materials.ssu.ac.kr";
/// The site's title.
pub const TITLE: &'static str = "숭실대학교 신소재공학과 공지사항";
/// The site's description.
pub const DESCRIPTION: &'static str = "숭실대학교 신소재공학과 홈페이지의 공지사항을 제공합니다.";
/// The address of the notice board.
pub const BASE_URL: &'static str = "https://materials.ssu.ac.kr/bbs/board.php?tbl=bbs51";
/// The site's root, against which links are resolved.
pub const BASE_URL_HOST_ONLY: &'static str = "https://materials.ssu.ac.kr";
/// The browser that requests claim to come from.
pub const USER_AGENT: &'static str = "Mozilla/5.0 (X11; Linux x86_64) AppleWebKit/537.36 (KHTML, like Gecko) Chrome/100.0.0.0 Safari/537.36";
/// A list page's items.
pub const LIST_ITEM_SELECTOR: &'static str = "div.news-list > ul > li";
/// An item's link to its post.
pub const POST_LINK_SELECTOR: &'static str = "a";
/// A link's title.
pub const TITLE_SELECTOR: &'static str = "div.txt_box > div.tit_box > strong";
/// The mark of a pinned post on a link.
pub const NOTICE_ICON_SELECTOR: &'static str = "div.txt_box > div.tit_box > strong > span.tag01";
/// A post page's title.
pub const POST_TITLE_SELECTOR_DETAIL: &'static str = ".basic_bd01_view > .inner > .tit_box > p";
/// A post page's date.
pub const POST_DATE_SELECTOR_DETAIL: &'static str = ".basic_bd01_view > .inner > .tit_box > span";
/// A post page's content.
pub const POST_CONTENT_SELECTOR: &'static str = ".basic_bd01_view > .inner > .view_box";
/// A post page's attachment links.
pub const ATTACHMENT_ITEM_SELECTOR: &'static str = ".basic_bd01_view > .inner > .view_box > .file_box > ul > li > a";
/// The format of a post's date.
pub const DATE_FORMAT: &'static str = "[year].[month].[day]";
/// The category of pinned posts.
pub const NOTICE_CATEGORY: &'static str = "공지";
/// The list page after which a crawl stops.
pub const MAX_PAGES: u32 = 20;

/// The materials science and engineering department plugin.
pub struct MaterialsPlugin;

/// A post as the list shows it.
#[derive(Clone, Debug)]
pub struct PostMetadata {
    pub id: String,
    pub url: String,
    pub title: String,
    pub is_notice: bool,
}

/// `e` is the plugin's refusal of unreadable content with the message `msg`.
pub open spec fn parse_error_is(e: PluginError, msg: Seq<char>) -> bool {
    e matches PluginError::Parse { plugin, message } && plugin@ == IDENTIFIER@ && message@ == msg
}

/// The address of list page `page`.
pub open spec fn page_url_of(page: int) -> Seq<char> {
    BASE_URL@ + "&page="@ + int_text(page)
}

/// The item `i` of a list page and its link.
pub open spec fn item_at(html: Seq<char>, i: int) -> Seq<char> {
    let m = document_matches(html, LIST_ITEM_SELECTOR@);
    if 0 <= i < m.len() { m[i] } else { Seq::empty() }
}

/// What item `i` of a list page gives: its post's number, address, title and mark, or
/// its refusal's message.
pub open spec fn item_result(html: Seq<char>, i: int) -> Result<(Seq<char>, Seq<char>, Seq<char>, bool), Seq<char>> {
    match cell_at(first_matches_in_each(html, LIST_ITEM_SELECTOR@, POST_LINK_SELECTOR@), i) {
        None => Err("No post link found in item. HTML: "@ + item_at(html, i)),
        Some(l) => match fragment_first_attr(l, "a"@, "href"@) {
            None => Err("No 'href' attribute found in post link element for item. HTML: "@ + l),
            Some(raw) => {
                let rel = trim(raw);
                match joined_url(BASE_URL_HOST_ONLY@, rel) {
                    None => Err("Failed to join post URL '"@ + rel + "' with base '"@ + BASE_URL_HOST_ONLY@ + "'"@),
                    Some(abs) => match first_value_for(url_query_pairs(abs)->0, "num"@) {
                        None => Err("Could not extract post ID ('num') from URL: "@ + abs),
                        Some(id) => {
                            let titles = fragment_matches(l, TITLE_SELECTOR@);
                            if titles.len() == 0 {
                                Err("No title found in post link element for item "@ + id + ". HTML: "@ + l)
                            } else {
                                Ok((id, abs, trim(text_concat(titles[0])), fragment_matches(l, NOTICE_ICON_SELECTOR@).len() > 0))
                            }
                        },
                    },
                }
            },
        },
    }
}

/// Whether an item's link can be read: when it has a target, the site's root is a URL
/// and the resolved address can be read again as one.
pub open spec fn link_readable(c: Option<Seq<char>>) -> bool {
    match c {
        Some(l) => match fragment_first_attr(l, "a"@, "href"@) {
            Some(raw) => url_parses(BASE_URL_HOST_ONLY@)
                && (joined_url(BASE_URL_HOST_ONLY@, trim(raw)) matches Some(abs) ==> url_query_pairs(abs) is Some),
            None => true,
        },
        None => true,
    }
}

/// Whether every item's link of a list page can be read.
pub open spec fn list_page_readable(html: Seq<char>) -> bool {
    let links = first_matches_in_each(html, LIST_ITEM_SELECTOR@, POST_LINK_SELECTOR@);
    forall|i: int| 0 <= i < links.len() ==> link_readable(#[trigger] cell_at(links, i))
}

/// The first refused item among the first `n`, as its message.
pub open spec fn first_item_failure(html: Seq<char>, n: int) -> Option<Seq<char>>
    decreases n,
{
    if n <= 0 {
        None
    } else if first_item_failure(html, n - 1) is Some {
        first_item_failure(html, n - 1)
    } else {
        match item_result(html, n - 1) {
            Err(m) => Some(m),
            Ok(_) => None,
        }
    }
}

/// The number of items of a list page.
pub open spec fn item_count(html: Seq<char>) -> int {
    first_matches_in_each(html, LIST_ITEM_SELECTOR@, POST_LINK_SELECTOR@).len() as int
}

/// The fields of a listed post.
pub open spec fn meta_fields(m: PostMetadata) -> (Seq<char>, Seq<char>, Seq<char>, bool) {
    (m.id@, m.url@, m.title@, m.is_notice)
}

/// Why the post page of `meta` is refused, as its message: no date, an unreadable one, or
/// an attachment link without a target; in that order.
pub open spec fn post_failure(html: Seq<char>, meta: PostMetadata) -> Option<Seq<char>> {
    let dates = document_matches(html, POST_DATE_SELECTOR_DETAIL@);
    if dates.len() == 0 {
        Some("No date found in post detail page for "@ + meta.url@)
    } else if parsed_date(trim(text_concat(dates[0])), DATE_FORMAT@) is None {
        Some("Failed to parse date '"@ + text_concat(dates[0]) + "' for post "@ + meta.url@ + ": "@
            + date_parse_error(trim(text_concat(dates[0])), DATE_FORMAT@).0)
    } else {
        attachments_failure(document_matches(html, ATTACHMENT_ITEM_SELECTOR@))
    }
}

/// The first attachment link without a target among `links`, as its refusal's message.
pub open spec fn attachments_failure(links: Seq<Seq<char>>) -> Option<Seq<char>>
    decreases links.len(),
{
    if links.len() == 0 {
        None
    } else if fragment_first_attr(links[0], "a"@, "href"@) is None {
        Some("No 'href' attribute found in attachment element: "@ + links[0])
    } else {
        attachments_failure(links.drop_first())
    }
}

/// `atts` are the attachments of the links `links`: each at the site's root followed by
/// its target, named by its trimmed text.
pub open spec fn attachments_follow(atts: Seq<Attachment>, links: Seq<Seq<char>>) -> bool {
    &&& atts.len() == links.len()
    &&& forall|i: int| 0 <= i < links.len() ==> {
        &&& (#[trigger] atts[i]).url@ == BASE_URL_HOST_ONLY@ + fragment_first_attr(links[i], "a"@, "href"@)->0
        &&& opt_view(atts[i].name) == Some(trim(text_concat(links[i])))
        &&& atts[i].mime_type is None
    }
}

/// The posts listed so far and the last list page read.
pub struct MaterialsListing {
    pub metas: Vec<PostMetadata>,
    pub page_count: u32,
}

impl MaterialsPlugin {
    /// The plugin.
    pub fn new() -> (p: MaterialsPlugin)
        ensures
            p == MaterialsPlugin,
    {
        MaterialsPlugin
    }

    /// The address of list page `page`.
    pub fn page_url(page: u32) -> (out: String)
        ensures
            out@ == page_url_of(page as int),
    {
        let mut out = concat(BASE_URL, "&page=");
        out.append(int_to_text(page as i64).as_str());
        out
    }

    /// Whether a list page can be read (see `list_page_readable`).
    pub fn list_page_readable(html: &str) -> (b: bool)
        ensures
            b == list_page_readable(html@),
    {
        let links = first_in_each(html, LIST_ITEM_SELECTOR, POST_LINK_SELECTOR);
        let host_ok = is_url(BASE_URL_HOST_ONLY);
        let mut i: usize = 0;
        while i < links.len()
            invariant
                i <= links@.len(),
                opt_views(links@) == first_matches_in_each(html@, LIST_ITEM_SELECTOR@, POST_LINK_SELECTOR@),
                host_ok == url_parses(BASE_URL_HOST_ONLY@),
                forall|j: int| 0 <= j < i ==>
                    link_readable(#[trigger] cell_at(first_matches_in_each(html@, LIST_ITEM_SELECTOR@, POST_LINK_SELECTOR@), j)),
            decreases links@.len() - i,
        {
            proof {
                assert(opt_views(links@)[i as int] == opt_view(links@[i as int]));
            }
            if let Some(l) = &links[i] {
                if let Some(raw) = first_attr_in_fragment(l.as_str(), "a", "href") {
                    if !host_ok {
                        proof {
                            assert(!link_readable(cell_at(first_matches_in_each(html@, LIST_ITEM_SELECTOR@, POST_LINK_SELECTOR@), i as int)));
                        }
                        return false;
                    }
                    let rel = trim_str(raw.as_str());
                    if let Some(abs) = join_url(BASE_URL_HOST_ONLY, rel.as_str()) {
                        if query_pairs_of(abs.as_str()).is_none() {
                            proof {
                                assert(!link_readable(cell_at(first_matches_in_each(html@, LIST_ITEM_SELECTOR@, POST_LINK_SELECTOR@), i as int)));
                            }
                            return false;
                        }
                    }
                }
            }
            i += 1;
        }
        true
    }

    /// Reads item `i` of a list page (see `item_result`).
    fn parse_item(i: usize, items: &Vec<String>, links: &Vec<Option<String>>, html: Ghost<Seq<char>>)
        -> (r: Result<PostMetadata, PluginError>)
        requires
            i < links@.len(),
            list_page_readable(html@),
            views(items@) == document_matches(html@, LIST_ITEM_SELECTOR@),
            opt_views(links@) == first_matches_in_each(html@, LIST_ITEM_SELECTOR@, POST_LINK_SELECTOR@),
        ensures
            match r {
                Ok(m) => item_result(html@, i as int) == Ok::<(Seq<char>, Seq<char>, Seq<char>, bool), Seq<char>>(meta_fields(m)),
                Err(e) => item_result(html@, i as int) matches Err(m) && parse_error_is(e, m),
            },
    {
        proof {
            assert(opt_views(links@)[i as int] == opt_view(links@[i as int]));
            assert(cell_at(first_matches_in_each(html@, LIST_ITEM_SELECTOR@, POST_LINK_SELECTOR@), i as int) == opt_view(links@[i as int]));
        }
        let l = match &links[i] {
            Some(l) => l,
            None => {
                let item = if i < items.len() {
                    proof {
                        assert(views(items@)[i as int] == items@[i as int]@);
                    }
                    items[i].clone()
                } else {
                    String::new()
                };
                return Err(PluginError::parse(IDENTIFIER, concat("No post link found in item. HTML: ", item.as_str())));
            },
        };
        let raw = match first_attr_in_fragment(l.as_str(), "a", "href") {
            Some(h) => h,
            None => return Err(PluginError::parse(IDENTIFIER,
                concat("No 'href' attribute found in post link element for item. HTML: ", l.as_str()))),
        };
        let rel = trim_str(raw.as_str());
        let abs = match join_url(BASE_URL_HOST_ONLY, rel.as_str()) {
            Some(u) => u,
            None => {
                let mut m = concat("Failed to join post URL '", rel.as_str());
                m.append("' with base '");
                m.append(BASE_URL_HOST_ONLY);
                m.append("'");
                return Err(PluginError::parse(IDENTIFIER, m));
            },
        };
        let pairs = match query_pairs_of(abs.as_str()) {
            Some(p) => p,
            None => Vec::new(),
        };
        let id = match find_pair_value(&pairs, "num") {
            Some(v) => v,
            None => return Err(PluginError::parse(IDENTIFIER, concat("Could not extract post ID ('num') from URL: ", abs.as_str()))),
        };
        let icons = select_in_fragment(l.as_str(), NOTICE_ICON_SELECTOR);
        let titles = select_in_fragment(l.as_str(), TITLE_SELECTOR);
        if titles.len() == 0 {
            let mut m = concat("No title found in post link element for item ", id.as_str());
            m.append(". HTML: ");
            m.append(l.as_str());
            return Err(PluginError::parse(IDENTIFIER, m));
        }
        proof {
            assert(views(titles@)[0] == titles@[0]@);
        }
        let title = trim_str(text_of_element(titles[0].as_str()).as_str());
        Ok(PostMetadata { id, url: abs, title, is_notice: icons.len() > 0 })
    }

    /// Reads a list page that can be read (see `list_page_readable`): the posts of its
    /// items, in order; refused at the first item that cannot be read.
    pub fn parse_list_page(html: &str) -> (r: Result<Vec<PostMetadata>, PluginError>)
        requires
            list_page_readable(html@),
        ensures
            match r {
                Ok(metas) => {
                    &&& first_item_failure(html@, item_count(html@)) is None
                    &&& metas@.len() == item_count(html@)
                    &&& forall|i: int| 0 <= i < metas@.len() ==>
                        item_result(html@, i) == Ok::<(Seq<char>, Seq<char>, Seq<char>, bool), Seq<char>>(meta_fields(#[trigger] metas@[i]))
                },
                Err(e) => first_item_failure(html@, item_count(html@)) matches Some(m) && parse_error_is(e, m),
            },
    {
        let items = select_in_document(html, LIST_ITEM_SELECTOR);
        let links = first_in_each(html, LIST_ITEM_SELECTOR, POST_LINK_SELECTOR);
        let ghost n = opt_views(links@).len() as int;
        let mut metas: Vec<PostMetadata> = Vec::new();
        let mut i: usize = 0;
        while i < links.len()
            invariant
                i <= links@.len(),
                n == links@.len(),
                list_page_readable(html@),
                views(items@) == document_matches(html@, LIST_ITEM_SELECTOR@),
                opt_views(links@) == first_matches_in_each(html@, LIST_ITEM_SELECTOR@, POST_LINK_SELECTOR@),
                first_item_failure(html@, i as int) is None,
                metas@.len() == i,
                forall|j: int| 0 <= j < i ==>
                    item_result(html@, j) == Ok::<(Seq<char>, Seq<char>, Seq<char>, bool), Seq<char>>(meta_fields(#[trigger] metas@[j])),
            decreases links@.len() - i,
        {
            match Self::parse_item(i, &items, &links, Ghost(html@)) {
                Ok(m) => metas.push(m),
                Err(e) => {
                    proof {
                        lemma_first_item_failure_stays(html@, i + 1, n);
                    }
                    return Err(e);
                },
            }
            i += 1;
        }
        Ok(metas)
    }

    /// Reads a list page, or gives none when it cannot be read.
    pub fn try_parse_list_page(html: &str) -> (r: Option<Result<Vec<PostMetadata>, PluginError>>)
        ensures
            r is Some <==> list_page_readable(html@),
    {
        if Self::list_page_readable(html) { Some(Self::parse_list_page(html)) } else { None }
    }

    /// Reads the post page of the post listed as `meta` (see `post_failure`): its title
    /// (else the listed one), its date at midnight, Korea Standard Time, its content
    /// (empty when missing) and attachments; pinned posts get their category.
    pub fn parse_post_page(html: &str, meta: &PostMetadata) -> (r: Result<SsufidPost, PluginError>)
        ensures
            match r {
                Err(e) => post_failure(html@, *meta) matches Some(m) && parse_error_is(e, m),
                Ok(p) => {
                    let dates = document_matches(html@, POST_DATE_SELECTOR_DETAIL@);
                    &&& post_failure(html@, *meta) is None
                    &&& p.id == meta.id
                    &&& p.url == meta.url
                    &&& p.title@ == (match first_text(html@, POST_TITLE_SELECTOR_DETAIL@) { Some(t) => t, None => meta.title@ })
                    &&& parsed_date(trim(text_concat(dates[0])), DATE_FORMAT@) matches Some(d)
                    &&& p.created_at.unix_nanos == kst_instant((d.0, d.1, d.2, 0, 0, 0))
                    &&& p.created_at.offset_seconds == KST_OFFSET_SECONDS
                    &&& p.content@ == (match first_inner_html(html@, POST_CONTENT_SELECTOR@) { Some(c) => c, None => Seq::empty() })
                    &&& attachments_follow(p.attachments@, document_matches(html@, ATTACHMENT_ITEM_SELECTOR@))
                    &&& views(p.category@) == (if meta.is_notice { seq![NOTICE_CATEGORY@] } else { Seq::empty() })
                    &&& p.author is None
                    &&& p.description is None
                    &&& p.updated_at is None
                    &&& p.thumbnail is None
                    &&& p.metadata is None
                },
            },
    {
        let title = match first_text_of(html, POST_TITLE_SELECTOR_DETAIL) {
            Some(t) => t,
            None => meta.title.clone(),
        };
        let dates = select_in_document(html, POST_DATE_SELECTOR_DETAIL);
        if dates.len() == 0 {
            return Err(PluginError::parse(IDENTIFIER, concat("No date found in post detail page for ", meta.url.as_str())));
        }
        proof {
            assert(views(dates@)[0] == dates@[0]@);
        }
        let date_text = text_of_element(dates[0].as_str());
        let trimmed = trim_str(date_text.as_str());
        let created_at = match kst_midnight_from_text(trimmed.as_str(), DATE_FORMAT) {
            Some(t) => t,
            None => {
                let mut m = concat("Failed to parse date '", date_text.as_str());
                m.append("' for post ");
                m.append(meta.url.as_str());
                m.append(": ");
                m.append(date_error_texts(trimmed.as_str(), DATE_FORMAT).0.as_str());
                return Err(PluginError::parse(IDENTIFIER, m));
            },
        };
        let content = match first_inner_html_in_document(html, POST_CONTENT_SELECTOR) {
            Some(c) => c,
            None => String::new(),
        };
        let links = select_in_document(html, ATTACHMENT_ITEM_SELECTOR);
        let ghost ls = views(links@);
        let mut attachments: Vec<Attachment> = Vec::new();
        let mut i: usize = 0;
        proof {
            assert(ls.skip(0) == ls);
        }
        while i < links.len()
            invariant
                i <= links@.len(),
                ls == views(links@),
                ls == document_matches(html@, ATTACHMENT_ITEM_SELECTOR@),
                document_matches(html@, POST_DATE_SELECTOR_DETAIL@).len() > 0,
                parsed_date(trim(text_concat(document_matches(html@, POST_DATE_SELECTOR_DETAIL@)[0])), DATE_FORMAT@) is Some,
                attachments_follow(attachments@, ls.take(i as int)),
                attachments_failure(ls) == attachments_failure(ls.skip(i as int)),
            decreases links@.len() - i,
        {
            proof {
                assert(ls.skip(i as int)[0] == links@[i as int]@);
                assert(ls.skip(i as int).drop_first() == ls.skip(i + 1));
                assert(ls[i as int] == links@[i as int]@);
            }
            let h = match first_attr_in_fragment(links[i].as_str(), "a", "href") {
                Some(h) => h,
                None => return Err(PluginError::parse(IDENTIFIER,
                    concat("No 'href' attribute found in attachment element: ", links[i].as_str()))),
            };
            let url = concat(BASE_URL_HOST_ONLY, h.as_str());
            let name = trim_str(text_of_element(links[i].as_str()).as_str());
            attachments.push(Attachment { url, name: Some(name), mime_type: None });
            i += 1;
        }
        proof {
            assert(ls.take(ls.len() as int) == ls);
        }
        let mut category: Vec<String> = Vec::new();
        if meta.is_notice {
            category.push(String::from_str(NOTICE_CATEGORY));
        }
        proof {
            if meta.is_notice {
                assert(views(category@) =~= seq![NOTICE_CATEGORY@]);
            } else {
                assert(views(category@) =~= Seq::<Seq<char>>::empty());
            }
        }
        Ok(SsufidPost {
            id: meta.id.clone(),
            url: meta.url.clone(),
            title,
            author: None,
            description: None,
            category,
            created_at,
            updated_at: None,
            thumbnail: None,
            content,
            attachments,
            metadata: None,
        })
    }
}


impl MaterialsListing {
    /// A listing before its first page.
    pub fn new() -> (l: MaterialsListing)
        ensures
            l.metas@.len() == 0,
            l.page_count == 0,
    {
        MaterialsListing { metas: Vec::new(), page_count: 0 }
    }

    /// The next list page to read.
    pub fn next_page(&mut self) -> (page: u32)
        requires
            old(self).page_count < u32::MAX,
        ensures
            page == old(self).page_count + 1,
            final(self).page_count == page,
            final(self).metas@ == old(self).metas@,
    {
        self.page_count = self.page_count + 1;
        self.page_count
    }

    /// Takes in the posts of the page just read, as many as fit under `posts_limit`;
    /// false when the listing ends: the limit is reached or the page was past the last
    /// allowed.
    pub fn take_page(&mut self, items: Vec<PostMetadata>, posts_limit: u32) -> (go_on: bool)
        ensures
            ({
                let room = if old(self).metas@.len() >= posts_limit { 0 } else { posts_limit - old(self).metas@.len() };
                let k = if items@.len() <= room { items@.len() as int } else { room };
                final(self).metas@ == old(self).metas@ + items@.take(k)
            }),
            final(self).page_count == old(self).page_count,
            go_on == (final(self).metas@.len() < posts_limit && old(self).page_count <= MAX_PAGES),
    {
        let ghost start = self.metas@;
        let ghost src = items@;
        let room: usize = if self.metas.len() >= posts_limit as usize { 0 } else { posts_limit as usize - self.metas.len() };
        let mut items = items;
        items.truncate(room);
        proof {
            assert(items@ == src.take(if src.len() <= room { src.len() as int } else { room as int }));
        }
        self.metas.append(&mut items);
        self.metas.len() < posts_limit as usize && self.page_count <= MAX_PAGES
    }
}

/// An item that refuses stays the first refusal among any longer prefix of items.
proof fn lemma_first_item_failure_stays(html: Seq<char>, k: int, n: int)
    requires
        0 < k <= n,
        first_item_failure(html, k) is Some,
    ensures
        first_item_failure(html, n) == first_item_failure(html, k),
    decreases n - k,
{
    if n > k {
        lemma_first_item_failure_stays(html, k, n - 1);
    }
}

} // verus!

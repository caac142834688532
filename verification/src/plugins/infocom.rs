//! The electronic and information engineering department's notices: reading its list
//! pages and post pages, and the listing of a crawl.

use vstd::prelude::*;
use crate::datetime::{Timestamp, parsed_date, kst_instant, KST_OFFSET_SECONDS, kst_midnight_from_text};
use crate::error::{PluginError, concat};
use crate::html::{
    cell_at, document_attrs, first_matches_in_each, opt_views, text_concat, joined_url, url_parses, url_query_pairs,
    first_value_for, url_parse_outcome, document_matches, first_inner_html, fragment_first_attr, attrs_in_document,
    first_in_each, join_url, is_url, parse_url, query_pairs_of, find_pair_value, text_of_element, select_in_document,
    first_inner_html_in_document, first_attr_in_fragment,
};
use crate::post::{Attachment, SsufidPost, opt_view};
use crate::text::{trim, trim_str, views, int_text, int_to_text};

verus! {

/// The plugin's identifier.
pub const IDENTIFIER: &'static str = "infocom.ssu.ac.kr";
/// The site's title.
pub const TITLE: &'static str = "숭실대학교 전자정보공학부 공지사항";
/// The site's description.
pub const DESCRIPTION: &'static str = "숭실대학교 전자정보공학부 공지사항을 제공합니다.";
/// The address of the notice list.
pub const BASE_URL: &'static str = "http://infocom.ssu.ac.kr/kor/notice/undergraduate.php";
/// The site's root, against which posts' links are resolved.
pub const HOST_URL: &'static str = "http://infocom.ssu.ac.kr";
/// The browser that requests claim to come from.
pub const USER_AGENT: &'static str = "Mozilla/5.0 (Windows NT 10.0; Win64; x64) AppleWebKit/537.36 (KHTML, like Gecko) Chrome/91.0.4472.124 Safari/537.36";
/// A list page's posts.
pub const POST_CONTAINER_SELECTOR: &'static str = "a.con_box";
/// A post's title in the list.
pub const TITLE_SELECTOR: &'static str = "div.subject span";
/// A post's date in the list.
pub const DATE_SELECTOR: &'static str = "ul.info li.date";
/// A post page's content.
pub const POST_CONTENT_SELECTOR: &'static str = "div.view_box div.con";
/// A post page's attachment links.
pub const POST_FILES_SELECTOR: &'static str = "div.view_box div.file a";
/// The format of a post's date.
pub const DATE_FORMAT: &'static str = "[year]. [month]. [day]";

/// The electronic and information engineering department plugin.
pub struct InfocomPlugin;

/// A post as the list shows it.
#[derive(Clone, Debug)]
pub struct InfocomPostMetadata {
    pub id: String,
    pub url: String,
    pub title: String,
    pub date: Timestamp,
}

/// What a post page adds to a listed post.
pub struct PostDetailExtras {
    pub content: String,
    pub attachments: Vec<Attachment>,
}

/// `e` is the plugin's refusal of unreadable content with the message `msg`.
pub open spec fn parse_error_is(e: PluginError, msg: Seq<char>) -> bool {
    e matches PluginError::Parse { plugin, message } && plugin@ == IDENTIFIER@ && message@ == msg
}

/// The address of list page `page`.
pub open spec fn page_url_of(page: int) -> Seq<char> {
    BASE_URL@ + "?pNo="@ + int_text(page) + "&code=notice"@
}

/// What post `i` of a list page gives: its number, address, title and date, or nothing
/// when any of them is missing or unreadable.
pub open spec fn post_meta(html: Seq<char>, i: int) -> Option<(Seq<char>, Seq<char>, Seq<char>, (int, int, int))> {
    match cell_at(document_attrs(html, POST_CONTAINER_SELECTOR@, "href"@), i) {
        None => None,
        Some(h) => match joined_url(HOST_URL@, h) {
            None => None,
            Some(u) => match url_query_pairs(u) {
                None => None,
                Some(p) => match first_value_for(p, "idx"@) {
                    None => None,
                    Some(id) => match cell_at(first_matches_in_each(html, POST_CONTAINER_SELECTOR@, TITLE_SELECTOR@), i) {
                        None => None,
                        Some(t) => match cell_at(first_matches_in_each(html, POST_CONTAINER_SELECTOR@, DATE_SELECTOR@), i) {
                            None => None,
                            Some(d) => match parsed_date(trim(text_concat(d)), DATE_FORMAT@) {
                                None => None,
                                Some(ymd) => Some((id, u, trim(text_concat(t)), ymd)),
                            },
                        },
                    },
                },
            },
        },
    }
}

/// `m` is the listed post with the fields `v`.
pub open spec fn meta_is(m: InfocomPostMetadata, v: (Seq<char>, Seq<char>, Seq<char>, (int, int, int))) -> bool {
    &&& m.id@ == v.0
    &&& m.url@ == v.1
    &&& m.title@ == v.2
    &&& m.date.unix_nanos == kst_instant((v.3.0, v.3.1, v.3.2, 0, 0, 0))
    &&& m.date.offset_seconds == KST_OFFSET_SECONDS
}

/// `metas` are the posts of the first `n` posts of a list page, in order.
pub open spec fn posts_follow(metas: Seq<InfocomPostMetadata>, html: Seq<char>, n: int) -> bool
    decreases n,
{
    if n <= 0 {
        metas.len() == 0
    } else {
        match post_meta(html, n - 1) {
            Some(v) => metas.len() > 0 && meta_is(metas.last(), v) && posts_follow(metas.drop_last(), html, n - 1),
            None => posts_follow(metas, html, n - 1),
        }
    }
}

/// The number of posts of a list page.
pub open spec fn post_count(html: Seq<char>) -> int {
    document_attrs(html, POST_CONTAINER_SELECTOR@, "href"@).len() as int
}

/// Whether some attachment link of a post page has a target.
pub open spec fn has_file_links(html: Seq<char>) -> bool {
    let links = document_matches(html, POST_FILES_SELECTOR@);
    exists|i: int| 0 <= i < links.len() && fragment_first_attr(#[trigger] links[i], "a"@, "href"@) is Some
}

/// `atts` are the attachments of the links `links` of a post at `base`, in order, links
/// without a target left out: each at its target resolved against `base`, or at its
/// target as it stands when that fails.
pub open spec fn attachments_follow(atts: Seq<Attachment>, base: Seq<char>, links: Seq<Seq<char>>) -> bool
    decreases links.len(),
{
    if links.len() == 0 {
        atts.len() == 0
    } else {
        match fragment_first_attr(links.last(), "a"@, "href"@) {
            Some(h) => {
                let name = trim(text_concat(links.last()));
                &&& atts.len() > 0
                &&& opt_view(atts.last().name) == (if name.len() > 0 { Some(name) } else { None })
                &&& atts.last().url@ == (match joined_url(base, h) { Some(u) => u, None => h })
                &&& atts.last().mime_type is None
                &&& attachments_follow(atts.drop_last(), base, links.drop_last())
            },
            None => attachments_follow(atts, base, links.drop_last()),
        }
    }
}

/// The posts listed so far and the next list page.
pub struct InfocomListing {
    pub metas: Vec<InfocomPostMetadata>,
    pub page: u32,
}

impl InfocomPlugin {
    /// The plugin.
    pub fn new() -> (p: InfocomPlugin)
        ensures
            p == InfocomPlugin,
    {
        InfocomPlugin
    }

    /// The address of list page `page`.
    pub fn page_url(page: u32) -> (out: String)
        ensures
            out@ == page_url_of(page as int),
    {
        let mut out = concat(BASE_URL, "?pNo=");
        out.append(int_to_text(page as i64).as_str());
        out.append("&code=notice");
        out
    }

    /// Reads post `i` of a list page (see `post_meta`).
    fn parse_post_item(i: usize, hrefs: &Vec<Option<String>>, titles: &Vec<Option<String>>, dates: &Vec<Option<String>>,
        html: Ghost<Seq<char>>) -> (r: Option<InfocomPostMetadata>)
        requires
            i < hrefs@.len(),
            opt_views(hrefs@) == document_attrs(html@, POST_CONTAINER_SELECTOR@, "href"@),
            opt_views(titles@) == first_matches_in_each(html@, POST_CONTAINER_SELECTOR@, TITLE_SELECTOR@),
            opt_views(dates@) == first_matches_in_each(html@, POST_CONTAINER_SELECTOR@, DATE_SELECTOR@),
        ensures
            match r {
                Some(m) => post_meta(html@, i as int) matches Some(v) && meta_is(m, v),
                None => post_meta(html@, i as int) is None,
            },
    {
        proof {
            assert(opt_views(hrefs@)[i as int] == opt_view(hrefs@[i as int]));
        }
        let h = match &hrefs[i] {
            Some(h) => h,
            None => return None,
        };
        let url = match join_url(HOST_URL, h.as_str()) {
            Some(u) => u,
            None => return None,
        };
        let pairs = match query_pairs_of(url.as_str()) {
            Some(p) => p,
            None => return None,
        };
        let id = match find_pair_value(&pairs, "idx") {
            Some(v) => v,
            None => return None,
        };
        if i >= titles.len() || i >= dates.len() {
            return None;
        }
        proof {
            assert(opt_views(titles@)[i as int] == opt_view(titles@[i as int]));
            assert(opt_views(dates@)[i as int] == opt_view(dates@[i as int]));
        }
        let t = match &titles[i] {
            Some(t) => t,
            None => return None,
        };
        let d = match &dates[i] {
            Some(d) => d,
            None => return None,
        };
        let date_text = trim_str(text_of_element(d.as_str()).as_str());
        let date = match kst_midnight_from_text(date_text.as_str(), DATE_FORMAT) {
            Some(t) => t,
            None => return None,
        };
        let title = trim_str(text_of_element(t.as_str()).as_str());
        Some(InfocomPostMetadata { id, url, title, date })
    }

    /// Reads a list page: the posts that read (see `post_meta`), in order; refused when
    /// the site's root is no URL.
    pub fn parse_list_page(html: &str) -> (r: Result<Vec<InfocomPostMetadata>, PluginError>)
        ensures
            match r {
                Ok(metas) => url_parse_outcome(HOST_URL@) is Ok && posts_follow(metas@, html@, post_count(html@)),
                Err(e) => url_parse_outcome(HOST_URL@) matches Err(m) && parse_error_is(e, "Failed to parse HOST_URL: "@ + m),
            },
    {
        if let Err(m) = parse_url(HOST_URL) {
            return Err(PluginError::parse(IDENTIFIER, concat("Failed to parse HOST_URL: ", m.as_str())));
        }
        let hrefs = attrs_in_document(html, POST_CONTAINER_SELECTOR, "href");
        let titles = first_in_each(html, POST_CONTAINER_SELECTOR, TITLE_SELECTOR);
        let dates = first_in_each(html, POST_CONTAINER_SELECTOR, DATE_SELECTOR);
        let mut metas: Vec<InfocomPostMetadata> = Vec::new();
        let mut i: usize = 0;
        while i < hrefs.len()
            invariant
                i <= hrefs@.len(),
                opt_views(hrefs@) == document_attrs(html@, POST_CONTAINER_SELECTOR@, "href"@),
                opt_views(titles@) == first_matches_in_each(html@, POST_CONTAINER_SELECTOR@, TITLE_SELECTOR@),
                opt_views(dates@) == first_matches_in_each(html@, POST_CONTAINER_SELECTOR@, DATE_SELECTOR@),
                posts_follow(metas@, html@, i as int),
            decreases hrefs@.len() - i,
        {
            let ghost before = metas@;
            match Self::parse_post_item(i, &hrefs, &titles, &dates, Ghost(html@)) {
                Some(m) => {
                    metas.push(m);
                    proof {
                        assert(metas@.drop_last() == before);
                    }
                },
                None => {},
            }
            i += 1;
        }
        Ok(metas)
    }

    /// Reads the post page of the post at `url`, which must be a URL when an attachment
    /// link has a target: its content (empty when missing) and its attachments.
    pub fn parse_post_page(html: &str, url: &str) -> (d: PostDetailExtras)
        requires
            has_file_links(html@) ==> url_parses(url@),
        ensures
            d.content@ == (match first_inner_html(html@, POST_CONTENT_SELECTOR@) {
                Some(c) => c,
                None => Seq::empty(),
            }),
            attachments_follow(d.attachments@, url@, document_matches(html@, POST_FILES_SELECTOR@)),
    {
        let content = match first_inner_html_in_document(html, POST_CONTENT_SELECTOR) {
            Some(c) => c,
            None => String::new(),
        };
        let links = select_in_document(html, POST_FILES_SELECTOR);
        let ghost ls = views(links@);
        let mut attachments: Vec<Attachment> = Vec::new();
        let mut i: usize = 0;
        while i < links.len()
            invariant
                i <= links@.len(),
                ls == views(links@),
                attachments_follow(attachments@, url@, ls.take(i as int)),
            decreases links@.len() - i,
        {
            proof {
                assert(ls.take(i + 1).drop_last() == ls.take(i as int));
                assert(ls.take(i + 1).last() == links@[i as int]@);
            }
            let ghost before = attachments@;
            if let Some(h) = first_attr_in_fragment(links[i].as_str(), "a", "href") {
                let name = trim_str(text_of_element(links[i].as_str()).as_str());
                let target = match join_url(url, h.as_str()) {
                    Some(u) => u,
                    None => h,
                };
                let name_opt = if name.as_str().unicode_len() == 0 { None } else { Some(name) };
                attachments.push(Attachment { name: name_opt, url: target, mime_type: None });
                proof {
                    assert(attachments@.drop_last() == before);
                }
            }
            i += 1;
        }
        proof {
            assert(ls.take(ls.len() as int) == ls);
        }
        PostDetailExtras { content, attachments }
    }

    /// Whether a post page can be read for the post at `url`: it is a URL, or no
    /// attachment link has a target.
    pub fn post_page_readable(html: &str, url: &str) -> (b: bool)
        ensures
            b == (has_file_links(html@) ==> url_parses(url@)),
    {
        if is_url(url) {
            return true;
        }
        let links = select_in_document(html, POST_FILES_SELECTOR);
        let ghost ls = views(links@);
        let mut i: usize = 0;
        while i < links.len()
            invariant
                i <= links@.len(),
                ls == views(links@),
                ls == document_matches(html@, POST_FILES_SELECTOR@),
                !url_parses(url@),
                forall|j: int| 0 <= j < i ==> fragment_first_attr(#[trigger] ls[j], "a"@, "href"@) is None,
            decreases links@.len() - i,
        {
            proof {
                assert(ls[i as int] == links@[i as int]@);
            }
            if first_attr_in_fragment(links[i].as_str(), "a", "href").is_some() {
                proof {
                    assert(fragment_first_attr(ls[i as int], "a"@, "href"@) is Some);
                    assert(has_file_links(html@));
                }
                return false;
            }
            i += 1;
        }
        true
    }

    /// Reads a post page, or gives none when it cannot be read (see
    /// `post_page_readable`).
    pub fn try_parse_post_page(html: &str, url: &str) -> (r: Option<PostDetailExtras>)
        ensures
            r is Some <==> (has_file_links(html@) ==> url_parses(url@)),
    {
        if Self::post_page_readable(html, url) { Some(Self::parse_post_page(html, url)) } else { None }
    }

    /// The post that a listed post and its page make: number, address, title and date as
    /// listed, content and attachments from the page.
    pub fn into_post(meta: InfocomPostMetadata, details: PostDetailExtras) -> (p: SsufidPost)
        ensures
            p.id == meta.id,
            p.url == meta.url,
            p.title == meta.title,
            p.created_at == meta.date,
            p.content == details.content,
            p.attachments == details.attachments,
            p.author is None,
            p.description is None,
            p.category@.len() == 0,
            p.updated_at is None,
            p.thumbnail is None,
            p.metadata is None,
    {
        SsufidPost {
            id: meta.id,
            url: meta.url,
            title: meta.title,
            created_at: meta.date,
            author: None,
            description: None,
            category: Vec::new(),
            updated_at: None,
            thumbnail: None,
            content: details.content,
            attachments: details.attachments,
            metadata: None,
        }
    }
}

impl InfocomListing {
    /// A listing before its first page.
    pub fn new() -> (l: InfocomListing)
        ensures
            l.metas@.len() == 0,
            l.page == 1,
    {
        InfocomListing { metas: Vec::new(), page: 1 }
    }

    /// Whether the listing wants another page: there is no limit (0), or fewer posts than
    /// it are listed.
    pub fn wants_page(&self, posts_limit: u32) -> (b: bool)
        ensures
            b == !(posts_limit > 0 && self.metas@.len() >= posts_limit),
    {
        !(posts_limit > 0 && self.metas.len() >= posts_limit as usize)
    }

    /// Takes in the posts of the current list page; false, when it gave none, ends the
    /// listing, and the next page comes otherwise.
    pub fn take_page(&mut self, items: Vec<InfocomPostMetadata>) -> (go_on: bool)
        ensures
            go_on == (items@.len() > 0),
            final(self).metas@ == old(self).metas@ + items@,
            go_on ==> final(self).page == (if old(self).page < u32::MAX { old(self).page + 1 } else { u32::MAX as int }),
            !go_on ==> final(self).page == old(self).page,
    {
        if items.len() == 0 {
            return false;
        }
        let mut items = items;
        self.metas.append(&mut items);
        if self.page < u32::MAX {
            self.page = self.page + 1;
        }
        true
    }

    /// The listed posts, at most `posts_limit` of them when there is a limit.
    pub fn finish(self, posts_limit: u32) -> (r: Vec<InfocomPostMetadata>)
        ensures
            posts_limit == 0 ==> r@ == self.metas@,
            posts_limit > 0 ==> r@ == self.metas@.take(
                if self.metas@.len() <= posts_limit { self.metas@.len() as int } else { posts_limit as int }),
    {
        let mut v = self.metas;
        if posts_limit > 0 {
            v.truncate(posts_limit as usize);
        }
        v
    }
}

} // verus!

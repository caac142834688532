//! The university's own notices: reading its list pages, its post pages and its paging,
//! and the listing of a crawl.

use vstd::prelude::*;
use crate::datetime::{parsed_date, kst_instant, KST_OFFSET_SECONDS, kst_midnight_from_text};
use crate::error::{PluginError, concat};
use crate::html::{
    all_matches_in_each, nested_views, fragment_matches, fragment_first_attr, text_concat, url_query_pairs,
    first_value_for, document_matches, document_attrs, opt_views, url_path_segments, matches_in_each,
    select_in_fragment, first_attr_in_fragment, query_pairs_of, find_pair_value, text_of_element, select_in_document,
    attrs_in_document, path_segments_of,
};
use crate::post::{Attachment, SsufidPost, opt_view};
use crate::text::{trim, trim_str, chars_of, views, int_text, int_to_text, parse_unsigned, parse_unsigned_text, lemma_parse_unsigned_range};

verus! {

/// The plugin's identifier.
pub const IDENTIFIER: &'static str = "scatch.ssu.ac.kr";
/// The site's title.
pub const TITLE: &'static str = "숭실대학교 공지사항";
/// The site's description.
pub const DESCRIPTION: &'static str = "숭실대학교 공식 홈페이지의 공지사항을 제공합니다.";
/// The site's address.
pub const BASE_URL: &'static str = "https://scatch.ssu.ac.kr";
/// The board's name in its addresses.
pub const BOARD: &'static str = "공지사항";
/// How many posts a list page shows.
pub const POSTS_PER_PAGE: u32 = 15;
/// The format of a post's date.
pub const DATE_FORMAT: &'static str = "[year]년 [month padding:none]월 [day padding:none]일";
/// A list page's list of notices.
pub const NOTICE_SELECTOR: &'static str = ".notice-lists";
/// The items of the list, the first of which is its header.
pub const LI_SELECTOR: &'static str = "li";
/// An item's link to its post.
pub const URL_SELECTOR: &'static str = ".notice_col3 a";
/// An item's author.
pub const AUTHOR_SELECTOR: &'static str = ".notice_col4";
/// A post page's title.
pub const TITLE_SELECTOR: &'static str = "div.bg-white h2";
/// A post page's categories.
pub const CATEGORY_SELECTOR: &'static str = "div.bg-white span.label";
/// A post page's date.
pub const CREATED_AT_SELECTOR: &'static str = "div.bg-white > div.clearfix > div.float-left.mr-4";
/// A post page's images, the first of which is its thumbnail.
pub const THUMBNAIL_SELECTOR: &'static str = "div.bg-white img";
/// A post page's content.
pub const CONTENT_SELECTOR: &'static str = "div.bg-white > div:not(.clearfix)";
/// A post page's attachment links.
pub const ATTACHMENTS_SELECTOR: &'static str = ".download-list a[download]";
/// The paging's link to the last page.
pub const LAST_PAGE_SELECTOR: &'static str = ".next-btn-last";

/// The university notices plugin.
pub struct SsuCatchPlugin;

/// A post as the list shows it.
#[derive(Clone, Debug)]
pub struct SsuCatchMetadata {
    pub id: String,
    pub url: String,
    pub author: String,
}

/// The address of list page `page`.
pub open spec fn page_url_of(page: int) -> Seq<char> {
    BASE_URL@ + "/"@ + BOARD@ + "/page/"@ + int_text(page)
}

/// The items of a list page after its header: those of its first list of notices.
pub open spec fn list_items(html: Seq<char>) -> Seq<Seq<char>> {
    let groups = all_matches_in_each(html, NOTICE_SELECTOR@, LI_SELECTOR@);
    if groups.len() > 0 && groups[0].len() > 0 { groups[0].drop_first() } else { Seq::empty() }
}

/// The target of an item's link, if it has one.
pub open spec fn item_href(li: Seq<char>) -> Option<Seq<char>> {
    let links = fragment_matches(li, URL_SELECTOR@);
    if links.len() > 0 { fragment_first_attr(links[0], "a"@, "href"@) } else { None }
}

/// Whether a list page can be read: it has a list of notices, and each item's link
/// target is a URL.
pub open spec fn list_page_readable(html: Seq<char>) -> bool {
    &&& all_matches_in_each(html, NOTICE_SELECTOR@, LI_SELECTOR@).len() > 0
    &&& forall|i: int| 0 <= i < list_items(html).len() ==>
        (item_href(#[trigger] list_items(html)[i]) matches Some(h) ==> url_query_pairs(h) is Some)
}

/// What an item gives: its post's number, address and author, or none when it has no
/// link or its link has no `slug` with a value.
pub open spec fn item_meta(li: Seq<char>) -> Option<(Seq<char>, Seq<char>, Seq<char>)> {
    match item_href(li) {
        None => None,
        Some(h) => {
            let id = match first_value_for(url_query_pairs(h)->0, "slug"@) {
                Some(v) => v,
                None => Seq::empty(),
            };
            if id.len() == 0 {
                None
            } else {
                let authors = fragment_matches(li, AUTHOR_SELECTOR@);
                Some((id, h, if authors.len() > 0 { trim(text_concat(authors[0])) } else { Seq::empty() }))
            }
        },
    }
}

/// `metas` are the posts of the items `items`, in order.
pub open spec fn items_follow(metas: Seq<SsuCatchMetadata>, items: Seq<Seq<char>>) -> bool
    decreases items.len(),
{
    if items.len() == 0 {
        metas.len() == 0
    } else {
        match item_meta(items.last()) {
            Some(v) => metas.len() > 0 && (metas.last().id@, metas.last().url@, metas.last().author@) == v
                && items_follow(metas.drop_last(), items.drop_last()),
            None => items_follow(metas, items.drop_last()),
        }
    }
}

/// The trimmed text of a post page's date element, or the empty text.
pub open spec fn date_text(html: Seq<char>) -> Seq<char> {
    let m = document_matches(html, CREATED_AT_SELECTOR@);
    if m.len() > 0 { trim(text_concat(m[0])) } else { Seq::empty() }
}

/// The texts among `els` that are not empty, in order.
pub open spec fn filled_texts(els: Seq<Seq<char>>) -> Seq<Seq<char>>
    decreases els.len(),
{
    if els.len() == 0 {
        Seq::empty()
    } else if text_concat(els.last()).len() > 0 {
        filled_texts(els.drop_last()).push(text_concat(els.last()))
    } else {
        filled_texts(els.drop_last())
    }
}

/// `atts` are the attachments of the links `links`, in order: each with a target, at the
/// site's address followed by the target, named by its trimmed text when there is one.
pub open spec fn attachments_follow(atts: Seq<Attachment>, links: Seq<Seq<char>>) -> bool
    decreases links.len(),
{
    if links.len() == 0 {
        atts.len() == 0
    } else {
        match fragment_first_attr(links.last(), "a"@, "href"@) {
            Some(h) => {
                let name = trim(text_concat(links.last()));
                &&& atts.len() > 0
                &&& atts.last().url@ == BASE_URL@ + h
                &&& opt_view(atts.last().name) == (if name.len() > 0 { Some(name) } else { None })
                &&& atts.last().mime_type is None
                &&& attachments_follow(atts.drop_last(), links.drop_last())
            },
            None => attachments_follow(atts, links.drop_last()),
        }
    }
}

/// The target of the paging's link to the last page, or the empty text.
pub open spec fn last_page_href(html: Seq<char>) -> Seq<char> {
    let a = document_attrs(html, LAST_PAGE_SELECTOR@, "href"@);
    if a.len() > 0 && a[0] is Some { a[0]->0 } else { Seq::empty() }
}

/// The segment after the first segment `page`, if there is one.
pub open spec fn segment_after_page(segs: Seq<Seq<char>>) -> Option<Seq<char>>
    decreases segs.len(),
{
    if segs.len() == 0 {
        None
    } else if segs[0] == "page"@ {
        if segs.len() > 1 { Some(segs[1]) } else { None }
    } else {
        segment_after_page(segs.drop_first())
    }
}

/// The last page of the list: the number after `page` in the path of the paging's link
/// to the last page, else 1.
pub open spec fn last_page_number(segs: Seq<Seq<char>>) -> int {
    match segment_after_page(segs) {
        Some(s) => match parse_unsigned(s, u32::MAX as int) {
            Some(n) => n,
            None => 1,
        },
        None => 1,
    }
}

impl SsuCatchPlugin {
    /// The plugin.
    pub fn new() -> (p: SsuCatchPlugin)
        ensures
            p == SsuCatchPlugin,
    {
        SsuCatchPlugin
    }

    /// The address of list page `page`.
    pub fn page_url(page: u32) -> (out: String)
        ensures
            out@ == page_url_of(page as int),
    {
        let mut out = concat(BASE_URL, "/");
        out.append(BOARD);
        out.append("/page/");
        out.append(int_to_text(page as i64).as_str());
        out
    }

    /// The items of a list page (see `list_items`), and whether it has a list of notices.
    fn items_of(html: &str) -> (r: (Vec<String>, bool))
        ensures
            views(r.0@) == list_items(html@),
            r.1 == (all_matches_in_each(html@, NOTICE_SELECTOR@, LI_SELECTOR@).len() > 0),
    {
        let groups = matches_in_each(html, NOTICE_SELECTOR, LI_SELECTOR);
        if groups.len() == 0 {
            let empty: Vec<String> = Vec::new();
            proof {
                assert(views(empty@) =~= Seq::<Seq<char>>::empty());
            }
            return (empty, false);
        }
        proof {
            assert(nested_views(groups@)[0] == views(groups@[0]@));
        }
        let mut first = groups[0].clone();
        if first.len() == 0 {
            proof {
                assert(views(first@) =~= Seq::<Seq<char>>::empty());
            }
            return (first, true);
        }
        let ghost g = views(first@);
        first.remove(0);
        proof {
            assert(views(first@) =~= g.drop_first());
        }
        (first, true)
    }

    /// The target of an item's link (see `item_href`).
    fn item_href_of(li: &str) -> (r: Option<String>)
        ensures
            opt_view(r) == item_href(li@),
    {
        let links = select_in_fragment(li, URL_SELECTOR);
        if links.len() == 0 {
            return None;
        }
        proof {
            assert(views(links@)[0] == links@[0]@);
        }
        first_attr_in_fragment(links[0].as_str(), "a", "href")
    }

    /// Whether a list page can be read (see `list_page_readable`).
    pub fn list_page_readable(html: &str) -> (b: bool)
        ensures
            b == list_page_readable(html@),
    {
        let (items, has_list) = Self::items_of(html);
        if !has_list {
            return false;
        }
        let ghost its = views(items@);
        let mut i: usize = 0;
        while i < items.len()
            invariant
                i <= items@.len(),
                its == views(items@),
                its == list_items(html@),
                forall|j: int| 0 <= j < i ==> (item_href(#[trigger] its[j]) matches Some(h) ==> url_query_pairs(h) is Some),
            decreases items@.len() - i,
        {
            proof {
                assert(its[i as int] == items@[i as int]@);
            }
            if let Some(h) = Self::item_href_of(items[i].as_str()) {
                if query_pairs_of(h.as_str()).is_none() {
                    return false;
                }
            }
            i += 1;
        }
        true
    }

    /// Reads a list page that can be read (see `list_page_readable`): the posts of its
    /// items (see `item_meta`), in order.
    pub fn parse_list_page(html: &str) -> (metas: Vec<SsuCatchMetadata>)
        requires
            list_page_readable(html@),
        ensures
            items_follow(metas@, list_items(html@)),
    {
        let (items, _) = Self::items_of(html);
        let ghost its = views(items@);
        let mut metas: Vec<SsuCatchMetadata> = Vec::new();
        let mut i: usize = 0;
        while i < items.len()
            invariant
                i <= items@.len(),
                its == views(items@),
                its == list_items(html@),
                list_page_readable(html@),
                items_follow(metas@, its.take(i as int)),
            decreases items@.len() - i,
        {
            proof {
                assert(its.take(i + 1).drop_last() == its.take(i as int));
                assert(its.take(i + 1).last() == items@[i as int]@);
                assert(its[i as int] == items@[i as int]@);
            }
            let ghost before = metas@;
            if let Some(h) = Self::item_href_of(items[i].as_str()) {
                let pairs = match query_pairs_of(h.as_str()) {
                    Some(p) => p,
                    None => {
                        proof {
                            assert(item_href(its[i as int]) matches Some(hh) ==> url_query_pairs(hh) is Some);
                        }
                        Vec::new()
                    },
                };
                let id = match find_pair_value(&pairs, "slug") {
                    Some(v) => v,
                    None => String::new(),
                };
                if id.as_str().unicode_len() > 0 {
                    let authors = select_in_fragment(items[i].as_str(), AUTHOR_SELECTOR);
                    let author = if authors.len() > 0 {
                        proof {
                            assert(views(authors@)[0] == authors@[0]@);
                        }
                        trim_str(text_of_element(authors[0].as_str()).as_str())
                    } else {
                        String::new()
                    };
                    metas.push(SsuCatchMetadata { id, url: h, author });
                    proof {
                        assert(metas@.drop_last() == before);
                    }
                }
            }
            i += 1;
        }
        proof {
            assert(its.take(its.len() as int) == its);
        }
        metas
    }

    /// Reads a list page, or gives none when it cannot be read.
    pub fn try_parse_list_page(html: &str) -> (r: Option<Vec<SsuCatchMetadata>>)
        ensures
            match r {
                Some(metas) => list_page_readable(html@) && items_follow(metas@, list_items(html@)),
                None => !list_page_readable(html@),
            },
    {
        if Self::list_page_readable(html) { Some(Self::parse_list_page(html)) } else { None }
    }

    /// Whether a post page's date reads (see `date_text`).
    pub fn post_page_readable(html: &str) -> (b: bool)
        ensures
            b == (parsed_date(date_text(html@), DATE_FORMAT@) is Some),
    {
        let d = Self::date_text_of(html);
        kst_midnight_from_text(d.as_str(), DATE_FORMAT).is_some()
    }

    /// The text of a post page's date (see `date_text`).
    fn date_text_of(html: &str) -> (d: String)
        ensures
            d@ == date_text(html@),
    {
        let m = select_in_document(html, CREATED_AT_SELECTOR);
        if m.len() > 0 {
            proof {
                assert(views(m@)[0] == m@[0]@);
            }
            trim_str(text_of_element(m[0].as_str()).as_str())
        } else {
            String::new()
        }
    }

    /// Reads the post page, whose date reads, of the post listed as `meta`: its title and
    /// content (empty when missing), its categories that are not empty, its date at
    /// midnight, Korea Standard Time, its thumbnail when one is given, and its
    /// attachments; its author as listed.
    pub fn parse_post_page(html: &str, meta: &SsuCatchMetadata) -> (p: SsufidPost)
        requires
            parsed_date(date_text(html@), DATE_FORMAT@) is Some,
        ensures
            p.id == meta.id,
            p.url == meta.url,
            opt_view(p.author) == Some(meta.author@),
            p.title@ == (if document_matches(html@, TITLE_SELECTOR@).len() > 0 {
                text_concat(document_matches(html@, TITLE_SELECTOR@)[0])
            } else {
                Seq::empty()
            }),
            views(p.category@) == filled_texts(document_matches(html@, CATEGORY_SELECTOR@)),
            parsed_date(date_text(html@), DATE_FORMAT@) matches Some(d)
                && p.created_at.unix_nanos == kst_instant((d.0, d.1, d.2, 0, 0, 0)),
            p.created_at.offset_seconds == KST_OFFSET_SECONDS,
            opt_view(p.thumbnail) == ({
                let a = document_attrs(html@, THUMBNAIL_SELECTOR@, "src"@);
                if a.len() > 0 && a[0] is Some && a[0]->0.len() > 0 { a[0] } else { None }
            }),
            p.content@ == (if document_matches(html@, CONTENT_SELECTOR@).len() > 0 {
                document_matches(html@, CONTENT_SELECTOR@)[0]
            } else {
                Seq::empty()
            }),
            attachments_follow(p.attachments@, document_matches(html@, ATTACHMENTS_SELECTOR@)),
            p.description is None,
            p.updated_at is None,
            p.metadata is None,
    {
        let titles = select_in_document(html, TITLE_SELECTOR);
        let title = if titles.len() > 0 {
            proof {
                assert(views(titles@)[0] == titles@[0]@);
            }
            text_of_element(titles[0].as_str())
        } else {
            String::new()
        };
        let labels = select_in_document(html, CATEGORY_SELECTOR);
        let ghost ls = views(labels@);
        let mut category: Vec<String> = Vec::new();
        let mut i: usize = 0;
        while i < labels.len()
            invariant
                i <= labels@.len(),
                ls == views(labels@),
                views(category@) == filled_texts(ls.take(i as int)),
            decreases labels@.len() - i,
        {
            proof {
                assert(ls.take(i + 1).drop_last() == ls.take(i as int));
                assert(ls.take(i + 1).last() == labels@[i as int]@);
            }
            let t = text_of_element(labels[i].as_str());
            if t.as_str().unicode_len() > 0 {
                let ghost before = category@;
                category.push(t);
                proof {
                    assert(views(category@) =~= views(before).push(t@));
                }
            }
            i += 1;
        }
        proof {
            assert(ls.take(ls.len() as int) == ls);
        }
        let d = Self::date_text_of(html);
        let created_at = match kst_midnight_from_text(d.as_str(), DATE_FORMAT) {
            Some(t) => t,
            None => {
                proof {
                    assert(false);
                }
                crate::datetime::Timestamp { unix_nanos: 0, offset_seconds: KST_OFFSET_SECONDS }
            },
        };
        let srcs = attrs_in_document(html, THUMBNAIL_SELECTOR, "src");
        let thumbnail = if srcs.len() > 0 {
            proof {
                assert(opt_views(srcs@)[0] == opt_view(srcs@[0]));
            }
            match &srcs[0] {
                Some(t) => if t.as_str().unicode_len() > 0 { Some(t.clone()) } else { None },
                None => None,
            }
        } else {
            None
        };
        let contents = select_in_document(html, CONTENT_SELECTOR);
        let content = if contents.len() > 0 {
            proof {
                assert(views(contents@)[0] == contents@[0]@);
            }
            contents[0].clone()
        } else {
            String::new()
        };
        let links = select_in_document(html, ATTACHMENTS_SELECTOR);
        let ghost lk = views(links@);
        let mut attachments: Vec<Attachment> = Vec::new();
        let mut j: usize = 0;
        while j < links.len()
            invariant
                j <= links@.len(),
                lk == views(links@),
                attachments_follow(attachments@, lk.take(j as int)),
            decreases links@.len() - j,
        {
            proof {
                assert(lk.take(j + 1).drop_last() == lk.take(j as int));
                assert(lk.take(j + 1).last() == links@[j as int]@);
            }
            let ghost before = attachments@;
            if let Some(h) = first_attr_in_fragment(links[j].as_str(), "a", "href") {
                let url = concat(BASE_URL, h.as_str());
                let name = trim_str(text_of_element(links[j].as_str()).as_str());
                let name_opt = if name.as_str().unicode_len() > 0 { Some(name) } else { None };
                attachments.push(Attachment { url, name: name_opt, mime_type: None });
                proof {
                    assert(attachments@.drop_last() == before);
                }
            }
            j += 1;
        }
        proof {
            assert(lk.take(lk.len() as int) == lk);
        }
        SsufidPost {
            id: meta.id.clone(),
            url: meta.url.clone(),
            author: Some(meta.author.clone()),
            title,
            description: None,
            category,
            created_at,
            updated_at: None,
            thumbnail,
            content,
            attachments,
            metadata: None,
        }
    }

    /// Reads a post page, or gives none when its date does not read.
    pub fn try_parse_post_page(html: &str, meta: &SsuCatchMetadata) -> (r: Option<SsufidPost>)
        ensures
            r is Some <==> parsed_date(date_text(html@), DATE_FORMAT@) is Some,
    {
        if Self::post_page_readable(html) { Some(Self::parse_post_page(html, meta)) } else { None }
    }

    /// The target of the paging's link to the last page (see `last_page_href`).
    fn last_page_href_of(html: &str) -> (h: String)
        ensures
            h@ == last_page_href(html@),
    {
        let a = attrs_in_document(html, LAST_PAGE_SELECTOR, "href");
        if a.len() > 0 {
            proof {
                assert(opt_views(a@)[0] == opt_view(a@[0]));
            }
            match &a[0] {
                Some(h) => h.clone(),
                None => String::new(),
            }
        } else {
            String::new()
        }
    }

    /// The last page of the list as a list page's paging shows it (see
    /// `last_page_number`), when the target of its link to the last page is a URL with a
    /// path.
    pub fn get_last_page_number(html: &str) -> (n: u32)
        requires
            url_path_segments(last_page_href(html@)) is Some,
        ensures
            n == last_page_number(url_path_segments(last_page_href(html@))->0),
    {
        let h = Self::last_page_href_of(html);
        let segs = match path_segments_of(h.as_str()) {
            Some(s) => s,
            None => return 1,
        };
        let ghost ss = views(segs@);
        let page_word = String::from_str("page");
        let mut i: usize = 0;
        proof {
            assert(ss.skip(0) == ss);
        }
        while i < segs.len()
            invariant
                i <= segs@.len(),
                ss == views(segs@),
                page_word@ == "page"@,
                url_path_segments(last_page_href(html@)) == Some(ss),
                segment_after_page(ss) == segment_after_page(ss.skip(i as int)),
            decreases segs@.len() - i,
        {
            proof {
                assert(ss.skip(i as int)[0] == segs@[i as int]@);
                assert(ss.skip(i as int).drop_first() == ss.skip(i + 1));
                reveal_strlit("page");
            }
            if segs[i] == page_word {
                if i + 1 < segs.len() {
                    proof {
                        assert(ss.skip(i as int)[1] == segs@[i + 1]@);
                    }
                    let digits = chars_of(segs[i + 1].as_str());
                    proof {
                        lemma_parse_unsigned_range(digits@, u32::MAX as int);
                    }
                    return match parse_unsigned_text(&digits, 0xffff_ffff) {
                        Some(n) => n as u32,
                        None => 1,
                    };
                }
                return 1;
            }
            i += 1;
        }
        1
    }

    /// The last page of the list, or none when the target of the paging's link to the
    /// last page is no URL with a path.
    pub fn try_get_last_page_number(html: &str) -> (r: Option<u32>)
        ensures
            match r {
                Some(n) => url_path_segments(last_page_href(html@)) matches Some(segs) && n == last_page_number(segs),
                None => url_path_segments(last_page_href(html@)) is None,
            },
    {
        let h = Self::last_page_href_of(html);
        if path_segments_of(h.as_str()).is_some() { Some(Self::get_last_page_number(html)) } else { None }
    }

    /// How many list pages a crawl for `posts_limit` posts reads.
    pub fn pages_to_crawl(posts_limit: u32) -> (n: u32)
        ensures
            n == posts_limit / POSTS_PER_PAGE + 1,
    {
        posts_limit / POSTS_PER_PAGE + 1
    }

    /// The posts of the list pages, page after page, and at most `posts_limit` of them.
    pub fn take_listed(pages: Vec<Vec<SsuCatchMetadata>>, posts_limit: u32) -> (r: Vec<SsuCatchMetadata>)
        ensures
            ({
                let all = pages@.map_values(|p: Vec<SsuCatchMetadata>| p@).flatten();
                r@ == all.take(if all.len() <= posts_limit { all.len() as int } else { posts_limit as int })
            }),
    {
        let ghost src = pages@.map_values(|p: Vec<SsuCatchMetadata>| p@);
        let mut all: Vec<SsuCatchMetadata> = Vec::new();
        let mut pages = pages;
        let n = pages.len();
        let mut i: usize = 0;
        while i < n
            invariant
                n == src.len(),
                i <= n,
                pages@.len() == n - i,
                forall|k: int| 0 <= k < pages@.len() ==> (#[trigger] pages@[k])@ == src[k + i],
                all@ == src.take(i as int).flatten(),
            decreases n - i,
        {
            let mut p = pages.remove(0);
            proof {
                assert(src.take(i + 1).drop_last() == src.take(i as int));
                assert(src.take(i + 1).last() == p@);
                assert(src.take(i + 1) =~= src.take(i as int) + seq![p@]);
                vstd::seq_lib::lemma_flatten_concat(src.take(i as int), seq![p@]);
                seq![p@].lemma_flatten_one_element();
            }
            all.append(&mut p);
            i += 1;
        }
        proof {
            assert(src.take(n as int) == src);
        }
        all.truncate(posts_limit as usize);
        all
    }
}

} // verus!

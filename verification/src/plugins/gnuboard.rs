//! Boards built on Gnuboard, which several department sites share: the sites, reading
//! their list pages and post pages, and the listing of a crawl.

use vstd::prelude::*;
use crate::datetime::{parsed_date_time, kst_instant, KST_OFFSET_SECONDS, kst_date_time_from_text};
use crate::error::{PluginError, concat};
use crate::html::{
    cell_at, document_matches, document_attrs, opt_views, text_concat, fragment_first_attr, url_query_pairs,
    first_filled_value_for, pair_views, first_text, child_first_matches, first_match_children, fragment_first_child,
    fragment_text_nodes, first_in_children, children_of_first, first_child_in_fragment, first_attr_in_fragment,
    query_pairs_of, find_filled_pair_value, text_of_element, first_text_of, select_in_document, attrs_in_document,
    fragment_texts,
};
use crate::post::{Attachment, SsufidPost, opt_view};
use crate::text::{trim, trim_str, views, int_text, int_to_text, join_with, join_strings};

verus! {

/// How a board's list rows name their category, link and author.
#[derive(Clone, Copy, Debug, PartialEq, Eq)]
pub enum GnuboardLayout {
    /// The IT college's boards.
    It,
    /// The economics department's board.
    Eco,
}

/// A site whose notices are a Gnuboard board.
#[derive(Clone, Copy, Debug)]
pub struct GnuboardSite {
    pub identifier: &'static str,
    pub title: &'static str,
    pub description: &'static str,
    pub base_url: &'static str,
    pub layout: GnuboardLayout,
}

/// The body of a list page's table.
pub const TABLE_SELECTOR: &'static str = "#bo_list table > tbody";
/// A post page's title.
pub const TITLE_SELECTOR: &'static str = "#bo_v_title > span.bo_v_tit";
/// A post page's images, the first of which is its thumbnail.
pub const THUMBNAIL_SELECTOR: &'static str = "#bo_v_con img";
/// A post page's content.
pub const CONTENT_SELECTOR: &'static str = "#bo_v_con";
/// A post page's attachment links.
pub const ATTACHMENTS_SELECTOR: &'static str = "#bo_v_file > ul > li > a";
/// A post page's date.
pub const CREATED_AT_SELECTOR: &'static str = "#bo_v_info .if_date";
/// The format of a post's date and time, once its century is put in front.
pub const DATE_FORMAT: &'static str = "[year]-[month]-[day] [hour]:[minute]";

/// The selector of a row's category.
pub open spec fn category_selector(layout: GnuboardLayout) -> Seq<char> {
    match layout {
        GnuboardLayout::It => "td.td_num2 > p"@,
        GnuboardLayout::Eco => ".bo_cate_link"@,
    }
}

/// The selector of a row's link to its post.
pub open spec fn url_selector(layout: GnuboardLayout) -> Seq<char> {
    match layout {
        GnuboardLayout::It => "td.td_subject > div > a"@,
        GnuboardLayout::Eco => ".bo_tit > a"@,
    }
}

/// The selector of a row's author.
pub open spec fn author_selector(layout: GnuboardLayout) -> Seq<char> {
    match layout {
        GnuboardLayout::It => "td.td_name.sv_use > span"@,
        GnuboardLayout::Eco => ".sv_member"@,
    }
}

/// The selector of a row's category.
pub fn category_selector_of(layout: GnuboardLayout) -> (s: &'static str)
    ensures
        s@ == category_selector(layout),
{
    match layout {
        GnuboardLayout::It => "td.td_num2 > p",
        GnuboardLayout::Eco => ".bo_cate_link",
    }
}

/// The selector of a row's link.
pub fn url_selector_of(layout: GnuboardLayout) -> (s: &'static str)
    ensures
        s@ == url_selector(layout),
{
    match layout {
        GnuboardLayout::It => "td.td_subject > div > a",
        GnuboardLayout::Eco => ".bo_tit > a",
    }
}

/// The selector of a row's author.
pub fn author_selector_of(layout: GnuboardLayout) -> (s: &'static str)
    ensures
        s@ == author_selector(layout),
{
    match layout {
        GnuboardLayout::It => "td.td_name.sv_use > span",
        GnuboardLayout::Eco => ".sv_member",
    }
}

/// A post as the list shows it.
#[derive(Clone, Debug)]
pub struct GnuboardMetadata {
    pub category: Option<String>,
    pub id: String,
    pub url: String,
    pub author: Option<String>,
}

/// The fields of a listed post: category, number, address and author.
pub open spec fn meta_fields(m: GnuboardMetadata) -> (Option<Seq<char>>, Seq<char>, Seq<char>, Option<Seq<char>>) {
    (opt_view(m.category), m.id@, m.url@, opt_view(m.author))
}

/// `e` is the refusal, by the board's site, of unreadable content with the message `msg`.
pub open spec fn parse_error_is(site: GnuboardSite, e: PluginError, msg: Seq<char>) -> bool {
    e matches PluginError::Parse { plugin, message } && plugin@ == site.identifier@ && message@ == msg
}

/// The address of list page `page` of a board.
pub open spec fn page_url_of(site: GnuboardSite, page: int) -> Seq<char> {
    site.base_url@ + "&page="@ + int_text(page)
}

/// A list of optional cells, or none when there is none.
pub open spec fn cells_or_none(c: Option<Seq<Option<Seq<char>>>>) -> Seq<Option<Seq<char>>> {
    match c {
        Some(s) => s,
        None => Seq::empty(),
    }
}

/// The trimmed text of an optional element.
pub open spec fn trimmed_text(c: Option<Seq<char>>) -> Option<Seq<char>> {
    match c {
        Some(h) => Some(trim(text_concat(h))),
        None => None,
    }
}

/// What row `i` of a list page gives: its post's fields, or none when it has no link with
/// a target, the target is no URL or it has no filled `wr_id` pair.
pub open spec fn row_meta(layout: GnuboardLayout, html: Seq<char>, i: int)
    -> Option<(Option<Seq<char>>, Seq<char>, Seq<char>, Option<Seq<char>>)>
{
    match cell_at(cells_or_none(child_first_matches(html, TABLE_SELECTOR@, url_selector(layout))), i) {
        None => None,
        Some(l) => match fragment_first_attr(l, "a"@, "href"@) {
            None => None,
            Some(url) => match url_query_pairs(url) {
                None => None,
                Some(p) => match first_filled_value_for(p, "wr_id"@) {
                    None => None,
                    Some(id) => Some((
                        trimmed_text(cell_at(cells_or_none(child_first_matches(html, TABLE_SELECTOR@, category_selector(layout))), i)),
                        id,
                        url,
                        trimmed_text(cell_at(cells_or_none(child_first_matches(html, TABLE_SELECTOR@, author_selector(layout))), i)),
                    )),
                },
            },
        },
    }
}

/// `metas` are the posts of the first `n` rows, in order.
pub open spec fn rows_follow(metas: Seq<GnuboardMetadata>, layout: GnuboardLayout, html: Seq<char>, n: int) -> bool
    decreases n,
{
    if n <= 0 {
        metas.len() == 0
    } else {
        match row_meta(layout, html, n - 1) {
            Some(v) => metas.len() > 0 && meta_fields(metas.last()) == v && rows_follow(metas.drop_last(), layout, html, n - 1),
            None => rows_follow(metas, layout, html, n - 1),
        }
    }
}

/// The text of a post page's date: the last text of its date element, trimmed.
pub open spec fn date_text(html: Seq<char>) -> Option<Seq<char>> {
    let m = document_matches(html, CREATED_AT_SELECTOR@);
    if m.len() > 0 && fragment_text_nodes(m[0]).len() > 0 {
        Some(trim(fragment_text_nodes(m[0]).last()))
    } else {
        None
    }
}

/// Why the post page of the post at `url` is refused, as its message: no title, no
/// content, no date or an unreadable one; in that order.
pub open spec fn post_failure(html: Seq<char>, url: Seq<char>) -> Option<Seq<char>> {
    if first_text(html, TITLE_SELECTOR@) is None {
        Some("Title element not found: URL "@ + url)
    } else if first_match_children(html, CONTENT_SELECTOR@) is None {
        Some("Content element not found: URL "@ + url)
    } else if date_text(html) is None {
        Some("Created date element not found: URL "@ + url)
    } else if parsed_date_time("20"@ + date_text(html)->0, DATE_FORMAT@) is None {
        Some("Failed to parse created date: "@ + date_text(html)->0)
    } else {
        None
    }
}

/// The thumbnail of a post page: the source of its first image.
pub open spec fn thumbnail_of(html: Seq<char>) -> Option<Seq<char>> {
    let a = document_attrs(html, THUMBNAIL_SELECTOR@, "src"@);
    if a.len() > 0 { a[0] } else { None }
}

/// `atts` are the attachments of the links `links`: each with its target (or an empty
/// one) and, as its name, the text of its first child element, if any.
pub open spec fn attachments_follow(atts: Seq<Attachment>, links: Seq<Seq<char>>) -> bool {
    &&& atts.len() == links.len()
    &&& forall|i: int| 0 <= i < links.len() ==> {
        &&& (#[trigger] atts[i]).url@ == (match fragment_first_attr(links[i], "a"@, "href"@) { Some(h) => h, None => Seq::empty() })
        &&& opt_view(atts[i].name) == (match fragment_first_child(links[i]) { Some(c) => Some(text_concat(c)), None => None })
        &&& atts[i].mime_type is None
    }
}

/// The category of a post as a list: the listed one, or none.
pub open spec fn category_list(c: Option<Seq<char>>) -> Seq<Seq<char>> {
    match c {
        Some(s) => seq![s],
        None => Seq::empty(),
    }
}

/// The posts listed so far, how many more are wanted, and the next list page.
pub struct GnuboardListing {
    pub metas: Vec<GnuboardMetadata>,
    pub remain: u32,
    pub page: u32,
}

impl GnuboardSite {
    /// The address of list page `page`.
    pub fn page_url(&self, page: u32) -> (out: String)
        ensures
            out@ == page_url_of(*self, page as int),
    {
        let mut out = concat(self.base_url, "&page=");
        out.append(int_to_text(page as i64).as_str());
        out
    }

    /// Reads a list page: the posts of the rows of its table (see `row_meta`), in order;
    /// refused when it has no table.
    pub fn parse_list_page(&self, html: &str) -> (r: Result<Vec<GnuboardMetadata>, PluginError>)
        ensures
            match r {
                Ok(metas) => child_first_matches(html@, TABLE_SELECTOR@, url_selector(self.layout)) matches Some(links)
                    && rows_follow(metas@, self.layout, html@, links.len() as int),
                Err(e) => child_first_matches(html@, TABLE_SELECTOR@, url_selector(self.layout)) is None
                    && parse_error_is(*self, e, "Table element not found"@),
            },
    {
        let links = match first_in_children(html, TABLE_SELECTOR, url_selector_of(self.layout)) {
            Some(l) => l,
            None => return Err(PluginError::parse(self.identifier, String::from_str("Table element not found"))),
        };
        let cats = match first_in_children(html, TABLE_SELECTOR, category_selector_of(self.layout)) {
            Some(c) => c,
            None => Vec::new(),
        };
        let authors = match first_in_children(html, TABLE_SELECTOR, author_selector_of(self.layout)) {
            Some(a) => a,
            None => Vec::new(),
        };
        let ghost layout = self.layout;
        let mut metas: Vec<GnuboardMetadata> = Vec::new();
        let mut i: usize = 0;
        while i < links.len()
            invariant
                i <= links@.len(),
                layout == self.layout,
                child_first_matches(html@, TABLE_SELECTOR@, url_selector(layout)) == Some(opt_views(links@)),
                opt_views(cats@) == cells_or_none(child_first_matches(html@, TABLE_SELECTOR@, category_selector(layout))),
                opt_views(authors@) == cells_or_none(child_first_matches(html@, TABLE_SELECTOR@, author_selector(layout))),
                rows_follow(metas@, layout, html@, i as int),
            decreases links@.len() - i,
        {
            let ghost before = metas@;
            proof {
                assert(opt_views(links@)[i as int] == opt_view(links@[i as int]));
            }
            match Self::resolve_row(i, &links, &cats, &authors, Ghost(html@), Ghost(layout)) {
                Some(m) => {
                    metas.push(m);
                    proof {
                        assert(metas@.drop_last() == before);
                    }
                },
                None => {},
            }
            i += 1;
        }
        Ok(metas)
    }

    /// Reads row `i` of a list page (see `row_meta`).
    fn resolve_row(i: usize, links: &Vec<Option<String>>, cats: &Vec<Option<String>>, authors: &Vec<Option<String>>,
        html: Ghost<Seq<char>>, layout: Ghost<GnuboardLayout>) -> (r: Option<GnuboardMetadata>)
        requires
            i < links@.len(),
            child_first_matches(html@, TABLE_SELECTOR@, url_selector(layout@)) == Some(opt_views(links@)),
            opt_views(cats@) == cells_or_none(child_first_matches(html@, TABLE_SELECTOR@, category_selector(layout@))),
            opt_views(authors@) == cells_or_none(child_first_matches(html@, TABLE_SELECTOR@, author_selector(layout@))),
        ensures
            match r {
                Some(m) => row_meta(layout@, html@, i as int) == Some(meta_fields(m)),
                None => row_meta(layout@, html@, i as int) is None,
            },
    {
        proof {
            assert(opt_views(links@)[i as int] == opt_view(links@[i as int]));
        }
        let l = match &links[i] {
            Some(l) => l,
            None => return None,
        };
        let url = match first_attr_in_fragment(l.as_str(), "a", "href") {
            Some(h) => h,
            None => return None,
        };
        let pairs = match query_pairs_of(url.as_str()) {
            Some(p) => p,
            None => return None,
        };
        let id = match find_filled_pair_value(&pairs, "wr_id") {
            Some(v) => v,
            None => return None,
        };
        let category = if i < cats.len() {
            proof {
                assert(opt_views(cats@)[i as int] == opt_view(cats@[i as int]));
            }
            match &cats[i] {
                Some(c) => Some(trim_str(text_of_element(c.as_str()).as_str())),
                None => None,
            }
        } else {
            None
        };
        let author = if i < authors.len() {
            proof {
                assert(opt_views(authors@)[i as int] == opt_view(authors@[i as int]));
            }
            match &authors[i] {
                Some(a) => Some(trim_str(text_of_element(a.as_str()).as_str())),
                None => None,
            }
        } else {
            None
        };
        Some(GnuboardMetadata { category, id, url, author })
    }

    /// The date text of a post page (see `date_text`).
    fn date_text_of(html: &str) -> (r: Option<String>)
        ensures
            opt_view(r) == date_text(html@),
    {
        let m = select_in_document(html, CREATED_AT_SELECTOR);
        if m.len() == 0 {
            return None;
        }
        proof {
            assert(views(m@)[0] == m@[0]@);
        }
        let nodes = fragment_texts(m[0].as_str());
        if nodes.len() == 0 {
            return None;
        }
        proof {
            assert(views(nodes@).last() == nodes@[nodes@.len() - 1]@);
        }
        let last = nodes.len() - 1;
        Some(trim_str(nodes[last].as_str()))
    }

    /// Reads the post page of the post listed as `meta` (see `post_failure`): its title,
    /// its thumbnail, its content as the HTML of its child elements joined by line breaks,
    /// its attachments and its date, read after the century `20`, Korea Standard Time;
    /// its author and category as listed.
    pub fn parse_post_page(&self, html: &str, meta: &GnuboardMetadata) -> (r: Result<SsufidPost, PluginError>)
        ensures
            match r {
                Err(e) => post_failure(html@, meta.url@) matches Some(m) && parse_error_is(*self, e, m),
                Ok(p) => {
                    &&& post_failure(html@, meta.url@) is None
                    &&& p.id == meta.id
                    &&& p.url == meta.url
                    &&& p.author == meta.author
                    &&& Some(p.title@) == first_text(html@, TITLE_SELECTOR@)
                    &&& opt_view(p.thumbnail) == thumbnail_of(html@)
                    &&& first_match_children(html@, CONTENT_SELECTOR@) matches Some(children)
                    &&& p.content@ == join_with(children, "\n"@)
                    &&& attachments_follow(p.attachments@, document_matches(html@, ATTACHMENTS_SELECTOR@))
                    &&& parsed_date_time("20"@ + date_text(html@)->0, DATE_FORMAT@) matches Some(f)
                    &&& p.created_at.unix_nanos == kst_instant(f)
                    &&& p.created_at.offset_seconds == KST_OFFSET_SECONDS
                    &&& views(p.category@) == category_list(opt_view(meta.category))
                    &&& p.description is None
                    &&& p.updated_at is None
                    &&& p.metadata is None
                },
            },
    {
        let title = match first_text_of(html, TITLE_SELECTOR) {
            Some(t) => t,
            None => return Err(PluginError::parse(self.identifier, concat("Title element not found: URL ", meta.url.as_str()))),
        };
        let srcs = attrs_in_document(html, THUMBNAIL_SELECTOR, "src");
        let thumbnail = if srcs.len() > 0 {
            proof {
                assert(opt_views(srcs@)[0] == opt_view(srcs@[0]));
            }
            srcs[0].clone()
        } else {
            None
        };
        let children = match children_of_first(html, CONTENT_SELECTOR) {
            Some(c) => c,
            None => return Err(PluginError::parse(self.identifier, concat("Content element not found: URL ", meta.url.as_str()))),
        };
        let content = join_strings(&children, "\n");
        let links = select_in_document(html, ATTACHMENTS_SELECTOR);
        let mut attachments: Vec<Attachment> = Vec::new();
        let mut i: usize = 0;
        while i < links.len()
            invariant
                i <= links@.len(),
                attachments_follow(attachments@, views(links@).take(i as int)),
            decreases links@.len() - i,
        {
            let url = match first_attr_in_fragment(links[i].as_str(), "a", "href") {
                Some(h) => h,
                None => String::new(),
            };
            let name = match first_child_in_fragment(links[i].as_str()) {
                Some(c) => Some(text_of_element(c.as_str())),
                None => None,
            };
            attachments.push(Attachment { url, name, mime_type: None });
            proof {
                assert(views(links@).take(i + 1)[i as int] == links@[i as int]@);
            }
            i += 1;
        }
        proof {
            assert(views(links@).take(links@.len() as int) == views(links@));
        }
        let date = match Self::date_text_of(html) {
            Some(d) => d,
            None => return Err(PluginError::parse(self.identifier, concat("Created date element not found: URL ", meta.url.as_str()))),
        };
        let full = concat("20", date.as_str());
        let created_at = match kst_date_time_from_text(full.as_str(), DATE_FORMAT) {
            Some(t) => t,
            None => return Err(PluginError::parse(self.identifier, concat("Failed to parse created date: ", date.as_str()))),
        };
        let category = match &meta.category {
            Some(c) => {
                let mut v: Vec<String> = Vec::new();
                v.push(c.clone());
                proof {
                    assert(views(v@) =~= seq![c@]);
                }
                v
            },
            None => {
                let v: Vec<String> = Vec::new();
                proof {
                    assert(views(v@) =~= Seq::<Seq<char>>::empty());
                }
                v
            },
        };
        Ok(SsufidPost {
            id: meta.id.clone(),
            url: meta.url.clone(),
            author: meta.author.clone(),
            title,
            description: None,
            category,
            created_at,
            updated_at: None,
            thumbnail,
            content,
            attachments,
            metadata: None,
        })
    }
}

impl GnuboardListing {
    /// A listing for `posts_limit` posts, from the first page.
    pub fn new(posts_limit: u32) -> (l: GnuboardListing)
        ensures
            l.metas@.len() == 0,
            l.remain == posts_limit,
            l.page == 1,
    {
        GnuboardListing { metas: Vec::new(), remain: posts_limit, page: 1 }
    }

    /// Whether the listing wants another page: posts are still wanted.
    pub fn wants_page(&self) -> (b: bool)
        ensures
            b == (self.remain > 0),
    {
        self.remain > 0
    }

    /// Takes in the posts of the current list page: as many as are still wanted join the
    /// listing, and the next page comes; false when the page gave none, which ends the
    /// listing.
    pub fn take_page(&mut self, items: Vec<GnuboardMetadata>) -> (go_on: bool)
        ensures
            ({
                let k = if items@.len() <= old(self).remain { items@.len() as int } else { old(self).remain as int };
                &&& go_on == (k > 0)
                &&& go_on ==> final(self).metas@ == old(self).metas@ + items@.take(k)
                    && final(self).remain == old(self).remain - k
                    && final(self).page == (if old(self).page < u32::MAX { old(self).page + 1 } else { u32::MAX as int })
                &&& !go_on ==> final(self).metas@ == old(self).metas@ && final(self).remain == old(self).remain
                    && final(self).page == old(self).page
            }),
    {
        let mut items = items;
        items.truncate(self.remain as usize);
        if items.len() == 0 {
            return false;
        }
        let k = items.len();
        self.remain = self.remain - k as u32;
        self.metas.append(&mut items);
        if self.page < u32::MAX {
            self.page = self.page + 1;
        }
        true
    }
}

/// The computer science and engineering department's employment board.
pub struct CseEmploymentPlugin;

/// The software department's undergraduate notices.
pub struct SwBachelorPlugin;

/// The software department's graduate notices.
pub struct SwGraduatePlugin;

impl CseEmploymentPlugin {
    /// The plugin.
    pub fn new() -> (p: CseEmploymentPlugin)
        ensures
            p == CseEmploymentPlugin,
    {
        CseEmploymentPlugin
    }

    /// The board that the plugin reads.
    pub fn site(&self) -> (s: GnuboardSite)
        ensures
            s.identifier@ == "cse.ssu.ac.kr/employment"@,
            s.base_url@ == "https://cse.ssu.ac.kr/bbs/board.php?bo_table=employment"@,
            s.layout == GnuboardLayout::It,
    {
        GnuboardSite {
            identifier: "cse.ssu.ac.kr/employment",
            title: "숭실대학교 컴퓨터학부 취업정보",
            description: "숭실대학교 컴퓨터학부 홈페이지의 취업정보를 제공합니다.",
            base_url: "https://cse.ssu.ac.kr/bbs/board.php?bo_table=employment",
            layout: GnuboardLayout::It,
        }
    }
}

impl SwBachelorPlugin {
    /// The plugin.
    pub fn new() -> (p: SwBachelorPlugin)
        ensures
            p == SwBachelorPlugin,
    {
        SwBachelorPlugin
    }

    /// The board that the plugin reads.
    pub fn site(&self) -> (s: GnuboardSite)
        ensures
            s.identifier@ == "sw.ssu.ac.kr/bachelor"@,
            s.base_url@ == "https://sw.ssu.ac.kr/bbs/board.php?bo_table=notice"@,
            s.layout == GnuboardLayout::It,
    {
        GnuboardSite {
            identifier: "sw.ssu.ac.kr/bachelor",
            title: "숭실대학교 소프트웨어학부 학사 공지사항",
            description: "숭실대학교 소프트웨어 홈페이지의 학사 공지사항을 제공합니다.",
            base_url: "https://sw.ssu.ac.kr/bbs/board.php?bo_table=notice",
            layout: GnuboardLayout::It,
        }
    }
}

impl SwGraduatePlugin {
    /// The plugin.
    pub fn new() -> (p: SwGraduatePlugin)
        ensures
            p == SwGraduatePlugin,
    {
        SwGraduatePlugin
    }

    /// The board that the plugin reads.
    pub fn site(&self) -> (s: GnuboardSite)
        ensures
            s.identifier@ == "sw.ssu.ac.kr/graduate"@,
            s.base_url@ == "https://sw.ssu.ac.kr/bbs/board.php?bo_table=gra_notice"@,
            s.layout == GnuboardLayout::It,
    {
        GnuboardSite {
            identifier: "sw.ssu.ac.kr/graduate",
            title: "숭실대학교 소프트웨어 대학원 공지사항",
            description: "숭실대학교 컴퓨터학부 홈페이지의 대학원 공지사항을 제공합니다.",
            base_url: "https://sw.ssu.ac.kr/bbs/board.php?bo_table=gra_notice",
            layout: GnuboardLayout::It,
        }
    }
}

/// Every Gnuboard site that the aggregator reads.
pub fn gnuboard_sites() -> (v: Vec<GnuboardSite>)
    ensures
        v@.len() == 7,
{
    let mut v: Vec<GnuboardSite> = Vec::new();
    v.push(GnuboardSite {
        identifier: "cse.ssu.ac.kr/bachelor",
        title: "숭실대학교 컴퓨터학부 학사 공지사항",
        description: "숭실대학교 컴퓨터학부 홈페이지의 학사 공지사항을 제공합니다.",
        base_url: "https://cse.ssu.ac.kr/bbs/board.php?bo_table=notice",
        layout: GnuboardLayout::It,
    });
    v.push(CseEmploymentPlugin.site());
    v.push(GnuboardSite {
        identifier: "cse.ssu.ac.kr/graduate",
        title: "숭실대학교 컴퓨터학부 대학원 공지사항",
        description: "숭실대학교 컴퓨터학부 홈페이지의 대학원 공지사항을 제공합니다.",
        base_url: "https://cse.ssu.ac.kr/bbs/board.php?bo_table=gra_notice",
        layout: GnuboardLayout::It,
    });
    v.push(GnuboardSite {
        identifier: "eco.ssu.ac.kr",
        title: "숭실대학교 경제학과 공지사항",
        description: "숭실대학교 경제학과 홈페이지의 공지사항을 제공합니다.",
        base_url: "https://eco.ssu.ac.kr/bbs/board.php?bo_table=notice",
        layout: GnuboardLayout::Eco,
    });
    v.push(GnuboardSite {
        identifier: "sec.ssu.ac.kr",
        title: "숭실대학교 정보보호학과 공지사항",
        description: "숭실대학교 정보보호학과 홈페이지의 공지사항을 제공합니다.",
        base_url: "https://sec.ssu.ac.kr/bbs/board.php?bo_table=notice",
        layout: GnuboardLayout::It,
    });
    v.push(SwBachelorPlugin.site());
    v.push(SwGraduatePlugin.site());
    v
}

} // verus!

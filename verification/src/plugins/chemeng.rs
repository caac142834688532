//! The chemical engineering department's notices: reading its list pages and post pages,
//! and the decisions of its crawl.

use vstd::prelude::*;
use crate::datetime::{Timestamp, parsed_date, kst_instant, KST_OFFSET_SECONDS, kst_midnight_from_text, date_parse_error, date_error_texts};
use crate::error::{PluginError, concat};
use crate::html::{
    document_matches, fragment_matches, fragment_first_attr, joined_url, url_query_pairs, first_value_for, text_concat,
    select_in_document, select_in_fragment, first_attr_in_fragment, join_url, query_pairs_of, find_pair_value,
    text_of_element, all_matches_in_each, matches_in_each, nested_views, url_with_pairs, append_query_pairs, pair_views,
};
use crate::post::{SsufidPost, opt_view};
use crate::text::{
    trim, trim_str, chars_of, string_of, copy_range, seq_index_of, find_text, first_index_of, find_char, is_digit,
    parse_unsigned, parse_unsigned_text, int_text, int_to_text, trimmed_copy, views,
};

verus! {

/// The plugin's identifier.
pub const IDENTIFIER: &'static str = "chemeng.ssu.ac.kr";
/// The site's title.
pub const TITLE: &'static str = "숭실대학교 화학공학과";
/// The site's description.
pub const DESCRIPTION: &'static str = "숭실대학교 화학공학과 홈페이지의 공지사항을 제공합니다.";
/// The site's address.
pub const BASE_URL: &'static str = "http://chemeng.ssu.ac.kr";
/// The path of the notice list, relative to the site's address.
pub const LIST_PATH: &'static str = "sub/sub03_01.php";
/// How many posts a list page shows.
pub const POSTS_PER_PAGE: u32 = 10;
/// The rows of a list page.
pub const NOTICE_ROW_SELECTOR: &'static str = "table tr";
/// A row's link with its title.
pub const ROW_LINK_TITLE_SELECTOR: &'static str = "td:nth-child(2) > a";
/// A row's author cell.
pub const ROW_AUTHOR_SELECTOR: &'static str = "td:nth-child(3)";
/// A row's date cell.
pub const ROW_DATE_SELECTOR: &'static str = "td:nth-child(4)";
/// A post page's title.
pub const POST_TITLE_SELECTOR: &'static str = "div.board-view > div.head > h3.tit";
/// A post page's author.
pub const POST_AUTHOR_INFO_SELECTOR: &'static str = "div.board-view > div.head > div.info > span.name";
/// A post page's date.
pub const POST_DATE_INFO_SELECTOR: &'static str = "div.board-view > div.head > div.info > span.date";
/// A post page's content.
pub const POST_CONTENT_SELECTOR: &'static str = "div.board-view > div.body";
/// The format of a date.
pub const DATE_FORMAT_PARSE: &'static str = "[year]-[month]-[day]";
/// The label before the page count in a list page's text.
pub const PAGE_INFO_LABEL: &'static str = "페이지정보 :";
/// The page count assumed when a list page does not give one.
pub const FALLBACK_TOTAL_PAGES: u32 = 70;
/// The list page after which a crawl stops in any case.
pub const MAX_PAGE: u32 = 200;
/// The category of every post.
pub const CATEGORY: &'static str = "학부공지사항";

/// The chemical engineering department plugin.
pub struct ChemEngPlugin;

/// A post as the list page shows it.
#[derive(Clone, Debug)]
pub struct ChemEngPostMetadata {
    pub id: String,
    pub url: String,
    pub title_on_list: String,
    pub author_on_list: String,
    pub date_str_on_list: String,
}

/// The elements of row `i` that `selector` picks.
pub open spec fn row_cells(html: Seq<char>, i: int, selector: Seq<char>) -> Seq<Seq<char>> {
    let a = all_matches_in_each(html, NOTICE_ROW_SELECTOR@, selector);
    if 0 <= i < a.len() { a[i] } else { Seq::empty() }
}

/// The first element of row `i` that `selector` picks, if any.
pub open spec fn first_cell(html: Seq<char>, i: int, selector: Seq<char>) -> Option<Seq<char>> {
    let c = row_cells(html, i, selector);
    if c.len() > 0 { Some(c[0]) } else { None }
}

/// The trimmed text of an element.
pub open spec fn cell_text(c: Seq<char>) -> Seq<char> {
    trim(text_concat(c))
}

/// The number of rows of a list page.
pub open spec fn row_count(html: Seq<char>) -> int {
    all_matches_in_each(html, NOTICE_ROW_SELECTOR@, "th"@).len() as int
}

/// The first ten characters of a text.
pub open spec fn first_ten(s: Seq<char>) -> Seq<char> {
    if s.len() <= 10 { s } else { s.take(10) }
}

/// The number of a row's post: the first non-empty `idx` query value of its address, or,
/// for an announcement, a number made from its date and the start of its title.
pub open spec fn row_id_of(html: Seq<char>, i: int, u: Seq<char>, title: Seq<char>) -> Option<Seq<char>> {
    let idv = match url_query_pairs(u) {
        Some(p) => first_value_for(p, "idx"@),
        None => None,
    };
    let first = match first_cell(html, i, "td:first-child"@) {
        Some(c) => cell_text(c),
        None => Seq::empty(),
    };
    if idv matches Some(v) && v.len() > 0 {
        idv
    } else if first == "공지"@ {
        let date_for_id = match first_cell(html, i, ROW_DATE_SELECTOR@) {
            Some(d) => cell_text(d),
            None => "nodate"@,
        };
        Some("notice_"@ + date_for_id + "_"@ + first_ten(title))
    } else {
        None
    }
}

/// What row `i` of a list page gives: its refusal's message, nothing (a header, a short
/// row, a row without a number, or an unreadable date), or its post as number, address,
/// title, author and date.
pub open spec fn row_result(html: Seq<char>, i: int) -> Result<Option<(Seq<char>, Seq<char>, Seq<char>, Seq<char>, Seq<char>)>, Seq<char>> {
    if row_cells(html, i, "th"@).len() > 0 || row_cells(html, i, "td"@).len() < 4 {
        Ok(None)
    } else {
        match first_cell(html, i, ROW_LINK_TITLE_SELECTOR@) {
            None => Err("Metadata error: Title not found in row"@),
            Some(l) => if cell_text(l).len() == 0 {
                Err("Metadata error: Title not found in row"@)
            } else {
                match fragment_first_attr(l, "a"@, "href"@) {
                    None => Err("Metadata error: URL not found in row"@),
                    Some(h) => match joined_url(BASE_URL@, h) {
                        None => Err("Invalid post URL '"@ + h + "'"@),
                        Some(u) => match row_id_of(html, i, u, cell_text(l)) {
                            None => Ok(None),
                            Some(id) => match first_cell(html, i, ROW_AUTHOR_SELECTOR@) {
                                None => Err("Metadata error: Author not found in row"@),
                                Some(a) => match first_cell(html, i, ROW_DATE_SELECTOR@) {
                                    None => Err("Metadata error: Date not found in row"@),
                                    Some(d) => if parsed_date(cell_text(d), DATE_FORMAT_PARSE@) is None {
                                        Ok(None)
                                    } else {
                                        Ok(Some((id, u, cell_text(l), cell_text(a), cell_text(d))))
                                    },
                                },
                            },
                        },
                    },
                }
            },
        }
    }
}

/// The view of a post as the list shows it.
pub open spec fn meta_view(m: ChemEngPostMetadata) -> (Seq<char>, Seq<char>, Seq<char>, Seq<char>, Seq<char>) {
    (m.id@, m.url@, m.title_on_list@, m.author_on_list@, m.date_str_on_list@)
}

/// `metas` are the posts of the first `n` rows, in order, rows without a post left out;
/// no row among them is refused.
pub open spec fn rows_follow(metas: Seq<ChemEngPostMetadata>, html: Seq<char>, n: int) -> bool
    decreases n,
{
    if n <= 0 {
        metas.len() == 0
    } else {
        match row_result(html, n - 1) {
            Ok(Some(v)) => metas.len() > 0 && meta_view(metas.last()) == v && rows_follow(metas.drop_last(), html, n - 1),
            Ok(None) => rows_follow(metas, html, n - 1),
            Err(_) => false,
        }
    }
}

/// The first refused row among the first `n`, as its message.
pub open spec fn first_row_failure(html: Seq<char>, n: int) -> Option<Seq<char>>
    decreases n,
{
    if n <= 0 {
        None
    } else if first_row_failure(html, n - 1) is Some {
        first_row_failure(html, n - 1)
    } else {
        match row_result(html, n - 1) {
            Err(m) => Some(m),
            Ok(_) => None,
        }
    }
}

/// `e` is the plugin's refusal of unreadable content with the message `msg`.
pub open spec fn parse_error_is(e: PluginError, msg: Seq<char>) -> bool {
    e matches PluginError::Parse { plugin, message } && plugin@ == IDENTIFIER@ && message@ == msg
}

/// The digits at the start of a text.
pub open spec fn digit_prefix(s: Seq<char>) -> Seq<char>
    decreases s.len(),
{
    if s.len() > 0 && is_digit(s[0]) { seq![s[0]] + digit_prefix(s.drop_first()) } else { Seq::empty() }
}

/// The page count that a list page's text gives after its label: the digits after the
/// next `/`, when they make a positive `u32`; else the assumed count.
pub open spec fn total_pages_of(html: Seq<char>) -> int {
    let bodies = document_matches(html, "body"@);
    if bodies.len() == 0 {
        FALLBACK_TOTAL_PAGES as int
    } else {
        let t = text_concat(bodies[0]);
        let k = seq_index_of(t, PAGE_INFO_LABEL@);
        if k < 0 {
            FALLBACK_TOTAL_PAGES as int
        } else {
            let rel = t.skip(k + PAGE_INFO_LABEL@.len());
            let j = first_index_of(rel, '/');
            if j < 0 {
                FALLBACK_TOTAL_PAGES as int
            } else {
                match parse_unsigned(digit_prefix(trim(rel.skip(j + 1))), u32::MAX as int) {
                    Some(n) => if n > 0 { n } else { FALLBACK_TOTAL_PAGES as int },
                    None => FALLBACK_TOTAL_PAGES as int,
                }
            }
        }
    }
}

/// The trimmed text of the first element of the document that matches `selector`, when
/// it is not empty.
pub open spec fn nonempty_text(html: Seq<char>, selector: Seq<char>) -> Option<Seq<char>> {
    let m = document_matches(html, selector);
    if m.len() > 0 && cell_text(m[0]).len() > 0 { Some(cell_text(m[0])) } else { None }
}

/// The author that a post page names: the text of the name's `strong` element, or of
/// the name itself, when not empty.
pub open spec fn page_author(html: Seq<char>) -> Option<Seq<char>> {
    let m = document_matches(html, POST_AUTHOR_INFO_SELECTOR@);
    if m.len() == 0 {
        None
    } else {
        let s = fragment_matches(m[0], "strong"@);
        let t = if s.len() > 0 { cell_text(s[0]) } else { cell_text(m[0]) };
        if t.len() > 0 { Some(t) } else { None }
    }
}

/// The date of a post: the page's date, or else the list's.
pub open spec fn post_date_of(html: Seq<char>, m: ChemEngPostMetadata) -> Option<(int, int, int)> {
    let s = match nonempty_text(html, POST_DATE_INFO_SELECTOR@) {
        Some(d) => d,
        None => m.date_str_on_list@,
    };
    match parsed_date(s, DATE_FORMAT_PARSE@) {
        Some(d) => Some(d),
        None => parsed_date(m.date_str_on_list@, DATE_FORMAT_PARSE@),
    }
}

impl ChemEngPlugin {
    /// The plugin.
    pub fn new() -> (p: ChemEngPlugin)
        ensures
            p == ChemEngPlugin,
    {
        ChemEngPlugin
    }

    /// The address of the list page `page`: the list, with the board and, after the first
    /// page, the offset of its first post; `None` when the site's address does not
    /// resolve.
    pub fn get_list_page_url(page: u32) -> (r: Option<String>)
        requires
            page > 1 ==> (page - 1) * 10 <= u32::MAX,
        ensures
            opt_view(r) == (match joined_url(BASE_URL@, LIST_PATH@) {
                Some(u) => url_with_pairs(u, if page > 1 {
                    seq![("boardid"@, "notice1"@), ("offset"@, int_text((page - 1) * 10))]
                } else {
                    seq![("boardid"@, "notice1"@)]
                }),
                None => None,
            }),
    {
        let base = match join_url(BASE_URL, LIST_PATH) {
            Some(u) => u,
            None => return None,
        };
        let mut pairs: Vec<(String, String)> = Vec::new();
        pairs.push((String::from_str("boardid"), String::from_str("notice1")));
        if page > 1 {
            let offset: u32 = (page - 1) * POSTS_PER_PAGE;
            pairs.push((String::from_str("offset"), int_to_text(offset as i64)));
            proof {
                assert(pair_views(pairs@) =~= seq![("boardid"@, "notice1"@), ("offset"@, int_text((page - 1) * 10))]);
            }
        } else {
            proof {
                assert(pair_views(pairs@) =~= seq![("boardid"@, "notice1"@)]);
            }
        }
        append_query_pairs(base.as_str(), &pairs)
    }

    /// The trimmed text of the first of a row's elements, if it has one.
    fn first_cell_text(cells: &Vec<Vec<String>>, i: usize) -> (r: Option<String>)
        ensures
            opt_view(r) == (if i < cells@.len() && cells@[i as int]@.len() > 0 {
                Some(cell_text(cells@[i as int]@[0]@))
            } else {
                None
            }),
    {
        if i < cells.len() && cells[i].len() > 0 {
            let t = text_of_element(cells[i][0].as_str());
            Some(trim_str(t.as_str()))
        } else {
            None
        }
    }

    /// Reads row `i` of a list page (see `row_result`).
    #[verifier::rlimit(30)]
    fn parse_row(
        html: &str,
        i: usize,
        ths: &Vec<Vec<String>>,
        tds: &Vec<Vec<String>>,
        firsts: &Vec<Vec<String>>,
        links: &Vec<Vec<String>>,
        authors: &Vec<Vec<String>>,
        dates: &Vec<Vec<String>>,
    ) -> (r: Result<Option<ChemEngPostMetadata>, PluginError>)
        requires
            i < ths@.len(),
            nested_views(ths@) == all_matches_in_each(html@, NOTICE_ROW_SELECTOR@, "th"@),
            nested_views(tds@) == all_matches_in_each(html@, NOTICE_ROW_SELECTOR@, "td"@),
            nested_views(firsts@) == all_matches_in_each(html@, NOTICE_ROW_SELECTOR@, "td:first-child"@),
            nested_views(links@) == all_matches_in_each(html@, NOTICE_ROW_SELECTOR@, ROW_LINK_TITLE_SELECTOR@),
            nested_views(authors@) == all_matches_in_each(html@, NOTICE_ROW_SELECTOR@, ROW_AUTHOR_SELECTOR@),
            nested_views(dates@) == all_matches_in_each(html@, NOTICE_ROW_SELECTOR@, ROW_DATE_SELECTOR@),
        ensures
            match r {
                Err(e) => row_result(html@, i as int) matches Err(m) && parse_error_is(e, m),
                Ok(None) => row_result(html@, i as int) == Ok::<Option<(Seq<char>, Seq<char>, Seq<char>, Seq<char>, Seq<char>)>, Seq<char>>(None),
                Ok(Some(m)) => row_result(html@, i as int) == Ok::<Option<(Seq<char>, Seq<char>, Seq<char>, Seq<char>, Seq<char>)>, Seq<char>>(Some(meta_view(m))),
            },
    {
        proof {
            assert forall|k: int| 0 <= k < ths@.len() implies #[trigger] views(ths@[k]@) == all_matches_in_each(html@, NOTICE_ROW_SELECTOR@, "th"@)[k] by {
                assert(nested_views(ths@)[k] == views(ths@[k]@));
            }
            if i < tds@.len() { assert(nested_views(tds@)[i as int] == views(tds@[i as int]@)); }
            if i < firsts@.len() { assert(nested_views(firsts@)[i as int] == views(firsts@[i as int]@)); }
            if i < links@.len() { assert(nested_views(links@)[i as int] == views(links@[i as int]@)); }
            if i < authors@.len() { assert(nested_views(authors@)[i as int] == views(authors@[i as int]@)); }
            if i < dates@.len() { assert(nested_views(dates@)[i as int] == views(dates@[i as int]@)); }
            assert(views(ths@[i as int]@).len() == ths@[i as int]@.len());
        }
        if ths[i].len() > 0 {
            return Ok(None);
        }
        let td_count = if i < tds.len() { tds[i].len() } else { 0 };
        if td_count < 4 {
            return Ok(None);
        }
        let first = match Self::first_cell_text(firsts, i) {
            Some(t) => t,
            None => String::new(),
        };
        let link = if i < links.len() && links[i].len() > 0 {
            links[i][0].clone()
        } else {
            return Err(PluginError::parse(IDENTIFIER, String::from_str("Metadata error: Title not found in row")));
        };
        let ltext = text_of_element(link.as_str());
        let title = trim_str(ltext.as_str());
        if title.as_str().unicode_len() == 0 {
            return Err(PluginError::parse(IDENTIFIER, String::from_str("Metadata error: Title not found in row")));
        }
        let href = match first_attr_in_fragment(link.as_str(), "a", "href") {
            Some(h) => h,
            None => return Err(PluginError::parse(IDENTIFIER, String::from_str("Metadata error: URL not found in row"))),
        };
        let url = match join_url(BASE_URL, href.as_str()) {
            Some(u) => u,
            None => {
                let mut m = concat("Invalid post URL '", href.as_str());
                m.append("'");
                return Err(PluginError::parse(IDENTIFIER, m));
            },
        };
        let idv = match query_pairs_of(url.as_str()) {
            Some(p) => find_pair_value(&p, "idx"),
            None => None,
        };
        let notice = String::from_str("공지");
        let date_cell = Self::first_cell_text(dates, i);
        let id = match idv {
            Some(v) if v.as_str().unicode_len() > 0 => v,
            _ => {
                if first == notice {
                    let date_for_id = match &date_cell {
                        Some(d) => d.clone(),
                        None => String::from_str("nodate"),
                    };
                    let mut id = concat("notice_", date_for_id.as_str());
                    id.append("_");
                    let tc = chars_of(title.as_str());
                    let n = if tc.len() <= 10 { tc.len() } else { 10 };
                    let head = string_of(&copy_range(&tc, 0, n));
                    proof {
                        assert(head@ == first_ten(title@));
                    }
                    id.append(head.as_str());
                    id
                } else {
                    return Ok(None);
                }
            },
        };
        let author = match Self::first_cell_text(authors, i) {
            Some(a) => a,
            None => return Err(PluginError::parse(IDENTIFIER, String::from_str("Metadata error: Author not found in row"))),
        };
        let date = match date_cell {
            Some(d) => d,
            None => return Err(PluginError::parse(IDENTIFIER, String::from_str("Metadata error: Date not found in row"))),
        };
        match crate::datetime::parse_date_text(date.as_str(), DATE_FORMAT_PARSE) {
            Some(_) => {},
            None => return Ok(None),
        }
        Ok(Some(ChemEngPostMetadata { id, url, title_on_list: title, author_on_list: author, date_str_on_list: date }))
    }

    /// Reads a list page: the posts of its rows, in order, rows without a post left out;
    /// refused at the first row that cannot be read (see `first_row_failure`).
    pub fn parse_list_page(html: &str) -> (r: Result<Vec<ChemEngPostMetadata>, PluginError>)
        ensures
            match r {
                Ok(metas) => first_row_failure(html@, row_count(html@)) is None && rows_follow(metas@, html@, row_count(html@)),
                Err(e) => first_row_failure(html@, row_count(html@)) matches Some(m) && parse_error_is(e, m),
            },
    {
        let ths = matches_in_each(html, NOTICE_ROW_SELECTOR, "th");
        let tds = matches_in_each(html, NOTICE_ROW_SELECTOR, "td");
        let firsts = matches_in_each(html, NOTICE_ROW_SELECTOR, "td:first-child");
        let links = matches_in_each(html, NOTICE_ROW_SELECTOR, ROW_LINK_TITLE_SELECTOR);
        let authors = matches_in_each(html, NOTICE_ROW_SELECTOR, ROW_AUTHOR_SELECTOR);
        let dates = matches_in_each(html, NOTICE_ROW_SELECTOR, ROW_DATE_SELECTOR);
        proof {
            assert(nested_views(ths@).len() == ths@.len());
        }
        let mut metas: Vec<ChemEngPostMetadata> = Vec::new();
        let mut i: usize = 0;
        while i < ths.len()
            invariant
                i <= ths@.len(),
                ths@.len() == row_count(html@),
                nested_views(ths@) == all_matches_in_each(html@, NOTICE_ROW_SELECTOR@, "th"@),
                nested_views(tds@) == all_matches_in_each(html@, NOTICE_ROW_SELECTOR@, "td"@),
                nested_views(firsts@) == all_matches_in_each(html@, NOTICE_ROW_SELECTOR@, "td:first-child"@),
                nested_views(links@) == all_matches_in_each(html@, NOTICE_ROW_SELECTOR@, ROW_LINK_TITLE_SELECTOR@),
                nested_views(authors@) == all_matches_in_each(html@, NOTICE_ROW_SELECTOR@, ROW_AUTHOR_SELECTOR@),
                nested_views(dates@) == all_matches_in_each(html@, NOTICE_ROW_SELECTOR@, ROW_DATE_SELECTOR@),
                first_row_failure(html@, i as int) is None,
                rows_follow(metas@, html@, i as int),
            decreases ths@.len() - i,
        {
            let ghost before = metas@;
            match Self::parse_row(html, i, &ths, &tds, &firsts, &links, &authors, &dates) {
                Ok(Some(m)) => {
                    metas.push(m);
                    proof {
                        assert(metas@.drop_last() == before);
                    }
                },
                Ok(None) => {},
                Err(e) => {
                    proof {
                        lemma_first_row_failure_stays(html@, i + 1, row_count(html@));
                    }
                    return Err(e);
                },
            }
            i += 1;
        }
        Ok(metas)
    }

    /// The page count that a list page gives (see `total_pages_of`).
    pub fn get_total_pages_from_list_html(html: &str) -> (n: u32)
        ensures
            n == total_pages_of(html@),
    {
        let bodies = select_in_document(html, "body");
        if bodies.len() == 0 {
            return FALLBACK_TOTAL_PAGES;
        }
        proof {
            assert(views(bodies@)[0] == bodies@[0]@);
            reveal_strlit("/");
        }
        let t = chars_of(text_of_element(bodies[0].as_str()).as_str());
        let label = chars_of(PAGE_INFO_LABEL);
        proof {
            reveal_strlit("페이지정보 :");
        }
        let k = match find_text(&t, &label) {
            Some(k) => k,
            None => return FALLBACK_TOTAL_PAGES,
        };
        let tn = t.len();
        assert(k + label@.len() <= tn);
        let rel = copy_range(&t, k + label.len(), tn);
        proof {
            assert(rel@ == t@.skip(k + PAGE_INFO_LABEL@.len()));
        }
        let j = match find_char(&rel, '/') {
            Some(j) => j,
            None => return FALLBACK_TOTAL_PAGES,
        };
        let after = copy_range(&rel, j + 1, rel.len());
        proof {
            assert(after@ == rel@.skip(j + 1));
        }
        let trimmed = trimmed_copy(&after);
        let mut e: usize = 0;
        proof {
            assert(trimmed@.skip(0) == trimmed@);
            assert(trimmed@.take(0) + trimmed@ == trimmed@);
        }
        while e < trimmed.len() && '0' <= trimmed[e] && trimmed[e] <= '9'
            invariant
                e <= trimmed.len(),
                digit_prefix(trimmed@) == trimmed@.take(e as int) + digit_prefix(trimmed@.skip(e as int)),
            decreases trimmed.len() - e,
        {
            proof {
                let s = trimmed@.skip(e as int);
                assert(s.drop_first() == trimmed@.skip(e + 1));
                assert(trimmed@.take(e + 1) == trimmed@.take(e as int) + seq![s[0]]);
            }
            e += 1;
        }
        proof {
            let s = trimmed@.skip(e as int);
            assert(digit_prefix(s) == Seq::<char>::empty());
            assert(trimmed@.take(e as int) + Seq::<char>::empty() == trimmed@.take(e as int));
        }
        let digits = copy_range(&trimmed, 0, e);
        match parse_unsigned_text(&digits, 4294967295u64) {
            Some(n) => if n > 0 { n as u32 } else { FALLBACK_TOTAL_PAGES },
            None => FALLBACK_TOTAL_PAGES,
        }
    }

    /// Whether the crawl reads the list page `page`: fewer than `posts_limit` posts are
    /// listed, and the page is within the site's count and the bound.
    pub fn reads_page(collected: usize, posts_limit: u32, page: u32, total_pages: u32) -> (b: bool)
        ensures
            b == (collected < posts_limit && page <= total_pages && page <= MAX_PAGE),
    {
        collected < posts_limit as usize && page <= total_pages && page <= MAX_PAGE
    }

    /// Whether a list page ends the crawl: it gave no post, and is not the first.
    pub fn page_ends_crawl(found: usize, page: u32) -> (b: bool)
        ensures
            b == (found == 0 && page > 1),
    {
        found == 0 && page > 1
    }

    /// Reads a post page for the post listed as `metadata`: its title (or the list's), its
    /// author (or the list's), its date (see `post_date_of`) and its content. Refused when
    /// neither date reads.
    pub fn parse_post_page(html: &str, metadata: &ChemEngPostMetadata) -> (r: Result<SsufidPost, PluginError>)
        ensures
            r is Err <==> post_date_of(html@, *metadata) is None,
            r matches Err(e) ==> (e matches PluginError::Parse { plugin, message } && plugin@ == IDENTIFIER@
                && message@ == "Failed to parse date '"@ + metadata.date_str_on_list@ + "' for post "@ + metadata.id@ + ": "@
                    + date_parse_error(metadata.date_str_on_list@, DATE_FORMAT_PARSE@).0),
            r matches Ok(p) ==> {
                &&& p.id == metadata.id
                &&& p.url == metadata.url
                &&& p.title@ == (match nonempty_text(html@, POST_TITLE_SELECTOR@) { Some(t) => t, None => metadata.title_on_list@ })
                &&& opt_view(p.author) == Some(match page_author(html@) { Some(a) => a, None => metadata.author_on_list@ })
                &&& post_date_of(html@, *metadata) matches Some(d)
                &&& p.created_at.unix_nanos == kst_instant((d.0, d.1, d.2, 0, 0, 0))
                &&& p.created_at.offset_seconds == KST_OFFSET_SECONDS
                &&& p.content@ == (if document_matches(html@, POST_CONTENT_SELECTOR@).len() == 0 {
                    Seq::empty()
                } else {
                    document_matches(html@, POST_CONTENT_SELECTOR@)[0]
                })
                &&& views(p.category@) == seq![CATEGORY@]
                &&& p.description is None
                &&& p.updated_at is None
                &&& p.thumbnail is None
                &&& p.attachments@.len() == 0
                &&& p.metadata is None
            },
    {
        let titles = select_in_document(html, POST_TITLE_SELECTOR);
        let title = if titles.len() > 0 {
            proof {
                assert(views(titles@)[0] == titles@[0]@);
            }
            let t = trim_str(text_of_element(titles[0].as_str()).as_str());
            if t.as_str().unicode_len() > 0 { t } else { metadata.title_on_list.clone() }
        } else {
            metadata.title_on_list.clone()
        };
        let names = select_in_document(html, POST_AUTHOR_INFO_SELECTOR);
        let author = if names.len() > 0 {
            proof {
                assert(views(names@)[0] == names@[0]@);
            }
            let strongs = select_in_fragment(names[0].as_str(), "strong");
            let t = if strongs.len() > 0 {
                proof {
                    assert(views(strongs@)[0] == strongs@[0]@);
                }
                trim_str(text_of_element(strongs[0].as_str()).as_str())
            } else {
                trim_str(text_of_element(names[0].as_str()).as_str())
            };
            if t.as_str().unicode_len() > 0 { t } else { metadata.author_on_list.clone() }
        } else {
            metadata.author_on_list.clone()
        };
        let dates = select_in_document(html, POST_DATE_INFO_SELECTOR);
        let date_text = if dates.len() > 0 {
            proof {
                assert(views(dates@)[0] == dates@[0]@);
            }
            let t = trim_str(text_of_element(dates[0].as_str()).as_str());
            if t.as_str().unicode_len() > 0 { t } else { metadata.date_str_on_list.clone() }
        } else {
            metadata.date_str_on_list.clone()
        };
        let created_at = match kst_midnight_from_text(date_text.as_str(), DATE_FORMAT_PARSE) {
            Some(t) => t,
            None => match kst_midnight_from_text(metadata.date_str_on_list.as_str(), DATE_FORMAT_PARSE) {
                Some(t) => t,
                None => {
                    let mut m = concat("Failed to parse date '", metadata.date_str_on_list.as_str());
                    m.append("' for post ");
                    m.append(metadata.id.as_str());
                    m.append(": ");
                    m.append(date_error_texts(metadata.date_str_on_list.as_str(), DATE_FORMAT_PARSE).0.as_str());
                    return Err(PluginError::parse(IDENTIFIER, m));
                },
            },
        };
        let contents = select_in_document(html, POST_CONTENT_SELECTOR);
        let content = if contents.len() > 0 {
            proof {
                assert(views(contents@)[0] == contents@[0]@);
            }
            contents[0].clone()
        } else {
            String::new()
        };
        let mut category: Vec<String> = Vec::new();
        category.push(String::from_str(CATEGORY));
        proof {
            assert(views(category@) =~= seq![CATEGORY@]);
        }
        Ok(SsufidPost {
            id: metadata.id.clone(),
            url: metadata.url.clone(),
            title,
            author: Some(author),
            description: None,
            category,
            created_at,
            content,
            updated_at: None,
            thumbnail: None,
            attachments: Vec::new(),
            metadata: None,
        })
    }
}

/// Once a row among the first `k` is refused, the first refusal among the first `n` is
/// the same.
proof fn lemma_first_row_failure_stays(html: Seq<char>, k: int, n: int)
    requires
        0 < k <= n,
        first_row_failure(html, k) is Some,
    ensures
        first_row_failure(html, n) == first_row_failure(html, k),
    decreases n - k,
{
    if n > k {
        lemma_first_row_failure_stays(html, k, n - 1);
    }
}


impl ChemEngPlugin {
    /// Whether a crawl for `posts_limit` posts reads the site at all: only when it wants
    /// some.
    pub fn crawls(posts_limit: u32) -> (b: bool)
        ensures
            b == (posts_limit > 0),
    {
        posts_limit > 0
    }

    /// The listed posts that the crawl fetches: the first `posts_limit` of them.
    pub fn limit_listing(all: Vec<ChemEngPostMetadata>, posts_limit: u32) -> (r: Vec<ChemEngPostMetadata>)
        ensures
            r@ == all@.take(if all@.len() <= posts_limit { all@.len() as int } else { posts_limit as int }),
    {
        let mut all = all;
        all.truncate(posts_limit as usize);
        all
    }
}

} // verus!

//! The tables of a program's page on SSU-PATH: the program table, the course tables and
//! the table of classes.

use vstd::prelude::*;
use crate::datetime::Timestamp;
use crate::error::concat;
use crate::html::{
    document_matches, select_in_document, text_of_element, child_rows_of_matches, row_views, child_rows_in_each,
    first_match_heads_and_rows, heads_and_rows_of_first, nested_views, concat_all, concat_strings,
};
use crate::post::{opt_view, SsufidPost};
use std::collections::BTreeMap;
use crate::text::{chars_of, string_of, remove_all, remove_text, views, trim, trim_str, parse_unsigned, parse_unsigned_text, nat_text, count_to_text};
use crate::plugins::ssupath::{
    SsuPathPluginError, elem_text, lookup_last, pair_list_views, parse_error, parse_error_is, find_value,
    first_failure, date_range_of, range_is, parse_date_range, SsuPathPlugin, SsuPathProgram, SsuPathProgramKind,
    program_wf, PATH_ENTRY_URL,
};

verus! {

/// The title of the program table.
pub const PROGRAM_TITLE_SELECTOR: &'static str = "#tilesContent > div.table_top:nth-child(2) > h4";
/// The body of the program table.
pub const PROGRAM_TABLE_SELECTOR: &'static str = "#tilesContent > div.table_top:nth-child(2) + .table_wrap > table > tbody";
/// The body of the course overview table.
pub const COURSE_TABLE_SELECTOR: &'static str = "#tilesContent > div.table_top:nth-child(4) + .table_wrap > table > tbody";
/// The bodies of the week tables that follow the course overview.
pub const WEEK_TABLES_SELECTOR: &'static str = "#tilesContent > div.table_top:nth-child(4) + .table_wrap ~ .table_wrap > table > tbody";
/// The key of the program's main content in the program table.
pub const CONTENT_KEY: &'static str = "프로그램 주요내용";
/// The attribute that marks a week table's first row.
pub const ROW_CLASS: &'static str = "class";
/// The class of a week table's first row.
pub const FIRST_ROW_CLASS: &'static str = "first";

/// The table of a program's page: its title, its main content, and its other rows as
/// key and value, in the page's order (a later row replaces an earlier one with its key).
#[derive(Debug)]
pub struct SsuPathProgramTable {
    pub title: String,
    pub content: String,
    pub info: Vec<(String, String)>,
}

/// The course tables of a program's page: its overview, and each week's name and rows,
/// as key and value in the page's order.
#[derive(Debug)]
pub struct SsuPathCourseTable {
    pub overview: Vec<(String, String)>,
    pub weeks: Vec<(String, Vec<(String, String)>)>,
}

/// A row of a table: its `class`, if it has one, and the HTML of its cells.
pub type TableRow = (Option<Seq<char>>, Seq<Seq<char>>);

/// How many key and value pairs a row of `n` cells gives in an information table: its
/// cells at even places are keys, those from the second on are values, and they are
/// paired in order until either runs out.
pub open spec fn info_pair_count(n: int) -> int {
    if n <= 1 {
        0
    } else if (n + 1) / 2 < n - 1 {
        (n + 1) / 2
    } else {
        n - 1
    }
}

/// The key and value pairs of a row of an information table (see `info_pair_count`):
/// the `k`th key is the text of cell `2k`, its value the text of cell `k + 1` without tabs.
pub open spec fn info_row_pairs(cells: Seq<Seq<char>>) -> Seq<(Seq<char>, Seq<char>)> {
    Seq::new(
        info_pair_count(cells.len() as int) as nat,
        |k: int| (elem_text(cells[2 * k]), remove_all(elem_text(cells[k + 1]), seq!['\t'])),
    )
}

/// The key and value pairs of the rows of an information table, row after row.
pub open spec fn info_pairs(rows: Seq<TableRow>) -> Seq<(Seq<char>, Seq<char>)>
    decreases rows.len(),
{
    if rows.len() == 0 {
        Seq::empty()
    } else {
        info_pairs(rows.drop_last()) + info_row_pairs(rows.last().1)
    }
}

/// The pairs without those whose key is `key`, in order.
pub open spec fn without_key(pairs: Seq<(Seq<char>, Seq<char>)>, key: Seq<char>) -> Seq<(Seq<char>, Seq<char>)>
    decreases pairs.len(),
{
    if pairs.len() == 0 {
        Seq::empty()
    } else if pairs.last().0 == key {
        without_key(pairs.drop_last(), key)
    } else {
        without_key(pairs.drop_last(), key).push(pairs.last())
    }
}

/// The title of the program table of the page `html`, if it has one.
pub open spec fn program_title(html: Seq<char>) -> Option<Seq<char>> {
    let m = document_matches(html, PROGRAM_TITLE_SELECTOR@);
    if m.len() > 0 { Some(elem_text(m[0])) } else { None }
}

/// The rows of the first table of the page `html` that matches `selector`, if any.
pub open spec fn first_table_rows(html: Seq<char>, selector: Seq<char>) -> Option<Seq<TableRow>> {
    let t = child_rows_of_matches(html, selector, ROW_CLASS@);
    if t.len() > 0 { Some(t[0]) } else { None }
}

/// Whether the program table of the page `html` can be read without failing: when it
/// has a title and a table, the table has the program's main content.
pub open spec fn program_table_readable(html: Seq<char>) -> bool {
    (program_title(html) is Some && first_table_rows(html, PROGRAM_TABLE_SELECTOR@) is Some)
        ==> lookup_last(info_pairs(first_table_rows(html, PROGRAM_TABLE_SELECTOR@)->0), CONTENT_KEY@) is Some
}

/// Why the program table of the page `html` is refused: it has no title, or no table.
pub open spec fn program_table_refusal(html: Seq<char>) -> Option<Seq<char>> {
    if program_title(html) is None {
        Some("Cannot parse title of content"@)
    } else if first_table_rows(html, PROGRAM_TABLE_SELECTOR@) is None {
        Some("Cannot find program table of content"@)
    } else {
        None
    }
}

/// `t` is the program table of the page `html`: its title, the value of its main
/// content, and its other pairs in order.
pub open spec fn program_table_is(t: SsuPathProgramTable, html: Seq<char>) -> bool {
    match first_table_rows(html, PROGRAM_TABLE_SELECTOR@) {
        Some(rows) => {
            &&& program_title(html) == Some(t.title@)
            &&& lookup_last(info_pairs(rows), CONTENT_KEY@) == Some(t.content@)
            &&& pair_list_views(t.info@) == without_key(info_pairs(rows), CONTENT_KEY@)
        },
        None => false,
    }
}

/// The pairs of a row of a week table: in the row marked `first`, the cells from the
/// second on taken two at a time; in any other row, the cells taken two at a time from
/// the first; a single cell left over gives nothing.
pub open spec fn week_row_pairs(row: TableRow) -> Seq<(Seq<char>, Seq<char>)> {
    let cells = row.1;
    if row.0 == Some(FIRST_ROW_CLASS@) {
        Seq::new(
            (if cells.len() >= 1 { (cells.len() - 1) / 2 } else { 0 }) as nat,
            |k: int| (elem_text(cells[2 * k + 1]), elem_text(cells[2 * k + 2])),
        )
    } else {
        Seq::new((cells.len() / 2) as nat, |k: int| (elem_text(cells[2 * k]), elem_text(cells[2 * k + 1])))
    }
}

/// The pairs of the rows of a week table, row after row.
pub open spec fn week_pairs(rows: Seq<TableRow>) -> Seq<(Seq<char>, Seq<char>)>
    decreases rows.len(),
{
    if rows.len() == 0 {
        Seq::empty()
    } else {
        week_pairs(rows.drop_last()) + week_row_pairs(rows.last())
    }
}

/// A week table read: its name, the text of the first cell of its first row, and its
/// pairs; or the message it is refused with when it has no row, or its first row no cell.
pub open spec fn week_read(rows: Seq<TableRow>) -> Result<(Seq<char>, Seq<(Seq<char>, Seq<char>)>), Seq<char>> {
    if rows.len() == 0 {
        Err("Cannot find first row"@)
    } else if rows[0].1.len() == 0 {
        Err("Cannot parse week name"@)
    } else {
        Ok((elem_text(rows[0].1[0]), week_pairs(rows)))
    }
}

/// The message the first refused week table of `tables` is refused with, if any.
pub open spec fn weeks_failure(tables: Seq<Seq<TableRow>>) -> Option<Seq<char>>
    decreases tables.len(),
{
    if tables.len() == 0 {
        None
    } else {
        match weeks_failure(tables.drop_last()) {
            Some(m) => Some(m),
            None => match week_read(tables.last()) {
                Err(m) => Some(m),
                Ok(_) => None,
            },
        }
    }
}

/// The views of the weeks read.
pub open spec fn week_views(w: Seq<(String, Vec<(String, String)>)>) -> Seq<(Seq<char>, Seq<(Seq<char>, Seq<char>)>)> {
    w.map_values(|x: (String, Vec<(String, String)>)| (x.0@, pair_list_views(x.1@)))
}

/// Every table of `tables` read as a week (see `week_read`).
pub open spec fn weeks_read(w: Seq<(Seq<char>, Seq<(Seq<char>, Seq<char>)>)>, tables: Seq<Seq<TableRow>>) -> bool {
    &&& w.len() == tables.len()
    &&& forall|i: int| 0 <= i < tables.len() ==> week_read(#[trigger] tables[i]) == Ok::<(Seq<char>, Seq<(Seq<char>, Seq<char>)>), Seq<char>>(w[i])
}

/// The key and value pairs of a row of an information table (see `info_row_pairs`).
fn info_row(cells: &Vec<String>, out: &mut Vec<(String, String)>)
    ensures
        pair_list_views(final(out)@) == pair_list_views(old(out)@) + info_row_pairs(views(cells@)),
{
    let ghost cs = views(cells@);
    let n = cells.len();
    let count: usize = if n <= 1 {
        0
    } else if n - n / 2 < n - 1 {
        n - n / 2
    } else {
        n - 1
    };
    let ghost start = pair_list_views(out@);
    let tab = chars_of("\t");
    proof {
        reveal_strlit("\t");
    }
    let mut k: usize = 0;
    while k < count
        invariant
            count == info_pair_count(n as int),
            n == cells.len(),
            cs == views(cells@),
            tab@ == seq!['\t'],
            k <= count,
            pair_list_views(out@) == start + info_row_pairs(cs).take(k as int),
        decreases count - k,
    {
        let key = text_of_element(cells[2 * k].as_str());
        let key = crate::text::trim_str(key.as_str());
        let value = text_of_element(cells[k + 1].as_str());
        let value = string_of(&remove_text(&chars_of(crate::text::trim_str(value.as_str()).as_str()), &tab));
        let ghost before = out@;
        out.push((key, value));
        proof {
            assert(cs[2 * k as int] == cells@[2 * k as int]@);
            assert(cs[k + 1] == cells@[k + 1]@);
            assert(info_row_pairs(cs).take(k + 1) =~= info_row_pairs(cs).take(k as int).push(info_row_pairs(cs)[k as int]));
            assert(pair_list_views(out@) =~= pair_list_views(before).push((key@, value@)));
        }
        k += 1;
    }
    proof {
        assert(info_row_pairs(cs).take(count as int) =~= info_row_pairs(cs));
    }
}

/// The key and value pairs of the rows of an information table (see `info_pairs`).
fn info_table(rows: &Vec<(Option<String>, Vec<String>)>) -> (out: Vec<(String, String)>)
    ensures
        pair_list_views(out@) == info_pairs(rows@.map_values(|r: (Option<String>, Vec<String>)| (opt_view(r.0), views(r.1@)))),
{
    let ghost rs = rows@.map_values(|r: (Option<String>, Vec<String>)| (opt_view(r.0), views(r.1@)));
    let mut out: Vec<(String, String)> = Vec::new();
    let mut i: usize = 0;
    while i < rows.len()
        invariant
            i <= rows.len(),
            rs == rows@.map_values(|r: (Option<String>, Vec<String>)| (opt_view(r.0), views(r.1@))),
            pair_list_views(out@) == info_pairs(rs.take(i as int)),
        decreases rows.len() - i,
    {
        info_row(&rows[i].1, &mut out);
        proof {
            assert(rs.take(i + 1).drop_last() =~= rs.take(i as int));
            assert(rs.take(i + 1).last() == rs[i as int]);
        }
        i += 1;
    }
    proof {
        assert(rs.take(rows.len() as int) =~= rs);
    }
    out
}

/// The pairs without those whose key is `key` (see `without_key`).
fn drop_key(pairs: Vec<(String, String)>, key: &str) -> (out: Vec<(String, String)>)
    ensures
        pair_list_views(out@) == without_key(pair_list_views(pairs@), key@),
{
    let ghost ps = pair_list_views(pairs@);
    let wanted = String::from_str(key);
    let mut out: Vec<(String, String)> = Vec::new();
    let mut i: usize = 0;
    while i < pairs.len()
        invariant
            i <= pairs.len(),
            wanted@ == key@,
            ps == pair_list_views(pairs@),
            pair_list_views(out@) == without_key(ps.take(i as int), key@),
        decreases pairs.len() - i,
    {
        proof {
            assert(ps.take(i + 1).drop_last() =~= ps.take(i as int));
            assert(ps.take(i + 1).last() == (pairs@[i as int].0@, pairs@[i as int].1@));
        }
        if pairs[i].0 != wanted {
            let ghost before = out@;
            out.push((pairs[i].0.clone(), pairs[i].1.clone()));
            proof {
                assert(pair_list_views(out@) =~= pair_list_views(before).push((pairs@[i as int].0@, pairs@[i as int].1@)));
            }
        }
        i += 1;
    }
    proof {
        assert(ps.take(pairs.len() as int) =~= ps);
    }
    out
}

impl SsuPathProgramTable {
    /// Whether the program table of a page can be read without failing (see
    /// `program_table_readable`).
    pub fn readable(html: &str) -> (b: bool)
        ensures
            b == program_table_readable(html@),
    {
        let titles = select_in_document(html, PROGRAM_TITLE_SELECTOR);
        let tables = child_rows_in_each(html, PROGRAM_TABLE_SELECTOR, ROW_CLASS);
        if titles.len() == 0 || tables.len() == 0 {
            return true;
        }
        proof {
            assert(row_views(tables@)[0] == tables@[0]@.map_values(|r: (Option<String>, Vec<String>)| (opt_view(r.0), views(r.1@))));
        }
        let info = info_table(&tables[0]);
        find_value(&info, CONTENT_KEY).is_some()
    }

    /// Reads the program table of a page: its title, its main content, and its other
    /// rows.
    pub fn from_document(html: &str) -> (r: Result<SsuPathProgramTable, SsuPathPluginError>)
        requires
            program_table_readable(html@),
        ensures
            match r {
                Ok(t) => program_table_refusal(html@) is None && program_table_is(t, html@),
                Err(e) => program_table_refusal(html@) matches Some(m) && parse_error_is(e, m),
            },
    {
        let titles = select_in_document(html, PROGRAM_TITLE_SELECTOR);
        if titles.len() == 0 {
            return Err(parse_error(String::from_str("Cannot parse title of content")));
        }
        proof {
            assert(views(titles@)[0] == titles@[0]@);
        }
        let title = crate::text::trim_str(text_of_element(titles[0].as_str()).as_str());
        let tables = child_rows_in_each(html, PROGRAM_TABLE_SELECTOR, ROW_CLASS);
        if tables.len() == 0 {
            return Err(parse_error(String::from_str("Cannot find program table of content")));
        }
        proof {
            assert(row_views(tables@)[0] == tables@[0]@.map_values(|r: (Option<String>, Vec<String>)| (opt_view(r.0), views(r.1@))));
        }
        let info = info_table(&tables[0]);
        let content = match find_value(&info, CONTENT_KEY) {
            Some(c) => c,
            None => {
                proof {
                    assert(false);
                }
                String::new()
            },
        };
        let info = drop_key(info, CONTENT_KEY);
        Ok(SsuPathProgramTable { title, content, info })
    }

    /// Reads the program table of a page when it can be read without failing (see
    /// `from_document`); `None` otherwise.
    pub fn try_from_document(html: &str) -> (r: Option<Result<SsuPathProgramTable, SsuPathPluginError>>)
        ensures
            match r {
                Some(res) => program_table_readable(html@) && match res {
                    Ok(t) => program_table_refusal(html@) is None && program_table_is(t, html@),
                    Err(e) => program_table_refusal(html@) matches Some(m) && parse_error_is(e, m),
                },
                None => !program_table_readable(html@),
            },
    {
        if Self::readable(html) { Some(Self::from_document(html)) } else { None }
    }
}


/// Why the course tables of the page `html` are refused: it has no overview table, or a
/// week table is refused.
pub open spec fn course_table_refusal(html: Seq<char>) -> Option<Seq<char>> {
    if first_table_rows(html, COURSE_TABLE_SELECTOR@) is None {
        Some("Cannot find course table of content"@)
    } else {
        weeks_failure(child_rows_of_matches(html, WEEK_TABLES_SELECTOR@, ROW_CLASS@))
    }
}

/// `t` is the course tables of the page `html`: the pairs of its overview, and each of
/// its week tables read in order.
pub open spec fn course_table_is(t: SsuPathCourseTable, html: Seq<char>) -> bool {
    match first_table_rows(html, COURSE_TABLE_SELECTOR@) {
        Some(rows) => {
            &&& pair_list_views(t.overview@) == info_pairs(rows)
            &&& weeks_read(week_views(t.weeks@), child_rows_of_matches(html, WEEK_TABLES_SELECTOR@, ROW_CLASS@))
        },
        None => false,
    }
}

/// The view of a row of a table.
pub open spec fn row_view(r: (Option<String>, Vec<String>)) -> TableRow {
    (opt_view(r.0), views(r.1@))
}

/// The view of the rows of a table.
pub open spec fn table_view(rows: Seq<(Option<String>, Vec<String>)>) -> Seq<TableRow> {
    rows.map_values(|x: (Option<String>, Vec<String>)| row_view(x))
}

/// The trimmed text of a cell given by its HTML (see `elem_text`).
fn cell_text(html: &str) -> (out: String)
    ensures
        out@ == elem_text(html@),
{
    crate::text::trim_str(text_of_element(html).as_str())
}

/// The pairs of a row of a week table (see `week_row_pairs`), after those of `out`.
fn week_row(row: &(Option<String>, Vec<String>), out: &mut Vec<(String, String)>)
    ensures
        pair_list_views(final(out)@) == pair_list_views(old(out)@) + week_row_pairs(row_view(*row)),
{
    let ghost r = row_view(*row);
    let ghost cs = views(row.1@);
    let ghost ps = week_row_pairs(r);
    let cells = &row.1;
    let n = cells.len();
    let first = match &row.0 {
        Some(c) => *c == String::from_str(FIRST_ROW_CLASS),
        None => false,
    };
    let count: usize = if first { if n >= 1 { (n - 1) / 2 } else { 0 } } else { n / 2 };
    let offset: usize = if first { 1 } else { 0 };
    proof {
        assert(first == (r.0 == Some(FIRST_ROW_CLASS@)));
        assert(ps.len() == count);
        assert forall|k: int| 0 <= k < count implies #[trigger] ps[k] == (elem_text(cs[2 * k + offset]), elem_text(cs[2 * k + offset + 1])) by {}
    }
    let ghost start = pair_list_views(out@);
    let mut k: usize = 0;
    while k < count
        invariant
            k <= count,
            n == cells.len(),
            cs == views(cells@),
            ps.len() == count,
            count == 0 || count * 2 + offset <= n,
            forall|j: int| 0 <= j < count ==> #[trigger] ps[j] == (elem_text(cs[2 * j + offset]), elem_text(cs[2 * j + offset + 1])),
            pair_list_views(out@) == start + ps.take(k as int),
        decreases count - k,
    {
        let key = cell_text(cells[2 * k + offset].as_str());
        let value = cell_text(cells[2 * k + offset + 1].as_str());
        let ghost before = out@;
        out.push((key, value));
        proof {
            assert(cs[2 * k + offset] == cells@[2 * k + offset]@);
            assert(cs[2 * k + offset + 1] == cells@[2 * k + offset + 1]@);
            assert(ps[k as int] == (key@, value@));
            assert(ps.take(k + 1) =~= ps.take(k as int).push(ps[k as int]));
            assert(pair_list_views(out@) =~= pair_list_views(before).push((key@, value@)));
        }
        k += 1;
    }
    proof {
        assert(ps.take(count as int) =~= ps);
    }
}

/// Reads a week table (see `week_read`).
fn parse_week_table(rows: &Vec<(Option<String>, Vec<String>)>) -> (r: Result<(String, Vec<(String, String)>), SsuPathPluginError>)
    ensures
        match r {
            Ok(w) => week_read(table_view(rows@))
                == Ok::<(Seq<char>, Seq<(Seq<char>, Seq<char>)>), Seq<char>>((w.0@, pair_list_views(w.1@))),
            Err(e) => week_read(table_view(rows@)) matches Err(m)
                && parse_error_is(e, m),
        },
{
    let ghost rs = table_view(rows@);
    if rows.len() == 0 {
        return Err(parse_error(String::from_str("Cannot find first row")));
    }
    if rows[0].1.len() == 0 {
        return Err(parse_error(String::from_str("Cannot parse week name")));
    }
    proof {
        assert(rs[0].1[0] == rows@[0].1@[0]@);
    }
    let name = cell_text(rows[0].1[0].as_str());
    let mut out: Vec<(String, String)> = Vec::new();
    let mut i: usize = 0;
    while i < rows.len()
        invariant
            i <= rows.len(),
            rs == table_view(rows@),
            pair_list_views(out@) == week_pairs(rs.take(i as int)),
        decreases rows.len() - i,
    {
        week_row(&rows[i], &mut out);
        proof {
            assert(rs.take(i + 1).drop_last() =~= rs.take(i as int));
            assert(rs.take(i + 1).last() == rs[i as int]);
        }
        i += 1;
    }
    proof {
        assert(rs.take(rows.len() as int) =~= rs);
    }
    Ok((name, out))
}

impl SsuPathCourseTable {
    /// Reads the course tables of a page: the overview, then each week table in order.
    pub fn from_document(html: &str) -> (r: Result<SsuPathCourseTable, SsuPathPluginError>)
        ensures
            match r {
                Ok(t) => course_table_refusal(html@) is None && course_table_is(t, html@),
                Err(e) => course_table_refusal(html@) matches Some(m) && parse_error_is(e, m),
            },
    {
        let overviews = child_rows_in_each(html, COURSE_TABLE_SELECTOR, ROW_CLASS);
        if overviews.len() == 0 {
            return Err(parse_error(String::from_str("Cannot find course table of content")));
        }
        proof {
            assert(row_views(overviews@)[0] == overviews@[0]@.map_values(|r: (Option<String>, Vec<String>)| (opt_view(r.0), views(r.1@))));
        }
        let overview = info_table(&overviews[0]);
        let tables = child_rows_in_each(html, WEEK_TABLES_SELECTOR, ROW_CLASS);
        let ghost ts = row_views(tables@);
        let mut weeks: Vec<(String, Vec<(String, String)>)> = Vec::new();
        let mut i: usize = 0;
        while i < tables.len()
            invariant
                i <= tables.len(),
                ts == row_views(tables@),
                ts == child_rows_of_matches(html@, WEEK_TABLES_SELECTOR@, ROW_CLASS@),
                first_table_rows(html@, COURSE_TABLE_SELECTOR@) is Some,
                weeks_failure(ts.take(i as int)) is None,
                weeks_read(week_views(weeks@), ts.take(i as int)),
            decreases tables.len() - i,
        {
            proof {
                assert(ts[i as int] =~= table_view(tables@[i as int]@));
                assert(ts.take(i + 1).drop_last() =~= ts.take(i as int));
                assert(ts.take(i + 1).last() == ts[i as int]);
            }
            match parse_week_table(&tables[i]) {
                Ok(w) => {
                    let ghost before = weeks@;
                    weeks.push(w);
                    proof {
                        assert(week_views(weeks@) =~= week_views(before).push((w.0@, pair_list_views(w.1@))));
                        assert forall|j: int| 0 <= j < i + 1 implies week_read(#[trigger] ts.take(i + 1)[j])
                            == Ok::<(Seq<char>, Seq<(Seq<char>, Seq<char>)>), Seq<char>>(week_views(weeks@)[j]) by {
                            if j < i {
                                assert(ts.take(i + 1)[j] == ts.take(i as int)[j]);
                            }
                        }
                    }
                },
                Err(e) => {
                    proof {
                        assert(ts[i as int] =~= table_view(tables@[i as int]@));
                        assert(week_read(ts[i as int]) is Err);
                        assert(weeks_failure(ts.take(i + 1)) == Some(week_read(ts[i as int])->Err_0));
                        lemma_weeks_failure_prefix(ts, i as int + 1);
                    }
                    return Err(e);
                },
            }
            i += 1;
        }
        proof {
            assert(ts.take(tables.len() as int) =~= ts);
        }
        Ok(SsuPathCourseTable { overview, weeks })
    }
}

/// Once a prefix of the week tables is refused, the whole is refused with the same message.
proof fn lemma_weeks_failure_prefix(ts: Seq<Seq<TableRow>>, k: int)
    requires
        0 <= k <= ts.len(),
        weeks_failure(ts.take(k)) is Some,
    ensures
        weeks_failure(ts) == weeks_failure(ts.take(k)),
    decreases ts.len() - k,
{
    if k < ts.len() {
        assert(ts.take(k + 1).drop_last() =~= ts.take(k));
        lemma_weeks_failure_prefix(ts, k + 1);
    } else {
        assert(ts.take(k) =~= ts);
    }
}


/// The table of classes of a program's page.
pub const DIVISION_TABLE_SELECTOR: &'static str = "form[name='viewForm'] .table_wrap table";
/// The heads of the table of classes.
pub const DIVISION_TABLE_HEADER_SELECTOR: &'static str = "thead > tr > th";
/// The rows of the table of classes.
pub const DIVISION_TABLE_ROWS_SELECTOR: &'static str = "tbody > tr";
/// The head of a class's number.
pub const ORDER_KEY: &'static str = "번호";
/// The head of a class's name.
pub const NAME_KEY: &'static str = "분반명";
/// The head of a class's period of application.
pub const APPLY_KEY: &'static str = "신청기간";
/// The head of a class's period of operation.
pub const OPERATE_KEY: &'static str = "운영기간";
/// The head of a class's number of places.
pub const TOTAL_KEY: &'static str = "모집정원";
/// The head of a class's number of waiting places.
pub const AWAITER_KEY: &'static str = "대기정원";
/// The head of a class's number of applicants.
pub const APPLIER_KEY: &'static str = "신청인원";
/// The head of a class's number of waiting applicants.
pub const AWAIT_APPLIER_KEY: &'static str = "대기신청인원";
/// How a refused row's message begins when a value is missing or unreadable.
pub const ROW_VALUE_PREFIX: &'static str = "Cannot deserialize value to SsuPathDivisionTableRow: ";

/// The table of classes of a program's page: its heads, and its rows read.
#[derive(Debug)]
pub struct SsuPathDivisionTable {
    pub headers: Vec<String>,
    pub rows: Vec<SsuPathDivisionTableRow>,
}

/// A row of the table of classes.
#[derive(Debug)]
pub struct SsuPathDivisionTableRow {
    pub order: u32,
    pub name: String,
    pub apply_duration: (Timestamp, Timestamp),
    pub operate_duration: (Timestamp, Timestamp),
    pub total: u32,
    pub awaiter: u32,
    pub applier: u32,
    pub await_applier: u32,
}

/// The heads paired with the columns, in order.
pub open spec fn column_pairs(headers: Seq<Seq<char>>, columns: Seq<Seq<char>>) -> Seq<(Seq<char>, Seq<char>)> {
    Seq::new(headers.len(), |i: int| (headers[i], columns[i]))
}

/// A number of the table of classes: its text trimmed, read as a `u32`.
pub open spec fn table_number(s: Seq<char>) -> Option<int> {
    parse_unsigned(trim(s), u32::MAX as int)
}

/// The message of a row that lacks the value under `key`.
pub open spec fn missing_field(key: Seq<char>) -> Seq<char> {
    ROW_VALUE_PREFIX@ + "missing field `"@ + key + "`"@
}

/// Why the number under `key` is refused: it is missing, or no `u32`.
pub open spec fn number_failure(pairs: Seq<(Seq<char>, Seq<char>)>, key: Seq<char>) -> Option<Seq<char>> {
    match lookup_last(pairs, key) {
        None => Some(missing_field(key)),
        Some(v) => if table_number(v) is Some { None } else { Some(ROW_VALUE_PREFIX@ + "invalid number at `"@ + key + "`"@) },
    }
}

/// Why the text under `key` is refused: it is missing.
pub open spec fn text_failure(pairs: Seq<(Seq<char>, Seq<char>)>, key: Seq<char>) -> Option<Seq<char>> {
    if lookup_last(pairs, key) is None { Some(missing_field(key)) } else { None }
}

/// Why the period under `key` is refused: it is missing, or no range (see `date_range_of`).
pub open spec fn period_failure(pairs: Seq<(Seq<char>, Seq<char>)>, key: Seq<char>) -> Option<Seq<char>> {
    match lookup_last(pairs, key) {
        None => Some(missing_field(key)),
        Some(v) => match date_range_of(v) {
            Ok(_) => None,
            Err(m) => Some(ROW_VALUE_PREFIX@ + "Cannot parse date range: "@ + m),
        },
    }
}

/// Why a row with the cell texts `columns` under the heads `headers` is refused: its
/// number of cells is not that of the heads, or a value is missing or unreadable, in the
/// order of the row's fields.
pub open spec fn row_failure(headers: Seq<Seq<char>>, columns: Seq<Seq<char>>) -> Option<Seq<char>> {
    if columns.len() != headers.len() {
        Some("Cannot parse division table row, incorrect number of columns: expected "@ + nat_text(headers.len())
            + ", got "@ + nat_text(columns.len()))
    } else {
        let p = column_pairs(headers, columns);
        first_failure(number_failure(p, ORDER_KEY@),
        first_failure(text_failure(p, NAME_KEY@),
        first_failure(period_failure(p, APPLY_KEY@),
        first_failure(period_failure(p, OPERATE_KEY@),
        first_failure(number_failure(p, TOTAL_KEY@),
        first_failure(number_failure(p, AWAITER_KEY@),
        first_failure(number_failure(p, APPLIER_KEY@), number_failure(p, AWAIT_APPLIER_KEY@))))))))
    }
}

/// `v` is the row with the cell texts `columns` under the heads `headers`: each field is
/// the value under its head, read.
pub open spec fn row_is(v: SsuPathDivisionTableRow, headers: Seq<Seq<char>>, columns: Seq<Seq<char>>) -> bool {
    let p = column_pairs(headers, columns);
    &&& table_number(lookup_last(p, ORDER_KEY@)->0) == Some(v.order as int)
    &&& lookup_last(p, NAME_KEY@) == Some(v.name@)
    &&& range_is(v.apply_duration, date_range_of(lookup_last(p, APPLY_KEY@)->0)->Ok_0)
    &&& range_is(v.operate_duration, date_range_of(lookup_last(p, OPERATE_KEY@)->0)->Ok_0)
    &&& table_number(lookup_last(p, TOTAL_KEY@)->0) == Some(v.total as int)
    &&& table_number(lookup_last(p, AWAITER_KEY@)->0) == Some(v.awaiter as int)
    &&& table_number(lookup_last(p, APPLIER_KEY@)->0) == Some(v.applier as int)
    &&& table_number(lookup_last(p, AWAIT_APPLIER_KEY@)->0) == Some(v.await_applier as int)
}

/// The trimmed texts of cells given by their HTML.
pub open spec fn cell_texts(cells: Seq<Seq<char>>) -> Seq<Seq<char>> {
    cells.map_values(|c: Seq<char>| elem_text(c))
}

/// The texts of the cells, in order.
fn cell_texts_of(cells: &Vec<String>) -> (out: Vec<String>)
    ensures
        views(out@) == cell_texts(views(cells@)),
{
    let mut out: Vec<String> = Vec::new();
    let mut i: usize = 0;
    while i < cells.len()
        invariant
            i <= cells.len(),
            views(out@) == cell_texts(views(cells@)).take(i as int),
        decreases cells.len() - i,
    {
        let t = cell_text(cells[i].as_str());
        let ghost before = out@;
        out.push(t);
        proof {
            assert(views(out@) =~= views(before).push(t@));
            assert(cell_texts(views(cells@)).take(i + 1) =~= cell_texts(views(cells@)).take(i as int).push(t@));
        }
        i += 1;
    }
    proof {
        assert(cell_texts(views(cells@)).take(cells.len() as int) =~= cell_texts(views(cells@)));
    }
    out
}

/// Reads a number of the table of classes (see `table_number`).
fn read_number(pairs: &Vec<(String, String)>, key: &str) -> (r: Result<u32, SsuPathPluginError>)
    ensures
        match r {
            Ok(n) => number_failure(pair_list_views(pairs@), key@) is None
                && table_number(lookup_last(pair_list_views(pairs@), key@)->0) == Some(n as int),
            Err(e) => number_failure(pair_list_views(pairs@), key@) matches Some(m) && parse_error_is(e, m),
        },
{
    match find_value(pairs, key) {
        None => {
            let mut m = concat(ROW_VALUE_PREFIX, "missing field `");
            m.append(key);
            m.append("`");
            Err(parse_error(m))
        },
        Some(v) => match parse_unsigned_text(&chars_of(trim_str(v.as_str()).as_str()), 4294967295u64) {
            Some(n) => Ok(n as u32),
            None => {
                let mut m = concat(ROW_VALUE_PREFIX, "invalid number at `");
                m.append(key);
                m.append("`");
                Err(parse_error(m))
            },
        },
    }
}

/// Reads a period of the table of classes (see `date_range_of`).
fn read_period(pairs: &Vec<(String, String)>, key: &str) -> (r: Result<(Timestamp, Timestamp), SsuPathPluginError>)
    ensures
        match r {
            Ok(v) => period_failure(pair_list_views(pairs@), key@) is None
                && range_is(v, date_range_of(lookup_last(pair_list_views(pairs@), key@)->0)->Ok_0),
            Err(e) => period_failure(pair_list_views(pairs@), key@) matches Some(m) && parse_error_is(e, m),
        },
{
    match find_value(pairs, key) {
        None => {
            let mut m = concat(ROW_VALUE_PREFIX, "missing field `");
            m.append(key);
            m.append("`");
            Err(parse_error(m))
        },
        Some(v) => match parse_date_range(v.as_str()) {
            Ok(p) => Ok(p),
            Err(e) => {
                let inner = match e.0 {
                    crate::error::PluginError::Parse { plugin: _, message } => message,
                    _ => {
                        proof {
                            assert(false);
                        }
                        String::new()
                    },
                };
                let mut m = concat(ROW_VALUE_PREFIX, "Cannot parse date range: ");
                m.append(inner.as_str());
                Err(parse_error(m))
            },
        },
    }
}

impl SsuPathDivisionTableRow {
    /// Reads a row of the table of classes from its cells' HTML, under the heads
    /// `headers` (see `row_failure` and `row_is`).
    pub fn from_elem(headers: Vec<String>, cells: Vec<String>) -> (r: Result<SsuPathDivisionTableRow, SsuPathPluginError>)
        ensures
            match r {
                Ok(v) => row_failure(views(headers@), cell_texts(views(cells@))) is None
                    && row_is(v, views(headers@), cell_texts(views(cells@))),
                Err(e) => row_failure(views(headers@), cell_texts(views(cells@))) matches Some(m) && parse_error_is(e, m),
            },
    {
        let columns = cell_texts_of(&cells);
        let ghost hs = views(headers@);
        let ghost cs = views(columns@);
        if columns.len() != headers.len() {
            let mut m = String::from_str("Cannot parse division table row, incorrect number of columns: expected ");
            m.append(count_to_text(headers.len()).as_str());
            m.append(", got ");
            m.append(count_to_text(columns.len()).as_str());
            return Err(parse_error(m));
        }
        let mut pairs: Vec<(String, String)> = Vec::new();
        let mut i: usize = 0;
        while i < headers.len()
            invariant
                i <= headers.len(),
                headers.len() == columns.len(),
                hs == views(headers@),
                cs == views(columns@),
                pair_list_views(pairs@) == column_pairs(hs, cs).take(i as int),
            decreases headers.len() - i,
        {
            let ghost before = pairs@;
            pairs.push((headers[i].clone(), columns[i].clone()));
            proof {
                assert(pair_list_views(pairs@) =~= pair_list_views(before).push((hs[i as int], cs[i as int])));
                assert(column_pairs(hs, cs).take(i + 1) =~= column_pairs(hs, cs).take(i as int).push((hs[i as int], cs[i as int])));
            }
            i += 1;
        }
        proof {
            assert(column_pairs(hs, cs).take(headers.len() as int) =~= column_pairs(hs, cs));
        }
        let order = match read_number(&pairs, ORDER_KEY) { Ok(n) => n, Err(e) => return Err(e) };
        let name = match find_value(&pairs, NAME_KEY) {
            Some(v) => v,
            None => {
                let mut m = concat(ROW_VALUE_PREFIX, "missing field `");
                m.append(NAME_KEY);
                m.append("`");
                return Err(parse_error(m));
            },
        };
        let apply_duration = match read_period(&pairs, APPLY_KEY) { Ok(p) => p, Err(e) => return Err(e) };
        let operate_duration = match read_period(&pairs, OPERATE_KEY) { Ok(p) => p, Err(e) => return Err(e) };
        let total = match read_number(&pairs, TOTAL_KEY) { Ok(n) => n, Err(e) => return Err(e) };
        let awaiter = match read_number(&pairs, AWAITER_KEY) { Ok(n) => n, Err(e) => return Err(e) };
        let applier = match read_number(&pairs, APPLIER_KEY) { Ok(n) => n, Err(e) => return Err(e) };
        let await_applier = match read_number(&pairs, AWAIT_APPLIER_KEY) { Ok(n) => n, Err(e) => return Err(e) };
        Ok(SsuPathDivisionTableRow {
            order,
            name,
            apply_duration,
            operate_duration,
            total,
            awaiter,
            applier,
            await_applier,
        })
    }
}


/// The heads and the rows' cells of the table of classes of the page `html`, if it has one.
pub open spec fn division_parts(html: Seq<char>) -> Option<(Seq<Seq<char>>, Seq<Seq<Seq<char>>>)> {
    first_match_heads_and_rows(html, DIVISION_TABLE_SELECTOR@, DIVISION_TABLE_HEADER_SELECTOR@, DIVISION_TABLE_ROWS_SELECTOR@)
}

/// The message the first refused row of `rows` is refused with, under the heads `headers`.
pub open spec fn rows_failure(headers: Seq<Seq<char>>, rows: Seq<Seq<Seq<char>>>) -> Option<Seq<char>>
    decreases rows.len(),
{
    if rows.len() == 0 {
        None
    } else {
        first_failure(rows_failure(headers, rows.drop_last()), row_failure(headers, cell_texts(rows.last())))
    }
}

/// Why the table of classes of the page `html` is refused: there is none, or a row is
/// refused.
pub open spec fn division_table_refusal(html: Seq<char>) -> Option<Seq<char>> {
    match division_parts(html) {
        None => Some("Cannot find division table of content"@),
        Some(p) => rows_failure(cell_texts(p.0), p.1),
    }
}

/// `t` is the table of classes of the page `html`: the texts of its heads, and each of its
/// rows read under them, in order.
pub open spec fn division_table_is(t: SsuPathDivisionTable, html: Seq<char>) -> bool {
    match division_parts(html) {
        Some(p) => {
            &&& views(t.headers@) == cell_texts(p.0)
            &&& t.rows@.len() == p.1.len()
            &&& forall|i: int| 0 <= i < p.1.len() ==> row_is(#[trigger] t.rows@[i], cell_texts(p.0), cell_texts(p.1[i]))
        },
        None => false,
    }
}

/// Once some rows are refused, any longer list of rows is refused with the same message.
proof fn lemma_rows_failure_prefix(headers: Seq<Seq<char>>, rows: Seq<Seq<Seq<char>>>, k: int)
    requires
        0 <= k <= rows.len(),
        rows_failure(headers, rows.take(k)) is Some,
    ensures
        rows_failure(headers, rows) == rows_failure(headers, rows.take(k)),
    decreases rows.len() - k,
{
    if k < rows.len() {
        assert(rows.take(k + 1).drop_last() =~= rows.take(k));
        lemma_rows_failure_prefix(headers, rows, k + 1);
    } else {
        assert(rows.take(k) =~= rows);
    }
}

impl SsuPathDivisionTable {
    /// Reads the table of classes of a page: its heads, then each row in order.
    pub fn from_document(html: &str) -> (r: Result<SsuPathDivisionTable, SsuPathPluginError>)
        ensures
            match r {
                Ok(t) => division_table_refusal(html@) is None && division_table_is(t, html@),
                Err(e) => division_table_refusal(html@) matches Some(m) && parse_error_is(e, m),
            },
    {
        let (heads, rows) = match heads_and_rows_of_first(
            html,
            DIVISION_TABLE_SELECTOR,
            DIVISION_TABLE_HEADER_SELECTOR,
            DIVISION_TABLE_ROWS_SELECTOR,
        ) {
            Some(p) => p,
            None => return Err(parse_error(String::from_str("Cannot find division table of content"))),
        };
        let headers = cell_texts_of(&heads);
        let ghost hs = views(headers@);
        let ghost rs = nested_views(rows@);
        let mut out: Vec<SsuPathDivisionTableRow> = Vec::new();
        let mut i: usize = 0;
        while i < rows.len()
            invariant
                i <= rows.len(),
                hs == views(headers@),
                rs == nested_views(rows@),
                division_parts(html@) == Some((views(heads@), rs)),
                hs == cell_texts(views(heads@)),
                rows_failure(hs, rs.take(i as int)) is None,
                out@.len() == i,
                forall|j: int| 0 <= j < i ==> row_is(#[trigger] out@[j], hs, cell_texts(rs[j])),
            decreases rows.len() - i,
        {
            proof {
                assert(rs[i as int] == views(rows@[i as int]@));
                assert(rs.take(i + 1).drop_last() =~= rs.take(i as int));
                assert(rs.take(i + 1).last() == rs[i as int]);
            }
            match SsuPathDivisionTableRow::from_elem(headers.clone(), rows[i].clone()) {
                Ok(v) => {
                    out.push(v);
                },
                Err(e) => {
                    proof {
                        lemma_rows_failure_prefix(hs, rs, i + 1);
                    }
                    return Err(e);
                },
            }
            i += 1;
        }
        proof {
            assert(rs.take(rows.len() as int) =~= rs);
        }
        Ok(SsuPathDivisionTable { headers, rows: out })
    }
}


/// The front matter of a program's post, from the YAML texts of its tables: the program
/// table's facts and a line break, then the texts of the course tables (the overview, then
/// each week), then the text of the classes, if any.
pub open spec fn frontmatter_of(info: Seq<char>, course: Seq<Seq<char>>, division: Option<Seq<char>>) -> Seq<char> {
    info + "\n"@ + concat_all(course) + match division {
        Some(d) => d,
        None => Seq::empty(),
    }
}

/// The content of a program's post: `---`, a line break, the front matter, a line break,
/// `---`, a line break, then the program's main content.
pub open spec fn framed_content(frontmatter: Seq<char>, content: Seq<char>) -> Seq<char> {
    "---\n"@ + frontmatter + "\n---\n"@ + content
}

/// The content of a program's post from the YAML texts of its tables and its main content
/// (see `frontmatter_of` and `framed_content`).
pub fn construct_content(info_yaml: &str, course_yamls: &Vec<String>, division_yaml: &Option<String>, content: &str) -> (out: String)
    ensures
        out@ == framed_content(frontmatter_of(info_yaml@, views(course_yamls@), opt_view(*division_yaml)), content@),
{
    let mut out = String::from_str("---\n");
    out.append(info_yaml);
    out.append("\n");
    out.append(concat_strings(course_yamls).as_str());
    match division_yaml {
        Some(d) => out.append(d.as_str()),
        None => {},
    }
    out.append("\n---\n");
    out.append(content);
    proof {
        reveal_strlit("---\n");
        reveal_strlit("\n");
        reveal_strlit("\n---\n");
        assert(out@ =~= framed_content(frontmatter_of(info_yaml@, views(course_yamls@), opt_view(*division_yaml)), content@));
    }
    out
}

/// The instant a program's post is dated: the start of its application period, or of its
/// first class's.
pub open spec fn program_date(p: SsuPathProgram) -> Timestamp {
    match p.kind {
        SsuPathProgramKind::Single { apply_duration, .. } => apply_duration.0,
        SsuPathProgramKind::Division(ds) => ds@[0].apply_duration.0,
    }
}

impl SsuPathPlugin {
    /// The post of a program, from its entry, the title of its program table, its content
    /// and its facts: dated by `program_date`, at the program's address, with the entry's
    /// description and thumbnail, its label as category, and its first major as author.
    pub fn program_post(
        program: &SsuPathProgram,
        title: String,
        content: String,
        metadata: Option<BTreeMap<String, String>>,
    ) -> (p: SsufidPost)
        requires
            program_wf(*program),
        ensures
            p.id@ == program.id@,
            p.url@ == PATH_ENTRY_URL@ + program.id@,
            p.title == title,
            p.description matches Some(d) && d@ == program.description@,
            p.category@.len() == 1 && p.category@[0]@ == program.label@,
            p.created_at == program_date(*program),
            p.updated_at is None,
            p.content == content,
            p.author == (if program.major_types@.len() > 0 { Some(p.author->0) } else { None::<String> }),
            program.major_types@.len() > 0 ==> p.author->0@ == program.major_types@[0]@,
            p.thumbnail matches Some(t) && t@ == program.thumbnail@,
            p.attachments@.len() == 0,
            p.metadata == metadata,
    {
        let author = if program.major_types.len() > 0 { Some(program.major_types[0].clone()) } else { None };
        let mut category: Vec<String> = Vec::new();
        category.push(program.label.clone());
        SsufidPost {
            id: program.id.clone(),
            url: Self::entry_url(program.id.as_str()),
            author,
            title,
            description: Some(program.description.clone()),
            category,
            created_at: program.create_at(),
            updated_at: None,
            thumbnail: Some(program.thumbnail.clone()),
            content,
            attachments: Vec::new(),
            metadata,
        }
    }
}


} // verus!

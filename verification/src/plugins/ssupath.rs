//! The extracurricular program system SSU-PATH: reading its program entries.

use vstd::prelude::*;
use crate::datetime::{Timestamp, parsed_date_time, kst_instant, KST_OFFSET_SECONDS, kst_date_time_from_text, date_time_parse_error, date_time_error_texts};
use crate::error::{PluginError, concat};
use crate::html::{
    fragment_matches, fragment_first_attr, text_concat, select_in_fragment, first_attr_in_fragment, text_of_element,
    first_element_child_texts, nested_views, child_texts_of_first, json_str_field, json_string_at, concat_all,
    concat_strings,
};
use crate::post::opt_view;
use crate::text::{
    trim, trim_str, chars_of, string_of, trimmed_copy, split_char, split_at_char, remove_all, remove_text,
    parse_unsigned, parse_unsigned_text, views,
};

verus! {

/// The plugin's identifier.
pub const IDENTIFIER: &'static str = "path.ssu.ac.kr";
/// The site's title.
pub const TITLE: &'static str = "숭실대학교 SSU-PATH";
/// The site's description.
pub const DESCRIPTION: &'static str = "숭실대학교 비교과 시스템 SSU-PATH의 비교과 프로그램 정보를 제공합니다.";
/// The address of the program list.
pub const BASE_URL: &'static str = "https://path.ssu.ac.kr/ptfol/imng/icmpNsbjtPgm/findIcmpNsbjtPgmList.do";
/// How many programs a list page shows.
pub const ENTRIES_PER_PAGE: usize = 10;
/// The format of a date and time.
pub const DATE_FORMAT: &'static str = "[year].[month].[day] [hour]:[minute]";
/// The format of an older date and time.
pub const DATE_FORMAT_ALT: &'static str = "[year]-[month]-[day] [hour]:[minute]:[second]";
/// An entry's title, which carries its parameters.
pub const TITLE_SELECTOR: &'static str = ".tit[data-params]";
/// An entry's thumbnail.
pub const THUMBNAIL_SELECTOR: &'static str = ".img_wrap img";
/// An entry's description.
pub const DESC_SELECTOR: &'static str = "p.desc";
/// An entry's label.
pub const LABEL_SELECTOR: &'static str = ".label_box";
/// An entry's majors.
pub const MAJOR_TYPE_SELECTOR: &'static str = ".major_type > li";
/// An entry's facts.
pub const INFOS_SELECTOR: &'static str = ".info_wrap dl";
/// An entry's further facts.
pub const DESC_INFOS_SELECTOR: &'static str = ".etc_cont dl";
/// An entry's competencies.
pub const COMPETENCIES_SELECTOR: &'static str = "li.cabil dd > span";
/// An entry's classes.
pub const CLASSES_SELECTOR: &'static str = ".class_list > .class_cont";
/// A class's title.
pub const CLASSES_TITLE_SELECTOR: &'static str = ".tit";
/// A class's facts.
pub const CLASSES_DESCS_SELECTOR: &'static str = "dl";
/// The key of an entry's number in its parameters.
pub const ENTRY_ID_KEY: &'static str = "encSddpbSeq";

/// How the plugin signs in: a student number with a token, or with a password.
#[derive(Debug)]
pub enum SsuPathCredential {
    Token(String, String),
    Password(String, String),
}

/// The SSU-PATH plugin, with the credential it signs in with.
#[derive(Debug)]
pub struct SsuPathPlugin {
    pub credential: SsuPathCredential,
}

impl SsuPathPlugin {
    /// The plugin that signs in with `credential`.
    pub fn new(credential: SsuPathCredential) -> (p: SsuPathPlugin)
        ensures
            p.credential == credential,
    {
        SsuPathPlugin { credential }
    }
}

/// A failure of the plugin.
#[derive(Debug)]
pub struct SsuPathPluginError(pub PluginError);

impl SsuPathPluginError {
    /// The plugin error that it carries.
    pub fn into_plugin_error(self) -> (e: PluginError)
        ensures
            e == self.0,
    {
        self.0
    }
}

/// `e` is the plugin's refusal of unreadable content with the message `msg`.
pub open spec fn parse_error_is(e: SsuPathPluginError, msg: Seq<char>) -> bool {
    e.0 matches PluginError::Parse { plugin, message } && plugin@ == IDENTIFIER@ && message@ == msg
}

/// The plugin's refusal of unreadable content with the message `msg`.
pub(crate) fn parse_error(msg: String) -> (e: SsuPathPluginError)
    ensures
        parse_error_is(e, msg@),
{
    SsuPathPluginError(PluginError::parse(IDENTIFIER, msg))
}

/// The text of an element given by its HTML, trimmed.
pub open spec fn elem_text(html: Seq<char>) -> Seq<char> {
    trim(text_concat(html))
}

/// The trimmed text of the first element of `html` that matches `selector`, if any.
pub open spec fn first_text_of(html: Seq<char>, selector: Seq<char>) -> Option<Seq<char>> {
    let m = fragment_matches(html, selector);
    if m.len() > 0 { Some(elem_text(m[0])) } else { None }
}

/// The trimmed texts of the elements `ms` that are not empty, in order.
pub open spec fn nonempty_texts(ms: Seq<Seq<char>>) -> Seq<Seq<char>>
    decreases ms.len(),
{
    if ms.len() == 0 {
        Seq::empty()
    } else if elem_text(ms.last()).len() > 0 {
        nonempty_texts(ms.drop_last()).push(elem_text(ms.last()))
    } else {
        nonempty_texts(ms.drop_last())
    }
}

/// The key and the value of a definition list: the texts of its first two children.
pub open spec fn dl_pair_of(dl: Seq<char>) -> Option<(Seq<char>, Seq<char>)> {
    let c = first_element_child_texts(dl);
    if c.len() >= 2 { Some((trim(concat_all(c[0])), trim(concat_all(c[1])))) } else { None }
}

/// The pairs of the definition lists `dls` that have two children, in order.
pub open spec fn dl_pairs_of(dls: Seq<Seq<char>>) -> Seq<(Seq<char>, Seq<char>)>
    decreases dls.len(),
{
    if dls.len() == 0 {
        Seq::empty()
    } else {
        match dl_pair_of(dls.last()) {
            Some(p) => dl_pairs_of(dls.drop_last()).push(p),
            None => dl_pairs_of(dls.drop_last()),
        }
    }
}

/// The value of the last pair with the key `key`, as a map built from the pairs in
/// order holds it.
pub open spec fn lookup_last(pairs: Seq<(Seq<char>, Seq<char>)>, key: Seq<char>) -> Option<Seq<char>>
    decreases pairs.len(),
{
    if pairs.len() == 0 {
        None
    } else if pairs.last().0 == key {
        Some(pairs.last().1)
    } else {
        lookup_last(pairs.drop_last(), key)
    }
}

/// The views of a list of pairs of texts.
pub open spec fn pair_list_views(v: Seq<(String, String)>) -> Seq<(Seq<char>, Seq<char>)> {
    v.map_values(|p: (String, String)| (p.0@, p.1@))
}

/// The instant, Korea Standard Time, of a date and time in either of the site's formats.
pub open spec fn path_datetime(s: Seq<char>) -> Option<int> {
    match parsed_date_time(s, DATE_FORMAT@) {
        Some(f) => Some(kst_instant(f)),
        None => match parsed_date_time(s, DATE_FORMAT_ALT@) {
            Some(f) => Some(kst_instant(f)),
            None => None,
        },
    }
}

/// The two instants of a range `start ~ end`, or the message it is refused with: too few
/// parts, or the first part that is no date and time.
pub open spec fn date_range_of(s: Seq<char>) -> Result<(int, int), Seq<char>> {
    let p = split_char(s, '~');
    if p.len() < 2 {
        Err("Cannot parse apply duration of entry"@)
    } else {
        match path_datetime(trim(p[0])) {
            None => Err("Cannot parse date: "@ + date_time_parse_error(trim(p[0]), DATE_FORMAT_ALT@).0),
            Some(a) => match path_datetime(trim(p[1])) {
                None => Err("Cannot parse date: "@ + date_time_parse_error(trim(p[1]), DATE_FORMAT_ALT@).0),
                Some(b) => Ok((a, b)),
            },
        }
    }
}

/// A count written with thousands commas, read as a `u32`.
pub open spec fn count_of(s: Seq<char>) -> Option<int> {
    parse_unsigned(remove_all(s, ","@), u32::MAX as int)
}

/// One class of a program with classes.
#[derive(Debug)]
pub struct SsuPathProgramDivision {
    pub title: String,
    pub apply_duration: (Timestamp, Timestamp),
    pub course_duration: (Timestamp, Timestamp),
    pub applier: u32,
    pub awaiter: u32,
    pub total: u32,
    pub location: String,
}

/// The kind of a program: a single course, with its periods, mileage and counts; or a
/// program of classes.
#[derive(Debug)]
pub enum SsuPathProgramKind {
    Single {
        apply_duration: (Timestamp, Timestamp),
        course_duration: (Timestamp, Timestamp),
        miles: u32,
        applier: u32,
        awaiter: u32,
        total: u32,
    },
    Division(Vec<SsuPathProgramDivision>),
}

/// A program entry of the list.
#[derive(Debug)]
pub struct SsuPathProgram {
    pub id: String,
    pub thumbnail: String,
    pub title: String,
    pub description: String,
    pub label: String,
    pub major_types: Vec<String>,
    pub target: String,
    pub user_type: String,
    pub competencies: Vec<String>,
    pub kind: SsuPathProgramKind,
}

/// Both instants of a range read, in Korea Standard Time.
pub open spec fn range_is(r: (Timestamp, Timestamp), v: (int, int)) -> bool {
    &&& r.0.unix_nanos == v.0
    &&& r.1.unix_nanos == v.1
    &&& r.0.offset_seconds == KST_OFFSET_SECONDS
    &&& r.1.offset_seconds == KST_OFFSET_SECONDS
}

/// The message a count is refused with when it is missing or unreadable.
pub open spec fn count_failure(pairs: Seq<(Seq<char>, Seq<char>)>, key: Seq<char>, msg: Seq<char>) -> Option<Seq<char>> {
    match lookup_last(pairs, key) {
        Some(v) => if count_of(v) is Some { None } else { Some(msg) },
        None => Some(msg),
    }
}

/// The message a range is refused with when it is missing or unreadable.
pub open spec fn range_failure(pairs: Seq<(Seq<char>, Seq<char>)>, key: Seq<char>, msg: Seq<char>) -> Option<Seq<char>> {
    match lookup_last(pairs, key) {
        Some(v) => match date_range_of(v) {
            Ok(_) => None,
            Err(m) => Some(m),
        },
        None => Some(msg),
    }
}

/// The first of two optional failures.
pub open spec fn first_failure(a: Option<Seq<char>>, b: Option<Seq<char>>) -> Option<Seq<char>> {
    if a is Some { a } else { b }
}

/// The facts of a class.
pub open spec fn class_pairs(html: Seq<char>) -> Seq<(Seq<char>, Seq<char>)> {
    dl_pairs_of(fragment_matches(html, CLASSES_DESCS_SELECTOR@))
}

/// Why a class is refused: its checks in order.
pub open spec fn division_failure(html: Seq<char>) -> Option<Seq<char>> {
    let d = class_pairs(html);
    if first_text_of(html, CLASSES_TITLE_SELECTOR@) is None {
        Some("Cannot parse title of entry"@)
    } else {
        first_failure(range_failure(d, "신청기간"@, "Cannot parse apply duration of entry"@),
        first_failure(range_failure(d, "운영기간"@, "Cannot parse course duration of entry"@),
        first_failure(count_failure(d, "신청자"@, "Cannot parse applier of entry"@),
        first_failure(count_failure(d, "대기자"@, "Cannot parse awaiter of entry"@),
        first_failure(count_failure(d, "모집정원"@, "Cannot parse total of entry"@),
        if lookup_last(d, "교육장소"@) is None { Some("Cannot parse location of entry"@) } else { None })))))
    }
}

/// `v` is the class that `html` describes.
pub open spec fn division_ok(v: SsuPathProgramDivision, html: Seq<char>) -> bool {
    let d = class_pairs(html);
    &&& v.title@ == first_text_of(html, CLASSES_TITLE_SELECTOR@)->0
    &&& range_is(v.apply_duration, date_range_of(lookup_last(d, "신청기간"@)->0)->Ok_0)
    &&& range_is(v.course_duration, date_range_of(lookup_last(d, "운영기간"@)->0)->Ok_0)
    &&& v.applier == count_of(lookup_last(d, "신청자"@)->0)->0
    &&& v.awaiter == count_of(lookup_last(d, "대기자"@)->0)->0
    &&& v.total == count_of(lookup_last(d, "모집정원"@)->0)->0
    &&& v.location@ == lookup_last(d, "교육장소"@)->0
}

/// Fetches a value of `pairs` by key (see `lookup_last`).
pub(crate) fn find_value(pairs: &Vec<(String, String)>, key: &str) -> (r: Option<String>)
    ensures
        opt_view(r) == lookup_last(pair_list_views(pairs@), key@),
{
    let ghost ps = pair_list_views(pairs@);
    let wanted = String::from_str(key);
    let mut i: usize = pairs.len();
    proof {
        assert(ps.take(i as int) == ps);
    }
    while i > 0
        invariant
            i <= pairs.len(),
            wanted@ == key@,
            ps == pair_list_views(pairs@),
            lookup_last(ps, key@) == lookup_last(ps.take(i as int), key@),
        decreases i,
    {
        proof {
            assert(ps.take(i as int).drop_last() == ps.take(i - 1));
            assert(ps.take(i as int).last() == (pairs@[i - 1].0@, pairs@[i - 1].1@));
        }
        if pairs[i - 1].0 == wanted {
            return Some(pairs[i - 1].1.clone());
        }
        i -= 1;
    }
    proof {
        assert(ps.take(0).len() == 0);
    }
    None
}

/// The pairs of the definition lists of `html` that match `selector` (see `dl_pairs_of`).
fn dl_pairs(html: &str, selector: &str) -> (r: Vec<(String, String)>)
    ensures
        pair_list_views(r@) == dl_pairs_of(fragment_matches(html@, selector@)),
{
    let dls = select_in_fragment(html, selector);
    let ghost ds = views(dls@);
    let mut out: Vec<(String, String)> = Vec::new();
    let mut i: usize = 0;
    while i < dls.len()
        invariant
            i <= dls.len(),
            ds == views(dls@),
            ds == fragment_matches(html@, selector@),
            pair_list_views(out@) == dl_pairs_of(ds.take(i as int)),
        decreases dls.len() - i,
    {
        proof {
            assert(ds.take(i + 1).drop_last() == ds.take(i as int));
            assert(ds.take(i + 1).last() == dls@[i as int]@);
        }
        let children = child_texts_of_first(dls[i].as_str());
        if children.len() >= 2 {
            proof {
                assert(nested_views(children@)[0] == views(children@[0]@));
                assert(nested_views(children@)[1] == views(children@[1]@));
            }
            let k = trim_str(concat_strings(&children[0]).as_str());
            let v = trim_str(concat_strings(&children[1]).as_str());
            let ghost before = out@;
            out.push((k, v));
            proof {
                assert(pair_list_views(out@) =~= pair_list_views(before).push((k@, v@)));
            }
        }
        i += 1;
    }
    proof {
        assert(ds.take(ds.len() as int) == ds);
    }
    out
}

/// The trimmed text of the first element of `html` that matches `selector`, if any.
fn first_text(html: &str, selector: &str) -> (r: Option<String>)
    ensures
        opt_view(r) == first_text_of(html@, selector@),
{
    let m = select_in_fragment(html, selector);
    if m.len() == 0 {
        return None;
    }
    proof {
        assert(views(m@)[0] == m@[0]@);
    }
    let t = text_of_element(m[0].as_str());
    Some(trim_str(t.as_str()))
}

/// The trimmed texts, not empty, of the elements of `html` that match `selector`.
fn nonempty_texts_in(html: &str, selector: &str) -> (r: Vec<String>)
    ensures
        views(r@) == nonempty_texts(fragment_matches(html@, selector@)),
{
    let m = select_in_fragment(html, selector);
    let ghost ms = views(m@);
    let mut out: Vec<String> = Vec::new();
    let mut i: usize = 0;
    while i < m.len()
        invariant
            i <= m.len(),
            ms == views(m@),
            views(out@) == nonempty_texts(ms.take(i as int)),
        decreases m.len() - i,
    {
        proof {
            assert(ms.take(i + 1).drop_last() == ms.take(i as int));
            assert(ms.take(i + 1).last() == m@[i as int]@);
        }
        let t = text_of_element(m[i].as_str());
        let s = trim_str(t.as_str());
        if s.as_str().unicode_len() > 0 {
            let ghost before = out@;
            out.push(s);
            proof {
                assert(views(out@) =~= views(before).push(s@));
            }
        }
        i += 1;
    }
    proof {
        assert(ms.take(ms.len() as int) == ms);
    }
    out
}

/// Reads a count written with thousands commas (see `count_of`).
fn parse_count(text: &str) -> (r: Option<u32>)
    ensures
        match r {
            Some(n) => count_of(text@) == Some(n as int),
            None => count_of(text@) is None,
        },
{
    let cleaned = remove_text(&chars_of(text), &chars_of(","));
    match parse_unsigned_text(&cleaned, 4294967295u64) {
        Some(n) => Some(n as u32),
        None => None,
    }
}

/// Reads a date and time in either of the site's formats (see `path_datetime`).
fn parse_path_datetime(text: &str) -> (r: Option<Timestamp>)
    ensures
        match r {
            Some(t) => path_datetime(text@) == Some(t.unix_nanos as int) && t.offset_seconds == KST_OFFSET_SECONDS,
            None => path_datetime(text@) is None,
        },
{
    match kst_date_time_from_text(text, DATE_FORMAT) {
        Some(t) => Some(t),
        None => kst_date_time_from_text(text, DATE_FORMAT_ALT),
    }
}

/// Reads a range `start ~ end` (see `date_range_of`).
pub fn parse_date_range(text: &str) -> (r: Result<(Timestamp, Timestamp), SsuPathPluginError>)
    ensures
        match r {
            Ok(v) => date_range_of(text@) matches Ok(w) && range_is(v, w),
            Err(e) => date_range_of(text@) matches Err(m) && parse_error_is(e, m),
        },
{
    let parts = split_at_char(&chars_of(text), '~');
    let ghost ps = parts@.map_values(|p: Vec<char>| p@);
    if parts.len() < 2 {
        return Err(parse_error(String::from_str("Cannot parse apply duration of entry")));
    }
    proof {
        assert(ps[0] == parts@[0]@ && ps[1] == parts@[1]@);
    }
    let a_text = string_of(&trimmed_copy(&parts[0]));
    let a = match parse_path_datetime(a_text.as_str()) {
        Some(t) => t,
        None => return Err(parse_error(concat("Cannot parse date: ", date_time_error_texts(a_text.as_str(), DATE_FORMAT_ALT).0.as_str()))),
    };
    let b_text = string_of(&trimmed_copy(&parts[1]));
    let b = match parse_path_datetime(b_text.as_str()) {
        Some(t) => t,
        None => return Err(parse_error(concat("Cannot parse date: ", date_time_error_texts(b_text.as_str(), DATE_FORMAT_ALT).0.as_str()))),
    };
    Ok((a, b))
}

/// Reads the range of `pairs` at `key`, refused with `msg` when it is missing.
fn range_at(pairs: &Vec<(String, String)>, key: &str, msg: &str) -> (r: Result<(Timestamp, Timestamp), SsuPathPluginError>)
    ensures
        match r {
            Ok(v) => range_failure(pair_list_views(pairs@), key@, msg@) is None
                && range_is(v, date_range_of(lookup_last(pair_list_views(pairs@), key@)->0)->Ok_0),
            Err(e) => range_failure(pair_list_views(pairs@), key@, msg@) matches Some(m) && parse_error_is(e, m),
        },
{
    match find_value(pairs, key) {
        Some(v) => parse_date_range(v.as_str()),
        None => Err(parse_error(String::from_str(msg))),
    }
}

/// Reads the count of `pairs` at `key`, refused with `msg` when it is missing or
/// unreadable.
fn count_at(pairs: &Vec<(String, String)>, key: &str, msg: &str) -> (r: Result<u32, SsuPathPluginError>)
    ensures
        match r {
            Ok(n) => count_failure(pair_list_views(pairs@), key@, msg@) is None
                && count_of(lookup_last(pair_list_views(pairs@), key@)->0) == Some(n as int),
            Err(e) => count_failure(pair_list_views(pairs@), key@, msg@) == Some(msg@) && parse_error_is(e, msg@),
        },
{
    match find_value(pairs, key) {
        Some(v) => match parse_count(v.as_str()) {
            Some(n) => Ok(n),
            None => Err(parse_error(String::from_str(msg))),
        },
        None => Err(parse_error(String::from_str(msg))),
    }
}

impl SsuPathProgram {
    /// Reads one class of a program (see `division_failure` and `division_ok`).
    pub fn parse_division(html: &str) -> (r: Result<SsuPathProgramDivision, SsuPathPluginError>)
        ensures
            match r {
                Ok(v) => division_failure(html@) is None && division_ok(v, html@),
                Err(e) => division_failure(html@) matches Some(m) && parse_error_is(e, m),
            },
    {
        let title = match first_text(html, CLASSES_TITLE_SELECTOR) {
            Some(t) => t,
            None => return Err(parse_error(String::from_str("Cannot parse title of entry"))),
        };
        let d = dl_pairs(html, CLASSES_DESCS_SELECTOR);
        let apply_duration = range_at(&d, "신청기간", "Cannot parse apply duration of entry")?;
        let course_duration = range_at(&d, "운영기간", "Cannot parse course duration of entry")?;
        let applier = count_at(&d, "신청자", "Cannot parse applier of entry")?;
        let awaiter = count_at(&d, "대기자", "Cannot parse awaiter of entry")?;
        let total = count_at(&d, "모집정원", "Cannot parse total of entry")?;
        let location = match find_value(&d, "교육장소") {
            Some(l) => l,
            None => return Err(parse_error(String::from_str("Cannot parse location of entry"))),
        };
        Ok(SsuPathProgramDivision { title, apply_duration, course_duration, applier, awaiter, total, location })
    }
}

/// The facts of a program entry.
pub open spec fn entry_infos(html: Seq<char>) -> Seq<(Seq<char>, Seq<char>)> {
    dl_pairs_of(fragment_matches(html, INFOS_SELECTOR@))
}

/// The further facts of a program entry.
pub open spec fn entry_desc_infos(html: Seq<char>) -> Seq<(Seq<char>, Seq<char>)> {
    dl_pairs_of(fragment_matches(html, DESC_INFOS_SELECTOR@))
}

/// The classes of a program entry.
pub open spec fn classes_of(html: Seq<char>) -> Seq<Seq<char>> {
    fragment_matches(html, CLASSES_SELECTOR@)
}

/// Why an entry's number cannot be read: its title has no parameters, they are no JSON,
/// or they do not name the number.
pub open spec fn entry_id_failure(html: Seq<char>) -> Option<Seq<char>> {
    match fragment_first_attr(html, TITLE_SELECTOR@, "data-params"@) {
        None => Some("Cannot parse id of entry"@),
        Some(a) => match json_str_field(a, ENTRY_ID_KEY@) {
            Err(m) => Some("Parse error: "@ + m),
            Ok(None) => Some("Parse error: missing field `encSddpbSeq`"@),
            Ok(Some(_)) => None,
        },
    }
}

/// The number of a program entry.
pub open spec fn entry_id_of(html: Seq<char>) -> Seq<char> {
    json_str_field(fragment_first_attr(html, TITLE_SELECTOR@, "data-params"@)->0, ENTRY_ID_KEY@)->Ok_0->0
}

/// The first failing class among `cs`, in order.
pub open spec fn divisions_failure(cs: Seq<Seq<char>>) -> Option<Seq<char>>
    decreases cs.len(),
{
    if cs.len() == 0 {
        None
    } else if division_failure(cs[0]) is Some {
        division_failure(cs[0])
    } else {
        divisions_failure(cs.drop_first())
    }
}

/// Why a program entry is refused: its checks in order.
#[verifier::opaque]
pub open spec fn program_failure(html: Seq<char>) -> Option<Seq<char>> {
    let infos = entry_infos(html);
    let desc = entry_desc_infos(html);
    if fragment_matches(html, TITLE_SELECTOR@).len() == 0 {
        Some("Cannot parse title of entry"@)
    } else if entry_id_failure(html) is Some {
        entry_id_failure(html)
    } else if fragment_matches(html, THUMBNAIL_SELECTOR@).len() == 0 {
        Some("Cannot parse thumbnail of entry"@)
    } else if first_text_of(html, DESC_SELECTOR@) is None {
        Some("Cannot parse description of entry"@)
    } else if first_text_of(html, LABEL_SELECTOR@) is None {
        Some("Cannot parse label of entry"@)
    } else if lookup_last(infos, "신청대상"@) is None {
        Some("Cannot parse target of entry"@)
    } else if lookup_last(infos, "신청신분"@) is None {
        Some("Cannot parse user type of entry"@)
    } else if classes_of(html).len() == 0 {
        first_failure(range_failure(infos, "신청기간"@, "Cannot parse apply duration of entry"@),
        first_failure(range_failure(infos, "교육기간"@, "Cannot parse course duration of entry"@),
        first_failure(count_failure(desc, "신청자"@, "Cannot parse applier of entry"@),
        first_failure(count_failure(desc, "대기자"@, "Cannot parse awaiter of entry"@),
        count_failure(desc, "모집정원"@, "Cannot parse total of entry"@)))))
    } else {
        divisions_failure(classes_of(html))
    }
}

/// The mileage of a single program: its count when it reads, else 0.
pub open spec fn miles_of(desc: Seq<(Seq<char>, Seq<char>)>) -> int {
    match lookup_last(desc, "마일리지"@) {
        Some(v) => match count_of(v) {
            Some(n) => n,
            None => 0,
        },
        None => 0,
    }
}

/// `p` is the program that the entry `html` describes.
#[verifier::opaque]
pub open spec fn program_ok(p: SsuPathProgram, html: Seq<char>) -> bool {
    let infos = entry_infos(html);
    let desc = entry_desc_infos(html);
    &&& p.id@ == entry_id_of(html)
    &&& p.title@ == first_text_of(html, TITLE_SELECTOR@)->0
    &&& p.thumbnail@ == (match fragment_first_attr(html, THUMBNAIL_SELECTOR@, "src"@) { Some(s) => s, None => Seq::empty() })
    &&& p.description@ == first_text_of(html, DESC_SELECTOR@)->0
    &&& p.label@ == first_text_of(html, LABEL_SELECTOR@)->0
    &&& views(p.major_types@) == nonempty_texts(fragment_matches(html, MAJOR_TYPE_SELECTOR@))
    &&& p.target@ == lookup_last(infos, "신청대상"@)->0
    &&& p.user_type@ == lookup_last(infos, "신청신분"@)->0
    &&& views(p.competencies@) == nonempty_texts(fragment_matches(html, COMPETENCIES_SELECTOR@))
    &&& if classes_of(html).len() == 0 {
        &&& p.kind matches SsuPathProgramKind::Single { apply_duration, course_duration, miles, applier, awaiter, total }
        &&& range_is(apply_duration, date_range_of(lookup_last(infos, "신청기간"@)->0)->Ok_0)
        &&& range_is(course_duration, date_range_of(lookup_last(infos, "교육기간"@)->0)->Ok_0)
        &&& miles == miles_of(desc)
        &&& applier == count_of(lookup_last(desc, "신청자"@)->0)->0
        &&& awaiter == count_of(lookup_last(desc, "대기자"@)->0)->0
        &&& total == count_of(lookup_last(desc, "모집정원"@)->0)->0
    } else {
        &&& p.kind matches SsuPathProgramKind::Division(ds)
        &&& ds@.len() == classes_of(html).len()
        &&& forall|i: int| 0 <= i < ds@.len() ==> division_ok(#[trigger] ds@[i], classes_of(html)[i])
    }
}

/// A program of classes has at least one class.
pub open spec fn program_wf(p: SsuPathProgram) -> bool {
    p.kind matches SsuPathProgramKind::Division(ds) ==> ds@.len() > 0
}

impl SsuPathProgram {
    /// Reads the classes `classes`, in order; refused at the first class that does not
    /// read.
    #[verifier::rlimit(40)]
    fn parse_divisions(classes: &Vec<String>) -> (r: Result<Vec<SsuPathProgramDivision>, SsuPathPluginError>)
        ensures
            match r {
                Ok(ds) => divisions_failure(views(classes@)) is None && ds@.len() == classes@.len()
                    && forall|i: int| 0 <= i < ds@.len() ==> division_ok(#[trigger] ds@[i], classes@[i]@),
                Err(e) => divisions_failure(views(classes@)) matches Some(m) && parse_error_is(e, m),
            },
    {
        let ghost cs = views(classes@);
        let mut ds: Vec<SsuPathProgramDivision> = Vec::new();
        let mut i: usize = 0;
        proof {
            assert(cs.skip(0) == cs);
        }
        while i < classes.len()
            invariant
                i <= classes.len(),
                cs == views(classes@),
                ds@.len() == i,
                forall|j: int| 0 <= j < i ==> division_ok(#[trigger] ds@[j], classes@[j]@),
                divisions_failure(cs) == divisions_failure(cs.skip(i as int)),
            decreases classes.len() - i,
        {
            proof {
                assert(cs.skip(i as int)[0] == classes@[i as int]@);
                assert(cs.skip(i as int).drop_first() == cs.skip(i + 1));
            }
            let d = Self::parse_division(classes[i].as_str())?;
            ds.push(d);
            i += 1;
        }
        proof {
            assert(cs.skip(i as int).len() == 0);
        }
        Ok(ds)
    }

    /// Reads a program entry of the list (see `program_failure` and `program_ok`).
    pub fn from_element(html: &str) -> (r: Result<SsuPathProgram, SsuPathPluginError>)
        ensures
            match r {
                Ok(p) => program_failure(html@) is None && program_ok(p, html@) && program_wf(p),
                Err(e) => program_failure(html@) matches Some(m) && parse_error_is(e, m),
            },
    {
        reveal(program_failure);
        reveal(program_ok);
        let title = match first_text(html, TITLE_SELECTOR) {
            Some(t) => t,
            None => return Err(parse_error(String::from_str("Cannot parse title of entry"))),
        };
        let params = match first_attr_in_fragment(html, TITLE_SELECTOR, "data-params") {
            Some(a) => a,
            None => return Err(parse_error(String::from_str("Cannot parse id of entry"))),
        };
        let id = match json_string_at(params.as_str(), ENTRY_ID_KEY) {
            Ok(Some(v)) => v,
            Ok(None) => return Err(parse_error(String::from_str("Parse error: missing field `encSddpbSeq`"))),
            Err(m) => return Err(parse_error(concat("Parse error: ", m.as_str()))),
        };
        let thumbs = select_in_fragment(html, THUMBNAIL_SELECTOR);
        if thumbs.len() == 0 {
            return Err(parse_error(String::from_str("Cannot parse thumbnail of entry")));
        }
        let thumbnail = match first_attr_in_fragment(html, THUMBNAIL_SELECTOR, "src") {
            Some(s) => s,
            None => String::new(),
        };
        let description = match first_text(html, DESC_SELECTOR) {
            Some(t) => t,
            None => return Err(parse_error(String::from_str("Cannot parse description of entry"))),
        };
        let label = match first_text(html, LABEL_SELECTOR) {
            Some(t) => t,
            None => return Err(parse_error(String::from_str("Cannot parse label of entry"))),
        };
        let major_types = nonempty_texts_in(html, MAJOR_TYPE_SELECTOR);
        let infos = dl_pairs(html, INFOS_SELECTOR);
        let target = match find_value(&infos, "신청대상") {
            Some(v) => v,
            None => return Err(parse_error(String::from_str("Cannot parse target of entry"))),
        };
        let user_type = match find_value(&infos, "신청신분") {
            Some(v) => v,
            None => return Err(parse_error(String::from_str("Cannot parse user type of entry"))),
        };
        let competencies = nonempty_texts_in(html, COMPETENCIES_SELECTOR);
        let classes = select_in_fragment(html, CLASSES_SELECTOR);
        proof {
            assert(views(classes@) == classes_of(html@));
        }
        if classes.len() == 0 {
            let apply_duration = range_at(&infos, "신청기간", "Cannot parse apply duration of entry")?;
            let course_duration = range_at(&infos, "교육기간", "Cannot parse course duration of entry")?;
            let desc = dl_pairs(html, DESC_INFOS_SELECTOR);
            let miles = match find_value(&desc, "마일리지") {
                Some(v) => match parse_count(v.as_str()) {
                    Some(n) => n,
                    None => 0,
                },
                None => 0,
            };
            let applier = count_at(&desc, "신청자", "Cannot parse applier of entry")?;
            let awaiter = count_at(&desc, "대기자", "Cannot parse awaiter of entry")?;
            let total = count_at(&desc, "모집정원", "Cannot parse total of entry")?;
            Ok(SsuPathProgram {
                id,
                thumbnail,
                title,
                description,
                label,
                major_types,
                target,
                user_type,
                competencies,
                kind: SsuPathProgramKind::Single { apply_duration, course_duration, miles, applier, awaiter, total },
            })
        } else {
            let divisions = Self::parse_divisions(&classes)?;
            Ok(SsuPathProgram {
                id,
                thumbnail,
                title,
                description,
                label,
                major_types,
                target,
                user_type,
                competencies,
                kind: SsuPathProgramKind::Division(divisions),
            })
        }
    }

    /// When a program opens: the start of its application period, or of its first
    /// class's.
    pub fn create_at(&self) -> (t: Timestamp)
        requires
            program_wf(*self),
        ensures
            match self.kind {
                SsuPathProgramKind::Single { apply_duration, .. } => t == apply_duration.0,
                SsuPathProgramKind::Division(ds) => t == ds@[0].apply_duration.0,
            },
    {
        match &self.kind {
            SsuPathProgramKind::Single { apply_duration, .. } => apply_duration.0,
            SsuPathProgramKind::Division(divisions) => divisions[0].apply_duration.0,
        }
    }
}

/// The address of a list page, before its number.
pub const PATH_LIST_URL: &'static str = "https://path.ssu.ac.kr/ptfol/imng/icmpNsbjtPgm/findIcmpNsbjtPgmList.do?paginationInfo.currentPageNo=";
/// The address of a program's page, before its number.
pub const PATH_ENTRY_URL: &'static str = "https://path.ssu.ac.kr/ptfol/imng/icmpNsbjtPgm/findIcmpNsbjtPgmInfo.do?encSddpbSeq=";
/// The program entries of a list page.
pub const ENTRIES_SELECTOR: &'static str = "div.lica_wrap > ul > li";

/// `p` is the program that the entry `html` describes, and is well formed.
#[verifier::opaque]
pub open spec fn entry_read(p: SsuPathProgram, html: Seq<char>) -> bool {
    program_ok(p, html) && program_wf(p)
}

/// The first failing entry among `es`, in order.
pub open spec fn entries_failure(es: Seq<Seq<char>>) -> Option<Seq<char>>
    decreases es.len(),
{
    if es.len() == 0 {
        None
    } else if program_failure(es[0]) is Some {
        program_failure(es[0])
    } else {
        entries_failure(es.drop_first())
    }
}

impl SsuPathPlugin {
    /// How many list pages a crawl for `posts_limit` programs reads: enough for the limit.
    pub fn pages_for(posts_limit: u32) -> (n: usize)
        ensures
            n as int == (posts_limit as int + ENTRIES_PER_PAGE as int - 1) / (ENTRIES_PER_PAGE as int),
    {
        let l = posts_limit as usize;
        l / ENTRIES_PER_PAGE + if l % ENTRIES_PER_PAGE == 0 { 0 } else { 1 }
    }

    /// The address of the list page `page`.
    pub fn list_url(page: u32) -> (out: String)
        ensures
            out@ == PATH_LIST_URL@ + crate::text::int_text(page as int),
    {
        let n = crate::text::int_to_text(page as i64);
        concat(PATH_LIST_URL, n.as_str())
    }

    /// The address of the program `id`.
    pub fn entry_url(id: &str) -> (out: String)
        ensures
            out@ == PATH_ENTRY_URL@ + id@,
    {
        concat(PATH_ENTRY_URL, id)
    }

    /// Reads the program entries of a list page, in order; refused at the first entry that
    /// does not read.
    pub fn parse_entries(html: &str) -> (r: Result<Vec<SsuPathProgram>, SsuPathPluginError>)
        ensures
            match r {
                Ok(ps) => {
                    let es = crate::html::document_matches(html@, ENTRIES_SELECTOR@);
                    &&& entries_failure(es) is None
                    &&& ps@.len() == es.len()
                    &&& forall|i: int| 0 <= i < ps@.len() ==> entry_read(#[trigger] ps@[i], es[i])
                },
                Err(e) => entries_failure(crate::html::document_matches(html@, ENTRIES_SELECTOR@)) matches Some(m)
                    && parse_error_is(e, m),
            },
    {
        let entries = crate::html::select_in_document(html, ENTRIES_SELECTOR);
        let ghost es = views(entries@);
        let mut ps: Vec<SsuPathProgram> = Vec::new();
        let mut i: usize = 0;
        proof {
            assert(es.skip(0) == es);
        }
        while i < entries.len()
            invariant
                i <= entries.len(),
                es == views(entries@),
                es == crate::html::document_matches(html@, ENTRIES_SELECTOR@),
                ps@.len() == i,
                forall|j: int| 0 <= j < i ==> entry_read(#[trigger] ps@[j], entries@[j]@),
                entries_failure(es) == entries_failure(es.skip(i as int)),
            decreases entries.len() - i,
        {
            proof {
                assert(es.skip(i as int)[0] == entries@[i as int]@);
                assert(es.skip(i as int).drop_first() == es.skip(i + 1));
            }
            let p = match SsuPathProgram::from_element(entries[i].as_str()) {
                Ok(p) => p,
                Err(e) => {
                    proof {
                        assert(entries_failure(es.skip(i as int)) == program_failure(entries@[i as int]@));
                    }
                    return Err(e);
                },
            };
            assert(entry_read(p, entries@[i as int]@)) by {
                reveal(entry_read);
            }
            ps.push(p);
            i += 1;
        }
        proof {
            assert(es.skip(i as int).len() == 0);
            assert forall|j: int| 0 <= j < ps@.len() implies entry_read(#[trigger] ps@[j], es[j]) by {
                assert(es[j] == entries@[j]@);
            }
        }
        Ok(ps)
    }
}

} // verus!

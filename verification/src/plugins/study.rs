//! The international office's notices, read from its compressed JSON board.

use vstd::prelude::*;
use base64::Engine;
use crate::datetime::{Timestamp, parsed_date, kst_instant, kst_midnight_from_text};
use crate::error::{PluginError, concat};
use crate::post::{Attachment, SsufidPost, opt_view};
use crate::text::{int_text, int_to_text};
use crate::html::{url_with_pairs, append_query_pairs, pair_views, document_matches, select_in_document, text_concat, text_of_element};

verus! {

/// The international office plugin.
pub struct StudyPlugin;

/// The plugin's identifier.
pub const IDENTIFIER: &'static str = "study.ssu.ac.kr";
/// The site's title.
pub const TITLE: &'static str = "숭실대학교 국제처";
/// The site's description.
pub const DESCRIPTION: &'static str = "숭실대학교 국제처 홈페이지의 공지사항을 제공합니다.";
/// The site's address.
pub const BASE_URL: &'static str = "https://study.ssu.ac.kr/community/notice_list.do";
/// The address of the board API.
pub const API_BASE_URL: &'static str = "https://study.ssu.ac.kr/xhr16";
/// The address of a post's page.
pub const POST_URL: &'static str = "https://study.ssu.ac.kr/community/notice_view.do";
/// The format of the board's dates.
pub const DATE_FORMAT: &'static str = "[year].[month].[day]";

/// The text in standard Base64 of the UTF-8 bytes of a text, as the `base64` crate
/// writes it.
pub uninterp spec fn base64_text(s: Seq<char>) -> Seq<char>;

/// Encodes the UTF-8 bytes of `text` in standard Base64 (`BASE64_STANDARD.encode`).
#[verifier::external_body]
fn base64_encode(text: &str) -> (out: String)
    ensures
        out@ == base64_text(text@),
{
    base64::prelude::BASE64_STANDARD.encode(text)
}

/// The address of the post `sb_seq`: the post address with the Base64 of its number as
/// `sbSeq`.
pub open spec fn post_url_of(sb_seq: u32) -> Option<Seq<char>> {
    url_with_pairs(POST_URL@, seq![("sbSeq"@, base64_text(int_text(sb_seq as int)))])
}

/// The address of the post `sb_seq` (see `post_url_of`).
pub fn construct_post_url(sb_seq: u32) -> (r: Option<String>)
    ensures
        opt_view(r) == post_url_of(sb_seq),
{
    let seq_text = int_to_text(sb_seq as i64);
    let encoded = base64_encode(seq_text.as_str());
    let mut pairs: Vec<(String, String)> = Vec::new();
    pairs.push((String::from_str("sbSeq"), encoded));
    proof {
        assert(pair_views(pairs@) =~= seq![("sbSeq"@, base64_text(int_text(sb_seq as int)))]);
    }
    append_query_pairs(POST_URL, &pairs)
}

/// The request for a page of the board list.
#[derive(Clone, Debug)]
pub struct StudyBoardRequest {
    pub search_type: String,
    pub site_cd: String,
    pub section_cd: String,
    pub notice_cd: String,
    pub content_yn: String,
    pub search_val: String,
    pub board_cd: String,
    pub gb_cd: String,
    pub target_cd: String,
    pub cate_seq: String,
    pub current_page_no: u32,
    pub first_page_no: u32,
    pub first_page_no_on_page_list: u32,
    pub first_record_index: u32,
    pub last_page_no: u32,
    pub last_page_no_on_page_list: u32,
    pub last_record_index: u32,
    pub page_size: u32,
    pub record_count_per_page: u32,
    pub total_page_count: u32,
    pub total_record_count: u32,
    pub view_record_count: u32,
    pub page: u32,
}

/// The pagination of a board list response.
#[derive(Clone, Copy, Debug)]
pub struct StudyPaginationInfo {
    pub current_page_no: u32,
    pub first_page_no: u32,
    pub first_page_no_on_page_list: u32,
    pub first_record_index: u32,
    pub last_page_no: u32,
    pub last_page_no_on_page_list: u32,
    pub last_record_index: u32,
    pub page_size: u32,
    pub record_count_per_page: u32,
    pub total_page_count: u32,
    pub total_record_count: u32,
    pub view_record_count: u32,
}

impl StudyBoardRequest {
    /// Asks for page `page`.
    pub fn set_page(&mut self, page: u32)
        ensures
            final(self).current_page_no == page,
            final(self).page == page,
            *final(self) == (StudyBoardRequest { current_page_no: page, page: page, ..*old(self) }),
    {
        self.current_page_no = page;
        self.page = page;
    }

    /// The request that follows a list response: its site, section and board, and its
    /// pagination, at its current page; the other texts empty.
    pub fn from_list_response(site_cd: String, section_cd: String, board_cd: String, info: StudyPaginationInfo) -> (r: StudyBoardRequest)
        ensures
            r.site_cd == site_cd,
            r.section_cd == section_cd,
            r.board_cd == board_cd,
            r.current_page_no == info.current_page_no,
            r.page == info.current_page_no,
            r.total_page_count == info.total_page_count,
            r.search_type@.len() == 0 && r.notice_cd@.len() == 0 && r.content_yn@.len() == 0,
            r.search_val@.len() == 0 && r.gb_cd@.len() == 0 && r.target_cd@.len() == 0 && r.cate_seq@.len() == 0,
    {
        StudyBoardRequest {
            search_type: String::new(),
            site_cd,
            section_cd,
            notice_cd: String::new(),
            content_yn: String::new(),
            search_val: String::new(),
            board_cd,
            gb_cd: String::new(),
            target_cd: String::new(),
            cate_seq: String::new(),
            current_page_no: info.current_page_no,
            first_page_no: info.first_page_no,
            first_page_no_on_page_list: info.first_page_no_on_page_list,
            first_record_index: info.first_record_index,
            last_page_no: info.last_page_no,
            last_page_no_on_page_list: info.last_page_no_on_page_list,
            last_record_index: info.last_record_index,
            page_size: info.page_size,
            record_count_per_page: info.record_count_per_page,
            total_page_count: info.total_page_count,
            total_record_count: info.total_record_count,
            view_record_count: info.view_record_count,
            page: info.current_page_no,
        }
    }
}

/// A file attached to a post.
#[derive(Clone, Debug)]
pub struct StudyFile {
    pub file_no: u32,
    pub file_order: u32,
    pub file_nm: String,
    pub file_ext: String,
    pub save_path: String,
    pub reg_dt: String,
    pub status: u32,
}

impl StudyFile {
    /// The file as an attachment of the post at `post_url`: named by its file name, at the
    /// post's address, with no MIME type.
    pub fn to_attachment(&self, post_url: String) -> (a: Attachment)
        ensures
            opt_view(a.name) == Some(self.file_nm@),
            a.url == post_url,
            a.mime_type is None,
    {
        Attachment { name: Some(self.file_nm.clone()), url: post_url, mime_type: None }
    }
}

/// A post's details.
#[derive(Clone, Debug)]
pub struct StudyPostInfo {
    pub sb_seq: u32,
    pub title: String,
    pub content: String,
    pub reg_dt: Timestamp,
    pub mod_dt: Timestamp,
    pub user_nm: String,
}

/// A post of the board.
#[derive(Clone, Debug)]
pub struct StudyPost {
    pub sb_seq: String,
    pub info: StudyPostInfo,
    pub file_list: Vec<StudyFile>,
}

/// Reads a date of the board: midnight of the date, Korea Standard Time.
pub fn parse_study_datetime(text: &str) -> (r: Result<Timestamp, PluginError>)
    ensures
        match r {
            Ok(t) => parsed_date(text@, DATE_FORMAT@) matches Some(d) && t.unix_nanos == kst_instant((d.0, d.1, d.2, 0, 0, 0)),
            Err(e) => parsed_date(text@, DATE_FORMAT@) is None && (e is Parse),
        },
{
    match kst_midnight_from_text(text, DATE_FORMAT) {
        Some(t) => Ok(t),
        None => Err(PluginError::parse(IDENTIFIER, concat("Invalid date: ", text))),
    }
}

impl StudyPost {
    /// The post as the aggregator keeps it: at its page's address, its files attached
    /// there; refused when that address cannot be formed.
    pub fn into_post(self) -> (r: Result<SsufidPost, PluginError>)
        ensures
            r is Err <==> post_url_of(self.info.sb_seq) is None,
            r matches Ok(p) ==> {
                &&& Some(p.url@) == post_url_of(self.info.sb_seq)
                &&& p.id == self.sb_seq
                &&& p.title == self.info.title
                &&& opt_view(p.author) == Some(self.info.user_nm@)
                &&& p.description is None
                &&& p.category@.len() == 0
                &&& p.created_at == self.info.reg_dt
                &&& p.updated_at == Some(self.info.mod_dt)
                &&& p.thumbnail is None
                &&& p.content == self.info.content
                &&& p.metadata is None
                &&& p.attachments@.len() == self.file_list@.len()
                &&& forall|i: int| 0 <= i < self.file_list@.len() ==> {
                    &&& opt_view((#[trigger] p.attachments@[i]).name) == Some(self.file_list@[i].file_nm@)
                    &&& p.attachments@[i].url@ == p.url@
                    &&& p.attachments@[i].mime_type is None
                }
            },
    {
        let post_url = match construct_post_url(self.info.sb_seq) {
            Some(u) => u,
            None => {
                return Err(PluginError::parse(IDENTIFIER, String::from_str("Invalid post address")));
            },
        };
        let mut attachments: Vec<Attachment> = Vec::new();
        let mut i: usize = 0;
        while i < self.file_list.len()
            invariant
                i <= self.file_list.len(),
                attachments@.len() == i,
                forall|j: int| 0 <= j < i ==> {
                    &&& opt_view((#[trigger] attachments@[j]).name) == Some(self.file_list@[j].file_nm@)
                    &&& attachments@[j].url@ == post_url@
                    &&& attachments@[j].mime_type is None
                },
            decreases self.file_list.len() - i,
        {
            let a = self.file_list[i].to_attachment(post_url.clone());
            attachments.push(a);
            i += 1;
        }
        Ok(SsufidPost {
            id: self.sb_seq,
            title: self.info.title,
            url: post_url,
            author: Some(self.info.user_nm),
            description: None,
            category: Vec::new(),
            created_at: self.info.reg_dt,
            updated_at: Some(self.info.mod_dt),
            thumbnail: None,
            content: self.info.content,
            attachments,
            metadata: None,
        })
    }
}

/// Whether another list page is read: fewer than `limit` distinct posts so far, and the
/// current page is not the last.
pub fn wants_next_page(collected: usize, limit: u32, page: u32, total_page_count: u32) -> (b: bool)
    ensures
        b == (collected < limit && page < total_page_count),
{
    collected < limit as usize && page < total_page_count
}

/// The first `limit` distinct numbers of `s`, in order of first occurrence.
pub open spec fn first_distinct(s: Seq<u32>, limit: int) -> Seq<u32>
    decreases s.len(),
{
    if s.len() == 0 {
        Seq::empty()
    } else {
        let pre = first_distinct(s.drop_last(), limit);
        if pre.contains(s.last()) || pre.len() >= limit { pre } else { pre.push(s.last()) }
    }
}

/// Whether `s` is strictly increasing.
pub open spec fn strictly_increasing(s: Seq<u32>) -> bool {
    forall|i: int, j: int| 0 <= i < j < s.len() ==> s[i] < s[j]
}

proof fn lemma_first_distinct(s: Seq<u32>, limit: int)
    requires
        limit >= 0,
    ensures
        first_distinct(s, limit).len() <= limit,
        forall|i: int, j: int| 0 <= i < j < first_distinct(s, limit).len() ==> first_distinct(s, limit)[i] != first_distinct(s, limit)[j],
    decreases s.len(),
{
    if s.len() > 0 {
        lemma_first_distinct(s.drop_last(), limit);
    }
}

/// Inserts `x` into the strictly increasing `v`, unless it is already there.
fn insert_sorted(v: &mut Vec<u32>, x: u32)
    requires
        strictly_increasing(old(v)@),
    ensures
        strictly_increasing(final(v)@),
        final(v)@.to_set() == old(v)@.to_set().insert(x),
{
    let mut i: usize = 0;
    while i < v.len() && v[i] < x
        invariant
            i <= v.len(),
            forall|j: int| 0 <= j < i ==> v@[j] < x,
        decreases v.len() - i,
    {
        i += 1;
    }
    if i < v.len() && v[i] == x {
        proof {
            assert(v@.to_set() =~= v@.to_set().insert(x));
        }
        return;
    }
    let ghost before = v@;
    v.insert(i, x);
    proof {
        assert(v@ == before.take(i as int) + seq![x] + before.skip(i as int));
        assert forall|a: int, b: int| 0 <= a < b < v@.len() implies v@[a] < v@[b] by {
            if a < i && b > i {
                assert(v@[b] == before[b - 1]);
                if i < before.len() {
                    assert(before[i as int] > x);
                    if b - 1 > i {
                        assert(before[i as int] < before[b - 1]);
                    }
                }
            } else if a > i {
                assert(v@[a] == before[a - 1] && v@[b] == before[b - 1]);
            } else if a == i && b > i {
                assert(v@[b] == before[b - 1]);
                assert(before[i as int] > x);
                if b - 1 > i {
                    assert(before[i as int] < before[b - 1]);
                }
            }
        }
        assert forall|y: u32| v@.to_set().contains(y) <==> before.to_set().insert(x).contains(y) by {
            if v@.to_set().contains(y) {
                let k = choose|k: int| 0 <= k < v@.len() && v@[k] == y;
                if k < i {
                    assert(before[k] == y);
                } else if k > i {
                    assert(before[k - 1] == y);
                }
            }
            if before.to_set().contains(y) {
                let k = choose|k: int| 0 <= k < before.len() && before[k] == y;
                if k < i {
                    assert(v@[k] == y);
                } else {
                    assert(v@[k + 1] == y);
                }
            }
            if y == x {
                assert(v@[i as int] == x);
            }
        }
        assert(v@.to_set() =~= before.to_set().insert(x));
    }
}

/// The posts to fetch: the first `limit` distinct post numbers, in increasing order.
pub fn select_post_numbers(seqs: &Vec<u32>, limit: u32) -> (r: Vec<u32>)
    ensures
        strictly_increasing(r@),
        r@.to_set() == first_distinct(seqs@, limit as int).to_set(),
{
    let mut chosen: Vec<u32> = Vec::new();
    let mut sorted: Vec<u32> = Vec::new();
    let mut i: usize = 0;
    while i < seqs.len()
        invariant
            i <= seqs.len(),
            chosen@ == first_distinct(seqs@.take(i as int), limit as int),
            strictly_increasing(sorted@),
            sorted@.to_set() == chosen@.to_set(),
            chosen@.len() <= limit,
        decreases seqs.len() - i,
    {
        let x = seqs[i];
        proof {
            assert(seqs@.take(i + 1).drop_last() == seqs@.take(i as int));
            assert(seqs@.take(i + 1).last() == x);
        }
        let mut found = false;
        let mut k: usize = 0;
        while k < chosen.len()
            invariant
                k <= chosen.len(),
                found <==> exists|j: int| 0 <= j < k && chosen@[j] == x,
            decreases chosen.len() - k,
        {
            if chosen[k] == x {
                found = true;
            }
            k += 1;
        }
        if !found && chosen.len() < limit as usize {
            let ghost before = chosen@;
            chosen.push(x);
            insert_sorted(&mut sorted, x);
            proof {
                before.lemma_push_to_set_commute(x);
            }
        }
        i += 1;
    }
    proof {
        assert(seqs@.take(seqs@.len() as int) == seqs@);
    }
    sorted
}


/// The element of a page that holds its compressed data.
pub const MODEL_TEXTAREA_SELECTOR: &'static str = "textarea#model";
/// The address of the board list API.
pub const BOARD_LIST_PATH: &'static str = "/board/boardList.do";

/// The UTF-16 code units that `lz_str::decompress_from_utf16` gives for a text, or none
/// when the text does not decompress.
pub uninterp spec fn lz_decompressed(input: Seq<char>) -> Option<Seq<u16>>;

/// The text that `lz_str::compress_to_utf16` gives for a text.
pub uninterp spec fn lz_compressed(input: Seq<char>) -> Seq<char>;

/// Whether every character of `s` is at least U+0020, so that its UTF-16 code units are
/// too.
pub open spec fn above_controls(s: Seq<char>) -> bool {
    forall|i: int| 0 <= i < s.len() ==> (s[i] as u32) >= 32
}

/// Whether a UTF-16 code unit opens a surrogate pair.
pub open spec fn is_high_surrogate(u: u16) -> bool {
    0xD800 <= u <= 0xDBFF
}

/// Whether a UTF-16 code unit closes a surrogate pair.
pub open spec fn is_low_surrogate(u: u16) -> bool {
    0xDC00 <= u <= 0xDFFF
}

/// The text that UTF-16 code units encode, or none when a surrogate stands alone.
pub open spec fn utf16_decoded(us: Seq<u16>) -> Option<Seq<char>>
    decreases us.len(),
{
    if us.len() == 0 {
        Some(Seq::empty())
    } else if is_high_surrogate(us[0]) {
        if us.len() >= 2 && is_low_surrogate(us[1]) {
            match utf16_decoded(us.skip(2)) {
                Some(rest) => Some(seq![(0x10000 + (us[0] - 0xD800) * 0x400 + (us[1] - 0xDC00)) as char] + rest),
                None => None,
            }
        } else {
            None
        }
    } else if is_low_surrogate(us[0]) {
        None
    } else {
        match utf16_decoded(us.skip(1)) {
            Some(rest) => Some(seq![us[0] as char] + rest),
            None => None,
        }
    }
}

/// Decompresses a text compressed into UTF-16 (`lz_str::decompress_from_utf16`).
#[verifier::external_body]
fn lz_decompress(input: &str) -> (r: Option<Vec<u16>>)
    requires
        above_controls(input@),
    ensures
        match r {
            Some(v) => lz_decompressed(input@) == Some(v@),
            None => lz_decompressed(input@) is None,
        },
{
    lz_str::decompress_from_utf16(input)
}

/// Compresses a text into UTF-16 (`lz_str::compress_to_utf16`).
#[verifier::external_body]
fn lz_compress(input: &str) -> (r: String)
    ensures
        r@ == lz_compressed(input@),
{
    lz_str::compress_to_utf16(input)
}

/// The text of UTF-16 code units (`String::from_utf16`), or the error's text when a
/// surrogate stands alone; what that text says is not stated here.
#[verifier::external_body]
fn text_of_utf16(units: &Vec<u16>) -> (r: Result<String, String>)
    ensures
        match r {
            Ok(s) => utf16_decoded(units@) == Some(s@),
            Err(_) => utf16_decoded(units@) is None,
        },
{
    String::from_utf16(units).map_err(|e| e.to_string())
}

/// `e` is the study plugin's failure of the kind `kind` with the message `message`.
pub open spec fn custom_error_is(e: PluginError, kind: Seq<char>, message: Seq<char>) -> bool {
    e matches PluginError::Custom { plugin, kind: k, message: m } && plugin@ == IDENTIFIER@ && k@ == kind && m@ == message
}

impl StudyPlugin {
    /// Decompresses data that the site sends compressed into UTF-16: the text of the code
    /// units it decompresses to; refused when it does not decompress, and when those
    /// units are no UTF-16 text.
    pub fn decompress_string(input: &str) -> (r: Result<String, PluginError>)
        requires
            above_controls(input@),
        ensures
            match r {
                Ok(s) => lz_decompressed(input@) matches Some(us) && utf16_decoded(us) == Some(s@),
                Err(e) => match lz_decompressed(input@) {
                    None => custom_error_is(e, "Failed to decompress string"@,
                        "The input string may be corrupted or the compression format has changed"@),
                    Some(us) => utf16_decoded(us) is None && e is Parse,
                },
            },
    {
        let units = match lz_decompress(input) {
            Some(u) => u,
            None => {
                return Err(PluginError::custom(
                    IDENTIFIER,
                    String::from_str("Failed to decompress string"),
                    String::from_str("The input string may be corrupted or the compression format has changed"),
                ));
            },
        };
        match text_of_utf16(&units) {
            Ok(s) => Ok(s),
            Err(m) => Err(PluginError::parse(IDENTIFIER, concat("Failed to parse decompressed data: ", m.as_str()))),
        }
    }

    /// The body of a request to the board API: the request's JSON text, compressed into
    /// UTF-16.
    pub fn compressed_request_body(body: &str) -> (r: String)
        ensures
            r@ == lz_compressed(body@),
    {
        lz_compress(body)
    }

    /// The address of the board list API.
    pub fn board_list_url() -> (r: String)
        ensures
            r@ == API_BASE_URL@ + BOARD_LIST_PATH@,
    {
        concat(API_BASE_URL, BOARD_LIST_PATH)
    }

    /// The compressed data of a page: the text of its first `textarea#model`; refused when
    /// it has none.
    pub fn model_text(html: &str) -> (r: Result<String, PluginError>)
        ensures
            match r {
                Ok(t) => document_matches(html@, MODEL_TEXTAREA_SELECTOR@).len() > 0
                    && t@ == text_concat(document_matches(html@, MODEL_TEXTAREA_SELECTOR@)[0]),
                Err(e) => document_matches(html@, MODEL_TEXTAREA_SELECTOR@).len() == 0
                    && custom_error_is(e, "Failed to find model textarea"@, "The page structure may have changed"@),
            },
    {
        let m = select_in_document(html, MODEL_TEXTAREA_SELECTOR);
        if m.len() == 0 {
            return Err(PluginError::custom(
                IDENTIFIER,
                String::from_str("Failed to find model textarea"),
                String::from_str("The page structure may have changed"),
            ));
        }
        proof {
            assert(crate::text::views(m@)[0] == m@[0]@);
        }
        Ok(text_of_element(m[0].as_str()))
    }

    /// Whether every character of a text is at least U+0020 (see `above_controls`).
    pub fn decompressible(input: &str) -> (b: bool)
        ensures
            b == above_controls(input@),
    {
        let cs = crate::text::chars_of(input);
        let mut i: usize = 0;
        while i < cs.len()
            invariant
                i <= cs.len(),
                cs@ == input@,
                forall|j: int| 0 <= j < i ==> (input@[j] as u32) >= 32,
            decreases cs.len() - i,
        {
            if (cs[i] as u32) < 32 {
                return false;
            }
            i += 1;
        }
        true
    }
}

} // verus!

//! The film department's notices, read from its JSON board.

use vstd::prelude::*;
use crate::datetime::{Timestamp, parsed_date_time, kst_instant, kst_date_time_from_text};
use crate::error::{PluginError, concat};
use crate::post::{Attachment, SsufidPost, opt_view};
use crate::text::{views, chars_of, int_text, int_to_text, parse_unsigned, parse_unsigned_text};
use crate::html::{url_with_pairs, append_query_pairs, pair_views};

verus! {

/// The film department plugin.
pub struct SsfilmPlugin;

/// The plugin's identifier.
pub const IDENTIFIER: &'static str = "ssfilm.ssu.ac.kr";
/// The site's title.
pub const TITLE: &'static str = "숭실대학교 예술창작학부 영화예술전공";
/// The site's description.
pub const DESCRIPTION: &'static str = "숭실대학교 영화예술전공 홈페이지의 공지사항을 제공합니다.";
/// The site's address.
pub const BASE_URL: &'static str = "http://ssfilm.ssu.ac.kr/notice/index";
/// The address of the board's JSON list.
pub const API_BASE_URL: &'static str = "http://ssfilm.ssu.ac.kr/notice/notice_list";
/// The address from which attached files are downloaded.
pub const DOWNLOAD_URL: &'static str = "http://ssfilm.ssu.ac.kr/download_file";
/// The format of the board's dates.
pub const DATETIME_FORMAT: &'static str = "[year]-[month]-[day] [hour]:[minute]:[second]";

/// A post of the board.
#[derive(Clone, Debug)]
pub struct SsfilmPost {
    pub notice_index: String,
    pub category: String,
    pub title: String,
    pub content: String,
    pub reg_id: String,
    pub reg_date: Timestamp,
    pub file_data: String,
    pub org_file: String,
}

/// Reads a date of the board, Korea Standard Time.
pub fn parse_ssfilm_datetime(text: &str) -> (r: Result<Timestamp, PluginError>)
    ensures
        match r {
            Ok(t) => parsed_date_time(text@, DATETIME_FORMAT@) matches Some(f) && t.unix_nanos == kst_instant(f),
            Err(e) => parsed_date_time(text@, DATETIME_FORMAT@) is None && (e is Parse),
        },
{
    match kst_date_time_from_text(text, DATETIME_FORMAT) {
        Some(t) => Ok(t),
        None => Err(PluginError::parse(IDENTIFIER, concat("Invalid date: ", text))),
    }
}

/// The download address of a stored file: the download address with the stored name as
/// `filename` and its upload path as `filepath`.
pub open spec fn file_url_of(file_data: Seq<char>, org_file: Seq<char>) -> Option<Seq<char>> {
    url_with_pairs(DOWNLOAD_URL@, seq![("filename"@, file_data), ("filepath"@, "/resource/upload/notice/"@ + org_file)])
}

/// The download address of a stored file.
pub fn construct_file_url(file_data: &str, org_file: &str) -> (r: Option<String>)
    ensures
        opt_view(r) == file_url_of(file_data@, org_file@),
{
    let mut pairs: Vec<(String, String)> = Vec::new();
    pairs.push((String::from_str("filename"), String::from_str(file_data)));
    pairs.push((String::from_str("filepath"), concat("/resource/upload/notice/", org_file)));
    proof {
        assert(pair_views(pairs@) =~= seq![("filename"@, file_data@), ("filepath"@, "/resource/upload/notice/"@ + org_file@)]);
    }
    append_query_pairs(DOWNLOAD_URL, &pairs)
}

impl SsfilmPost {
    /// The post as the aggregator keeps it: at the site's address, with its stored file,
    /// if any, as its one attachment; refused when the download address cannot be formed.
    pub fn into_post(self) -> (r: Result<SsufidPost, PluginError>)
        ensures
            r is Err <==> self.file_data@.len() > 0 && file_url_of(self.file_data@, self.org_file@) is None,
            r matches Ok(p) ==> {
                &&& p.id == self.notice_index
                &&& p.title == self.title
                &&& p.url@ == BASE_URL@
                &&& opt_view(p.author) == Some(self.reg_id@)
                &&& p.description is None
                &&& views(p.category@) == seq![self.category@]
                &&& p.created_at == self.reg_date
                &&& p.updated_at is None
                &&& p.thumbnail is None
                &&& p.content == self.content
                &&& p.metadata is None
                &&& (if self.file_data@.len() == 0 {
                    p.attachments@.len() == 0
                } else {
                    &&& p.attachments@.len() == 1
                    &&& Some(p.attachments@[0].url@) == file_url_of(self.file_data@, self.org_file@)
                    &&& opt_view(p.attachments@[0].name) == Some(self.org_file@)
                    &&& p.attachments@[0].mime_type is None
                })
            },
    {
        let mut attachments: Vec<Attachment> = Vec::new();
        if self.file_data.as_str().unicode_len() > 0 {
            match construct_file_url(self.file_data.as_str(), self.org_file.as_str()) {
                Some(url) => attachments.push(Attachment { url, name: Some(self.org_file), mime_type: None }),
                None => {
                    return Err(PluginError::parse(IDENTIFIER, String::from_str("Invalid download address")));
                },
            }
        }
        let mut category: Vec<String> = Vec::new();
        category.push(self.category);
        proof {
            assert(views(category@) =~= seq![self.category@]);
        }
        Ok(SsufidPost {
            id: self.notice_index,
            url: String::from_str(BASE_URL),
            author: Some(self.reg_id),
            title: self.title,
            description: None,
            category,
            created_at: self.reg_date,
            updated_at: None,
            thumbnail: None,
            content: self.content,
            attachments,
            metadata: None,
        })
    }
}

/// The address of a list page: the list address, after the first page with the index of
/// the last notice seen as `LastNoticeIndex`.
pub fn list_page_url(base_url: &str, last_notice_index: Option<u32>) -> (u: String)
    ensures
        u@ == (match last_notice_index {
            Some(i) => base_url@ + "?LastNoticeIndex="@ + int_text(i as int),
            None => base_url@,
        }),
{
    match last_notice_index {
        Some(i) => {
            let mut u = concat(base_url, "?LastNoticeIndex=");
            let t = int_to_text(i as i64);
            u.append(t.as_str());
            u
        },
        None => String::from_str(base_url),
    }
}

/// The index to continue the list from after a page whose last notice has the index
/// text `last_index`: that number when it reads as one, otherwise the one before.
pub fn next_notice_index(last_index: &str, previous: Option<u32>) -> (r: Option<u32>)
    ensures
        r == (match parse_unsigned(last_index@, 4_294_967_295) {
            Some(n) => Some(n as u32),
            None => previous,
        }),
{
    let v = chars_of(last_index);
    match parse_unsigned_text(&v, 4_294_967_295) {
        Some(n) => Some(n as u32),
        None => previous,
    }
}

/// Whether the list is read further: fewer than `limit` posts so far, and the last
/// page was not empty.
pub fn wants_more_posts(collected: usize, limit: u32, last_page_len: usize) -> (b: bool)
    ensures
        b == (collected < limit && last_page_len > 0),
{
    collected < limit as usize && last_page_len > 0
}

} // verus!

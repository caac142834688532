//! The library's notices, read from its JSON bulletin API.

use vstd::prelude::*;
use crate::datetime::{Timestamp, parsed_date_time, kst_instant, kst_date_time_from_text};
use crate::error::{PluginError, concat};
use crate::post::{Attachment, SsufidPost, opt_view};
use crate::text::{int_text, int_to_text};

verus! {

/// The library plugin.
pub struct OasisPlugin;

/// The plugin's identifier.
pub const IDENTIFIER: &'static str = "oasis.ssu.ac.kr";
/// The site's title.
pub const TITLE: &'static str = "숭실대학교 도서관";
/// The site's description.
pub const DESCRIPTION: &'static str = "숭실대학교 도서관 홈페이지의 공지사항을 제공합니다.";
/// The site's address.
pub const BASE_URL: &'static str = "https://oasis.ssu.ac.kr/library-services/bulletin/notice";
/// The address of the bulletin API.
pub const API_BASE_URL: &'static str = "https://oasis.ssu.ac.kr/pyxis-api";
/// The format of the bulletin's dates.
pub const DATETIME_FORMAT: &'static str = "[year]-[month]-[day] [hour]:[minute]:[second]";

/// A file attached to a bulletin.
#[derive(Clone, Debug)]
pub struct OasisAttachment {
    pub logical_name: String,
    pub original_image_url: String,
    pub file_type: String,
}

/// A bulletin of the API.
#[derive(Clone, Debug)]
pub struct OasisPost {
    pub id: u32,
    pub title: String,
    pub content: String,
    pub worker_name: String,
    pub date_created: Timestamp,
    pub last_updated: Timestamp,
    pub attachments: Vec<OasisAttachment>,
}

/// Reads a date of the bulletins, Korea Standard Time.
pub fn parse_oasis_datetime(text: &str) -> (r: Result<Timestamp, PluginError>)
    ensures
        match r {
            Ok(t) => parsed_date_time(text@, DATETIME_FORMAT@) matches Some(f) && t.unix_nanos == kst_instant(f),
            Err(e) => parsed_date_time(text@, DATETIME_FORMAT@) is None && (e is Parse),
        },
{
    match kst_date_time_from_text(text, DATETIME_FORMAT) {
        Some(t) => Ok(t),
        None => Err(PluginError::parse(IDENTIFIER, concat("Invalid date: ", text))),
    }
}

/// Accepts an API response that reports success, and refuses one that does not, as a
/// failure of kind `kind`, with its message.
pub fn check_response(success: bool, kind: &str, message: String) -> (r: Result<(), PluginError>)
    ensures
        r is Ok <==> success,
        r matches Err(e) ==> (e matches PluginError::Custom { kind: k, message: m, .. } && k@ == kind@ && m == message),
{
    if success {
        Ok(())
    } else {
        Err(PluginError::custom(IDENTIFIER, String::from_str(kind), message))
    }
}

impl OasisAttachment {
    /// The file as an attachment: its logical name, its image address under the API's,
    /// and its file type.
    pub fn to_attachment(self) -> (a: Attachment)
        ensures
            opt_view(a.name) == Some(self.logical_name@),
            a.url@ == API_BASE_URL@ + self.original_image_url@,
            opt_view(a.mime_type) == Some(self.file_type@),
    {
        let url = concat(API_BASE_URL, self.original_image_url.as_str());
        Attachment { name: Some(self.logical_name), url, mime_type: Some(self.file_type) }
    }
}

impl OasisPost {
    /// The bulletin as the aggregator keeps it.
    pub fn into_post(self) -> (p: SsufidPost)
        ensures
            p.id@ == int_text(self.id as int),
            p.title == self.title,
            p.url@ == BASE_URL@ + "/"@ + int_text(self.id as int),
            opt_view(p.author) == Some(self.worker_name@),
            p.description is None,
            p.category@.len() == 0,
            p.created_at == self.date_created,
            p.updated_at == Some(self.last_updated),
            p.thumbnail is None,
            p.content == self.content,
            p.attachments@.len() == self.attachments@.len(),
            forall|i: int| 0 <= i < self.attachments@.len() ==> {
                let a = #[trigger] self.attachments@[i];
                &&& opt_view(p.attachments@[i].name) == Some(a.logical_name@)
                &&& p.attachments@[i].url@ == API_BASE_URL@ + a.original_image_url@
                &&& opt_view(p.attachments@[i].mime_type) == Some(a.file_type@)
            },
            p.metadata is None,
    {
        let id = int_to_text(self.id as i64);
        let mut url = concat(BASE_URL, "/");
        url.append(id.as_str());
        let ghost src = self.attachments@;
        let mut attachments: Vec<Attachment> = Vec::new();
        for a in it: self.attachments
            invariant
                it.seq() == src,
                attachments@.len() == it.index(),
                forall|i: int| 0 <= i < it.index() ==> {
                    let a = #[trigger] src[i];
                    &&& opt_view(attachments@[i].name) == Some(a.logical_name@)
                    &&& attachments@[i].url@ == API_BASE_URL@ + a.original_image_url@
                    &&& opt_view(attachments@[i].mime_type) == Some(a.file_type@)
                },
        {
            attachments.push(a.to_attachment());
        }
        SsufidPost {
            id,
            url,
            author: Some(self.worker_name),
            title: self.title,
            description: None,
            category: Vec::new(),
            created_at: self.date_created,
            updated_at: Some(self.last_updated),
            thumbnail: None,
            content: self.content,
            attachments,
            metadata: None,
        }
    }
}


/// The bulletin list of the API, up to `max` bulletins, before the number.
pub const LIST_PATH: &'static str = "/1/bulletin-boards/1/bulletins?nameOption=part&isSeq=false&onlyWriter=false&max=";
/// The API address of a bulletin, before its number.
pub const POST_PATH: &'static str = "/1/bulletins/1/";
/// What follows a bulletin's number in its API address.
pub const POST_QUERY: &'static str = "?nameOption=part";

impl OasisPlugin {
    /// The API address of the list of the latest `posts_limit` bulletins.
    pub fn list_url(posts_limit: u32) -> (out: String)
        ensures
            out@ == API_BASE_URL@ + LIST_PATH@ + int_text(posts_limit as int),
    {
        let mut out = concat(API_BASE_URL, LIST_PATH);
        out.append(int_to_text(posts_limit as i64).as_str());
        out
    }

    /// The API address of the bulletin `id`.
    pub fn post_api_url(id: u32) -> (out: String)
        ensures
            out@ == API_BASE_URL@ + POST_PATH@ + int_text(id as int) + POST_QUERY@,
    {
        let mut out = concat(API_BASE_URL, POST_PATH);
        out.append(int_to_text(id as i64).as_str());
        out.append(POST_QUERY);
        out
    }
}

} // verus!

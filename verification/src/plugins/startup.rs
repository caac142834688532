//! The start-up portal's notices, read from its JSON board API.

use vstd::prelude::*;
use crate::datetime::{Timestamp, parsed_date_time, kst_instant, kst_date_time_from_text};
use crate::error::{PluginError, concat};
use crate::post::{Attachment, SsufidPost, opt_view};
use crate::text::{int_text, int_to_text, views};

verus! {

/// The start-up portal plugin.
pub struct StartupPlugin;

/// The plugin's identifier.
pub const IDENTIFIER: &'static str = "startup.ssu.ac.kr";
/// The site's title.
pub const TITLE: &'static str = "숭실대학교 창업포털";
/// The site's description.
pub const DESCRIPTION: &'static str = "숭실대학교 창업포털 홈페이지의 공지사항을 제공합니다.";
/// The site's address.
pub const BASE_URL: &'static str = "https://startup.ssu.ac.kr/board/notice";
/// The address of the board API.
pub const API_BASE_URL: &'static str = "https://startup.ssu.ac.kr/api";
/// The format of the board's dates.
pub const DATETIME_FORMAT: &'static str = "[year]-[month]-[day]T[hour]:[minute]:[second]";

/// A file attached to a post of the board API.
#[derive(Clone, Debug)]
pub struct StartupFile {
    pub file_id: u32,
    pub file_origin_name: String,
}

/// A post of the board API.
#[derive(Clone, Debug)]
pub struct StartupPost {
    pub board_content_id: u32,
    pub board_title: String,
    pub board_content: String,
    pub user_id: String,
    pub notice_yn: bool,
    pub reg_date: Timestamp,
    pub update_date: Timestamp,
    pub category_name: String,
    pub file_list: Vec<StartupFile>,
}

/// Reads a date of the board, Korea Standard Time.
pub fn parse_startup_datetime(text: &str) -> (r: Result<Timestamp, PluginError>)
    ensures
        match r {
            Ok(t) => parsed_date_time(text@, DATETIME_FORMAT@) matches Some(f) && t.unix_nanos == kst_instant(f),
            Err(e) => parsed_date_time(text@, DATETIME_FORMAT@) is None && (e is Parse),
        },
{
    match kst_date_time_from_text(text, DATETIME_FORMAT) {
        Some(t) => Ok(t),
        None => Err(PluginError::parse(IDENTIFIER, concat("Invalid date: ", text))),
    }
}

/// Reads a yes-or-no flag: `Y` or `y` is yes, `N` or `n` is no; anything else is refused.
pub fn parse_yn(text: &str) -> (r: Option<bool>)
    ensures
        r == (if text@ == "Y"@ || text@ == "y"@ {
            Some(true)
        } else if text@ == "N"@ || text@ == "n"@ {
            Some(false)
        } else {
            None
        }),
{
    let t = String::from_str(text);
    if t == String::from_str("Y") || t == String::from_str("y") {
        Some(true)
    } else if t == String::from_str("N") || t == String::from_str("n") {
        Some(false)
    } else {
        None
    }
}

/// Accepts a board response whose code is 200, and refuses another with its message, or
/// `Unknown error`.
pub fn check_response(code: u32, message: Option<String>) -> (r: Result<(), PluginError>)
    ensures
        r is Ok <==> code == 200,
        r matches Err(e) ==> (e matches PluginError::Custom { kind: k, message: m, .. } && k@ == "Failed to fetch posts"@
            && m@ == (match message { Some(t) => t@, None => "Unknown error"@ })),
{
    if code == 200 {
        return Ok(());
    }
    let m = match message {
        Some(t) => t,
        None => String::from_str("Unknown error"),
    };
    Err(PluginError::custom(IDENTIFIER, String::from_str("Failed to fetch posts"), m))
}

impl StartupFile {
    /// The file as an attachment: its original name, at the API's download address.
    pub fn to_attachment(self) -> (a: Attachment)
        ensures
            opt_view(a.name) == Some(self.file_origin_name@),
            a.url@ == API_BASE_URL@ + "/resource/download/"@ + int_text(self.file_id as int),
            a.mime_type is None,
    {
        let mut url = concat(API_BASE_URL, "/resource/download/");
        let id = int_to_text(self.file_id as i64);
        url.append(id.as_str());
        Attachment { name: Some(self.file_origin_name), url, mime_type: None }
    }
}

impl StartupPost {
    /// The post as the aggregator keeps it.
    pub fn into_post(self) -> (p: SsufidPost)
        ensures
            p.id@ == int_text(self.board_content_id as int),
            p.title == self.board_title,
            p.url@ == BASE_URL@ + "/"@ + int_text(self.board_content_id as int) + "?boardEnName=notice"@,
            opt_view(p.author) == Some(self.user_id@),
            p.description is None,
            views(p.category@) == seq![self.category_name@],
            p.created_at == self.reg_date,
            p.updated_at == Some(self.update_date),
            p.thumbnail is None,
            p.content == self.board_content,
            p.attachments@.len() == self.file_list@.len(),
            forall|i: int| 0 <= i < self.file_list@.len() ==> {
                let f = #[trigger] self.file_list@[i];
                &&& opt_view(p.attachments@[i].name) == Some(f.file_origin_name@)
                &&& p.attachments@[i].url@ == API_BASE_URL@ + "/resource/download/"@ + int_text(f.file_id as int)
                &&& p.attachments@[i].mime_type is None
            },
            p.metadata is None,
    {
        let id = int_to_text(self.board_content_id as i64);
        let mut url = concat(BASE_URL, "/");
        url.append(id.as_str());
        url.append("?boardEnName=notice");
        let mut category: Vec<String> = Vec::new();
        category.push(self.category_name);
        proof {
            assert(views(category@) =~= seq![self.category_name@]);
        }
        let ghost files = self.file_list@;
        let mut attachments: Vec<Attachment> = Vec::new();
        for f in it: self.file_list
            invariant
                it.seq() == files,
                attachments@.len() == it.index(),
                forall|i: int| 0 <= i < it.index() ==> {
                    let f = #[trigger] files[i];
                    &&& opt_view(attachments@[i].name) == Some(f.file_origin_name@)
                    &&& attachments@[i].url@ == API_BASE_URL@ + "/resource/download/"@ + int_text(f.file_id as int)
                    &&& attachments@[i].mime_type is None
                },
        {
            attachments.push(f.to_attachment());
        }
        SsufidPost {
            id,
            url,
            author: Some(self.user_id),
            title: self.board_title,
            description: None,
            category,
            created_at: self.reg_date,
            updated_at: Some(self.update_date),
            thumbnail: None,
            content: self.board_content,
            attachments,
            metadata: None,
        }
    }
}


/// The notice list of the API, before the page size.
pub const LIST_PATH: &'static str = "/board/content/list?boardEnName=notice&categoryCodeId&pageNum=1&pageSize=";
/// What follows the page size in the list's address.
pub const LIST_QUERY_END: &'static str = "&searchMonth=";

impl StartupPlugin {
    /// The API address of the first page of `posts_limit` notices.
    pub fn list_url(posts_limit: u32) -> (out: String)
        ensures
            out@ == API_BASE_URL@ + LIST_PATH@ + int_text(posts_limit as int) + LIST_QUERY_END@,
    {
        let mut out = concat(API_BASE_URL, LIST_PATH);
        out.append(int_to_text(posts_limit as i64).as_str());
        out.append(LIST_QUERY_END);
        out
    }
}

} // verus!

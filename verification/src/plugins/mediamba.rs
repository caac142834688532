//! The media business school's notices, read from its JSON board API.

use vstd::prelude::*;
use crate::datetime::{Timestamp, parsed_date_time, kst_instant, kst_date_time_from_text};
use crate::error::{PluginError, concat};
use crate::post::{SsufidPost, opt_view};
use crate::text::{int_text, int_to_text};

verus! {

/// The media business school plugin.
pub struct MediambaPlugin;

/// The plugin's identifier.
pub const IDENTIFIER: &'static str = "mediamba.ssu.ac.kr";
/// The site's title.
pub const TITLE: &'static str = "숭실대학교 미디어경영학부";
/// The site's description.
pub const DESCRIPTION: &'static str = "숭실대학교 미디어경영학부 홈페이지의 공지사항을 제공합니다.";
/// The site's address.
pub const BASE_URL: &'static str = "https://mediamba.ssu.ac.kr/board/notice";
/// The address of the board API.
pub const API_BASE_URL: &'static str = "https://api.mediamba.ssu.ac.kr";
/// The format of the board's dates.
pub const DATETIME_FORMAT: &'static str = "[year]-[month]-[day] [hour]:[minute]:[second]";

/// A post of the board API.
#[derive(Clone, Debug)]
pub struct MediambaPost {
    pub id: u32,
    pub title: String,
    pub content: String,
    pub user_name: String,
    pub created_at: Timestamp,
    pub updated_at: Timestamp,
}

/// Reads a date of the board, Korea Standard Time.
pub fn parse_mediamba_datetime(text: &str) -> (r: Result<Timestamp, PluginError>)
    ensures
        match r {
            Ok(t) => parsed_date_time(text@, DATETIME_FORMAT@) matches Some(f) && t.unix_nanos == kst_instant(f),
            Err(e) => parsed_date_time(text@, DATETIME_FORMAT@) is None && (e is Parse),
        },
{
    match kst_date_time_from_text(text, DATETIME_FORMAT) {
        Some(t) => Ok(t),
        None => Err(PluginError::parse(IDENTIFIER, concat("Invalid date: ", text))),
    }
}

/// Accepts a board response that reports success, and refuses one that does not with
/// its message.
pub fn check_response(success: bool, message: String) -> (r: Result<(), PluginError>)
    ensures
        r is Ok <==> success,
        r matches Err(e) ==> (e matches PluginError::Custom { kind: k, message: m, .. } && k@ == "Failed to fetch posts"@ && m == message),
{
    if success {
        Ok(())
    } else {
        Err(PluginError::custom(IDENTIFIER, String::from_str("Failed to fetch posts"), message))
    }
}

impl MediambaPost {
    /// The post as the aggregator keeps it, with `content_html`, the HTML that the post's
    /// content renders to, as both its description and its content.
    pub fn to_ssufid_post(self, content_html: String) -> (p: SsufidPost)
        ensures
            p.id@ == int_text(self.id as int),
            p.url@ == BASE_URL@ + "/"@ + int_text(self.id as int),
            opt_view(p.author) == Some(self.user_name@),
            p.title == self.title,
            opt_view(p.description) == Some(content_html@),
            p.category@.len() == 0,
            p.created_at == self.created_at,
            p.updated_at == Some(self.updated_at),
            p.thumbnail is None,
            p.content@ == content_html@,
            p.attachments@.len() == 0,
            p.metadata is None,
    {
        let id = int_to_text(self.id as i64);
        let mut url = concat(BASE_URL, "/");
        url.append(id.as_str());
        let description = content_html.clone();
        SsufidPost {
            id,
            url,
            author: Some(self.user_name),
            title: self.title,
            description: Some(description),
            category: Vec::new(),
            created_at: self.created_at,
            updated_at: Some(self.updated_at),
            thumbnail: None,
            content: content_html,
            attachments: Vec::new(),
            metadata: None,
        }
    }
}


/// The board list of the API, before the page size.
pub const LIST_PATH: &'static str = "/v1/board/?page=0&size=";
/// What follows the page size in the list's address.
pub const LIST_QUERY_END: &'static str = "&menuId=89&content=";
/// The address of the service that turns a post's stored content into HTML.
pub const PARSER_HOST: &'static str = "http://localhost:8000";

impl MediambaPlugin {
    /// The API address of the first `posts_limit` posts of the notice board.
    pub fn list_url(posts_limit: u32) -> (out: String)
        ensures
            out@ == API_BASE_URL@ + LIST_PATH@ + int_text(posts_limit as int) + LIST_QUERY_END@,
    {
        let mut out = concat(API_BASE_URL, LIST_PATH);
        out.append(int_to_text(posts_limit as i64).as_str());
        out.append(LIST_QUERY_END);
        out
    }

    /// Whether the content service answered: refused, with the answer's status, when it
    /// did not succeed.
    pub fn check_content_response(success: bool, status: &str) -> (r: Result<(), PluginError>)
        ensures
            r is Ok <==> success,
            r matches Err(e) ==> (e matches PluginError::Parse { plugin: p, message: m }
                && p@ == IDENTIFIER@ && m@ == "Failed to receive content: "@ + status@),
    {
        if success {
            Ok(())
        } else {
            Err(PluginError::parse(IDENTIFIER, concat("Failed to receive content: ", status)))
        }
    }
}

} // verus!

//! The student council's notices, read from its JSON board API.

use vstd::prelude::*;
use crate::datetime::{Timestamp, parsed_date_time, kst_instant, kst_date_time_from_text};
use crate::error::{PluginError, concat};
use crate::post::{SsufidPost, opt_view};
use crate::text::{int_text, int_to_text, views};

verus! {

/// The student council plugin.
pub struct StuPlugin;

/// The plugin's identifier.
pub const IDENTIFIER: &'static str = "stu.ssu.ac.kr";
/// The site's title.
pub const TITLE: &'static str = "숭실대학교 총학생회";
/// The site's description.
pub const DESCRIPTION: &'static str = "숭실대학교 총학생회 홈페이지의 공지사항을 제공합니다.";
/// The site's address.
pub const BASE_URL: &'static str = "https://stu.ssu.ac.kr/notice";
/// The address of the board API.
pub const API_BASE_URL: &'static str = "https://backend.sssupport.shop";
/// The format of the board's dates.
pub const DATETIME_FORMAT: &'static str = "[year]/[month]/[day] [hour]:[minute]:[second]";

/// A post of the board API.
#[derive(Clone, Debug)]
pub struct StuPost {
    pub post_id: u32,
    pub title: String,
    pub content: String,
    pub date: Timestamp,
    pub category: Option<String>,
    pub thumb_nail: Option<String>,
    pub author: String,
}

/// Reads a date of the board, Korea Standard Time.
pub fn parse_stu_datetime(text: &str) -> (r: Result<Timestamp, PluginError>)
    ensures
        match r {
            Ok(t) => parsed_date_time(text@, DATETIME_FORMAT@) matches Some(f) && t.unix_nanos == kst_instant(f),
            Err(e) => parsed_date_time(text@, DATETIME_FORMAT@) is None && (e is Parse),
        },
{
    match kst_date_time_from_text(text, DATETIME_FORMAT) {
        Some(t) => Ok(t),
        None => Err(PluginError::parse(IDENTIFIER, concat("Invalid date: ", text))),
    }
}

/// Accepts a board response that reports success, and refuses one that does not with
/// its message, or `Unknown error`.
pub fn check_response(is_success: bool, message: Option<String>) -> (r: Result<(), PluginError>)
    ensures
        r is Ok <==> is_success,
        r matches Err(e) ==> (e matches PluginError::Custom { kind: k, message: m, .. } && k@ == "Failed to fetch posts"@
            && m@ == (match message { Some(t) => t@, None => "Unknown error"@ })),
{
    if is_success {
        return Ok(());
    }
    let m = match message {
        Some(t) => t,
        None => String::from_str("Unknown error"),
    };
    Err(PluginError::custom(IDENTIFIER, String::from_str("Failed to fetch posts"), m))
}

impl StuPost {
    /// The post as the aggregator keeps it: its address under the site's, no update
    /// instant, its category if it has one.
    pub fn into_post(self) -> (p: SsufidPost)
        ensures
            p.id@ == int_text(self.post_id as int),
            p.title == self.title,
            p.url@ == BASE_URL@ + "/"@ + int_text(self.post_id as int),
            opt_view(p.author) == Some(self.author@),
            p.description is None,
            views(p.category@) == (match self.category { Some(c) => seq![c@], None => Seq::<Seq<char>>::empty() }),
            p.created_at == self.date,
            p.updated_at is None,
            p.thumbnail == self.thumb_nail,
            p.content == self.content,
            p.attachments@.len() == 0,
            p.metadata is None,
    {
        let id = int_to_text(self.post_id as i64);
        let mut url = concat(BASE_URL, "/");
        url.append(id.as_str());
        let mut category: Vec<String> = Vec::new();
        match self.category {
            Some(c) => category.push(c),
            None => {},
        }
        proof {
            assert(views(category@) =~= (match self.category { Some(c) => seq![c@], None => Seq::<Seq<char>>::empty() }));
        }
        SsufidPost {
            id,
            url,
            author: Some(self.author),
            title: self.title,
            description: None,
            category,
            created_at: self.date,
            updated_at: None,
            thumbnail: self.thumb_nail,
            content: self.content,
            attachments: Vec::new(),
            metadata: None,
        }
    }
}

} // verus!

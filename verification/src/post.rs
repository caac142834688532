//! Posts collected from a site, and the site data served for them.

use vstd::prelude::*;
use std::collections::BTreeMap;
use crate::datetime::Timestamp;
use crate::text::{trim, trim_opt, views, trimmed_eq, strings_eq};

verus! {

/// A file attached to a post.
#[derive(Clone, Debug)]
pub struct Attachment {
    pub url: String,
    pub name: Option<String>,
    pub mime_type: Option<String>,
}

/// One post of a site.
#[derive(Clone, Debug)]
pub struct SsufidPost {
    pub id: String,
    pub url: String,
    pub author: Option<String>,
    pub title: String,
    pub description: Option<String>,
    pub category: Vec<String>,
    pub created_at: Timestamp,
    pub updated_at: Option<Timestamp>,
    pub thumbnail: Option<String>,
    pub content: String,
    pub attachments: Vec<Attachment>,
    pub metadata: Option<BTreeMap<String, String>>,
}

/// The posts of one site, with the site's title, address and description.
#[derive(Clone, Debug)]
pub struct SsufidSiteData {
    pub title: String,
    pub source: String,
    pub description: String,
    pub items: Vec<SsufidPost>,
}

/// The view of an optional text.
pub open spec fn opt_view(s: Option<String>) -> Option<Seq<char>> {
    match s {
        Some(t) => Some(t@),
        None => None,
    }
}

/// The MIME type that `mime_guess` gives first for a file name.
pub uninterp spec fn guessed_mime(name: Seq<char>) -> Option<Seq<char>>;

/// The first MIME type that `mime_guess::from_path` guesses for `name`, as text.
#[verifier::external_body]
pub(crate) fn guess_mime(name: &str) -> (r: Option<String>)
    ensures
        opt_view(r) == guessed_mime(name@),
{
    mime_guess::from_path(name).first().map(|m| m.to_string())
}

impl Attachment {
    /// An attachment named `name` at `url`, whose MIME type is guessed from the name.
    pub fn from_guess(name: String, url: String) -> (a: Attachment)
        ensures
            a.url@ == url@,
            opt_view(a.name) == Some(name@),
            opt_view(a.mime_type) == guessed_mime(name@),
    {
        let mime = guess_mime(name.as_str());
        Attachment { url, name: Some(name), mime_type: mime }
    }
}

impl SsufidPost {
    /// Whether two posts carry the same contents: identifier, title and content equal
    /// once trimmed, and the same categories.
    pub open spec fn spec_contents_eq(self, other: SsufidPost) -> bool {
        &&& trim(self.id@) == trim(other.id@)
        &&& trim(self.title@) == trim(other.title@)
        &&& views(self.category@) == views(other.category@)
        &&& trim(self.content@) == trim(other.content@)
    }

    /// Whether two posts carry the same contents.
    pub fn contents_eq(&self, other: &SsufidPost) -> (r: bool)
        ensures
            r == self.spec_contents_eq(*other),
    {
        trimmed_eq(self.id.as_str(), other.id.as_str()) && trimmed_eq(
            self.title.as_str(),
            other.title.as_str(),
        ) && strings_eq(&self.category, &other.category) && trimmed_eq(
            self.content.as_str(),
            other.content.as_str(),
        )
    }
}

/// Two posts carry the same contents exactly when their identifiers, titles and
/// contents agree once trimmed and their categories are the same: a post whose trimmed
/// identifier, title or content, or whose categories, changed never counts as unchanged.
pub proof fn law_post_contents_eq_fields(p: SsufidPost, q: SsufidPost)
    ensures
        trim(p.content@) != trim(q.content@) ==> !p.spec_contents_eq(q),
        trim(p.title@) != trim(q.title@) ==> !p.spec_contents_eq(q),
        trim(p.id@) != trim(q.id@) ==> !p.spec_contents_eq(q),
        views(p.category@) != views(q.category@) ==> !p.spec_contents_eq(q),
        trim(p.id@) == trim(q.id@) && trim(p.title@) == trim(q.title@) && views(p.category@) == views(q.category@)
            && trim(p.content@) == trim(q.content@) ==> p.spec_contents_eq(q),
{
}

/// Sameness of contents is reflexive.
pub proof fn lemma_post_contents_eq_reflexive(p: SsufidPost)
    ensures
        p.spec_contents_eq(p),
{
}

/// Sameness of contents is symmetric.
pub proof fn lemma_post_contents_eq_symmetric(p: SsufidPost, q: SsufidPost)
    ensures
        p.spec_contents_eq(q) == q.spec_contents_eq(p),
{
}

/// Sameness of contents is transitive.
pub proof fn lemma_post_contents_eq_transitive(p: SsufidPost, q: SsufidPost, r: SsufidPost)
    requires
        p.spec_contents_eq(q),
        q.spec_contents_eq(r),
    ensures
        p.spec_contents_eq(r),
{
}

} // verus!

//! Errors of plugins and of runs.

use vstd::prelude::*;

verus! {

/// Why a plugin could not deliver its items.
#[derive(Clone, Debug)]
pub enum PluginError {
    /// A request to the site failed.
    Request { plugin: String, message: String },
    /// What the site sent could not be read.
    Parse { plugin: String, message: String },
    /// Another failure, of the given kind.
    Custom { plugin: String, kind: String, message: String },
}

impl PluginError {
    /// A failed request of the plugin `plugin`.
    pub fn request(plugin: &str, message: String) -> (e: PluginError)
        ensures
            e matches PluginError::Request { plugin: p, message: m } && p@ == plugin@ && m == message,
    {
        PluginError::Request { plugin: String::from_str(plugin), message }
    }

    /// Unreadable content met by the plugin `plugin`.
    pub fn parse(plugin: &str, message: String) -> (e: PluginError)
        ensures
            e matches PluginError::Parse { plugin: p, message: m } && p@ == plugin@ && m == message,
    {
        PluginError::Parse { plugin: String::from_str(plugin), message }
    }

    /// Another failure of the kind `kind` met by the plugin `plugin`.
    pub fn custom(plugin: &str, kind: String, message: String) -> (e: PluginError)
        ensures
            e matches PluginError::Custom { plugin: p, kind: k, message: m } && p@ == plugin@ && k == kind && m == message,
    {
        PluginError::Custom { plugin: String::from_str(plugin), kind, message }
    }
}

/// Why a run failed.
#[derive(Clone, Debug)]
pub enum Error {
    /// Every allowed crawl of the plugin with this identifier failed.
    AttemptsExceeded(String),
    /// A plugin failed.
    Plugin(PluginError),
}

/// The text `a` followed by `b`.
pub fn concat(a: &str, b: &str) -> (s: String)
    ensures
        s@ == a@ + b@,
{
    let mut s = String::from_str(a);
    s.append(b);
    s
}

} // verus!

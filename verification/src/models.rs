//! Domain model: source kinds, errors, and the normalized project record.
//!
//! Timestamps are microseconds since the Unix epoch, UTC.

use vstd::prelude::*;

use crate::text::{chars_of, push_str, signed_decimal, signed_decimal_chars, push_all, string_of};

verus! {

/// A JSON document carried through unchanged (raw payloads and project metadata).
#[verifier::external_type_specification]
#[verifier::external_body]
pub struct ExJsonValue(serde_json::Value);

/// `serde_json::Value::clone`: the derived deep copy, equal to the value it copies.
pub assume_specification[ <serde_json::Value as Clone>::clone ](v: &serde_json::Value) -> (r:
    serde_json::Value)
    ensures
        r == *v,
;

/// The collection sources.
#[derive(Debug, Clone, Copy, PartialEq, Eq, Hash, Structural)]
pub enum SourceKind {
    Github,
    Hackernews,
}

impl SourceKind {
    /// The lowercase name of the source, as stored in the database.
    pub fn as_str(&self) -> (s: &'static str)
        ensures
            s@ == (match self {
                SourceKind::Github => "github"@,
                SourceKind::Hackernews => "hackernews"@,
            }),
    {
        match self {
            SourceKind::Github => "github",
            SourceKind::Hackernews => "hackernews",
        }
    }
}

/// Errors of a collection source.
#[derive(Debug, Clone, PartialEq, Eq)]
pub enum SourceError {
    /// The source answered that the client is rate limited.
    RateLimited,
    /// The collection was cancelled.
    Cancelled,
    /// Any other failure, with its message.
    Other(String),
}

impl SourceError {
    /// The message of the error: `rate limited`, `cancelled`, or `source error: {m}`.
    pub fn message(&self) -> (r: String)
        ensures
            r@ == match self {
                SourceError::RateLimited => "rate limited"@,
                SourceError::Cancelled => "cancelled"@,
                SourceError::Other(m) => "source error: "@ + m@,
            },
    {
        match self {
            SourceError::RateLimited => string_of(&chars_of("rate limited")),
            SourceError::Cancelled => string_of(&chars_of("cancelled")),
            SourceError::Other(m) => {
                let mut v = chars_of("source error: ");
                push_str(&mut v, m.as_str());
                string_of(&v)
            },
        }
    }
}

/// Errors of a notification channel.
#[derive(Debug, Clone, PartialEq, Eq)]
pub enum NotifyError {
    /// The HTTP exchange failed.
    Http(String),
    /// The channel answered with a non-zero code.
    Api { code: i64, message: String },
    /// The channel is not configured.
    NotConfigured,
}

impl NotifyError {
    /// The message of the error: `http error: {m}`, `api error: code={code}
    /// message={message}`, or `not configured`.
    pub fn message(&self) -> (r: String)
        ensures
            r@ == match self {
                NotifyError::Http(m) => "http error: "@ + m@,
                NotifyError::Api { code, message } => "api error: code="@ + signed_decimal(
                    *code as int,
                ) + " message="@ + message@,
                NotifyError::NotConfigured => "not configured"@,
            },
    {
        match self {
            NotifyError::Http(m) => {
                let mut v = chars_of("http error: ");
                push_str(&mut v, m.as_str());
                string_of(&v)
            },
            NotifyError::Api { code, message } => {
                let mut v = chars_of("api error: code=");
                let d = signed_decimal_chars(*code);
                push_all(&mut v, &d);
                push_str(&mut v, " message=");
                push_str(&mut v, message.as_str());
                string_of(&v)
            },
            NotifyError::NotConfigured => string_of(&chars_of("not configured")),
        }
    }
}

/// A project record normalized across sources: the deduplication key plus the fields
/// every source maps onto. The input of the project upsert.
#[derive(Debug, Clone, PartialEq, Eq)]
pub struct NormalizedRecord {
    pub dedup_key: String,
    pub name: String,
    pub full_name: Option<String>,
    pub description: Option<String>,
    pub repo_url: Option<String>,
    pub homepage_url: Option<String>,
    pub language: Option<String>,
    pub topics: Vec<String>,
    pub stars: Option<i64>,
    pub forks: Option<i64>,
    pub open_issues: Option<i64>,
    pub hn_points: Option<i64>,
    pub hn_comment_count: Option<i64>,
    pub github_created_at: Option<i64>,
    pub github_updated_at: Option<i64>,
    pub last_activity_at: Option<i64>,
    pub source_kind: SourceKind,
    /// Source-specific fields that are not normalized.
    pub metadata: serde_json::Value,
}

} // verus!

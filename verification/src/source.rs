//! Raw items as the collection sources deliver them.
//!
//! Timestamps are microseconds since the Unix epoch, UTC.

use vstd::prelude::*;

verus! {

/// A GitHub repository as the search API describes it.
#[derive(Debug, Clone)]
pub struct GithubRepoRaw {
    /// `owner/repo`.
    pub full_name: String,
    pub name: String,
    pub description: Option<String>,
    pub html_url: String,
    pub homepage: Option<String>,
    pub language: Option<String>,
    pub topics: Vec<String>,
    pub stargazers_count: i64,
    pub forks_count: i64,
    pub open_issues_count: i64,
    pub created_at: i64,
    pub updated_at: i64,
    pub node_id: Option<String>,
    /// The source fields that are not normalized, kept as metadata.
    pub extra: serde_json::Value,
}

/// A Hacker News story.
#[derive(Debug, Clone)]
pub struct HnStoryRaw {
    /// The Algolia `objectID`.
    pub object_id: String,
    /// `https://news.ycombinator.com/item?id=...`.
    pub hn_url: String,
    /// The link the story points to; none for Ask/Show HN posts.
    pub linked_url: Option<String>,
    pub title: String,
    pub author: Option<String>,
    pub points: Option<i64>,
    pub comment_count: Option<i64>,
    pub posted_at: Option<i64>,
    pub extra: serde_json::Value,
}

/// An item produced by a collection source.
#[derive(Debug, Clone)]
pub enum RawItem {
    GithubRepo(GithubRepoRaw),
    HnStory(HnStoryRaw),
}

} // verus!

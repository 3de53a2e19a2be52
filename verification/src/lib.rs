//! Open Source Radar: the domain logic of a collector that gathers open source
//! projects from GitHub and Hacker News, merges them under one deduplication key,
//! and serves ranked, filtered listings and a daily digest.

pub mod text;
pub mod models;
pub mod source;
pub mod normalize;
pub mod token;
pub mod collect;
pub mod digest;
pub mod config;
pub mod query;
pub mod api;
pub mod notify;

//! The decisions of the HTTP endpoints: error statuses, admin authorization, the
//! source named in a manual collection, and the health report.

use vstd::prelude::*;

use crate::models::SourceKind;
use crate::text::{chars_of, push_str, string_of, text_eq};

verus! {

/// The errors an endpoint answers with.
#[derive(Debug, Clone, PartialEq, Eq)]
pub enum ApiError {
    /// The admin token is missing or wrong.
    Unauthorized,
    /// The requested project does not exist.
    NotFound,
    /// The request is malformed; the message says why.
    BadRequest(String),
    /// The server failed; the message says how.
    Internal(String),
}

impl ApiError {
    /// The HTTP status of the error.
    pub fn status_code(&self) -> (s: u16)
        ensures
            s == match self {
                ApiError::Unauthorized => 401u16,
                ApiError::NotFound => 404u16,
                ApiError::BadRequest(_) => 400u16,
                ApiError::Internal(_) => 500u16,
            },
    {
        match self {
            ApiError::Unauthorized => 401,
            ApiError::NotFound => 404,
            ApiError::BadRequest(_) => 400,
            ApiError::Internal(_) => 500,
        }
    }

    /// The message the error is answered with: `unauthorized`, `not found`, or the
    /// message the error carries.
    pub fn message(&self) -> (r: String)
        ensures
            r@ == match self {
                ApiError::Unauthorized => "unauthorized"@,
                ApiError::NotFound => "not found"@,
                ApiError::BadRequest(m) => m@,
                ApiError::Internal(m) => m@,
            },
    {
        match self {
            ApiError::Unauthorized => string_of(&chars_of("unauthorized")),
            ApiError::NotFound => string_of(&chars_of("not found")),
            ApiError::BadRequest(m) => string_of(&chars_of(m.as_str())),
            ApiError::Internal(m) => string_of(&chars_of(m.as_str())),
        }
    }
}

/// The `X-Admin-Token` header (absent or unreadable counts as empty) equals the
/// configured admin token.
pub open spec fn admin_ok(provided: Option<Seq<char>>, expected: Seq<char>) -> bool {
    match provided {
        Some(p) => p == expected,
        None => expected.len() == 0,
    }
}

/// The view of an optional header value.
pub open spec fn header_view(provided: Option<&str>) -> Option<Seq<char>> {
    match provided {
        Some(p) => Some(p@),
        None => None,
    }
}

/// Only the configured admin token authorizes: a header with another value never does,
/// a header with that value always does, and a missing header only while no token is
/// configured.
pub proof fn lemma_only_admin_token_authorizes(provided: Seq<char>, expected: Seq<char>)
    ensures
        admin_ok(Some(provided), expected) <==> provided == expected,
        admin_ok(None, expected) <==> expected.len() == 0,
{
}

/// Whether the admin token header authorizes the request (see [`admin_ok`]).
pub fn admin_authorized(provided: Option<&str>, expected: &str) -> (b: bool)
    ensures
        b == admin_ok(header_view(provided), expected@),
{
    match provided {
        Some(p) => text_eq(p, expected),
        None => expected.is_empty(),
    }
}

/// The source a manual collection names: `github` or `hackernews`.
pub open spec fn source_named(s: Seq<char>) -> Option<SourceKind> {
    if s == "github"@ {
        Some(SourceKind::Github)
    } else if s == "hackernews"@ {
        Some(SourceKind::Hackernews)
    } else {
        None
    }
}

/// Decides a manual collection request: unauthorized unless the admin token matches;
/// then the named source, or a bad request `unknown source: {source}`.
pub fn collect_request(provided: Option<&str>, expected: &str, source: &str) -> (r: Result<
    SourceKind,
    ApiError,
>)
    ensures
        !admin_ok(header_view(provided), expected@) ==> r == Err::<SourceKind, ApiError>(
            ApiError::Unauthorized,
        ),
        admin_ok(header_view(provided), expected@) ==> match source_named(source@) {
            Some(k) => r == Ok::<SourceKind, ApiError>(k),
            None => (r matches Err(ApiError::BadRequest(m)) && m@ == "unknown source: "@
                + source@),
        },
{
    if !admin_authorized(provided, expected) {
        return Err(ApiError::Unauthorized);
    }
    if text_eq(source, "github") {
        Ok(SourceKind::Github)
    } else if text_eq(source, "hackernews") {
        Ok(SourceKind::Hackernews)
    } else {
        let mut m = chars_of("unknown source: ");
        push_str(&mut m, source);
        Err(ApiError::BadRequest(string_of(&m)))
    }
}

/// Decides a manual digest request: unauthorized unless the admin token matches; a bad
/// request when no notification channel is configured.
pub fn digest_request(provided: Option<&str>, expected: &str, configured: bool) -> (r: Result<
    (),
    ApiError,
>)
    ensures
        !admin_ok(header_view(provided), expected@) ==> r == Err::<(), ApiError>(
            ApiError::Unauthorized,
        ),
        admin_ok(header_view(provided), expected@) && configured ==> r is Ok,
        admin_ok(header_view(provided), expected@) && !configured ==> (r matches Err(
            ApiError::BadRequest(m),
        ) && m@ == "推送未配置（SERVERCHAN_SENDKEY 为空）"@),
{
    if !admin_authorized(provided, expected) {
        return Err(ApiError::Unauthorized);
    }
    if !configured {
        return Err(ApiError::BadRequest(string_of(&chars_of("推送未配置（SERVERCHAN_SENDKEY 为空）"))));
    }
    Ok(())
}

/// The health report: `status` is `ok` or `degraded` and `db` is `ok` or `down`,
/// according to whether the database answers.
pub fn health_status(db_ok: bool) -> (r: (&'static str, &'static str))
    ensures
        db_ok ==> r.0@ == "ok"@ && r.1@ == "ok"@,
        !db_ok ==> r.0@ == "degraded"@ && r.1@ == "down"@,
{
    if db_ok {
        ("ok", "ok")
    } else {
        ("degraded", "down")
    }
}

} // verus!

use openradar::api::{admin_authorized, collect_request, digest_request, health_status, ApiError};
use openradar::models::SourceKind;
use openradar::notify::{serverchan_base_url, serverchan_endpoint, serverchan_reply, serverchan_status};
use openradar::models::{NotifyError, SourceError};

#[test]
fn admin_collect_decisions() {
    assert_eq!(collect_request(None, "secret", "github"), Err(ApiError::Unauthorized));
    assert_eq!(collect_request(Some("wrong"), "secret", "github"), Err(ApiError::Unauthorized));
    assert_eq!(
        collect_request(Some("secret"), "secret", "reddit"),
        Err(ApiError::BadRequest("unknown source: reddit".into()))
    );
    assert_eq!(collect_request(Some("secret"), "secret", "github"), Ok(SourceKind::Github));
    assert_eq!(collect_request(Some("secret"), "secret", "hackernews"), Ok(SourceKind::Hackernews));
    assert_eq!(collect_request(Some("wrong"), "secret", "reddit"), Err(ApiError::Unauthorized));
}

#[test]
fn admin_digest_decisions() {
    assert_eq!(digest_request(None, "s", true), Err(ApiError::Unauthorized));
    assert_eq!(
        digest_request(Some("s"), "s", false),
        Err(ApiError::BadRequest("推送未配置（SERVERCHAN_SENDKEY 为空）".into()))
    );
    assert_eq!(digest_request(Some("s"), "s", true), Ok(()));
}

#[test]
fn missing_header_matches_only_empty_token() {
    assert!(admin_authorized(None, ""));
    assert!(!admin_authorized(None, "x"));
    assert!(admin_authorized(Some("x"), "x"));
}

#[test]
fn error_statuses() {
    assert_eq!(ApiError::Unauthorized.status_code(), 401);
    assert_eq!(ApiError::NotFound.status_code(), 404);
    assert_eq!(ApiError::BadRequest("x".into()).status_code(), 400);
    assert_eq!(ApiError::Internal("x".into()).status_code(), 500);
}

#[test]
fn health_reports() {
    assert_eq!(health_status(true), ("ok", "ok"));
    assert_eq!(health_status(false), ("degraded", "down"));
}

#[test]
fn serverchan_reply_reading() {
    assert_eq!(serverchan_reply(Some(0), Some("ok".into())), Ok(()));
    assert_eq!(
        serverchan_reply(Some(40001), Some("bad sendkey".into())),
        Err(NotifyError::Api { code: 40001, message: "bad sendkey".into() })
    );
    assert_eq!(
        serverchan_reply(None, None),
        Err(NotifyError::Api { code: -1, message: "unknown".into() })
    );
    assert_eq!(serverchan_endpoint(&serverchan_base_url(), "SCT123"), "https://sct.ftqq.com/SCT123.send");
}

#[test]
fn error_messages() {
    assert_eq!(ApiError::Unauthorized.message(), "unauthorized");
    assert_eq!(ApiError::NotFound.message(), "not found");
    assert_eq!(ApiError::BadRequest("unknown source: reddit".into()).message(), "unknown source: reddit");
    assert_eq!(ApiError::Internal("db down".into()).message(), "db down");
    assert_eq!(SourceError::RateLimited.message(), "rate limited");
    assert_eq!(SourceError::Cancelled.message(), "cancelled");
    assert_eq!(SourceError::Other("github status 500".into()).message(), "source error: github status 500");
    assert_eq!(NotifyError::Http("timeout".into()).message(), "http error: timeout");
    assert_eq!(NotifyError::NotConfigured.message(), "not configured");
    let api = NotifyError::Api { code: 40001, message: "bad sendkey".into() };
    assert_eq!(api.message(), "api error: code=40001 message=bad sendkey");
    let neg = NotifyError::Api { code: -1, message: "unknown".into() };
    assert_eq!(neg.message(), "api error: code=-1 message=unknown");
    let min = NotifyError::Api { code: i64::MIN, message: String::new() };
    assert_eq!(min.message(), format!("api error: code={} message=", i64::MIN));
    assert_eq!(NotifyError::Http("x".into()).message(), format!("http error: {}", "x"));
}

#[test]
fn send_success_returns_ok() {
    assert_eq!(serverchan_endpoint("http://mock", "SCT123"), "http://mock/SCT123.send");
    assert_eq!(serverchan_status(200, "200 OK"), Ok(()));
    assert_eq!(serverchan_reply(Some(0), Some("ok".into())), Ok(()));
}

#[test]
fn send_api_error_returns_api_variant() {
    assert_eq!(serverchan_status(200, "200 OK"), Ok(()));
    let err = serverchan_reply(Some(40001), Some("bad sendkey".into())).unwrap_err();
    match err {
        NotifyError::Api { code, message } => {
            assert_eq!(code, 40001);
            assert_eq!(message, "bad sendkey");
        }
        other => panic!("expected Api, got {other:?}"),
    }
}

#[test]
fn send_http_error_on_5xx() {
    let err = serverchan_status(500, "500 Internal Server Error").unwrap_err();
    assert!(matches!(err, NotifyError::Http(_)));
    assert_eq!(err, NotifyError::Http("serverchan status 500 Internal Server Error".into()));
    assert!(serverchan_status(299, "299").is_ok());
    assert!(serverchan_status(199, "199").is_err());
    assert!(serverchan_status(300, "300 Multiple Choices").is_err());
}

#[test]
fn admin_auth_and_validation() {
    // no token, then a wrong one: 401
    assert_eq!(collect_request(None, "secret", "github").unwrap_err().status_code(), 401);
    assert_eq!(collect_request(Some("wrong"), "secret", "github").unwrap_err().status_code(), 401);
    // the right token and an unknown source: 400
    assert_eq!(collect_request(Some("secret"), "secret", "reddit").unwrap_err().status_code(), 400);
    // the right token and a known source: accepted
    assert_eq!(collect_request(Some("secret"), "secret", "github"), Ok(SourceKind::Github));
}

use openradar::collect::{
    bearer, find_source, github_reply_status, github_status_class, hn_reply_status,
    hn_status_class, GithubSearch, HitJson, HnSearch,
    PageStep, Pager, PersistRun, PersistStep, RepoJson, Retry, RetryStep, StatusClass,
    EARLIEST_DATE_MICROS, INITIAL_BACKOFF_SECS, LATEST_DATE_MICROS, MAX_ATTEMPTS,
};
use openradar::models::{SourceError, SourceKind};
use openradar::source::RawItem;
use openradar::token::TokenRotator;

fn pairs(v: &[(String, String)]) -> Vec<(&str, &str)> {
    v.iter().map(|(a, b)| (a.as_str(), b.as_str())).collect()
}

#[test]
fn github_search_clamps_page_size() {
    assert_eq!(GithubSearch::new("u".into(), "q".into(), 0, 3).per_page, 1);
    assert_eq!(GithubSearch::new("u".into(), "q".into(), 500, 3).per_page, 100);
    assert_eq!(GithubSearch::new("u".into(), "q".into(), 42, 3).per_page, 42);
    assert_eq!(HnSearch::new("u".into(), "story".into(), None, 0, 2).hits_per_page, 1);
    assert_eq!(HnSearch::new("u".into(), "story".into(), None, 99, 2).hits_per_page, 50);
}

#[test]
fn github_request_parameters() {
    let s = GithubSearch::new("https://api.github.com".into(), "stars:>50".into(), 100, 3);
    assert_eq!(s.endpoint(), "https://api.github.com/search/repositories");
    let p = s.params("stars:>50", 2);
    assert_eq!(
        pairs(&p),
        vec![
            ("q", "stars:>50"),
            ("sort", "stars"),
            ("order", "desc"),
            ("per_page", "100"),
            ("page", "2")
        ]
    );
    assert_eq!(bearer("t1"), "Bearer t1");
}

#[test]
fn hn_request_parameters() {
    let s = HnSearch::new("https://hn".into(), "story".into(), Some("points>=50".into()), 2, 5);
    assert_eq!(s.endpoint(), "https://hn/search");
    assert_eq!(
        pairs(&s.params(0)),
        vec![("tags", "story"), ("hitsPerPage", "2"), ("page", "0"), ("numericFilters", "points>=50")]
    );
    let s = HnSearch::new("https://hn".into(), "story".into(), None, 50, 2);
    assert_eq!(pairs(&s.params(1)), vec![("tags", "story"), ("hitsPerPage", "50"), ("page", "1")]);
}

#[test]
fn status_classes() {
    assert_eq!(github_status_class(200), StatusClass::Success);
    assert_eq!(github_status_class(429), StatusClass::RateLimited);
    assert_eq!(github_status_class(403), StatusClass::RateLimited);
    assert_eq!(github_status_class(500), StatusClass::Failed);
    assert_eq!(hn_status_class(429), StatusClass::RateLimited);
    assert_eq!(hn_status_class(403), StatusClass::Failed);
    assert_eq!(hn_status_class(204), StatusClass::Success);
}

#[test]
fn github_pages_until_short_page() {
    let mut p = Pager::new(1, 5, 2);
    assert_eq!(p.next_step(false), PageStep::Fetch(1));
    p.record_page(2, 0);
    assert_eq!(p.next_step(false), PageStep::Fetch(2));
    p.record_page(1, 0);
    assert_eq!(p.next_step(false), PageStep::Finished);
}

#[test]
fn hn_pages_stop_at_last_page() {
    let mut p = Pager::new(0, 5, 2);
    assert_eq!(p.next_step(false), PageStep::Fetch(0));
    p.record_page(2, 1);
    assert_eq!(p.next_step(false), PageStep::Finished);
}

#[test]
fn pages_stop_at_max_and_on_cancel() {
    let mut p = Pager::new(1, 2, 1);
    p.record_page(1, 0);
    p.record_page(1, 0);
    assert_eq!(p.next_step(false), PageStep::Finished);
    let p = Pager::new(1, 2, 1);
    assert_eq!(p.next_step(true), PageStep::Cancelled);
    let p = Pager::new(1, 0, 1);
    assert_eq!(p.next_step(true), PageStep::Finished);
}

#[test]
fn retry_backs_off_then_gives_up() {
    assert_eq!(MAX_ATTEMPTS, 3);
    let mut r = Retry::new();
    assert_eq!(r.backoff_secs, INITIAL_BACKOFF_SECS);
    assert_eq!(r.before_attempt(false), RetryStep::Attempt);
    assert_eq!(r.on_failure(false), RetryStep::Backoff(2));
    assert_eq!(r.on_failure(false), RetryStep::Backoff(4));
    assert_eq!(r.on_failure(false), RetryStep::Exhausted);
    let mut r = Retry::new();
    assert_eq!(r.on_failure(true), RetryStep::Cancelled);
    assert_eq!(r.before_attempt(true), RetryStep::Cancelled);
}

#[test]
fn persist_run_counts_and_stops() {
    let mut run = PersistRun::new(3);
    assert_eq!(run.next_step(false), PersistStep::Persist(0));
    run.record(true);
    assert_eq!(run.next_step(false), PersistStep::Persist(1));
    run.record(false);
    assert_eq!(run.next_step(true), PersistStep::Stop);
    assert_eq!(run.persisted, 1);
    run.record(true);
    assert_eq!(run.next_step(false), PersistStep::Stop);
    assert_eq!(run.persisted, 2);
}

#[test]
fn find_source_first_match() {
    let kinds = vec![SourceKind::Github, SourceKind::Hackernews, SourceKind::Github];
    assert_eq!(find_source(&kinds, SourceKind::Hackernews), Some(1));
    assert_eq!(find_source(&kinds, SourceKind::Github), Some(0));
    assert_eq!(find_source(&vec![SourceKind::Github], SourceKind::Hackernews), None);
}

#[test]
fn hit_into_raw() {
    let h = HitJson {
        object_id: "9".into(),
        title: None,
        url: None,
        author: Some("bob".into()),
        points: Some(120),
        num_comments: Some(45),
        created_at: Some(5),
    };
    let s = h.into_raw(serde_json::Value::Null);
    assert_eq!(s.hn_url, "https://news.ycombinator.com/item?id=9");
    assert_eq!(s.title, "");
    assert!(s.linked_url.is_none());
    assert_eq!(s.points, Some(120));
    assert_eq!(s.comment_count, Some(45));
}

#[test]
fn repo_into_raw() {
    let r = RepoJson {
        node_id: Some("N1".into()),
        name: "b".into(),
        full_name: "a/b".into(),
        html_url: "https://github.com/a/b".into(),
        description: None,
        homepage: None,
        language: Some("Rust".into()),
        topics: None,
        stargazers_count: 100,
        forks_count: 10,
        open_issues_count: 1,
        created_at: 1,
        updated_at: 2,
    };
    let g = r.into_raw(serde_json::Value::Null);
    assert_eq!(g.full_name, "a/b");
    assert!(g.topics.is_empty());
    assert_eq!(g.stargazers_count, 100);
    assert_eq!(g.updated_at, 2);
}

#[test]
fn github_query_narrowed_by_push_day() {
    let s = GithubSearch::new("https://api.github.com".into(), "stars:>10".into(), 2, 5);
    assert_eq!(s.build_query(None), "stars:>10");
    // 2026-01-02T10:00:00Z
    assert_eq!(s.build_query(Some(1_767_348_000_000_000)), "stars:>10 pushed:>2026-01-02");
    // 1969-12-31T23:00:00Z
    assert_eq!(s.build_query(Some(-3_600_000_000)), "stars:>10 pushed:>1969-12-31");
    // the ends of the range chrono represents
    let last = s.build_query(Some(LATEST_DATE_MICROS));
    assert!(last.starts_with("stars:>10 pushed:>") && last.ends_with("262142-12-31"), "{last}");
    // the bounds are chrono's own, and one microsecond beyond is no longer a date
    assert_eq!(chrono::DateTime::<chrono::Utc>::MAX_UTC.timestamp_micros(), LATEST_DATE_MICROS);
    assert_eq!(chrono::DateTime::<chrono::Utc>::MIN_UTC.timestamp_micros(), EARLIEST_DATE_MICROS);
    assert!(chrono::DateTime::from_timestamp_micros(LATEST_DATE_MICROS + 1).is_none());
    assert!(chrono::DateTime::from_timestamp_micros(EARLIEST_DATE_MICROS - 1).is_none());
    let first = s.build_query(Some(EARLIEST_DATE_MICROS));
    assert!(first.starts_with("stars:>10 pushed:>") && first.ends_with("262143-01-01"), "{first}");
}

fn repo(full_name: &str, stars: i64) -> RepoJson {
    RepoJson {
        node_id: Some("N1".into()),
        name: full_name.rsplit('/').next().unwrap().into(),
        full_name: full_name.into(),
        html_url: format!("https://github.com/{full_name}"),
        description: Some("desc".into()),
        homepage: Some("https://example.com".into()),
        language: Some("Rust".into()),
        topics: Some(vec!["async".into()]),
        stargazers_count: stars,
        forks_count: 10,
        open_issues_count: 1,
        created_at: 1_767_225_600_000_000,
        updated_at: 1_767_312_000_000_000,
    }
}

fn hit(id: &str, url: Option<&str>) -> HitJson {
    HitJson {
        object_id: id.into(),
        title: Some(format!("Story {id}")),
        url: url.map(Into::into),
        author: Some("bob".into()),
        points: Some(120),
        num_comments: Some(45),
        created_at: Some(1_767_225_600_000_000),
    }
}

/// A GitHub fetch by the library's rules over canned replies: the reply to page `p`
/// is `replies[p - 1]`, the last one standing for every later page.
fn github_fetch(
    search: &GithubSearch,
    tokens: &mut TokenRotator,
    status: u16,
    replies: &[Vec<RepoJson>],
    cancelled: bool,
) -> Result<Vec<RawItem>, SourceError> {
    let mut pager = Pager::new(1, search.max_pages, search.per_page);
    let mut out = Vec::new();
    loop {
        match pager.next_step(cancelled) {
            PageStep::Finished => return Ok(out),
            PageStep::Cancelled => return Err(SourceError::Cancelled),
            PageStep::Fetch(page) => {
                github_reply_status(status, &status.to_string(), tokens)?;
                let reply = &replies[(page as usize - 1).min(replies.len() - 1)];
                for r in reply {
                    out.push(RawItem::GithubRepo(r.clone().into_raw(serde_json::Value::Null)));
                }
                pager.record_page(reply.len(), 0);
            }
        }
    }
}

/// A Hacker News fetch by the library's rules over one canned reply for every page.
fn hn_fetch(search: &HnSearch, status: u16, hits: &[HitJson], nb_pages: u32) -> Result<Vec<RawItem>, SourceError> {
    let mut pager = Pager::new(0, search.max_pages, search.hits_per_page);
    let mut out = Vec::new();
    loop {
        match pager.next_step(false) {
            PageStep::Finished => return Ok(out),
            PageStep::Cancelled => return Err(SourceError::Cancelled),
            PageStep::Fetch(_) => {
                hn_reply_status(status, &status.to_string())?;
                for h in hits {
                    out.push(RawItem::HnStory(h.clone().into_raw(serde_json::Value::Null)));
                }
                pager.record_page(hits.len(), nb_pages);
            }
        }
    }
}

fn github_search() -> GithubSearch {
    GithubSearch::new("http://mock".into(), "stars:>10".into(), 2, 5)
}

fn hn_search() -> HnSearch {
    HnSearch::new("http://mock".into(), "story".into(), Some("points>=50".into()), 2, 5)
}

#[test]
fn fetch_parses_pages_until_short_page() {
    let mut tokens = TokenRotator::new(vec!["t1".into(), "t2".into()]);
    let replies = vec![vec![repo("a/b", 100), repo("c/d", 90)], vec![repo("e/f", 80)]];
    let items = github_fetch(&github_search(), &mut tokens, 200, &replies, false).unwrap();
    assert_eq!(items.len(), 3);
    match &items[0] {
        RawItem::GithubRepo(g) => {
            assert_eq!(g.full_name, "a/b");
            assert_eq!(g.stargazers_count, 100);
        }
        _ => panic!("expected github repo"),
    }
}

#[test]
fn rate_limit_returns_error_and_rotates() {
    let mut tokens = TokenRotator::new(vec!["t1".into(), "t2".into()]);
    let search = GithubSearch::new("http://mock".into(), "stars:>10".into(), 10, 5);
    let err = github_fetch(&search, &mut tokens, 429, &[vec![]], false).unwrap_err();
    assert!(matches!(err, SourceError::RateLimited));
    assert_eq!(tokens.current().as_deref(), Some("t2"));
    assert_eq!(search.params(&search.build_query(None), 1)[0], ("q".to_string(), "stars:>10".to_string()));
}

#[test]
fn cancellation_aborts_fetch() {
    let mut tokens = TokenRotator::new(vec!["t1".into(), "t2".into()]);
    let replies = vec![vec![repo("a/b", 1), repo("c/d", 2)]];
    let err = github_fetch(&github_search(), &mut tokens, 200, &replies, true).unwrap_err();
    assert!(matches!(err, SourceError::Cancelled));
}

#[test]
fn fetch_parses_hits_and_stops_at_nb_pages() {
    let hits = vec![
        hit("1", Some("https://github.com/tokio-rs/tokio")),
        hit("2", Some("https://crates.io/crates/axum")),
    ];
    let items = hn_fetch(&hn_search(), 200, &hits, 1).unwrap();
    assert_eq!(items.len(), 2);
    match &items[0] {
        RawItem::HnStory(h) => {
            assert_eq!(h.object_id, "1");
            assert_eq!(h.linked_url.as_deref(), Some("https://github.com/tokio-rs/tokio"));
            assert_eq!(h.points, Some(120));
            assert_eq!(h.comment_count, Some(45));
        }
        _ => panic!("expected hn story"),
    }
}

#[test]
fn rate_limit_returns_error() {
    let err = hn_fetch(&hn_search(), 429, &[], 0).unwrap_err();
    assert!(matches!(err, SourceError::RateLimited));
}

#[test]
fn ask_hn_without_url_still_collected() {
    let items = hn_fetch(&hn_search(), 200, &[hit("9", None)], 1).unwrap();
    match &items[0] {
        RawItem::HnStory(h) => assert!(h.linked_url.is_none()),
        _ => panic!(),
    }
}

#[test]
fn run_once_unregistered_source_errors() {
    // a collector with no source registered finds none to run
    assert_eq!(find_source(&Vec::new(), SourceKind::Hackernews), None);
    assert_eq!(find_source(&vec![SourceKind::Github], SourceKind::Hackernews), None);
}

#[test]
fn query_narrowed_to_a_day() {
    let s = GithubSearch::new("u".into(), "stars:>50".into(), 100, 3);
    assert_eq!(s.query_pushed_after("2026-07-11"), "stars:>50 pushed:>2026-07-11");
    assert_eq!(s.query_pushed_after(""), "stars:>50 pushed:>");
}

#[test]
fn reply_status_decisions() {
    let mut tokens = TokenRotator::new(vec!["t1".into(), "t2".into()]);
    assert_eq!(github_reply_status(200, "200 OK", &mut tokens), Ok(()));
    assert_eq!(tokens.current().as_deref(), Some("t1"));
    assert_eq!(
        github_reply_status(500, "500 Internal Server Error", &mut tokens),
        Err(SourceError::Other("github status 500 Internal Server Error".into()))
    );
    assert_eq!(tokens.current().as_deref(), Some("t1"));
    assert_eq!(github_reply_status(403, "403 Forbidden", &mut tokens), Err(SourceError::RateLimited));
    assert_eq!(tokens.current().as_deref(), Some("t2"));
    assert_eq!(github_reply_status(429, "429 Too Many Requests", &mut tokens), Err(SourceError::RateLimited));
    assert_eq!(tokens.current().as_deref(), Some("t1"));
    assert_eq!(hn_reply_status(204, "204 No Content"), Ok(()));
    assert_eq!(hn_reply_status(429, "429 Too Many Requests"), Err(SourceError::RateLimited));
    assert_eq!(hn_reply_status(403, "403 Forbidden"), Err(SourceError::Other("hn status 403 Forbidden".into())));
}

use openradar::models::SourceKind;
use openradar::query::{
    count_sql, default_page, default_per_page, filter_sql, get_sql, select_cols, ListParams,
    ProjectFilter, Sort,
};

#[test]
fn sort_parse_defaults_to_hottest() {
    assert_eq!(Sort::parse("stars"), Sort::Stars);
    assert_eq!(Sort::parse("recent"), Sort::Recent);
    assert_eq!(Sort::parse("hn_points"), Sort::HnPoints);
    assert_eq!(Sort::parse(""), Sort::Hottest);
    assert_eq!(Sort::parse("Stars"), Sort::Hottest);
    assert_eq!(Sort::Stars.order_by(), "stars DESC NULLS LAST");
    assert_eq!(Sort::HnPoints.order_by(), "hn_points DESC NULLS LAST");
    assert!(Sort::Hottest.order_by().ends_with("DESC NULLS LAST"));
}

#[test]
fn paging_window() {
    let f = ProjectFilter { page: 3, per_page: 20, ..Default::default() };
    assert!(f.offset_fits());
    assert_eq!(f.limit_offset(), (20, 40));
    let f = ProjectFilter { page: 0, per_page: 500, ..Default::default() };
    assert_eq!(f.limit_offset(), (100, 0));
    let f = ProjectFilter { page: -5, per_page: 0, ..Default::default() };
    assert_eq!(f.limit_offset(), (1, 0));
    let f = ProjectFilter { page: i64::MAX, per_page: 100, ..Default::default() };
    assert!(!f.offset_fits());
}

#[test]
fn list_params_to_filter() {
    let p = ListParams {
        page: default_page(),
        per_page: default_per_page(),
        language: Some("Rust".into()),
        topic: None,
        source: Some(SourceKind::Hackernews.as_str().into()),
        q: Some("tokio".into()),
        sort: "stars".into(),
        since: "7d".into(),
    };
    let now = 100 * 86_400_000_000i64;
    let f = p.to_filter(now);
    assert_eq!(f.page, 1);
    assert_eq!(f.per_page, 20);
    assert_eq!(f.sort, Sort::Stars);
    assert_eq!(f.since, Some(93 * 86_400_000_000));
    assert_eq!(f.language.as_deref(), Some("Rust"));
    assert_eq!(f.source.as_deref(), Some("hackernews"));
    assert_eq!(f.first_seen_since, None);
    let p = ListParams { since: "30d".into(), ..p };
    assert_eq!(p.to_filter(now).since, Some(70 * 86_400_000_000));
    let p = ListParams { since: "1y".into(), ..p };
    assert_eq!(p.to_filter(now).since, None);
}

#[test]
fn listing_statements() {
    let f = ProjectFilter { sort: Sort::Stars, ..Default::default() };
    let sql = f.list_sql();
    assert!(sql.starts_with("SELECT id, dedup_key, name"));
    assert!(sql.contains(" FROM projects WHERE ($1::text IS NULL OR language = $1)"));
    assert!(sql.ends_with(" ORDER BY stars DESC NULLS LAST LIMIT $7 OFFSET $8"));
    assert_eq!(sql, format!("{} {} ORDER BY stars DESC NULLS LAST LIMIT $7 OFFSET $8", select_cols(), filter_sql()));
    assert_eq!(count_sql(), format!("SELECT count(*) FROM projects {}", filter_sql()));
    assert_eq!(get_sql(), format!("{} WHERE id = $1", select_cols()));
    assert!(filter_sql().ends_with("AND ($6::timestamptz IS NULL OR first_seen_at >= $6)"));
}

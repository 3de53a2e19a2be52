use openradar::models::SourceKind;
use openradar::normalize::{extract_github_identity, normalize, normalize_url, split_full_name};
use openradar::source::{GithubRepoRaw, HnStoryRaw, RawItem};

fn ts() -> i64 {
    chrono::DateTime::parse_from_rfc3339("2026-01-01T00:00:00Z")
        .unwrap()
        .timestamp_micros()
}

fn empty_json() -> serde_json::Value {
    serde_json::Value::Object(serde_json::Map::new())
}

fn gh() -> GithubRepoRaw {
    GithubRepoRaw {
        full_name: "Tokio-Rs/tokio".into(),
        name: "tokio".into(),
        description: Some("async runtime".into()),
        html_url: "https://github.com/tokio-rs/tokio".into(),
        homepage: Some("https://tokio.rs".into()),
        language: Some("Rust".into()),
        topics: vec!["async".into(), "runtime".into()],
        stargazers_count: 27000,
        forks_count: 3000,
        open_issues_count: 400,
        created_at: ts(),
        updated_at: ts(),
        node_id: Some("N1".into()),
        extra: empty_json(),
    }
}

fn hn(linked: Option<&str>, object_id: &str, title: &str) -> HnStoryRaw {
    HnStoryRaw {
        object_id: object_id.into(),
        hn_url: format!("https://news.ycombinator.com/item?id={object_id}"),
        linked_url: linked.map(String::from),
        title: title.into(),
        author: Some("alice".into()),
        points: Some(120),
        comment_count: Some(45),
        posted_at: Some(ts()),
        extra: empty_json(),
    }
}

#[test]
fn github_source_dedup_key() {
    let r = normalize(&RawItem::GithubRepo(gh()));
    assert_eq!(r.dedup_key, "gh:tokio-rs/tokio");
    assert_eq!(r.full_name.as_deref(), Some("tokio-rs/tokio"));
    assert_eq!(r.stars, Some(27000));
    assert_eq!(r.language.as_deref(), Some("Rust"));
    assert_eq!(r.source_kind, SourceKind::Github);
    assert_eq!(r.last_activity_at, Some(ts()));
}

#[test]
fn hn_linking_github_repo_merges_key() {
    let s = hn(
        Some("https://github.com/Tokio-Rs/tokio/issues/1"),
        "111",
        "Tokio discussion",
    );
    let r = normalize(&RawItem::HnStory(s));
    assert_eq!(r.dedup_key, "gh:tokio-rs/tokio");
    assert_eq!(r.full_name.as_deref(), Some("tokio-rs/tokio"));
    assert_eq!(
        r.repo_url.as_deref(),
        Some("https://github.com/tokio-rs/tokio")
    );
    assert_eq!(r.hn_points, Some(120));
    assert_eq!(r.stars, None);
    assert_eq!(r.source_kind, SourceKind::Hackernews);
}

#[test]
fn hn_linking_github_with_git_suffix() {
    let s = hn(Some("https://github.com/Owner/Repo.git"), "112", "Repo");
    let r = normalize(&RawItem::HnStory(s));
    assert_eq!(r.dedup_key, "gh:owner/repo");
}

#[test]
fn hn_linking_github_with_www_and_case() {
    let s = hn(Some("http://www.GitHub.com/Owner/Repo"), "113", "Repo");
    let r = normalize(&RawItem::HnStory(s));
    assert_eq!(r.dedup_key, "gh:owner/repo");
}

#[test]
fn hn_non_github_external_link() {
    let s = hn(
        Some("https://crates.io/crates/axum/?version=0.7"),
        "114",
        "Axum crate",
    );
    let r = normalize(&RawItem::HnStory(s));
    assert_eq!(r.dedup_key, "url:crates.io/crates/axum");
    assert_eq!(
        r.repo_url.as_deref(),
        Some("https://crates.io/crates/axum/?version=0.7")
    );
    assert_eq!(r.hn_points, Some(120));
}

#[test]
fn hn_no_link_uses_object_id() {
    let s = hn(None, "999", "Ask HN: best Rust framework?");
    let r = normalize(&RawItem::HnStory(s));
    assert_eq!(r.dedup_key, "hn:999");
    assert_eq!(r.name, "Ask HN: best Rust framework?");
    assert!(r.repo_url.is_none());
}

#[test]
fn github_and_hn_to_same_repo_share_key() {
    let g = normalize(&RawItem::GithubRepo(gh()));
    let h = normalize(&RawItem::HnStory(hn(
        Some("https://github.com/tokio-rs/tokio"),
        "1",
        "x",
    )));
    assert_eq!(g.dedup_key, h.dedup_key);
}

#[test]
fn normalize_url_strips_query_fragment_www_trailing_slash() {
    assert_eq!(
        normalize_url("https://www.Crates.io/crates/axum/"),
        "crates.io/crates/axum"
    );
    assert_eq!(
        normalize_url("https://example.com/path?q=1#frag"),
        "example.com/path"
    );
    assert_eq!(normalize_url("http://www.example.com"), "example.com");
    assert_eq!(normalize_url("example.com/"), "example.com");
}

#[test]
fn extract_github_identity_rejects_non_repo() {
    assert_eq!(
        extract_github_identity("https://github.com/tokio-rs/tokio"),
        Some(("tokio-rs".into(), "tokio".into()))
    );
    assert_eq!(extract_github_identity("https://gitlab.com/a/b"), None);
    assert_eq!(extract_github_identity("not a url"), None);
}

#[test]
fn github_record_fields_are_carried_over() {
    let r = normalize(&RawItem::GithubRepo(gh()));
    assert_eq!(r.name, "tokio");
    assert_eq!(r.description.as_deref(), Some("async runtime"));
    assert_eq!(r.repo_url.as_deref(), Some("https://github.com/tokio-rs/tokio"));
    assert_eq!(r.homepage_url.as_deref(), Some("https://tokio.rs"));
    assert_eq!(r.topics, vec!["async".to_string(), "runtime".to_string()]);
    assert_eq!(r.forks, Some(3000));
    assert_eq!(r.open_issues, Some(400));
    assert_eq!(r.hn_points, None);
    assert_eq!(r.github_created_at, Some(ts()));
    assert_eq!(r.metadata, empty_json());
}

#[test]
fn blank_homepage_is_dropped_and_homepage_trimmed() {
    let mut g = gh();
    g.homepage = Some("   ".into());
    assert_eq!(normalize(&RawItem::GithubRepo(g.clone())).homepage_url, None);
    g.homepage = Some("  https://tokio.rs \n".into());
    assert_eq!(
        normalize(&RawItem::GithubRepo(g)).homepage_url.as_deref(),
        Some("https://tokio.rs")
    );
}

#[test]
fn hn_record_common_fields() {
    let r = normalize(&RawItem::HnStory(hn(Some("https://crates.io/x"), "5", "T")));
    assert_eq!(r.name, "T");
    assert_eq!(r.description.as_deref(), Some("T"));
    assert_eq!(r.full_name, None);
    assert_eq!(r.hn_comment_count, Some(45));
    assert_eq!(r.last_activity_at, Some(ts()));
    assert!(r.topics.is_empty());
    assert_eq!(r.source_kind, SourceKind::Hackernews);
}

#[test]
fn split_full_name_without_slash() {
    assert_eq!(split_full_name("Tokio"), (String::new(), "tokio".to_string()));
    assert_eq!(split_full_name("A/B/C"), ("a".to_string(), "b/c".to_string()));
}

#[test]
fn identity_edge_cases() {
    assert_eq!(extract_github_identity("  https://github.com/a/b  "), Some(("a".into(), "b".into())));
    assert_eq!(extract_github_identity("https://github.com/a/.git"), Some(("a".into(), ".git".into())));
    assert_eq!(extract_github_identity("https://github.com/a/b.GIT#x"), Some(("a".into(), "b".into())));
    assert_eq!(extract_github_identity("https://github.com/a/b?x\ny"), None);
    assert_eq!(extract_github_identity("https://github.com/a/"), None);
    assert_eq!(extract_github_identity("https://github.com//b"), None);
    assert_eq!(extract_github_identity("ftp://github.com/a/b"), None);
    assert_eq!(extract_github_identity("httpſ://github.com/a/b"), Some(("a".into(), "b".into())));
}

#[test]
fn case_does_not_change_identity_or_normalized_url() {
    let urls = [
        "HTTPS://WWW.GITHUB.COM/Owner/Repo.Git",
        "https://Example.COM/Path/?Q=1",
        "http://WWW.example.com/A/B/",
    ];
    for u in urls {
        let l = u.to_ascii_lowercase();
        assert_eq!(extract_github_identity(u), extract_github_identity(&l));
        assert_eq!(normalize_url(u), normalize_url(&l));
    }
}

/// The GitHub link grammar agrees with the pattern the service used to describe it.
#[test]
fn identity_agrees_with_reference_pattern() {
    let re = regex::Regex::new(
        r"(?i)^https?://(?:www\.)?github\.com/([^/]+)/([^/#?]+?)(?:\.git)?(?:[/?#].*)?$",
    )
    .unwrap();
    let samples = [
        "https://github.com/tokio-rs/tokio",
        "https://github.com/Tokio-Rs/tokio/issues/1",
        "http://www.GitHub.com/Owner/Repo",
        "https://github.com/Owner/Repo.git",
        "https://github.com/Owner/Repo.git/tree",
        "https://github.com/o/.git",
        "https://github.com/o/a.git.git",
        "https://github.com/o/r?x=1",
        "https://github.com/o/r#frag",
        "https://github.com/o/r/\nmore",
        "https://github.com/o/r\n",
        "https://github.com/o r/x y",
        "https://github.com/o#?/r",
        "https://github.com/o",
        "https://github.com/",
        "https://github.comx/o/r",
        "https://wwwgithub.com/o/r",
        "https://www.www.github.com/o/r",
        "HTTPS://GITHUB.COM/O/R.GIT",
        "httpſ://github.com/a/b",
        "https://gitlab.com/a/b",
        "not a url",
        "",
        "   https://github.com/a/b   ",
        "\u{3000}https://github.com/a/b\u{a0}",
        "https://github.com/a/b\u{2028}",
        "https://github.com/ä/ö",
        "https://github.com/a/b?\n",
    ];
    for s in samples {
        let expected = re.captures(s.trim()).map(|c| {
            (
                c.get(1).unwrap().as_str().to_ascii_lowercase(),
                c.get(2).unwrap().as_str().to_ascii_lowercase(),
            )
        });
        assert_eq!(extract_github_identity(s), expected, "sample {s:?}");
    }
}

#[test]
fn identity_same_for_scheme_and_www_spellings() {
    let expected = Some(("owner".to_string(), "repo".to_string()));
    for prefix in ["https://", "http://", "https://www.", "http://www.", "HTTP://WWW."] {
        for rest in ["github.com/Owner/Repo", "GitHub.com/owner/repo.git", "github.com/owner/repo/issues/1  "] {
            let url = format!("{prefix}{rest}");
            assert_eq!(extract_github_identity(&url), expected, "{url}");
        }
    }
    assert_eq!(extract_github_identity("https://www.www.github.com/owner/repo"), None);
}

#[test]
fn link_normalizes_alike_with_or_without_scheme() {
    let plain = normalize_url("crates.io/crates/axum");
    assert_eq!(plain, "crates.io/crates/axum");
    for url in ["https://crates.io/crates/axum", "http://www.Crates.io/crates/axum/", "ftp://crates.io/crates/axum?x#y"] {
        assert_eq!(normalize_url(url), plain, "{url}");
    }
    let a = normalize(&RawItem::HnStory(hn(Some("https://crates.io/crates/axum"), "1", "a")));
    let b = normalize(&RawItem::HnStory(hn(Some("HTTP://WWW.crates.io/crates/Axum/"), "2", "b")));
    assert_eq!(a.dedup_key, b.dedup_key);
    assert_eq!(a.dedup_key, "url:crates.io/crates/axum");
}

#[test]
fn repo_link_with_git_suffix_same_identity() {
    for full in ["tokio-rs/tokio", "Owner/Repo", "a/b.c"] {
        let plain = extract_github_identity(&format!("https://github.com/{full}"));
        let git = extract_github_identity(&format!("https://github.com/{full}.git"));
        assert!(plain.is_some());
        assert_eq!(plain, git, "{full}");
    }
}

#[test]
fn query_or_fragment_after_host_is_dropped() {
    assert_eq!(normalize_url("https://example.com?q=1#frag"), "example.com");
    assert_eq!(normalize_url("https://example.com#frag"), "example.com");
    assert_eq!(normalize_url("https://www.Example.com?ref=hn"), "example.com");
    assert_eq!(normalize_url("https://example.com/a?x=/b"), "example.com/a");
    assert_eq!(normalize_url("example.com?x/y"), "example.com");
    let a = normalize(&RawItem::HnStory(hn(Some("https://example.com?ref=hn"), "1", "a")));
    let b = normalize(&RawItem::HnStory(hn(Some("https://example.com"), "2", "b")));
    assert_eq!(a.dedup_key, b.dedup_key);
    assert_eq!(a.dedup_key, "url:example.com");
}

#[test]
fn normalized_link_normalizes_to_itself() {
    for url in [
        "https://www.Crates.io/crates/axum/",
        "https://example.com/path?q=1#frag",
        "http://www.example.com",
        "example.com/",
        "https://example.com?q=1",
        "  HTTPS://A.b/C//?x  ",
    ] {
        let v = normalize_url(url);
        assert_eq!(normalize_url(&v), v, "{url}");
    }
}

#[test]
fn identity_ignores_surrounding_space_and_case() {
    for url in ["https://github.com/Owner/Repo", "HTTP://WWW.GITHUB.COM/owner/REPO.git?x#y", "https://gitlab.com/a/b"] {
        let padded = format!(" \t{url}\n\u{a0}");
        assert_eq!(extract_github_identity(&padded), extract_github_identity(url), "{url}");
        assert_eq!(extract_github_identity(&url.to_ascii_lowercase()), extract_github_identity(url), "{url}");
    }
}

#[test]
fn story_linking_repo_in_other_case_merges() {
    let g = normalize(&RawItem::GithubRepo(gh()));
    for link in [
        "https://github.com/tokio-rs/tokio",
        "https://github.com/TOKIO-RS/Tokio",
        "https://github.com/tokio-RS/TOKIO/issues/1",
        "https://github.com/Tokio-Rs/tokio#readme",
    ] {
        let s = normalize(&RawItem::HnStory(hn(Some(link), "7", "t")));
        assert_eq!(s.dedup_key, g.dedup_key, "{link}");
        assert_eq!(s.dedup_key, "gh:tokio-rs/tokio");
        assert_eq!(s.full_name, g.full_name, "{link}");
    }
}

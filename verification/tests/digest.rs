use std::time::Duration;

use chrono::{TimeZone, Utc};
use openradar::digest::{next_digest_delay, render_digest, DigestEntry, DAY_MICROS};

fn at(y: i32, mo: u32, d: u32, h: u32, mi: u32) -> i64 {
    Utc.with_ymd_and_hms(y, mo, d, h, mi, 0).unwrap().timestamp_micros()
}

fn delay(now: i64, hour: u32) -> Duration {
    Duration::from_micros(next_digest_delay(now, hour))
}

#[test]
fn delay_before_target_hour_is_same_day() {
    let now = at(2026, 7, 11, 8, 0);
    assert_eq!(delay(now, 9), Duration::from_secs(3600));
}

#[test]
fn delay_after_target_hour_is_next_day() {
    let now = at(2026, 7, 11, 10, 0);
    assert_eq!(delay(now, 9), Duration::from_secs(23 * 3600));
}

#[test]
fn delay_at_exact_target_hour_is_next_day() {
    let now = at(2026, 7, 11, 9, 0);
    assert_eq!(delay(now, 9), Duration::from_secs(24 * 3600));
}

#[test]
fn delay_hour_zero_boundary() {
    let now = at(2026, 7, 11, 0, 30);
    assert_eq!(delay(now, 0), Duration::from_secs(23 * 3600 + 30 * 60));
}

#[test]
fn delay_crosses_month_boundary() {
    let now = at(2026, 7, 31, 10, 0);
    assert_eq!(delay(now, 9), Duration::from_secs(23 * 3600));
}

#[test]
fn delay_clamps_hour_and_works_before_epoch() {
    let now = at(2026, 7, 11, 8, 0);
    assert_eq!(delay(now, 99), Duration::from_secs(15 * 3600));
    let before_epoch = at(1969, 12, 31, 22, 0);
    assert_eq!(delay(before_epoch, 23), Duration::from_secs(3600));
    let with_seconds = at(2026, 7, 11, 8, 59) + 30_000_000;
    assert_eq!(delay(with_seconds, 9), Duration::from_secs(30));
}

fn entry(name: &str) -> DigestEntry {
    DigestEntry {
        name: name.into(),
        full_name: None,
        repo_url: None,
        stars: None,
        star_delta: None,
        hn_points: None,
        description: None,
    }
}

#[test]
fn empty_digest_is_not_sent() {
    assert!(render_digest(&vec![], 7, 11).is_none());
}

#[test]
fn digest_markdown_layout() {
    let entries = vec![
        DigestEntry {
            name: "tokio".into(),
            full_name: Some("tokio-rs/tokio".into()),
            repo_url: Some("https://github.com/tokio-rs/tokio".into()),
            stars: Some("2.7w".into()),
            star_delta: Some("120".into()),
            hn_points: Some("120".into()),
            description: Some("async\nruntime".into()),
        },
        entry("bare"),
        DigestEntry {
            description: Some(String::new()),
            ..entry("empty-desc")
        },
    ];
    let r = render_digest(&entries, 7, 11).unwrap();
    assert_eq!(r.count, 3);
    assert_eq!(r.title, "开源雷达日报 · 7月11日");
    assert_eq!(
        r.markdown,
        "## 上升最快 TOP 3\n\n\
         1. **[tokio-rs/tokio](https://github.com/tokio-rs/tokio)** ⭐2.7w 🔺+120 · 🟧120\n   async runtime\n\
         2. **[bare](#)** ⭐-\n\
         3. **[empty-desc](#)** ⭐-\n"
    );
}

#[test]
fn next_digest_is_a_day_after_the_last() {
    for hour in [0u32, 9, 23, 30] {
        for now in [0i64, 1_767_348_000_000_000, 1_767_348_000_000_001, -3_600_000_000, 1_700_000_123_456_789] {
            let d = next_digest_delay(now, hour);
            assert_eq!(next_digest_delay(now + d as i64, hour), DAY_MICROS as u64, "now={now} hour={hour}");
        }
    }
}

use openradar::config::{parse_i64, parse_token_list, parse_u32, parse_u64, ConfigError, EnvVars, Settings};

fn none_vars() -> EnvVars {
    EnvVars {
        database_url: None,
        bind_addr: None,
        github_tokens: None,
        admin_token: None,
        schedule_github_secs: None,
        schedule_hn_secs: None,
        serverchan_sendkey: None,
        digest_hour: None,
        digest_top_n: None,
    }
}

#[test]
fn defaults_apply() {
    let s = Settings::from_vars(&none_vars()).unwrap();
    assert_eq!(s.database_url, "postgres://localhost:5432/openradar");
    assert_eq!(s.bind_addr, "0.0.0.0:8080");
    assert!(s.github_tokens.is_empty());
    assert_eq!(s.admin_token, "changeme");
    assert_eq!(s.schedule_github_secs, 3600);
    assert_eq!(s.schedule_hn_secs, 1800);
    assert_eq!(s.serverchan_sendkey, None);
    assert_eq!(s.digest_hour, 9);
    assert_eq!(s.digest_top_n, 10);
}

#[test]
fn values_and_errors() {
    let mut v = none_vars();
    v.github_tokens = Some(" a , ,b,".into());
    v.schedule_hn_secs = Some("+60".into());
    v.serverchan_sendkey = Some("SCT1".into());
    let s = Settings::from_vars(&v).unwrap();
    assert_eq!(s.github_tokens, vec!["a".to_string(), "b".to_string()]);
    assert_eq!(s.schedule_hn_secs, 60);
    assert_eq!(s.serverchan_sendkey.as_deref(), Some("SCT1"));
    v.serverchan_sendkey = Some(String::new());
    assert_eq!(Settings::from_vars(&v).unwrap().serverchan_sendkey, None);
    v.schedule_github_secs = Some("1h".into());
    v.schedule_hn_secs = Some("x".into());
    assert_eq!(
        Settings::from_vars(&v).unwrap_err(),
        ConfigError::Invalid("SCHEDULE_GITHUB_SECS".into())
    );
    v.schedule_github_secs = None;
    assert_eq!(Settings::from_vars(&v).unwrap_err(), ConfigError::Invalid("SCHEDULE_HN_SECS".into()));
    v.schedule_hn_secs = None;
    // a digest hour or size that does not parse falls back to its default
    v.digest_hour = Some("-1".into());
    v.digest_top_n = Some("".into());
    let s = Settings::from_vars(&v).unwrap();
    assert_eq!((s.digest_hour, s.digest_top_n), (9, 10));
    v.digest_hour = Some("7".into());
    v.digest_top_n = Some("-3".into());
    let s = Settings::from_vars(&v).unwrap();
    assert_eq!((s.digest_hour, s.digest_top_n), (7, -3));
}

#[test]
fn token_list_splits_trims_and_drops_blanks() {
    assert_eq!(parse_token_list(""), Vec::<String>::new());
    assert_eq!(parse_token_list(",,"), Vec::<String>::new());
    assert_eq!(parse_token_list("a"), vec!["a".to_string()]);
    assert_eq!(parse_token_list(" a\t,b ,  "), vec!["a".to_string(), "b".to_string()]);
}

#[test]
fn numbers_parse_like_std() {
    let samples = [
        "", "+", "-", "0", "+0", "-0", "42", "+42", "-42", " 1", "1 ", "1_0", "18446744073709551615",
        "18446744073709551616", "4294967295", "4294967296", "9223372036854775807",
        "9223372036854775808", "-9223372036854775808", "-9223372036854775809", "+-1", "-+1", "00012",
        "１２",
    ];
    for s in samples {
        assert_eq!(parse_u64(s), s.parse::<u64>().ok(), "u64 {s:?}");
        assert_eq!(parse_u32(s), s.parse::<u32>().ok(), "u32 {s:?}");
        assert_eq!(parse_i64(s), s.parse::<i64>().ok(), "i64 {s:?}");
    }
}

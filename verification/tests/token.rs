use openradar::token::TokenRotator;

#[test]
fn empty_tokens_anonymous() {
    let r = TokenRotator::new(vec!["".into()]);
    assert!(r.is_empty());
    assert!(r.current().is_none());
}

#[test]
fn rotates_between_tokens() {
    let mut r = TokenRotator::new(vec!["a".into(), "b".into()]);
    assert_eq!(r.current().as_deref(), Some("a"));
    r.rotate();
    assert_eq!(r.current().as_deref(), Some("b"));
    r.rotate();
    assert_eq!(r.current().as_deref(), Some("a"));
}

#[test]
fn single_token_no_rotate() {
    let mut r = TokenRotator::new(vec!["a".into()]);
    r.rotate();
    assert_eq!(r.current().as_deref(), Some("a"));
}

#[test]
fn blank_tokens_are_dropped_and_order_kept() {
    let mut r = TokenRotator::new(vec!["".into(), "x".into(), "".into(), "y".into(), "z".into()]);
    assert!(!r.is_empty());
    assert_eq!(r.current().as_deref(), Some("x"));
    r.rotate();
    assert_eq!(r.current().as_deref(), Some("y"));
    r.rotate();
    assert_eq!(r.current().as_deref(), Some("z"));
    r.rotate();
    assert_eq!(r.current().as_deref(), Some("x"));
}

#[test]
fn n_rotations_return_to_start() {
    let mut r = TokenRotator::new(vec!["a".into(), "b".into(), "c".into()]);
    r.rotate();
    let start = r.current();
    for _ in 0..3 {
        r.rotate();
    }
    assert_eq!(r.current(), start);
}

#[test]
fn no_tokens_rotate_is_noop() {
    let mut r = TokenRotator::new(vec![]);
    r.rotate();
    assert!(r.is_empty());
    assert_eq!(r.current(), None);
}

#[test]
fn k_rotations_land_on_token_k_mod_n() {
    let tokens: Vec<String> = vec!["a".into(), "".into(), "b".into(), "c".into(), "".into()];
    let kept = ["a", "b", "c"];
    for k in 0..10usize {
        let mut r = TokenRotator::new(tokens.clone());
        for _ in 0..k {
            r.rotate();
        }
        assert_eq!(r.current().as_deref(), Some(kept[k % kept.len()]), "k={k}");
        assert_eq!(r.current(), r.current());
    }
    let mut empty = TokenRotator::new(vec!["".into()]);
    empty.rotate();
    assert_eq!(empty.current(), None);
}

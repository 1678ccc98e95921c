use wireguard_vanity::encoding::base64_encode;
use wireguard_vanity::matcher::Matcher;
use wireguard_vanity::output::format_match_line;
use wireguard_vanity::search::{attempt, search};

#[test]
fn wildcard_matches_on_first_attempt() {
    let m = Matcher::new("").ok().unwrap();
    let (c, matched) = attempt(&m);
    assert!(matched);
    assert_eq!(c.public.len(), 32);
}

#[test]
fn search_returns_matching_candidate() {
    let m = Matcher::new("").ok().unwrap();
    let c = search(&m).unwrap();
    let e = base64_encode(&c.public);
    assert_eq!(e.len(), 44);
}

#[test]
fn search_satisfies_literal_prefix() {
    let m = Matcher::new("^A").ok().unwrap();
    let c = search(&m).unwrap();
    let e = base64_encode(&c.public);
    assert_eq!(e[0], b'A');
}

#[test]
fn repeated_searches_report_distinct_matches() {
    let m = Matcher::new("^[AB]").ok().unwrap();
    let c1 = search(&m).unwrap();
    let c2 = search(&m).unwrap();
    assert_ne!(c1.public, c2.public);
    let l1 = format_match_line(&base64_encode(&c1.public), &base64_encode(&c1.private));
    let l2 = format_match_line(&base64_encode(&c2.public), &base64_encode(&c2.private));
    assert_ne!(l1, l2);
}

use wireguard_vanity::matcher::Matcher;

#[test]
fn malformed_pattern_is_rejected() {
    let r = Matcher::new("(");
    assert!(r.is_err());
    let e = r.err().unwrap();
    assert!(!e.describe().is_empty());
}

#[test]
fn valid_pattern_compiles() {
    assert!(Matcher::new("AAA").is_ok());
    assert!(Matcher::new("").is_ok());
    assert!(Matcher::new("^(dave|DAVE)").is_ok());
}

#[test]
fn match_finds_literal() {
    let m = Matcher::new("abc").ok().unwrap();
    assert!(m.is_match(&b"xxabcyy".to_vec()));
    assert!(!m.is_match(&b"xxabyyc".to_vec()));
}

#[test]
fn match_is_case_sensitive_bytes() {
    let m = Matcher::new("abc").ok().unwrap();
    assert!(!m.is_match(&b"xxABCyy".to_vec()));
}

#[test]
fn match_honours_anchors() {
    let m = Matcher::new("^AB").ok().unwrap();
    assert!(m.is_match(&b"ABCD".to_vec()));
    assert!(!m.is_match(&b"CDAB".to_vec()));
}

#[test]
fn wildcard_matches_anything() {
    let m = Matcher::new("").ok().unwrap();
    assert!(m.is_match(&b"".to_vec()));
    assert!(m.is_match(&b"anything".to_vec()));
}

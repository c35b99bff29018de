use sovereign::routing::{
    glob_match, glob_match_inner, parse_level, relativize, Confidentiality, RawConfig,
    SovereignConfig,
};

#[test]
fn test_glob_match() {
    assert!(glob_match("src/**", "src/foo/bar.rs"));
    assert!(glob_match("src/**", "src/bar.rs"));
    assert!(glob_match("**/*.py", "a/b/c.py"));
    assert!(glob_match("tests/*", "tests/foo.py"));
    assert!(!glob_match("tests/*", "tests/a/b.py")); // `*` does not cross a separator
    assert!(!glob_match("src/**", "lib/foo.rs"));
}

#[test]
fn double_star_matches_every_path() {
    assert!(glob_match("**", ""));
    assert!(glob_match("**", "a"));
    assert!(glob_match("**", "a/b/c.txt"));
}

#[test]
fn literal_pattern_matches_only_itself() {
    assert!(glob_match("a/b.rs", "a/b.rs"));
    assert!(!glob_match("a/b.rs", "a/b.rs2"));
    assert!(!glob_match("a/b.rs", "a/b.r"));
    assert!(glob_match("", ""));
    assert!(!glob_match("", "x"));
}

#[test]
fn dir_pattern_matches_everything_below() {
    assert!(glob_match("docs/**", "docs/"));
    assert!(glob_match("docs/**", "docs/a/b/c.md"));
    assert!(!glob_match("docs/**", "docs"));
}

#[test]
fn star_stays_within_a_segment() {
    assert!(glob_match("*.rs", "main.rs"));
    assert!(!glob_match("*.rs", "src/main.rs"));
    assert!(glob_match("src/*/mod.rs", "src/a/mod.rs"));
    assert!(glob_match_inner(b"a*c", b"abbbc"));
    assert!(!glob_match_inner(b"a*c", b"ab/c"));
}

#[test]
fn parse_level_ignores_case_and_space() {
    assert_eq!(parse_level("S0"), Some(Confidentiality::S0));
    assert_eq!(parse_level(" s2 "), Some(Confidentiality::S2));
    assert_eq!(parse_level("s3"), Some(Confidentiality::S3));
    assert_eq!(parse_level("S4"), None);
    assert_eq!(parse_level(""), None);
}

#[test]
fn requires_local_from_s2_up() {
    assert!(!Confidentiality::S0.requires_local());
    assert!(!Confidentiality::S1.requires_local());
    assert!(Confidentiality::S2.requires_local());
    assert!(Confidentiality::S3.requires_local());
}

#[test]
fn relativize_strips_cwd_and_backslashes() {
    assert_eq!(relativize("/repo/src/a.rs", "/repo"), "src/a.rs");
    assert_eq!(relativize("src\\a.rs", "/repo"), "src/a.rs");
    assert_eq!(relativize("/other/a.rs", "/repo"), "/other/a.rs");
    assert_eq!(relativize("docs/x.md", "/repo"), "docs/x.md");
}

fn sample_config() -> SovereignConfig {
    SovereignConfig::from_raw(RawConfig {
        default_confidentiality: Some("s1".to_string()),
        paths: Some(vec![
            ("secret/**".to_string(), "S3".to_string()),
            ("docs/*".to_string(), "s0".to_string()),
            ("x/**".to_string(), "bogus".to_string()),
        ]),
    })
}

#[test]
fn classify_takes_the_most_confidential_level() {
    let cfg = sample_config();
    assert_eq!(cfg.classify(&vec!["docs/a.md".to_string()], "/repo"), Confidentiality::S0);
    assert_eq!(
        cfg.classify(&vec!["docs/a.md".to_string(), "secret/k.txt".to_string()], "/repo"),
        Confidentiality::S3
    );
    assert_eq!(cfg.classify(&vec!["/repo/secret/a".to_string()], "/repo"), Confidentiality::S3);
    // No rule matches: the default.
    assert_eq!(cfg.classify(&vec!["other.rs".to_string()], "/repo"), Confidentiality::S1);
    // A rule with an unreadable level is dropped.
    assert_eq!(cfg.classify(&vec!["x/y".to_string()], "/repo"), Confidentiality::S1);
    // No files: the default.
    assert_eq!(cfg.classify(&vec![], "/repo"), Confidentiality::S1);
}

#[test]
fn classify_one_uses_the_first_matching_rule() {
    let cfg = SovereignConfig::from_raw(RawConfig {
        default_confidentiality: None,
        paths: Some(vec![
            ("a/**".to_string(), "S0".to_string()),
            ("a/b/**".to_string(), "S3".to_string()),
        ]),
    });
    assert_eq!(cfg.classify_one("a/b/c", "/r"), Confidentiality::S0);
    assert_eq!(cfg.classify_one("z", "/r"), Confidentiality::S2);
}

#[test]
fn missing_or_unreadable_default_is_s2() {
    let cfg = SovereignConfig::from_raw(RawConfig { default_confidentiality: None, paths: None });
    assert_eq!(cfg.classify(&vec![], "/"), Confidentiality::S2);
    let cfg = SovereignConfig::from_raw(RawConfig {
        default_confidentiality: Some("high".to_string()),
        paths: None,
    });
    assert_eq!(cfg.classify(&vec!["a".to_string()], "/"), Confidentiality::S2);
}

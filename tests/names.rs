use refname::{
    Error, GrammarError, OneLevel, Qualified, RefLike, RefspecPattern, StripPrefixError,
};

fn name(s: &str) -> RefLike {
    RefLike::try_from_str(s).unwrap()
}

fn qualified(s: &str) -> String {
    Qualified::from_ref_like(name(s)).into_string()
}

fn one_level(s: &str) -> String {
    OneLevel::from_ref_like(name(s)).into_string()
}

#[test]
fn qualified_adds_heads_when_unqualified() {
    assert_eq!(qualified("laplace"), "refs/heads/laplace");
    assert_eq!(qualified("refs/heads/pu"), "refs/heads/pu");
    assert_eq!(qualified("refs/tags/v6.6.6"), "refs/tags/v6.6.6");
}

#[test]
fn one_level_drops_refs_and_category() {
    assert_eq!(one_level("refs/heads/next"), "next");
    assert_eq!(one_level("refs/remotes/origin/it"), "origin/it");
    assert_eq!(one_level("mistress"), "mistress");
}

#[test]
fn one_level_keeps_short_qualified_names() {
    assert_eq!(one_level("refs/heads"), "refs/heads");
    assert_eq!(one_level("refsx/heads/main"), "refsx/heads/main");
}

#[test]
fn collapse_of_qualified_equals_collapse() {
    for s in ["laplace", "refs", "refs/x", "a/b/c", "refs/heads/main", "refs/remotes/o/x"] {
        let via = OneLevel::from_qualified_name(Qualified::from_ref_like(name(s)));
        assert_eq!(via.into_string(), one_level(s));
    }
}

#[test]
fn from_qualified_splits_category() {
    let (n, c) = OneLevel::from_qualified(Qualified::from_ref_like(name("refs/tags/grace")));
    assert_eq!(n.as_str(), "grace");
    assert_eq!(c.unwrap().as_str(), "tags");

    let (n, c) =
        OneLevel::from_qualified(Qualified::from_ref_like(name("refs/remotes/origin/hopper")));
    assert_eq!(n.as_str(), "origin/hopper");
    assert_eq!(c.unwrap().as_str(), "remotes");

    let (n, c) = OneLevel::from_qualified(Qualified::from_ref_like(name("refs/HEAD")));
    assert_eq!(n.as_str(), "HEAD");
    assert!(c.is_none());
}

#[test]
fn into_qualified_renders_category() {
    let q = OneLevel::from_ref_like(name("origin/hopper")).into_qualified(name("remotes"));
    assert_eq!(q.as_str(), "refs/remotes/origin/hopper");
}

#[test]
fn join_then_strip_prefix_round_trips() {
    let base = name("refs/heads");
    let joined = base.join(&name("feature/x"));
    assert_eq!(joined.as_str(), "refs/heads/feature/x");
    assert_eq!(joined.strip_prefix(base.as_str()).unwrap().as_str(), "feature/x");
    assert_eq!(joined.strip_prefix("refs/heads/").unwrap().as_str(), "feature/x");
}

#[test]
fn strip_prefix_errors() {
    let x = name("refs/heads/main");
    assert!(matches!(x.strip_prefix("refs/heads/main"), Err(StripPrefixError::ImproperPrefix)));
    assert!(matches!(x.strip_prefix("unrelated"), Err(StripPrefixError::NotPrefix)));
    assert!(matches!(x.strip_prefix("refs/hea"), Err(StripPrefixError::NotPrefix)));
}

#[test]
fn pattern_wildcard_count() {
    assert!(RefspecPattern::try_from_str("refs/heads/main").is_ok());
    assert_eq!(RefspecPattern::try_from_str("refs/heads/*").unwrap().as_str(), "refs/heads/*");
    assert!(matches!(
        RefspecPattern::try_from_str("refs/*/heads/*"),
        Err(Error::RefFormat(GrammarError::MultiplePatterns))
    ));
    assert!(RefLike::try_from_str("refs/heads/*").is_err());
}

#[test]
fn construction_rejects_bad_text() {
    assert!(matches!(RefLike::try_from_str(""), Err(Error::RefFormat(GrammarError::Empty))));
    assert!(matches!(RefLike::try_from_str(""), Err(e) if e == Error::empty()));
    assert!(RefLike::try_from_str("a..b").is_err());
    assert!(RefLike::try_from_str("refs/heads/x.lock").is_err());
    assert!(RefLike::try_from_str("a@{b").is_err());
    assert!(matches!(
        RefLike::try_from_str("a b"),
        Err(Error::RefFormat(GrammarError::InvalidComponent))
    ));
    assert!(RefLike::try_from_str("a//b").is_err());
    assert!(RefLike::try_from_str("a/").is_err());
}

#[test]
fn construction_limits_length() {
    let long = "a".repeat(1025);
    assert!(matches!(
        RefLike::try_from_str(&long),
        Err(Error::RefFormat(GrammarError::TooLong))
    ));
    assert!(RefLike::try_from_str(&"a".repeat(1024)).is_ok());
}

#[test]
fn construction_from_bytes() {
    assert_eq!(RefLike::try_from_bytes(b"refs/heads/main").unwrap().as_str(), "refs/heads/main");
    assert!(matches!(RefLike::try_from_bytes(&[0x66, 0xff, 0x66]), Err(Error::Utf8)));
    assert!(matches!(RefspecPattern::try_from_bytes(&[0xc3]), Err(Error::Utf8)));
    assert_eq!(RefspecPattern::try_from_bytes(b"a/*").unwrap().as_str(), "a/*");
}

#[test]
fn percent_encoding_of_names() {
    assert_eq!(name("feature/a#b").percent_encode(), "feature/a%23b");
    assert_eq!(name("x{1}`<>\"").percent_encode(), "x%7B1%7D%60%3C%3E%22");
    assert_eq!(name("Ab-_9/c").percent_encode(), "Ab-_9/c");
    assert_eq!(name("caf\u{e9}").percent_encode(), "caf%C3%A9");
}

#[test]
fn patterns_compose() {
    let p = RefspecPattern::try_from_str("refs/remotes/*").unwrap();
    assert_eq!(p.append(&name("mfdoom")).as_str(), "refs/remotes/*/mfdoom");
    let q = name("refs/heads").with_pattern_suffix(&RefspecPattern::try_from_str("*").unwrap());
    assert_eq!(q.as_str(), "refs/heads/*");
    assert_eq!(RefspecPattern::from_ref_like(name("a/b")).as_str(), "a/b");
}

#[test]
fn cross_spelling_constructors() {
    assert_eq!(Qualified::try_from_str("main").unwrap().as_str(), "refs/heads/main");
    assert_eq!(Qualified::try_from_str("refs/tags/v1").unwrap().as_str(), "refs/tags/v1");
    assert_eq!(OneLevel::try_from_str("refs/tags/v1").unwrap().as_str(), "v1");
    assert_eq!(OneLevel::try_from_str("v1").unwrap().as_str(), "v1");
    assert!(Qualified::try_from_str("a..b").is_err());
}

#[test]
fn from_str_parses() {
    let r: RefLike = "refs/heads/main".parse().unwrap();
    assert_eq!(r.as_str(), "refs/heads/main");
    let p: RefspecPattern = "refs/*".parse().unwrap();
    assert_eq!(p.as_str(), "refs/*");
    assert!("a b".parse::<RefLike>().is_err());
}

#[test]
fn components_join_with_slashes() {
    let parts = vec!["refs".to_owned(), "heads".to_owned(), "main".to_owned()];
    assert_eq!(RefLike::try_from_components(&parts).unwrap().as_str(), "refs/heads/main");
    assert_eq!(RefLike::try_from_components(&vec!["x".to_owned()]).unwrap().as_str(), "x");
    assert!(matches!(
        RefLike::try_from_components(&Vec::new()),
        Err(Error::RefFormat(GrammarError::Empty))
    ));
    assert!(RefLike::try_from_components(&vec!["a".to_owned(), String::new()]).is_err());
}

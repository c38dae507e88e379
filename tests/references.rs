use refname::{Force, RefLike, Reference, RefsCategory, RefspecPattern, Signature};

fn name(s: &str) -> RefLike {
    RefLike::try_from_str(s).unwrap()
}

type One = Reference<RefLike, RefLike, RefLike>;
type Many = Reference<RefLike, RefLike, RefspecPattern>;

#[test]
fn scoped_reference_renders() {
    let plain: One = Reference {
        namespace: None,
        remote: None,
        category: RefsCategory::Heads,
        name: name("feature/x"),
    };
    assert_eq!(plain.to_ref_like().as_str(), "refs/heads/feature/x");
    let scoped = plain.with_namespace(Some(name("ns"))).with_remote(Some(name("peer")));
    assert_eq!(
        scoped.to_ref_like().as_str(),
        "refs/namespaces/ns/refs/remotes/peer/heads/feature/x"
    );
    assert_eq!(
        scoped.to_pattern().as_str(),
        "refs/namespaces/ns/refs/remotes/peer/heads/feature/x"
    );
}

#[test]
fn nested_names_are_collapsed() {
    let r: One = One::head(None, Some(name("peer")), name("refs/heads/main"));
    assert_eq!(r.to_ref_like().as_str(), "refs/remotes/peer/heads/main");
}

#[test]
fn rad_references() {
    assert_eq!(One::rad_id(Some(name("p"))).to_ref_like().as_str(), "refs/namespaces/p/refs/rad/id");
    assert_eq!(One::rad_signed_refs(None, Some(name("q"))).to_ref_like().as_str(), "refs/remotes/q/rad/signed_refs");
    assert_eq!(One::rad_self(None, None).to_ref_like().as_str(), "refs/rad/self");
    assert_eq!(One::tag(None, None, name("v1")).to_ref_like().as_str(), "refs/tags/v1");
}

#[test]
fn glob_references() {
    assert_eq!(Many::heads(None, None).to_pattern().as_str(), "refs/heads/*");
    assert_eq!(Many::rads(None, Some(name("q"))).to_pattern().as_str(), "refs/remotes/q/rad/*");
    assert_eq!(Many::tags(Some(name("p")), None).to_pattern().as_str(), "refs/namespaces/p/refs/tags/*");
    assert_eq!(Many::notes(None, None).to_pattern().as_str(), "refs/notes/*");
    assert_eq!(Many::cob(None, None).to_pattern().as_str(), "refs/cobs/*");
    assert_eq!(Many::rad_ids_glob(Some(name("p"))).to_pattern().as_str(), "refs/namespaces/p/refs/rad/ids/*");
}

#[test]
fn setters_replace_parts() {
    let mut r: One = One::head(None, None, name("a"));
    r.set_remote(Some(name("peer")));
    r.set_name(name("b"));
    assert_eq!(r.to_ref_like().as_str(), "refs/remotes/peer/heads/b");
    let r = r.with_name(name("c")).with_remote(None);
    assert_eq!(r.to_ref_like().as_str(), "refs/heads/c");
}

#[test]
fn categories_parse_and_render() {
    assert_eq!(RefsCategory::from_str("heads").unwrap(), RefsCategory::Heads);
    assert_eq!(RefsCategory::from_str("rad").unwrap(), RefsCategory::Rad);
    assert_eq!(RefsCategory::from_str("tags").unwrap(), RefsCategory::Tags);
    assert_eq!(RefsCategory::from_str("notes").unwrap(), RefsCategory::Notes);
    assert_eq!(RefsCategory::from_str("cobs").unwrap(), RefsCategory::Cobs);
    assert_eq!(RefsCategory::from_str("pulls").unwrap(), RefsCategory::Unknown(name("pulls")));
    assert!(RefsCategory::from_str("a..b").is_err());
    assert_eq!(RefsCategory::Cobs.to_ref_like().as_str(), "cobs");
    assert_eq!(RefsCategory::Unknown(name("x/y")).to_ref_like().as_str(), "x/y");
    assert_eq!(RefsCategory::from_ref_like(&name("notes")), RefsCategory::Notes);
    assert_eq!(RefsCategory::from_ref_like(&name("other")), RefsCategory::Unknown(name("other")));
    assert_eq!(
        RefsCategory::default_categories(),
        [RefsCategory::Heads, RefsCategory::Tags, RefsCategory::Notes]
    );
}

#[test]
fn symbolic_ref_names_both_ends() {
    let target: One = One::head(None, None, name("main"));
    let source: One = One::rad_self(None, None);
    let sym = target.symbolic_ref(source, Force::True);
    assert_eq!(sym.source_name().as_str(), "refs/rad/self");
    assert_eq!(sym.target_name().as_str(), "refs/heads/main");
    assert_eq!(sym.reflog_message(), "creating symbolic ref refs/rad/self -> refs/heads/main");
    assert!(sym.force.as_bool());
    assert!(!Force::False.as_bool());
}

#[test]
fn signature_keeps_bytes() {
    let s = Signature::from_bytes(vec![1, 2, 3]);
    assert_eq!(s.as_bytes(), &[1, 2, 3]);
}

#[test]
fn chained_setters() {
    let mut r: One = One::head(None, None, name("a"));
    r.remote(Some(name("p"))).name(name("z"));
    assert_eq!(r.to_ref_like().as_str(), "refs/remotes/p/heads/z");
}

#[test]
fn category_parses_through_from_str() {
    assert_eq!("tags".parse::<RefsCategory>().unwrap(), RefsCategory::Tags);
    assert_eq!("x".parse::<RefsCategory>().unwrap(), RefsCategory::Unknown(name("x")));
}

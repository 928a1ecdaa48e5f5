use cargox::version::{Version, VersionReq};

fn v(text: &str) -> Version {
    Version::parse(text).unwrap()
}

#[test]
fn version_parse_keeps_the_text() {
    for text in ["1.5.0", "0.0.0", "1.0.0-alpha.1", "1.0.0+build.5", "1.0.0-rc.1+exp.sha.5114f85"] {
        let version = v(text);
        assert_eq!(version.as_str(), text);
        assert_eq!(version.to_string(), text);
        assert_eq!(version.clone().as_str(), text);
    }
}

#[test]
fn version_parse_rejects_what_is_no_version() {
    for text in ["", "1", "1.0", "1.0.01", "01.0.0", "1.0.unknown", "1.0.0-", "1.0.0+",
        "1.0.0-alpha_123", "23456789999999999999.0.0", " 1.0.0", "1.0.0 ", "v1.0.0", "^1.0.0"]
    {
        assert!(Version::parse(text).is_none(), "{text:?} was accepted");
    }
}

#[test]
fn version_precedes_follows_semantic_order() {
    let ordered = [
        "0.9.9", "1.0.0-alpha", "1.0.0-alpha.1", "1.0.0-alpha.beta", "1.0.0-beta", "1.0.0-beta.2",
        "1.0.0-beta.11", "1.0.0-rc.1", "1.0.0", "1.0.1", "1.2.0", "1.10.0", "2.0.0",
    ];
    for i in 0..ordered.len() {
        for j in 0..ordered.len() {
            assert_eq!(
                v(ordered[i]).precedes(&v(ordered[j])),
                i < j,
                "{} against {}",
                ordered[i],
                ordered[j]
            );
        }
    }
}

#[test]
fn version_precedes_counts_build_metadata() {
    assert!(v("1.20.0").precedes(&v("1.20.0+bc17664")));
    assert!(v("1.20.0+bc17664").precedes(&v("1.20.0+c144a98")));
    assert!(!v("1.20.0+c144a98").precedes(&v("1.20.0")));
}

#[test]
fn version_never_precedes_itself() {
    for text in ["1.0.0", "1.0.0-rc.1", "1.0.0+b"] {
        assert!(!v(text).precedes(&v(text)));
    }
}

#[test]
fn requirement_parse_prints_the_canonical_form() {
    let cases = [
        ("13.0.0", "^13.0.0"),
        ("1", "^1"),
        ("1.2", "^1.2"),
        (" 1.2.3", "^1.2.3"),
        ("=1.2.3", "=1.2.3"),
        (">= 1.0", ">=1.0"),
        (">=1.0,<2.0", ">=1.0, <2.0"),
        ("~1.2", "~1.2"),
        ("1.*", "1.*"),
        ("1.2.*", "1.2.*"),
        ("*", "*"),
        ("1.0.0-rc.1", "^1.0.0-rc.1"),
    ];
    for (text, canonical) in cases {
        let req = VersionReq::parse(text).unwrap();
        assert_eq!(req.as_str(), canonical, "{text:?}");
        assert_eq!(req.to_string(), canonical);
        assert_eq!(req.clone().as_str(), canonical);
    }
}

#[test]
fn requirement_parse_rejects_what_is_no_requirement() {
    for text in ["", ">a.b", "@1.0.0", "^1.0.0, ", ">=1.0 <2.0", "*.*", "latest", "1.0.0 beta"] {
        assert!(VersionReq::parse(text).is_none(), "{text:?} was accepted");
    }
}

#[test]
fn requirement_matches_as_the_range_says() {
    let caret = VersionReq::parse("^1.0.0").unwrap();
    assert!(caret.matches(&v("1.0.0")));
    assert!(caret.matches(&v("1.5.0")));
    assert!(!caret.matches(&v("2.0.0")));
    assert!(!caret.matches(&v("0.9.0")));
    assert!(!caret.matches(&v("1.5.0-beta")));

    let zero = VersionReq::parse("0.2.3").unwrap();
    assert!(zero.matches(&v("0.2.3")));
    assert!(zero.matches(&v("0.2.9")));
    assert!(!zero.matches(&v("0.3.0")));

    let tilde = VersionReq::parse("~1.2.3").unwrap();
    assert!(tilde.matches(&v("1.2.9")));
    assert!(!tilde.matches(&v("1.3.0")));

    let star = VersionReq::parse("*").unwrap();
    assert!(star.matches(&v("0.0.1")));
    assert!(!star.matches(&v("1.0.0-rc.1")));

    let pre = VersionReq::parse("1.0.0-rc.1").unwrap();
    assert!(pre.matches(&v("1.0.0-rc.2")));
    assert!(pre.matches(&v("1.0.0")));
    assert!(!pre.matches(&v("1.0.0-alpha")));
}

#[test]
fn requirement_matching_depends_on_both_sides() {
    let req = VersionReq::parse(">=2.0").unwrap();
    assert!(req.matches(&v("2.0.0")));
    assert!(!req.matches(&v("1.9.9")));
    let other = VersionReq::parse("<2.0").unwrap();
    assert!(!other.matches(&v("2.0.0")));
    assert!(other.matches(&v("1.9.9")));
}

use cargo_registry::error::DecodeError;
use cargo_registry::release::{CrateDependency, NewCrate, RawDependency, RawNewCrate};
use cargo_registry::upload::{
    CrateName, CrateVersion, CrateVersionReq, DependencyKind, Feature, Keyword, KeywordList,
};
use cargo_registry::version::decimal_string;

fn strings(v: &[&str]) -> Vec<String> {
    v.iter().map(|s| s.to_string()).collect()
}

fn payload(vers: &str) -> RawNewCrate {
    RawNewCrate {
        name: "my_crate".to_string(),
        vers: vers.to_string(),
        deps: vec![],
        features: vec![],
        authors: vec![],
        description: None,
        homepage: None,
        documentation: None,
        readme: None,
        keywords: Some(strings(&["cli", "tool"])),
        license: None,
        license_file: None,
        repository: None,
    }
}

fn dependency() -> RawDependency {
    RawDependency {
        optional: true,
        default_features: false,
        name: "serde".to_string(),
        features: strings(&["derive", "serde/std"]),
        version_req: "^1.0".to_string(),
        target: Some("cfg(unix)".to_string()),
        kind: Some("dev".to_string()),
    }
}

#[test]
fn accepted_names_round_trip() {
    for s in ["my_crate", "a", "Foo-bar_9"] {
        let n = CrateName::decode(s.to_string()).unwrap();
        assert_eq!(n.encode(), s);
        assert_eq!(n.as_str(), s);
    }
}

#[test]
fn rejected_names_fail() {
    for s in ["", "9lives", "_x", "with space", "caf\u{e9}", "a/b"] {
        match CrateName::decode(s.to_string()) {
            Err(DecodeError::InvalidName(bad)) => assert_eq!(bad, s),
            other => panic!("unexpected {:?}", other.map(|n| n.encode())),
        }
    }
}

#[test]
fn keywords_and_features() {
    assert_eq!(Keyword::decode("9p".to_string()).unwrap().encode(), "9p");
    assert!(matches!(Keyword::decode("-x".to_string()), Err(DecodeError::InvalidKeyword(_))));
    assert_eq!(Feature::decode("serde/std".to_string()).unwrap().as_str(), "serde/std");
    for s in ["a/b/c", "/std", "serde/", "9"] {
        assert!(matches!(
            Feature::decode(s.to_string()),
            Err(DecodeError::InvalidFeatureName(bad)) if bad == s
        ));
    }
}

#[test]
fn version_round_trips_through_canonical_text() {
    for s in ["1.2.3", "0.0.0", "10.20.30-alpha.1+build.5", "1.0.0+001", "18446744073709551615.0.7"] {
        let v = CrateVersion::decode(s.to_string()).unwrap();
        let text = v.encode();
        assert_eq!(text, s);
        let again = CrateVersion::decode(text).unwrap();
        assert_eq!(again.version().major, v.version().major);
        assert_eq!(again.version().pre, v.version().pre);
        assert_eq!(again.version().build, v.version().build);
        assert_eq!(semver::Version::parse(&again.encode()).unwrap(), semver::Version::parse(s).unwrap());
    }
}

#[test]
fn invalid_versions_fail() {
    for s in ["not-a-version", "1.2", "01.2.3", " 1.2.3", ""] {
        match CrateVersion::decode(s.to_string()) {
            Err(DecodeError::InvalidSemver(bad)) => assert_eq!(bad, s),
            _ => panic!("{} should be rejected", s),
        }
    }
}

#[test]
fn version_requirements() {
    let r = CrateVersionReq::decode(">=1.2.3, <1.8.0".to_string()).unwrap();
    assert_eq!(r.encode(), ">=1.2.3, <1.8.0");
    assert!(r.requirement().matches(&semver::Version::parse("1.3.0").unwrap()));
    let bare = CrateVersionReq::decode("1.2".to_string()).unwrap();
    assert_eq!(bare.encode(), "^1.2");
    assert_eq!(bare.requirement(), &semver::VersionReq::parse("^1.2").unwrap());
    assert!(matches!(
        CrateVersionReq::decode("~>1".to_string()),
        Err(DecodeError::InvalidVersionReq(bad)) if bad == "~>1"
    ));
}

#[test]
fn six_keywords_are_too_many() {
    let r = KeywordList::decode(&strings(&["a", "b", "c", "d", "e", "f"]));
    assert!(matches!(r, Err(DecodeError::TooManyKeywords)));
}

#[test]
fn twenty_character_keyword_is_too_long() {
    let long = "abcdefghijklmnopqrst";
    assert_eq!(long.len(), 20);
    let r = KeywordList::decode(&strings(&["a", "b", "c", "d", long]));
    assert!(matches!(r, Err(DecodeError::KeywordTooLong)));
}

#[test]
fn five_short_keywords_are_accepted() {
    let raw = strings(&["a", "b", "c", "d", "abcdefghijklmnopqrs"]);
    let l = KeywordList::decode(&raw).unwrap();
    assert_eq!(l.keywords().len(), 5);
    assert_eq!(l.encode(), raw);
}

#[test]
fn invalid_keyword_is_reported_before_count() {
    let r = KeywordList::decode(&strings(&["a", "b", "c", "d", "e", "f", "no way"]));
    assert!(matches!(r, Err(DecodeError::InvalidKeyword(bad)) if bad == "no way"));
    assert!(matches!(KeywordList::decode(&vec![]), Ok(l) if l.keywords().is_empty()));
}

#[test]
fn dependency_kinds_round_trip() {
    let cases = [
        ("dev", DependencyKind::Dev),
        ("build", DependencyKind::Build),
        ("normal", DependencyKind::Normal),
    ];
    for (s, k) in cases {
        let d = DependencyKind::decode(s.to_string()).unwrap();
        assert_eq!(d, k);
        assert_eq!(d.encode(), s);
    }
}

#[test]
fn unknown_dependency_kind_fails() {
    for s in ["release", "Dev", "dev "] {
        match DependencyKind::decode(s.to_string()) {
            Err(e) => {
                assert!(matches!(&e, DecodeError::InvalidDependencyKind(bad) if bad == s));
                assert_eq!(
                    e.message(),
                    format!("invalid dependency kind `{}`, must be one of dev, build, or normal", s)
                );
            }
            Ok(_) => panic!("{} should be rejected", s),
        }
    }
}

#[test]
fn error_messages() {
    assert_eq!(DecodeError::InvalidName("x y".to_string()).message(), "invalid crate name specified: x y");
    assert_eq!(DecodeError::InvalidSemver("1".to_string()).message(), "invalid semver: 1");
    assert_eq!(DecodeError::TooManyKeywords.message(), "a maximum of 5 keywords per crate are allowed");
    assert_eq!(DecodeError::KeywordTooLong.message(), "keywords must contain less than 20 characters");
}

#[test]
fn dependency_decodes_every_field() {
    let d = CrateDependency::decode(&dependency()).unwrap();
    assert!(d.optional);
    assert!(!d.default_features);
    assert_eq!(d.name.encode(), "serde");
    assert_eq!(d.features.len(), 2);
    assert_eq!(d.features[1].encode(), "serde/std");
    assert_eq!(d.version_req.encode(), "^1.0");
    assert_eq!(d.target.as_deref(), Some("cfg(unix)"));
    assert_eq!(d.kind, Some(DependencyKind::Dev));
}

#[test]
fn dependency_reports_first_bad_field() {
    let mut raw = dependency();
    raw.features = strings(&["ok", "bad feature"]);
    raw.kind = Some("release".to_string());
    assert!(matches!(
        CrateDependency::decode(&raw),
        Err(DecodeError::InvalidFeatureName(bad)) if bad == "bad feature"
    ));
    raw.features = vec![];
    assert!(matches!(CrateDependency::decode(&raw), Err(DecodeError::InvalidDependencyKind(_))));
    raw.name = "".to_string();
    assert!(matches!(CrateDependency::decode(&raw), Err(DecodeError::InvalidName(_))));
}

#[test]
fn release_payload_decodes() {
    let c = NewCrate::decode(payload("1.2.3")).unwrap();
    assert_eq!(c.name.encode(), "my_crate");
    let v = c.vers.version();
    let expected = semver::Version::parse("1.2.3").unwrap();
    assert_eq!((v.major, v.minor, v.patch), (expected.major, expected.minor, expected.patch));
    assert!(v.pre.is_empty() && v.build.is_empty());
    assert!(c.deps.is_empty());
    assert!(c.features.is_empty());
    assert_eq!(c.keywords.unwrap().encode(), strings(&["cli", "tool"]));
    assert!(c.description.is_none());
}

#[test]
fn release_payload_with_bad_version_fails() {
    match NewCrate::decode(payload("not-a-version")) {
        Err(DecodeError::InvalidSemver(bad)) => assert_eq!(bad, "not-a-version"),
        _ => panic!("expected InvalidSemver"),
    }
}

#[test]
fn release_payload_nested_failures() {
    let mut raw = payload("1.2.3");
    raw.deps = vec![dependency(), dependency()];
    raw.deps[1].version_req = "nope".to_string();
    assert!(matches!(NewCrate::decode(raw.clone()), Err(DecodeError::InvalidVersionReq(_))));

    let mut raw = payload("1.2.3");
    raw.features = vec![
        ("default".to_string(), strings(&["serde"])),
        ("bad key!".to_string(), vec![]),
    ];
    assert!(matches!(NewCrate::decode(raw.clone()), Err(DecodeError::InvalidName(bad)) if bad == "bad key!"));

    raw.features.pop();
    raw.features.push(("extra".to_string(), strings(&["a/b/c"])));
    assert!(matches!(NewCrate::decode(raw.clone()), Err(DecodeError::InvalidFeatureName(_))));

    raw.features.pop();
    raw.keywords = Some(strings(&["a", "b", "c", "d", "e", "f"]));
    assert!(matches!(NewCrate::decode(raw.clone()), Err(DecodeError::TooManyKeywords)));

    raw.keywords = None;
    raw.authors = strings(&["Someone <someone@example.com>"]);
    raw.license = Some("MIT".to_string());
    let c = NewCrate::decode(raw).unwrap();
    assert_eq!(c.features.len(), 1);
    assert_eq!(c.features[0].0.encode(), "default");
    assert_eq!(c.features[0].1[0].encode(), "serde");
    assert_eq!(c.authors, strings(&["Someone <someone@example.com>"]));
    assert_eq!(c.license.as_deref(), Some("MIT"));
    assert!(c.keywords.is_none());
}

#[test]
fn decimal_text() {
    assert_eq!(decimal_string(0), "0");
    assert_eq!(decimal_string(1203), "1203");
    assert_eq!(decimal_string(u64::MAX), "18446744073709551615");
}

#[test]
fn repeated_feature_name_keeps_last_entry() {
    let mut raw = payload("1.2.3");
    raw.features = vec![
        ("a".to_string(), strings(&["x"])),
        ("b".to_string(), vec![]),
        ("a".to_string(), strings(&["y", "z"])),
    ];
    let c = NewCrate::decode(raw).unwrap();
    assert_eq!(c.features.len(), 2);
    assert_eq!(c.features[0].0.encode(), "a");
    let a: Vec<String> = c.features[0].1.iter().map(|f| f.encode()).collect();
    assert_eq!(a, strings(&["y", "z"]));
    assert_eq!(c.features[1].0.encode(), "b");
}

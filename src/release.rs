//! The dependency record and the release payload, decoded all or nothing.
//! Fields are checked in the order they are declared; the first failure is
//! the error of the whole record.

use vstd::prelude::*;
use crate::error::{DecodeError, Failure, first_failure, lemma_first_failure_step, lemma_first_failure_prefix};
use crate::version::{semver_parse, req_parses, req_text_of};
use crate::policy::same_text;
use crate::upload::{CrateName, CrateVersion, CrateVersionReq, DependencyKind, Feature, KeywordList, decode_kind_spec, decode_name_spec, decode_version_spec, decode_keyword_list_spec, failure_of, features_failure, feature_views, or_else, req_failure, texts};

verus! {

/// A dependency as it arrives on the wire.
#[derive(Debug, Clone)]
pub struct RawDependency {
    pub optional: bool,
    pub default_features: bool,
    pub name: String,
    pub features: Vec<String>,
    pub version_req: String,
    pub target: Option<String>,
    pub kind: Option<String>,
}

/// One dependency declared by a release.
pub struct CrateDependency {
    pub optional: bool,
    pub default_features: bool,
    pub name: CrateName,
    pub features: Vec<Feature>,
    pub version_req: CrateVersionReq,
    pub target: Option<String>,
    pub kind: Option<DependencyKind>,
}

/// A release payload as it arrives on the wire. `features` lists the
/// entries of the feature mapping in the order they were read.
#[derive(Debug, Clone)]
pub struct RawNewCrate {
    pub name: String,
    pub vers: String,
    pub deps: Vec<RawDependency>,
    pub features: Vec<(String, Vec<String>)>,
    pub authors: Vec<String>,
    pub description: Option<String>,
    pub homepage: Option<String>,
    pub documentation: Option<String>,
    pub readme: Option<String>,
    pub keywords: Option<Vec<String>>,
    pub license: Option<String>,
    pub license_file: Option<String>,
    pub repository: Option<String>,
}

/// A release whose every field passed its check.
pub struct NewCrate {
    pub name: CrateName,
    pub vers: CrateVersion,
    pub deps: Vec<CrateDependency>,
    pub features: Vec<(CrateName, Vec<Feature>)>,
    pub authors: Vec<String>,
    pub description: Option<String>,
    pub homepage: Option<String>,
    pub documentation: Option<String>,
    pub readme: Option<String>,
    pub keywords: Option<KeywordList>,
    pub license: Option<String>,
    pub license_file: Option<String>,
    pub repository: Option<String>,
}

pub open spec fn kind_failure(k: Option<String>) -> Option<Failure> {
    match k {
        Some(s) => failure_of(decode_kind_spec(s@)),
        None => None,
    }
}

/// The first failing field of a dependency: name, features, requirement, kind.
pub open spec fn dependency_failure(raw: RawDependency) -> Option<Failure> {
    or_else(
        failure_of(decode_name_spec(raw.name@)),
        or_else(
            features_failure(texts(raw.features@)),
            or_else(req_failure(raw.version_req@), kind_failure(raw.kind)),
        ),
    )
}

/// `d` holds the checked values of the fields of `raw`.
pub open spec fn dependency_decoded(d: CrateDependency, raw: RawDependency) -> bool {
    &&& d.optional == raw.optional
    &&& d.default_features == raw.default_features
    &&& d.name@ == raw.name@
    &&& feature_views(d.features@) == texts(raw.features@)
    &&& req_parses(raw.version_req@)
    &&& d.version_req.text() == req_text_of(raw.version_req@)
    &&& d.target == raw.target
    &&& d.kind == match raw.kind {
        Some(s) => Some(decode_kind_spec(s@)->Ok_0),
        None => None,
    }
}

pub open spec fn deps_failure(ds: Seq<RawDependency>) -> Option<Failure> {
    first_failure(ds.map_values(|d: RawDependency| dependency_failure(d)))
}

pub open spec fn entry_failure(e: (String, Vec<String>)) -> Option<Failure> {
    or_else(failure_of(decode_name_spec(e.0@)), features_failure(texts(e.1@)))
}

pub open spec fn feature_map_failure(es: Seq<(String, Vec<String>)>) -> Option<Failure> {
    first_failure(es.map_values(|e: (String, Vec<String>)| entry_failure(e)))
}

/// `e` holds the checked values of the last entry of the first `n` of `raw`
/// with its name.
pub open spec fn feature_entry_matches(
    e: (CrateName, Vec<Feature>),
    raw: Seq<(String, Vec<String>)>,
    n: int,
) -> bool {
    exists|m: int|
        0 <= m < n && raw[m].0@ == e.0@ && feature_views(e.1@) == texts(raw[m].1@) && forall|
            m2: int,
        | m < m2 < n ==> #[trigger] raw[m2].0@ != e.0@
}

/// `out` is the mapping that the first `n` entries of `raw` make when each
/// is inserted in turn: names are distinct, each holds the features of its
/// last entry, and every name of those entries is present.
pub open spec fn feature_map_decoded(
    out: Seq<(CrateName, Vec<Feature>)>,
    raw: Seq<(String, Vec<String>)>,
    n: int,
) -> bool {
    &&& forall|a: int, b: int| 0 <= a < b < out.len() ==> (#[trigger] out[a]).0@ != (#[trigger] out[b]).0@
    &&& forall|a: int| 0 <= a < out.len() ==> #[trigger] feature_entry_matches(out[a], raw, n)
    &&& forall|m: int|
        #![trigger raw[m]]
        0 <= m < n ==> exists|a: int| 0 <= a < out.len() && (#[trigger] out[a]).0@ == raw[m].0@
}

pub open spec fn keyword_field_failure(k: Option<Vec<String>>) -> Option<Failure> {
    match k {
        Some(v) => failure_of(decode_keyword_list_spec(texts(v@))),
        None => None,
    }
}

/// The first failing field of a release: name, version, dependencies,
/// features, keywords.
pub open spec fn new_crate_failure(raw: RawNewCrate) -> Option<Failure> {
    or_else(
        failure_of(decode_name_spec(raw.name@)),
        or_else(
            failure_of(decode_version_spec(raw.vers@)),
            or_else(
                deps_failure(raw.deps@),
                or_else(feature_map_failure(raw.features@), keyword_field_failure(raw.keywords)),
            ),
        ),
    )
}

/// `c` holds the checked values of the fields of `raw`; unchecked fields are
/// carried over as they were.
pub open spec fn new_crate_decoded(c: NewCrate, raw: RawNewCrate) -> bool {
    &&& c.name@ == raw.name@
    &&& Some(c.vers@) == semver_parse(raw.vers@)
    &&& c.deps@.len() == raw.deps@.len()
    &&& forall|i: int|
        0 <= i < c.deps@.len() ==> dependency_decoded(#[trigger] c.deps@[i], raw.deps@[i])
    &&& feature_map_decoded(c.features@, raw.features@, raw.features@.len() as int)
    &&& c.authors == raw.authors
    &&& c.description == raw.description
    &&& c.homepage == raw.homepage
    &&& c.documentation == raw.documentation
    &&& c.readme == raw.readme
    &&& c.license == raw.license
    &&& c.license_file == raw.license_file
    &&& c.repository == raw.repository
    &&& match raw.keywords {
        Some(v) => c.keywords is Some && c.keywords->0@ == texts(v@),
        None => c.keywords is None,
    }
}

impl CrateDependency {
    /// Decodes a dependency; fails with the error of its first bad field.
    pub fn decode(raw: &RawDependency) -> (r: Result<CrateDependency, DecodeError>)
        ensures
            match r {
                Ok(d) => dependency_failure(*raw) is None && dependency_decoded(d, *raw),
                Err(e) => dependency_failure(*raw) == Some(e@),
            },
    {
        let name = match CrateName::decode(raw.name.clone()) {
            Ok(n) => n,
            Err(e) => return Err(e),
        };
        let features = match Feature::decode_all(&raw.features) {
            Ok(f) => f,
            Err(e) => return Err(e),
        };
        let version_req = match CrateVersionReq::decode(raw.version_req.clone()) {
            Ok(v) => v,
            Err(e) => return Err(e),
        };
        let kind = match &raw.kind {
            Some(s) => match DependencyKind::decode(s.clone()) {
                Ok(k) => Some(k),
                Err(e) => return Err(e),
            },
            None => None,
        };
        let target = match &raw.target {
            Some(t) => Some(t.clone()),
            None => None,
        };
        Ok(
            CrateDependency {
                optional: raw.optional,
                default_features: raw.default_features,
                name,
                features,
                version_req,
                target,
                kind,
            },
        )
    }
}

/// Decodes each dependency in order; the first failure is the error.
fn decode_deps(raw: &Vec<RawDependency>) -> (r: Result<Vec<CrateDependency>, DecodeError>)
    ensures
        match r {
            Ok(v) => deps_failure(raw@) is None && v@.len() == raw@.len() && forall|i: int|
                0 <= i < v@.len() ==> dependency_decoded(#[trigger] v@[i], raw@[i]),
            Err(e) => deps_failure(raw@) == Some(e@),
        },
{
    let ghost fs = raw@.map_values(|d: RawDependency| dependency_failure(d));
    let mut out: Vec<CrateDependency> = Vec::new();
    let mut i: usize = 0;
    while i < raw.len()
        invariant
            i <= raw@.len(),
            fs == raw@.map_values(|d: RawDependency| dependency_failure(d)),
            out@.len() == i,
            forall|j: int| 0 <= j < i ==> dependency_decoded(#[trigger] out@[j], raw@[j]),
            first_failure(fs.take(i as int)) is None,
        decreases raw@.len() - i,
    {
        proof {
            lemma_first_failure_step(fs, i as int);
        }
        match CrateDependency::decode(&raw[i]) {
            Ok(d) => {
                out.push(d);
            },
            Err(e) => {
                proof {
                    lemma_first_failure_prefix(fs, i + 1);
                }
                return Err(e);
            },
        }
        i = i + 1;
    }
    assert(fs.take(i as int) =~= fs);
    Ok(out)
}

/// Where `key` stands among the decoded entries, if it does.
fn position_of(out: &Vec<(CrateName, Vec<Feature>)>, key: &CrateName) -> (r: Option<usize>)
    ensures
        match r {
            Some(p) => p < out@.len() && out@[p as int].0@ == key@,
            None => forall|j: int| 0 <= j < out@.len() ==> (#[trigger] out@[j]).0@ != key@,
        },
{
    let mut j: usize = 0;
    while j < out.len()
        invariant
            j <= out@.len(),
            forall|m: int| 0 <= m < j ==> (#[trigger] out@[m]).0@ != key@,
        decreases out@.len() - j,
    {
        if same_text(out[j].0.as_str(), key.as_str()) {
            return Some(j);
        }
        j = j + 1;
    }
    None
}

/// Decodes each feature-mapping entry in order, its name before its
/// features; the first failure is the error. An entry whose name was seen
/// before replaces the earlier entry's features, as a map insert does.
fn decode_feature_map(raw: &Vec<(String, Vec<String>)>) -> (r: Result<
    Vec<(CrateName, Vec<Feature>)>,
    DecodeError,
>)
    ensures
        match r {
            Ok(v) => feature_map_failure(raw@) is None && feature_map_decoded(
                v@,
                raw@,
                raw@.len() as int,
            ),
            Err(e) => feature_map_failure(raw@) == Some(e@),
        },
{
    let ghost fs = raw@.map_values(|e: (String, Vec<String>)| entry_failure(e));
    let mut out: Vec<(CrateName, Vec<Feature>)> = Vec::new();
    let mut i: usize = 0;
    while i < raw.len()
        invariant
            i <= raw@.len(),
            fs == raw@.map_values(|e: (String, Vec<String>)| entry_failure(e)),
            feature_map_decoded(out@, raw@, i as int),
            first_failure(fs.take(i as int)) is None,
        decreases raw@.len() - i,
    {
        proof {
            lemma_first_failure_step(fs, i as int);
        }
        let entry = &raw[i];
        let key = match CrateName::decode(entry.0.clone()) {
            Ok(k) => k,
            Err(e) => {
                proof {
                    lemma_first_failure_prefix(fs, i + 1);
                }
                return Err(e);
            },
        };
        let values = match Feature::decode_all(&entry.1) {
            Ok(v) => v,
            Err(e) => {
                proof {
                    lemma_first_failure_prefix(fs, i + 1);
                }
                return Err(e);
            },
        };
        let ghost before = out@;
        let ghost n = i as int;
        match position_of(&out, &key) {
            Some(p) => {
                out.set(p, (key, values));
                proof {
                    assert forall|a: int| 0 <= a < out@.len() implies #[trigger] feature_entry_matches(
                        out@[a],
                        raw@,
                        n + 1,
                    ) by {
                        if a == p {
                            assert(raw@[n].0@ == out@[a].0@);
                        } else {
                            assert(out@[a] == before[a]);
                            assert(feature_entry_matches(before[a], raw@, n));
                            let m = choose|m: int|
                                0 <= m < n && raw@[m].0@ == before[a].0@ && feature_views(before[a].1@)
                                    == texts(raw@[m].1@) && forall|m2: int|
                                    m < m2 < n ==> #[trigger] raw@[m2].0@ != before[a].0@;
                            if a < p {
                                assert(before[a].0@ != before[p as int].0@);
                            } else {
                                assert(before[p as int].0@ != before[a].0@);
                            }
                            assert(raw@[n].0@ == key@);
                            assert forall|m2: int| m < m2 < n + 1 implies #[trigger] raw@[m2].0@
                                != out@[a].0@ by {}
                        }
                    }
                    assert forall|m: int| #![trigger raw@[m]] 0 <= m < n + 1 implies exists|a: int|
                        0 <= a < out@.len() && (#[trigger] out@[a]).0@ == raw@[m].0@ by {
                        if m == n {
                            assert(out@[p as int].0@ == raw@[m].0@);
                        } else {
                            let a = choose|a: int|
                                0 <= a < before.len() && (#[trigger] before[a]).0@ == raw@[m].0@;
                            assert(out@[a].0@ == raw@[m].0@);
                        }
                    }
                }
            },
            None => {
                out.push((key, values));
                proof {
                    assert forall|a: int| 0 <= a < out@.len() implies #[trigger] feature_entry_matches(
                        out@[a],
                        raw@,
                        n + 1,
                    ) by {
                        if a == before.len() {
                            assert(raw@[n].0@ == out@[a].0@);
                        } else {
                            assert(out@[a] == before[a]);
                            assert(feature_entry_matches(before[a], raw@, n));
                            assert(before[a].0@ != key@);
                            assert(raw@[n].0@ == key@);
                            let m = choose|m: int|
                                0 <= m < n && raw@[m].0@ == before[a].0@ && feature_views(before[a].1@)
                                    == texts(raw@[m].1@) && forall|m2: int|
                                    m < m2 < n ==> #[trigger] raw@[m2].0@ != before[a].0@;
                            assert forall|m2: int| m < m2 < n + 1 implies #[trigger] raw@[m2].0@
                                != out@[a].0@ by {}
                        }
                    }
                    assert forall|m: int| #![trigger raw@[m]] 0 <= m < n + 1 implies exists|a: int|
                        0 <= a < out@.len() && (#[trigger] out@[a]).0@ == raw@[m].0@ by {
                        if m == n {
                            assert(out@[before.len() as int].0@ == raw@[m].0@);
                        } else {
                            let a = choose|a: int|
                                0 <= a < before.len() && (#[trigger] before[a]).0@ == raw@[m].0@;
                            assert(out@[a].0@ == raw@[m].0@);
                        }
                    }
                }
            },
        }
        i = i + 1;
    }
    assert(fs.take(i as int) =~= fs);
    Ok(out)
}

impl NewCrate {
    /// Decodes a release payload; fails with the error of its first bad
    /// field, and builds nothing in that case.
    pub fn decode(raw: RawNewCrate) -> (r: Result<NewCrate, DecodeError>)
        ensures
            match r {
                Ok(c) => new_crate_failure(raw) is None && new_crate_decoded(c, raw),
                Err(e) => new_crate_failure(raw) == Some(e@),
            },
    {
        let name = match CrateName::decode(raw.name.clone()) {
            Ok(n) => n,
            Err(e) => return Err(e),
        };
        let vers = match CrateVersion::decode(raw.vers.clone()) {
            Ok(v) => v,
            Err(e) => return Err(e),
        };
        let deps = match decode_deps(&raw.deps) {
            Ok(d) => d,
            Err(e) => return Err(e),
        };
        let features = match decode_feature_map(&raw.features) {
            Ok(f) => f,
            Err(e) => return Err(e),
        };
        let keywords = match &raw.keywords {
            Some(k) => match KeywordList::decode(k) {
                Ok(l) => Some(l),
                Err(e) => return Err(e),
            },
            None => None,
        };
        Ok(
            NewCrate {
                name,
                vers,
                deps,
                features,
                authors: raw.authors,
                description: raw.description,
                homepage: raw.homepage,
                documentation: raw.documentation,
                readme: raw.readme,
                keywords,
                license: raw.license,
                license_file: raw.license_file,
                repository: raw.repository,
            },
        )
    }
}

} // verus!

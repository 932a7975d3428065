//! The validated scalar types of a publish payload and the records built
//! from them. Each scalar is checked once, when it is decoded from its raw
//! string form, and encodes back to a string.

use vstd::prelude::*;
use crate::error::{DecodeError, Failure, first_failure, lemma_first_failure_step, lemma_first_failure_prefix};
use crate::policy::{valid_crate_name, valid_keyword, valid_feature_name, valid_name, valid_keyword_name, valid_feature, same_text};
use crate::version::{SemVer, semver_parse, req_parses, req_text_of, version_text, parse_req};

verus! {

/// A package name accepted by the naming rules.
#[derive(Debug)]
pub struct CrateName(String);

/// A semantic version.
#[derive(Debug, Clone)]
pub struct CrateVersion(pub SemVer);

/// A version requirement, with the canonical text `semver` writes for it.
pub struct CrateVersionReq(semver::VersionReq, String);

/// At most five keywords, each shorter than twenty characters.
#[derive(Debug)]
pub struct KeywordList(Vec<Keyword>);

/// A keyword accepted by the naming rules.
#[derive(Debug)]
pub struct Keyword(String);

/// A feature name accepted by the naming rules.
#[derive(Debug)]
pub struct Feature(String);

/// The role of a dependency.
#[derive(Debug, Clone, Copy, PartialEq, Eq, Structural)]
pub enum DependencyKind {
    Normal,
    Build,
    Dev,
}

/// The most keywords a release may declare.
pub const MAX_KEYWORDS: usize = 5;

/// Every keyword is shorter than this many characters.
pub const KEYWORD_LEN_LIMIT: usize = 20;

impl View for CrateName {
    type V = Seq<char>;

    closed spec fn view(&self) -> Seq<char> {
        self.0@
    }
}

impl View for Keyword {
    type V = Seq<char>;

    closed spec fn view(&self) -> Seq<char> {
        self.0@
    }
}

impl View for Feature {
    type V = Seq<char>;

    closed spec fn view(&self) -> Seq<char> {
        self.0@
    }
}

impl View for CrateVersion {
    type V = (u64, u64, u64, Seq<char>, Seq<char>);

    open spec fn view(&self) -> (u64, u64, u64, Seq<char>, Seq<char>) {
        self.0@
    }
}

impl View for KeywordList {
    type V = Seq<Seq<char>>;

    closed spec fn view(&self) -> Seq<Seq<char>> {
        keyword_views(self.0@)
    }
}

/// The characters of each string.
pub open spec fn texts(v: Seq<String>) -> Seq<Seq<char>> {
    v.map_values(|s: String| s@)
}

pub open spec fn view_result<T: View>(r: Result<T, DecodeError>) -> Result<T::V, Failure> {
    match r {
        Ok(v) => Ok(v@),
        Err(e) => Err(e@),
    }
}

pub open spec fn failure_of<V>(r: Result<V, Failure>) -> Option<Failure> {
    match r {
        Ok(_) => None,
        Err(f) => Some(f),
    }
}

/// The first of two failures, checking `a` before `b`.
pub open spec fn or_else(a: Option<Failure>, b: Option<Failure>) -> Option<Failure> {
    if a is Some {
        a
    } else {
        b
    }
}

pub open spec fn decode_name_spec(s: Seq<char>) -> Result<Seq<char>, Failure> {
    if valid_crate_name(s) {
        Ok(s)
    } else {
        Err(Failure::InvalidName(s))
    }
}

pub open spec fn decode_keyword_spec(s: Seq<char>) -> Result<Seq<char>, Failure> {
    if valid_keyword(s) {
        Ok(s)
    } else {
        Err(Failure::InvalidKeyword(s))
    }
}

pub open spec fn decode_feature_spec(s: Seq<char>) -> Result<Seq<char>, Failure> {
    if valid_feature_name(s) {
        Ok(s)
    } else {
        Err(Failure::InvalidFeatureName(s))
    }
}

pub open spec fn decode_version_spec(s: Seq<char>) -> Result<
    (u64, u64, u64, Seq<char>, Seq<char>),
    Failure,
> {
    match semver_parse(s) {
        Some(v) => Ok(v),
        None => Err(Failure::InvalidSemver(s)),
    }
}

pub open spec fn req_failure(s: Seq<char>) -> Option<Failure> {
    if req_parses(s) {
        None
    } else {
        Some(Failure::InvalidVersionReq(s))
    }
}

/// The text each dependency kind is written as.
pub open spec fn kind_text(k: DependencyKind) -> Seq<char> {
    match k {
        DependencyKind::Normal => seq!['n', 'o', 'r', 'm', 'a', 'l'],
        DependencyKind::Build => seq!['b', 'u', 'i', 'l', 'd'],
        DependencyKind::Dev => seq!['d', 'e', 'v'],
    }
}

pub open spec fn decode_kind_spec(s: Seq<char>) -> Result<DependencyKind, Failure> {
    if s == kind_text(DependencyKind::Dev) {
        Ok(DependencyKind::Dev)
    } else if s == kind_text(DependencyKind::Build) {
        Ok(DependencyKind::Build)
    } else if s == kind_text(DependencyKind::Normal) {
        Ok(DependencyKind::Normal)
    } else {
        Err(Failure::InvalidDependencyKind(s))
    }
}

/// The first keyword that the naming rules reject.
pub open spec fn keywords_failure(raw: Seq<Seq<char>>) -> Option<Failure> {
    first_failure(raw.map_values(|k: Seq<char>| failure_of(decode_keyword_spec(k))))
}

/// The first feature name that the naming rules reject.
pub open spec fn features_failure(raw: Seq<Seq<char>>) -> Option<Failure> {
    first_failure(raw.map_values(|f: Seq<char>| failure_of(decode_feature_spec(f))))
}

pub open spec fn decode_features_spec(raw: Seq<Seq<char>>) -> Result<Seq<Seq<char>>, Failure> {
    match features_failure(raw) {
        Some(f) => Err(f),
        None => Ok(raw),
    }
}

/// Keywords are checked one by one, then their count, then their lengths.
pub open spec fn decode_keyword_list_spec(raw: Seq<Seq<char>>) -> Result<Seq<Seq<char>>, Failure> {
    match keywords_failure(raw) {
        Some(f) => Err(f),
        None => if raw.len() > MAX_KEYWORDS {
            Err(Failure::TooManyKeywords)
        } else if exists|i: int| 0 <= i < raw.len() && #[trigger] raw[i].len() >= KEYWORD_LEN_LIMIT {
            Err(Failure::KeywordTooLong)
        } else {
            Ok(raw)
        },
    }
}

pub open spec fn keyword_views(v: Seq<Keyword>) -> Seq<Seq<char>> {
    v.map_values(|k: Keyword| k@)
}

pub open spec fn feature_views(v: Seq<Feature>) -> Seq<Seq<char>> {
    v.map_values(|f: Feature| f@)
}

impl CrateName {
    /// Every package name satisfies the naming rules.
    #[verifier::type_invariant]
    spec fn inv(&self) -> bool {
        valid_crate_name(self.0@)
    }


    /// Accepts `s` unchanged when the naming rules allow it as a package name.
    pub fn decode(s: String) -> (r: Result<CrateName, DecodeError>)
        ensures
            view_result(r) == decode_name_spec(s@),
    {
        if valid_name(s.as_str()) {
            Ok(CrateName(s))
        } else {
            Err(DecodeError::InvalidName(s))
        }
    }

    pub fn encode(&self) -> (t: String)
        ensures
            t@ == self@,
            valid_crate_name(t@),
    {
        proof {
            use_type_invariant(self);
        }
        self.0.clone()
    }

    pub fn as_str(&self) -> (s: &str)
        ensures
            s@ == self@,
            valid_crate_name(s@),
    {
        proof {
            use_type_invariant(self);
        }
        self.0.as_str()
    }
}

impl Keyword {
    /// Every keyword satisfies the naming rules.
    #[verifier::type_invariant]
    spec fn inv(&self) -> bool {
        valid_keyword(self.0@)
    }


    /// Accepts `s` unchanged when the naming rules allow it as a keyword.
    pub fn decode(s: String) -> (r: Result<Keyword, DecodeError>)
        ensures
            view_result(r) == decode_keyword_spec(s@),
    {
        if valid_keyword_name(s.as_str()) {
            Ok(Keyword(s))
        } else {
            Err(DecodeError::InvalidKeyword(s))
        }
    }

    pub fn encode(&self) -> (t: String)
        ensures
            t@ == self@,
            valid_keyword(t@),
    {
        proof {
            use_type_invariant(self);
        }
        self.0.clone()
    }

    pub fn as_str(&self) -> (s: &str)
        ensures
            s@ == self@,
            valid_keyword(s@),
    {
        proof {
            use_type_invariant(self);
        }
        self.0.as_str()
    }
}

impl Feature {
    /// Every feature name satisfies the naming rules.
    #[verifier::type_invariant]
    spec fn inv(&self) -> bool {
        valid_feature_name(self.0@)
    }


    /// Accepts `s` unchanged when the naming rules allow it as a feature name.
    pub fn decode(s: String) -> (r: Result<Feature, DecodeError>)
        ensures
            view_result(r) == decode_feature_spec(s@),
    {
        if valid_feature(s.as_str()) {
            Ok(Feature(s))
        } else {
            Err(DecodeError::InvalidFeatureName(s))
        }
    }

    /// Decodes each name in order; the first rejected one is the error.
    pub fn decode_all(raw: &Vec<String>) -> (r: Result<Vec<Feature>, DecodeError>)
        ensures
            match r {
                Ok(v) => decode_features_spec(texts(raw@)) == Ok::<Seq<Seq<char>>, Failure>(feature_views(v@)),
                Err(e) => decode_features_spec(texts(raw@)) == Err::<Seq<Seq<char>>, Failure>(e@),
            },
    {
        let ghost fs = texts(raw@).map_values(|f: Seq<char>| failure_of(decode_feature_spec(f)));
        let mut out: Vec<Feature> = Vec::new();
        let mut i: usize = 0;
        while i < raw.len()
            invariant
                i <= raw@.len(),
                fs.len() == raw@.len(),
                fs == texts(raw@).map_values(|f: Seq<char>| failure_of(decode_feature_spec(f))),
                out@.len() == i,
                feature_views(out@) =~= texts(raw@).take(i as int),
                first_failure(fs.take(i as int)) is None,
            decreases raw@.len() - i,
        {
            proof {
                lemma_first_failure_step(fs, i as int);
            }
            let item = raw[i].clone();
            match Feature::decode(item) {
                Ok(f) => {
                    assert(f@ == texts(raw@)[i as int]);
                    let ghost before = out@;
                    out.push(f);
                    assert forall|j: int| 0 <= j < i + 1 implies #[trigger] feature_views(out@)[j]
                        == texts(raw@).take(i + 1)[j] by {
                        if j < i {
                            assert(out@[j] == before[j]);
                            assert(feature_views(before)[j] == texts(raw@).take(i as int)[j]);
                        }
                    }
                    assert(feature_views(out@) =~= texts(raw@).take(i + 1));
                },
                Err(e) => {
                    proof {
                        lemma_first_failure_prefix(fs, i + 1);
                    }
                    return Err(e);
                },
            }
            i = i + 1;
        }
        assert(fs.take(i as int) =~= fs);
        assert(texts(raw@).take(i as int) =~= texts(raw@));
        Ok(out)
    }

    pub fn encode(&self) -> (t: String)
        ensures
            t@ == self@,
            valid_feature_name(t@),
    {
        proof {
            use_type_invariant(self);
        }
        self.0.clone()
    }

    pub fn as_str(&self) -> (s: &str)
        ensures
            s@ == self@,
            valid_feature_name(s@),
    {
        proof {
            use_type_invariant(self);
        }
        self.0.as_str()
    }
}

impl CrateVersion {
    /// Parses `s` as a semantic version. Encoding the result gives a text
    /// that parses back to the same version.
    pub fn decode(s: String) -> (r: Result<CrateVersion, DecodeError>)
        ensures
            view_result(r) == decode_version_spec(s@),
            r is Ok ==> decode_version_spec(version_text(r->Ok_0@)) == Ok::<(u64, u64, u64, Seq<char>, Seq<char>), Failure>(r->Ok_0@),
    {
        match SemVer::parse(s.as_str()) {
            Some(v) => Ok(CrateVersion(v)),
            None => Err(DecodeError::InvalidSemver(s)),
        }
    }

    /// The canonical text of the version.
    pub fn encode(&self) -> (t: String)
        ensures
            t@ == version_text(self@),
    {
        self.0.to_text()
    }

    pub fn version(&self) -> (v: &SemVer)
        ensures
            v@ == self@,
    {
        &self.0
    }
}

impl CrateVersionReq {
    /// The parsed requirement.
    pub closed spec fn req(&self) -> semver::VersionReq {
        self.0
    }

    /// The canonical text of the requirement.
    pub closed spec fn text(&self) -> Seq<char> {
        self.1@
    }

    /// Parses `s` as a version requirement.
    pub fn decode(s: String) -> (r: Result<CrateVersionReq, DecodeError>)
        ensures
            match r {
                Ok(v) => req_failure(s@) is None && v.text() == req_text_of(s@),
                Err(e) => req_failure(s@) == Some(e@),
            },
    {
        match parse_req(s.as_str()) {
            Some((req, text)) => Ok(CrateVersionReq(req, text)),
            None => Err(DecodeError::InvalidVersionReq(s)),
        }
    }

    /// The canonical text of the requirement, as `semver` writes it.
    pub fn encode(&self) -> (t: String)
        ensures
            t@ == self.text(),
    {
        self.1.clone()
    }

    pub fn requirement(&self) -> (r: &semver::VersionReq)
        ensures
            *r == self.req(),
    {
        &self.0
    }
}

impl KeywordList {
    /// A list holds at most five keywords, each shorter than twenty characters.
    #[verifier::type_invariant]
    spec fn inv(&self) -> bool {
        &&& self.0@.len() <= MAX_KEYWORDS
        &&& forall|i: int| 0 <= i < self.0@.len() ==> (#[trigger] self.0@[i])@.len() < KEYWORD_LEN_LIMIT
    }


    /// Decodes each keyword in order (the first rejected one is the error),
    /// then rejects more than five keywords, then any keyword of twenty
    /// characters or more.
    pub fn decode(raw: &Vec<String>) -> (r: Result<KeywordList, DecodeError>)
        ensures
            view_result(r) == decode_keyword_list_spec(texts(raw@)),
    {
        let ghost ks = texts(raw@);
        let ghost fs = ks.map_values(|k: Seq<char>| failure_of(decode_keyword_spec(k)));
        let mut out: Vec<Keyword> = Vec::new();
        let mut i: usize = 0;
        while i < raw.len()
            invariant
                i <= raw@.len(),
                ks == texts(raw@),
                fs.len() == raw@.len(),
                fs == ks.map_values(|k: Seq<char>| failure_of(decode_keyword_spec(k))),
                out@.len() == i,
                keyword_views(out@) =~= ks.take(i as int),
                first_failure(fs.take(i as int)) is None,
            decreases raw@.len() - i,
        {
            proof {
                lemma_first_failure_step(fs, i as int);
            }
            let item = raw[i].clone();
            match Keyword::decode(item) {
                Ok(k) => {
                    assert(k@ == ks[i as int]);
                    let ghost before = out@;
                    out.push(k);
                    assert forall|j: int| 0 <= j < i + 1 implies #[trigger] keyword_views(out@)[j]
                        == ks.take(i + 1)[j] by {
                        if j < i {
                            assert(out@[j] == before[j]);
                            assert(keyword_views(before)[j] == ks.take(i as int)[j]);
                        }
                    }
                    assert(keyword_views(out@) =~= ks.take(i + 1));
                },
                Err(e) => {
                    proof {
                        lemma_first_failure_prefix(fs, i + 1);
                    }
                    return Err(e);
                },
            }
            i = i + 1;
        }
        assert(fs.take(i as int) =~= fs);
        assert(ks.take(i as int) =~= ks);
        if out.len() > MAX_KEYWORDS {
            return Err(DecodeError::TooManyKeywords);
        }
        let mut j: usize = 0;
        while j < out.len()
            invariant
                j <= out@.len() == ks.len() <= MAX_KEYWORDS,
                ks == texts(raw@),
                keywords_failure(ks) is None,
                keyword_views(out@) == ks,
                forall|m: int| 0 <= m < j ==> #[trigger] ks[m].len() < KEYWORD_LEN_LIMIT,
            decreases out@.len() - j,
        {
            assert(ks[j as int] == out@[j as int]@);
            if out[j].0.as_str().unicode_len() >= KEYWORD_LEN_LIMIT {
                assert(ks[j as int].len() >= KEYWORD_LEN_LIMIT);
                assert(keywords_failure(ks) is None);
                return Err(DecodeError::KeywordTooLong);
            }
            j = j + 1;
        }
        assert forall|m: int| 0 <= m < out@.len() implies (#[trigger] out@[m])@.len()
            < KEYWORD_LEN_LIMIT by {
            assert(ks[m] == out@[m]@);
        }
        Ok(KeywordList(out))
    }

    /// Encodes the keywords in order; the list's bounds are not checked again.
    pub fn encode(&self) -> (t: Vec<String>)
        ensures
            texts(t@) == self@,
            t@.len() <= MAX_KEYWORDS,
            forall|i: int| 0 <= i < t@.len() ==> (#[trigger] t@[i])@.len() < KEYWORD_LEN_LIMIT,
    {
        proof {
            use_type_invariant(self);
        }
        let mut t: Vec<String> = Vec::new();
        let mut i: usize = 0;
        while i < self.0.len()
            invariant
                i <= self.0@.len(),
                t@.len() == i,
                texts(t@) =~= self@.take(i as int),
            decreases self.0@.len() - i,
        {
            let k = self.0[i].encode();
            assert(k@ == self@[i as int]);
            let ghost before = t@;
            t.push(k);
            assert forall|j: int| 0 <= j < i + 1 implies #[trigger] texts(t@)[j] == self@.take(
                i + 1,
            )[j] by {
                if j < i {
                    assert(t@[j] == before[j]);
                    assert(texts(before)[j] == self@.take(i as int)[j]);
                }
            }
            assert(texts(t@) =~= self@.take(i + 1));
            i = i + 1;
        }
        assert(self@.take(i as int) =~= self@);
        assert forall|m: int| 0 <= m < t@.len() implies (#[trigger] t@[m])@.len()
            < KEYWORD_LEN_LIMIT by {
            assert(texts(t@)[m] == self@[m]);
            assert(self@[m] == self.0@[m]@);
        }
        t
    }

    pub fn keywords(&self) -> (k: &[Keyword])
        ensures
            keyword_views(k@) == self@,
    {
        self.0.as_slice()
    }
}

impl DependencyKind {
    /// Matches `s` exactly against `"dev"`, `"build"` and `"normal"`.
    pub fn decode(s: String) -> (r: Result<DependencyKind, DecodeError>)
        ensures
            match r {
                Ok(k) => decode_kind_spec(s@) == Ok::<DependencyKind, Failure>(k),
                Err(e) => decode_kind_spec(s@) == Err::<DependencyKind, Failure>(e@),
            },
    {
        proof {
            reveal_strlit("dev");
            reveal_strlit("build");
            reveal_strlit("normal");
            assert("dev"@ =~= kind_text(DependencyKind::Dev));
            assert("build"@ =~= kind_text(DependencyKind::Build));
            assert("normal"@ =~= kind_text(DependencyKind::Normal));
        }
        if same_text(s.as_str(), "dev") {
            Ok(DependencyKind::Dev)
        } else if same_text(s.as_str(), "build") {
            Ok(DependencyKind::Build)
        } else if same_text(s.as_str(), "normal") {
            Ok(DependencyKind::Normal)
        } else {
            Err(DecodeError::InvalidDependencyKind(s))
        }
    }

    /// The text the kind is written as.
    pub fn encode(&self) -> (t: String)
        ensures
            t@ == kind_text(*self),
    {
        proof {
            reveal_strlit("dev");
            reveal_strlit("build");
            reveal_strlit("normal");
        }
        match self {
            DependencyKind::Normal => "normal".to_string(),
            DependencyKind::Build => "build".to_string(),
            DependencyKind::Dev => "dev".to_string(),
        }
    }
}

} // verus!

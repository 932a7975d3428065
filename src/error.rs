//! Decode failures of the publish payload.

use vstd::prelude::*;

verus! {

/// Why a payload value was rejected. Variants that carry a `String` hold the
/// offending raw value.
#[derive(Debug, Clone)]
pub enum DecodeError {
    InvalidName(String),
    InvalidKeyword(String),
    InvalidFeatureName(String),
    InvalidSemver(String),
    InvalidVersionReq(String),
    TooManyKeywords,
    KeywordTooLong,
    InvalidDependencyKind(String),
}

/// The mathematical form of a `DecodeError`.
pub enum Failure {
    InvalidName(Seq<char>),
    InvalidKeyword(Seq<char>),
    InvalidFeatureName(Seq<char>),
    InvalidSemver(Seq<char>),
    InvalidVersionReq(Seq<char>),
    TooManyKeywords,
    KeywordTooLong,
    InvalidDependencyKind(Seq<char>),
}

impl View for DecodeError {
    type V = Failure;

    open spec fn view(&self) -> Failure {
        match self {
            DecodeError::InvalidName(s) => Failure::InvalidName(s@),
            DecodeError::InvalidKeyword(s) => Failure::InvalidKeyword(s@),
            DecodeError::InvalidFeatureName(s) => Failure::InvalidFeatureName(s@),
            DecodeError::InvalidSemver(s) => Failure::InvalidSemver(s@),
            DecodeError::InvalidVersionReq(s) => Failure::InvalidVersionReq(s@),
            DecodeError::TooManyKeywords => Failure::TooManyKeywords,
            DecodeError::KeywordTooLong => Failure::KeywordTooLong,
            DecodeError::InvalidDependencyKind(s) => Failure::InvalidDependencyKind(s@),
        }
    }
}

/// The human-readable text of a failure.
pub open spec fn message_of(f: Failure) -> Seq<char> {
    match f {
        Failure::InvalidName(s) => "invalid crate name specified: "@ + s,
        Failure::InvalidKeyword(s) => "invalid keyword specified: "@ + s,
        Failure::InvalidFeatureName(s) => "invalid feature name specified: "@ + s,
        Failure::InvalidSemver(s) => "invalid semver: "@ + s,
        Failure::InvalidVersionReq(s) => "invalid version req: "@ + s,
        Failure::TooManyKeywords => "a maximum of 5 keywords per crate are allowed"@,
        Failure::KeywordTooLong => "keywords must contain less than 20 characters"@,
        Failure::InvalidDependencyKind(s) => "invalid dependency kind `"@ + s
            + "`, must be one of dev, build, or normal"@,
    }
}

impl DecodeError {
    /// The human-readable text of this error.
    pub fn message(&self) -> (m: String)
        ensures
            m@ == message_of(self@),
    {
        match self {
            DecodeError::InvalidName(s) => {
                let mut m = "invalid crate name specified: ".to_string();
                m.append(s.as_str());
                m
            },
            DecodeError::InvalidKeyword(s) => {
                let mut m = "invalid keyword specified: ".to_string();
                m.append(s.as_str());
                m
            },
            DecodeError::InvalidFeatureName(s) => {
                let mut m = "invalid feature name specified: ".to_string();
                m.append(s.as_str());
                m
            },
            DecodeError::InvalidSemver(s) => {
                let mut m = "invalid semver: ".to_string();
                m.append(s.as_str());
                m
            },
            DecodeError::InvalidVersionReq(s) => {
                let mut m = "invalid version req: ".to_string();
                m.append(s.as_str());
                m
            },
            DecodeError::TooManyKeywords => "a maximum of 5 keywords per crate are allowed".to_string(),
            DecodeError::KeywordTooLong => "keywords must contain less than 20 characters".to_string(),
            DecodeError::InvalidDependencyKind(s) => {
                let mut m = "invalid dependency kind `".to_string();
                m.append(s.as_str());
                m.append("`, must be one of dev, build, or normal");
                m
            },
        }
    }
}

/// The first failure of a sequence of checks run in order, if any.
pub open spec fn first_failure(fs: Seq<Option<Failure>>) -> Option<Failure>
    decreases fs.len(),
{
    if fs.len() == 0 {
        None
    } else {
        match first_failure(fs.drop_last()) {
            Some(f) => Some(f),
            None => fs.last(),
        }
    }
}

/// Extending a prefix without failure by one check yields that check's outcome.
pub proof fn lemma_first_failure_step(fs: Seq<Option<Failure>>, i: int)
    requires
        0 <= i < fs.len(),
        first_failure(fs.take(i)) is None,
    ensures
        first_failure(fs.take(i + 1)) == fs[i],
{
    assert(fs.take(i + 1).drop_last() =~= fs.take(i));
}

/// A failure in the prefix is the failure of the whole sequence.
pub proof fn lemma_first_failure_prefix(fs: Seq<Option<Failure>>, i: int)
    requires
        0 <= i <= fs.len(),
        first_failure(fs.take(i)) is Some,
    ensures
        first_failure(fs) == first_failure(fs.take(i)),
    decreases fs.len() - i,
{
    if i < fs.len() {
        assert(fs.take(i + 1).drop_last() =~= fs.take(i));
        lemma_first_failure_prefix(fs, i + 1);
    } else {
        assert(fs.take(i) =~= fs);
    }
}

} // verus!

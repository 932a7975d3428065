//! Semantic versions and version requirements, parsed by the `semver` crate.

use vstd::prelude::*;

verus! {

/// A parsed semantic version: numeric components, pre-release and build
/// metadata (each empty when absent).
#[derive(Debug, Clone)]
pub struct SemVer {
    pub major: u64,
    pub minor: u64,
    pub patch: u64,
    pub pre: String,
    pub build: String,
}

impl View for SemVer {
    type V = (u64, u64, u64, Seq<char>, Seq<char>);

    open spec fn view(&self) -> (u64, u64, u64, Seq<char>, Seq<char>) {
        (self.major, self.minor, self.patch, self.pre@, self.build@)
    }
}

pub open spec fn digit_char(d: nat) -> char {
    if d == 0 { '0' }
    else if d == 1 { '1' }
    else if d == 2 { '2' }
    else if d == 3 { '3' }
    else if d == 4 { '4' }
    else if d == 5 { '5' }
    else if d == 6 { '6' }
    else if d == 7 { '7' }
    else if d == 8 { '8' }
    else { '9' }
}

/// Decimal digits of `n`, without leading zeros.
pub open spec fn decimal(n: nat) -> Seq<char>
    decreases n,
{
    if n < 10 {
        seq![digit_char(n)]
    } else {
        decimal(n / 10) + seq![digit_char(n % 10)]
    }
}

/// The canonical text of a version: `major.minor.patch`, then `-pre` and
/// `+build` where those are not empty.
pub open spec fn version_text(v: (u64, u64, u64, Seq<char>, Seq<char>)) -> Seq<char> {
    let core = decimal(v.0 as nat) + seq!['.'] + decimal(v.1 as nat) + seq!['.'] + decimal(
        v.2 as nat,
    );
    let with_pre = if v.3.len() == 0 { core } else { core + seq!['-'] + v.3 };
    if v.4.len() == 0 { with_pre } else { with_pre + seq!['+'] + v.4 }
}

/// What `semver::Version::parse` makes of a string: its components, or `None`
/// where the string is not a semantic version.
pub uninterp spec fn semver_parse(s: Seq<char>) -> Option<(u64, u64, u64, Seq<char>, Seq<char>)>;

/// Whether `semver::VersionReq::parse` accepts a string.
pub uninterp spec fn req_parses(s: Seq<char>) -> bool;

#[verifier::external_type_specification]
#[verifier::external_body]
pub struct ExVersionReq(semver::VersionReq);

/// Relies on `semver::Version::parse`, which reads a version into its
/// components, and on its `Display`, which writes them back as `version_text`
/// says; parsing that text gives the same components.
#[verifier::external_body]
fn parse_semver(s: &str) -> (r: Option<SemVer>)
    ensures
        match r {
            Some(v) => semver_parse(s@) == Some(v@),
            None => semver_parse(s@) is None,
        },
        r is Some ==> semver_parse(version_text(r->0@)) == Some(r->0@),
{
    match semver::Version::parse(s) {
        Ok(v) => Some(
            SemVer {
                major: v.major,
                minor: v.minor,
                patch: v.patch,
                pre: v.pre.as_str().to_string(),
                build: v.build.as_str().to_string(),
            },
        ),
        Err(_) => None,
    }
}

/// The text that `semver` writes for the requirement it parses from a string.
pub uninterp spec fn req_text_of(s: Seq<char>) -> Seq<char>;

/// Relies on `semver::VersionReq::parse`, and on the `Display` impl of
/// `semver::VersionReq` for the canonical text of what it parsed.
#[verifier::external_body]
pub(crate) fn parse_req(s: &str) -> (r: Option<(semver::VersionReq, String)>)
    ensures
        r is Some == req_parses(s@),
        r is Some ==> (r->0).1@ == req_text_of(s@),
{
    match semver::VersionReq::parse(s) {
        Ok(req) => {
            let text = req.to_string();
            Some((req, text))
        },
        Err(_) => None,
    }
}

impl SemVer {
    /// Parses a semantic version.
    pub fn parse(s: &str) -> (r: Option<SemVer>)
        ensures
            match r {
                Some(v) => semver_parse(s@) == Some(v@),
                None => semver_parse(s@) is None,
            },
            r is Some ==> semver_parse(version_text(r->0@)) == Some(r->0@),
    {
        parse_semver(s)
    }

    /// The canonical text of this version.
    pub fn to_text(&self) -> (t: String)
        ensures
            t@ == version_text(self@),
    {
        let mut t = decimal_string(self.major);
        t.append(".");
        let minor = decimal_string(self.minor);
        t.append(minor.as_str());
        t.append(".");
        let patch = decimal_string(self.patch);
        t.append(patch.as_str());
        proof {
            reveal_strlit(".");
        }
        if self.pre.as_str().unicode_len() != 0 {
            t.append("-");
            t.append(self.pre.as_str());
            proof {
                reveal_strlit("-");
            }
        }
        if self.build.as_str().unicode_len() != 0 {
            t.append("+");
            t.append(self.build.as_str());
            proof {
                reveal_strlit("+");
            }
        }
        t
    }
}

fn digit_str(d: u64) -> (s: &'static str)
    requires
        d < 10,
    ensures
        s@ == seq![digit_char(d as nat)],
{
    proof {
        reveal_strlit("0");
        reveal_strlit("1");
        reveal_strlit("2");
        reveal_strlit("3");
        reveal_strlit("4");
        reveal_strlit("5");
        reveal_strlit("6");
        reveal_strlit("7");
        reveal_strlit("8");
        reveal_strlit("9");
    }
    if d == 0 { "0" }
    else if d == 1 { "1" }
    else if d == 2 { "2" }
    else if d == 3 { "3" }
    else if d == 4 { "4" }
    else if d == 5 { "5" }
    else if d == 6 { "6" }
    else if d == 7 { "7" }
    else if d == 8 { "8" }
    else { "9" }
}

/// The decimal text of `n`.
pub fn decimal_string(n: u64) -> (s: String)
    ensures
        s@ == decimal(n as nat),
    decreases n,
{
    if n < 10 {
        let d = digit_str(n);
        d.to_string()
    } else {
        let mut s = decimal_string(n / 10);
        let d = digit_str(n % 10);
        s.append(d);
        s
    }
}

} // verus!

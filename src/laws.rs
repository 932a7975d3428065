//! Laws that the decoders and encoders obey together.

use vstd::prelude::*;
use crate::error::Failure;
use crate::policy::valid_crate_name;
use crate::release::{RawNewCrate, new_crate_failure};
use crate::version::semver_parse;
use crate::upload::{DependencyKind, decode_name_spec, decode_kind_spec, decode_keyword_list_spec, kind_text};

verus! {

/// Every string that the naming rules accept as a package name decodes to a
/// name holding that very string, which is also what the name encodes to.
pub proof fn lemma_name_accepted(s: Seq<char>)
    requires
        valid_crate_name(s),
    ensures
        decode_name_spec(s) == Ok::<Seq<char>, Failure>(s),
{
}

/// Every string that the naming rules reject as a package name fails to
/// decode with `InvalidName`, carrying the string.
pub proof fn lemma_name_rejected(s: Seq<char>)
    requires
        !valid_crate_name(s),
    ensures
        decode_name_spec(s) == Err::<Seq<char>, Failure>(Failure::InvalidName(s)),
{
}

/// Each dependency kind decodes back from the text it encodes to, and the
/// three texts are distinct.
pub proof fn lemma_kind_round_trip(k: DependencyKind)
    ensures
        decode_kind_spec(kind_text(k)) == Ok::<DependencyKind, Failure>(k),
{
    assert(kind_text(DependencyKind::Dev) != kind_text(DependencyKind::Build)) by {
        assert(kind_text(DependencyKind::Dev).len() != kind_text(DependencyKind::Build).len());
    }
    assert(kind_text(DependencyKind::Dev) != kind_text(DependencyKind::Normal)) by {
        assert(kind_text(DependencyKind::Dev).len() != kind_text(DependencyKind::Normal).len());
    }
    assert(kind_text(DependencyKind::Build) != kind_text(DependencyKind::Normal)) by {
        assert(kind_text(DependencyKind::Build).len() != kind_text(DependencyKind::Normal).len());
    }
}

/// A keyword list that decoded encodes to keywords that decode to the same
/// list again.
pub proof fn lemma_keyword_list_round_trip(raw: Seq<Seq<char>>)
    requires
        decode_keyword_list_spec(raw) is Ok,
    ensures
        decode_keyword_list_spec(decode_keyword_list_spec(raw)->Ok_0) == decode_keyword_list_spec(
            raw,
        ),
{
}

/// A release whose name is valid but whose version `semver` does not parse
/// fails as a whole with `InvalidSemver`, carrying the version string; since
/// the release decoder builds a value only when no field fails, no release,
/// complete or partial, comes out.
pub proof fn lemma_bad_version_rejects_release(raw: RawNewCrate)
    requires
        valid_crate_name(raw.name@),
        semver_parse(raw.vers@) is None,
    ensures
        new_crate_failure(raw) == Some(Failure::InvalidSemver(raw.vers@)),
{
}

} // verus!

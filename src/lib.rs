//! Validating boundary layer of a package registry's publish API: constrained
//! scalar types decoded from untrusted strings, the dependency and release
//! records built from them, and the download-counter projections.

pub mod policy;
pub mod error;
pub mod version;
pub mod upload;
pub mod release;
pub mod download;
pub mod laws;

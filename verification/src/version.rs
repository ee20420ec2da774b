//! Trusted declarations for the semantic version tag of a project.

use vstd::prelude::*;

verus! {

/// `semver::Version`, declared so that the caller-supplied compiler version
/// tag can be attached to a project. The library never looks inside it.
#[verifier::external_type_specification]
#[verifier::external_body]
pub struct ExVersion(semver::Version);

/// Relies on `semver::Version`'s derived `Clone`: every field is cloned, so
/// the clone equals the original.
pub assume_specification[ <semver::Version as Clone>::clone ](version: &semver::Version) -> (cloned: semver::Version)
    ensures
        cloned == *version,
;

} // verus!

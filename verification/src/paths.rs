//! File-system paths as the library carries them: std's `PathBuf`,
//! opaque to the proofs, handed through unchanged.

use vstd::prelude::*;

verus! {

#[verifier::external_type_specification]
#[verifier::external_body]
pub struct ExPathBuf(std::path::PathBuf);

/// Cloning a path (std's `PathBuf::clone`); nothing is claimed of the
/// copy, which the proofs never look into.
pub assume_specification[ <std::path::PathBuf as std::clone::Clone>::clone ](
    p: &std::path::PathBuf,
) -> std::path::PathBuf;

} // verus!

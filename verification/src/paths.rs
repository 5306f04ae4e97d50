//! Paths are carried through as they come; nothing here looks inside one.

use vstd::prelude::*;

verus! {

/// `std::path::PathBuf`, an owned path.
#[verifier::external_type_specification]
#[verifier::external_body]
pub struct ExPathBuf(std::path::PathBuf);

/// `std::path::Path`, a borrowed path.
#[verifier::external_type_specification]
#[verifier::external_body]
pub struct ExPath(std::path::Path);

/// `PathBuf`'s `clone` copies the path.
pub assume_specification[ <std::path::PathBuf as Clone>::clone ](path: &std::path::PathBuf) -> (out:
    std::path::PathBuf)
;

} // verus!

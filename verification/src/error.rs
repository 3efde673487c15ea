//! The parse error shared by the parsers of the crate.

use vstd::prelude::*;

use crate::version::VersionError;

verus! {

/// Parsing error
#[derive(Clone, Copy, Debug, PartialEq, Eq, Structural)]
pub enum ParseError {
    /// Given string is not a valid architecture
    InvalidArchitecture,
    /// Given string is not a valid version
    InvalidVersion(VersionError),
    /// Given string is not a valid suite
    InvalidSuite,
    /// Given string is not a valid suite or codename extension
    InvalidExtension,
    /// Given string is not a valid codename
    InvalidCodename,
    /// Given string is not a valid suite or codename
    InvalidSuiteOrCodename,
    /// Given string is not a valid multi-arch value
    InvalidMultiArch,
    /// Given string is not a valid component
    InvalidComponent,
    /// Given string is not a valid package relationship
    InvalidRelationship,
}

impl From<VersionError> for ParseError {
    fn from(e: VersionError) -> (r: Self) {
        ParseError::InvalidVersion(e)
    }
}

impl vstd::std_specs::convert::FromSpecImpl<VersionError> for ParseError {
    open spec fn obeys_from_spec() -> bool {
        true
    }

    open spec fn from_spec(e: VersionError) -> Self {
        ParseError::InvalidVersion(e)
    }
}

} // verus!

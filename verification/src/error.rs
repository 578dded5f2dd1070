//! The failures data production can report, and the descriptive metadata a
//! provider offers for error attribution.

use vstd::prelude::*;
use vstd::string::StringExecFns;

verus! {

/// Why producing data failed.
#[derive(Debug, PartialEq)]
pub enum Error {
    /// The (possibly path-wrapped) value was not dictionary-shaped where a
    /// dictionary was required: carries the observed shape and the expected
    /// one, always `"map"`.
    TypeMismatch { actual: String, expected: String },
    /// The source value could not be rendered into a structured value; the
    /// underlying cause is carried verbatim.
    Serialization(String),
}

/// A provider's descriptive metadata: purely informational, used by a
/// surrounding merge engine to attribute errors.
#[derive(Debug, PartialEq)]
pub struct Metadata {
    /// A human-readable name for the provider's source.
    pub name: String,
}

impl Metadata {
    /// Makes metadata carrying `name`.
    pub fn from(name: &str) -> (m: Metadata)
        ensures
            m.name@ == name@,
    {
        Metadata { name: String::from_str(name) }
    }
}

} // verus!

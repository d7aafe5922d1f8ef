//! The ways in which a record can be rejected.

use vstd::prelude::*;

verus! {

/// Why a record could not be read.
#[derive(Clone, Copy, Debug, PartialEq, Eq, Structural)]
pub enum RecordError {
    /// A required element or attribute is missing, or the text is no
    /// well-formed document.
    MalformedRecord,
    /// A numeric attribute is not written in the form its field expects.
    InvalidNumericField,
}

} // verus!

//! The error type that authors of converters may use. The engine itself has no
//! failure to report: what is missing or of another shape is passed over.

use vstd::prelude::*;

verus! {

/// An error with a message, for converters that want to report one.
pub struct ConversionError {
    pub message: String,
}

} // verus!

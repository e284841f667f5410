//! The error that reading and writing JSON reports.

use vstd::prelude::*;

verus! {

/// A text was not the JSON that was asked for, or a value could not be
/// written as JSON. The message says what was wrong.
#[derive(Debug)]
pub struct ValueError {
    pub message: String,
}

} // verus!

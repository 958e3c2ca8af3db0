//! The failure that the decoder and the descriptor parser report.

use vstd::prelude::*;

verus! {

/// Malformed input: `offset` is where the input stopped being well formed
/// (a byte offset for class files, a character offset for descriptors).
#[derive(Debug, Clone, Copy, PartialEq, Eq, Structural)]
pub struct ClassFormatError {
    pub offset: usize,
}

} // verus!

//! The errors that the library reports.

use vstd::prelude::*;

verus! {

/// Why a reply of the instrument could not be used.
#[derive(Debug, Clone, Copy, PartialEq, Eq, Structural)]
pub enum ScopeError {
    /// A block reply held fewer bytes than its header and terminator take.
    /// `len` is the number of bytes that it did hold.
    PayloadTooShort { len: usize },
}

} // verus!

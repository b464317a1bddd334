//! The library's error taxonomy.

use vstd::prelude::*;

use crate::constants::PDHStatus;

verus! {

/// What went wrong in a counter-subsystem interaction.
///
/// Enumeration and setup errors stop startup; a `Collect` error is a
/// one-tick failure that the collector loop absorbs.
#[derive(Clone, Copy, Debug, PartialEq, Eq, Structural)]
pub enum PdhError {
    /// A buffer from the subsystem was malformed: it did not even hold
    /// the two terminator units that close a multi-string.
    Protocol,
    /// An unexpected status during object or item enumeration, or during
    /// wildcard path expansion.
    Enumeration(PDHStatus),
    /// The subsystem refused to create a query session.
    Open(PDHStatus),
    /// A counter path failed syntactic validation before any attach was tried.
    InvalidPath,
    /// A syntactically valid path did not resolve to a live counter.
    Attach(PDHStatus),
    /// A collection round-trip failed; retrying on a later tick may succeed.
    Collect(PDHStatus),
}

} // verus!

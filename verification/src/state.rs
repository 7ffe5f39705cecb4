//! The two abstract sharing states of a copy-on-write structure.

use vstd::prelude::*;

verus! {

/// Describes the current state of a lazily cloned structure: whether it
/// can be written to directly, with no other owner able to observe the
/// write, or whether writing first requires breaking the sharing.
#[derive(Debug, Copy, Clone, PartialEq, Eq, Structural)]
pub enum MutState {
    /// The structure can be mutated with no side effects.
    Mutable,
    /// The structure is shared and must not be mutated in place.
    Immutable,
}

} // verus!

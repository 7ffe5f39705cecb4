//! The lazy-clone capability.

use vstd::pervasive::cloned;
use vstd::prelude::*;

verus! {

/// A clone relation with no slack: every result that `T::clone` may
/// produce is equal to its source.  Plain values and the standard
/// strings satisfy this; a type whose `Clone` has no stated contract
/// does not provide it.  The lemmas below witness representative
/// cases.
pub open spec fn clone_faithful<T: Clone>() -> bool {
    forall|a: T, b: T| #[trigger] cloned::<T>(a, b) ==> a == b
}

/// Strings state an exact clone contract, so they round trip through
/// the containers with equality, not merely clone-equivalence.
pub proof fn lemma_clone_faithful_string()
    ensures
        clone_faithful::<String>(),
{
    assert forall|a: String, b: String| #[trigger] cloned::<String>(a, b) implies a == b by {
        if vstd::pervasive::strictly_cloned::<String>(a, b) {
            assert(call_ensures(<String as Clone>::clone, (&a,), b));
        }
    }
}

/// The unsigned machine integers state an exact clone contract.
pub proof fn lemma_clone_faithful_u64()
    ensures
        clone_faithful::<u64>(),
{
    assert forall|a: u64, b: u64| #[trigger] cloned::<u64>(a, b) implies a == b by {
        if vstd::pervasive::strictly_cloned::<u64>(a, b) {
            assert(call_ensures(<u64 as Clone>::clone, (&a,), b));
        }
    }
}

/// The signed machine integers state an exact clone contract.
pub proof fn lemma_clone_faithful_i32()
    ensures
        clone_faithful::<i32>(),
{
    assert forall|a: i32, b: i32| #[trigger] cloned::<i32>(a, b) implies a == b by {
        if vstd::pervasive::strictly_cloned::<i32>(a, b) {
            assert(call_ensures(<i32 as Clone>::clone, (&a,), b));
        }
    }
}

/// The capability set of every copy-on-write aware type: an O(1) clone
/// that aliases the current allocation, an eager clone that copies it,
/// and a report of whether this handle may be mutated without side
/// effects.
///
/// The lazy clone and the mutability check take `&mut self` even though
/// they leave the held value unchanged: producing an alias turns the
/// receiver itself into a shared handle, and what the check learns
/// about the sharing state is recorded in the receiver.  Each
/// implementing type states the exact contracts on its own inherent
/// methods.
pub trait LazyClone: Sized {
    /// Validity of a handle; constructors establish it and every
    /// operation preserves it.
    spec fn inv(&self) -> bool;

    /// The O(1) lazy clone: a new handle aliasing the same underlying
    /// value.  Never copies the value.
    fn lazy(&mut self) -> Self
        requires
            old(self).inv(),
    ;

    /// The eager clone: a deep, possibly expensive, copy with no
    /// sharing between the original and the result.
    fn eager(&self) -> Self
        requires
            self.inv(),
    ;

    /// Whether this handle can be mutated with no side effects on any
    /// other handle.
    fn is_mutable(&mut self) -> bool
        requires
            old(self).inv(),
    ;
}

} // verus!

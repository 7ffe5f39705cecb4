//! Copy-on-write value sharing: reference-counted cells that can tell
//! whether they are the sole owner of their allocation and promote
//! shared state to exclusive state on demand, together with sequence
//! containers that compose such cells element-wise, so that cloning a
//! container is O(1) and mutating one element never disturbs clones
//! that share the untouched elements.

mod alc;
mod lazy;
mod lc;
mod state;

pub mod collections;

pub use alc::Alc;
pub use collections::alist::AtomicLazyList;
pub use collections::avec::AtomicLazyVec;
pub use collections::vec::LazyVec;
pub use lazy::clone_faithful;
pub use lazy::LazyClone;
pub use lc::Lc;
pub use state::MutState;

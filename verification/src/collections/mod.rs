//! Sequence containers built from copy-on-write cells.
//!
//! Each container is one cell around a backing vector of element cells:
//! cloning the container aliases the whole backing in O(1), and a write
//! descends through at most two promotions — container level, then
//! element level — before touching a value.

pub mod alist;
pub mod avec;
pub mod vec;

pub use alist::AtomicLazyList;
pub use avec::AtomicLazyVec;
pub use vec::LazyVec;

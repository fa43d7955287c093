//! Growable sequence container for "open records": each element is a
//! fixed-size header value bundled with a tail of elements, where the tail
//! length is chosen once per container and shared by every record in it.
//!
//! The container packs all records into one logical allocation.  The record
//! layout arithmetic, the capacity growth policy and every mutating
//! operation are specified and verified here; the records themselves are
//! held as ordinary owned values.

pub mod fixed;
pub mod handle;
pub mod iter;
pub mod laws;
pub mod util;

pub use fixed::Vec;
pub use fixed::Vec as FixedVec;
pub use handle::Handle;
pub use iter::Iter;
pub use iter::Iter as FixedVecIter;
pub use util::DefaultIter;

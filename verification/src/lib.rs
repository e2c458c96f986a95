//! Shared, splittable, partially initialized byte buffers.
//!
//! A buffer is filled through an [`buf::arc_buf_mut::ArcBufMut`], split into
//! parts that are written independently of each other, and frozen into an
//! [`buf::arc_buf::ArcBuf`] that is shared cheaply. All parts refer to ranges
//! of one allocation, which is counted by reference and freed with its last
//! handle, or handed back to a [`buf::reclaim::Reclaim`] to be filled again.
//!
//! Every allocation lives in an [`buf::arena::Arena`]. Buffer handles are
//! ranges into one of its allocations and carry no storage of their own, so
//! every operation that reads or changes an allocation takes the arena, and
//! its contract says what becomes of the reference count, of the
//! initialization boundary and of the bytes. A handle does not know when it
//! goes out of scope: it is given up with its `release` method, which is what
//! counts it down.
//!
//! Borrowing the arena exclusively makes each step on the reference-count
//! word a single step for every handle. To share buffers between threads,
//! share the arena behind a lock.

pub mod buf;
pub mod bytes;
pub mod copy;
pub mod endianness;
pub mod io;
pub mod range;
pub mod util;

//! Read-only byte strings, whatever holds their bytes.

pub mod bytes;
pub mod static_bytes;

//! A verified core for best-effort, cursor-driven paginated enumeration of
//! remote resources (containers and the blobs inside them), together with the
//! filtering and plain-text rendering rules that sit on top of it.
//!
//! Network transport, credential acquisition from the process environment and
//! the async runtime live outside this crate; the logic here is pure and works
//! on plain values handed in by the caller.

pub mod blobs;
pub mod config;
pub mod pager;
pub mod render;

//! Appendable WORM (write once, read many) policy core.
//!
//! Committed content stays immutable while new content can be appended, the
//! retention deadline is fixed when a file is created, and created paths never
//! move. Timestamps are UTC Unix seconds supplied by the caller.
pub mod cli;
pub mod clock;
pub mod fuse;
pub mod metadata;
pub mod policy;
pub mod storage;

pub use policy::{EntryPolicy, FilePolicy, FilePolicyView, PolicyError};

//! Location resolution and transfer orchestration for a bucket-copy tool.
//!
//! The crate parses source/destination strings into typed locations, maps
//! enumerated local files to destination object keys, decides which bulk
//! operation a command asks for, and accumulates transfer progress.
//! Filesystem walking, network transfer and terminal rendering live outside
//! the library; it exchanges plain values with them.

pub mod enumerate;
pub mod keymap;
pub mod location;
pub mod plan;
pub mod progress;

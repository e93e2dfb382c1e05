//! Developer-utility core: semantic-version transitions, latest-tag
//! resolution, and archive-extraction planning.
//!
//! The library is pure: callers (a CLI front end) read files, run external
//! programs and write to the filesystem, and hand the results in as plain
//! values.

pub mod archive;
pub mod envsub;
pub mod fspath;
pub mod hf;
pub mod precedence;
pub mod strutil;
pub mod tags;
pub mod version;

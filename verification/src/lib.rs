//! Streaming multi-algorithm digest computation over files and directory
//! trees, algorithm inference from digest length, and an edit-distance
//! based "did you mean" path suggester.

pub mod algorithm;
pub mod engine;
pub mod fileset;
pub mod hex;
pub mod matcher;
pub mod order;
pub mod report;
pub mod session;

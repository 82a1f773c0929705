//! Low-level FBX data tree.

pub mod any;
pub mod v7400;

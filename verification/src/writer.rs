//! FBX writer.

pub mod v7400;

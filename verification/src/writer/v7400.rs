//! FBX 7.4 and 7.5 writer.

pub mod binary;

//! A library for FBX binary data: a pull parser, low-level data types and a
//! node attributes writer.

pub mod codec;
pub mod low;
pub mod pull_parser;
pub mod roundtrip;
pub mod stream;
pub mod text;
pub mod tree;
pub mod writer;


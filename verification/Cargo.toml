[package]
name = "fbxcel"
version = "0.1.0"
edition = "2021"
publish = false

[dependencies]
byteorder = "1"
indextree = "4"
libflate = "1"
log = "0.4"
string-interner = "0.14"

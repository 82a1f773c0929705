//! Node attribute loaders.

pub use self::{
    buffered::BufferedLoader,
    direct::DirectLoader,
    single::{ArrayLoader, BinaryLoader, PrimitiveLoader, StringLoader},
    type_::TypeLoader,
};

mod buffered;
mod direct;
mod single;
mod type_;

//! The class file: its structure as decoded, and the decoder.

pub mod parser;
pub mod structs;

//! A bytecode virtual machine for compiled class files: decoder, linker,
//! object heap, interpreter and the bridge to natively implemented methods.

pub mod bytes;
pub mod class;
pub mod consts;
pub mod descriptor;
pub mod error;
pub mod instructions;
pub mod runtime;
pub mod table;

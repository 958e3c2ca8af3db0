//! The stack-machine evaluator.

pub mod arithmetic;
pub mod array_ops;
pub mod branch;
pub mod constant_ops;
pub mod field_ops;
pub mod float_ops;
pub mod frame;
pub mod invoke_ops;
pub mod local;
pub mod machine;
pub mod multi_array;
pub mod next;
pub mod object_ops;
pub mod programs;
pub mod run;
pub mod step;
pub mod thread;
pub mod type_ops;
pub mod unwind;
pub mod variable;

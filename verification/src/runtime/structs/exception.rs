//! What the machine throws.

use vstd::prelude::*;

verus! {

/// The exception classes that the machine itself raises.
#[derive(Debug, Clone, Copy, PartialEq, Eq, Hash, Structural)]
pub enum VmExceptionKind {
    /// A member, an array, a monitor or `throw` was used on null.
    NullPointer,
    /// An int or long was divided by zero.
    Arithmetic,
    /// An array was asked for with a negative size.
    NegativeArraySize,
    /// An `arraycopy` ran over an end of an array.
    IndexOutOfBounds,
    /// An array was read or written outside its length.
    ArrayIndexOutOfBounds,
    /// A reference array was given an element of a class that it cannot hold.
    ArrayStore,
    /// A cast to a class that the object is not assignable to.
    ClassCast,
    /// A monitor was released by a thread that does not own it.
    IllegalMonitorState,
    /// A field reference names no field.
    NoSuchField,
    /// A method reference names no method.
    NoSuchMethod,
    /// A class file is malformed.
    ClassFormat,
    /// A class could not be found.
    NoClassDefFound,
    /// A class was used whose initializer has failed.
    ExceptionInInitializer,
    /// `clone` on an object whose class is not `Cloneable`.
    CloneNotSupported,
    /// The thread has more frames than it may have.
    StackOverflow,
}

/// An exception on its way to a handler.
#[derive(Debug)]
pub enum Exception {
    /// Raised by the machine: the kind says which class the throwable will
    /// have.
    VmException { exception_type: VmExceptionKind, message: String },
    /// Thrown by the program: the identifier of the throwable.
    UserException(u32),
}

impl Exception {
    pub fn new_vm(exception_type: VmExceptionKind) -> (e: Exception)
        ensures
            e matches Exception::VmException { exception_type: t, message } && t == exception_type
                && message@ == Seq::<char>::empty(),
    {
        Exception::VmException { exception_type, message: String::new() }
    }

    pub fn new_vm_msg(exception_type: VmExceptionKind, message: &str) -> (e: Exception)
        ensures
            e matches Exception::VmException { exception_type: t, message: m } && t
                == exception_type && m@ == message@,
    {
        Exception::VmException { exception_type, message: message.to_owned() }
    }

    pub fn new(exception: u32) -> (e: Exception)
        ensures
            e == Exception::UserException(exception),
    {
        Exception::UserException(exception)
    }
}

} // verus!

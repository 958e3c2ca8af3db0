//! How an instruction ends, seen from the thread that runs it.

use crate::runtime::interpreter::float_ops::FloatRequest;
use crate::runtime::interpreter::variable::Variable;
use crate::runtime::structs::exception::{Exception, VmExceptionKind};
use vstd::prelude::*;

verus! {

/// The mathematical value of an [`Exception`].
pub enum ExceptionView {
    VmException { exception_type: VmExceptionKind, message: Seq<char> },
    UserException(u32),
}

impl View for Exception {
    type V = ExceptionView;

    open spec fn view(&self) -> ExceptionView {
        match self {
            Exception::VmException { exception_type, message } => ExceptionView::VmException {
                exception_type: *exception_type,
                message: message@,
            },
            Exception::UserException(id) => ExceptionView::UserException(*id),
        }
    }
}

/// The exception of this kind that the machine raises, with no message.
pub open spec fn raised(kind: VmExceptionKind) -> NextView {
    NextView::Exception(
        ExceptionView::VmException { exception_type: kind, message: Seq::empty() },
    )
}

/// How an instruction ends.
#[derive(Debug)]
pub enum Next {
    /// The instruction ran; the frame goes on at its new program counter.
    Step,
    /// The method returns `v1` (and `v2`, for a long or a double) to the
    /// instruction at `return_pc` of the caller.
    Return { v1: Variable, v2: Variable, return_pc: usize },
    /// Method `index` of class `static_class` is invoked on the object
    /// `this`: the method itself, or, where `is_virtual` and
    /// `vtable_index` is not negative, the method in that row of the
    /// vtable of the class of `this`. The caller goes on at `return_pc`.
    InvokeSpecial {
        static_class: usize,
        index: usize,
        vtable_index: isize,
        is_virtual: bool,
        this: u32,
        return_pc: usize,
    },
    /// The static method `index` of class `class` is invoked. The caller
    /// goes on at `return_pc`.
    InvokeStatic { class: usize, index: usize, return_pc: usize },
    /// The method of the class of `this` that has the name and the
    /// descriptor of method `index` of the interface `interface` is
    /// invoked. The caller goes on at `return_pc`.
    InvokeInterface { interface: usize, index: usize, this: u32, return_pc: usize },
    /// The instruction raises an exception.
    Exception(Exception),
    /// The class with this name has to be defined; then the instruction is
    /// run again.
    LoadClass(String),
    /// The class has to be initialized; then the instruction is run again.
    InitializeClass(usize),
    /// The instruction computes with floating-point numbers: its result has
    /// to be computed outside and handed to the frame.
    Float(FloatRequest),
    /// The native method of the frame gives what the clock reads, which
    /// the machine has to be told: the milliseconds since the epoch, or the
    /// nanoseconds since some moment.
    Clock { nanos: bool },
    /// Another thread holds the monitor that the instruction asks for: the
    /// instruction is run again later.
    Blocked,
    /// The heap has no room for the object that the instruction asks for.
    HeapFull,
    /// The code asks for what no verified class file asks for.
    Malformed,
}

pub enum NextView {
    Step,
    Return { v1: Variable, v2: Variable, return_pc: usize },
    InvokeSpecial {
        static_class: usize,
        index: usize,
        vtable_index: isize,
        is_virtual: bool,
        this: u32,
        return_pc: usize,
    },
    InvokeStatic { class: usize, index: usize, return_pc: usize },
    InvokeInterface { interface: usize, index: usize, this: u32, return_pc: usize },
    Exception(ExceptionView),
    LoadClass(Seq<char>),
    InitializeClass(usize),
    Float(FloatRequest),
    Clock { nanos: bool },
    Blocked,
    HeapFull,
    Malformed,
}

impl View for Next {
    type V = NextView;

    open spec fn view(&self) -> NextView {
        match self {
            Next::Step => NextView::Step,
            Next::Return { v1, v2, return_pc } => NextView::Return {
                v1: *v1,
                v2: *v2,
                return_pc: *return_pc,
            },
            Next::InvokeSpecial {
                static_class,
                index,
                vtable_index,
                is_virtual,
                this,
                return_pc,
            } => NextView::InvokeSpecial {
                static_class: *static_class,
                index: *index,
                vtable_index: *vtable_index,
                is_virtual: *is_virtual,
                this: *this,
                return_pc: *return_pc,
            },
            Next::InvokeStatic { class, index, return_pc } => NextView::InvokeStatic {
                class: *class,
                index: *index,
                return_pc: *return_pc,
            },
            Next::InvokeInterface {
                interface,
                index,
                this,
                return_pc,
            } => NextView::InvokeInterface {
                interface: *interface,
                index: *index,
                this: *this,
                return_pc: *return_pc,
            },
            Next::Exception(e) => NextView::Exception(e@),
            Next::LoadClass(name) => NextView::LoadClass(name@),
            Next::InitializeClass(class) => NextView::InitializeClass(*class),
            Next::Float(request) => NextView::Float(*request),
            Next::Clock { nanos } => NextView::Clock { nanos: *nanos },
            Next::Blocked => NextView::Blocked,
            Next::HeapFull => NextView::HeapFull,
            Next::Malformed => NextView::Malformed,
        }
    }
}

/// The exception of this kind, with no message.
pub fn raise(kind: VmExceptionKind) -> (next: Next)
    ensures
        next@ == raised(kind),
{
    Next::Exception(Exception::new_vm(kind))
}

} // verus!

//! One instruction of a frame, whatever it needs.
//!
//! [`step`] runs the instruction at the program counter. An instruction
//! that needs only the frame runs as [`local_effect`] says; every other
//! instruction as [`foreign_effect`] says. Unless the instruction ends in
//! [`Next::Step`], the program counter stays where it is, and the thread
//! decides how to go on.

use crate::instructions as inst;
use crate::runtime::interpreter::array_ops::{
    array_length, array_length_step, array_load, array_load_step, array_store, array_store_step,
    is_array_load_op, is_array_store_op,
};
use crate::runtime::interpreter::constant_ops::{load_constant, load_constant_step};
use crate::runtime::interpreter::field_ops::{
    get_field, get_field_step, get_static, get_static_step, put_field, put_field_step, put_static,
    put_static_step,
};
use crate::runtime::interpreter::float_ops::{float_operands, float_request, float_shape, shape_of};
use crate::runtime::interpreter::frame::{Frame, FrameView};
use crate::runtime::interpreter::invoke_ops::{
    invoke_on_object, invoke_on_object_step, invoke_static, invoke_static_step,
};
use crate::runtime::interpreter::local::{Locus, Outcome, RETURN_SLOTS};
use crate::runtime::interpreter::machine::{local_effect, step_local, wide_after};
use crate::runtime::interpreter::multi_array::{multi_array, multi_array_effect};
use crate::runtime::interpreter::next::{raise, raised, Next, NextView};
use crate::runtime::interpreter::object_ops::{
    new_array, new_array_step, new_object, new_object_array, new_object_array_step,
    new_object_step,
};
use crate::runtime::interpreter::type_ops::{
    check_cast, check_cast_step, monitor, monitor_step, throw, throw_effect,
};
use crate::runtime::interpreter::variable::Variable;
use crate::runtime::native::bridge::{invoke_native, invoke_native_effect};
use crate::runtime::Vm;
use vstd::prelude::*;

verus! {

/// How an instruction that needed only the frame ends, seen from the
/// thread.
pub open spec fn next_of(outcome: Outcome) -> NextView {
    match outcome {
        Outcome::Step => NextView::Step,
        Outcome::Return { v1, v2, return_pc } => NextView::Return { v1, v2, return_pc },
        Outcome::Throw(kind) => raised(kind),
        Outcome::Malformed => NextView::Malformed,
        Outcome::Foreign => NextView::Malformed,
    }
}

/// What the instruction at `pc` does where it needs more than the frame:
/// to the machine and to the operand stack, and how it ends.
pub open spec fn foreign_effect(
    frame: FrameView,
    pc: int,
    thread: usize,
    before: Vm,
    after: Vm,
    next: NextView,
    after_stack: Seq<Variable>,
    after_pc: int,
) -> bool {
    let op = frame.code[pc];
    let code = frame.code;
    let stack = frame.stack;
    let class = frame.class;
    if is_array_load_op(op) {
        after == before && array_load_step(op, pc, stack, before, next, after_stack, after_pc)
    } else if op == inst::ARRAYLENGTH {
        after == before && array_length_step(pc, stack, before, next, after_stack, after_pc)
    } else if is_array_store_op(op) {
        array_store_step(op, pc, stack, before, after, next, after_stack, after_pc)
    } else if op == inst::LDC || op == inst::LDC_W || op == inst::LDC2_W {
        load_constant_step(class, code, pc, stack, before, after, next, after_stack, after_pc)
    } else if op == inst::NEW {
        new_object_step(class, code, pc, stack, before, thread, after, next, after_stack, after_pc)
    } else if op == inst::NEWARRAY {
        new_array_step(code, pc, stack, before, after, next, after_stack, after_pc)
    } else if op == inst::ANEWARRAY {
        new_object_array_step(class, code, pc, stack, before, after, next, after_stack, after_pc)
    } else if op == inst::MULTIANEWARRAY {
        multi_array_effect(class, code, pc, stack, before, after, next, after_stack, after_pc)
    } else if op == inst::GETFIELD {
        get_field_step(class, code, pc, stack, before, after, next, after_stack, after_pc)
    } else if op == inst::PUTFIELD {
        put_field_step(class, code, pc, stack, before, after, next, after_stack, after_pc)
    } else if op == inst::GETSTATIC {
        get_static_step(class, code, pc, stack, before, thread, after, next, after_stack, after_pc)
    } else if op == inst::PUTSTATIC {
        put_static_step(class, code, pc, stack, before, thread, after, next, after_stack, after_pc)
    } else if op == inst::CHECKCAST || op == inst::INSTANCEOF {
        check_cast_step(
            op == inst::INSTANCEOF,
            class,
            code,
            pc,
            stack,
            before,
            after,
            next,
            after_stack,
            after_pc,
        )
    } else if op == inst::MONITORENTER || op == inst::MONITOREXIT {
        monitor_step(
            op == inst::MONITOREXIT,
            pc,
            stack,
            before,
            thread,
            after,
            next,
            after_stack,
            after_pc,
        )
    } else if op == inst::ATHROW {
        after == before && after_stack == stack && after_pc == pc && next == throw_effect(stack)
    } else if op == inst::INVOKESTATIC {
        after_stack == stack && after_pc == pc && invoke_static_step(
            class,
            code,
            pc,
            before,
            thread,
            after,
            next,
        )
    } else if op == inst::INVOKESPECIAL || op == inst::INVOKEVIRTUAL || op
        == inst::INVOKEINTERFACE {
        after_stack == stack && after_pc == pc && invoke_on_object_step(
            class,
            code,
            pc,
            stack,
            before,
            after,
            next,
        )
    } else if op == inst::INVOKENATIVE {
        invoke_native_effect(
            class,
            frame.method_name,
            frame.param_descriptor,
            frame.is_static,
            frame.locals,
            pc,
            stack,
            before,
            after,
            next,
            after_stack,
            after_pc,
        )
    } else if float_shape(op).is_some() {
        after == before && after_stack == stack && after_pc == pc && next == (match float_request(
            code,
            pc,
            stack,
        ) {
            Some(request) => NextView::Float(request),
            None => NextView::Malformed,
        })
    } else {
        after == before && after_stack == stack && after_pc == pc && next == NextView::Malformed
    }
}

/// What the instruction at `pc` does: to the frame, to the machine and to
/// the `wide` prefix, and how it ends. The prefix is in force behind
/// `wide` itself and behind no other instruction that ran.
pub open spec fn step_effect(
    frame: FrameView,
    pc: int,
    wide: bool,
    thread: usize,
    before: Vm,
    after: Vm,
    next: NextView,
    after_frame: FrameView,
    after_pc: int,
    after_wide: bool,
) -> bool {
    let l = Locus { pc, stack: frame.stack, locals: frame.locals };
    let local = local_effect(frame.code, l, wide);
    &&& after_frame == (FrameView { stack: after_frame.stack, locals: after_frame.locals, ..frame })
    &&& if local.0 is Foreign {
        &&& after_frame.locals == frame.locals
        &&& after_wide == (wide && !(next is Step))
        &&& foreign_effect(frame, pc, thread, before, after, next, after_frame.stack, after_pc)
    } else {
        &&& after == before
        &&& next == next_of(local.0)
        &&& (Locus { pc: after_pc, stack: after_frame.stack, locals: after_frame.locals })
            == local.1
        &&& after_wide == wide_after(frame.code, l, wide)
    }
}

/// Runs the instruction at `pc`, which needs more than the frame.
fn step_foreign(frame: &mut Frame, pc: &mut usize, vm: &mut Vm, thread: usize) -> (next: Next)
    requires
        old(vm).wf(),
        old(frame).class < old(vm).loader.classes.len(),
        *old(pc) < old(frame).code.len(),
        old(frame).stack.len() >= RETURN_SLOTS,
    ensures
        final(vm).wf(),
        final(frame)@ == (FrameView { stack: final(frame).stack@, ..old(frame)@ }),
        foreign_effect(
            old(frame)@,
            *old(pc) as int,
            thread,
            *old(vm),
            *final(vm),
            next@,
            final(frame).stack@,
            *final(pc) as int,
        ),
{
    let op = frame.code[*pc];
    let class = frame.class;
    if op >= inst::IALOAD && op <= inst::SALOAD {
        array_load(op, pc, &mut frame.stack, vm)
    } else if op == inst::ARRAYLENGTH {
        array_length(pc, &mut frame.stack, vm)
    } else if op >= inst::IASTORE && op <= inst::SASTORE {
        array_store(op, pc, &mut frame.stack, vm)
    } else if op == inst::LDC || op == inst::LDC_W || op == inst::LDC2_W {
        load_constant(class, &frame.code, pc, &mut frame.stack, vm)
    } else if op == inst::NEW {
        new_object(class, &frame.code, pc, &mut frame.stack, vm, thread)
    } else if op == inst::NEWARRAY {
        new_array(&frame.code, pc, &mut frame.stack, vm)
    } else if op == inst::ANEWARRAY {
        new_object_array(class, &frame.code, pc, &mut frame.stack, vm)
    } else if op == inst::MULTIANEWARRAY {
        multi_array(class, &frame.code, pc, &mut frame.stack, vm)
    } else if op == inst::GETFIELD {
        get_field(class, &frame.code, pc, &mut frame.stack, vm)
    } else if op == inst::PUTFIELD {
        put_field(class, &frame.code, pc, &mut frame.stack, vm)
    } else if op == inst::GETSTATIC {
        get_static(class, &frame.code, pc, &mut frame.stack, vm, thread)
    } else if op == inst::PUTSTATIC {
        put_static(class, &frame.code, pc, &mut frame.stack, vm, thread)
    } else if op == inst::CHECKCAST || op == inst::INSTANCEOF {
        check_cast(op == inst::INSTANCEOF, class, &frame.code, pc, &mut frame.stack, vm)
    } else if op == inst::MONITORENTER || op == inst::MONITOREXIT {
        monitor(op == inst::MONITOREXIT, pc, &mut frame.stack, vm, thread)
    } else if op == inst::ATHROW {
        throw(&frame.stack)
    } else if op == inst::INVOKESTATIC {
        invoke_static(class, &frame.code, *pc, vm, thread)
    } else if op == inst::INVOKESPECIAL || op == inst::INVOKEVIRTUAL || op
        == inst::INVOKEINTERFACE {
        invoke_on_object(class, &frame.code, *pc, &frame.stack, vm)
    } else if op == inst::INVOKENATIVE {
        invoke_native(
            class,
            &frame.method_name,
            &frame.param_descriptor,
            frame.is_static,
            &frame.locals,
            pc,
            &mut frame.stack,
            vm,
        )
    } else if shape_of(op).is_some() {
        match float_operands(&frame.code, *pc, &frame.stack) {
            Some(request) => Next::Float(request),
            None => Next::Malformed,
        }
    } else {
        Next::Malformed
    }
}

/// Runs the instruction at `pc` of the frame.
pub fn step(frame: &mut Frame, pc: &mut usize, wide: &mut bool, vm: &mut Vm, thread: usize) -> (next:
    Next)
    requires
        old(vm).wf(),
        old(frame).class < old(vm).loader.classes.len(),
    ensures
        final(vm).wf(),
        step_effect(
            old(frame)@,
            *old(pc) as int,
            *old(wide),
            thread,
            *old(vm),
            *final(vm),
            next@,
            final(frame)@,
            *final(pc) as int,
            *final(wide),
        ),
{
    let outcome = step_local(&frame.code, pc, &mut frame.stack, &mut frame.locals, wide);
    match outcome {
        Outcome::Step => Next::Step,
        Outcome::Return { v1, v2, return_pc } => Next::Return { v1, v2, return_pc },
        Outcome::Throw(kind) => raise(kind),
        Outcome::Malformed => Next::Malformed,
        Outcome::Foreign => {
            let next = step_foreign(frame, pc, vm, thread);
            if matches!(next, Next::Step) {
                *wide = false;
            }
            next
        },
    }
}

} // verus!

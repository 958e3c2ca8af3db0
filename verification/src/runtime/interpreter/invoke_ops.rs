//! The invoke instructions.
//!
//! `invokestatic` names a static method; the class of the method has to be
//! initialized. `invokespecial`, `invokevirtual` and `invokeinterface` name
//! a method that is invoked on an object, which lies on the operand stack
//! below the arguments and must not be null. The instructions do not touch
//! the frame: they say which method is to be invoked, and the thread makes
//! the frame for it.

use crate::bytes::{read_u16, u16_at};
use crate::descriptor::FieldTypeView;
use crate::instructions as inst;
use crate::runtime::class_loader::pool::entry;
use crate::runtime::class_loader::reference::{
    method_entry, method_lookup, method_lookup_frame, MethodLookup, MethodLookupView,
};
use crate::runtime::famous_classes::lemma_famous_stay;
use crate::runtime::interpreter::frame::{
    count_parameter_slots, lemma_parameter_slots_grow, parameter_slots,
};
use crate::runtime::interpreter::local::{depth, peek, top, RETURN_SLOTS};
use crate::runtime::interpreter::next::{raise, raised, Next, NextView};
use crate::runtime::interpreter::object_ops::{
    check_initialized, initialization_gate, rest_unchanged,
};
use crate::runtime::interpreter::variable::Variable;
use crate::runtime::structs::constant_pool::{constants_view, ConstantPoolInfo, MethodResolve};
use crate::runtime::structs::exception::VmExceptionKind;
use crate::runtime::structs::Class;
use crate::runtime::Vm;
use vstd::prelude::*;

verus! {

/// How an instruction ends whose reference to a method leads to no method.
pub open spec fn no_method(found: MethodLookupView) -> NextView {
    match found {
        MethodLookupView::NoSuchMethod => raised(VmExceptionKind::NoSuchMethod),
        MethodLookupView::Missing(name) => NextView::LoadClass(name),
        _ => NextView::Malformed,
    }
}

/// How an instruction ends whose reference to a method leads to no method.
fn method_unavailable(found: MethodLookup) -> (next: Next)
    requires
        !(found is Found),
    ensures
        next@ == no_method(found@),
{
    match found {
        MethodLookup::NoSuchMethod => raise(VmExceptionKind::NoSuchMethod),
        MethodLookup::Missing(name) => Next::LoadClass(name),
        _ => Next::Malformed,
    }
}

/// The class of the method, its place among the methods of the class and
/// its row in the vtable, for a reference that class `frame_class` holds.
pub open spec fn target_of(resolve: MethodResolve, frame_class: usize) -> (usize, usize, isize) {
    match resolve {
        MethodResolve::InThisClass { index, vtable_index } => (frame_class, index, vtable_index),
        MethodResolve::OtherClass { class, index, vtable_index } => (class, index, vtable_index),
    }
}

/// Whether the class has a method with this place.
pub open spec fn has_method(classes: Seq<Class>, class: usize, index: usize) -> bool {
    class < classes.len() && index < classes[class as int].methods.len()
}

/// What `invokestatic` does once its reference is followed.
pub open spec fn invoke_static_outcome(
    found: MethodLookupView,
    frame_class: usize,
    thread: usize,
    classes: Seq<Class>,
    return_pc: usize,
) -> NextView {
    match found {
        MethodLookupView::Found { resolve } => {
            let target = target_of(resolve, frame_class);
            if !has_method(classes, target.0, target.1) {
                NextView::Malformed
            } else {
                match initialization_gate(classes[target.0 as int].clinit_call, target.0, thread) {
                    Some(gate) => gate,
                    None => NextView::InvokeStatic { class: target.0, index: target.1, return_pc },
                }
            }
        },
        _ => no_method(found),
    }
}

/// What `invokestatic` does to the machine, and how it ends.
pub open spec fn invoke_static_step(
    frame_class: usize,
    code: Seq<u8>,
    pc: int,
    before: Vm,
    thread: usize,
    after: Vm,
    next: NextView,
) -> bool {
    &&& rest_unchanged(before, after)
    &&& after.heap == before.heap
    &&& if pc + 2 >= code.len() {
            next == NextView::Malformed && after.loader == before.loader
        } else {
            &&& method_lookup_frame(
                before.loader,
                after.loader,
                frame_class as int,
                u16_at(code, pc + 1),
                true,
            )
            &&& next == invoke_static_outcome(
                method_lookup(
                    before.loader.classes@,
                    before.loader.names(),
                    frame_class as int,
                    u16_at(code, pc + 1),
                    true,
                ),
                frame_class,
                thread,
                before.loader.classes@,
                (pc + 3) as usize,
            )
        }
}

/// Runs `invokestatic`.
pub fn invoke_static(frame_class: usize, code: &Vec<u8>, pc: usize, vm: &mut Vm, thread: usize) -> (next:
    Next)
    requires
        old(vm).wf(),
        frame_class < old(vm).loader.classes.len(),
        pc < code.len(),
    ensures
        final(vm).wf(),
        invoke_static_step(
            frame_class,
            code@,
            pc as int,
            *old(vm),
            thread,
            *final(vm),
            next@,
        ),
{
    if code.len() - pc < 3 {
        return Next::Malformed;
    }
    let index = read_u16(code, pc + 1);
    let found = vm.loader.method_reference(frame_class, index, true);
    proof {
        lemma_famous_stay(vm.famous, old(vm).loader, vm.loader);
    }
    let resolve = match found {
        MethodLookup::Found { resolve } => resolve,
        other => {
            return method_unavailable(other);
        },
    };
    let (class, method, _) = resolve.get_class_and_index(frame_class);
    if class >= vm.loader.classes.len() || method >= vm.loader.classes[class].methods.len() {
        return Next::Malformed;
    }
    match check_initialized(vm.loader.classes[class].clinit_call, class, thread) {
        Some(next) => next,
        None => Next::InvokeStatic { class, index: method, return_pc: pc + 3 },
    }
}

/// The number of slots of the arguments of the method that the reference
/// with this index names; none where the index leads to no reference to a
/// method.
pub open spec fn named_argument_slots(classes: Seq<Class>, frame_class: usize, index: int) -> Option<
    int,
> {
    match named_parameters(classes, frame_class, index) {
        Some(parameters) => Some(parameter_slots(parameters, parameters.len() as int)),
        None => None,
    }
}

/// The parameters of the method that the reference with this index names.
pub open spec fn named_parameters(classes: Seq<Class>, frame_class: usize, index: int) -> Option<
    Seq<FieldTypeView>,
> {
    match method_entry(constants_view(classes[frame_class as int].constant_pool@), index) {
        Some(named) => Some(named.2.parameters),
        None => None,
    }
}

/// What an instruction that invokes a method on an object does: how it
/// ends. The caller is to go on at `return_pc`.
pub open spec fn invoke_on_object_outcome(
    op: u8,
    frame_class: usize,
    index: int,
    stack: Seq<Variable>,
    vm: Vm,
    return_pc: usize,
) -> NextView {
    match named_argument_slots(vm.loader.classes@, frame_class, index) {
        None => NextView::Malformed,
        Some(slots) => if depth(stack) < slots + 1 {
            NextView::Malformed
        } else if top(stack, slots).bits == 0 {
            raised(VmExceptionKind::NullPointer)
        } else {
            match method_lookup(
                vm.loader.classes@,
                vm.loader.names(),
                frame_class as int,
                index,
                false,
            ) {
                MethodLookupView::Found { resolve } => {
                    let target = target_of(resolve, frame_class);
                    if !has_method(vm.loader.classes@, target.0, target.1) {
                        NextView::Malformed
                    } else if op == inst::INVOKEINTERFACE {
                        NextView::InvokeInterface {
                            interface: target.0,
                            index: target.1,
                            this: top(stack, slots).bits,
                            return_pc,
                        }
                    } else {
                        NextView::InvokeSpecial {
                            static_class: target.0,
                            index: target.1,
                            vtable_index: target.2,
                            is_virtual: op == inst::INVOKEVIRTUAL,
                            this: top(stack, slots).bits,
                            return_pc,
                        }
                    }
                },
                other => no_method(other),
            }
        },
    }
}

/// The length of an invoke instruction: five bytes for `invokeinterface`,
/// three for the others.
pub open spec fn invoke_length(op: u8) -> int {
    if op == inst::INVOKEINTERFACE {
        5
    } else {
        3
    }
}

/// What `invokespecial`, `invokevirtual` or `invokeinterface` does to the machine, and how it ends.
pub open spec fn invoke_on_object_step(
    frame_class: usize,
    code: Seq<u8>,
    pc: int,
    stack: Seq<Variable>,
    before: Vm,
    after: Vm,
    next: NextView,
) -> bool {
    &&& rest_unchanged(before, after)
    &&& after.heap == before.heap
    &&& if pc + invoke_length(code[pc]) > code.len() {
            next == NextView::Malformed && after.loader == before.loader
        } else {
            &&& next == invoke_on_object_outcome(
                code[pc],
                frame_class,
                u16_at(code, pc + 1),
                stack,
                before,
                (pc + invoke_length(code[pc])) as usize,
            )
            &&& if named_argument_slots(
                before.loader.classes@,
                frame_class,
                u16_at(code, pc + 1),
            ) matches Some(slots) && depth(stack) >= slots + 1 && top(stack, slots).bits != 0 {
                method_lookup_frame(
                    before.loader,
                    after.loader,
                    frame_class as int,
                    u16_at(code, pc + 1),
                    false,
                )
            } else {
                after.loader == before.loader
            }
        }
}

/// Runs `invokespecial`, `invokevirtual` or `invokeinterface`.
pub fn invoke_on_object(
    frame_class: usize,
    code: &Vec<u8>,
    pc: usize,
    stack: &Vec<Variable>,
    vm: &mut Vm,
) -> (next: Next)
    requires
        old(vm).wf(),
        frame_class < old(vm).loader.classes.len(),
        pc < code.len(),
        code[pc as int] == inst::INVOKESPECIAL || code[pc as int] == inst::INVOKEVIRTUAL
            || code[pc as int] == inst::INVOKEINTERFACE,
    ensures
        final(vm).wf(),
        invoke_on_object_step(
            frame_class,
            code@,
            pc as int,
            stack@,
            *old(vm),
            *final(vm),
            next@,
        ),
{
    let op = code[pc];
    let length: usize = if op == inst::INVOKEINTERFACE {
        5
    } else {
        3
    };
    if code.len() - pc < length {
        return Next::Malformed;
    }
    let index = read_u16(code, pc + 1);
    let named = match entry(&vm.loader.classes[frame_class].constant_pool, index) {
        Some(ConstantPoolInfo::Methodref(m)) => Some(m),
        Some(ConstantPoolInfo::InterfaceMethodref(m)) => Some(m),
        _ => None,
    };
    if stack.len() <= RETURN_SLOTS {
        proof {
            let parameters = named_parameters(vm.loader.classes@, frame_class, index as int);
            if parameters.is_some() {
                lemma_parameter_slots_grow(parameters->Some_0, 0, parameters->Some_0.len() as int);
            }
        }
        return Next::Malformed;
    }
    let slots = match named {
        Some(m) => match count_parameter_slots(
            &m.name_and_type.descriptor.parameters,
            stack.len() - RETURN_SLOTS - 1,
        ) {
            Some(slots) => slots,
            None => {
                return Next::Malformed;
            },
        },
        None => {
            return Next::Malformed;
        },
    };
    let this = peek(stack, slots).get_reference();
    if this == 0 {
        return raise(VmExceptionKind::NullPointer);
    }
    let found = vm.loader.method_reference(frame_class, index, false);
    proof {
        lemma_famous_stay(vm.famous, old(vm).loader, vm.loader);
    }
    let resolve = match found {
        MethodLookup::Found { resolve } => resolve,
        other => {
            return method_unavailable(other);
        },
    };
    let (class, method, vtable_index) = resolve.get_class_and_index(frame_class);
    if class >= vm.loader.classes.len() || method >= vm.loader.classes[class].methods.len() {
        return Next::Malformed;
    }
    if op == inst::INVOKEINTERFACE {
        Next::InvokeInterface { interface: class, index: method, this, return_pc: pc + length }
    } else {
        Next::InvokeSpecial {
            static_class: class,
            index: method,
            vtable_index,
            is_virtual: op == inst::INVOKEVIRTUAL,
            this,
            return_pc: pc + length,
        }
    }
}

} // verus!

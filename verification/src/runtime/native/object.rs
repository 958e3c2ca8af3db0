//! The natives of `java/lang/Object`.

use crate::runtime::famous_classes::CLONEABLE_CLASS;
use crate::runtime::heap::{allocated, ObjectView, MAX_OBJECT_ID};
use crate::runtime::inheritance::{assignable, is_array_assignable_to};
use crate::runtime::interpreter::object_ops::rest_unchanged;
use crate::runtime::interpreter::type_ops::special_classes_of;
use crate::runtime::interpreter::variable::{signed32, to_signed32};
use crate::runtime::native::{NativeOutcome, NativeVariable};
use crate::runtime::structs::exception::VmExceptionKind;
use crate::runtime::structs::object::ObjectMonitor;
use crate::runtime::Vm;
use vstd::prelude::*;

verus! {

/// What `hashCode` and `identityHashCode` give: the identifier of the
/// object, as an int.
pub open spec fn hash_code_outcome(args: Seq<NativeVariable>) -> NativeOutcome {
    if args.len() >= 1 && args[0] is Reference {
        NativeOutcome::Value(Some(NativeVariable::Int(signed32(args[0]->Reference_0))))
    } else {
        NativeOutcome::Malformed
    }
}

/// `Object.hashCode` and `System.identityHashCode`.
pub fn native_object_hash_code(args: &Vec<NativeVariable>) -> (outcome: NativeOutcome)
    ensures
        outcome == hash_code_outcome(args@),
{
    if args.len() < 1 {
        return NativeOutcome::Malformed;
    }
    match args[0] {
        NativeVariable::Reference(id) => NativeOutcome::Value(
            Some(NativeVariable::Int(to_signed32(id))),
        ),
        _ => NativeOutcome::Malformed,
    }
}

/// How `clone` ends: with `CloneNotSupportedException` where the class of
/// the object is not assignable to `Cloneable`; else with a reference to
/// the copy, which gets the next free identifier.
pub open spec fn clone_outcome(args: Seq<NativeVariable>, vm: Vm) -> NativeOutcome {
    if !(args.len() >= 1 && args[0] is Reference) {
        NativeOutcome::Malformed
    } else {
        let id = args[0]->Reference_0;
        match vm.heap.class_of(id, special_classes_of(vm)) {
            None => if id == 0 {
                NativeOutcome::Throw(VmExceptionKind::NullPointer)
            } else {
                NativeOutcome::Malformed
            },
            Some(class) => if class >= vm.loader.classes.len() {
                NativeOutcome::Malformed
            } else if !assignable(
                vm.loader.classes@,
                class as int,
                vm.famous.ids@[CLONEABLE_CLASS as int],
            ) {
                NativeOutcome::Throw(VmExceptionKind::CloneNotSupported)
            } else if vm.heap.ordinary(id).is_none() {
                NativeOutcome::Malformed
            } else if vm.heap.next_id >= MAX_OBJECT_ID - 1 {
                NativeOutcome::HeapFull
            } else {
                NativeOutcome::Value(
                    Some(NativeVariable::Reference((vm.heap.next_id + 1) as u32)),
                )
            },
        }
    }
}

/// What `clone` does to the heap: where it gives a reference, that is a
/// new object of the class of the original, with the same slots or bytes
/// and a monitor of its own; else the heap stays as it is.
pub open spec fn clone_effect(
    args: Seq<NativeVariable>,
    before: Vm,
    after: Vm,
    outcome: NativeOutcome,
) -> bool {
    &&& outcome == clone_outcome(args, before)
    &&& after.loader == before.loader
    &&& rest_unchanged(before, after)
    &&& match outcome {
        NativeOutcome::Value(Some(NativeVariable::Reference(copy))) => allocated(
            before.heap,
            after.heap,
            copy,
            ObjectView {
                monitor: ObjectMonitor { owner: 0, count: 0 },
                ..before.heap.ordinary(args[0]->Reference_0)->Some_0@
            },
        ),
        _ => after.heap == before.heap,
    }
}

/// `Object.clone`.
pub fn native_object_clone(args: &Vec<NativeVariable>, vm: &mut Vm) -> (outcome: NativeOutcome)
    requires
        old(vm).wf(),
    ensures
        final(vm).wf(),
        clone_effect(args@, *old(vm), *final(vm), outcome),
{
    if args.len() < 1 {
        return NativeOutcome::Malformed;
    }
    let id = match args[0] {
        NativeVariable::Reference(id) => id,
        _ => {
            return NativeOutcome::Malformed;
        },
    };
    let classes = vm.famous.special_classes();
    let class = match vm.heap.get_class(id, &classes) {
        Some(class) => class,
        None => {
            if id == 0 {
                return NativeOutcome::Throw(VmExceptionKind::NullPointer);
            }
            return NativeOutcome::Malformed;
        },
    };
    if class >= vm.loader.classes.len() {
        return NativeOutcome::Malformed;
    }
    let cloneable = vm.famous.get(CLONEABLE_CLASS);
    if !is_array_assignable_to(&vm.loader.classes, class, cloneable) {
        return NativeOutcome::Throw(VmExceptionKind::CloneNotSupported);
    }
    if vm.heap.get_ordinary(id).is_none() {
        return NativeOutcome::Malformed;
    }
    match vm.heap.clone(id) {
        Some(copy) => NativeOutcome::Value(Some(NativeVariable::Reference(copy))),
        None => NativeOutcome::HeapFull,
    }
}

} // verus!

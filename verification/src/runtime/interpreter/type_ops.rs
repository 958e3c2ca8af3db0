//! `checkcast`, `instanceof`, `athrow`, `monitorenter` and `monitorexit`.

use crate::bytes::{read_u16, u16_at};
use crate::runtime::class_loader::reference::{
    class_found, class_lookup_frame, ClassLookup, ClassLookupView,
};
use crate::runtime::famous_classes::lemma_famous_stay;
use crate::runtime::heap::access::SpecialClasses;
use crate::runtime::inheritance::{assignable, is_array_assignable_to};
use crate::runtime::interpreter::local::{depth, drop_slots, dropped, peek, top, RETURN_SLOTS};
use crate::runtime::interpreter::next::{raise, raised, ExceptionView, Next, NextView};
use crate::runtime::interpreter::object_ops::{class_unavailable, rest_unchanged, unavailable};
use crate::runtime::interpreter::variable::Variable;
use crate::runtime::structs::exception::{Exception, VmExceptionKind};
use crate::runtime::structs::object::ObjectMonitor;
use crate::runtime::Vm;
use vstd::prelude::*;

verus! {

/// The classes of the special objects of the machine.
pub open spec fn special_classes_of(vm: Vm) -> SpecialClasses {
    SpecialClasses {
        string: vm.famous.ids@[1],
        byte_array: vm.famous.ids@[3],
        class: vm.famous.ids@[2],
    }
}

/// Whether the object is of a class that is assignable to class `target`;
/// none where the reference names no object of a class of the machine.
pub open spec fn instance_of(vm: Vm, object: u32, target: usize) -> Option<bool> {
    match vm.heap.class_of(object, special_classes_of(vm)) {
        Some(class) => if class < vm.loader.classes.len() && target < vm.loader.classes.len() {
            Some(assignable(vm.loader.classes@, class as int, target))
        } else {
            None
        },
        None => None,
    }
}

/// Whether the object is of a class that is assignable to class `target`.
fn is_instance(vm: &Vm, object: u32, target: usize) -> (r: Option<bool>)
    requires
        vm.wf(),
    ensures
        r == instance_of(*vm, object, target),
{
    let classes = vm.famous.special_classes();
    match vm.heap.get_class(object, &classes) {
        Some(class) => {
            if class < vm.loader.classes.len() && target < vm.loader.classes.len() {
                Some(is_array_assignable_to(&vm.loader.classes, class, target))
            } else {
                None
            }
        },
        None => None,
    }
}

/// What `checkcast` (or `instanceof`, where `test` holds) does once the
/// class that it names is found: null passes a cast and fails a test; an
/// object passes where its class is assignable to the class named. A cast
/// that fails raises `ClassCastException`; a test puts 1 or 0 in place of
/// the reference.
pub open spec fn cast_outcome(test: bool, found: ClassLookupView, stack: Seq<Variable>, vm: Vm) -> (
    NextView,
    Seq<Variable>,
) {
    match found {
        ClassLookupView::Malformed => (NextView::Malformed, stack),
        ClassLookupView::Failed(failure) => (unavailable(failure), stack),
        ClassLookupView::Found(target) => {
            let object = top(stack, 0).bits;
            if object == 0 {
                if test {
                    (NextView::Step, dropped(stack, 1).push(Variable::of_int(0)))
                } else {
                    (NextView::Step, stack)
                }
            } else {
                match instance_of(vm, object, target) {
                    None => (NextView::Malformed, stack),
                    Some(yes) => if test {
                        (
                            NextView::Step,
                            dropped(stack, 1).push(
                                Variable::of_int(
                                    if yes {
                                        1
                                    } else {
                                        0
                                    },
                                ),
                            ),
                        )
                    } else if yes {
                        (NextView::Step, stack)
                    } else {
                        (raised(VmExceptionKind::ClassCast), stack)
                    },
                }
            }
        },
    }
}

/// What `checkcast` does to the frame and the machine, or `instanceof` where `test` holds.
pub open spec fn check_cast_step(
    test: bool,
    frame_class: usize,
    code: Seq<u8>,
    pc: int,
    stack: Seq<Variable>,
    before: Vm,
    after: Vm,
    next: NextView,
    after_stack: Seq<Variable>,
    after_pc: int,
) -> bool {
    &&& rest_unchanged(before, after)
    &&& after.heap == before.heap
    &&& after_pc == (if next is Step {
            pc + 3
        } else {
            pc
        })
    &&& if pc + 2 >= code.len() || depth(stack) < 1 {
            next == NextView::Malformed && after_stack == stack && after.loader
                == before.loader
        } else {
            &&& class_lookup_frame(
                before.loader,
                after.loader,
                frame_class as int,
                u16_at(code, pc + 1),
            )
            &&& (next, after_stack) == cast_outcome(
                test,
                class_found(
                    before.loader,
                    after.loader,
                    frame_class as int,
                    u16_at(code, pc + 1),
                ),
                stack,
                after,
            )
        }
}

/// Runs `checkcast`, or `instanceof` where `test` holds.
pub fn check_cast(
    test: bool,
    frame_class: usize,
    code: &Vec<u8>,
    pc: &mut usize,
    stack: &mut Vec<Variable>,
    vm: &mut Vm,
) -> (next: Next)
    requires
        old(vm).wf(),
        frame_class < old(vm).loader.classes.len(),
        *old(pc) < code.len(),
    ensures
        final(vm).wf(),
        check_cast_step(
            test,
            frame_class,
            code@,
            *old(pc) as int,
            old(stack)@,
            *old(vm),
            *final(vm),
            next@,
            final(stack)@,
            *final(pc) as int,
        ),
{
    if code.len() - *pc < 3 || stack.len() < RETURN_SLOTS + 1 {
        return Next::Malformed;
    }
    let index = read_u16(code, *pc + 1);
    let found = vm.loader.class_reference(frame_class, index);
    proof {
        lemma_famous_stay(vm.famous, old(vm).loader, vm.loader);
    }
    let target = match found {
        ClassLookup::Found(target) => target,
        ClassLookup::Failed(e) => {
            return class_unavailable(e);
        },
        ClassLookup::Malformed => {
            return Next::Malformed;
        },
    };
    let object = peek(stack, 0).get_reference();
    let passes = if object == 0 {
        !test
    } else {
        match is_instance(vm, object, target) {
            Some(yes) => yes,
            None => {
                return Next::Malformed;
            },
        }
    };
    if test {
        drop_slots(stack, 1);
        stack.push(
            Variable::from_int(
                if object != 0 && passes {
                    1
                } else {
                    0
                },
            ),
        );
    } else if !passes {
        return raise(VmExceptionKind::ClassCast);
    }
    *pc = *pc + 3;
    Next::Step
}

/// What `athrow` does: it throws the object on top of the operand stack,
/// or raises `NullPointerException` where that is null.
pub open spec fn throw_effect(stack: Seq<Variable>) -> NextView {
    if depth(stack) < 1 {
        NextView::Malformed
    } else if top(stack, 0).bits == 0 {
        raised(VmExceptionKind::NullPointer)
    } else {
        NextView::Exception(ExceptionView::UserException(top(stack, 0).bits))
    }
}

/// Runs `athrow`.
pub fn throw(stack: &Vec<Variable>) -> (next: Next)
    ensures
        next@ == throw_effect(stack@),
{
    if stack.len() < RETURN_SLOTS + 1 {
        return Next::Malformed;
    }
    let object = peek(stack, 0).get_reference();
    if object == 0 {
        return raise(VmExceptionKind::NullPointer);
    }
    Next::Exception(Exception::new(object))
}

/// What `monitorenter` (or `monitorexit`, where `leave` holds) does: how
/// it ends, and the monitor of the object behind it. The reference is
/// taken from the stack unless the thread is blocked. Null raises
/// `NullPointerException`. A thread that enters a monitor that another
/// thread holds is blocked; a thread that leaves a monitor that it does not
/// hold raises `IllegalMonitorStateException`.
pub open spec fn monitor_effect(leave: bool, stack: Seq<Variable>, thread: usize, vm: Vm) -> (
    NextView,
    Option<ObjectMonitor>,
) {
    if depth(stack) < 1 {
        (NextView::Malformed, None)
    } else if top(stack, 0).bits == 0 {
        (raised(VmExceptionKind::NullPointer), None)
    } else {
        match vm.heap.monitor_of(top(stack, 0).bits) {
            None => (NextView::Malformed, None),
            Some(monitor) => if leave {
                if monitor.held_by(thread) {
                    (
                        NextView::Step,
                        Some(ObjectMonitor { owner: thread, count: (monitor.count - 1) as usize }),
                    )
                } else {
                    (raised(VmExceptionKind::IllegalMonitorState), None)
                }
            } else {
                if monitor.is_free() {
                    (NextView::Step, Some(ObjectMonitor { owner: thread, count: 1 }))
                } else if monitor.held_by(thread) && monitor.count < usize::MAX {
                    (
                        NextView::Step,
                        Some(ObjectMonitor { owner: thread, count: (monitor.count + 1) as usize }),
                    )
                } else {
                    (NextView::Blocked, None)
                }
            },
        }
    }
}

/// What `monitorenter` does to the frame and the machine, or `monitorexit` where `leave` holds.
pub open spec fn monitor_step(
    leave: bool,
    pc: int,
    stack: Seq<Variable>,
    before: Vm,
    thread: usize,
    after: Vm,
    next: NextView,
    after_stack: Seq<Variable>,
    after_pc: int,
) -> bool {
    &&& rest_unchanged(before, after)
    &&& after.loader == before.loader
    &&& next == monitor_effect(leave, stack, thread, before).0
    &&& after_pc == (if next is Step {
            pc + 1
        } else {
            pc
        })
    &&& after_stack == (if next is Step || next is Exception {
            dropped(stack, 1)
        } else {
            stack
        })
    &&& after.heap.next_id == before.heap.next_id
    &&& after.heap.heap.len() == before.heap.heap.len()
    &&& after.heap.special_heap.heap.len() == before.heap.special_heap.heap.len()
    &&& match monitor_effect(leave, stack, thread, before).1 {
            Some(monitor) => after.heap.monitor_of(top(stack, 0).bits) == Some(monitor)
                && crate::runtime::heap::access::monitor_apart(
                before.heap,
                after.heap,
                top(stack, 0).bits,
            ),
            None => after.heap == before.heap,
        }
}

/// Runs `monitorenter`, or `monitorexit` where `leave` holds.
pub fn monitor(leave: bool, pc: &mut usize, stack: &mut Vec<Variable>, vm: &mut Vm, thread: usize) -> (next:
    Next)
    requires
        old(vm).wf(),
        *old(pc) < usize::MAX,
    ensures
        final(vm).heap.wf(),
        monitor_step(
            leave,
            *old(pc) as int,
            old(stack)@,
            *old(vm),
            thread,
            *final(vm),
            next@,
            final(stack)@,
            *final(pc) as int,
        ),
{
    if stack.len() < RETURN_SLOTS + 1 {
        return Next::Malformed;
    }
    let object = peek(stack, 0).get_reference();
    if object == 0 {
        drop_slots(stack, 1);
        return raise(VmExceptionKind::NullPointer);
    }
    let held = match vm.heap.get_monitor(object) {
        Some(held) => held,
        None => {
            return Next::Malformed;
        },
    };
    if leave {
        if !(held.count > 0 && held.owner == thread) {
            drop_slots(stack, 1);
            return raise(VmExceptionKind::IllegalMonitorState);
        }
        let _ = vm.heap.monitor_exit(object, thread);
    } else {
        if !(held.count == 0 || (held.owner == thread && held.count < usize::MAX)) {
            return Next::Blocked;
        }
        let _ = vm.heap.monitor_enter(object, thread);
    }
    drop_slots(stack, 1);
    *pc = *pc + 1;
    Next::Step
}

} // verus!

//! The instructions that read and write fields: `getfield`, `putfield`,
//! `getstatic` and `putstatic`.
//!
//! Each names its field by a reference of the constant pool, which is
//! resolved when it is first used. A field of type long or double fills two
//! slots, of the object or of the class and of the operand stack, upper
//! half first.

use crate::bytes::{read_u16, u16_at};
use crate::runtime::class_loader::reference::{
    field_lookup, field_lookup_frame, FieldLookup, FieldLookupView,
};
use crate::runtime::famous_classes::lemma_famous_stay;
use crate::runtime::heap::access::stored;
use crate::runtime::heap::Heap;
use crate::runtime::interpreter::local::{depth, drop_slots, dropped, peek, top, RETURN_SLOTS};
use crate::runtime::interpreter::next::{raise, raised, Next, NextView};
use crate::runtime::interpreter::object_ops::{
    check_initialized, initialization_gate, rest_unchanged,
};
use crate::runtime::interpreter::variable::Variable;
use crate::runtime::structs::constant_pool::FieldResolve;
use crate::runtime::structs::exception::VmExceptionKind;
use crate::runtime::Vm;
use vstd::prelude::*;

verus! {

/// How an instruction ends whose reference to a field leads to no field.
pub open spec fn no_field(found: FieldLookupView) -> NextView {
    match found {
        FieldLookupView::NoSuchField => raised(VmExceptionKind::NoSuchField),
        FieldLookupView::Missing(name) => NextView::LoadClass(name),
        _ => NextView::Malformed,
    }
}

/// How an instruction ends whose reference to a field leads to no field.
fn field_unavailable(found: FieldLookup) -> (next: Next)
    requires
        !(found is Found),
    ensures
        next@ == no_field(found@),
{
    match found {
        FieldLookup::NoSuchField => raise(VmExceptionKind::NoSuchField),
        FieldLookup::Missing(name) => Next::LoadClass(name),
        _ => Next::Malformed,
    }
}

/// The slot that a resolved reference to a field leads to.
pub open spec fn slot_of(resolve: FieldResolve) -> usize {
    match resolve {
        FieldResolve::InThisClass(index) => index,
        FieldResolve::OtherClass { index, .. } => index,
    }
}

/// The class whose static slots a resolved reference leads to, for a
/// reference that class `frame_class` holds.
pub open spec fn owner_of(resolve: FieldResolve, frame_class: usize) -> usize {
    match resolve {
        FieldResolve::InThisClass(_) => frame_class,
        FieldResolve::OtherClass { class, .. } => class,
    }
}

/// What `getfield` does, once its reference is followed: how it ends and
/// the operand stack behind it.
pub open spec fn get_field_outcome(found: FieldLookupView, stack: Seq<Variable>, vm: Vm) -> (
    NextView,
    Seq<Variable>,
) {
    match found {
        FieldLookupView::Found { resolve, is_long } => {
            if depth(stack) < 1 {
                (NextView::Malformed, stack)
            } else if top(stack, 0).bits == 0 {
                (raised(VmExceptionKind::NullPointer), dropped(stack, 1))
            } else {
                match vm.heap.read_field(top(stack, 0).bits, slot_of(resolve), vm.special_fields) {
                    None => (NextView::Malformed, stack),
                    Some(v1) => if !is_long {
                        (NextView::Step, dropped(stack, 1).push(v1))
                    } else if slot_of(resolve) == usize::MAX {
                        (NextView::Malformed, stack)
                    } else {
                        match vm.heap.read_field(
                            top(stack, 0).bits,
                            (slot_of(resolve) + 1) as usize,
                            vm.special_fields,
                        ) {
                            None => (NextView::Malformed, stack),
                            Some(v2) => (NextView::Step, dropped(stack, 1).push(v1).push(v2)),
                        }
                    },
                }
            }
        },
        _ => (no_field(found), stack),
    }
}

/// What `getfield` does to the frame and the machine.
pub open spec fn get_field_step(
    frame_class: usize,
    code: Seq<u8>,
    pc: int,
    stack: Seq<Variable>,
    before: Vm,
    after: Vm,
    next: NextView,
    after_stack: Seq<Variable>,
    after_pc: int,
) -> bool {
    &&& rest_unchanged(before, after)
    &&& after.heap == before.heap
    &&& after_pc == (if next is Step {
            pc + 3
        } else {
            pc
        })
    &&& if pc + 2 >= code.len() {
            next == NextView::Malformed && after_stack == stack && after.loader
                == before.loader
        } else {
            &&& field_lookup_frame(
                before.loader,
                after.loader,
                frame_class as int,
                u16_at(code, pc + 1),
                false,
            )
            &&& (next, after_stack) == get_field_outcome(
                field_lookup(
                    before.loader.classes@,
                    before.loader.names(),
                    frame_class as int,
                    u16_at(code, pc + 1),
                    false,
                ),
                stack,
                before,
            )
        }
}

/// Runs `getfield`.
pub fn get_field(
    frame_class: usize,
    code: &Vec<u8>,
    pc: &mut usize,
    stack: &mut Vec<Variable>,
    vm: &mut Vm,
) -> (next: Next)
    requires
        old(vm).wf(),
        frame_class < old(vm).loader.classes.len(),
        *old(pc) < code.len(),
    ensures
        final(vm).wf(),
        get_field_step(
            frame_class,
            code@,
            *old(pc) as int,
            old(stack)@,
            *old(vm),
            *final(vm),
            next@,
            final(stack)@,
            *final(pc) as int,
        ),
{
    if code.len() - *pc < 3 {
        return Next::Malformed;
    }
    let index = read_u16(code, *pc + 1);
    let found = vm.loader.field_reference(frame_class, index, false);
    proof {
        lemma_famous_stay(vm.famous, old(vm).loader, vm.loader);
    }
    let (resolve, is_long) = match found {
        FieldLookup::Found { resolve, is_long } => (resolve, is_long),
        other => {
            return field_unavailable(other);
        },
    };
    if stack.len() < RETURN_SLOTS + 1 {
        return Next::Malformed;
    }
    let this = peek(stack, 0).get_reference();
    if this == 0 {
        drop_slots(stack, 1);
        return raise(VmExceptionKind::NullPointer);
    }
    let slot = resolve.get_index();
    let v1 = match vm.heap.load_field(this, slot, &vm.special_fields) {
        Some(v) => v,
        None => {
            return Next::Malformed;
        },
    };
    if !is_long {
        drop_slots(stack, 1);
        stack.push(v1);
        *pc = *pc + 3;
        return Next::Step;
    }
    if slot == usize::MAX {
        return Next::Malformed;
    }
    match vm.heap.load_field(this, slot + 1, &vm.special_fields) {
        Some(v2) => {
            drop_slots(stack, 1);
            stack.push(v1);
            stack.push(v2);
            *pc = *pc + 3;
            Next::Step
        },
        None => Next::Malformed,
    }
}

/// What `getstatic` does, once its reference is followed: how it ends and
/// the operand stack behind it. The class that holds the field has to be
/// initialized.
pub open spec fn get_static_outcome(
    found: FieldLookupView,
    frame_class: usize,
    thread: usize,
    stack: Seq<Variable>,
    vm: Vm,
) -> (NextView, Seq<Variable>) {
    match found {
        FieldLookupView::Found { resolve, is_long } => {
            let owner = owner_of(resolve, frame_class);
            let slot = slot_of(resolve);
            if owner >= vm.loader.classes.len() {
                (NextView::Malformed, stack)
            } else {
                match initialization_gate(
                    vm.loader.classes[owner as int].clinit_call,
                    owner,
                    thread,
                ) {
                    Some(gate) => (gate, stack),
                    None => {
                        let slots = vm.loader.classes[owner as int].static_fields@;
                        if is_long {
                            if slot + 1 < slots.len() {
                                (NextView::Step, stack.push(slots[slot as int]).push(slots[slot + 1]))
                            } else {
                                (NextView::Malformed, stack)
                            }
                        } else {
                            if slot < slots.len() {
                                (NextView::Step, stack.push(slots[slot as int]))
                            } else {
                                (NextView::Malformed, stack)
                            }
                        }
                    },
                }
            }
        },
        _ => (no_field(found), stack),
    }
}

/// What `getstatic` does to the frame and the machine.
pub open spec fn get_static_step(
    frame_class: usize,
    code: Seq<u8>,
    pc: int,
    stack: Seq<Variable>,
    before: Vm,
    thread: usize,
    after: Vm,
    next: NextView,
    after_stack: Seq<Variable>,
    after_pc: int,
) -> bool {
    &&& rest_unchanged(before, after)
    &&& after.heap == before.heap
    &&& after_pc == (if next is Step {
            pc + 3
        } else {
            pc
        })
    &&& if pc + 2 >= code.len() {
            next == NextView::Malformed && after_stack == stack && after.loader
                == before.loader
        } else {
            &&& field_lookup_frame(
                before.loader,
                after.loader,
                frame_class as int,
                u16_at(code, pc + 1),
                true,
            )
            &&& (next, after_stack) == get_static_outcome(
                field_lookup(
                    before.loader.classes@,
                    before.loader.names(),
                    frame_class as int,
                    u16_at(code, pc + 1),
                    true,
                ),
                frame_class,
                thread,
                stack,
                before,
            )
        }
}

/// Runs `getstatic`.
pub fn get_static(
    frame_class: usize,
    code: &Vec<u8>,
    pc: &mut usize,
    stack: &mut Vec<Variable>,
    vm: &mut Vm,
    thread: usize,
) -> (next: Next)
    requires
        old(vm).wf(),
        frame_class < old(vm).loader.classes.len(),
        *old(pc) < code.len(),
    ensures
        final(vm).wf(),
        get_static_step(
            frame_class,
            code@,
            *old(pc) as int,
            old(stack)@,
            *old(vm),
            thread,
            *final(vm),
            next@,
            final(stack)@,
            *final(pc) as int,
        ),
{
    if code.len() - *pc < 3 {
        return Next::Malformed;
    }
    let index = read_u16(code, *pc + 1);
    let found = vm.loader.field_reference(frame_class, index, true);
    proof {
        lemma_famous_stay(vm.famous, old(vm).loader, vm.loader);
    }
    let (resolve, is_long) = match found {
        FieldLookup::Found { resolve, is_long } => (resolve, is_long),
        other => {
            return field_unavailable(other);
        },
    };
    let (owner, slot) = match resolve {
        FieldResolve::InThisClass(index) => (frame_class, index),
        FieldResolve::OtherClass { class, index } => (class, index),
    };
    if owner >= vm.loader.classes.len() {
        return Next::Malformed;
    }
    match check_initialized(vm.loader.classes[owner].clinit_call, owner, thread) {
        Some(next) => {
            return next;
        },
        None => {},
    }
    let slots = &vm.loader.classes[owner].static_fields;
    if is_long {
        if slot < slots.len() && slots.len() - slot > 1 {
            stack.push(slots[slot]);
            stack.push(slots[slot + 1]);
        } else {
            return Next::Malformed;
        }
    } else {
        if slot < slots.len() {
            stack.push(slots[slot]);
        } else {
            return Next::Malformed;
        }
    }
    *pc = *pc + 3;
    Next::Step
}

/// What `putstatic` does, once its reference is followed: how it ends, the
/// operand stack behind it, and what it writes: the class, the slot, and
/// the one value or the two.
pub open spec fn put_static_outcome(
    found: FieldLookupView,
    frame_class: usize,
    thread: usize,
    stack: Seq<Variable>,
    vm: Vm,
) -> (NextView, Seq<Variable>, Option<(usize, usize, Seq<Variable>)>) {
    match found {
        FieldLookupView::Found { resolve, is_long } => {
            let owner = owner_of(resolve, frame_class);
            let slot = slot_of(resolve);
            if owner >= vm.loader.classes.len() {
                (NextView::Malformed, stack, None)
            } else {
                match initialization_gate(
                    vm.loader.classes[owner as int].clinit_call,
                    owner,
                    thread,
                ) {
                    Some(gate) => (gate, stack, None),
                    None => {
                        let slots = vm.loader.classes[owner as int].static_fields@;
                        if is_long {
                            if slot + 1 < slots.len() && depth(stack) >= 2 {
                                (
                                    NextView::Step,
                                    dropped(stack, 2),
                                    Some((owner, slot, seq![top(stack, 1), top(stack, 0)])),
                                )
                            } else {
                                (NextView::Malformed, stack, None)
                            }
                        } else {
                            if slot < slots.len() && depth(stack) >= 1 {
                                (
                                    NextView::Step,
                                    dropped(stack, 1),
                                    Some((owner, slot, seq![top(stack, 0)])),
                                )
                            } else {
                                (NextView::Malformed, stack, None)
                            }
                        }
                    },
                }
            }
        },
        _ => (no_field(found), stack, None),
    }
}

/// The static slots with `values` written from `slot` on.
pub open spec fn with_statics(slots: Seq<Variable>, slot: int, values: Seq<Variable>) -> Seq<
    Variable,
> {
    Seq::new(
        slots.len(),
        |i: int|
            if slot <= i < slot + values.len() {
                values[i - slot]
            } else {
                slots[i]
            },
    )
}

/// What `putstatic` does to the frame and the machine.
pub open spec fn put_static_step(
    frame_class: usize,
    code: Seq<u8>,
    pc: int,
    stack: Seq<Variable>,
    before: Vm,
    thread: usize,
    after: Vm,
    next: NextView,
    after_stack: Seq<Variable>,
    after_pc: int,
) -> bool {
    &&& rest_unchanged(before, after)
    &&& after.heap == before.heap
    &&& after_pc == (if next is Step {
            pc + 3
        } else {
            pc
        })
    &&& if pc + 2 >= code.len() {
            next == NextView::Malformed && after_stack == stack && after.loader
                == before.loader
        } else {
            exists|middle: crate::runtime::class_loader::bootstrap::BootstrapClassLoader| #[trigger]
                field_lookup_frame(
                    before.loader,
                    middle,
                    frame_class as int,
                    u16_at(code, pc + 1),
                    true,
                ) && {
                    let outcome = put_static_outcome(
                        field_lookup(
                            before.loader.classes@,
                            before.loader.names(),
                            frame_class as int,
                            u16_at(code, pc + 1),
                            true,
                        ),
                        frame_class,
                        thread,
                        stack,
                        Vm { loader: middle, ..before },
                    );
                    &&& next == outcome.0
                    &&& after_stack == outcome.1
                    &&& match outcome.2 {
                        None => after.loader == middle,
                        Some((owner, slot, values)) => {
                            &&& crate::runtime::class_loader::bootstrap::same_shapes(
                                middle,
                                after.loader,
                            )
                            &&& after.loader.classes[owner as int].static_fields@
                                == with_statics(
                                middle.classes[owner as int].static_fields@,
                                slot as int,
                                values,
                            )
                            &&& after.loader.classes[owner as int].clinit_call
                                == middle.classes[owner as int].clinit_call
                            &&& after.loader.classes[owner as int].constant_pool
                                == middle.classes[owner as int].constant_pool
                            &&& forall|id: int|
                                0 <= id < middle.classes.len() && id != owner ==> after.loader.classes[id] == middle.classes[id]
                        },
                    }
                }
        }
}

/// Runs `putstatic`.
pub fn put_static(
    frame_class: usize,
    code: &Vec<u8>,
    pc: &mut usize,
    stack: &mut Vec<Variable>,
    vm: &mut Vm,
    thread: usize,
) -> (next: Next)
    requires
        old(vm).wf(),
        frame_class < old(vm).loader.classes.len(),
        *old(pc) < code.len(),
    ensures
        final(vm).wf(),
        put_static_step(
            frame_class,
            code@,
            *old(pc) as int,
            old(stack)@,
            *old(vm),
            thread,
            *final(vm),
            next@,
            final(stack)@,
            *final(pc) as int,
        ),
{
    if code.len() - *pc < 3 {
        return Next::Malformed;
    }
    let index = read_u16(code, *pc + 1);
    let found = vm.loader.field_reference(frame_class, index, true);
    proof {
        lemma_famous_stay(vm.famous, old(vm).loader, vm.loader);
    }
    let ghost middle = vm.loader;
    let (resolve, is_long) = match found {
        FieldLookup::Found { resolve, is_long } => (resolve, is_long),
        other => {
            return field_unavailable(other);
        },
    };
    let (owner, slot) = match resolve {
        FieldResolve::InThisClass(index) => (frame_class, index),
        FieldResolve::OtherClass { class, index } => (class, index),
    };
    if owner >= vm.loader.classes.len() {
        return Next::Malformed;
    }
    match check_initialized(vm.loader.classes[owner].clinit_call, owner, thread) {
        Some(next) => {
            return next;
        },
        None => {},
    }
    let count = vm.loader.classes[owner].static_fields.len();
    if is_long {
        if !(slot < count && count - slot > 1 && stack.len() >= RETURN_SLOTS + 2) {
            return Next::Malformed;
        }
        let v2 = peek(stack, 0);
        let v1 = peek(stack, 1);
        vm.loader.set_static_field(owner, slot, v1);
        let ghost between = vm.loader;
        vm.loader.set_static_field(owner, slot + 1, v2);
        proof {
            assert(vm.loader.classes[owner as int].static_fields@ =~= with_statics(
                middle.classes[owner as int].static_fields@,
                slot as int,
                seq![v1, v2],
            ));
            assert forall|id: int| 0 <= id < middle.classes.len() implies crate::runtime::class_loader::bootstrap::same_shape(
                 #[trigger] middle.classes[id],
                vm.loader.classes[id],
            ) by {
                assert(crate::runtime::class_loader::bootstrap::same_shape(
                    middle.classes[id],
                    between.classes[id],
                ));
                assert(crate::runtime::class_loader::bootstrap::same_shape(
                    between.classes[id],
                    vm.loader.classes[id],
                ));
            }
            lemma_famous_stay(vm.famous, middle, vm.loader);
        }
        drop_slots(stack, 2);
    } else {
        if !(slot < count && stack.len() >= RETURN_SLOTS + 1) {
            return Next::Malformed;
        }
        let v = peek(stack, 0);
        vm.loader.set_static_field(owner, slot, v);
        proof {
            assert(vm.loader.classes[owner as int].static_fields@ =~= with_statics(
                middle.classes[owner as int].static_fields@,
                slot as int,
                seq![v],
            ));
            lemma_famous_stay(vm.famous, middle, vm.loader);
        }
        drop_slots(stack, 1);
    }
    *pc = *pc + 3;
    Next::Step
}

/// What `putfield` does, once its reference is followed: how it ends, the
/// operand stack behind it, and what it writes: the object, the slot, and
/// the one value or the two.
pub open spec fn put_field_outcome(found: FieldLookupView, stack: Seq<Variable>, vm: Vm) -> (
    NextView,
    Seq<Variable>,
    Option<(u32, usize, Seq<Variable>)>,
) {
    match found {
        FieldLookupView::Found { resolve, is_long } => {
            let n: int = if is_long {
                3
            } else {
                2
            };
            let slot = slot_of(resolve);
            if depth(stack) < n {
                (NextView::Malformed, stack, None)
            } else if top(stack, n - 1).bits == 0 {
                (raised(VmExceptionKind::NullPointer), dropped(stack, n), None)
            } else if !is_long {
                if vm.heap.can_store(top(stack, 1).bits, slot, vm.special_fields) {
                    (
                        NextView::Step,
                        dropped(stack, 2),
                        Some((top(stack, 1).bits, slot, seq![top(stack, 0)])),
                    )
                } else {
                    (NextView::Malformed, stack, None)
                }
            } else if slot == usize::MAX || vm.heap.special(top(stack, 2).bits).is_some()
                || vm.heap.field_value(top(stack, 2).bits, slot as int).is_none()
                || vm.heap.field_value(top(stack, 2).bits, slot + 1).is_none() {
                (NextView::Malformed, stack, None)
            } else {
                (
                    NextView::Step,
                    dropped(stack, 3),
                    Some((top(stack, 2).bits, slot, seq![top(stack, 1), top(stack, 0)])),
                )
            }
        },
        _ => (no_field(found), stack, None),
    }
}

/// Whether `after` is `before` with the values written into the slots of
/// the object `id` from `slot` on.
pub open spec fn fields_stored(before: Vm, after: Vm, id: u32, slot: usize, values: Seq<Variable>) -> bool {
    if values.len() == 1 {
        stored(before.heap, after.heap, id, slot, values[0], before.special_fields)
    } else {
        exists|middle: Heap| #[trigger]
            stored(before.heap, middle, id, slot, values[0], before.special_fields) && stored(
                middle,
                after.heap,
                id,
                (slot + 1) as usize,
                values[1],
                before.special_fields,
            )
    }
}

/// What `putfield` does to the frame and the machine.
pub open spec fn put_field_step(
    frame_class: usize,
    code: Seq<u8>,
    pc: int,
    stack: Seq<Variable>,
    before: Vm,
    after: Vm,
    next: NextView,
    after_stack: Seq<Variable>,
    after_pc: int,
) -> bool {
    &&& rest_unchanged(before, after)
    &&& after_pc == (if next is Step {
            pc + 3
        } else {
            pc
        })
    &&& if pc + 2 >= code.len() {
            next == NextView::Malformed && after_stack == stack && after.loader
                == before.loader && after.heap == before.heap
        } else {
            let outcome = put_field_outcome(
                field_lookup(
                    before.loader.classes@,
                    before.loader.names(),
                    frame_class as int,
                    u16_at(code, pc + 1),
                    false,
                ),
                stack,
                before,
            );
            &&& field_lookup_frame(
                before.loader,
                after.loader,
                frame_class as int,
                u16_at(code, pc + 1),
                false,
            )
            &&& next == outcome.0
            &&& after_stack == outcome.1
            &&& match outcome.2 {
                None => after.heap == before.heap,
                Some((id, slot, values)) => fields_stored(before, after, id, slot, values),
            }
        }
}

/// Runs `putfield`.
pub fn put_field(
    frame_class: usize,
    code: &Vec<u8>,
    pc: &mut usize,
    stack: &mut Vec<Variable>,
    vm: &mut Vm,
) -> (next: Next)
    requires
        old(vm).wf(),
        frame_class < old(vm).loader.classes.len(),
        *old(pc) < code.len(),
    ensures
        final(vm).wf(),
        put_field_step(
            frame_class,
            code@,
            *old(pc) as int,
            old(stack)@,
            *old(vm),
            *final(vm),
            next@,
            final(stack)@,
            *final(pc) as int,
        ),
{
    if code.len() - *pc < 3 {
        return Next::Malformed;
    }
    let index = read_u16(code, *pc + 1);
    let found = vm.loader.field_reference(frame_class, index, false);
    proof {
        lemma_famous_stay(vm.famous, old(vm).loader, vm.loader);
    }
    let (resolve, is_long) = match found {
        FieldLookup::Found { resolve, is_long } => (resolve, is_long),
        other => {
            return field_unavailable(other);
        },
    };
    let n: usize = if is_long {
        3
    } else {
        2
    };
    if stack.len() < RETURN_SLOTS + n {
        return Next::Malformed;
    }
    let this = peek(stack, n - 1).get_reference();
    if this == 0 {
        drop_slots(stack, n);
        return raise(VmExceptionKind::NullPointer);
    }
    let slot = resolve.get_index();
    let fields = vm.special_fields;
    if !is_long {
        let v = peek(stack, 0);
        match vm.heap.store_field(this, slot, v, &fields) {
            Ok(()) => {
                drop_slots(stack, 2);
                *pc = *pc + 3;
                Next::Step
            },
            Err(_) => Next::Malformed,
        }
    } else {
        if slot == usize::MAX {
            return Next::Malformed;
        }
        let writable = match vm.heap.get_special(this) {
            Some(_) => false,
            None => vm.heap.get_field(this, slot).is_some() && vm.heap.get_field(
                this,
                slot + 1,
            ).is_some(),
        };
        if !writable {
            return Next::Malformed;
        }
        let v2 = peek(stack, 0);
        let v1 = peek(stack, 1);
        let first = vm.heap.store_field(this, slot, v1, &fields);
        let ghost middle = vm.heap;
        let second = vm.heap.store_field(this, slot + 1, v2, &fields);
        proof {
            assert(first is Ok);
            assert(middle.field_value(this, slot + 1).is_some());
            assert(second is Ok);
        }
        drop_slots(stack, 3);
        *pc = *pc + 3;
        Next::Step
    }
}

} // verus!

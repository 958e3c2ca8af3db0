//! The instructions that make objects and arrays: `new`, `newarray` and
//! `anewarray`.

use crate::bytes::{read_u16, read_u8, u16_at, u8_at};
use crate::runtime::class_loader::bootstrap::{DefineError, DefineFailure};
use crate::runtime::class_loader::layout::layout_start;
use crate::runtime::class_loader::reference::{
    class_found, class_lookup_frame, class_named, class_named_frame, ClassLookup,
    ClassLookupView,
};
use crate::runtime::famous_classes::lemma_famous_stay;
use crate::runtime::heap::{allocated, ObjectView, PayloadView};
use crate::runtime::interpreter::local::{
    depth, drop_slots, dropped, peek, top, RETURN_SLOTS,
};
use crate::runtime::interpreter::next::{raise, raised, Next, NextView};
use crate::runtime::interpreter::variable::Variable;
use crate::runtime::structs::exception::VmExceptionKind;
use crate::runtime::structs::object::ObjectMonitor;
use crate::runtime::structs::{field_infos_view, is_array_name, Class, ClinitStatus};
use crate::runtime::Vm;
use vstd::prelude::*;
use vstd::string::*;

verus! {

/// Whether the two machines differ in nothing but their classes and their
/// heaps.
pub open spec fn rest_unchanged(before: Vm, after: Vm) -> bool {
    &&& after.string_table == before.string_table
    &&& after.class_table == before.class_table
    &&& after.natives == before.natives
    &&& after.famous == before.famous
    &&& after.special_fields == before.special_fields
    &&& after.next_thread_id == before.next_thread_id
    &&& after.compact_strings == before.compact_strings
    &&& after.big_endian == before.big_endian
}

/// What stands in the way of using a class in this state: nothing if it is
/// initialized or the thread is initializing it; else the class has to be
/// initialized first, or the thread has to wait for the thread that is
/// initializing it, or its initializer has failed.
pub open spec fn initialization_gate(status: ClinitStatus, class: usize, thread: usize) -> Option<
    NextView,
> {
    match status {
        ClinitStatus::Init => None,
        ClinitStatus::Initializing { thread: t } => if t == thread {
            None
        } else {
            Some(NextView::Blocked)
        },
        ClinitStatus::NotInit => Some(NextView::InitializeClass(class)),
        ClinitStatus::Failed => Some(raised(VmExceptionKind::ExceptionInInitializer)),
    }
}

/// What stands in the way of using the class.
pub fn check_initialized(status: ClinitStatus, class: usize, thread: usize) -> (gate: Option<
    Next,
>)
    ensures
        match gate {
            Some(next) => initialization_gate(status, class, thread) == Some(next@),
            None => initialization_gate(status, class, thread).is_none(),
        },
{
    match status {
        ClinitStatus::Init => None,
        ClinitStatus::Initializing { thread: t } => {
            if t == thread {
                None
            } else {
                Some(Next::Blocked)
            }
        },
        ClinitStatus::NotInit => Some(Next::InitializeClass(class)),
        ClinitStatus::Failed => Some(raise(VmExceptionKind::ExceptionInInitializer)),
    }
}

/// How an instruction ends that cannot have the class it asks for: the
/// class has to be defined first, or it can never be had.
pub open spec fn unavailable(failure: DefineFailure) -> NextView {
    match failure {
        DefineFailure::Missing(name) => NextView::LoadClass(name),
        _ => raised(VmExceptionKind::NoClassDefFound),
    }
}

/// How an instruction ends that cannot have the class it asks for.
pub fn class_unavailable(failure: DefineError) -> (next: Next)
    ensures
        next@ == unavailable(failure@),
{
    match failure {
        DefineError::Missing(name) => Next::LoadClass(name),
        _ => raise(VmExceptionKind::NoClassDefFound),
    }
}

/// `n` slots that hold zero.
pub fn zero_slots(n: usize) -> (slots: Vec<Variable>)
    ensures
        slots@ == Seq::new(n as nat, |i: int| Variable { bits: 0 }),
{
    let mut slots: Vec<Variable> = Vec::new();
    while slots.len() < n
        invariant
            slots.len() <= n,
            slots@ =~= Seq::new(slots.len() as nat, |i: int| Variable { bits: 0 }),
        decreases n - slots.len(),
    {
        slots.push(Variable::void());
    }
    slots
}

/// The number of slots of an object of the class: where the slots of its
/// last field end.
pub fn object_slots(class: &Class) -> (slots: Option<usize>)
    ensures
        match slots {
            Some(n) => n == layout_start(field_infos_view(class.instance_fields_info@)),
            None => layout_start(field_infos_view(class.instance_fields_info@)) > usize::MAX,
        },
{
    let fields = &class.instance_fields_info;
    if fields.len() == 0 {
        return Some(0);
    }
    let last = &fields[fields.len() - 1];
    assert(field_infos_view(fields@).last() == last@);
    let slots: usize = if last.descriptor.0.is_long() {
        2
    } else {
        1
    };
    last.index.checked_add(slots)
}

/// What `new` does. It leaves `after` and the operand stack `after_stack`,
/// and ends as `next`.
pub open spec fn new_object_effect(
    frame_class: usize,
    code: Seq<u8>,
    pc: int,
    stack: Seq<Variable>,
    thread: usize,
    before: Vm,
    after: Vm,
    next: NextView,
    after_stack: Seq<Variable>,
) -> bool {
    if pc + 2 >= code.len() {
        next == NextView::Malformed && after_stack == stack && after.heap == before.heap
            && after.loader == before.loader
    } else {
        &&& class_lookup_frame(before.loader, after.loader, frame_class as int, u16_at(code, pc + 1))
        &&& match class_found(before.loader, after.loader, frame_class as int, u16_at(code, pc + 1)) {
            ClassLookupView::Malformed => next == NextView::Malformed && after_stack == stack
                && after.heap == before.heap,
            ClassLookupView::Failed(failure) => next == unavailable(failure) && after_stack
                == stack && after.heap == before.heap,
            ClassLookupView::Found(class) => match initialization_gate(
                after.loader.classes[class as int].clinit_call,
                class,
                thread,
            ) {
                Some(gate) => next == gate && after_stack == stack && after.heap == before.heap,
                None => {
                    let slots = layout_start(
                        field_infos_view(after.loader.classes[class as int].instance_fields_info@),
                    );
                    if slots > usize::MAX {
                        next == NextView::Malformed && after_stack == stack && after.heap
                            == before.heap
                    } else if before.heap.next_id >= crate::runtime::heap::MAX_OBJECT_ID - 1 {
                        next == NextView::HeapFull && after_stack == stack && after.heap
                            == before.heap
                    } else {
                        &&& next == NextView::Step
                        &&& after_stack == stack.push(
                            Variable::of_bits((before.heap.next_id + 1) as u32),
                        )
                        &&& allocated(
                            before.heap,
                            after.heap,
                            (before.heap.next_id + 1) as u32,
                            ObjectView {
                                class,
                                monitor: ObjectMonitor { owner: 0, count: 0 },
                                fields_or_array: PayloadView::Fields(
                                    Seq::new(slots as nat, |i: int| Variable { bits: 0 }),
                                ),
                            },
                        )
                    }
                },
            },
        }
    }
}

/// What `new` does to the frame and the machine.
pub open spec fn new_object_step(
    frame_class: usize,
    code: Seq<u8>,
    pc: int,
    stack: Seq<Variable>,
    before: Vm,
    thread: usize,
    after: Vm,
    next: NextView,
    after_stack: Seq<Variable>,
    after_pc: int,
) -> bool {
    &&& rest_unchanged(before, after)
    &&& new_object_effect(
            frame_class,
            code,
            pc,
            stack,
            thread,
            before,
            after,
            next,
            after_stack,
        )
    &&& after_pc == (if next is Step {
            pc + 3
        } else {
            pc
        })
}

/// Runs `new`: makes an object of the class that the instruction names,
/// with every slot zero or null, and puts its reference on the operand
/// stack. The class has to be defined and initialized.
pub fn new_object(
    frame_class: usize,
    code: &Vec<u8>,
    pc: &mut usize,
    stack: &mut Vec<Variable>,
    vm: &mut Vm,
    thread: usize,
) -> (next: Next)
    requires
        old(vm).wf(),
        frame_class < old(vm).loader.classes.len(),
        *old(pc) < code.len(),
    ensures
        final(vm).wf(),
        new_object_step(
            frame_class,
            code@,
            *old(pc) as int,
            old(stack)@,
            *old(vm),
            thread,
            *final(vm),
            next@,
            final(stack)@,
            *final(pc) as int,
        ),
{
    if code.len() - *pc < 3 {
        return Next::Malformed;
    }
    let index = read_u16(code, *pc + 1);
    let found = vm.loader.class_reference(frame_class, index);
    proof {
        lemma_famous_stay(vm.famous, old(vm).loader, vm.loader);
    }
    let class = match found {
        ClassLookup::Found(class) => class,
        ClassLookup::Failed(e) => {
            return class_unavailable(e);
        },
        ClassLookup::Malformed => {
            return Next::Malformed;
        },
    };
    match check_initialized(vm.loader.classes[class].clinit_call, class, thread) {
        Some(next) => {
            return next;
        },
        None => {},
    }
    let slots = match object_slots(&vm.loader.classes[class]) {
        Some(slots) => slots,
        None => {
            return Next::Malformed;
        },
    };
    match vm.heap.allocate_object(class, zero_slots(slots)) {
        Some(id) => {
            stack.push(Variable::from_reference(id));
            *pc = *pc + 3;
            Next::Step
        },
        None => Next::HeapFull,
    }
}

/// The name of the class of arrays of the primitive type with this code.
pub open spec fn primitive_array_name(atype: int) -> Option<Seq<char>> {
    if atype == 4 {
        Some("[Z"@)
    } else if atype == 5 {
        Some("[C"@)
    } else if atype == 6 {
        Some("[F"@)
    } else if atype == 7 {
        Some("[D"@)
    } else if atype == 8 {
        Some("[B"@)
    } else if atype == 9 {
        Some("[S"@)
    } else if atype == 10 {
        Some("[I"@)
    } else if atype == 11 {
        Some("[J"@)
    } else {
        None
    }
}

/// The size in bytes of the primitive type with this code.
pub open spec fn primitive_size(atype: int) -> int {
    if atype == 4 || atype == 8 {
        1
    } else if atype == 5 || atype == 9 {
        2
    } else if atype == 7 || atype == 11 {
        8
    } else {
        4
    }
}

/// The name of the class of arrays of the primitive type with this code,
/// and the size of the type.
fn primitive_array(atype: u8) -> (found: Option<(&'static str, usize)>)
    ensures
        match found {
            Some((name, size)) => primitive_array_name(atype as int) == Some(name@) && size
                == primitive_size(atype as int),
            None => primitive_array_name(atype as int).is_none(),
        },
{
    if atype == 4 {
        Some(("[Z", 1))
    } else if atype == 5 {
        Some(("[C", 2))
    } else if atype == 6 {
        Some(("[F", 4))
    } else if atype == 7 {
        Some(("[D", 8))
    } else if atype == 8 {
        Some(("[B", 1))
    } else if atype == 9 {
        Some(("[S", 2))
    } else if atype == 10 {
        Some(("[I", 4))
    } else if atype == 11 {
        Some(("[J", 8))
    } else {
        None
    }
}

/// What making an array of `count` elements of `size` bytes each, of the
/// class named `name`, does.
pub open spec fn array_made(
    name: Seq<char>,
    size: int,
    count: i32,
    stack: Seq<Variable>,
    before: Vm,
    after: Vm,
    next: NextView,
    after_stack: Seq<Variable>,
) -> bool {
    &&& class_named_frame(before.loader, after.loader, name)
    &&& match class_named(before.loader, after.loader, name) {
        Err(failure) => next == unavailable(failure) && after_stack == stack && after.heap
            == before.heap,
        Ok(class) => if before.heap.next_id >= crate::runtime::heap::MAX_OBJECT_ID - 1 || count
            * size > usize::MAX {
            next == NextView::HeapFull && after_stack == stack && after.heap == before.heap
        } else {
            &&& next == NextView::Step
            &&& after_stack == dropped(stack, 1).push(
                Variable::of_bits((before.heap.next_id + 1) as u32),
            )
            &&& allocated(
                before.heap,
                after.heap,
                (before.heap.next_id + 1) as u32,
                ObjectView {
                    class,
                    monitor: ObjectMonitor { owner: 0, count: 0 },
                    fields_or_array: PayloadView::Array(
                        Seq::new((count * size) as nat, |i: int| 0u8),
                    ),
                },
            )
        },
    }
}

/// Makes an array of the class with this name and puts its reference on the
/// operand stack in place of the count.
fn make_array(name: &str, size: usize, count: i32, stack: &mut Vec<Variable>, vm: &mut Vm) -> (next:
    Next)
    requires
        old(vm).wf(),
        count >= 0,
        old(stack).len() >= RETURN_SLOTS + 1,
        1 <= size <= 8,
    ensures
        final(vm).wf(),
        rest_unchanged(*old(vm), *final(vm)),
        array_made(
            name@,
            size as int,
            count,
            old(stack)@,
            *old(vm),
            *final(vm),
            next@,
            final(stack)@,
        ),
{
    let class = match vm.loader.class_by_name(name) {
        Ok(class) => class,
        Err(e) => {
            proof {
                lemma_famous_stay(vm.famous, old(vm).loader, vm.loader);
            }
            return class_unavailable(e);
        },
    };
    proof {
        assert forall|id: int| 0 <= id < old(vm).loader.classes.len() implies (
        #[trigger] vm.loader.classes[id]).class_name == old(vm).loader.classes[id].class_name by {
            assert(vm.loader.classes@.subrange(0, old(vm).loader.classes.len() as int)[id]
                == vm.loader.classes@[id]);
        }
        lemma_famous_stay(vm.famous, old(vm).loader, vm.loader);
    }
    match vm.heap.allocate_bytes(count as usize, size, class) {
        Some(id) => {
            drop_slots(stack, 1);
            stack.push(Variable::from_reference(id));
            Next::Step
        },
        None => Next::HeapFull,
    }
}

/// What `newarray` does: it takes the size from the stack; an array of a
/// negative size is not made, and `NegativeArraySizeException` is raised
/// instead.
pub open spec fn new_array_effect(
    code: Seq<u8>,
    pc: int,
    stack: Seq<Variable>,
    before: Vm,
    after: Vm,
    next: NextView,
    after_stack: Seq<Variable>,
) -> bool {
    if pc + 1 >= code.len() || depth(stack) < 1 || primitive_array_name(
        u8_at(code, pc + 1),
    ).is_none() {
        next == NextView::Malformed && after_stack == stack && after.heap == before.heap
            && after.loader == before.loader
    } else if top(stack, 0).as_int() < 0 {
        next == raised(VmExceptionKind::NegativeArraySize) && after_stack == dropped(stack, 1)
            && after.heap == before.heap && after.loader == before.loader
    } else {
        array_made(
            primitive_array_name(u8_at(code, pc + 1))->Some_0,
            primitive_size(u8_at(code, pc + 1)),
            top(stack, 0).as_int(),
            stack,
            before,
            after,
            next,
            after_stack,
        )
    }
}

/// What `newarray` does to the frame and the machine.
pub open spec fn new_array_step(
    code: Seq<u8>,
    pc: int,
    stack: Seq<Variable>,
    before: Vm,
    after: Vm,
    next: NextView,
    after_stack: Seq<Variable>,
    after_pc: int,
) -> bool {
    &&& rest_unchanged(before, after)
    &&& new_array_effect(
            code,
            pc,
            stack,
            before,
            after,
            next,
            after_stack,
        )
    &&& after_pc == (if next is Step {
            pc + 2
        } else {
            pc
        })
}

/// Runs `newarray`.
pub fn new_array(code: &Vec<u8>, pc: &mut usize, stack: &mut Vec<Variable>, vm: &mut Vm) -> (next:
    Next)
    requires
        old(vm).wf(),
        *old(pc) < code.len(),
    ensures
        final(vm).wf(),
        new_array_step(
            code@,
            *old(pc) as int,
            old(stack)@,
            *old(vm),
            *final(vm),
            next@,
            final(stack)@,
            *final(pc) as int,
        ),
{
    if code.len() - *pc < 2 || stack.len() < RETURN_SLOTS + 1 {
        return Next::Malformed;
    }
    let (name, size) = match primitive_array(read_u8(code, *pc + 1)) {
        Some(found) => found,
        None => {
            return Next::Malformed;
        },
    };
    let count = peek(stack, 0).get_int();
    if count < 0 {
        drop_slots(stack, 1);
        return raise(VmExceptionKind::NegativeArraySize);
    }
    let next = make_array(name, size, count, stack, vm);
    if matches!(next, Next::Step) {
        *pc = *pc + 2;
    }
    next
}

/// The name of the class of arrays whose elements are of the class with
/// this name: `[` and the name where the elements are arrays; `[L`, the
/// name and `;` where they are objects.
pub open spec fn array_name_of(element: Seq<char>) -> Seq<char> {
    if is_array_name(element) {
        seq!['['] + element
    } else {
        seq!['[', 'L'] + element + seq![';']
    }
}

/// The name of the class of arrays whose elements are of this class.
pub fn name_of_array(element: &Class) -> (name: String)
    ensures
        name@ == array_name_of(element.class_name@),
{
    proof {
        reveal_strlit("[");
        reveal_strlit("[L");
        reveal_strlit(";");
    }
    let name = if element.is_array() {
        String::from_str("[").concat(element.class_name.as_str())
    } else {
        String::from_str("[L").concat(element.class_name.as_str()).concat(";")
    };
    assert(name@ =~= array_name_of(element.class_name@));
    name
}

/// What `anewarray` does.
pub open spec fn new_object_array_effect(
    frame_class: usize,
    code: Seq<u8>,
    pc: int,
    stack: Seq<Variable>,
    before: Vm,
    after: Vm,
    next: NextView,
    after_stack: Seq<Variable>,
) -> bool {
    if pc + 2 >= code.len() || depth(stack) < 1 {
        next == NextView::Malformed && after_stack == stack && after.heap == before.heap
            && after.loader == before.loader
    } else {
        exists|middle: Vm| #[trigger]
            class_lookup_frame(before.loader, middle.loader, frame_class as int, u16_at(code, pc + 1))
                && middle.heap == before.heap && rest_unchanged(before, middle) && (match class_found(
                before.loader,
                middle.loader,
                frame_class as int,
                u16_at(code, pc + 1),
            ) {
                ClassLookupView::Malformed => next == NextView::Malformed && after_stack == stack
                    && after == middle,
                ClassLookupView::Failed(failure) => next == unavailable(failure) && after_stack
                    == stack && after == middle,
                ClassLookupView::Found(element) => if top(stack, 0).as_int() < 0 {
                    next == raised(VmExceptionKind::NegativeArraySize) && after_stack
                        == dropped(stack, 1) && after == middle
                } else {
                    array_made(
                        array_name_of(middle.loader.classes[element as int].class_name@),
                        4,
                        top(stack, 0).as_int(),
                        stack,
                        middle,
                        after,
                        next,
                        after_stack,
                    )
                },
            })
    }
}

/// What `anewarray` does to the frame and the machine.
pub open spec fn new_object_array_step(
    frame_class: usize,
    code: Seq<u8>,
    pc: int,
    stack: Seq<Variable>,
    before: Vm,
    after: Vm,
    next: NextView,
    after_stack: Seq<Variable>,
    after_pc: int,
) -> bool {
    &&& rest_unchanged(before, after)
    &&& new_object_array_effect(
            frame_class,
            code,
            pc,
            stack,
            before,
            after,
            next,
            after_stack,
        )
    &&& after_pc == (if next is Step {
            pc + 3
        } else {
            pc
        })
}

/// Runs `anewarray`: makes an array of references to objects of the class
/// that the instruction names.
pub fn new_object_array(
    frame_class: usize,
    code: &Vec<u8>,
    pc: &mut usize,
    stack: &mut Vec<Variable>,
    vm: &mut Vm,
) -> (next: Next)
    requires
        old(vm).wf(),
        frame_class < old(vm).loader.classes.len(),
        *old(pc) < code.len(),
    ensures
        final(vm).wf(),
        new_object_array_step(
            frame_class,
            code@,
            *old(pc) as int,
            old(stack)@,
            *old(vm),
            *final(vm),
            next@,
            final(stack)@,
            *final(pc) as int,
        ),
{
    if code.len() - *pc < 3 || stack.len() < RETURN_SLOTS + 1 {
        return Next::Malformed;
    }
    let index = read_u16(code, *pc + 1);
    let found = vm.loader.class_reference(frame_class, index);
    proof {
        lemma_famous_stay(vm.famous, old(vm).loader, vm.loader);
    }
    let ghost middle = *vm;
    let element = match found {
        ClassLookup::Found(element) => element,
        ClassLookup::Failed(e) => {
            return class_unavailable(e);
        },
        ClassLookup::Malformed => {
            return Next::Malformed;
        },
    };
    let count = peek(stack, 0).get_int();
    if count < 0 {
        drop_slots(stack, 1);
        return raise(VmExceptionKind::NegativeArraySize);
    }
    let name = name_of_array(&vm.loader.classes[element]);
    let next = make_array(name.as_str(), 4, count, stack, vm);
    if matches!(next, Next::Step) {
        *pc = *pc + 3;
    }
    next
}

} // verus!

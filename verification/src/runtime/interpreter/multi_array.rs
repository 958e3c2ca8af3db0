//! `multianewarray`: an array of arrays, made level by level.
//!
//! The array of a level holds references to the arrays of the level below
//! it. The arrays of the level below are made first, one after the other;
//! then the array that holds them.

use crate::bytes::{read_u16, read_u8, u16_at, u8_at};
use crate::runtime::class_loader::reference::{
    class_found, class_lookup_frame, class_named, class_named_frame, ClassLookup,
    ClassLookupView,
};
use crate::runtime::famous_classes::lemma_famous_stay;
use crate::runtime::heap::{allocated, ObjectView, PayloadView, MAX_OBJECT_ID};
use crate::runtime::inheritance::{element_type_of, get_array_type};
use crate::runtime::interpreter::array_ops::low_bytes;
use crate::runtime::interpreter::local::{depth, drop_slots, dropped, peek, top, RETURN_SLOTS};
use crate::runtime::interpreter::next::{raise, raised, Next, NextView};
use crate::runtime::interpreter::object_ops::{class_unavailable, rest_unchanged, unavailable};
use crate::runtime::interpreter::variable::Variable;
use crate::runtime::structs::exception::VmExceptionKind;
use crate::runtime::structs::object::{bytes_of, ObjectMonitor};
use crate::runtime::Vm;
use vstd::prelude::*;

verus! {

/// What making an array gives: its identifier, or how the instruction
/// ends instead.
pub enum Made {
    Array(u32),
    Stopped(NextView),
}

/// What making the arrays of a level gives: the bytes of the references to
/// them, or how the instruction ends instead.
pub enum Filled {
    Bytes(Seq<u8>),
    Stopped(NextView),
}

/// Marks a machine and what was made in it.
pub open spec fn reached(vm: Vm, made: Made) -> bool {
    true
}

/// Whether `after` is `before` with an array of class `class` that holds
/// `bytes`, and `made` is its identifier; where the heap is full, no array
/// is made.
pub open spec fn level_made(class: usize, bytes: Seq<u8>, before: Vm, after: Vm, made: Made) -> bool {
    if before.heap.next_id >= MAX_OBJECT_ID - 1 {
        after == before && made == Made::Stopped(NextView::HeapFull)
    } else {
        &&& made == Made::Array((before.heap.next_id + 1) as u32)
        &&& allocated(
            before.heap,
            after.heap,
            (before.heap.next_id + 1) as u32,
            ObjectView {
                class,
                monitor: ObjectMonitor { owner: 0, count: 0 },
                fields_or_array: PayloadView::Array(bytes),
            },
        )
        &&& after == (Vm { heap: after.heap, ..before })
    }
}

/// Whether `after` is `before` with the array of level `from` made, of the
/// class with this name: an array of `dims[from]` elements, all zero where
/// the level is the last, else references to as many arrays of the next
/// level, of the class named by the rest of the name.
pub open spec fn nested_made(
    name: Seq<char>,
    dims: Seq<i32>,
    from: int,
    before: Vm,
    after: Vm,
    made: Made,
) -> bool
    decreases dims.len() - from, 0int,
{
    exists|named: Vm| #[trigger]
        class_named_frame(before.loader, named.loader, name) && named == (Vm {
            loader: named.loader,
            ..before
        }) && (match class_named(before.loader, named.loader, name) {
            Err(failure) => after == named && made == Made::Stopped(unavailable(failure)),
            Ok(class) => match element_type_of(name) {
                None => after == named && made == Made::Stopped(NextView::Malformed),
                Some(t) => if from + 1 >= dims.len() {
                    if dims[from] * t.size() > usize::MAX {
                        after == named && made == Made::Stopped(NextView::HeapFull)
                    } else {
                        level_made(
                            class,
                            Seq::new((dims[from] * t.size()) as nat, |i: int| 0u8),
                            named,
                            after,
                            made,
                        )
                    }
                } else {
                    exists|children: Vm, filled: Filled| #[trigger]
                        level_made_of(class, children, filled, after, made) && all_made(
                            name.subrange(1, name.len() as int),
                            dims,
                            from + 1,
                            0,
                            dims[from] as int,
                            Seq::empty(),
                            named,
                            children,
                            filled,
                        )
                },
            },
        })
}

/// Whether `after` is `children` with the array made that holds the
/// references; where the arrays of the level below were not all made, it
/// is not made either.
pub open spec fn level_made_of(
    class: usize,
    children: Vm,
    filled: Filled,
    after: Vm,
    made: Made,
) -> bool {
    match filled {
        Filled::Stopped(stop) => after == children && made == Made::Stopped(stop),
        Filled::Bytes(bytes) => level_made(class, bytes, children, after, made),
    }
}

/// Whether `after` is `before` with the arrays of level `from` made from
/// the `i`-th of `count` on, and `filled` is `acc` with the bytes of the
/// references to them behind it.
pub open spec fn all_made(
    name: Seq<char>,
    dims: Seq<i32>,
    from: int,
    i: int,
    count: int,
    acc: Seq<u8>,
    before: Vm,
    after: Vm,
    filled: Filled,
) -> bool
    decreases dims.len() - from, 1 + count - i,
{
    if i >= count || from >= dims.len() {
        after == before && filled == Filled::Bytes(acc)
    } else {
        exists|inner: Vm, made: Made| #[trigger]
            reached(inner, made) && nested_made(name, dims, from, before, inner, made) && (
            match made {
                Made::Stopped(stop) => after == inner && filled == Filled::Stopped(stop),
                Made::Array(id) => all_made(
                    name,
                    dims,
                    from,
                    i + 1,
                    count,
                    acc + bytes_of(id as int, 4),
                    inner,
                    after,
                    filled,
                ),
            })
    }
}

/// What the making of an array gave.
pub open spec fn made_view(r: Result<u32, Next>) -> Made {
    match r {
        Ok(id) => Made::Array(id),
        Err(next) => Made::Stopped(next@),
    }
}

/// Makes the array of level `from`, of the class with this name.
pub fn make_nested(name: &str, dims: &Vec<i32>, from: usize, vm: &mut Vm) -> (r: Result<u32, Next>)
    requires
        old(vm).wf(),
        from < dims.len(),
        forall|k: int| 0 <= k < dims.len() ==> dims@[k] >= 0,
    ensures
        final(vm).wf(),
        rest_unchanged(*old(vm), *final(vm)),
        nested_made(name@, dims@, from as int, *old(vm), *final(vm), made_view(r)),
    decreases dims.len() - from,
{
    let found = vm.loader.class_by_name(name);
    proof {
        assert forall|id: int| 0 <= id < old(vm).loader.classes.len() implies (
        #[trigger] vm.loader.classes[id]).class_name == old(vm).loader.classes[id].class_name by {
            assert(vm.loader.classes@.subrange(0, old(vm).loader.classes.len() as int)[id]
                == vm.loader.classes@[id]);
        }
        lemma_famous_stay(vm.famous, old(vm).loader, vm.loader);
    }
    let ghost named = *vm;
    assert(class_named_frame(old(vm).loader, named.loader, name@));
    let class = match found {
        Ok(class) => class,
        Err(e) => {
            return Err(class_unavailable(e));
        },
    };
    let element = match get_array_type(&vm.loader.classes[class]) {
        Some(t) => t,
        None => {
            return Err(Next::Malformed);
        },
    };
    let size = element.get_field_type_size();
    let count = dims[from];
    if from + 1 >= dims.len() {
        return match vm.heap.allocate_bytes(count as usize, size, class) {
            Some(id) => Ok(id),
            None => Err(Next::HeapFull),
        };
    }
    let len = name.unicode_len();
    assert(len >= 1) by {
        assert(crate::runtime::structs::is_array_name(name@));
    }
    let rest = name.substring_char(1, len);
    let mut bytes: Vec<u8> = Vec::new();
    let mut i: i32 = 0;
    while i < count
        invariant
            0 <= i <= count,
            count == dims@[from as int],
            from + 1 < dims.len(),
            forall|k: int| 0 <= k < dims.len() ==> dims@[k] >= 0,
            name@.len() >= 1,
            rest@ == name@.subrange(1, name@.len() as int),
            vm.wf(),
            rest_unchanged(named, *vm),
            rest_unchanged(*old(vm), named),
            class_named_frame(old(vm).loader, named.loader, name@),
            named == (Vm { loader: named.loader, ..*old(vm) }),
            class_named(old(vm).loader, named.loader, name@) == Ok::<
                usize,
                crate::runtime::class_loader::bootstrap::DefineFailure,
            >(class),
            element_type_of(name@).is_some(),
            forall|after: Vm, filled: Filled| #[trigger]
                all_made(rest@, dims@, from + 1, i as int, count as int, bytes@, *vm, after, filled)
                    ==> all_made(
                    rest@,
                    dims@,
                    from + 1,
                    0,
                    count as int,
                    Seq::empty(),
                    named,
                    after,
                    filled,
                ),
        decreases count - i,
    {
        let ghost before = *vm;
        let ghost held = bytes@;
        let made = make_nested(rest, dims, from + 1, vm);
        assert(reached(*vm, made_view(made)));
        match made {
            Err(stop) => {
                proof {
                    assert(all_made(
                        rest@,
                        dims@,
                        from + 1,
                        i as int,
                        count as int,
                        held,
                        before,
                        *vm,
                        Filled::Stopped(stop@),
                    ));
                    assert(level_made_of(
                        class,
                        *vm,
                        Filled::Stopped(stop@),
                        *vm,
                        Made::Stopped(stop@),
                    ));
                }
                return Err(stop);
            },
            Ok(id) => {
                let mut reference = low_bytes(id as u64, 4);
                bytes.append(&mut reference);
                proof {
                    assert(bytes@ =~= held + bytes_of(id as int, 4));
                    assert forall|after: Vm, filled: Filled| #[trigger]
                        all_made(
                            rest@,
                            dims@,
                            from + 1,
                            i + 1,
                            count as int,
                            bytes@,
                            *vm,
                            after,
                            filled,
                        ) implies all_made(
                        rest@,
                        dims@,
                        from + 1,
                        0,
                        count as int,
                        Seq::empty(),
                        named,
                        after,
                        filled,
                    ) by {
                        assert(reached(*vm, Made::Array(id)));
                        assert(all_made(
                            rest@,
                            dims@,
                            from + 1,
                            i as int,
                            count as int,
                            held,
                            before,
                            after,
                            filled,
                        ));
                    }
                }
            },
        }
        i += 1;
    }
    let ghost children = *vm;
    assert(all_made(
        rest@,
        dims@,
        from + 1,
        count as int,
        count as int,
        bytes@,
        children,
        children,
        Filled::Bytes(bytes@),
    ));
    let ghost filled = bytes@;
    let r = match vm.heap.allocate_filled(bytes, class) {
        Some(id) => Ok(id),
        None => Err(Next::HeapFull),
    };
    assert(level_made_of(class, children, Filled::Bytes(filled), *vm, made_view(r)));
    r
}

/// The sizes that the instruction takes from the stack, the size of the
/// outermost array first: the `n` top slots, the deepest first.
pub open spec fn sizes(stack: Seq<Variable>, n: int) -> Seq<i32> {
    Seq::new(n as nat, |k: int| top(stack, n - 1 - k).as_int())
}

/// How far below the top the first negative size lies, among the `n` top
/// slots from the `k`-th on; nothing where none of them is negative.
pub open spec fn first_negative(stack: Seq<Variable>, n: int, k: int) -> Option<int>
    decreases n - k,
{
    if k < 0 || k >= n {
        None
    } else if top(stack, k).as_int() < 0 {
        Some(k)
    } else {
        first_negative(stack, n, k + 1)
    }
}

/// What `multianewarray` does: it takes as many sizes from the stack as the
/// instruction names dimensions, makes the arrays, and puts the reference
/// to the outermost on the stack. The sizes are taken from the top down: a
/// negative size raises `NegativeArraySizeException` before anything is
/// made, with the sizes down to that one taken from the stack.
pub open spec fn multi_array_effect(
    frame_class: usize,
    code: Seq<u8>,
    pc: int,
    stack: Seq<Variable>,
    before: Vm,
    after: Vm,
    next: NextView,
    after_stack: Seq<Variable>,
    after_pc: int,
) -> bool {
    let unchanged = after == before && after_stack == stack && after_pc == pc;
    if pc + 3 >= code.len() || u8_at(code, pc + 3) == 0 || depth(stack) < u8_at(code, pc + 3) {
        unchanged && next == NextView::Malformed
    } else if first_negative(stack, u8_at(code, pc + 3) as int, 0).is_some() {
        after == before && after_stack == dropped(
            stack,
            first_negative(stack, u8_at(code, pc + 3) as int, 0)->Some_0 + 1,
        ) && after_pc == pc && next == raised(VmExceptionKind::NegativeArraySize)
    } else {
        let index = u16_at(code, pc + 1);
        let dims = sizes(stack, u8_at(code, pc + 3));
        exists|found: Vm| #[trigger]
            class_lookup_frame(before.loader, found.loader, frame_class as int, index) && found
                == (Vm { loader: found.loader, ..before }) && (match class_found(
                before.loader,
                found.loader,
                frame_class as int,
                index,
            ) {
                ClassLookupView::Malformed => after == found && after_stack == stack && after_pc
                    == pc && next == NextView::Malformed,
                ClassLookupView::Failed(failure) => after == found && after_stack == stack
                    && after_pc == pc && next == unavailable(failure),
                ClassLookupView::Found(class) => exists|made: Made| #[trigger]
                    nested_made(
                        found.loader.classes[class as int].class_name@,
                        dims,
                        0,
                        found,
                        after,
                        made,
                    ) && (match made {
                        Made::Array(id) => next == NextView::Step && after_stack == dropped(
                            stack,
                            dims.len() as int,
                        ).push(Variable::of_bits(id)) && after_pc == pc + 4,
                        Made::Stopped(stop) => next == stop && after_stack == stack && after_pc
                            == pc,
                    }),
            })
    }
}

/// Runs `multianewarray`.
pub fn multi_array(
    frame_class: usize,
    code: &Vec<u8>,
    pc: &mut usize,
    stack: &mut Vec<Variable>,
    vm: &mut Vm,
) -> (next: Next)
    requires
        old(vm).wf(),
        frame_class < old(vm).loader.classes.len(),
        *old(pc) < code.len(),
    ensures
        final(vm).wf(),
        multi_array_effect(
            frame_class,
            code@,
            *old(pc) as int,
            old(stack)@,
            *old(vm),
            *final(vm),
            next@,
            final(stack)@,
            *final(pc) as int,
        ),
{
    if code.len() - *pc < 4 {
        return Next::Malformed;
    }
    let index = read_u16(code, *pc + 1);
    let n = read_u8(code, *pc + 3) as usize;
    if n == 0 || stack.len() < RETURN_SLOTS || stack.len() - RETURN_SLOTS < n {
        return Next::Malformed;
    }
    let mut k: usize = 0;
    while k < n
        invariant
            k <= n,
            n <= stack.len(),
            *vm == *old(vm),
            stack@ == old(stack)@,
            *pc == *old(pc),
            vm.wf(),
            *pc + 3 < code.len(),
            n == u8_at(code@, *pc + 3),
            depth(stack@) >= n,
            first_negative(stack@, n as int, 0) == first_negative(stack@, n as int, k as int),
            forall|j: int| 0 <= j < k ==> top(stack@, j).as_int() >= 0,
        decreases n - k,
    {
        if peek(stack, k).get_int() < 0 {
            drop_slots(stack, k + 1);
            return raise(VmExceptionKind::NegativeArraySize);
        }
        k += 1;
    }
    let mut dims: Vec<i32> = Vec::new();
    let mut k: usize = 0;
    while k < n
        invariant
            k <= n,
            n <= stack.len(),
            dims.len() == k,
            *vm == *old(vm),
            stack@ == old(stack)@,
            *pc == *old(pc),
            vm.wf(),
            forall|j: int| 0 <= j < n ==> top(stack@, j).as_int() >= 0,
            forall|j: int| 0 <= j < k ==> dims@[j] == sizes(stack@, n as int)[j] && dims@[j] >= 0,
        decreases n - k,
    {
        dims.push(peek(stack, n - 1 - k).get_int());
        k += 1;
    }
    assert(dims@ =~= sizes(stack@, n as int));
    let found = vm.loader.class_reference(frame_class, index);
    proof {
        lemma_famous_stay(vm.famous, old(vm).loader, vm.loader);
    }
    let ghost middle = *vm;
    assert(class_lookup_frame(old(vm).loader, middle.loader, frame_class as int, index as int));
    let class = match found {
        ClassLookup::Found(class) => class,
        ClassLookup::Failed(e) => {
            return class_unavailable(e);
        },
        ClassLookup::Malformed => {
            return Next::Malformed;
        },
    };
    let name = vm.loader.classes[class].class_name.clone();
    let made = make_nested(name.as_str(), &dims, 0, vm);
    assert(nested_made(name@, dims@, 0, middle, *vm, made_view(made)));
    match made {
        Ok(id) => {
            drop_slots(stack, n);
            stack.push(Variable::from_reference(id));
            *pc = *pc + 4;
            Next::Step
        },
        Err(stop) => stop,
    }
}

} // verus!

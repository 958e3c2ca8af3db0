//! The instructions that read and write the elements of arrays, and
//! `arraylength`.
//!
//! A load takes the array and the index from the operand stack and puts the
//! element there; a store takes the array, the index and the value. Null
//! raises `NullPointerException`; an index that is negative or not below
//! the length raises `ArrayIndexOutOfBoundsException`; a store into an
//! array whose elements have another size, or of an object whose class is
//! not assignable to the class of the elements, raises
//! `ArrayStoreException`.

use crate::instructions as inst;
use crate::runtime::heap::array::{element_bytes, has_element, lemma_element_fits, with_element};
use crate::runtime::heap::Heap;
use crate::runtime::inheritance::{
    assignable, element_type_of, get_array_type, is_array_assignable_to,
};
use crate::runtime::interpreter::local::{
    depth, drop_slots, dropped, peek, top, RETURN_SLOTS,
};
use crate::runtime::interpreter::next::{raise, raised, Next, NextView};
use crate::runtime::interpreter::variable::Variable;
use crate::runtime::structs::exception::VmExceptionKind;
use crate::runtime::structs::object::{bits_of, bytes_of, range_of};
use crate::runtime::Vm;
use vstd::prelude::*;

verus! {

pub open spec fn is_array_load_op(op: u8) -> bool {
    inst::IALOAD <= op <= inst::SALOAD
}

pub open spec fn is_array_store_op(op: u8) -> bool {
    inst::IASTORE <= op <= inst::SASTORE
}

/// In the order int, long, float, double, reference, byte, char, short:
/// the size in bytes of an element of that kind.
pub open spec fn kind_size(kind: int) -> int {
    if kind == 1 || kind == 3 {
        8
    } else if kind == 5 {
        1
    } else if kind == 6 || kind == 7 {
        2
    } else {
        4
    }
}

/// The slots that an element of this kind fills on the operand stack, for
/// the number that its bytes hold: a byte and a short with their sign, a
/// char without; a long and a double in two slots.
pub open spec fn loaded_slots(kind: int, bits: int) -> Seq<Variable> {
    if kind == 1 || kind == 3 {
        seq![
            Variable::slots_of_bits(bits as u64).0,
            Variable::slots_of_bits(bits as u64).1,
        ]
    } else if kind == 5 {
        seq![
            Variable::of_int(
                (if bits >= 128 {
                    bits - 256
                } else {
                    bits
                }) as i32,
            ),
        ]
    } else if kind == 7 {
        seq![
            Variable::of_int(
                (if bits >= 32768 {
                    bits - 65536
                } else {
                    bits
                }) as i32,
            ),
        ]
    } else if kind == 6 {
        seq![Variable::of_int(bits as i32)]
    } else {
        seq![Variable::of_bits(bits as u32)]
    }
}

/// The array that an instruction works on: its class and its bytes; or how
/// the instruction ends where there is no such array.
pub open spec fn array_operand(vm: Vm, arr: u32) -> Result<(usize, Seq<u8>), NextView> {
    if arr == 0 {
        Err(raised(VmExceptionKind::NullPointer))
    } else {
        match (
            vm.heap.class_of(
                arr,
                crate::runtime::heap::access::SpecialClasses {
                    string: vm.famous.ids@[1],
                    byte_array: vm.famous.ids@[3],
                    class: vm.famous.ids@[2],
                },
            ),
            vm.heap.array_bytes(arr),
        ) {
            (Some(class), Some(bytes)) => if class < vm.loader.classes.len() {
                Ok((class, bytes))
            } else {
                Err(NextView::Malformed)
            },
            _ => Err(NextView::Malformed),
        }
    }
}

/// The operand stack behind an instruction with `n` operands that did not
/// run to its end: an instruction that raises has taken its operands from
/// the stack; any other has left the stack as it is.
pub open spec fn operands_taken(next: NextView, stack: Seq<Variable>, n: int) -> Seq<Variable> {
    if next is Exception {
        dropped(stack, n)
    } else {
        stack
    }
}

/// Takes the operands of an instruction that raises from the stack.
pub fn take_operands(next: &Next, stack: &mut Vec<Variable>, n: usize)
    requires
        n <= old(stack).len(),
    ensures
        final(stack)@ == operands_taken(next@, old(stack)@, n as int),
{
    match next {
        Next::Exception(_) => {
            drop_slots(stack, n);
        },
        _ => {},
    }
}

/// What an array load does: how it ends, and the operand stack behind it.
/// Where it raises, the array and the index are taken from the stack.
pub open spec fn array_load_effect(op: u8, stack: Seq<Variable>, vm: Vm) -> (
    NextView,
    Seq<Variable>,
) {
    let kind = op - inst::IALOAD;
    if depth(stack) < 2 {
        (NextView::Malformed, stack)
    } else {
        match array_operand(vm, top(stack, 1).bits) {
            Err(next) => (next, operands_taken(next, stack, 2)),
            Ok((class, bytes)) => match element_type_of(
                vm.loader.classes[class as int].class_name@,
            ) {
                None => (NextView::Malformed, stack),
                Some(t) => if t.size() != kind_size(kind) {
                    (NextView::Malformed, stack)
                } else if !has_element(bytes, top(stack, 0).as_int() as int, kind_size(kind)) {
                    (raised(VmExceptionKind::ArrayIndexOutOfBounds), dropped(stack, 2))
                } else {
                    (
                        NextView::Step,
                        dropped(stack, 2) + loaded_slots(
                            kind,
                            bits_of(
                                element_bytes(bytes, top(stack, 0).as_int() as int, kind_size(kind)),
                            ),
                        ),
                    )
                },
            },
        }
    }
}

/// Finds the array that an instruction works on.
fn find_array(vm: &Vm, arr: u32) -> (r: Result<usize, Next>)
    requires
        vm.wf(),
    ensures
        match r {
            Ok(class) => array_operand(*vm, arr) matches Ok(found) && found.0 == class,
            Err(next) => array_operand(*vm, arr) == Err::<(usize, Seq<u8>), NextView>(next@),
        },
{
    if arr == 0 {
        return Err(raise(VmExceptionKind::NullPointer));
    }
    let classes = vm.famous.special_classes();
    match vm.heap.get_class(arr, &classes) {
        Some(class) => {
            if class < vm.loader.classes.len() && vm.heap.get_u8_array(arr).is_some() {
                Ok(class)
            } else {
                Err(Next::Malformed)
            }
        },
        None => Err(Next::Malformed),
    }
}

/// The size in bytes of an element of this kind.
fn size_of_kind(kind: u8) -> (size: usize)
    ensures
        size == kind_size(kind as int),
{
    if kind == 1 || kind == 3 {
        8
    } else if kind == 5 {
        1
    } else if kind == 6 || kind == 7 {
        2
    } else {
        4
    }
}

/// Puts the slots of an element on the stack.
fn push_loaded(stack: &mut Vec<Variable>, kind: u8, bits: u64)
    requires
        bits < range_of(kind_size(kind as int)),
    ensures
        final(stack)@ == old(stack)@ + loaded_slots(kind as int, bits as int),
{
    proof {
        reveal_with_fuel(range_of, 9);
    }
    let ghost before = stack@;
    if kind == 1 || kind == 3 {
        let (upper, lower) = Variable::put_double(bits);
        stack.push(upper);
        stack.push(lower);
    } else if kind == 5 {
        let v: i32 = if bits >= 128 {
            bits as i32 - 256
        } else {
            bits as i32
        };
        stack.push(Variable::from_int(v));
    } else if kind == 7 {
        let v: i32 = if bits >= 32768 {
            bits as i32 - 65536
        } else {
            bits as i32
        };
        stack.push(Variable::from_int(v));
    } else if kind == 6 {
        stack.push(Variable::from_int(bits as i32));
    } else {
        stack.push(Variable::from_reference(bits as u32));
    }
    assert(stack@ =~= before + loaded_slots(kind as int, bits as int));
}

/// What an array load does to the frame and the machine.
pub open spec fn array_load_step(
    op: u8,
    pc: int,
    stack: Seq<Variable>,
    before: Vm,
    next: NextView,
    after_stack: Seq<Variable>,
    after_pc: int,
) -> bool {
    &&& next == array_load_effect(op, stack, before).0
    &&& after_stack == array_load_effect(op, stack, before).1
    &&& after_pc == (if next is Step {
            pc + 1
        } else {
            pc
        })
}

/// Runs an array load.
pub fn array_load(op: u8, pc: &mut usize, stack: &mut Vec<Variable>, vm: &Vm) -> (next: Next)
    requires
        vm.wf(),
        is_array_load_op(op),
        *old(pc) < usize::MAX,
    ensures
        array_load_step(
            op,
            *old(pc) as int,
            old(stack)@,
            *vm,
            next@,
            final(stack)@,
            *final(pc) as int,
        ),
{
    let kind = op - inst::IALOAD;
    if stack.len() < RETURN_SLOTS + 2 {
        return Next::Malformed;
    }
    let arr = peek(stack, 1).get_reference();
    let index = peek(stack, 0).get_int();
    let class = match find_array(vm, arr) {
        Ok(class) => class,
        Err(next) => {
            take_operands(&next, stack, 2);
            return next;
        },
    };
    let size = size_of_kind(kind);
    match get_array_type(&vm.loader.classes[class]) {
        Some(t) => {
            if t.get_field_type_size() != size {
                return Next::Malformed;
            }
        },
        None => {
            return Next::Malformed;
        },
    }
    if index < 0 {
        drop_slots(stack, 2);
        return raise(VmExceptionKind::ArrayIndexOutOfBounds);
    }
    match vm.heap.get_array_index(arr, index as usize, size) {
        Some(bits) => {
            proof {
                let bytes = vm.heap.array_bytes(arr)->Some_0;
                crate::runtime::heap::array::lemma_bits_bound(
                    element_bytes(bytes, index as int, size as int),
                );
                lemma_element_fits(bytes.len() as int, index as int, size as int);
            }
            drop_slots(stack, 2);
            push_loaded(stack, kind, bits);
            *pc = *pc + 1;
            Next::Step
        },
        None => {
            drop_slots(stack, 2);
            raise(VmExceptionKind::ArrayIndexOutOfBounds)
        },
    }
}

/// `arraylength`: what it does.
pub open spec fn array_length_effect(stack: Seq<Variable>, vm: Vm) -> (NextView, Seq<Variable>) {
    if depth(stack) < 1 {
        (NextView::Malformed, stack)
    } else {
        match array_operand(vm, top(stack, 0).bits) {
            Err(next) => (next, operands_taken(next, stack, 1)),
            Ok((class, bytes)) => match element_type_of(
                vm.loader.classes[class as int].class_name@,
            ) {
                None => (NextView::Malformed, stack),
                Some(t) => if (bytes.len() as int) / (t.size() as int) > i32::MAX {
                    (NextView::Malformed, stack)
                } else {
                    (
                        NextView::Step,
                        dropped(stack, 1).push(
                            Variable::of_int(((bytes.len() as int) / (t.size() as int)) as i32),
                        ),
                    )
                },
            },
        }
    }
}

/// What `arraylength` does to the frame and the machine.
pub open spec fn array_length_step(
    pc: int,
    stack: Seq<Variable>,
    before: Vm,
    next: NextView,
    after_stack: Seq<Variable>,
    after_pc: int,
) -> bool {
    &&& next == array_length_effect(stack, before).0
    &&& after_stack == array_length_effect(stack, before).1
    &&& after_pc == (if next is Step {
            pc + 1
        } else {
            pc
        })
}

/// Runs `arraylength`.
pub fn array_length(pc: &mut usize, stack: &mut Vec<Variable>, vm: &Vm) -> (next: Next)
    requires
        vm.wf(),
        *old(pc) < usize::MAX,
    ensures
        array_length_step(
            *old(pc) as int,
            old(stack)@,
            *vm,
            next@,
            final(stack)@,
            *final(pc) as int,
        ),
{
    if stack.len() < RETURN_SLOTS + 1 {
        return Next::Malformed;
    }
    let arr = peek(stack, 0).get_reference();
    let class = match find_array(vm, arr) {
        Ok(class) => class,
        Err(next) => {
            take_operands(&next, stack, 1);
            return next;
        },
    };
    let size = match get_array_type(&vm.loader.classes[class]) {
        Some(t) => t.get_field_type_size(),
        None => {
            return Next::Malformed;
        },
    };
    match vm.heap.get_array_size(arr, size) {
        Some(len) => {
            if len > i32::MAX as usize {
                return Next::Malformed;
            }
            drop_slots(stack, 1);
            stack.push(Variable::from_int(len as i32));
            *pc = *pc + 1;
            Next::Step
        },
        None => Next::Malformed,
    }
}

/// Whether `after` is `before` with the bytes of the ordinary array `arr`
/// replaced by `bytes`, and nothing else changed.
pub open spec fn array_written(before: Heap, after: Heap, arr: u32, bytes: Seq<u8>) -> bool {
    &&& before.ordinary(arr) matches Some(old_object)
    &&& after.ordinary(arr) matches Some(new_object)
    &&& new_object.fields_or_array matches crate::runtime::heap::Payload::Array(written)
    &&& written@ == bytes
    &&& new_object.class == old_object.class
    &&& new_object.monitor == old_object.monitor
    &&& forall|other: u32| other != arr ==> after.ordinary(other) == before.ordinary(other)
    &&& after.special_heap == before.special_heap
    &&& after.next_id == before.next_id
    &&& after.heap.len() == before.heap.len()
}

/// The number of operands of an array store of this kind: the array, the
/// index and the slots of the value.
pub open spec fn store_operands(kind: int) -> int {
    if kind == 1 || kind == 3 {
        4
    } else {
        3
    }
}

/// The number that an array store of this kind writes: what the one or two
/// top slots hold.
pub open spec fn stored_bits(kind: int, stack: Seq<Variable>) -> int {
    if kind == 1 || kind == 3 {
        Variable::bits_of(top(stack, 1), top(stack, 0)) as int
    } else {
        top(stack, 0).bits as int
    }
}

/// Whether the reference may be stored into an array of class `class`: it
/// is null, or the array says nothing of the class of its elements, or the
/// class of the object is assignable to the class of the elements. None
/// where the reference names no object.
pub open spec fn storable(vm: Vm, class: usize, value: u32) -> Option<bool> {
    if value == 0 {
        Some(true)
    } else {
        match vm.heap.class_of(
            value,
            crate::runtime::heap::access::SpecialClasses {
                string: vm.famous.ids@[1],
                byte_array: vm.famous.ids@[3],
                class: vm.famous.ids@[2],
            },
        ) {
            Some(value_class) => if value_class < vm.loader.classes.len() {
                match vm.loader.classes[class as int].array_element_type {
                    Some(element) => if element < vm.loader.classes.len() {
                        Some(assignable(vm.loader.classes@, value_class as int, element))
                    } else {
                        None
                    },
                    None => Some(true),
                }
            } else {
                None
            },
            None => None,
        }
    }
}

/// What an array store does: how it ends, the operand stack behind it, and
/// the array that it writes with its new bytes.
pub open spec fn array_store_effect(op: u8, stack: Seq<Variable>, vm: Vm) -> (
    NextView,
    Seq<Variable>,
    Option<(u32, Seq<u8>)>,
) {
    let kind = op - inst::IASTORE;
    let n = store_operands(kind);
    if depth(stack) < n {
        (NextView::Malformed, stack, None)
    } else {
        let arr = top(stack, n - 1).bits;
        let index = top(stack, n - 2).as_int() as int;
        match array_operand(vm, arr) {
            Err(next) => (next, operands_taken(next, stack, n), None),
            Ok((class, bytes)) => match element_type_of(
                vm.loader.classes[class as int].class_name@,
            ) {
                None => (NextView::Malformed, stack, None),
                Some(t) => if t.size() != kind_size(kind) {
                    (raised(VmExceptionKind::ArrayStore), dropped(stack, n), None)
                } else if !has_element(bytes, index, kind_size(kind)) {
                    (raised(VmExceptionKind::ArrayIndexOutOfBounds), dropped(stack, n), None)
                } else if vm.heap.ordinary(arr).is_none() {
                    (NextView::Malformed, stack, None)
                } else if kind == 4 && storable(vm, class, top(stack, 0).bits).is_none() {
                    (NextView::Malformed, stack, None)
                } else if kind == 4 && storable(vm, class, top(stack, 0).bits) == Some(false) {
                    (raised(VmExceptionKind::ArrayStore), dropped(stack, n), None)
                } else {
                    (
                        NextView::Step,
                        dropped(stack, n),
                        Some(
                            (
                                arr,
                                with_element(
                                    bytes,
                                    index,
                                    bytes_of(stored_bits(kind, stack), kind_size(kind)),
                                ),
                            ),
                        ),
                    )
                },
            },
        }
    }
}

/// Whether the reference may be stored into an array of class `class`.
pub fn check_storable(vm: &Vm, class: usize, value: u32) -> (r: Option<bool>)
    requires
        vm.wf(),
        class < vm.loader.classes.len(),
    ensures
        r == storable(*vm, class, value),
{
    if value == 0 {
        return Some(true);
    }
    let classes = vm.famous.special_classes();
    match vm.heap.get_class(value, &classes) {
        Some(value_class) => {
            if value_class >= vm.loader.classes.len() {
                return None;
            }
            match vm.loader.classes[class].array_element_type {
                Some(element) => {
                    if element < vm.loader.classes.len() {
                        Some(is_array_assignable_to(&vm.loader.classes, value_class, element))
                    } else {
                        None
                    }
                },
                None => Some(true),
            }
        },
        None => None,
    }
}

/// The low `size` bytes of `bits`, the lowest first.
pub fn low_bytes(bits: u64, size: usize) -> (bytes: Vec<u8>)
    requires
        size <= 8,
    ensures
        bytes@ == bytes_of(bits as int, size as int),
{
    let mut bytes: Vec<u8> = Vec::new();
    let mut rest = bits;
    while bytes.len() < size
        invariant
            bytes.len() <= size,
            bytes_of(bits as int, size as int) =~= bytes@ + bytes_of(
                rest as int,
                size - bytes.len(),
            ),
        decreases size - bytes.len(),
    {
        let ghost before = bytes@;
        let ghost tail = bytes_of(rest as int, size - bytes.len());
        assert(tail =~= seq![(rest % 256) as u8] + bytes_of((rest / 256) as int, size - bytes.len() - 1));
        bytes.push((rest % 256) as u8);
        rest = rest / 256;
    }
    assert(bytes_of(rest as int, 0) =~= Seq::empty());
    bytes
}

/// What an array store does to the frame and the machine.
pub open spec fn array_store_step(
    op: u8,
    pc: int,
    stack: Seq<Variable>,
    before: Vm,
    after: Vm,
    next: NextView,
    after_stack: Seq<Variable>,
    after_pc: int,
) -> bool {
    &&& next == array_store_effect(op, stack, before).0
    &&& after_stack == array_store_effect(op, stack, before).1
    &&& after_pc == (if next is Step {
            pc + 1
        } else {
            pc
        })
    &&& after.loader == before.loader
    &&& after.string_table == before.string_table
    &&& after.class_table == before.class_table
    &&& after.natives == before.natives
    &&& after.famous == before.famous
    &&& after.special_fields == before.special_fields
    &&& after.next_thread_id == before.next_thread_id
    &&& after.compact_strings == before.compact_strings
    &&& after.big_endian == before.big_endian
    &&& match array_store_effect(op, stack, before).2 {
            Some((arr, bytes)) => array_written(before.heap, after.heap, arr, bytes),
            None => after.heap == before.heap,
        }
}

/// Runs an array store.
pub fn array_store(op: u8, pc: &mut usize, stack: &mut Vec<Variable>, vm: &mut Vm) -> (next: Next)
    requires
        old(vm).wf(),
        is_array_store_op(op),
        *old(pc) < usize::MAX,
    ensures
        final(vm).wf(),
        array_store_step(
            op,
            *old(pc) as int,
            old(stack)@,
            *old(vm),
            *final(vm),
            next@,
            final(stack)@,
            *final(pc) as int,
        ),
{
    let kind = op - inst::IASTORE;
    let n: usize = if kind == 1 || kind == 3 {
        4
    } else {
        3
    };
    if stack.len() < RETURN_SLOTS + n {
        return Next::Malformed;
    }
    let arr = peek(stack, n - 1).get_reference();
    let index = peek(stack, n - 2).get_int();
    let class = match find_array(vm, arr) {
        Ok(class) => class,
        Err(next) => {
            take_operands(&next, stack, n);
            return next;
        },
    };
    let size = size_of_kind(kind);
    match get_array_type(&vm.loader.classes[class]) {
        Some(t) => {
            if t.get_field_type_size() != size {
                drop_slots(stack, n);
                return raise(VmExceptionKind::ArrayStore);
            }
        },
        None => {
            return Next::Malformed;
        },
    }
    let ghost bytes = vm.heap.array_bytes(arr)->Some_0;
    if index < 0 {
        drop_slots(stack, n);
        return raise(VmExceptionKind::ArrayIndexOutOfBounds);
    }
    match vm.heap.get_array_size(arr, size) {
        Some(len) => {
            proof {
                lemma_element_fits(bytes.len() as int, index as int, size as int);
            }
            if index as usize >= len {
                drop_slots(stack, n);
                return raise(VmExceptionKind::ArrayIndexOutOfBounds);
            }
        },
        None => {
            return Next::Malformed;
        },
    }
    if vm.heap.get_ordinary(arr).is_none() {
        return Next::Malformed;
    }
    let bits: u64 = if kind == 1 || kind == 3 {
        Variable::get_double(peek(stack, 1), peek(stack, 0))
    } else {
        peek(stack, 0).get_reference() as u64
    };
    if kind == 4 {
        match check_storable(vm, class, peek(stack, 0).get_reference()) {
            Some(true) => {},
            Some(false) => {
                drop_slots(stack, n);
                return raise(VmExceptionKind::ArrayStore);
            },
            None => {
                return Next::Malformed;
            },
        }
    }
    let value = low_bytes(bits, size);
    proof {
        crate::runtime::structs::object::lemma_bytes_round_trip(bits as int, size as int);
    }
    match vm.heap.put_array_index_raw(arr, index as usize, &value) {
        Ok(()) => {
            proof {
                assert forall|id: u32| vm.heap.ordinary(id).is_some() == old(vm).heap.ordinary(
                    id,
                ).is_some() by {
                    if id != arr {
                        assert(vm.heap.ordinary(id) == old(vm).heap.ordinary(id));
                    }
                }
                crate::runtime::heap::lemma_same_objects_keep_order(old(vm).heap, vm.heap);
            }
            drop_slots(stack, n);
            *pc = *pc + 1;
            Next::Step
        },
        Err(_) => Next::Malformed,
    }
}

} // verus!

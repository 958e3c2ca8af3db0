//! The natives of `java/lang/System`.

use crate::class::parser::copy_range;
use crate::descriptor::FieldTypeView;
use crate::runtime::heap::array::{bytes_replaced, element_bytes, with_range};
use crate::runtime::inheritance::{element_type_of, get_array_type};
use crate::runtime::interpreter::array_ops::{check_storable, storable};
use crate::runtime::interpreter::object_ops::rest_unchanged;
use crate::runtime::interpreter::type_ops::special_classes_of;
use crate::runtime::native::{NativeOutcome, NativeVariable};
use crate::runtime::structs::exception::VmExceptionKind;
use crate::runtime::structs::object::bits_of;
use crate::runtime::Vm;
use vstd::prelude::*;

verus! {

/// The arguments of `arraycopy`: the source and where to start in it, the
/// destination and where to start in it, and the number of elements.
pub open spec fn copy_arguments(args: Seq<NativeVariable>) -> Option<(u32, i32, u32, i32, i32)> {
    if args.len() == 5 && args[0] is Reference && args[1] is Int && args[2] is Reference
        && args[3] is Int && args[4] is Int {
        Some(
            (
                args[0]->Reference_0,
                args[1]->Int_0,
                args[2]->Reference_0,
                args[3]->Int_0,
                args[4]->Int_0,
            ),
        )
    } else {
        None
    }
}

/// The class of the object, where it is a class of the machine.
pub open spec fn class_of_object(vm: Vm, id: u32) -> Option<usize> {
    match vm.heap.class_of(id, special_classes_of(vm)) {
        Some(class) => if class < vm.loader.classes.len() {
            Some(class)
        } else {
            None
        },
        None => None,
    }
}

/// The type of the elements of the array `id`.
pub open spec fn elements_of(vm: Vm, id: u32) -> Option<FieldTypeView> {
    element_type_of(vm.loader.classes[class_of_object(vm, id)->Some_0 as int].class_name@)
}

/// Why `arraycopy` copies nothing, if it does not: a null array raises
/// `NullPointerException`; an object that is no array, or arrays of
/// different primitive types or of a primitive type and of references,
/// `ArrayStoreException`; a range that runs over an end of an array,
/// `IndexOutOfBoundsException`.
pub open spec fn copy_fault(args: Seq<NativeVariable>, vm: Vm) -> Option<NativeOutcome> {
    match copy_arguments(args) {
        None => Some(NativeOutcome::Malformed),
        Some((src, src_pos, dest, dest_pos, length)) => if src == 0 || dest == 0 {
            Some(NativeOutcome::Throw(VmExceptionKind::NullPointer))
        } else if class_of_object(vm, src).is_none() || class_of_object(vm, dest).is_none() {
            Some(NativeOutcome::Malformed)
        } else {
            match (elements_of(vm, src), elements_of(vm, dest)) {
                (Some(src_type), Some(dest_type)) => if (src_type.is_primitive()
                    || dest_type.is_primitive()) && src_type != dest_type {
                    Some(NativeOutcome::Throw(VmExceptionKind::ArrayStore))
                } else {
                    match (vm.heap.array_bytes(src), vm.heap.array_bytes(dest)) {
                        (Some(src_bytes), Some(dest_bytes)) => if src_pos < 0 || dest_pos < 0
                            || length < 0 || src_pos + length > src_bytes.len() / src_type.size()
                            || dest_pos + length > dest_bytes.len() / dest_type.size() {
                            Some(NativeOutcome::Throw(VmExceptionKind::IndexOutOfBounds))
                        } else if vm.heap.ordinary(dest).is_none() {
                            Some(NativeOutcome::Malformed)
                        } else {
                            None
                        },
                        _ => Some(NativeOutcome::Malformed),
                    }
                },
                _ => Some(NativeOutcome::Throw(VmExceptionKind::ArrayStore)),
            }
        },
    }
}

/// The reference that is element `index` of an array of references.
pub open spec fn reference_at(bytes: Seq<u8>, index: int) -> u32 {
    bits_of(element_bytes(bytes, index, 4)) as u32
}

/// The first element from `from` on and before `to` that may not be stored
/// into an array of class `dest_class`; `to` where there is none.
pub open spec fn first_unstorable(
    vm: Vm,
    bytes: Seq<u8>,
    dest_class: usize,
    from: int,
    to: int,
) -> int
    decreases to - from,
{
    if from >= to {
        to
    } else if storable(vm, dest_class, reference_at(bytes, from)) == Some(true) {
        first_unstorable(vm, bytes, dest_class, from + 1, to)
    } else {
        from
    }
}

/// The number of elements that `arraycopy` copies and how it ends, where
/// nothing is at fault with its arguments. Elements of a primitive type
/// are all copied. References are copied up to the first whose object is
/// of a class that the destination cannot hold, where the copy ends with
/// `ArrayStoreException`.
pub open spec fn copy_extent(args: Seq<NativeVariable>, vm: Vm) -> (int, NativeOutcome) {
    let (src, src_pos, dest, dest_pos, length) = copy_arguments(args)->Some_0;
    if elements_of(vm, src)->Some_0.is_primitive() {
        (length as int, NativeOutcome::Value(None))
    } else {
        let bytes = vm.heap.array_bytes(src)->Some_0;
        let dest_class = class_of_object(vm, dest)->Some_0;
        let stop = first_unstorable(vm, bytes, dest_class, src_pos as int, src_pos + length);
        if stop == src_pos + length {
            (length as int, NativeOutcome::Value(None))
        } else if storable(vm, dest_class, reference_at(bytes, stop)) == Some(false) {
            (stop - src_pos, NativeOutcome::Throw(VmExceptionKind::ArrayStore))
        } else {
            (0, NativeOutcome::Malformed)
        }
    }
}

/// What `arraycopy` does: where nothing is at fault, the elements that it
/// copies take the place of as many elements of the destination, and
/// nothing else changes. The elements are those that the source held
/// before, also where the source is the destination.
pub open spec fn arraycopy_effect(
    args: Seq<NativeVariable>,
    before: Vm,
    after: Vm,
    outcome: NativeOutcome,
) -> bool {
    &&& after.loader == before.loader
    &&& rest_unchanged(before, after)
    &&& match copy_fault(args, before) {
        Some(fault) => outcome == fault && after.heap == before.heap,
        None => {
            let (src, src_pos, dest, dest_pos, length) = copy_arguments(args)->Some_0;
            let size = elements_of(before, src)->Some_0.size() as int;
            let extent = copy_extent(args, before);
            &&& outcome == extent.1
            &&& if outcome is Malformed {
                after.heap == before.heap
            } else {
                bytes_replaced(
                    before.heap,
                    after.heap,
                    dest,
                    with_range(
                        before.heap.array_bytes(dest)->Some_0,
                        dest_pos * size,
                        before.heap.array_bytes(src)->Some_0.subrange(
                            src_pos * size,
                            (src_pos + extent.0) * size,
                        ),
                    ),
                )
            }
        },
    }
}

/// `n` whole elements fit into the bytes that hold at least `n` elements.
proof fn lemma_whole_elements(len: int, n: int, size: int)
    requires
        size > 0,
        0 <= n <= len / size,
        0 <= len,
    ensures
        0 <= n * size <= len,
{
    vstd::arithmetic::div_mod::lemma_fundamental_div_mod(len, size);
    vstd::arithmetic::div_mod::lemma_mod_bound(len, size);
    assert(n * size <= (len / size) * size) by (nonlinear_arith)
        requires
            0 <= n <= len / size,
            size > 0,
    ;
    assert(0 <= n * size) by (nonlinear_arith)
        requires
            0 <= n,
            size > 0,
    ;
    assert((len / size) * size == size * (len / size)) by (nonlinear_arith);
}

/// The reference that is element `index` of the array of references `id`.
fn read_reference(vm: &Vm, id: u32, index: usize) -> (element: u32)
    requires
        vm.heap.array_bytes(id) matches Some(bytes) && index < bytes.len() / 4,
    ensures
        element == reference_at(vm.heap.array_bytes(id)->Some_0, index as int),
{
    let ghost bytes = vm.heap.array_bytes(id)->Some_0;
    proof {
        crate::runtime::heap::array::lemma_element_fits(bytes.len() as int, index as int, 4);
        crate::runtime::heap::array::lemma_bits_bound(element_bytes(bytes, index as int, 4));
        reveal_with_fuel(crate::runtime::structs::object::range_of, 9);
    }
    match vm.heap.get_array_index(id, index, 4) {
        Some(bits) => bits as u32,
        None => 0,
    }
}

/// The first element of the source that the destination cannot hold.
fn find_unstorable(vm: &Vm, src: u32, dest_class: usize, from: usize, to: usize) -> (stop: usize)
    requires
        vm.wf(),
        dest_class < vm.loader.classes.len(),
        from <= to,
        vm.heap.array_bytes(src) matches Some(bytes) && to <= bytes.len() / 4,
    ensures
        stop == first_unstorable(
            *vm,
            vm.heap.array_bytes(src)->Some_0,
            dest_class,
            from as int,
            to as int,
        ),
        from <= stop <= to,
{
    let ghost bytes = vm.heap.array_bytes(src)->Some_0;
    let mut i: usize = from;
    while i < to
        invariant
            from <= i <= to,
            vm.wf(),
            dest_class < vm.loader.classes.len(),
            vm.heap.array_bytes(src) == Some(bytes),
            to <= bytes.len() / 4,
            first_unstorable(*vm, bytes, dest_class, from as int, to as int) == first_unstorable(
                *vm,
                bytes,
                dest_class,
                i as int,
                to as int,
            ),
        decreases to - i,
    {
        let element = read_reference(vm, src, i);
        match check_storable(vm, dest_class, element) {
            Some(true) => {},
            _ => {
                return i;
            },
        }
        i += 1;
    }
    to
}

/// `System.arraycopy`.
pub fn native_system_arraycopy(args: &Vec<NativeVariable>, vm: &mut Vm) -> (outcome: NativeOutcome)
    requires
        old(vm).wf(),
    ensures
        final(vm).wf(),
        arraycopy_effect(args@, *old(vm), *final(vm), outcome),
{
    if args.len() != 5 {
        return NativeOutcome::Malformed;
    }
    let (src, src_pos, dest, dest_pos, length) = match (args[0], args[1], args[2], args[3], args[4]) {
        (
            NativeVariable::Reference(src),
            NativeVariable::Int(src_pos),
            NativeVariable::Reference(dest),
            NativeVariable::Int(dest_pos),
            NativeVariable::Int(length),
        ) => (src, src_pos, dest, dest_pos, length),
        _ => {
            return NativeOutcome::Malformed;
        },
    };
    if src == 0 || dest == 0 {
        return NativeOutcome::Throw(VmExceptionKind::NullPointer);
    }
    let classes = vm.famous.special_classes();
    let src_class = match vm.heap.get_class(src, &classes) {
        Some(class) => class,
        None => {
            return NativeOutcome::Malformed;
        },
    };
    let dest_class = match vm.heap.get_class(dest, &classes) {
        Some(class) => class,
        None => {
            return NativeOutcome::Malformed;
        },
    };
    if src_class >= vm.loader.classes.len() || dest_class >= vm.loader.classes.len() {
        return NativeOutcome::Malformed;
    }
    let src_type = match get_array_type(&vm.loader.classes[src_class]) {
        Some(t) => t,
        None => {
            return NativeOutcome::Throw(VmExceptionKind::ArrayStore);
        },
    };
    let dest_type = match get_array_type(&vm.loader.classes[dest_class]) {
        Some(t) => t,
        None => {
            return NativeOutcome::Throw(VmExceptionKind::ArrayStore);
        },
    };
    if (src_type.is_primitive() || dest_type.is_primitive()) && !src_type.same_type(&dest_type) {
        return NativeOutcome::Throw(VmExceptionKind::ArrayStore);
    }
    let size = src_type.get_field_type_size();
    assert(size == dest_type@.size());
    let src_len = match vm.heap.get_array_size(src, size) {
        Some(n) => n,
        None => {
            return NativeOutcome::Malformed;
        },
    };
    let dest_len = match vm.heap.get_array_size(dest, size) {
        Some(n) => n,
        None => {
            return NativeOutcome::Malformed;
        },
    };
    if src_pos < 0 || dest_pos < 0 || length < 0 {
        return NativeOutcome::Throw(VmExceptionKind::IndexOutOfBounds);
    }
    let from = src_pos as usize;
    let to = dest_pos as usize;
    let wanted = length as usize;
    if from + wanted > src_len || to + wanted > dest_len {
        return NativeOutcome::Throw(VmExceptionKind::IndexOutOfBounds);
    }
    if vm.heap.get_ordinary(dest).is_none() {
        return NativeOutcome::Malformed;
    }
    let ghost src_bytes = vm.heap.array_bytes(src)->Some_0;
    let ghost dest_bytes = vm.heap.array_bytes(dest)->Some_0;
    assert(copy_fault(args@, *vm).is_none());
    let mut count = wanted;
    let mut outcome = NativeOutcome::Value(None);
    if !src_type.is_primitive() {
        let stop = find_unstorable(vm, src, dest_class, from, from + wanted);
        if stop != from + wanted {
            let element = read_reference(vm, src, stop);
            match check_storable(vm, dest_class, element) {
                Some(false) => {
                    count = stop - from;
                    outcome = NativeOutcome::Throw(VmExceptionKind::ArrayStore);
                },
                _ => {
                    return NativeOutcome::Malformed;
                },
            }
        }
    }
    assert((count as int, outcome) == copy_extent(args@, *vm));
    proof {
        lemma_whole_elements(src_bytes.len() as int, from + count, size as int);
        lemma_whole_elements(src_bytes.len() as int, from as int, size as int);
        lemma_whole_elements(dest_bytes.len() as int, to + count, size as int);
        lemma_whole_elements(dest_bytes.len() as int, to as int, size as int);
        assert((from + count) * size == from * size + count * size) by (nonlinear_arith);
        assert((to + count) * size == to * size + count * size) by (nonlinear_arith);
        assert(0 <= count * size) by (nonlinear_arith)
            requires
                0 <= count,
                0 < size,
        ;
    }
    let dest_size = match vm.heap.get_u8_array(dest) {
        Some(bytes) => bytes.len(),
        None => {
            return NativeOutcome::Malformed;
        },
    };
    assert(to * size + count * size <= dest_size);
    let copied = match vm.heap.get_u8_array(src) {
        Some(bytes) => {
            assert(from * size + count * size <= bytes.len());
            copy_range(bytes, from * size, (from + count) * size)
        },
        None => {
            return NativeOutcome::Malformed;
        },
    };
    let written = vm.heap.put_array_range(dest, to * size, &copied);
    assert(written);
    outcome
}

} // verus!

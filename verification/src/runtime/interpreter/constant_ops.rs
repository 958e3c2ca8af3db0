//! `ldc`, `ldc_w` and `ldc2_w`: putting a constant of the pool on the
//! operand stack.
//!
//! An int or a float constant fills one slot, a long or a double two. A
//! string constant is interned, and its reference is what goes on the
//! stack: two occurrences of the same string give the same reference. A
//! class constant gives the reference of the mirror of the class.

use crate::bytes::{read_u16, read_u8, u16_at, u8_at};
use crate::class::structs::java_str::string_bytes;
use crate::instructions as inst;
use crate::runtime::class_loader::pool::{entry, entry_at};
use crate::runtime::class_loader::reference::{
    class_found, class_lookup_frame, ClassLookup, ClassLookupView,
};
use crate::runtime::famous_classes::lemma_famous_stay;
use crate::runtime::heap::{intern_effect, mirror_effect};
use crate::runtime::interpreter::local::{push_bits, push_long, pushed_bits, pushed_long};
use crate::runtime::interpreter::next::{Next, NextView};
use crate::runtime::interpreter::object_ops::{class_unavailable, unavailable};
use crate::runtime::interpreter::variable::Variable;
use crate::runtime::structs::constant_pool::{constants_view, ConstantInfoView, ConstantPoolInfo};
use crate::runtime::Vm;
use vstd::prelude::*;

verus! {

/// Whether the two machines differ in nothing but their classes, their
/// heaps and the tables of their strings and mirrors.
pub open spec fn registries_unchanged(before: Vm, after: Vm) -> bool {
    &&& after.natives == before.natives
    &&& after.famous == before.famous
    &&& after.special_fields == before.special_fields
    &&& after.next_thread_id == before.next_thread_id
    &&& after.compact_strings == before.compact_strings
    &&& after.big_endian == before.big_endian
}

/// The index operand of the instruction and its length.
pub open spec fn constant_operand(code: Seq<u8>, pc: int) -> Option<(int, int)> {
    if code[pc] == inst::LDC {
        if pc + 1 < code.len() {
            Some((u8_at(code, pc + 1), 2))
        } else {
            None
        }
    } else {
        if pc + 2 < code.len() {
            Some((u16_at(code, pc + 1), 3))
        } else {
            None
        }
    }
}

/// What loading a constant does.
pub open spec fn load_constant_effect(
    frame_class: usize,
    code: Seq<u8>,
    pc: int,
    stack: Seq<Variable>,
    before: Vm,
    after: Vm,
    next: NextView,
    after_stack: Seq<Variable>,
) -> bool {
    let unchanged = after.heap == before.heap && after.loader == before.loader
        && after.string_table == before.string_table && after.class_table == before.class_table;
    match constant_operand(code, pc) {
        None => next == NextView::Malformed && after_stack == stack && unchanged,
        Some((index, length)) => {
            let constant = entry_at(
                constants_view(before.loader.classes[frame_class as int].constant_pool@),
                index,
            );
            if code[pc] == inst::LDC2_W {
                match constant {
                    ConstantInfoView::Long(v) => next == NextView::Step && after_stack
                        == pushed_long(stack, v) && unchanged,
                    ConstantInfoView::Double(bits) => next == NextView::Step && after_stack
                        == pushed_bits(stack, bits) && unchanged,
                    _ => next == NextView::Malformed && after_stack == stack && unchanged,
                }
            } else {
                match constant {
                    ConstantInfoView::Integer(v) => next == NextView::Step && after_stack
                        == stack.push(Variable::of_int(v)) && unchanged,
                    ConstantInfoView::Float(bits) => next == NextView::Step && after_stack
                        == stack.push(Variable::of_bits(bits)) && unchanged,
                    ConstantInfoView::String(text) => {
                        let bytes = string_bytes(text, before.compact_strings, before.big_endian);
                        &&& after.loader == before.loader
                        &&& after.class_table == before.class_table
                        &&& exists|id: Option<u32>| #[trigger]
                            intern_effect(
                                before.heap,
                                after.heap,
                                before.string_table,
                                after.string_table,
                                bytes.0,
                                bytes.1,
                                id,
                            ) && (match id {
                                Some(id) => next == NextView::Step && after_stack == stack.push(
                                    Variable::of_bits(id),
                                ) && id > crate::runtime::heap::MAX_OBJECT_ID
                                    && after.heap.string_parts(id).is_some()
                                    && after.heap.string_parts(id)->Some_0.1 == bytes.0,
                                None => next == NextView::HeapFull && after_stack == stack,
                            })
                    },
                    ConstantInfoView::Class { .. } => {
                        &&& after.string_table == before.string_table
                        &&& class_lookup_frame(
                            before.loader,
                            after.loader,
                            frame_class as int,
                            index,
                        )
                        &&& match class_found(
                            before.loader,
                            after.loader,
                            frame_class as int,
                            index,
                        ) {
                            ClassLookupView::Malformed => next == NextView::Malformed
                                && after_stack == stack && after.heap == before.heap
                                && after.class_table == before.class_table,
                            ClassLookupView::Failed(failure) => next == unavailable(failure)
                                && after_stack == stack && after.heap == before.heap
                                && after.class_table == before.class_table,
                            ClassLookupView::Found(class) => exists|id: Option<u32>| #[trigger]
                                mirror_effect(
                                    before.heap,
                                    after.heap,
                                    before.class_table,
                                    after.class_table,
                                    class,
                                    id,
                                ) && (match id {
                                    Some(id) => next == NextView::Step && after_stack
                                        == stack.push(Variable::of_bits(id)),
                                    None => next == NextView::HeapFull && after_stack == stack,
                                }),
                        }
                    },
                    _ => next == NextView::Malformed && after_stack == stack && unchanged,
                }
            }
        },
    }
}

/// What is to be put on the stack.
enum Loaded {
    One(Variable),
    Long(i64),
    Double(u64),
    Text(Vec<u8>, bool),
    Class,
    Nothing,
}

/// What `ldc`, `ldc_w` or `ldc2_w` does to the frame and the machine.
pub open spec fn load_constant_step(
    frame_class: usize,
    code: Seq<u8>,
    pc: int,
    stack: Seq<Variable>,
    before: Vm,
    after: Vm,
    next: NextView,
    after_stack: Seq<Variable>,
    after_pc: int,
) -> bool {
    &&& registries_unchanged(before, after)
    &&& load_constant_effect(
            frame_class,
            code,
            pc,
            stack,
            before,
            after,
            next,
            after_stack,
        )
    &&& after_pc == (if next is Step {
            pc + constant_operand(code, pc)->Some_0.1
        } else {
            pc
        })
}

/// Runs `ldc`, `ldc_w` or `ldc2_w`.
pub fn load_constant(
    frame_class: usize,
    code: &Vec<u8>,
    pc: &mut usize,
    stack: &mut Vec<Variable>,
    vm: &mut Vm,
) -> (next: Next)
    requires
        old(vm).wf(),
        frame_class < old(vm).loader.classes.len(),
        *old(pc) < code.len(),
        code[*old(pc) as int] == inst::LDC || code[*old(pc) as int] == inst::LDC_W || code[*old(pc) as int] == inst::LDC2_W,
    ensures
        final(vm).wf(),
        load_constant_step(
            frame_class,
            code@,
            *old(pc) as int,
            old(stack)@,
            *old(vm),
            *final(vm),
            next@,
            final(stack)@,
            *final(pc) as int,
        ),
{
    let op = code[*pc];
    let (index, length): (u16, usize) = if op == inst::LDC {
        if code.len() - *pc < 2 {
            return Next::Malformed;
        }
        (read_u8(code, *pc + 1) as u16, 2)
    } else {
        if code.len() - *pc < 3 {
            return Next::Malformed;
        }
        (read_u16(code, *pc + 1), 3)
    };
    let wide = op == inst::LDC2_W;
    let loaded = match entry(&vm.loader.classes[frame_class].constant_pool, index) {
        Some(ConstantPoolInfo::Long(v)) => if wide {
            Loaded::Long(*v)
        } else {
            Loaded::Nothing
        },
        Some(ConstantPoolInfo::Double(bits)) => if wide {
            Loaded::Double(*bits)
        } else {
            Loaded::Nothing
        },
        Some(ConstantPoolInfo::Integer(v)) => if wide {
            Loaded::Nothing
        } else {
            Loaded::One(Variable::from_int(*v))
        },
        Some(ConstantPoolInfo::Float(bits)) => if wide {
            Loaded::Nothing
        } else {
            Loaded::One(Variable::from_float_bits(*bits))
        },
        Some(ConstantPoolInfo::String(text)) => if wide {
            Loaded::Nothing
        } else {
            let (bytes, has_multi_bytes) = text.to_java_string_bytes(
                vm.compact_strings,
                vm.big_endian,
            );
            Loaded::Text(bytes, has_multi_bytes)
        },
        Some(ConstantPoolInfo::Class(_)) => if wide {
            Loaded::Nothing
        } else {
            Loaded::Class
        },
        _ => Loaded::Nothing,
    };
    let ghost constant = entry_at(
        constants_view(old(vm).loader.classes[frame_class as int].constant_pool@),
        index as int,
    );
    proof {
        if 1 <= index <= vm.loader.classes[frame_class as int].constant_pool.len() {
            assert(constants_view(
                vm.loader.classes[frame_class as int].constant_pool@,
            )[index - 1] == vm.loader.classes[frame_class as int].constant_pool@[index - 1]@);
        }
        assert(loaded matches Loaded::Text(bytes, flag) ==> constant matches ConstantInfoView::String(
            text,
        ) && bytes@ == string_bytes(text, vm.compact_strings, vm.big_endian).0 && flag
            == string_bytes(text, vm.compact_strings, vm.big_endian).1 && !wide);
        assert(loaded is Class ==> constant is Class && !wide);
        assert(loaded matches Loaded::One(v) ==> !wide && (constant == ConstantInfoView::Integer(
            v.as_int(),
        ) && v == Variable::of_int(v.as_int()) || constant == ConstantInfoView::Float(v.bits)));
        assert(loaded matches Loaded::Long(v) ==> wide && constant == ConstantInfoView::Long(v));
        assert(loaded matches Loaded::Double(v) ==> wide && constant == ConstantInfoView::Double(
            v,
        ));
        assert(loaded is Nothing ==> (if wide {
            !(constant is Long) && !(constant is Double)
        } else {
            !(constant is Integer) && !(constant is Float) && !(constant is String) && !(
            constant is Class)
        }));
    }
    match loaded {
        Loaded::Nothing => {
            return Next::Malformed;
        },
        Loaded::One(v) => {
            stack.push(v);
            assert(vm.loader == old(vm).loader);
        },
        Loaded::Long(v) => {
            push_long(stack, v);
            assert(stack@ == pushed_long(old(stack)@, v));
        },
        Loaded::Double(bits) => {
            push_bits(stack, bits);
            assert(stack@ == pushed_bits(old(stack)@, bits));
        },
        Loaded::Text(bytes, has_multi_bytes) => {
            match vm.heap.intern_string(bytes, has_multi_bytes, &mut vm.string_table) {
                Some(id) => {
                    stack.push(Variable::from_reference(id));
                    assert(intern_effect(
                        old(vm).heap,
                        vm.heap,
                        old(vm).string_table,
                        vm.string_table,
                        bytes@,
                        has_multi_bytes,
                        Some(id),
                    ));
                },
                None => {
                    return Next::HeapFull;
                },
            }
        },
        Loaded::Class => {
            let found = vm.loader.class_reference(frame_class, index);
            proof {
                lemma_famous_stay(vm.famous, old(vm).loader, vm.loader);
            }
            let class = match found {
                ClassLookup::Found(class) => class,
                ClassLookup::Failed(e) => {
                    return class_unavailable(e);
                },
                ClassLookup::Malformed => {
                    return Next::Malformed;
                },
            };
            match vm.heap.get_class_object(class, &mut vm.class_table) {
                Some(id) => {
                    stack.push(Variable::from_reference(id));
                    assert(mirror_effect(
                        old(vm).heap,
                        vm.heap,
                        old(vm).class_table,
                        vm.class_table,
                        class,
                        Some(id),
                    ));
                },
                None => {
                    return Next::HeapFull;
                },
            }
        },
    }
    *pc = *pc + length;
    Next::Step
}

} // verus!

//! One instruction on one frame.
//!
//! [`local_effect`] says what each instruction that needs only the frame
//! does to it; [`step_local`] does it. Every other instruction is
//! [`Outcome::Foreign`] here and leaves the frame untouched.

use crate::instructions as inst;
use crate::runtime::interpreter::arithmetic::{
    arithmetic_effect, conversion_effect, increment_effect, is_arithmetic_op, is_conversion_op,
    long_order_effect, run_arithmetic, run_conversion, run_increment, run_long_order,
};
use crate::runtime::interpreter::branch::{
    branch_effect, is_branch_op, is_return_op, lookup_switch_effect, return_effect, run_branch,
    run_lookup_switch, run_return, run_table_switch, table_switch_effect,
};
use crate::runtime::interpreter::local::{
    after_stack, constant_effect, is_constant_op, is_load_op, is_shuffle_op, is_store_op,
    loads_effect, locus_of, run_constant, run_loads, run_shuffle, run_stores, shuffle_effect,
    stores_effect, Locus, Outcome, RETURN_SLOTS,
};
use crate::runtime::interpreter::variable::Variable;
use vstd::prelude::*;

verus! {

/// What the instruction at `l.pc` does to the frame, and how it ends.
/// Unless it ends in [`Outcome::Step`], the program counter and the locals
/// stay as they are; an instruction that raises has taken its operands
/// from the stack.
pub open spec fn local_effect(code: Seq<u8>, l: Locus, wide: bool) -> (Outcome, Locus) {
    if l.pc < 0 || l.pc >= code.len() || l.stack.len() < RETURN_SLOTS {
        (Outcome::Malformed, l)
    } else {
        let op = code[l.pc];
        if op == inst::NOP || op == inst::WIDE {
            after_stack(l, l.stack, 1)
        } else if is_constant_op(op) {
            constant_effect(code, l)
        } else if is_load_op(op) {
            loads_effect(code, l, wide)
        } else if is_store_op(op) {
            stores_effect(code, l, wide)
        } else if is_shuffle_op(op) {
            shuffle_effect(code, l)
        } else if is_arithmetic_op(op) {
            arithmetic_effect(code, l)
        } else if op == inst::IINC {
            increment_effect(code, l, wide)
        } else if is_conversion_op(op) {
            conversion_effect(code, l)
        } else if op == inst::LCMP {
            long_order_effect(l)
        } else if is_branch_op(op) {
            branch_effect(code, l, wide)
        } else if op == inst::TABLESWITCH {
            table_switch_effect(code, l)
        } else if op == inst::LOOKUPSWITCH {
            lookup_switch_effect(code, l)
        } else if is_return_op(op) {
            return_effect(code, l)
        } else {
            (Outcome::Foreign, l)
        }
    }
}

/// Whether the `wide` prefix is in force behind the instruction at `l.pc`:
/// it is behind `wide` itself, and behind no other instruction that ran.
pub open spec fn wide_after(code: Seq<u8>, l: Locus, wide: bool) -> bool {
    if local_effect(code, l, wide).0 is Step {
        code[l.pc] == inst::WIDE
    } else {
        wide
    }
}

/// Runs the instruction at `pc` if it needs nothing but the frame.
pub fn step_local(
    code: &Vec<u8>,
    pc: &mut usize,
    stack: &mut Vec<Variable>,
    locals: &mut Vec<Variable>,
    wide: &mut bool,
) -> (outcome: Outcome)
    ensures
        (outcome, locus_of(*final(pc), *final(stack), *final(locals))) =~= local_effect(
            code@,
            locus_of(*old(pc), *old(stack), *old(locals)),
            *old(wide),
        ),
        *final(wide) == wide_after(
            code@,
            locus_of(*old(pc), *old(stack), *old(locals)),
            *old(wide),
        ),
{
    if *pc >= code.len() || stack.len() < RETURN_SLOTS {
        return Outcome::Malformed;
    }
    let op = code[*pc];
    let ghost before = locus_of(*pc, *stack, *locals);
    let outcome = if op == inst::NOP || op == inst::WIDE {
        *pc = *pc + 1;
        Outcome::Step
    } else if op >= inst::ACONST_NULL && op <= inst::SIPUSH {
        run_constant(code, pc, stack, locals)
    } else if op >= inst::ILOAD && op <= inst::ALOAD_3 {
        run_loads(code, pc, stack, locals, *wide)
    } else if op >= inst::ISTORE && op <= inst::ASTORE_3 {
        run_stores(code, pc, stack, locals, *wide)
    } else if op >= inst::POP && op <= inst::SWAP {
        let outcome = run_shuffle(code, pc, stack);
        assert((outcome, locus_of(*pc, *stack, *locals)) =~= shuffle_effect(code@, before));
        outcome
    } else if op >= inst::IADD && op <= inst::LXOR {
        let outcome = run_arithmetic(code, pc, stack);
        assert((outcome, locus_of(*pc, *stack, *locals)) =~= arithmetic_effect(code@, before));
        outcome
    } else if op == inst::IINC {
        let outcome = run_increment(code, pc, locals, *wide);
        assert((outcome, locus_of(*pc, *stack, *locals)) =~= increment_effect(
            code@,
            before,
            *wide,
        ));
        outcome
    } else if op >= inst::I2L && op <= inst::I2S {
        let outcome = run_conversion(code, pc, stack);
        assert((outcome, locus_of(*pc, *stack, *locals)) =~= conversion_effect(code@, before));
        outcome
    } else if op == inst::LCMP {
        let outcome = run_long_order(pc, stack);
        assert((outcome, locus_of(*pc, *stack, *locals)) =~= long_order_effect(before));
        outcome
    } else if (op >= inst::IFEQ && op <= inst::RET) || (op >= inst::IFNULL && op
        <= inst::JSR_W) {
        run_branch(code, pc, stack, locals, *wide)
    } else if op == inst::TABLESWITCH {
        let outcome = run_table_switch(code, pc, stack);
        assert((outcome, locus_of(*pc, *stack, *locals)) =~= table_switch_effect(code@, before));
        outcome
    } else if op == inst::LOOKUPSWITCH {
        let outcome = run_lookup_switch(code, pc, stack);
        assert((outcome, locus_of(*pc, *stack, *locals)) =~= lookup_switch_effect(
            code@,
            before,
        ));
        outcome
    } else if op >= inst::IRETURN && op <= inst::RETURN {
        let outcome = run_return(code, *pc, stack);
        assert((outcome, locus_of(*pc, *stack, *locals)) =~= return_effect(code@, before));
        outcome
    } else {
        Outcome::Foreign
    };
    if matches!(outcome, Outcome::Step) {
        *wide = op == inst::WIDE;
    }
    outcome
}

} // verus!

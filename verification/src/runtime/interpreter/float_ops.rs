//! The instructions that compute with floating-point numbers.
//!
//! The machine holds a float or a double as its bits and does not compute
//! with them. For such an instruction it hands out the bits of the operands
//! ([`float_operands`]) and takes back the bits of the result
//! ([`apply_float_result`]), which replaces the operands on the stack.

use crate::instructions as inst;
use crate::runtime::interpreter::local::{
    after_stack, depth, dropped, drop_slots, peek, push_bits, pushed_bits, top, Locus, Outcome,
    RETURN_SLOTS,
};
use crate::runtime::interpreter::variable::{lower_half, split_halves, Variable};
use vstd::prelude::*;

verus! {

/// The shape of a floating-point instruction: how many slots each operand
/// fills, how many operands there are and how many slots the result fills.
/// None for every other instruction.
pub open spec fn float_shape(op: u8) -> Option<(int, int, int)> {
    if op == inst::FADD || op == inst::FSUB || op == inst::FMUL || op == inst::FDIV || op
        == inst::FREM || op == inst::FCMPL || op == inst::FCMPG {
        Some((1, 2, 1))
    } else if op == inst::DADD || op == inst::DSUB || op == inst::DMUL || op == inst::DDIV || op
        == inst::DREM {
        Some((2, 2, 2))
    } else if op == inst::DCMPL || op == inst::DCMPG {
        Some((2, 2, 1))
    } else if op == inst::FNEG || op == inst::I2F || op == inst::F2I {
        Some((1, 1, 1))
    } else if op == inst::I2D || op == inst::F2L || op == inst::F2D {
        Some((1, 1, 2))
    } else if op == inst::L2F || op == inst::D2I || op == inst::D2F {
        Some((2, 1, 1))
    } else if op == inst::DNEG || op == inst::L2D || op == inst::D2L {
        Some((2, 1, 2))
    } else {
        None
    }
}

/// The shape of a floating-point instruction.
pub fn shape_of(op: u8) -> (shape: Option<(usize, usize, usize)>)
    ensures
        match shape {
            Some(shape) => float_shape(op) == Some((shape.0 as int, shape.1 as int, shape.2 as int)),
            None => float_shape(op).is_none(),
        },
{
    if op == inst::FADD || op == inst::FSUB || op == inst::FMUL || op == inst::FDIV || op
        == inst::FREM || op == inst::FCMPL || op == inst::FCMPG {
        Some((1, 2, 1))
    } else if op == inst::DADD || op == inst::DSUB || op == inst::DMUL || op == inst::DDIV || op
        == inst::DREM {
        Some((2, 2, 2))
    } else if op == inst::DCMPL || op == inst::DCMPG {
        Some((2, 2, 1))
    } else if op == inst::FNEG || op == inst::I2F || op == inst::F2I {
        Some((1, 1, 1))
    } else if op == inst::I2D || op == inst::F2L || op == inst::F2D {
        Some((1, 1, 2))
    } else if op == inst::L2F || op == inst::D2I || op == inst::D2F {
        Some((2, 1, 1))
    } else if op == inst::DNEG || op == inst::L2D || op == inst::D2L {
        Some((2, 1, 2))
    } else {
        None
    }
}

/// What a floating-point instruction is to compute: the instruction and
/// the bits of its operands. `second` is zero where there is one operand.
#[derive(Debug, Clone, Copy, PartialEq, Eq, Structural)]
pub struct FloatRequest {
    pub op: u8,
    pub first: u64,
    pub second: u64,
}

/// The bits of the operand of `slots` slots whose last slot is `k` below
/// the top.
pub open spec fn operand_bits(stack: Seq<Variable>, k: int, slots: int) -> u64 {
    if slots == 2 {
        Variable::bits_of(top(stack, k + 1), top(stack, k))
    } else {
        top(stack, k).bits as u64
    }
}

/// What the floating-point instruction at `pc` is to compute. None where
/// there is no such instruction at `pc`, or the stack holds too few
/// operands for it.
pub open spec fn float_request(code: Seq<u8>, pc: int, stack: Seq<Variable>) -> Option<
    FloatRequest,
> {
    if pc < 0 || pc >= code.len() {
        None
    } else {
        match float_shape(code[pc]) {
            None => None,
            Some((slots, operands, _)) => if depth(stack) < slots * operands {
                None
            } else if operands == 2 {
                Some(
                    FloatRequest {
                        op: code[pc],
                        first: operand_bits(stack, slots, slots),
                        second: operand_bits(stack, 0, slots),
                    },
                )
            } else {
                Some(FloatRequest { op: code[pc], first: operand_bits(stack, 0, slots), second: 0 })
            },
        }
    }
}

/// The bits of the operand of `slots` slots whose last slot is `k` below
/// the top.
fn read_operand(stack: &Vec<Variable>, k: usize, slots: usize) -> (bits: u64)
    requires
        slots == 1 || slots == 2,
        k + slots <= stack.len(),
    ensures
        bits == operand_bits(stack@, k as int, slots as int),
{
    if slots == 2 {
        Variable::get_double(peek(stack, k + 1), peek(stack, k))
    } else {
        peek(stack, k).get_float() as u64
    }
}

/// What the floating-point instruction at `pc` is to compute.
pub fn float_operands(code: &Vec<u8>, pc: usize, stack: &Vec<Variable>) -> (request: Option<
    FloatRequest,
>)
    ensures
        request == float_request(code@, pc as int, stack@),
{
    if pc >= code.len() {
        return None;
    }
    let op = code[pc];
    let (slots, operands, _) = match shape_of(op) {
        Some(shape) => shape,
        None => {
            return None;
        },
    };
    assert(slots * operands <= 4) by (nonlinear_arith)
        requires
            1 <= slots <= 2,
            1 <= operands <= 2,
    ;
    if stack.len() < RETURN_SLOTS || stack.len() - RETURN_SLOTS < slots * operands {
        return None;
    }
    if operands == 2 {
        Some(
            FloatRequest {
                op,
                first: read_operand(stack, slots, slots),
                second: read_operand(stack, 0, slots),
            },
        )
    } else {
        Some(FloatRequest { op, first: read_operand(stack, 0, slots), second: 0 })
    }
}

/// The stack with a result of `slots` slots on it: the lower 32 bits in
/// one slot, or all 64 in two, upper half first.
pub open spec fn with_result(stack: Seq<Variable>, slots: int, result: u64) -> Seq<Variable> {
    if slots == 2 {
        pushed_bits(stack, result)
    } else {
        stack.push(Variable { bits: lower_half(result) })
    }
}

/// What the floating-point instruction at `l.pc` does to the frame once
/// its result is known: the result replaces the operands, and the frame
/// goes on behind the instruction. Where there is no such instruction, or
/// too few operands, the frame stays as it is.
pub open spec fn float_result_effect(code: Seq<u8>, l: Locus, result: u64) -> (Outcome, Locus) {
    if float_request(code, l.pc, l.stack).is_none() {
        (Outcome::Malformed, l)
    } else {
        let shape = float_shape(code[l.pc])->Some_0;
        after_stack(l, with_result(dropped(l.stack, shape.0 * shape.1), shape.2, result), 1)
    }
}

/// Hands the result of the floating-point instruction at `pc` to the
/// frame.
pub fn apply_float_result(code: &Vec<u8>, pc: &mut usize, stack: &mut Vec<Variable>, result: u64) -> (outcome:
    Outcome)
    ensures
        (outcome, Locus { pc: *final(pc) as int, stack: final(stack)@, locals: Seq::empty() })
            == float_result_effect(
            code@,
            Locus { pc: *old(pc) as int, stack: old(stack)@, locals: Seq::empty() },
            result,
        ),
{
    if *pc >= code.len() || float_operands(code, *pc, stack).is_none() {
        return Outcome::Malformed;
    }
    let (slots, operands, result_slots) = match shape_of(code[*pc]) {
        Some(shape) => shape,
        None => {
            return Outcome::Malformed;
        },
    };
    assert(slots * operands <= 4) by (nonlinear_arith)
        requires
            1 <= slots <= 2,
            1 <= operands <= 2,
    ;
    drop_slots(stack, slots * operands);
    if result_slots == 2 {
        push_bits(stack, result);
    } else {
        let (_, lower) = split_halves(result);
        stack.push(Variable::from_float_bits(lower));
    }
    *pc = *pc + 1;
    Outcome::Step
}

} // verus!

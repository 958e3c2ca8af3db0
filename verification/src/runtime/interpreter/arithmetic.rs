//! Int and long arithmetic, the conversions among the integer types, and
//! `lcmp`.
//!
//! Sums, differences and products wrap silently. Division and remainder by
//! zero raise; the least int or long divided by -1 wraps to itself. Shifts
//! use the low five bits of the count for an int and the low six for a long.

use crate::instructions as inst;
use crate::bytes::{i16_at, i8_at, read_i16, read_i8, read_u16, read_u8, u16_at, u8_at};
use crate::runtime::interpreter::local::{after_stack, depth, drop_slots, dropped, long_top, peek, peek_long, push_long, pushed_long, top, Locus, Outcome, RETURN_SLOTS};
use crate::runtime::interpreter::variable::{
    signed32, signed64, to_signed32, to_signed64, to_unsigned32, to_unsigned64, unsigned32,
    unsigned64, Variable,
};
use crate::runtime::structs::exception::VmExceptionKind;
use vstd::prelude::*;
use vstd::wrapping::*;

verus! {

/// The quotient of `x` by `d`, rounded toward zero; `d` is not 0.
pub open spec fn truncated_quotient(x: int, d: int) -> int {
    if x >= 0 && d > 0 {
        x / d
    } else if x < 0 && d < 0 {
        (-x) / (-d)
    } else if x < 0 {
        -((-x) / d)
    } else {
        -(x / (-d))
    }
}

/// The remainder that goes with [`truncated_quotient`]: it has the sign of
/// `x`.
pub open spec fn truncated_remainder(x: int, d: int) -> int {
    if x >= 0 && d > 0 {
        x % d
    } else if x < 0 && d < 0 {
        -((-x) % (-d))
    } else if x < 0 {
        -((-x) % d)
    } else {
        x % (-d)
    }
}

/// Int division: by zero it raises; the one quotient that does not fit,
/// the least int by -1, wraps to the least int.
pub open spec fn int_quotient(v1: i32, v2: i32) -> Option<i32> {
    if v2 == 0 {
        None
    } else if v1 == i32::MIN && v2 == -1 {
        Some(i32::MIN)
    } else {
        Some(truncated_quotient(v1 as int, v2 as int) as i32)
    }
}

pub open spec fn int_remainder(v1: i32, v2: i32) -> Option<i32> {
    if v2 == 0 {
        None
    } else if v1 == i32::MIN && v2 == -1 {
        Some(0)
    } else {
        Some(truncated_remainder(v1 as int, v2 as int) as i32)
    }
}

pub open spec fn long_quotient(v1: i64, v2: i64) -> Option<i64> {
    if v2 == 0 {
        None
    } else if v1 == i64::MIN && v2 == -1 {
        Some(i64::MIN)
    } else {
        Some(truncated_quotient(v1 as int, v2 as int) as i64)
    }
}

pub open spec fn long_remainder(v1: i64, v2: i64) -> Option<i64> {
    if v2 == 0 {
        None
    } else if v1 == i64::MIN && v2 == -1 {
        Some(0)
    } else {
        Some(truncated_remainder(v1 as int, v2 as int) as i64)
    }
}

/// A quotient rounded toward zero is no larger in size than the dividend.
pub proof fn lemma_quotient_bounds(x: int, d: int)
    requires
        d != 0,
    ensures
        x >= 0 ==> -x <= truncated_quotient(x, d) <= x,
        x < 0 ==> x <= truncated_quotient(x, d) <= -x,
        !(d == -1) && x < 0 ==> truncated_quotient(x, d) < -x,
        x >= 0 ==> 0 <= truncated_remainder(x, d) <= x,
        x < 0 ==> x <= truncated_remainder(x, d) <= 0,
{
    let ax = if x >= 0 { x } else { -x };
    let ad = if d > 0 { d } else { -d };
    vstd::arithmetic::div_mod::lemma_div_pos_is_pos(ax, ad);
    vstd::arithmetic::div_mod::lemma_div_is_ordered_by_denominator(ax, 1, ad);
    vstd::arithmetic::div_mod::lemma_div_basics(ax);
    vstd::arithmetic::div_mod::lemma_mod_bound(ax, ad);
    vstd::arithmetic::div_mod::lemma_fundamental_div_mod(ax, ad);
    if ad >= 2 && ax > 0 {
        vstd::arithmetic::div_mod::lemma_div_decreases(ax, ad);
    }
    assert(ad * (ax / ad) >= 0) by (nonlinear_arith)
        requires
            ad > 0,
            ax / ad >= 0,
    ;
}

pub fn divide_int(v1: i32, v2: i32) -> (q: Option<i32>)
    ensures
        q == int_quotient(v1, v2),
{
    if v2 == 0 {
        None
    } else if v1 == i32::MIN && v2 == -1 {
        Some(i32::MIN)
    } else {
        proof {
            lemma_quotient_bounds(v1 as int, v2 as int);
        }
        v1.checked_div(v2)
    }
}

pub fn remainder_int(v1: i32, v2: i32) -> (r: Option<i32>)
    ensures
        r == int_remainder(v1, v2),
{
    if v2 == 0 {
        None
    } else if v1 == i32::MIN && v2 == -1 {
        Some(0)
    } else {
        proof {
            lemma_quotient_bounds(v1 as int, v2 as int);
        }
        v1.checked_rem(v2)
    }
}

pub fn divide_long(v1: i64, v2: i64) -> (q: Option<i64>)
    ensures
        q == long_quotient(v1, v2),
{
    if v2 == 0 {
        None
    } else if v1 == i64::MIN && v2 == -1 {
        Some(i64::MIN)
    } else {
        proof {
            lemma_quotient_bounds(v1 as int, v2 as int);
        }
        v1.checked_div(v2)
    }
}

pub fn remainder_long(v1: i64, v2: i64) -> (r: Option<i64>)
    ensures
        r == long_remainder(v1, v2),
{
    if v2 == 0 {
        None
    } else if v1 == i64::MIN && v2 == -1 {
        Some(0)
    } else {
        proof {
            lemma_quotient_bounds(v1 as int, v2 as int);
        }
        v1.checked_rem(v2)
    }
}

pub open spec fn is_int_binary_op(op: u8) -> bool {
    op == inst::IADD || op == inst::ISUB || op == inst::IMUL || op == inst::IDIV || op
        == inst::IREM || op == inst::ISHL || op == inst::ISHR || op == inst::IUSHR || op
        == inst::IAND || op == inst::IOR || op == inst::IXOR
}

pub open spec fn is_long_binary_op(op: u8) -> bool {
    op == inst::LADD || op == inst::LSUB || op == inst::LMUL || op == inst::LDIV || op
        == inst::LREM || op == inst::LAND || op == inst::LOR || op == inst::LXOR
}

pub open spec fn is_long_shift_op(op: u8) -> bool {
    op == inst::LSHL || op == inst::LSHR || op == inst::LUSHR
}

/// What an int instruction makes of `v1` and `v2`, the deeper operand
/// first; none where it raises. Sums, differences and products wrap;
/// shifts use the low five bits of the count.
pub open spec fn int_binary(op: u8, v1: i32, v2: i32) -> Option<i32> {
    if op == inst::IADD {
        Some(i32_specs::wrapping_add(v1, v2))
    } else if op == inst::ISUB {
        Some(i32_specs::wrapping_sub(v1, v2))
    } else if op == inst::IMUL {
        Some(i32_specs::wrapping_mul(v1, v2))
    } else if op == inst::IDIV {
        int_quotient(v1, v2)
    } else if op == inst::IREM {
        int_remainder(v1, v2)
    } else if op == inst::ISHL {
        Some(i32_specs::wrapping_shl(v1, unsigned32(v2)))
    } else if op == inst::ISHR {
        Some(i32_specs::wrapping_shr(v1, unsigned32(v2)))
    } else if op == inst::IUSHR {
        Some(signed32(u32_specs::wrapping_shr(unsigned32(v1), unsigned32(v2))))
    } else if op == inst::IAND {
        Some(v1 & v2)
    } else if op == inst::IOR {
        Some(v1 | v2)
    } else {
        Some(v1 ^ v2)
    }
}

/// What a long instruction makes of `v1` and `v2`, the deeper operand
/// first; none where it raises.
pub open spec fn long_binary(op: u8, v1: i64, v2: i64) -> Option<i64> {
    if op == inst::LADD {
        Some(i64_specs::wrapping_add(v1, v2))
    } else if op == inst::LSUB {
        Some(i64_specs::wrapping_sub(v1, v2))
    } else if op == inst::LMUL {
        Some(i64_specs::wrapping_mul(v1, v2))
    } else if op == inst::LDIV {
        long_quotient(v1, v2)
    } else if op == inst::LREM {
        long_remainder(v1, v2)
    } else if op == inst::LAND {
        Some(v1 & v2)
    } else if op == inst::LOR {
        Some(v1 | v2)
    } else {
        Some(v1 ^ v2)
    }
}

/// A long shifted by an int count, of which the low six bits are used.
pub open spec fn long_shift(op: u8, v1: i64, v2: i32) -> i64 {
    if op == inst::LSHL {
        i64_specs::wrapping_shl(v1, unsigned32(v2))
    } else if op == inst::LSHR {
        i64_specs::wrapping_shr(v1, unsigned32(v2))
    } else {
        signed64(u64_specs::wrapping_shr(unsigned64(v1), unsigned32(v2)))
    }
}

pub open spec fn is_arithmetic_op(op: u8) -> bool {
    inst::IADD <= op <= inst::LXOR
}

/// The arithmetic instructions on ints and longs. Those on floats and
/// doubles are not done here. A division by zero takes its operands from
/// the stack and raises `ArithmeticException`.
pub open spec fn arithmetic_effect(code: Seq<u8>, l: Locus) -> (Outcome, Locus) {
    let op = code[l.pc];
    let s = l.stack;
    if is_int_binary_op(op) {
        if depth(s) >= 2 {
            match int_binary(op, top(s, 1).as_int(), top(s, 0).as_int()) {
                Some(r) => after_stack(l, dropped(s, 2).push(Variable::of_int(r)), 1),
                None => (
                    Outcome::Throw(VmExceptionKind::Arithmetic),
                    Locus { stack: dropped(s, 2), ..l },
                ),
            }
        } else {
            (Outcome::Malformed, l)
        }
    } else if is_long_binary_op(op) {
        if depth(s) >= 4 {
            match long_binary(op, long_top(s, 2), long_top(s, 0)) {
                Some(r) => after_stack(l, pushed_long(dropped(s, 4), r), 1),
                None => (
                    Outcome::Throw(VmExceptionKind::Arithmetic),
                    Locus { stack: dropped(s, 4), ..l },
                ),
            }
        } else {
            (Outcome::Malformed, l)
        }
    } else if is_long_shift_op(op) {
        if depth(s) >= 3 {
            after_stack(
                l,
                pushed_long(dropped(s, 3), long_shift(op, long_top(s, 1), top(s, 0).as_int())),
                1,
            )
        } else {
            (Outcome::Malformed, l)
        }
    } else if op == inst::INEG {
        if depth(s) >= 1 {
            after_stack(
                l,
                dropped(s, 1).push(Variable::of_int(i32_specs::wrapping_sub(0, top(s, 0).as_int()))),
                1,
            )
        } else {
            (Outcome::Malformed, l)
        }
    } else if op == inst::LNEG {
        if depth(s) >= 2 {
            after_stack(l, pushed_long(dropped(s, 2), i64_specs::wrapping_sub(0, long_top(s, 0))), 1)
        } else {
            (Outcome::Malformed, l)
        }
    } else {
        (Outcome::Foreign, l)
    }
}

fn compute_int_binary(op: u8, v1: i32, v2: i32) -> (r: Option<i32>)
    requires
        is_int_binary_op(op),
    ensures
        r == int_binary(op, v1, v2),
{
    if op == inst::IADD {
        Some(v1.wrapping_add(v2))
    } else if op == inst::ISUB {
        Some(v1.wrapping_sub(v2))
    } else if op == inst::IMUL {
        Some(v1.wrapping_mul(v2))
    } else if op == inst::IDIV {
        divide_int(v1, v2)
    } else if op == inst::IREM {
        remainder_int(v1, v2)
    } else if op == inst::ISHL {
        Some(v1.wrapping_shl(to_unsigned32(v2)))
    } else if op == inst::ISHR {
        Some(v1.wrapping_shr(to_unsigned32(v2)))
    } else if op == inst::IUSHR {
        Some(to_signed32(to_unsigned32(v1).wrapping_shr(to_unsigned32(v2))))
    } else if op == inst::IAND {
        Some(v1 & v2)
    } else if op == inst::IOR {
        Some(v1 | v2)
    } else {
        Some(v1 ^ v2)
    }
}

fn compute_long_binary(op: u8, v1: i64, v2: i64) -> (r: Option<i64>)
    requires
        is_long_binary_op(op),
    ensures
        r == long_binary(op, v1, v2),
{
    if op == inst::LADD {
        Some(v1.wrapping_add(v2))
    } else if op == inst::LSUB {
        Some(v1.wrapping_sub(v2))
    } else if op == inst::LMUL {
        Some(v1.wrapping_mul(v2))
    } else if op == inst::LDIV {
        divide_long(v1, v2)
    } else if op == inst::LREM {
        remainder_long(v1, v2)
    } else if op == inst::LAND {
        Some(v1 & v2)
    } else if op == inst::LOR {
        Some(v1 | v2)
    } else {
        Some(v1 ^ v2)
    }
}

fn compute_long_shift(op: u8, v1: i64, v2: i32) -> (r: i64)
    requires
        is_long_shift_op(op),
    ensures
        r == long_shift(op, v1, v2),
{
    if op == inst::LSHL {
        v1.wrapping_shl(to_unsigned32(v2))
    } else if op == inst::LSHR {
        v1.wrapping_shr(to_unsigned32(v2))
    } else {
        to_signed64(to_unsigned64(v1).wrapping_shr(to_unsigned32(v2)))
    }
}

pub fn run_arithmetic(code: &Vec<u8>, pc: &mut usize, stack: &mut Vec<Variable>) -> (outcome:
    Outcome)
    requires
        *old(pc) < code.len(),
        is_arithmetic_op(code[*old(pc) as int]),
    ensures
        forall|locals: Seq<Variable>|
            (outcome, Locus { pc: *final(pc) as int, stack: final(stack)@, locals })
                =~= #[trigger] arithmetic_effect(
                code@,
                Locus { pc: *old(pc) as int, stack: old(stack)@, locals },
            ),
{
    let op = code[*pc];
    let is_int_binary = op == inst::IADD || op == inst::ISUB || op == inst::IMUL || op
        == inst::IDIV || op == inst::IREM || op == inst::ISHL || op == inst::ISHR || op
        == inst::IUSHR || op == inst::IAND || op == inst::IOR || op == inst::IXOR;
    let is_long_binary = op == inst::LADD || op == inst::LSUB || op == inst::LMUL || op
        == inst::LDIV || op == inst::LREM || op == inst::LAND || op == inst::LOR || op
        == inst::LXOR;
    let is_long_shift = op == inst::LSHL || op == inst::LSHR || op == inst::LUSHR;
    if is_int_binary {
        if stack.len() < RETURN_SLOTS + 2 {
            return Outcome::Malformed;
        }
        match compute_int_binary(op, peek(stack, 1).get_int(), peek(stack, 0).get_int()) {
            Some(r) => {
                drop_slots(stack, 2);
                stack.push(Variable::from_int(r));
            },
            None => {
                drop_slots(stack, 2);
                return Outcome::Throw(VmExceptionKind::Arithmetic);
            },
        }
    } else if is_long_binary {
        if stack.len() < RETURN_SLOTS + 4 {
            return Outcome::Malformed;
        }
        match compute_long_binary(op, peek_long(stack, 2), peek_long(stack, 0)) {
            Some(r) => {
                drop_slots(stack, 4);
                push_long(stack, r);
            },
            None => {
                drop_slots(stack, 4);
                return Outcome::Throw(VmExceptionKind::Arithmetic);
            },
        }
    } else if is_long_shift {
        if stack.len() < RETURN_SLOTS + 3 {
            return Outcome::Malformed;
        }
        let r = compute_long_shift(op, peek_long(stack, 1), peek(stack, 0).get_int());
        drop_slots(stack, 3);
        push_long(stack, r);
    } else if op == inst::INEG {
        if stack.len() < RETURN_SLOTS + 1 {
            return Outcome::Malformed;
        }
        let v = peek(stack, 0).get_int();
        drop_slots(stack, 1);
        stack.push(Variable::from_int(0i32.wrapping_sub(v)));
    } else if op == inst::LNEG {
        if stack.len() < RETURN_SLOTS + 2 {
            return Outcome::Malformed;
        }
        let v = peek_long(stack, 0);
        drop_slots(stack, 2);
        push_long(stack, 0i64.wrapping_sub(v));
    } else {
        return Outcome::Foreign;
    }
    *pc = *pc + 1;
    Outcome::Step
}

/// The operands of `iinc` and the instruction's length: the index of a
/// local and a signed constant, each one byte, or two behind `wide`.
pub open spec fn increment_operands(code: Seq<u8>, pc: int, wide: bool) -> Option<
    (int, int, int),
> {
    if wide {
        if pc + 4 < code.len() {
            Some((u16_at(code, pc + 1), i16_at(code, pc + 3), 5))
        } else {
            None
        }
    } else {
        if pc + 2 < code.len() {
            Some((u8_at(code, pc + 1), i8_at(code, pc + 2), 3))
        } else {
            None
        }
    }
}

/// `iinc`: adds a constant to an int local; the sum wraps.
pub open spec fn increment_effect(code: Seq<u8>, l: Locus, wide: bool) -> (Outcome, Locus) {
    match increment_operands(code, l.pc, wide) {
        Some((n, constant, length)) => {
            if n < l.locals.len() {
                (
                    Outcome::Step,
                    Locus {
                        pc: l.pc + length,
                        locals: l.locals.update(
                            n,
                            Variable::of_int(
                                i32_specs::wrapping_add(l.locals[n].as_int(), constant as i32),
                            ),
                        ),
                        ..l
                    },
                )
            } else {
                (Outcome::Malformed, l)
            }
        },
        None => (Outcome::Malformed, l),
    }
}

pub fn run_increment(code: &Vec<u8>, pc: &mut usize, locals: &mut Vec<Variable>, wide: bool) -> (outcome:
    Outcome)
    requires
        *old(pc) < code.len(),
    ensures
        forall|stack: Seq<Variable>|
            (outcome, Locus { pc: *final(pc) as int, stack, locals: final(locals)@ })
                =~= #[trigger] increment_effect(
                code@,
                Locus { pc: *old(pc) as int, stack, locals: old(locals)@ },
                wide,
            ),
{
    let (n, constant, length): (usize, i32, usize) = if wide {
        if code.len() - *pc < 5 {
            return Outcome::Malformed;
        }
        (read_u16(code, *pc + 1) as usize, read_i16(code, *pc + 3), 5)
    } else {
        if code.len() - *pc < 3 {
            return Outcome::Malformed;
        }
        (read_u8(code, *pc + 1) as usize, read_i8(code, *pc + 2), 3)
    };
    if n >= locals.len() {
        return Outcome::Malformed;
    }
    let sum = locals[n].get_int().wrapping_add(constant);
    locals.set(n, Variable::from_int(sum));
    *pc = *pc + length;
    Outcome::Step
}

pub open spec fn is_conversion_op(op: u8) -> bool {
    inst::I2L <= op <= inst::I2S
}

/// The int that keeps the low bits of `value` below `modulus` and reads
/// them as a signed number.
pub open spec fn narrowed(value: i32, modulus: int) -> int {
    if (unsigned32(value) as int) % modulus >= modulus / 2 {
        (unsigned32(value) as int) % modulus - modulus
    } else {
        (unsigned32(value) as int) % modulus
    }
}

/// The conversions among int, long, byte, char and short. Those to and from
/// float and double are not done here.
pub open spec fn conversion_effect(code: Seq<u8>, l: Locus) -> (Outcome, Locus) {
    let op = code[l.pc];
    let s = l.stack;
    if op == inst::I2L {
        if depth(s) >= 1 {
            after_stack(l, pushed_long(dropped(s, 1), top(s, 0).as_int() as i64), 1)
        } else {
            (Outcome::Malformed, l)
        }
    } else if op == inst::L2I {
        if depth(s) >= 2 {
            after_stack(l, dropped(s, 2).push(top(s, 0)), 1)
        } else {
            (Outcome::Malformed, l)
        }
    } else if op == inst::I2B || op == inst::I2C || op == inst::I2S {
        if depth(s) >= 1 {
            let v = top(s, 0).as_int();
            let r = if op == inst::I2B {
                narrowed(v, 256)
            } else if op == inst::I2C {
                (unsigned32(v) as int) % 65536
            } else {
                narrowed(v, 65536)
            };
            after_stack(l, dropped(s, 1).push(Variable::of_int(r as i32)), 1)
        } else {
            (Outcome::Malformed, l)
        }
    } else {
        (Outcome::Foreign, l)
    }
}

pub fn run_conversion(code: &Vec<u8>, pc: &mut usize, stack: &mut Vec<Variable>) -> (outcome:
    Outcome)
    requires
        *old(pc) < code.len(),
        is_conversion_op(code[*old(pc) as int]),
    ensures
        forall|locals: Seq<Variable>|
            (outcome, Locus { pc: *final(pc) as int, stack: final(stack)@, locals })
                =~= #[trigger] conversion_effect(
                code@,
                Locus { pc: *old(pc) as int, stack: old(stack)@, locals },
            ),
{
    let op = code[*pc];
    if op == inst::I2L {
        if stack.len() < RETURN_SLOTS + 1 {
            return Outcome::Malformed;
        }
        let v = peek(stack, 0).get_int();
        drop_slots(stack, 1);
        push_long(stack, v as i64);
    } else if op == inst::L2I {
        if stack.len() < RETURN_SLOTS + 2 {
            return Outcome::Malformed;
        }
        let lower = peek(stack, 0);
        drop_slots(stack, 2);
        stack.push(lower);
    } else if op == inst::I2B || op == inst::I2C || op == inst::I2S {
        if stack.len() < RETURN_SLOTS + 1 {
            return Outcome::Malformed;
        }
        let bits = to_unsigned32(peek(stack, 0).get_int());
        let r: i32 = if op == inst::I2B {
            let low = bits % 256;
            if low >= 128 {
                low as i32 - 256
            } else {
                low as i32
            }
        } else if op == inst::I2C {
            (bits % 65536) as i32
        } else {
            let low = bits % 65536;
            if low >= 32768 {
                low as i32 - 65536
            } else {
                low as i32
            }
        };
        drop_slots(stack, 1);
        stack.push(Variable::from_int(r));
    } else {
        return Outcome::Foreign;
    }
    *pc = *pc + 1;
    Outcome::Step
}

/// -1, 0 or 1 as `v1` is less than, equal to or greater than `v2`.
pub open spec fn sign_of_difference(v1: int, v2: int) -> int {
    if v1 < v2 {
        -1
    } else if v1 == v2 {
        0
    } else {
        1
    }
}

/// `lcmp`.
pub open spec fn long_order_effect(l: Locus) -> (Outcome, Locus) {
    let s = l.stack;
    if depth(s) >= 4 {
        after_stack(
            l,
            dropped(s, 4).push(
                Variable::of_int(
                    sign_of_difference(long_top(s, 2) as int, long_top(s, 0) as int) as i32,
                ),
            ),
            1,
        )
    } else {
        (Outcome::Malformed, l)
    }
}

pub fn run_long_order(pc: &mut usize, stack: &mut Vec<Variable>) -> (outcome: Outcome)
    requires
        *old(pc) < usize::MAX,
    ensures
        forall|locals: Seq<Variable>|
            (outcome, Locus { pc: *final(pc) as int, stack: final(stack)@, locals })
                =~= #[trigger] long_order_effect(
                Locus { pc: *old(pc) as int, stack: old(stack)@, locals },
            ),
{
    if stack.len() < RETURN_SLOTS + 4 {
        return Outcome::Malformed;
    }
    let v1 = peek_long(stack, 2);
    let v2 = peek_long(stack, 0);
    let r: i32 = if v1 < v2 {
        -1
    } else if v1 == v2 {
        0
    } else {
        1
    };
    drop_slots(stack, 4);
    stack.push(Variable::from_int(r));
    *pc = *pc + 1;
    Outcome::Step
}

} // verus!

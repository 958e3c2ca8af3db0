//! Branches, switches and returns.
//!
//! A branch offset counts from the branch instruction itself. A target
//! outside the method's code is malformed.

use crate::instructions as inst;
use crate::bytes::{i16_at, i32_at, read_i16, read_i32};
use crate::runtime::interpreter::local::{after_stack, depth, drop_slots, dropped, index_operand, locus_of, peek, read_index, top, Locus, Outcome, RETURN_SLOTS};
use crate::runtime::interpreter::variable::{join, Variable};
use vstd::prelude::*;

verus! {

pub open spec fn is_branch_op(op: u8) -> bool {
    inst::IFEQ <= op <= inst::RET || inst::IFNULL <= op <= inst::JSR_W
}

/// In the order eq, ne, lt, ge, gt, le: whether `v1` stands to `v2` as the
/// condition asks.
pub open spec fn int_condition(k: int, v1: int, v2: int) -> bool {
    if k == 0 {
        v1 == v2
    } else if k == 1 {
        v1 != v2
    } else if k == 2 {
        v1 < v2
    } else if k == 3 {
        v1 >= v2
    } else if k == 4 {
        v1 > v2
    } else {
        v1 <= v2
    }
}

/// Going on at `offset` from the current instruction, with `stack`. A target
/// outside the code is malformed.
pub open spec fn jump(code: Seq<u8>, l: Locus, stack: Seq<Variable>, offset: int) -> (
    Outcome,
    Locus,
) {
    if 0 <= l.pc + offset < code.len() {
        (Outcome::Step, Locus { pc: l.pc + offset, stack, ..l })
    } else {
        (Outcome::Malformed, l)
    }
}

/// Going on at the branch target if `taken`, else behind the three bytes of
/// the branch, with `stack`.
pub open spec fn branch(code: Seq<u8>, l: Locus, stack: Seq<Variable>, taken: bool) -> (
    Outcome,
    Locus,
) {
    if taken {
        jump(code, l, stack, i16_at(code, l.pc + 1))
    } else {
        after_stack(l, stack, 3)
    }
}

/// The conditional branches, `goto`, `goto_w`, `jsr`, `jsr_w` and `ret`.
/// `jsr` pushes the address of the instruction behind it, and `ret` goes on
/// at the address in a local.
pub open spec fn branch_effect(code: Seq<u8>, l: Locus, wide: bool) -> (Outcome, Locus) {
    let op = code[l.pc];
    let s = l.stack;
    if op == inst::RET {
        match index_operand(code, l.pc, wide) {
            Some((n, length)) => {
                if n < l.locals.len() && l.locals[n].bits < code.len() {
                    (Outcome::Step, Locus { pc: l.locals[n].bits as int, ..l })
                } else {
                    (Outcome::Malformed, l)
                }
            },
            None => (Outcome::Malformed, l),
        }
    } else if op == inst::GOTO_W || op == inst::JSR_W {
        if l.pc + 4 < code.len() {
            if op == inst::GOTO_W {
                jump(code, l, s, i32_at(code, l.pc + 1))
            } else if l.pc + 5 <= u32::MAX {
                jump(code, l, s.push(Variable::of_bits((l.pc + 5) as u32)), i32_at(code, l.pc + 1))
            } else {
                (Outcome::Malformed, l)
            }
        } else {
            (Outcome::Malformed, l)
        }
    } else if l.pc + 2 >= code.len() {
        (Outcome::Malformed, l)
    } else if op == inst::GOTO {
        jump(code, l, s, i16_at(code, l.pc + 1))
    } else if op == inst::JSR {
        if l.pc + 3 <= u32::MAX {
            jump(code, l, s.push(Variable::of_bits((l.pc + 3) as u32)), i16_at(code, l.pc + 1))
        } else {
            (Outcome::Malformed, l)
        }
    } else if op <= inst::IFLE {
        if depth(s) >= 1 {
            branch(code, l, dropped(s, 1), int_condition(op - inst::IFEQ, top(s, 0).as_int() as int, 0))
        } else {
            (Outcome::Malformed, l)
        }
    } else if op <= inst::IF_ICMPLE {
        if depth(s) >= 2 {
            branch(
                code,
                l,
                dropped(s, 2),
                int_condition(
                    op - inst::IF_ICMPEQ,
                    top(s, 1).as_int() as int,
                    top(s, 0).as_int() as int,
                ),
            )
        } else {
            (Outcome::Malformed, l)
        }
    } else if op == inst::IF_ACMPEQ || op == inst::IF_ACMPNE {
        if depth(s) >= 2 {
            branch(
                code,
                l,
                dropped(s, 2),
                (top(s, 1).bits == top(s, 0).bits) == (op == inst::IF_ACMPEQ),
            )
        } else {
            (Outcome::Malformed, l)
        }
    } else {
        if depth(s) >= 1 {
            branch(code, l, dropped(s, 1), (top(s, 0).bits == 0) == (op == inst::IFNULL))
        } else {
            (Outcome::Malformed, l)
        }
    }
}

/// The index `offset` away from `pc`, where it lies inside code of `len`
/// bytes.
pub fn target_of(pc: usize, offset: i32, len: usize) -> (target: Option<usize>)
    requires
        pc < len,
    ensures
        match target {
            Some(t) => t == pc + offset && 0 <= pc + offset < len,
            None => !(0 <= pc + offset < len),
        },
{
    if offset >= 0 {
        let forward = offset as usize;
        if forward < len - pc {
            Some(pc + forward)
        } else {
            None
        }
    } else {
        let back: u32 = if offset == i32::MIN {
            0x8000_0000
        } else {
            (-offset) as u32
        };
        let back = back as usize;
        if back <= pc {
            Some(pc - back)
        } else {
            None
        }
    }
}

fn evaluate_condition(k: u8, v1: i32, v2: i32) -> (holds: bool)
    ensures
        holds == int_condition(k as int, v1 as int, v2 as int),
{
    if k == 0 {
        v1 == v2
    } else if k == 1 {
        v1 != v2
    } else if k == 2 {
        v1 < v2
    } else if k == 3 {
        v1 >= v2
    } else if k == 4 {
        v1 > v2
    } else {
        v1 <= v2
    }
}

pub fn run_branch(
    code: &Vec<u8>,
    pc: &mut usize,
    stack: &mut Vec<Variable>,
    locals: &Vec<Variable>,
    wide: bool,
) -> (outcome: Outcome)
    requires
        *old(pc) < code.len(),
        is_branch_op(code[*old(pc) as int]),
    ensures
        (outcome, locus_of(*final(pc), *final(stack), *locals)) =~= branch_effect(
            code@,
            locus_of(*old(pc), *old(stack), *locals),
            wide,
        ),
{
    let op = code[*pc];
    let len = code.len();
    if op == inst::RET {
        match read_index(code, *pc, wide) {
            Some((n, length)) => {
                if n < locals.len() && (locals[n].get_return_address() as usize) < len
                    && locals[n].get_return_address() as usize as u32
                    == locals[n].get_return_address() {
                    *pc = locals[n].get_return_address() as usize;
                    return Outcome::Step;
                }
                return Outcome::Malformed;
            },
            None => {
                return Outcome::Malformed;
            },
        }
    }
    if op == inst::GOTO_W || op == inst::JSR_W {
        if len - *pc < 5 {
            return Outcome::Malformed;
        }
        let offset = read_i32(code, *pc + 1);
        if op == inst::JSR_W && *pc > 0xffff_fffa {
            return Outcome::Malformed;
        }
        match target_of(*pc, offset, len) {
            Some(target) => {
                if op == inst::JSR_W {
                    stack.push(Variable::from_return_address((*pc + 5) as u32));
                }
                *pc = target;
                return Outcome::Step;
            },
            None => {
                return Outcome::Malformed;
            },
        }
    }
    if len - *pc < 3 {
        return Outcome::Malformed;
    }
    let offset = read_i16(code, *pc + 1);
    if op == inst::GOTO || op == inst::JSR {
        if op == inst::JSR && *pc > 0xffff_fffc {
            return Outcome::Malformed;
        }
        match target_of(*pc, offset, len) {
            Some(target) => {
                if op == inst::JSR {
                    stack.push(Variable::from_return_address((*pc + 3) as u32));
                }
                *pc = target;
                return Outcome::Step;
            },
            None => {
                return Outcome::Malformed;
            },
        }
    }
    let need: usize = if op <= inst::IFLE {
        1
    } else if op <= inst::IF_ACMPNE {
        2
    } else {
        1
    };
    if stack.len() < RETURN_SLOTS + need {
        return Outcome::Malformed;
    }
    let taken = if op <= inst::IFLE {
        evaluate_condition(op - inst::IFEQ, peek(stack, 0).get_int(), 0)
    } else if op <= inst::IF_ICMPLE {
        evaluate_condition(
            op - inst::IF_ICMPEQ,
            peek(stack, 1).get_int(),
            peek(stack, 0).get_int(),
        )
    } else if op == inst::IF_ACMPEQ || op == inst::IF_ACMPNE {
        (peek(stack, 1).get_reference() == peek(stack, 0).get_reference()) == (op
            == inst::IF_ACMPEQ)
    } else {
        (peek(stack, 0).get_reference() == 0) == (op == inst::IFNULL)
    };
    if taken {
        match target_of(*pc, offset, len) {
            Some(target) => {
                drop_slots(stack, need);
                *pc = target;
                Outcome::Step
            },
            None => Outcome::Malformed,
        }
    } else {
        drop_slots(stack, need);
        *pc = *pc + 3;
        Outcome::Step
    }
}

/// The first index behind `pc` that is a multiple of four: where the
/// operands of a switch start.
pub open spec fn aligned(pc: int) -> int {
    (pc / 4 + 1) * 4
}

/// The offset that goes with the first of `pairs` pairs of key and offset
/// at `at` whose key is `key`.
pub open spec fn matching_offset(code: Seq<u8>, at: int, pairs: int, key: int) -> Option<int>
    decreases pairs,
{
    if pairs <= 0 {
        None
    } else if i32_at(code, at) == key {
        Some(i32_at(code, at + 4))
    } else {
        matching_offset(code, at + 8, pairs - 1, key)
    }
}

/// `tableswitch`: behind the padding stand the default offset, the lowest
/// and the highest key, and one offset for each key between them.
pub open spec fn table_switch_effect(code: Seq<u8>, l: Locus) -> (Outcome, Locus) {
    let at = aligned(l.pc);
    if at + 12 <= code.len() && depth(l.stack) >= 1 {
        let low = i32_at(code, at + 4);
        let high = i32_at(code, at + 8);
        let key = top(l.stack, 0).as_int();
        if key < low || key > high {
            jump(code, l, dropped(l.stack, 1), i32_at(code, at))
        } else if at + 12 + 4 * (key - low) + 4 <= code.len() {
            jump(code, l, dropped(l.stack, 1), i32_at(code, at + 12 + 4 * (key - low)))
        } else {
            (Outcome::Malformed, l)
        }
    } else {
        (Outcome::Malformed, l)
    }
}

/// `lookupswitch`: behind the padding stand the default offset, the number
/// of pairs, and the pairs of key and offset.
pub open spec fn lookup_switch_effect(code: Seq<u8>, l: Locus) -> (Outcome, Locus) {
    let at = aligned(l.pc);
    if at + 8 <= code.len() && depth(l.stack) >= 1 {
        let pairs = i32_at(code, at + 4);
        if 0 <= pairs && at + 8 + 8 * pairs <= code.len() {
            match matching_offset(code, at + 8, pairs, top(l.stack, 0).as_int() as int) {
                Some(offset) => jump(code, l, dropped(l.stack, 1), offset),
                None => jump(code, l, dropped(l.stack, 1), i32_at(code, at)),
            }
        } else {
            (Outcome::Malformed, l)
        }
    } else {
        (Outcome::Malformed, l)
    }
}

fn finish_jump(pc: &mut usize, stack: &mut Vec<Variable>, offset: i32, len: usize) -> (outcome:
    Outcome)
    requires
        *old(pc) < len,
        old(stack).len() >= 1,
    ensures
        match outcome {
            Outcome::Step => *final(pc) == *old(pc) + offset && 0 <= *old(pc) + offset < len
                && final(stack)@ =~= dropped(old(stack)@, 1),
            Outcome::Malformed => !(0 <= *old(pc) + offset < len) && *final(pc) == *old(pc)
                && final(stack)@ =~= old(stack)@,
            _ => false,
        },
{
    match target_of(*pc, offset, len) {
        Some(target) => {
            drop_slots(stack, 1);
            *pc = target;
            Outcome::Step
        },
        None => Outcome::Malformed,
    }
}

pub fn run_table_switch(code: &Vec<u8>, pc: &mut usize, stack: &mut Vec<Variable>) -> (outcome:
    Outcome)
    requires
        *old(pc) < code.len(),
    ensures
        forall|locals: Seq<Variable>|
            (outcome, Locus { pc: *final(pc) as int, stack: final(stack)@, locals })
                =~= #[trigger] table_switch_effect(
                code@,
                Locus { pc: *old(pc) as int, stack: old(stack)@, locals },
            ),
{
    let len = code.len();
    let pad = 4 - *pc % 4;
    if len - *pc < pad + 12 || stack.len() < RETURN_SLOTS + 1 {
        return Outcome::Malformed;
    }
    let at = *pc + pad;
    assert(at == aligned(*pc as int));
    let default = read_i32(code, at);
    let low = read_i32(code, at + 4);
    let high = read_i32(code, at + 8);
    let key = peek(stack, 0).get_int();
    if key < low || key > high {
        return finish_jump(pc, stack, default, len);
    }
    let index: u64 = (key as i64 - low as i64) as u64;
    let room: u64 = ((len - at - 12) / 4) as u64;
    if index >= room {
        return Outcome::Malformed;
    }
    let entry = at + 12 + 4 * (index as usize);
    let offset = read_i32(code, entry);
    finish_jump(pc, stack, offset, len)
}

pub fn run_lookup_switch(code: &Vec<u8>, pc: &mut usize, stack: &mut Vec<Variable>) -> (outcome:
    Outcome)
    requires
        *old(pc) < code.len(),
    ensures
        forall|locals: Seq<Variable>|
            (outcome, Locus { pc: *final(pc) as int, stack: final(stack)@, locals })
                =~= #[trigger] lookup_switch_effect(
                code@,
                Locus { pc: *old(pc) as int, stack: old(stack)@, locals },
            ),
{
    let len = code.len();
    let pad = 4 - *pc % 4;
    if len - *pc < pad + 8 || stack.len() < RETURN_SLOTS + 1 {
        return Outcome::Malformed;
    }
    let at = *pc + pad;
    assert(at == aligned(*pc as int));
    let default = read_i32(code, at);
    let pairs = read_i32(code, at + 4);
    if pairs < 0 || (pairs as u64) > ((len - at - 8) / 8) as u64 {
        return Outcome::Malformed;
    }
    let pairs = pairs as usize;
    let key = peek(stack, 0).get_int();
    let mut i: usize = 0;
    while i < pairs
        invariant
            i <= pairs,
            at + 8 + 8 * pairs <= len,
            len == code.len(),
            *pc < len,
            *pc == *old(pc),
            stack@ == old(stack)@,
            stack.len() >= RETURN_SLOTS + 1,
            key == top(stack@, 0).as_int(),
            default == i32_at(code@, at as int),
            pairs == i32_at(code@, at + 4),
            at == aligned(*pc as int),
            matching_offset(code@, at + 8, pairs as int, key as int) == matching_offset(
                code@,
                at + 8 + 8 * i,
                pairs - i,
                key as int,
            ),
        decreases pairs - i,
    {
        if read_i32(code, at + 8 + 8 * i) == key {
            let offset = read_i32(code, at + 8 + 8 * i + 4);
            return finish_jump(pc, stack, offset, len);
        }
        i += 1;
    }
    finish_jump(pc, stack, default, len)
}

pub open spec fn is_return_op(op: u8) -> bool {
    inst::IRETURN <= op <= inst::RETURN
}

/// The returns. The value is what lies on top of the stack, and the address
/// to go on at in the caller is what the two bottom slots hold.
pub open spec fn return_effect(code: Seq<u8>, l: Locus) -> (Outcome, Locus) {
    let op = code[l.pc];
    let s = l.stack;
    let address = Variable::bits_of(s[0], s[1]);
    let empty = Variable { bits: 0 };
    if address > usize::MAX {
        (Outcome::Malformed, l)
    } else if op == inst::RETURN {
        (Outcome::Return { v1: empty, v2: empty, return_pc: address as usize }, l)
    } else if op == inst::LRETURN || op == inst::DRETURN {
        if depth(s) >= 2 {
            (Outcome::Return { v1: top(s, 1), v2: top(s, 0), return_pc: address as usize }, l)
        } else {
            (Outcome::Malformed, l)
        }
    } else {
        if depth(s) >= 1 {
            (Outcome::Return { v1: top(s, 0), v2: empty, return_pc: address as usize }, l)
        } else {
            (Outcome::Malformed, l)
        }
    }
}

pub fn run_return(code: &Vec<u8>, pc: usize, stack: &Vec<Variable>) -> (outcome: Outcome)
    requires
        pc < code.len(),
        is_return_op(code[pc as int]),
        stack.len() >= RETURN_SLOTS,
    ensures
        forall|locals: Seq<Variable>|
            (outcome, Locus { pc: pc as int, stack: stack@, locals }) =~= #[trigger] return_effect(
                code@,
                Locus { pc: pc as int, stack: stack@, locals },
            ),
{
    let op = code[pc];
    let address = join(stack[0].get_return_address(), stack[1].get_return_address());
    if address > usize::MAX as u64 {
        return Outcome::Malformed;
    }
    let return_pc = address as usize;
    if op == inst::RETURN {
        Outcome::Return { v1: Variable::void(), v2: Variable::void(), return_pc }
    } else if op == inst::LRETURN || op == inst::DRETURN {
        if stack.len() >= RETURN_SLOTS + 2 {
            Outcome::Return { v1: peek(stack, 1), v2: peek(stack, 0), return_pc }
        } else {
            Outcome::Malformed
        }
    } else {
        if stack.len() >= RETURN_SLOTS + 1 {
            Outcome::Return { v1: peek(stack, 0), v2: Variable::void(), return_pc }
        } else {
            Outcome::Malformed
        }
    }
}

} // verus!

//! The instructions that touch nothing but the frame: constants, loads and
//! stores, operand-stack shuffles, int and long arithmetic, conversions
//! among the integer types, comparisons, branches, switches and returns.
//!
//! The frame's operand stack keeps the packed return address in its two
//! bottom slots; an instruction that would reach into them, read code
//! behind the end of the method or address a local that is not there is
//! malformed, and leaves the frame as it was.

use crate::bytes::{
    i16_at, i8_at, read_i16, read_i8, read_u16, read_u8, u16_at, u8_at,
};
use crate::instructions as inst;
use crate::runtime::interpreter::variable::Variable;
use crate::runtime::structs::exception::VmExceptionKind;
use vstd::prelude::*;
use vstd::wrapping::*;

verus! {

/// What one frame holds while it runs.
#[verifier::ext_equal]
pub struct Locus {
    /// The index of the current instruction in the method's code.
    pub pc: int,
    pub stack: Seq<Variable>,
    pub locals: Seq<Variable>,
}

/// How one instruction ended.
#[derive(Debug, Clone, Copy, PartialEq, Eq, Structural)]
pub enum Outcome {
    /// The instruction ran; the frame goes on at its new program counter.
    Step,
    /// The method returns `v1` (and `v2`, for a long or a double) to the
    /// instruction at `return_pc` of the caller.
    Return { v1: Variable, v2: Variable, return_pc: usize },
    /// The instruction raises an exception.
    Throw(VmExceptionKind),
    /// The code asks for what no verified class file asks for.
    Malformed,
    /// The instruction needs more than the frame: the heap, the classes or
    /// floating-point arithmetic.
    Foreign,
}

/// The number of slots at the bottom of every operand stack that hold the
/// return address.
pub const RETURN_SLOTS: usize = 2;

pub open spec fn top(stack: Seq<Variable>, k: int) -> Variable {
    stack[stack.len() - 1 - k]
}

/// The stack without its `n` top slots.
pub open spec fn dropped(stack: Seq<Variable>, n: int) -> Seq<Variable> {
    stack.subrange(0, stack.len() - n)
}

/// The number of operands on the stack, above the return address.
pub open spec fn depth(stack: Seq<Variable>) -> int {
    stack.len() - RETURN_SLOTS as int
}

pub open spec fn pushed_long(stack: Seq<Variable>, value: i64) -> Seq<Variable> {
    stack.push(Variable::slots_of_long(value).0).push(Variable::slots_of_long(value).1)
}

pub open spec fn pushed_bits(stack: Seq<Variable>, bits: u64) -> Seq<Variable> {
    stack.push(Variable::slots_of_bits(bits).0).push(Variable::slots_of_bits(bits).1)
}

/// The long whose lower half is the `k`-th slot from the top.
pub open spec fn long_top(stack: Seq<Variable>, k: int) -> i64 {
    Variable::long_of(top(stack, k + 1), top(stack, k))
}

/// The frame after an instruction of `length` bytes has pushed `value`.
pub open spec fn after_push(l: Locus, value: Variable, length: int) -> (Outcome, Locus) {
    (Outcome::Step, Locus { pc: l.pc + length, stack: l.stack.push(value), ..l })
}

/// The frame after an instruction of `length` bytes has pushed two slots.
pub open spec fn after_push2(l: Locus, slots: (Variable, Variable), length: int) -> (
    Outcome,
    Locus,
) {
    (Outcome::Step, Locus { pc: l.pc + length, stack: l.stack.push(slots.0).push(slots.1), ..l })
}

/// The frame after an instruction of `length` bytes has left `stack`.
pub open spec fn after_stack(l: Locus, stack: Seq<Variable>, length: int) -> (Outcome, Locus) {
    (Outcome::Step, Locus { pc: l.pc + length, stack, ..l })
}

pub open spec fn is_constant_op(op: u8) -> bool {
    inst::ACONST_NULL <= op <= inst::SIPUSH
}

/// The bits of the float constants 0, 1 and 2.
pub open spec fn float_constant(n: int) -> u32 {
    if n == 0 {
        0
    } else if n == 1 {
        0x3f80_0000
    } else {
        0x4000_0000
    }
}

/// The bits of the double constants 0 and 1.
pub open spec fn double_constant(n: int) -> u64 {
    if n == 0 {
        0
    } else {
        0x3ff0_0000_0000_0000
    }
}

/// `aconst_null`, `iconst_<n>`, `lconst_<n>`, `fconst_<n>`, `dconst_<n>`,
/// `bipush` and `sipush`.
pub open spec fn constant_effect(code: Seq<u8>, l: Locus) -> (Outcome, Locus) {
    let op = code[l.pc];
    if op == inst::ACONST_NULL {
        after_push(l, Variable::of_bits(0), 1)
    } else if op <= inst::ICONST_5 {
        after_push(l, Variable::of_int((op - inst::ICONST_0) as i32), 1)
    } else if op <= inst::LCONST_1 {
        after_push2(l, Variable::slots_of_long((op - inst::LCONST_0) as i64), 1)
    } else if op <= inst::FCONST_2 {
        after_push(l, Variable::of_bits(float_constant(op - inst::FCONST_0)), 1)
    } else if op <= inst::DCONST_1 {
        after_push2(l, Variable::slots_of_bits(double_constant(op - inst::DCONST_0)), 1)
    } else if op == inst::BIPUSH {
        if l.pc + 1 < code.len() {
            after_push(l, Variable::of_int(i8_at(code, l.pc + 1) as i32), 2)
        } else {
            (Outcome::Malformed, l)
        }
    } else {
        if l.pc + 2 < code.len() {
            after_push(l, Variable::of_int(i16_at(code, l.pc + 1) as i32), 3)
        } else {
            (Outcome::Malformed, l)
        }
    }
}

/// The frame as a mathematical value.
pub open spec fn locus_of(pc: usize, stack: Vec<Variable>, locals: Vec<Variable>) -> Locus {
    Locus { pc: pc as int, stack: stack@, locals: locals@ }
}

pub fn run_constant(
    code: &Vec<u8>,
    pc: &mut usize,
    stack: &mut Vec<Variable>,
    locals: &mut Vec<Variable>,
) -> (outcome: Outcome)
    requires
        *old(pc) < code.len(),
        is_constant_op(code[*old(pc) as int]),
    ensures
        (outcome, locus_of(*final(pc), *final(stack), *final(locals))) =~= constant_effect(
            code@,
            locus_of(*old(pc), *old(stack), *old(locals)),
        ),
{
    let op = code[*pc];
    if op == inst::ACONST_NULL {
        stack.push(Variable::from_reference(0));
        *pc = *pc + 1;
    } else if op <= inst::ICONST_5 {
        stack.push(Variable::from_int(op as i32 - inst::ICONST_0 as i32));
        *pc = *pc + 1;
    } else if op <= inst::LCONST_1 {
        let (upper, lower) = Variable::put_long((op - inst::LCONST_0) as i64);
        stack.push(upper);
        stack.push(lower);
        *pc = *pc + 1;
    } else if op <= inst::FCONST_2 {
        let bits: u32 = if op == inst::FCONST_0 {
            0
        } else if op == inst::FCONST_1 {
            0x3f80_0000
        } else {
            0x4000_0000
        };
        stack.push(Variable::from_float_bits(bits));
        *pc = *pc + 1;
    } else if op <= inst::DCONST_1 {
        let bits: u64 = if op == inst::DCONST_0 {
            0
        } else {
            0x3ff0_0000_0000_0000
        };
        let (upper, lower) = Variable::put_double(bits);
        stack.push(upper);
        stack.push(lower);
        *pc = *pc + 1;
    } else if op == inst::BIPUSH {
        if code.len() - *pc < 2 {
            return Outcome::Malformed;
        }
        stack.push(Variable::from_int(read_i8(code, *pc + 1)));
        *pc = *pc + 2;
    } else {
        if code.len() - *pc < 3 {
            return Outcome::Malformed;
        }
        stack.push(Variable::from_int(read_i16(code, *pc + 1)));
        *pc = *pc + 3;
    }
    Outcome::Step
}

/// The index operand of the current instruction and the instruction's
/// length: one byte, or two behind the `wide` prefix.
pub open spec fn index_operand(code: Seq<u8>, pc: int, wide: bool) -> Option<(int, int)> {
    if wide {
        if pc + 2 < code.len() {
            Some((u16_at(code, pc + 1), 3))
        } else {
            None
        }
    } else {
        if pc + 1 < code.len() {
            Some((u8_at(code, pc + 1), 2))
        } else {
            None
        }
    }
}

pub fn read_index(code: &Vec<u8>, pc: usize, wide: bool) -> (operand: Option<(usize, usize)>)
    requires
        pc < code.len(),
    ensures
        match operand {
            Some((index, length)) => index_operand(code@, pc as int, wide) == Some(
                (index as int, length as int),
            ),
            None => index_operand(code@, pc as int, wide).is_none(),
        },
{
    if wide {
        if code.len() - pc < 3 {
            None
        } else {
            Some((read_u16(code, pc + 1) as usize, 3))
        }
    } else {
        if code.len() - pc < 2 {
            None
        } else {
            Some((read_u8(code, pc + 1) as usize, 2))
        }
    }
}

/// In the order int, long, float, double, reference: whether the kind fills
/// two slots.
pub open spec fn two_slots(kind: int) -> bool {
    kind == 1 || kind == 3
}

pub open spec fn is_load_op(op: u8) -> bool {
    inst::ILOAD <= op <= inst::ALOAD_3
}

/// Pushing local `n`, or locals `n` and `n + 1`.
pub open spec fn load_effect(l: Locus, n: int, two: bool, length: int) -> (Outcome, Locus) {
    if two {
        if n + 1 < l.locals.len() {
            after_push2(l, (l.locals[n], l.locals[n + 1]), length)
        } else {
            (Outcome::Malformed, l)
        }
    } else {
        if n < l.locals.len() {
            after_push(l, l.locals[n], length)
        } else {
            (Outcome::Malformed, l)
        }
    }
}

/// `iload`, `lload`, `fload`, `dload`, `aload` and their `_<n>` forms.
pub open spec fn loads_effect(code: Seq<u8>, l: Locus, wide: bool) -> (Outcome, Locus) {
    let op = code[l.pc];
    if op <= inst::ALOAD {
        match index_operand(code, l.pc, wide) {
            Some((n, length)) => load_effect(l, n, two_slots(op - inst::ILOAD), length),
            None => (Outcome::Malformed, l),
        }
    } else {
        load_effect(l, (op - inst::ILOAD_0) % 4, two_slots((op - inst::ILOAD_0) / 4), 1)
    }
}

fn run_load(
    pc: &mut usize,
    stack: &mut Vec<Variable>,
    locals: &Vec<Variable>,
    n: usize,
    two: bool,
    length: usize,
) -> (outcome: Outcome)
    requires
        *old(pc) + length <= usize::MAX,
        n <= 0xffff,
    ensures
        (outcome, locus_of(*final(pc), *final(stack), *locals)) =~= load_effect(
            locus_of(*old(pc), *old(stack), *locals),
            n as int,
            two,
            length as int,
        ),
{
    if two {
        if n + 1 < locals.len() {
            stack.push(locals[n]);
            stack.push(locals[n + 1]);
            *pc = *pc + length;
            Outcome::Step
        } else {
            Outcome::Malformed
        }
    } else {
        if n < locals.len() {
            stack.push(locals[n]);
            *pc = *pc + length;
            Outcome::Step
        } else {
            Outcome::Malformed
        }
    }
}

pub fn run_loads(
    code: &Vec<u8>,
    pc: &mut usize,
    stack: &mut Vec<Variable>,
    locals: &Vec<Variable>,
    wide: bool,
) -> (outcome: Outcome)
    requires
        *old(pc) < code.len(),
        is_load_op(code[*old(pc) as int]),
    ensures
        (outcome, locus_of(*final(pc), *final(stack), *locals)) =~= loads_effect(
            code@,
            locus_of(*old(pc), *old(stack), *locals),
            wide,
        ),
{
    let op = code[*pc];
    if op <= inst::ALOAD {
        match read_index(code, *pc, wide) {
            Some((n, length)) => {
                let kind = op - inst::ILOAD;
                run_load(pc, stack, locals, n, kind == 1 || kind == 3, length)
            },
            None => Outcome::Malformed,
        }
    } else {
        let kind = (op - inst::ILOAD_0) / 4;
        run_load(pc, stack, locals, ((op - inst::ILOAD_0) % 4) as usize, kind == 1 || kind == 3, 1)
    }
}

pub open spec fn is_store_op(op: u8) -> bool {
    inst::ISTORE <= op <= inst::ASTORE_3
}

/// The locals, made at least `n` long with empty slots.
pub open spec fn padded(locals: Seq<Variable>, n: int) -> Seq<Variable> {
    if locals.len() >= n {
        locals
    } else {
        locals + Seq::new((n - locals.len()) as nat, |i: int| Variable { bits: 0 })
    }
}

/// Popping into local `n`, or into locals `n` and `n + 1`.
pub open spec fn store_effect(l: Locus, n: int, two: bool, length: int) -> (Outcome, Locus) {
    if two {
        if depth(l.stack) >= 2 {
            (
                Outcome::Step,
                Locus {
                    pc: l.pc + length,
                    stack: dropped(l.stack, 2),
                    locals: padded(l.locals, n + 2).update(n, top(l.stack, 1)).update(
                        n + 1,
                        top(l.stack, 0),
                    ),
                },
            )
        } else {
            (Outcome::Malformed, l)
        }
    } else {
        if depth(l.stack) >= 1 {
            (
                Outcome::Step,
                Locus {
                    pc: l.pc + length,
                    stack: dropped(l.stack, 1),
                    locals: padded(l.locals, n + 1).update(n, top(l.stack, 0)),
                },
            )
        } else {
            (Outcome::Malformed, l)
        }
    }
}

/// `istore`, `lstore`, `fstore`, `dstore`, `astore` and their `_<n>` forms.
pub open spec fn stores_effect(code: Seq<u8>, l: Locus, wide: bool) -> (Outcome, Locus) {
    let op = code[l.pc];
    if op <= inst::ASTORE {
        match index_operand(code, l.pc, wide) {
            Some((n, length)) => store_effect(l, n, two_slots(op - inst::ISTORE), length),
            None => (Outcome::Malformed, l),
        }
    } else {
        store_effect(l, (op - inst::ISTORE_0) % 4, two_slots((op - inst::ISTORE_0) / 4), 1)
    }
}

/// Makes the locals at least `n` long.
fn pad_locals(locals: &mut Vec<Variable>, n: usize)
    ensures
        final(locals)@ =~= padded(old(locals)@, n as int),
{
    while locals.len() < n
        invariant
            locals.len() >= old(locals).len(),
            locals.len() <= n || locals.len() == old(locals).len(),
            locals@ =~= old(locals)@ + Seq::new(
                (locals.len() - old(locals).len()) as nat,
                |i: int| Variable { bits: 0 },
            ),
        decreases n - locals.len(),
    {
        locals.push(Variable::void());
    }
}

/// Takes the top slot off the stack.
pub fn pop_slot(stack: &mut Vec<Variable>) -> (slot: Variable)
    requires
        old(stack).len() > 0,
    ensures
        slot == top(old(stack)@, 0),
        final(stack)@ =~= dropped(old(stack)@, 1),
{
    let slot = stack[stack.len() - 1];
    stack.pop();
    slot
}

fn run_store(
    pc: &mut usize,
    stack: &mut Vec<Variable>,
    locals: &mut Vec<Variable>,
    n: usize,
    two: bool,
    length: usize,
) -> (outcome: Outcome)
    requires
        *old(pc) + length <= usize::MAX,
        n <= 0xffff,
    ensures
        (outcome, locus_of(*final(pc), *final(stack), *final(locals))) =~= store_effect(
            locus_of(*old(pc), *old(stack), *old(locals)),
            n as int,
            two,
            length as int,
        ),
{
    if two {
        if stack.len() >= RETURN_SLOTS + 2 {
            let v2 = pop_slot(stack);
            let v1 = pop_slot(stack);
            pad_locals(locals, n + 2);
            locals.set(n, v1);
            locals.set(n + 1, v2);
            *pc = *pc + length;
            Outcome::Step
        } else {
            Outcome::Malformed
        }
    } else {
        if stack.len() >= RETURN_SLOTS + 1 {
            let v = pop_slot(stack);
            pad_locals(locals, n + 1);
            locals.set(n, v);
            *pc = *pc + length;
            Outcome::Step
        } else {
            Outcome::Malformed
        }
    }
}

pub fn run_stores(
    code: &Vec<u8>,
    pc: &mut usize,
    stack: &mut Vec<Variable>,
    locals: &mut Vec<Variable>,
    wide: bool,
) -> (outcome: Outcome)
    requires
        *old(pc) < code.len(),
        is_store_op(code[*old(pc) as int]),
    ensures
        (outcome, locus_of(*final(pc), *final(stack), *final(locals))) =~= stores_effect(
            code@,
            locus_of(*old(pc), *old(stack), *old(locals)),
            wide,
        ),
{
    let op = code[*pc];
    if op <= inst::ASTORE {
        match read_index(code, *pc, wide) {
            Some((n, length)) => {
                let kind = op - inst::ISTORE;
                run_store(pc, stack, locals, n, kind == 1 || kind == 3, length)
            },
            None => Outcome::Malformed,
        }
    } else {
        let kind = (op - inst::ISTORE_0) / 4;
        run_store(
            pc,
            stack,
            locals,
            ((op - inst::ISTORE_0) % 4) as usize,
            kind == 1 || kind == 3,
            1,
        )
    }
}

pub open spec fn is_shuffle_op(op: u8) -> bool {
    inst::POP <= op <= inst::SWAP
}

/// The number of operands that a stack instruction needs.
pub open spec fn shuffle_need(op: u8) -> int {
    if op == inst::POP || op == inst::DUP {
        1
    } else if op == inst::DUP_X2 || op == inst::DUP2_X1 {
        3
    } else if op == inst::DUP2_X2 {
        4
    } else {
        2
    }
}

/// The operand stack after a stack instruction, with `v1` on top at the
/// start, `v2` below it, and so on.
pub open spec fn shuffled(op: u8, s: Seq<Variable>) -> Seq<Variable> {
    let v1 = top(s, 0);
    let v2 = top(s, 1);
    let v3 = top(s, 2);
    let v4 = top(s, 3);
    if op == inst::POP {
        dropped(s, 1)
    } else if op == inst::POP2 {
        dropped(s, 2)
    } else if op == inst::DUP {
        s.push(v1)
    } else if op == inst::DUP_X1 {
        dropped(s, 2).push(v1).push(v2).push(v1)
    } else if op == inst::DUP_X2 {
        dropped(s, 3).push(v1).push(v3).push(v2).push(v1)
    } else if op == inst::DUP2 {
        s.push(v2).push(v1)
    } else if op == inst::DUP2_X1 {
        dropped(s, 3).push(v2).push(v1).push(v3).push(v2).push(v1)
    } else if op == inst::DUP2_X2 {
        dropped(s, 4).push(v2).push(v1).push(v4).push(v3).push(v2).push(v1)
    } else {
        dropped(s, 2).push(v1).push(v2)
    }
}

/// `pop`, `pop2`, `dup`, `dup_x1`, `dup_x2`, `dup2`, `dup2_x1`, `dup2_x2`
/// and `swap`.
pub open spec fn shuffle_effect(code: Seq<u8>, l: Locus) -> (Outcome, Locus) {
    let op = code[l.pc];
    if depth(l.stack) >= shuffle_need(op) {
        after_stack(l, shuffled(op, l.stack), 1)
    } else {
        (Outcome::Malformed, l)
    }
}

pub fn run_shuffle(code: &Vec<u8>, pc: &mut usize, stack: &mut Vec<Variable>) -> (outcome:
    Outcome)
    requires
        *old(pc) < code.len(),
        is_shuffle_op(code[*old(pc) as int]),
    ensures
        forall|locals: Seq<Variable>|
            (outcome, Locus { pc: *final(pc) as int, stack: final(stack)@, locals })
                =~= #[trigger] shuffle_effect(
                code@,
                Locus { pc: *old(pc) as int, stack: old(stack)@, locals },
            ),
{
    let op = code[*pc];
    let need: usize = if op == inst::POP || op == inst::DUP {
        1
    } else if op == inst::DUP_X2 || op == inst::DUP2_X1 {
        3
    } else if op == inst::DUP2_X2 {
        4
    } else {
        2
    };
    if stack.len() < RETURN_SLOTS + need {
        return Outcome::Malformed;
    }
    if op == inst::POP {
        pop_slot(stack);
    } else if op == inst::POP2 {
        pop_slot(stack);
        pop_slot(stack);
    } else if op == inst::DUP {
        let v1 = stack[stack.len() - 1];
        stack.push(v1);
    } else if op == inst::DUP_X1 {
        let v1 = pop_slot(stack);
        let v2 = pop_slot(stack);
        stack.push(v1);
        stack.push(v2);
        stack.push(v1);
    } else if op == inst::DUP_X2 {
        let v1 = pop_slot(stack);
        let v2 = pop_slot(stack);
        let v3 = pop_slot(stack);
        stack.push(v1);
        stack.push(v3);
        stack.push(v2);
        stack.push(v1);
    } else if op == inst::DUP2 {
        let v1 = stack[stack.len() - 1];
        let v2 = stack[stack.len() - 2];
        stack.push(v2);
        stack.push(v1);
    } else if op == inst::DUP2_X1 {
        let v1 = pop_slot(stack);
        let v2 = pop_slot(stack);
        let v3 = pop_slot(stack);
        stack.push(v2);
        stack.push(v1);
        stack.push(v3);
        stack.push(v2);
        stack.push(v1);
    } else if op == inst::DUP2_X2 {
        let v1 = pop_slot(stack);
        let v2 = pop_slot(stack);
        let v3 = pop_slot(stack);
        let v4 = pop_slot(stack);
        stack.push(v2);
        stack.push(v1);
        stack.push(v4);
        stack.push(v3);
        stack.push(v2);
        stack.push(v1);
    } else {
        let v1 = pop_slot(stack);
        let v2 = pop_slot(stack);
        stack.push(v1);
        stack.push(v2);
    }
    *pc = *pc + 1;
    Outcome::Step
}

/// The slot that is `k` below the top.
pub fn peek(stack: &Vec<Variable>, k: usize) -> (slot: Variable)
    requires
        k < stack.len(),
    ensures
        slot == top(stack@, k as int),
{
    stack[stack.len() - 1 - k]
}

/// The long whose lower half is `k` below the top.
pub fn peek_long(stack: &Vec<Variable>, k: usize) -> (value: i64)
    requires
        k + 1 < stack.len(),
    ensures
        value == long_top(stack@, k as int),
{
    Variable::get_long(peek(stack, k + 1), peek(stack, k))
}

/// Takes the `n` top slots off the stack.
pub fn drop_slots(stack: &mut Vec<Variable>, n: usize)
    requires
        n <= old(stack).len(),
    ensures
        final(stack)@ =~= dropped(old(stack)@, n as int),
{
    let keep = stack.len() - n;
    stack.truncate(keep);
}

/// Puts a long on the stack, upper half first.
pub fn push_long(stack: &mut Vec<Variable>, value: i64)
    ensures
        final(stack)@ =~= pushed_long(old(stack)@, value),
{
    let (upper, lower) = Variable::put_long(value);
    stack.push(upper);
    stack.push(lower);
}

/// Puts the 64 bits of a double on the stack, upper half first.
pub fn push_bits(stack: &mut Vec<Variable>, bits: u64)
    ensures
        final(stack)@ =~= pushed_bits(old(stack)@, bits),
{
    let (upper, lower) = Variable::put_double(bits);
    stack.push(upper);
    stack.push(lower);
}

} // verus!

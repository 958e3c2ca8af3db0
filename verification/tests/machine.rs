use jvm::instructions::{
    BIPUSH, DUP, GOTO, I2B, I2L, IADD, ICONST_1, ICONST_5, ICONST_M1, IDIV, IFEQ, IINC, ILOAD_0,
    IREM, IRETURN, ISHL, ISTORE_1, LADD, LCMP, LCONST_1, LDIV, LRETURN, NOP, POP, RETURN, SIPUSH,
    SWAP, WIDE,
};
use jvm::runtime::interpreter::local::Outcome;
use jvm::runtime::interpreter::machine::step_local;
use jvm::runtime::interpreter::variable::Variable;
use jvm::runtime::structs::exception::VmExceptionKind;

fn base() -> Vec<Variable> {
    vec![Variable::from_return_address(0), Variable::from_return_address(7)]
}

fn with(values: &[i32]) -> Vec<Variable> {
    let mut stack = base();
    for v in values {
        stack.push(Variable::from_int(*v));
    }
    stack
}

fn run(code: &[u8], stack: Vec<Variable>, locals: Vec<Variable>) -> (Outcome, usize, Vec<Variable>, Vec<Variable>) {
    let code = code.to_vec();
    let mut pc = 0;
    let mut stack = stack;
    let mut locals = locals;
    let mut wide = false;
    let outcome = step_local(&code, &mut pc, &mut stack, &mut locals, &mut wide);
    (outcome, pc, stack, locals)
}

fn ints(stack: &[Variable]) -> Vec<i32> {
    stack[2..].iter().map(|v| v.get_int()).collect()
}

#[test]
fn a_long_written_into_two_slots_reads_back() {
    for v in [0i64, 1, -1, i64::MAX, i64::MIN, 0x1234_5678_9abc_def0, -0x1234_5678] {
        let (upper, lower) = Variable::put_long(v);
        assert_eq!(Variable::get_long(upper, lower), v);
    }
    let (upper, lower) = Variable::put_long(0x0000_0001_ffff_fffe);
    assert_eq!(upper.get_int(), 1);
    assert_eq!(lower.get_int(), -2);
    let (upper, lower) = Variable::put_double(0xfff0_0000_0000_0001);
    assert_eq!(Variable::get_double(upper, lower), 0xfff0_0000_0000_0001);
}

#[test]
fn constants_are_pushed() {
    let (outcome, pc, stack, _) = run(&[ICONST_5], base(), vec![]);
    assert_eq!(outcome, Outcome::Step);
    assert_eq!(pc, 1);
    assert_eq!(ints(&stack), vec![5]);
    let (_, pc, stack, _) = run(&[BIPUSH, 0xff], base(), vec![]);
    assert_eq!((pc, ints(&stack)), (2, vec![-1]));
    let (_, pc, stack, _) = run(&[SIPUSH, 0x80, 0x00], base(), vec![]);
    assert_eq!((pc, ints(&stack)), (3, vec![-32768]));
    let (_, _, stack, _) = run(&[ICONST_M1], base(), vec![]);
    assert_eq!(ints(&stack), vec![-1]);
    let (_, _, stack, _) = run(&[LCONST_1], base(), vec![]);
    assert_eq!(Variable::get_long(stack[2], stack[3]), 1);
}

#[test]
fn int_arithmetic_wraps() {
    let (_, _, stack, _) = run(&[IADD], with(&[i32::MAX, 1]), vec![]);
    assert_eq!(ints(&stack), vec![i32::MIN]);
    let (_, _, stack, _) = run(&[IADD], with(&[10, 20]), vec![]);
    assert_eq!(ints(&stack), vec![30]);
    let (_, _, stack, _) = run(&[ISHL], with(&[1, 33]), vec![]);
    assert_eq!(ints(&stack), vec![2]);
}

#[test]
fn the_smallest_int_divided_by_minus_one_is_itself() {
    let (outcome, pc, stack, _) = run(&[IDIV], with(&[i32::MIN, -1]), vec![]);
    assert_eq!(outcome, Outcome::Step);
    assert_eq!(pc, 1);
    assert_eq!(ints(&stack), vec![i32::MIN]);
    let (outcome, _, stack, _) = run(&[IREM], with(&[i32::MIN, -1]), vec![]);
    assert_eq!(outcome, Outcome::Step);
    assert_eq!(ints(&stack), vec![0]);
    let (_, _, stack, _) = run(&[IDIV], with(&[-7, 2]), vec![]);
    assert_eq!(ints(&stack), vec![-3]);
    let (_, _, stack, _) = run(&[IREM], with(&[-7, 2]), vec![]);
    assert_eq!(ints(&stack), vec![-1]);
}

#[test]
fn division_by_zero_raises_and_takes_its_operands() {
    let before = with(&[7, 10, 0]);
    let (outcome, pc, stack, _) = run(&[IDIV], before.clone(), vec![]);
    assert_eq!(outcome, Outcome::Throw(VmExceptionKind::Arithmetic));
    assert_eq!(pc, 0);
    assert_eq!(ints(&stack), vec![7]);
    let (outcome, _, _, _) = run(&[IREM], before, vec![]);
    assert_eq!(outcome, Outcome::Throw(VmExceptionKind::Arithmetic));
    let mut longs = base();
    let (u, l) = Variable::put_long(5);
    longs.push(u);
    longs.push(l);
    let (u, l) = Variable::put_long(0);
    longs.push(u);
    longs.push(l);
    let (outcome, _, stack, _) = run(&[LDIV], longs, vec![]);
    assert_eq!(outcome, Outcome::Throw(VmExceptionKind::Arithmetic));
    assert_eq!(stack.len(), 2);
}

#[test]
fn long_arithmetic_uses_two_slots() {
    let mut stack = base();
    for v in [i64::MAX, 1] {
        let (u, l) = Variable::put_long(v);
        stack.push(u);
        stack.push(l);
    }
    let (outcome, _, after, _) = run(&[LADD], stack.clone(), vec![]);
    assert_eq!(outcome, Outcome::Step);
    assert_eq!(after.len(), 4);
    assert_eq!(Variable::get_long(after[2], after[3]), i64::MIN);
    let (_, _, after, _) = run(&[LCMP], stack, vec![]);
    assert_eq!(ints(&after), vec![1]);
}

#[test]
fn conversions_cut_and_extend() {
    let (_, _, stack, _) = run(&[I2B], with(&[0x1ff]), vec![]);
    assert_eq!(ints(&stack), vec![-1]);
    let (_, _, stack, _) = run(&[I2L], with(&[-5]), vec![]);
    assert_eq!(Variable::get_long(stack[2], stack[3]), -5);
}

#[test]
fn the_stack_is_shuffled() {
    let (_, _, stack, _) = run(&[DUP], with(&[4]), vec![]);
    assert_eq!(ints(&stack), vec![4, 4]);
    let (_, _, stack, _) = run(&[SWAP], with(&[1, 2]), vec![]);
    assert_eq!(ints(&stack), vec![2, 1]);
    let (_, _, stack, _) = run(&[POP], with(&[1, 2]), vec![]);
    assert_eq!(ints(&stack), vec![1]);
    let (outcome, pc, stack, _) = run(&[POP], base(), vec![]);
    assert_eq!(outcome, Outcome::Malformed);
    assert_eq!((pc, stack.len()), (0, 2));
}

#[test]
fn locals_are_loaded_and_stored() {
    let (_, _, stack, _) = run(&[ILOAD_0], base(), vec![Variable::from_int(9)]);
    assert_eq!(ints(&stack), vec![9]);
    let (outcome, _, _, _) = run(&[ILOAD_0], base(), vec![]);
    assert_eq!(outcome, Outcome::Malformed);
    let (_, _, stack, locals) = run(&[ISTORE_1], with(&[3]), vec![]);
    assert!(ints(&stack).is_empty());
    assert_eq!(locals.len(), 2);
    assert_eq!(locals[1].get_int(), 3);
    let (_, pc, _, locals) = run(&[IINC, 0, 0xfe], base(), vec![Variable::from_int(5)]);
    assert_eq!(pc, 3);
    assert_eq!(locals[0].get_int(), 3);
}

#[test]
fn the_wide_prefix_widens_the_next_index_once() {
    let code = vec![WIDE, IINC, 0, 1, 0x01, 0x00, NOP];
    let mut pc = 0;
    let mut stack = base();
    let mut locals = vec![Variable::from_int(0), Variable::from_int(1)];
    let mut wide = false;
    assert_eq!(step_local(&code, &mut pc, &mut stack, &mut locals, &mut wide), Outcome::Step);
    assert!(wide);
    assert_eq!(pc, 1);
    assert_eq!(step_local(&code, &mut pc, &mut stack, &mut locals, &mut wide), Outcome::Step);
    assert!(!wide);
    assert_eq!(pc, 6);
    assert_eq!(locals[1].get_int(), 257);
    assert_eq!(step_local(&code, &mut pc, &mut stack, &mut locals, &mut wide), Outcome::Step);
    assert_eq!(pc, 7);
    assert_eq!(step_local(&code, &mut pc, &mut stack, &mut locals, &mut wide), Outcome::Malformed);
}

#[test]
fn branches_are_relative_to_the_instruction() {
    let (outcome, pc, stack, _) = run(&[IFEQ, 0, 5, NOP, NOP, NOP], with(&[0]), vec![]);
    assert_eq!(outcome, Outcome::Step);
    assert_eq!(pc, 5);
    assert!(ints(&stack).is_empty());
    let (_, pc, _, _) = run(&[IFEQ, 0, 5, NOP, NOP, NOP], with(&[1]), vec![]);
    assert_eq!(pc, 3);
    let code = vec![NOP, NOP, GOTO, 0xff, 0xfe];
    let mut pc = 2;
    let mut stack = base();
    let mut locals = vec![];
    let mut wide = false;
    assert_eq!(step_local(&code, &mut pc, &mut stack, &mut locals, &mut wide), Outcome::Step);
    assert_eq!(pc, 0);
    let (outcome, pc, _, _) = run(&[GOTO, 0, 9], base(), vec![]);
    assert_eq!((outcome, pc), (Outcome::Malformed, 0));
}

#[test]
fn a_return_hands_over_the_value_and_the_address() {
    let (outcome, pc, _, _) = run(&[IRETURN], with(&[30]), vec![]);
    match outcome {
        Outcome::Return { v1, return_pc, .. } => {
            assert_eq!(v1.get_int(), 30);
            assert_eq!(return_pc, 7);
        }
        other => panic!("{other:?}"),
    }
    assert_eq!(pc, 0);
    let (outcome, _, _, _) = run(&[RETURN], base(), vec![]);
    assert!(matches!(outcome, Outcome::Return { return_pc: 7, .. }));
    let mut stack = base();
    let (u, l) = Variable::put_long(-9);
    stack.push(u);
    stack.push(l);
    match run(&[LRETURN], stack, vec![]).0 {
        Outcome::Return { v1, v2, .. } => assert_eq!(Variable::get_long(v1, v2), -9),
        other => panic!("{other:?}"),
    }
    assert_eq!(run(&[IRETURN], base(), vec![]).0, Outcome::Malformed);
}

#[test]
fn what_needs_more_than_the_frame_is_left_alone() {
    let (outcome, pc, stack, _) = run(&[0xbb, 0, 1], base(), vec![]);
    assert_eq!(outcome, Outcome::Foreign);
    assert_eq!((pc, stack.len()), (0, 2));
    let (outcome, _, _, _) = run(&[0x62], with(&[1, 2]), vec![]);
    assert_eq!(outcome, Outcome::Foreign);
    let (outcome, _, _, _) = run(&[ICONST_1], vec![], vec![]);
    assert_eq!(outcome, Outcome::Malformed);
}

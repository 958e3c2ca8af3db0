//! What small programs do: a method that adds, a call that is dispatched
//! by the class of the object, and a division by zero that is caught. Each
//! is stated for every value that it can be run with, over what
//! [`local_effect`] and the thread's handling say of each step.

use crate::instructions as inst;
use crate::runtime::class_loader::vtable::holder;
use crate::runtime::inheritance::same_or_sub_class;
use crate::runtime::interpreter::frame::return_slots;
use crate::runtime::interpreter::local::{Locus, Outcome};
use crate::runtime::interpreter::machine::local_effect;
use crate::runtime::interpreter::next::NextView;
use crate::runtime::interpreter::run::{handle_effect, virtual_target, Target};
use crate::runtime::interpreter::thread::{left, StatusView, ThreadView};
use crate::runtime::interpreter::unwind::{bottom, handler_in};
use crate::runtime::interpreter::variable::Variable;
use crate::runtime::native::system::class_of_object;
use crate::runtime::structs::attributes::ExceptionTableItemView;
use crate::runtime::structs::exception::VmExceptionKind;
use crate::runtime::structs::Class;
use crate::runtime::Vm;
use vstd::prelude::*;
use vstd::wrapping::i32_specs;

verus! {

/// The frame after `n` instructions that need only the frame, all of
/// which ran; nothing where one of them did not run to its end.
pub open spec fn after_steps(code: Seq<u8>, l: Locus, n: nat) -> Option<Locus>
    decreases n,
{
    if n == 0 {
        Some(l)
    } else {
        match after_steps(code, l, (n - 1) as nat) {
            Some(m) => if local_effect(code, m, false).0 is Step {
                Some(local_effect(code, m, false).1)
            } else {
                None
            },
            None => None,
        }
    }
}

/// The code of `static int sum(int a, int b) { return a + b; }`.
pub open spec fn sum_code() -> Seq<u8> {
    seq![inst::ILOAD_0, inst::ILOAD_1, inst::IADD, inst::IRETURN]
}

/// A frame that has just been entered: at its first instruction, with
/// nothing but the return address on its operand stack.
pub open spec fn entered_frame(address: usize, locals: Seq<Variable>) -> Locus {
    Locus { pc: 0, stack: return_slots(address), locals }
}

/// The address that a frame returns to is the address that it was entered
/// with.
proof fn lemma_return_address(address: usize)
    ensures
        Variable::bits_of(return_slots(address)[0], return_slots(address)[1]) == address,
{
    crate::runtime::interpreter::variable::lemma_double_round_trip(address as u64);
}

/// The method that adds two ints returns their sum, for all ints, to the
/// address that its frame was entered with: `sum(10, 20)` returns 30.
pub proof fn lemma_sum_returns_the_sum(a: i32, b: i32, address: usize)
    ensures
        after_steps(
            sum_code(),
            entered_frame(address, seq![Variable::of_int(a), Variable::of_int(b)]),
            3,
        ) matches Some(m) && local_effect(sum_code(), m, false).0 == (Outcome::Return {
            v1: Variable::of_int(i32_specs::wrapping_add(a, b)),
            v2: Variable { bits: 0 },
            return_pc: address,
        }),
{
    let code = sum_code();
    let l0 = entered_frame(address, seq![Variable::of_int(a), Variable::of_int(b)]);
    lemma_return_address(address);
    reveal_with_fuel(after_steps, 4);
    let e1 = local_effect(code, l0, false);
    assert(e1.0 is Step && e1.1 == (Locus {
        pc: 1,
        stack: l0.stack.push(Variable::of_int(a)),
        ..l0
    }));
    let e2 = local_effect(code, e1.1, false);
    assert(e2.0 is Step && e2.1 == (Locus {
        pc: 2,
        stack: l0.stack.push(Variable::of_int(a)).push(Variable::of_int(b)),
        ..l0
    }));
    let e3 = local_effect(code, e2.1, false);
    crate::runtime::interpreter::variable::lemma_int_round_trip(a, 0);
    crate::runtime::interpreter::variable::lemma_int_round_trip(b, 0);
    assert(e2.1.stack.subrange(0, e2.1.stack.len() - 2) =~= l0.stack);
    assert(e3.0 is Step && e3.1 == (Locus {
        pc: 3,
        stack: l0.stack.push(Variable::of_int(i32_specs::wrapping_add(a, b))),
        ..l0
    }));
    assert(after_steps(code, l0, 3) == Some(e3.1));
    assert(e3.1.stack[0] == l0.stack[0] && e3.1.stack[1] == l0.stack[1]);
}

/// What a method returns lands on top of the operand stack of the frame
/// that called it, which goes on at the return address; a thread whose
/// last frame returns is done, and has no frame left.
pub proof fn lemma_return_lands_on_the_caller(
    thread: ThreadView,
    value: Variable,
    address: usize,
    before: Vm,
    after: Vm,
    after_thread: ThreadView,
    status: StatusView,
)
    requires
        thread.frames.len() >= 1,
        thread.frames.last().return_type is Some ==> !thread.frames.last().return_type->Some_0.is_long(),
        handle_effect(
            thread,
            NextView::Return { v1: value, v2: Variable { bits: 0 }, return_pc: address },
            before,
            after,
            after_thread,
            status,
        ),
    ensures
        after_thread.frames.len() == thread.frames.len() - 1,
        after_thread.pc == address,
        thread.frames.len() == 1 ==> status == StatusView::Done,
        thread.frames.len() >= 2 ==> status == StatusView::Running && after_thread.frames.last().stack
            == (if thread.frames.last().return_type is Some {
            thread.frames[thread.frames.len() - 2].stack.push(value)
        } else {
            thread.frames[thread.frames.len() - 2].stack
        }),
{
}

/// A virtual call reaches the method that the vtable of the class of the
/// object holds in the row of the call, whatever class the call names: a
/// call of `A.f` on an object of class `B`, which overrides `f`, runs
/// `B.f`.
pub proof fn lemma_virtual_call_follows_the_object(
    vm: Vm,
    static_class: usize,
    index: usize,
    row: isize,
    this: u32,
    class: usize,
)
    requires
        class_of_object(vm, this) == Some(class),
        0 <= row < vm.loader.classes[class as int].vtable.len(),
    ensures
        virtual_target(vm, static_class, index, row, true, this) == Target::Method(
            holder(vm.loader.classes[class as int].vtable[row as int].index, class).0,
            holder(vm.loader.classes[class as int].vtable[row as int].index, class).1,
        ),
{
}

/// The code of `static int g() { try { return 10 / 0; } catch
/// (ArithmeticException e) { return -1; } }`.
pub open spec fn caught_division_code() -> Seq<u8> {
    seq![
        inst::BIPUSH,
        10u8,
        inst::ICONST_0,
        inst::IDIV,
        inst::IRETURN,
        inst::POP,
        inst::ICONST_M1,
        inst::IRETURN,
    ]
}

/// The handler table of that method: what is thrown from the first
/// instruction up to the return is caught at the `pop`, if it is of the
/// class with this name.
pub open spec fn caught_division_handlers(name: Seq<char>) -> Seq<ExceptionTableItemView> {
    seq![ExceptionTableItemView { start_pc: 0, end_pc: 4, handler_pc: 5, catch_type: Some(name) }]
}

/// A division by zero that is caught: the division raises
/// `ArithmeticException` at the third instruction; the handler of the
/// frame catches what is thrown there, if it is of the class that the
/// handler names or of a sub-class; and from the handler on, with what was
/// thrown on the operand stack, the method returns -1 to the address that
/// its frame was entered with.
pub proof fn lemma_caught_division_returns_minus_one(
    address: usize,
    classes: Seq<Class>,
    names: Map<Seq<char>, usize>,
    name: Seq<char>,
    thrown: usize,
    object: u32,
)
    requires
        names.contains_key(name),
        same_or_sub_class(classes, thrown as int, names[name]),
    ensures
        after_steps(caught_division_code(), entered_frame(address, Seq::empty()), 2) matches Some(
            m,
        ) && m.pc == 3 && local_effect(caught_division_code(), m, false).0 == Outcome::Throw(
            VmExceptionKind::Arithmetic,
        ),
        handler_in(caught_division_handlers(name), 0, 3, classes, names, Some(thrown)) == Some(
            5u16,
        ),
        after_steps(
            caught_division_code(),
            Locus {
                pc: 5,
                stack: bottom(return_slots(address)).push(Variable::of_bits(object)),
                locals: Seq::empty(),
            },
            2,
        ) matches Some(m) && local_effect(caught_division_code(), m, false).0
            == (Outcome::Return {
            v1: Variable::of_int(-1i32),
            v2: Variable { bits: 0 },
            return_pc: address,
        }),
{
    let code = caught_division_code();
    let l0 = entered_frame(address, Seq::empty());
    lemma_return_address(address);
    reveal_with_fuel(after_steps, 3);
    reveal_with_fuel(handler_in, 2);
    let e1 = local_effect(code, l0, false);
    assert(crate::bytes::i8_at(code, 1) == 10);
    assert(e1.0 is Step && e1.1 == (Locus {
        pc: 2,
        stack: l0.stack.push(Variable::of_int(10)),
        ..l0
    }));
    let e2 = local_effect(code, e1.1, false);
    assert(e2.0 is Step && e2.1 == (Locus {
        pc: 3,
        stack: l0.stack.push(Variable::of_int(10)).push(Variable::of_int(0)),
        ..l0
    }));
    crate::runtime::interpreter::variable::lemma_int_round_trip(10, 0);
    crate::runtime::interpreter::variable::lemma_int_round_trip(0, 0);
    let e3 = local_effect(code, e2.1, false);
    assert(e3.0 == Outcome::Throw(VmExceptionKind::Arithmetic));
    let h0 = Locus {
        pc: 5,
        stack: bottom(return_slots(address)).push(Variable::of_bits(object)),
        locals: Seq::empty(),
    };
    let f1 = local_effect(code, h0, false);
    assert(h0.stack.subrange(0, h0.stack.len() - 1) =~= return_slots(address));
    assert(f1.0 is Step && f1.1 == (Locus { pc: 6, stack: return_slots(address), ..h0 }));
    let f2 = local_effect(code, f1.1, false);
    assert(f2.0 is Step && f2.1 == (Locus {
        pc: 7,
        stack: return_slots(address).push(Variable::of_int(-1i32)),
        ..h0
    }));
    assert(f2.1.stack[0] == return_slots(address)[0] && f2.1.stack[1] == return_slots(
        address,
    )[1]);
}

} // verus!

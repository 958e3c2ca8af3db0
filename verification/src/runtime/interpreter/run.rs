//! The thread at work: invocation, initialization of classes, and the
//! loop that runs instruction after instruction.

use crate::class::structs::java_str::JavaStr;
use crate::class::structs::java_str::java_cesu8_encoded;
use crate::descriptor::{
    types_view, FieldType, FieldTypeView, MethodDescriptor, MethodDescriptorView,
};
use crate::runtime::class_loader::bootstrap::{DefineError, DefineFailure};
use crate::runtime::class_loader::reference::{class_named, class_named_frame};
use crate::runtime::structs::MethodInfo;
use crate::runtime::class_loader::bootstrap::same_shapes;
use crate::runtime::class_loader::initialize::{plan_of, InitError};
use crate::runtime::class_loader::bootstrap::{initializers, planned_status};
use crate::runtime::class_loader::vtable::holder;
use crate::runtime::famous_classes::lemma_famous_stay;
use crate::runtime::interpreter::float_ops::{apply_float_result, float_result_effect};
use crate::runtime::interpreter::frame::{
    argument_slots, method_body, new_frame_view, Frame, FrameView,
};
use crate::runtime::interpreter::local::{Locus, Outcome};
use crate::runtime::interpreter::next::{ExceptionView, Next, NextView};
use crate::runtime::interpreter::step::{step, step_effect};
use crate::runtime::interpreter::thread::{
    entered, frames_view, initialization_noted, left, Entered, Status, StatusView, Thread,
    ThreadView,
};
use crate::runtime::interpreter::unwind::unwind_effect;
use crate::runtime::interpreter::variable::Variable;
use crate::runtime::native::bridge::finish_native;
use crate::runtime::native::system::class_of_object;
use crate::runtime::native::{NativeOutcome, NativeVariable};
use crate::runtime::structs::exception::{Exception, VmExceptionKind};
use crate::runtime::structs::{vtable_view, Class, VtableEntry, VtableEntryView};
use crate::runtime::Vm;
use vstd::prelude::*;

verus! {

/// The method that an invocation reaches.
#[derive(Debug, Clone, Copy, PartialEq, Eq, Structural)]
pub enum Target {
    /// The method with this place among the methods of this class.
    Method(usize, usize),
    /// The class of the object has no such method.
    Missing,
    /// The object is of no class of the machine, or its class has no such
    /// row in its vtable.
    Malformed,
}

/// The method that an invocation on the object `this` reaches: the method
/// `index` of `static_class` itself where the invocation is not virtual or
/// the method has no row in the vtable; else the method that row
/// `vtable_index` of the vtable of the class of `this` leads to.
pub open spec fn virtual_target(
    vm: Vm,
    static_class: usize,
    index: usize,
    vtable_index: isize,
    is_virtual: bool,
    this: u32,
) -> Target {
    if !is_virtual || vtable_index < 0 {
        Target::Method(static_class, index)
    } else {
        match class_of_object(vm, this) {
            None => Target::Malformed,
            Some(class) => if vtable_index < vm.loader.classes[class as int].vtable.len() {
                let found = holder(
                    vm.loader.classes[class as int].vtable[vtable_index as int].index,
                    class,
                );
                Target::Method(found.0, found.1)
            } else {
                Target::Malformed
            },
        }
    }
}

/// The class of the object, where it is a class of the machine.
pub fn object_class(vm: &Vm, id: u32) -> (class: Option<usize>)
    requires
        vm.wf(),
    ensures
        class == class_of_object(*vm, id),
{
    let classes = vm.famous.special_classes();
    match vm.heap.get_class(id, &classes) {
        Some(class) => if class < vm.loader.classes.len() {
            Some(class)
        } else {
            None
        },
        None => None,
    }
}

/// The place and class of the method that a row leads to, in the table of
/// class `owner`.
fn holder_of(row: &VtableEntry, owner: usize) -> (found: (usize, usize))
    ensures
        found == holder(row.index, owner),
{
    match row.index {
        crate::runtime::structs::VtableIndex::InThisClass(i) => (owner, i),
        crate::runtime::structs::VtableIndex::OtherClass { class, index } => (class, index),
        crate::runtime::structs::VtableIndex::OtherInterface { class, index } => (class, index),
    }
}

/// Finds the method that an invocation on an object reaches.
pub fn find_virtual_target(
    vm: &Vm,
    static_class: usize,
    index: usize,
    vtable_index: isize,
    is_virtual: bool,
    this: u32,
) -> (target: Target)
    requires
        vm.wf(),
    ensures
        target == virtual_target(*vm, static_class, index, vtable_index, is_virtual, this),
{
    if !is_virtual || vtable_index < 0 {
        return Target::Method(static_class, index);
    }
    let class = match object_class(vm, this) {
        Some(class) => class,
        None => {
            return Target::Malformed;
        },
    };
    let row = vtable_index as usize;
    if row >= vm.loader.classes[class].vtable.len() {
        return Target::Malformed;
    }
    let found = holder_of(&vm.loader.classes[class].vtable[row], class);
    Target::Method(found.0, found.1)
}

/// The first row from `from` on with this name and descriptor.
pub open spec fn first_row(
    table: Seq<VtableEntryView>,
    from: int,
    name: Seq<u8>,
    descriptor: MethodDescriptorView,
) -> Option<int>
    decreases table.len() - from,
{
    if from < 0 || from >= table.len() {
        None
    } else if table[from].name == name && table[from].descriptor == descriptor {
        Some(from)
    } else {
        first_row(table, from + 1, name, descriptor)
    }
}

/// Finds the first row with this name and descriptor.
pub fn find_row(table: &Vec<VtableEntry>, name: &JavaStr, descriptor: &MethodDescriptor) -> (row:
    Option<usize>)
    ensures
        match row {
            Some(k) => first_row(vtable_view(table@), 0, name@, descriptor@) == Some(k as int)
                && k < table.len(),
            None => first_row(vtable_view(table@), 0, name@, descriptor@).is_none(),
        },
{
    let ghost views = vtable_view(table@);
    let mut k: usize = 0;
    while k < table.len()
        invariant
            k <= table.len(),
            views == vtable_view(table@),
            first_row(views, 0, name@, descriptor@) == first_row(
                views,
                k as int,
                name@,
                descriptor@,
            ),
        decreases table.len() - k,
    {
        assert(views[k as int] == table@[k as int]@);
        if table[k].name.same_str(name) && table[k].descriptor.same_descriptor(descriptor) {
            return Some(k);
        }
        k += 1;
    }
    None
}

/// The method that an invocation of method `index` of the interface
/// `interface` on the object `this` reaches: the method that the first row
/// of its name and descriptor in the vtable of the class of `this` leads
/// to.
pub open spec fn interface_target(vm: Vm, interface: usize, index: usize, this: u32) -> Target {
    if interface >= vm.loader.classes.len() || index
        >= vm.loader.classes[interface as int].methods.len() {
        Target::Malformed
    } else {
        match class_of_object(vm, this) {
            None => Target::Malformed,
            Some(class) => {
                let m = vm.loader.classes[interface as int].methods[index as int]@;
                let table = vtable_view(vm.loader.classes[class as int].vtable@);
                match first_row(table, 0, m.name, m.descriptor) {
                    Some(row) => {
                        let found = holder(table[row].index, class);
                        Target::Method(found.0, found.1)
                    },
                    None => Target::Missing,
                }
            },
        }
    }
}

/// Finds the method that an invocation through an interface reaches.
pub fn find_interface_target(vm: &Vm, interface: usize, index: usize, this: u32) -> (target:
    Target)
    requires
        vm.wf(),
    ensures
        target == interface_target(*vm, interface, index, this),
{
    if interface >= vm.loader.classes.len() || index >= vm.loader.classes[interface].methods.len() {
        return Target::Malformed;
    }
    let class = match object_class(vm, this) {
        Some(class) => class,
        None => {
            return Target::Malformed;
        },
    };
    let m = &vm.loader.classes[interface].methods[index];
    let table = &vm.loader.classes[class].vtable;
    match find_row(table, &m.name, &m.descriptor) {
        Some(row) => {
            assert(vtable_view(table@)[row as int] == table@[row as int]@);
            let found = holder_of(&table[row], class);
            Target::Method(found.0, found.1)
        },
        None => Target::Missing,
    }
}

/// The exception of this kind that the machine raises, with no message.
pub open spec fn raised_view(kind: VmExceptionKind) -> ExceptionView {
    ExceptionView::VmException { exception_type: kind, message: Seq::empty() }
}

/// What an invocation does to the thread: the frame of the target becomes
/// the top frame. Where the thread has as many frames as it may have,
/// `StackOverflowError` is thrown; where the class of the object has no
/// such method, `NoSuchMethodError`.
pub open spec fn invoke_effect(
    thread: ThreadView,
    target: Target,
    return_pc: usize,
    need_this: bool,
    before: Vm,
    after: Vm,
    after_thread: ThreadView,
    status: StatusView,
) -> bool {
    match target {
        Target::Malformed => after == before && after_thread == thread && status
            == StatusView::Malformed,
        Target::Missing => unwind_effect(
            thread,
            raised_view(VmExceptionKind::NoSuchMethod),
            before,
            after,
            after_thread,
            status,
        ),
        Target::Method(class, method) => {
            let went = entered(
                thread,
                before.loader.classes@,
                class,
                method,
                return_pc,
                need_this,
            );
            match went.1 {
                Entered::Entered => after == before && after_thread == went.0 && status
                    == StatusView::Running,
                Entered::Overflow => unwind_effect(
                    thread,
                    raised_view(VmExceptionKind::StackOverflow),
                    before,
                    after,
                    after_thread,
                    status,
                ),
                Entered::Malformed => after == before && after_thread == thread && status
                    == StatusView::Malformed,
            }
        },
    }
}

/// The frame of the initializer `run.1` of class `run.0`, which returns to
/// `return_pc`.
pub open spec fn clinit_frame(classes: Seq<Class>, run: (usize, usize), return_pc: usize) -> FrameView {
    FrameView {
        initializes: Some(run.0),
        ..new_frame_view(
            run.0,
            classes[run.0 as int].methods[run.1 as int]@,
            Seq::empty(),
            return_pc,
            false,
        )
    }
}

/// Whether the initializer can run: it is a method of its class that has
/// code and takes no arguments.
pub open spec fn runnable(classes: Seq<Class>, run: (usize, usize)) -> bool {
    &&& run.0 < classes.len()
    &&& run.1 < classes[run.0 as int].methods.len()
    &&& method_body(classes[run.0 as int].methods[run.1 as int]@).is_some()
    &&& argument_slots(classes[run.0 as int].methods[run.1 as int]@, false) == 0
}

/// Whether all the initializers can run.
pub open spec fn all_runnable(classes: Seq<Class>, runs: Seq<(usize, usize)>) -> bool {
    forall|k: int| 0 <= k < runs.len() ==> runnable(classes, #[trigger] runs[k])
}

/// The frames of the last `n` initializers, the frame of the last
/// initializer first. That one returns to `return_pc`; each of the others
/// returns to the start of the initializer whose frame lies below its own.
pub open spec fn clinit_frames(
    classes: Seq<Class>,
    runs: Seq<(usize, usize)>,
    n: int,
    return_pc: usize,
) -> Seq<FrameView>
    decreases n,
{
    if n <= 0 {
        Seq::empty()
    } else {
        clinit_frames(classes, runs, n - 1, return_pc).push(
            clinit_frame(
                classes,
                runs[runs.len() - n],
                if n == 1 {
                    return_pc
                } else {
                    0
                },
            ),
        )
    }
}

/// Whether `after` is `before` with the initialization of the classes of
/// the plan under way for the thread.
pub open spec fn initialization_started(before: Vm, after: Vm, plan: Seq<usize>, thread: usize) -> bool {
    &&& same_shapes(before.loader, after.loader)
    &&& forall|id: int|
        0 <= id < before.loader.classes.len() ==> {
            &&& (#[trigger] after.loader.classes[id]).constant_pool
                == before.loader.classes[id].constant_pool
            &&& after.loader.classes[id].static_fields == before.loader.classes[id].static_fields
            &&& after.loader.classes[id].clinit_call == (if plan.contains(id as usize) {
                planned_status(before.loader.classes[id], thread)
            } else {
                before.loader.classes[id].clinit_call
            })
        }
    &&& after == (Vm { loader: after.loader, ..before })
}

/// What the initialization of a class does to the thread that asks for
/// it. The classes that have to be initialized first and the class itself
/// are noted as being initialized, and the frames of their initializers
/// come on top of the thread, the first to run on top; the frame that
/// asked goes on at the same instruction when the last has returned.
/// Where another thread is initializing one of the classes, the thread has
/// to wait; where one has failed, `ExceptionInInitializerError` is thrown.
pub open spec fn initialize_effect(
    thread: ThreadView,
    class: usize,
    before: Vm,
    after: Vm,
    after_thread: ThreadView,
    status: StatusView,
) -> bool {
    if class >= before.loader.classes.len() {
        after == before && after_thread == thread && status == StatusView::Malformed
    } else {
        match plan_of(before.loader.classes@, class, thread.thread_id, Seq::empty()) {
            Err(InitError::Busy(_)) => after == before && after_thread == thread && status
                == StatusView::Blocked,
            Err(InitError::Failed(_)) => unwind_effect(
                thread,
                raised_view(VmExceptionKind::ExceptionInInitializer),
                before,
                after,
                after_thread,
                status,
            ),
            Ok(plan) => {
                let runs = initializers(before.loader.classes@, plan, plan.len() as int);
                &&& initialization_started(before, after, plan, thread.thread_id)
                &&& if !all_runnable(before.loader.classes@, runs) {
                    after_thread == thread && status == StatusView::Malformed
                } else if runs.len() == 0 {
                    after_thread == thread && status == StatusView::Running
                } else {
                    &&& after_thread == (ThreadView {
                        frames: thread.frames + clinit_frames(
                            before.loader.classes@,
                            runs,
                            runs.len() as int,
                            thread.pc,
                        ),
                        pc: 0,
                        wide: false,
                        ..thread
                    })
                    &&& status == StatusView::Running
                }
            },
        }
    }
}

/// The frames of the initializers, the frame of the last first. None where
/// one of them cannot run.
fn make_clinit_frames(classes: &Vec<Class>, runs: &Vec<(usize, usize)>, return_pc: usize) -> (frames:
    Option<Vec<Frame>>)
    ensures
        match frames {
            Some(frames) => all_runnable(classes@, runs@) && frames_view(frames@) == clinit_frames(
                classes@,
                runs@,
                runs.len() as int,
                return_pc,
            ),
            None => !all_runnable(classes@, runs@),
        },
{
    let mut frames: Vec<Frame> = Vec::new();
    let mut n: usize = 0;
    assert(frames_view(frames@) =~= clinit_frames(classes@, runs@, 0, return_pc));
    while n < runs.len()
        invariant
            n <= runs.len(),
            frames_view(frames@) == clinit_frames(classes@, runs@, n as int, return_pc),
            forall|k: int| runs.len() - n <= k < runs.len() ==> runnable(classes@, #[trigger] runs@[k]),
        decreases runs.len() - n,
    {
        let run = runs[runs.len() - 1 - n];
        if run.0 >= classes.len() || run.1 >= classes[run.0].methods.len() {
            assert(!runnable(classes@, runs@[runs.len() - 1 - n]));
            return None;
        }
        let mut scratch: Vec<Variable> = Vec::new();
        scratch.push(Variable::void());
        scratch.push(Variable::void());
        let address: usize = if n == 0 {
            return_pc
        } else {
            0
        };
        let ghost held = frames@;
        proof {
            let m = classes[run.0 as int].methods[run.1 as int]@;
            crate::runtime::interpreter::frame::lemma_parameter_slots_grow(
                m.descriptor.parameters,
                0,
                m.descriptor.parameters.len() as int,
            );
        }
        match Frame::new(&mut scratch, run.0, &classes[run.0].methods[run.1], address, false) {
            Ok(mut frame) => {
                frame.initializes = Some(run.0);
                assert(runnable(classes@, runs@[runs.len() - 1 - n]));
                assert(frame@.locals =~= Seq::empty());
                assert(frame@ == clinit_frame(classes@, runs@[runs.len() - 1 - n], address));
                frames.push(frame);
                assert(frames_view(frames@) =~= frames_view(held).push(
                    clinit_frame(classes@, runs@[runs.len() - 1 - n], address),
                ));
            },
            Err(_) => {
                assert(!runnable(classes@, runs@[runs.len() - 1 - n]));
                return None;
            },
        }
        n += 1;
    }
    Some(frames)
}

/// The frames of initializers are the same among classes with the same
/// methods.
proof fn lemma_frames_of_same_methods(
    a: Seq<Class>,
    b: Seq<Class>,
    runs: Seq<(usize, usize)>,
    n: int,
    return_pc: usize,
)
    requires
        a.len() == b.len(),
        forall|id: int| 0 <= id < a.len() ==> (#[trigger] a[id]).methods == b[id].methods,
        0 <= n <= runs.len(),
        all_runnable(a, runs),
    ensures
        clinit_frames(a, runs, n, return_pc) == clinit_frames(b, runs, n, return_pc),
        all_runnable(b, runs),
    decreases n,
{
    assert forall|k: int| 0 <= k < runs.len() implies runnable(b, #[trigger] runs[k]) by {
        assert(runnable(a, runs[k]));
        assert(a[runs[k].0 as int].methods == b[runs[k].0 as int].methods);
    }
    if n > 0 {
        lemma_frames_of_same_methods(a, b, runs, n - 1, return_pc);
        let run = runs[runs.len() - n];
        assert(runnable(a, run));
        assert(a[run.0 as int].methods == b[run.0 as int].methods);
    }
}

/// What the thread does with the way the instruction of its top frame
/// ended.
pub open spec fn handle_effect(
    thread: ThreadView,
    next: NextView,
    before: Vm,
    after: Vm,
    after_thread: ThreadView,
    status: StatusView,
) -> bool {
    let unchanged = after == before && after_thread == thread;
    match next {
        NextView::Step => unchanged && status == StatusView::Running,
        NextView::Return { v1, v2, return_pc } => {
            &&& after_thread == left(thread, v1, v2, return_pc)
            &&& initialization_noted(before, after, thread.frames.last().initializes, true)
            &&& status == (if thread.frames.len() == 1 {
                StatusView::Done
            } else {
                StatusView::Running
            })
        },
        NextView::InvokeStatic { class, index, return_pc } => invoke_effect(
            thread,
            Target::Method(class, index),
            return_pc,
            false,
            before,
            after,
            after_thread,
            status,
        ),
        NextView::InvokeSpecial {
            static_class,
            index,
            vtable_index,
            is_virtual,
            this,
            return_pc,
        } => invoke_effect(
            thread,
            virtual_target(before, static_class, index, vtable_index, is_virtual, this),
            return_pc,
            true,
            before,
            after,
            after_thread,
            status,
        ),
        NextView::InvokeInterface { interface, index, this, return_pc } => invoke_effect(
            thread,
            interface_target(before, interface, index, this),
            return_pc,
            true,
            before,
            after,
            after_thread,
            status,
        ),
        NextView::Exception(e) => unwind_effect(thread, e, before, after, after_thread, status),
        NextView::InitializeClass(class) => initialize_effect(
            thread,
            class,
            before,
            after,
            after_thread,
            status,
        ),
        NextView::LoadClass(name) => unchanged && status == StatusView::LoadClass(name),
        NextView::Float(request) => unchanged && status == StatusView::Float(request),
        NextView::Clock { nanos } => unchanged && status == (StatusView::Clock { nanos }),
        NextView::Blocked => unchanged && status == StatusView::Blocked,
        NextView::HeapFull => unchanged && status == StatusView::HeapFull,
        NextView::Malformed => unchanged && status == StatusView::Malformed,
    }
}

/// The thread with `frame` in place of its top frame, at `pc`.
pub open spec fn with_top(thread: ThreadView, frame: FrameView, pc: usize, wide: bool) -> ThreadView {
    ThreadView { frames: thread.frames.drop_last().push(frame), pc, wide, ..thread }
}

/// Whether the thread has run the instruction of its top frame, which
/// ended in `next` and left the frame as `stepped`, and has done with it
/// what [`handle_effect`] says.
pub open spec fn stepped_to(
    thread: ThreadView,
    before: Vm,
    middle: Vm,
    next: NextView,
    stepped: FrameView,
    pc: usize,
    wide: bool,
    after: Vm,
    after_thread: ThreadView,
    status: StatusView,
) -> bool {
    &&& step_effect(
        thread.frames.last(),
        thread.pc as int,
        thread.wide,
        thread.thread_id,
        before,
        middle,
        next,
        stepped,
        pc as int,
        wide,
    )
    &&& handle_effect(with_top(thread, stepped, pc, wide), next, middle, after, after_thread, status)
}

/// What one step of the thread does: the instruction at the program
/// counter of the top frame runs, and the thread does with its end what
/// [`handle_effect`] says. A thread without frames has stopped.
#[verifier::opaque]
pub open spec fn advance_effect(
    thread: ThreadView,
    before: Vm,
    after: Vm,
    after_thread: ThreadView,
    status: StatusView,
) -> bool {
    if thread.frames.len() == 0 {
        after == before && after_thread == thread && status == StatusView::Done
    } else if thread.frames.last().class >= before.loader.classes.len() {
        after == before && after_thread == thread && status == StatusView::Malformed
    } else {
        exists|middle: Vm, next: NextView, stepped: FrameView, pc: usize, wide: bool| #[trigger]
            stepped_to(thread, before, middle, next, stepped, pc, wide, after, after_thread, status)
    }
}

/// Whether the thread gets from `thread` to `after_thread` in `n` steps,
/// of which all but the last leave it running.
pub open spec fn ran(
    thread: ThreadView,
    before: Vm,
    n: nat,
    after: Vm,
    after_thread: ThreadView,
    status: StatusView,
) -> bool
    decreases n,
{
    if n == 0 {
        after == before && after_thread == thread && status == StatusView::Running
    } else {
        exists|middle: Vm, middle_thread: ThreadView|
            ran(thread, before, (n - 1) as nat, middle, middle_thread, StatusView::Running)
                && #[trigger] advance_effect(middle_thread, middle, after, after_thread, status)
    }
}

/// A thread that has run `n` steps and runs one more has run `n + 1`.
pub proof fn lemma_ran_on(
    thread: ThreadView,
    before: Vm,
    n: nat,
    middle: Vm,
    middle_thread: ThreadView,
    after: Vm,
    after_thread: ThreadView,
    status: StatusView,
)
    requires
        ran(thread, before, n, middle, middle_thread, StatusView::Running),
        advance_effect(middle_thread, middle, after, after_thread, status),
    ensures
        ran(thread, before, n + 1, after, after_thread, status),
{
    assert(((n + 1) - 1) as nat == n);
}

impl Thread {
    /// Invokes the target.
    pub fn invoke(&mut self, vm: &mut Vm, target: Target, return_pc: usize, need_this: bool) -> (status:
        Status)
        requires
            old(vm).wf(),
        ensures
            final(vm).wf(),
            invoke_effect(
                old(self)@,
                target,
                return_pc,
                need_this,
                *old(vm),
                *final(vm),
                final(self)@,
                status@,
            ),
    {
        match target {
            Target::Malformed => Status::Malformed,
            Target::Missing => self.handle_exception(
                vm,
                Exception::new_vm(VmExceptionKind::NoSuchMethod),
            ),
            Target::Method(class, method) => match self.enter(
                &vm.loader.classes,
                class,
                method,
                return_pc,
                need_this,
            ) {
                Entered::Entered => Status::Running,
                Entered::Overflow => self.handle_exception(
                    vm,
                    Exception::new_vm(VmExceptionKind::StackOverflow),
                ),
                Entered::Malformed => Status::Malformed,
            },
        }
    }

    /// Starts the initialization of a class.
    pub fn initialize(&mut self, vm: &mut Vm, class: usize) -> (status: Status)
        requires
            old(vm).wf(),
        ensures
            final(vm).wf(),
            initialize_effect(old(self)@, class, *old(vm), *final(vm), final(self)@, status@),
    {
        if class >= vm.loader.classes.len() {
            return Status::Malformed;
        }
        let runs = match vm.loader.initialize_class(class, self.thread_id) {
            Ok(runs) => runs,
            Err(InitError::Busy(_)) => {
                return Status::Blocked;
            },
            Err(InitError::Failed(_)) => {
                return self.handle_exception(
                    vm,
                    Exception::new_vm(VmExceptionKind::ExceptionInInitializer),
                );
            },
        };
        proof {
            lemma_famous_stay(vm.famous, old(vm).loader, vm.loader);
        }
        let ghost plan = plan_of(
            old(vm).loader.classes@,
            class,
            self.thread_id,
            Seq::empty(),
        )->Ok_0;
        assert(initialization_started(*old(vm), *vm, plan, self.thread_id));
        let made = make_clinit_frames(&vm.loader.classes, &runs, self.pc);
        proof {
            if all_runnable(vm.loader.classes@, runs@) {
                lemma_frames_of_same_methods(
                    vm.loader.classes@,
                    old(vm).loader.classes@,
                    runs@,
                    runs.len() as int,
                    self.pc,
                );
            }
            if all_runnable(old(vm).loader.classes@, runs@) {
                lemma_frames_of_same_methods(
                    old(vm).loader.classes@,
                    vm.loader.classes@,
                    runs@,
                    0,
                    self.pc,
                );
            }
        }
        match made {
            None => Status::Malformed,
            Some(mut frames) => {
                if runs.len() == 0 {
                    assert(self@.frames =~= old(self)@.frames);
                    return Status::Running;
                }
                let ghost pushed = frames@;
                self.frames.append(&mut frames);
                self.pc = 0;
                self.wide = false;
                assert(self@.frames =~= old(self)@.frames + frames_view(pushed));
                Status::Running
            },
        }
    }

    /// Does what the end of the instruction of the top frame asks for.
    pub fn handle(&mut self, vm: &mut Vm, next: Next) -> (status: Status)
        requires
            old(vm).wf(),
            old(self).frames.len() > 0,
        ensures
            final(vm).wf(),
            handle_effect(old(self)@, next@, *old(vm), *final(vm), final(self)@, status@),
    {
        match next {
            Next::Step => Status::Running,
            Next::Return { v1, v2, return_pc } => {
                let last = self.frames.len() == 1;
                self.leave(vm, v1, v2, return_pc);
                if last {
                    Status::Done
                } else {
                    Status::Running
                }
            },
            Next::InvokeStatic { class, index, return_pc } => self.invoke(
                vm,
                Target::Method(class, index),
                return_pc,
                false,
            ),
            Next::InvokeSpecial {
                static_class,
                index,
                vtable_index,
                is_virtual,
                this,
                return_pc,
            } => {
                let target = find_virtual_target(
                    vm,
                    static_class,
                    index,
                    vtable_index,
                    is_virtual,
                    this,
                );
                self.invoke(vm, target, return_pc, true)
            },
            Next::InvokeInterface { interface, index, this, return_pc } => {
                let target = find_interface_target(vm, interface, index, this);
                self.invoke(vm, target, return_pc, true)
            },
            Next::Exception(e) => self.handle_exception(vm, e),
            Next::InitializeClass(class) => self.initialize(vm, class),
            Next::LoadClass(name) => Status::LoadClass(name),
            Next::Float(request) => Status::Float(request),
            Next::Clock { nanos } => Status::Clock { nanos },
            Next::Blocked => Status::Blocked,
            Next::HeapFull => Status::HeapFull,
            Next::Malformed => Status::Malformed,
        }
    }

    /// Runs the instruction at the program counter of the top frame and
    /// does what its end asks for.
    pub fn advance(&mut self, vm: &mut Vm) -> (status: Status)
        requires
            old(vm).wf(),
        ensures
            final(vm).wf(),
            advance_effect(old(self)@, *old(vm), *final(vm), final(self)@, status@),
    {
        reveal(advance_effect);
        let ghost before = self@;
        let mut frame = match self.frames.pop() {
            Some(frame) => frame,
            None => {
                assert(self@.frames =~= before.frames);
                return Status::Done;
            },
        };
        assert(frame@ == before.frames.last());
        assert(self@.frames =~= before.frames.drop_last());
        if frame.class >= vm.loader.classes.len() {
            self.frames.push(frame);
            assert(self@.frames =~= before.frames);
            return Status::Malformed;
        }
        let mut pc = self.pc;
        let mut wide = self.wide;
        let next = step(&mut frame, &mut pc, &mut wide, vm, self.thread_id);
        let ghost middle = *vm;
        let ghost stepped = frame@;
        self.frames.push(frame);
        self.pc = pc;
        self.wide = wide;
        assert(self@.frames =~= with_top(before, stepped, pc, wide).frames);
        let status = self.handle(vm, next);
        assert(stepped_to(
            before,
            *old(vm),
            middle,
            next@,
            stepped,
            pc,
            wide,
            *vm,
            self@,
            status@,
        ));
        status
    }

    /// Runs the thread until it stops, for `fuel` instructions at most.
    /// Given are why it stopped and how many instructions it ran; it is
    /// still running where the fuel has run out.
    pub fn execute(&mut self, vm: &mut Vm, fuel: usize) -> (r: (Status, usize))
        requires
            old(vm).wf(),
        ensures
            final(vm).wf(),
            r.1 <= fuel,
            r.0 is Running ==> r.1 == fuel,
            ran(old(self)@, *old(vm), r.1 as nat, *final(vm), final(self)@, r.0@),
    {
        let mut steps: usize = 0;
        while steps < fuel
            invariant
                steps <= fuel,
                vm.wf(),
                ran(old(self)@, *old(vm), steps as nat, *vm, self@, StatusView::Running),
            decreases fuel - steps,
        {
            let ghost middle = *vm;
            let ghost middle_thread = self@;
            let status = self.advance(vm);
            proof {
                lemma_ran_on(
                    old(self)@,
                    *old(vm),
                    steps as nat,
                    middle,
                    middle_thread,
                    *vm,
                    self@,
                    status@,
                );
            }
            steps += 1;
            match status {
                Status::Running => {},
                stopped => {
                    return (stopped, steps);
                },
            }
        }
        (Status::Running, steps)
    }

    /// Hands the result of the floating-point instruction at the program
    /// counter of the top frame to the thread, which goes on behind the
    /// instruction.
    pub fn resume_float(&mut self, result: u64) -> (status: Status)
        ensures
            if old(self).frames.len() == 0 {
                final(self)@ == old(self)@ && status@ == StatusView::Malformed
            } else {
                let top = old(self)@.frames.last();
                let effect = float_result_effect(
                    top.code,
                    Locus { pc: old(self).pc as int, stack: top.stack, locals: Seq::empty() },
                    result,
                );
                &&& final(self)@ == (ThreadView {
                    frames: old(self)@.frames.drop_last().push(
                        FrameView { stack: effect.1.stack, ..top },
                    ),
                    pc: effect.1.pc as usize,
                    wide: old(self).wide && !(effect.0 is Step),
                    ..old(self)@
                })
                &&& status@ == (if effect.0 is Step {
                    StatusView::Running
                } else {
                    StatusView::Malformed
                })
            },
    {
        let ghost before = self@;
        let mut frame = match self.frames.pop() {
            Some(frame) => frame,
            None => {
                assert(self@.frames =~= before.frames);
                return Status::Malformed;
            },
        };
        assert(frame@ == before.frames.last());
        assert(self@.frames =~= before.frames.drop_last());
        let mut pc = self.pc;
        let outcome = apply_float_result(&frame.code, &mut pc, &mut frame.stack, result);
        let ghost stepped = frame@;
        self.frames.push(frame);
        self.pc = pc;
        assert(self@.frames =~= before.frames.drop_last().push(stepped));
        match outcome {
            Outcome::Step => {
                self.wide = false;
                Status::Running
            },
            _ => Status::Malformed,
        }
    }

    /// Hands what a native method gives to the thread: the value comes on
    /// the operand stack of the top frame, which goes on behind the call.
    pub fn resume_native(&mut self, value: Option<NativeVariable>) -> (status: Status)
        ensures
            if old(self).frames.len() == 0 || old(self).pc == usize::MAX {
                final(self)@ == old(self)@ && status@ == StatusView::Malformed
            } else {
                let top = old(self)@.frames.last();
                &&& final(self)@ == (ThreadView {
                    frames: old(self)@.frames.drop_last().push(
                        FrameView {
                            stack: crate::runtime::native::with_native_result(top.stack, value),
                            ..top
                        },
                    ),
                    pc: (old(self).pc + 1) as usize,
                    wide: false,
                    ..old(self)@
                })
                &&& status@ == StatusView::Running
            },
    {
        let ghost before = self@;
        if self.pc == usize::MAX {
            return Status::Malformed;
        }
        let mut frame = match self.frames.pop() {
            Some(frame) => frame,
            None => {
                assert(self@.frames =~= before.frames);
                return Status::Malformed;
            },
        };
        assert(frame@ == before.frames.last());
        assert(self@.frames =~= before.frames.drop_last());
        let mut pc = self.pc;
        let _ = finish_native(NativeOutcome::Value(value), &mut pc, &mut frame.stack);
        let ghost stepped = frame@;
        self.frames.push(frame);
        self.pc = pc;
        self.wide = false;
        assert(self@.frames =~= before.frames.drop_last().push(stepped));
        Status::Running
    }
}

/// The first method from `from` on with this name and these parameters.
pub open spec fn method_named(
    methods: Seq<MethodInfo>,
    from: int,
    name: Seq<u8>,
    parameters: Seq<FieldTypeView>,
) -> Option<int>
    decreases methods.len() - from,
{
    if from < 0 || from >= methods.len() {
        None
    } else if methods[from].name@ == name && methods[from].descriptor@.parameters == parameters {
        Some(from)
    } else {
        method_named(methods, from + 1, name, parameters)
    }
}

/// The first method that has the name and the parameters, with none
/// before it that has them, is the method named.
proof fn lemma_method_named(
    methods: Seq<MethodInfo>,
    from: int,
    name: Seq<u8>,
    parameters: Seq<FieldTypeView>,
    end: int,
)
    requires
        0 <= from <= end <= methods.len(),
        forall|k: int|
            from <= k < end ==> !(methods[k].name@ == name && methods[k].descriptor@.parameters
                == parameters),
    ensures
        method_named(methods, from, name, parameters) == method_named(
            methods,
            end,
            name,
            parameters,
        ),
    decreases end - from,
{
    if from < end {
        lemma_method_named(methods, from + 1, name, parameters, end);
    }
}

/// How a thread starts that cannot have its main class.
pub open spec fn start_failure(failure: DefineFailure) -> StatusView {
    match failure {
        DefineFailure::Missing(name) => StatusView::LoadClass(name),
        _ => StatusView::Malformed,
    }
}

/// What starting a thread at a static method does: the frame of the
/// method, without arguments, comes on top of the thread, and the
/// initialization of its class starts. Where the class has yet to be
/// defined, the thread has to be started again once it is.
pub open spec fn start_effect(
    thread: ThreadView,
    main_class: Seq<char>,
    method_name: Seq<u8>,
    parameters: Seq<FieldTypeView>,
    before: Vm,
    after: Vm,
    after_thread: ThreadView,
    status: StatusView,
) -> bool {
    exists|middle: Vm| #[trigger]
        class_named_frame(before.loader, middle.loader, main_class) && middle == (Vm {
            loader: middle.loader,
            ..before
        }) && (match class_named(before.loader, middle.loader, main_class) {
            Err(failure) => after == middle && after_thread == thread && status == start_failure(
                failure,
            ),
            Ok(class) => {
                let methods = middle.loader.classes[class as int].methods@;
                match method_named(methods, 0, method_name, parameters) {
                    None => after == middle && after_thread == thread && status
                        == StatusView::Malformed,
                    Some(m) => if method_body(methods[m]@).is_none() {
                        after == middle && after_thread == thread && status
                            == StatusView::Malformed
                    } else {
                        initialize_effect(
                            ThreadView {
                                frames: thread.frames.push(
                                    new_frame_view(class, methods[m]@, Seq::empty(), 0, false),
                                ),
                                pc: 0,
                                wide: false,
                                ..thread
                            },
                            class,
                            middle,
                            after,
                            after_thread,
                            status,
                        )
                    },
                }
            },
        })
}

impl Thread {
    /// Starts the thread at a static method of the class with this name.
    pub fn new_main_frame(
        &mut self,
        vm: &mut Vm,
        main_class: &str,
        method_name: &str,
        param_descriptor: &Vec<FieldType>,
    ) -> (status: Status)
        requires
            old(vm).wf(),
        ensures
            final(vm).wf(),
            start_effect(
                old(self)@,
                main_class@,
                java_cesu8_encoded(method_name@),
                types_view(param_descriptor@),
                *old(vm),
                *final(vm),
                final(self)@,
                status@,
            ),
    {
        let found = vm.loader.class_by_name(main_class);
        proof {
            lemma_famous_stay(vm.famous, old(vm).loader, vm.loader);
        }
        let ghost middle = *vm;
        assert(class_named_frame(old(vm).loader, middle.loader, main_class@));
        let class = match found {
            Ok(class) => class,
            Err(DefineError::Missing(name)) => {
                return Status::LoadClass(name);
            },
            Err(_) => {
                return Status::Malformed;
            },
        };
        let name = JavaStr::from_str(method_name);
        let m = match vm.loader.classes[class].resolve_method(&name, param_descriptor) {
            Some(m) => {
                proof {
                    lemma_method_named(
                        vm.loader.classes[class as int].methods@,
                        0,
                        name@,
                        types_view(param_descriptor@),
                        m as int,
                    );
                }
                m
            },
            None => {
                proof {
                    lemma_method_named(
                        vm.loader.classes[class as int].methods@,
                        0,
                        name@,
                        types_view(param_descriptor@),
                        vm.loader.classes[class as int].methods.len() as int,
                    );
                }
                return Status::Malformed;
            },
        };
        let frame = match Frame::without_arguments(class, &vm.loader.classes[class].methods[m], 0) {
            Some(frame) => frame,
            None => {
                return Status::Malformed;
            },
        };
        let ghost held = self@.frames;
        let ghost pushed = frame@;
        self.frames.push(frame);
        self.pc = 0;
        self.wide = false;
        assert(self@.frames =~= held.push(pushed));
        self.initialize(vm, class)
    }
}

} // verus!

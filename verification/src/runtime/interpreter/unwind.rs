//! Exceptions: the search for a handler and the unwinding of the frames.

use crate::runtime::class_loader::bootstrap::{same_shapes, BootstrapClassLoader};
use crate::runtime::class_loader::layout::layout_start;
use crate::runtime::famous_classes::famous_of;
use crate::runtime::heap::{allocated, ObjectView, PayloadView, MAX_OBJECT_ID};
use crate::runtime::inheritance::{is_same_or_sub_class_of, same_or_sub_class};
use crate::runtime::interpreter::frame::FrameView;
use crate::runtime::interpreter::next::ExceptionView;
use crate::runtime::interpreter::object_ops::{object_slots, zero_slots};
use crate::runtime::interpreter::thread::{
    frames_view, note_initialization, Status, StatusView, Thread, ThreadView,
};
use crate::runtime::interpreter::variable::{join, Variable};
use crate::runtime::native::system::class_of_object;
use crate::runtime::structs::attributes::{
    exception_table_view, ExceptionTableItem, ExceptionTableItemView,
};
use crate::runtime::structs::exception::Exception;
use crate::runtime::structs::object::ObjectMonitor;
use crate::runtime::structs::{field_infos_view, Class, ClinitStatus};
use crate::runtime::Vm;
use vstd::prelude::*;

verus! {

/// The class of what is thrown: for an exception of the machine, the class
/// of exceptions of its kind; for an object, the class of the object.
pub open spec fn thrown_class(vm: Vm, e: ExceptionView) -> Option<usize> {
    match e {
        ExceptionView::VmException { exception_type, .. } => Some(
            vm.famous.ids@[famous_of(exception_type)],
        ),
        ExceptionView::UserException(object) => class_of_object(vm, object),
    }
}

/// Whether the handler catches what is thrown at `pc`: `pc` lies in its
/// range, and it names no class, or a class that the class of what is
/// thrown is, or is a sub-class of.
pub open spec fn catches(
    item: ExceptionTableItemView,
    pc: int,
    classes: Seq<Class>,
    names: Map<Seq<char>, usize>,
    thrown: Option<usize>,
) -> bool {
    item.start_pc <= pc < item.end_pc && (match item.catch_type {
        None => true,
        Some(name) => thrown.is_some() && names.contains_key(name) && same_or_sub_class(
            classes,
            thrown->Some_0 as int,
            names[name],
        ),
    })
}

/// Where the first handler from `from` on that catches what is thrown at
/// `pc` starts.
pub open spec fn handler_in(
    table: Seq<ExceptionTableItemView>,
    from: int,
    pc: int,
    classes: Seq<Class>,
    names: Map<Seq<char>, usize>,
    thrown: Option<usize>,
) -> Option<u16>
    decreases table.len() - from,
{
    if from < 0 || from >= table.len() {
        None
    } else if catches(table[from], pc, classes, names, thrown) {
        Some(table[from].handler_pc)
    } else {
        handler_in(table, from + 1, pc, classes, names, thrown)
    }
}

/// Finds the first handler of the table that catches what is thrown at
/// `pc`.
pub fn find_handler(
    table: &Vec<ExceptionTableItem>,
    pc: usize,
    loader: &BootstrapClassLoader,
    thrown: Option<usize>,
) -> (handler: Option<u16>)
    requires
        loader.wf(),
        thrown matches Some(c) ==> c < loader.classes.len(),
    ensures
        handler == handler_in(
            exception_table_view(table@),
            0,
            pc as int,
            loader.classes@,
            loader.names(),
            thrown,
        ),
{
    let ghost views = exception_table_view(table@);
    let mut i: usize = 0;
    while i < table.len()
        invariant
            i <= table.len(),
            loader.wf(),
            thrown matches Some(c) ==> c < loader.classes.len(),
            views == exception_table_view(table@),
            handler_in(views, 0, pc as int, loader.classes@, loader.names(), thrown) == handler_in(
                views,
                i as int,
                pc as int,
                loader.classes@,
                loader.names(),
                thrown,
            ),
        decreases table.len() - i,
    {
        let item = &table[i];
        assert(views[i as int] == item@);
        if item.start_pc as usize <= pc && pc < item.end_pc as usize {
            let caught = match &item.catch_type {
                None => true,
                Some(name) => match (thrown, loader.find_class(name.as_str())) {
                    (Some(c), Some(handler_class)) => is_same_or_sub_class_of(
                        &loader.classes,
                        c,
                        handler_class,
                    ),
                    _ => false,
                },
            };
            if caught {
                return Some(item.handler_pc);
            }
        }
        i += 1;
    }
    None
}

/// Where the frame below goes on: the address in the two bottom slots of
/// the operand stack. None where the stack has no two slots or the address
/// is none of this machine.
pub open spec fn return_address(stack: Seq<Variable>) -> Option<usize> {
    if stack.len() < 2 || Variable::bits_of(stack[0], stack[1]) > usize::MAX {
        None
    } else {
        Some(Variable::bits_of(stack[0], stack[1]) as usize)
    }
}

/// Where the frame below goes on.
pub fn read_return_address(stack: &Vec<Variable>) -> (address: Option<usize>)
    ensures
        address == return_address(stack@),
{
    if stack.len() < 2 {
        return None;
    }
    let address = join(stack[0].get_return_address(), stack[1].get_return_address());
    if address > usize::MAX as u64 {
        None
    } else {
        Some(address as usize)
    }
}

/// The two bottom slots of an operand stack, which hold the return
/// address.
pub open spec fn bottom(stack: Seq<Variable>) -> Seq<Variable> {
    if stack.len() > 2 {
        stack.subrange(0, 2)
    } else {
        stack
    }
}

/// What the search for a handler finds.
pub enum Search {
    /// The top-most of the first `kept` frames has a handler, which starts
    /// at `handler_pc`.
    Handler { kept: int, handler_pc: u16 },
    /// No frame has a handler.
    Uncaught,
    /// A frame has no return address.
    Malformed,
}

/// The search for a handler among the first `n` frames, from the top-most
/// of them down, for what is thrown at `pc` in that frame. Each frame
/// below is searched at the address that the frame above it returns to.
pub open spec fn search(
    frames: Seq<FrameView>,
    n: int,
    pc: int,
    classes: Seq<Class>,
    names: Map<Seq<char>, usize>,
    thrown: Option<usize>,
) -> Search
    decreases n,
{
    if n <= 0 {
        Search::Uncaught
    } else {
        match handler_in(frames[n - 1].exception_table, 0, pc, classes, names, thrown) {
            Some(handler_pc) => Search::Handler { kept: n, handler_pc },
            None => match return_address(frames[n - 1].stack) {
                Some(address) => search(frames, n - 1, address as int, classes, names, thrown),
                None => Search::Malformed,
            },
        }
    }
}

/// What the search for a handler finds, as numbers: the frames to keep and
/// where the handler starts; no frames where nothing is caught; none where
/// a frame has no return address.
fn find_frame(thread: &Thread, loader: &BootstrapClassLoader, thrown: Option<usize>) -> (found:
    Option<(usize, u16)>)
    requires
        loader.wf(),
        thrown matches Some(c) ==> c < loader.classes.len(),
    ensures
        match search(
            thread@.frames,
            thread.frames.len() as int,
            thread.pc as int,
            loader.classes@,
            loader.names(),
            thrown,
        ) {
            Search::Handler { kept, handler_pc } => found == Some((kept as usize, handler_pc))
                && 0 < kept <= thread.frames.len(),
            Search::Uncaught => found == Some((0usize, 0u16)),
            Search::Malformed => found.is_none(),
        },
{
    let ghost frames = thread@.frames;
    let mut n: usize = thread.frames.len();
    let mut pc: usize = thread.pc;
    while n > 0
        invariant
            n <= thread.frames.len(),
            loader.wf(),
            thrown matches Some(c) ==> c < loader.classes.len(),
            frames == thread@.frames,
            search(
                frames,
                thread.frames.len() as int,
                thread.pc as int,
                loader.classes@,
                loader.names(),
                thrown,
            ) == search(frames, n as int, pc as int, loader.classes@, loader.names(), thrown),
        decreases n,
    {
        let frame = &thread.frames[n - 1];
        assert(frames[n - 1] == frame@);
        match find_handler(&frame.exception_table, pc, loader, thrown) {
            Some(handler_pc) => {
                return Some((n, handler_pc));
            },
            None => {},
        }
        match read_return_address(&frame.stack) {
            Some(address) => {
                pc = address;
            },
            None => {
                return None;
            },
        }
        n -= 1;
    }
    Some((0, 0))
}

/// The object that lands in the handler: the object that was thrown; for
/// an exception of the machine, a new object of the class of exceptions of
/// its kind, with all slots zero, which gets the next free identifier.
/// Given are the identifier and, for a new object, what it is. There is no
/// object where the heap is full or the class has more slots than can be
/// counted.
pub open spec fn landing_object(vm: Vm, e: ExceptionView) -> Result<
    (u32, Option<ObjectView>),
    StatusView,
> {
    match e {
        ExceptionView::UserException(object) => Ok((object, None)),
        ExceptionView::VmException { exception_type, .. } => {
            let class = vm.famous.ids@[famous_of(exception_type)];
            let slots = layout_start(
                field_infos_view(vm.loader.classes[class as int].instance_fields_info@),
            );
            if slots > usize::MAX {
                Err(StatusView::Malformed)
            } else if vm.heap.next_id >= MAX_OBJECT_ID - 1 {
                Err(StatusView::HeapFull)
            } else {
                Ok(
                    (
                        (vm.heap.next_id + 1) as u32,
                        Some(
                            ObjectView {
                                class,
                                monitor: ObjectMonitor { owner: 0, count: 0 },
                                fields_or_array: PayloadView::Fields(
                                    Seq::new(slots as nat, |i: int| Variable { bits: 0 }),
                                ),
                            },
                        ),
                    ),
                )
            }
        },
    }
}

/// Whether one of the frames from `kept` on runs the initializer of the
/// class.
pub open spec fn fails(frames: Seq<FrameView>, kept: int, class: int) -> bool {
    exists|k: int| kept <= k < frames.len() && (#[trigger] frames[k]).initializes == Some(class as usize)
}

/// Whether the loader `after` is `before` with the initialization of the
/// classes failed whose initializers the frames from `kept` on were
/// running.
pub open spec fn initializers_failed(
    before: BootstrapClassLoader,
    after: BootstrapClassLoader,
    frames: Seq<FrameView>,
    kept: int,
) -> bool {
    &&& same_shapes(before, after)
    &&& forall|id: int|
        0 <= id < before.classes.len() ==> {
            &&& (#[trigger] after.classes[id]).constant_pool == before.classes[id].constant_pool
            &&& after.classes[id].static_fields == before.classes[id].static_fields
            &&& after.classes[id].clinit_call == (if fails(frames, kept, id) {
                ClinitStatus::Failed
            } else {
                before.classes[id].clinit_call
            })
        }
}

/// What throwing `e` in the top frame of the thread does. The frames above
/// the first frame with a handler are gone, and the classes whose
/// initializers they ran have failed; that frame goes on at the handler,
/// with nothing but what was thrown on its operand stack. Where no frame
/// has a handler, the thread has stopped: its frames stay as they are, for
/// whoever wants to know where it stopped, and the classes whose
/// initializers they ran have failed.
pub open spec fn unwind_effect(
    thread: ThreadView,
    e: ExceptionView,
    before: Vm,
    after: Vm,
    after_thread: ThreadView,
    status: StatusView,
) -> bool {
    let unchanged = after == before && after_thread == thread;
    match search(
        thread.frames,
        thread.frames.len() as int,
        thread.pc as int,
        before.loader.classes@,
        before.loader.names(),
        thrown_class(before, e),
    ) {
        Search::Malformed => unchanged && status == StatusView::Malformed,
        Search::Uncaught => {
            &&& initializers_failed(before.loader, after.loader, thread.frames, 0)
            &&& after == (Vm { loader: after.loader, ..before })
            &&& after_thread == thread
            &&& status == StatusView::Uncaught(e)
        },
        Search::Handler { kept, handler_pc } => match landing_object(before, e) {
            Err(stopped) => unchanged && status == stopped,
            Ok((object, made)) => {
                &&& initializers_failed(before.loader, after.loader, thread.frames, kept)
                &&& after == (Vm { loader: after.loader, heap: after.heap, ..before })
                &&& match made {
                    Some(made) => allocated(before.heap, after.heap, object, made),
                    None => after.heap == before.heap,
                }
                &&& after_thread == (ThreadView {
                    frames: thread.frames.subrange(0, kept).update(
                        kept - 1,
                        FrameView {
                            stack: bottom(thread.frames[kept - 1].stack).push(
                                Variable::of_bits(object),
                            ),
                            ..thread.frames[kept - 1]
                        },
                    ),
                    pc: handler_pc as usize,
                    wide: false,
                    ..thread
                })
                &&& status == StatusView::Running
            },
        },
    }
}

impl Thread {
    /// Notes that the classes have failed whose initializers the frames
    /// from `kept` on were running.
    fn fail_initializers(&self, vm: &mut Vm, kept: usize)
        requires
            old(vm).wf(),
            kept <= self.frames.len(),
        ensures
            final(vm).wf(),
            initializers_failed(old(vm).loader, final(vm).loader, self@.frames, kept as int),
            *final(vm) == (Vm { loader: final(vm).loader, ..*old(vm) }),
    {
        let ghost frames = self@.frames;
        let mut n: usize = self.frames.len();
        while n > kept
            invariant
                kept <= n <= self.frames.len(),
                vm.wf(),
                frames == self@.frames,
                initializers_failed(old(vm).loader, vm.loader, frames, n as int),
                *vm == (Vm { loader: vm.loader, ..*old(vm) }),
            decreases n,
        {
            let ghost middle = vm.loader;
            let top = &self.frames[n - 1];
            assert(frames_view(self.frames@)[n - 1] == self.frames@[n - 1]@);
            assert(top@ == frames[n - 1]);
            note_initialization(vm, top.initializes, false);
            proof {
                assert forall|id: int| 0 <= id < old(vm).loader.classes.len() implies {
                    &&& (#[trigger] vm.loader.classes[id]).constant_pool == old(
                        vm,
                    ).loader.classes[id].constant_pool
                    &&& vm.loader.classes[id].static_fields == old(
                        vm,
                    ).loader.classes[id].static_fields
                    &&& vm.loader.classes[id].clinit_call == (if fails(frames, n - 1, id) {
                        ClinitStatus::Failed
                    } else {
                        old(vm).loader.classes[id].clinit_call
                    })
                } by {
                    assert(middle.classes[id].constant_pool == old(
                        vm,
                    ).loader.classes[id].constant_pool);
                    if fails(frames, n as int, id) {
                        let k = choose|k: int|
                            n <= k < frames.len() && (#[trigger] frames[k]).initializes == Some(
                                id as usize,
                            );
                        assert(n - 1 <= k < frames.len() && frames[k].initializes == Some(
                            id as usize,
                        ));
                    }
                    if frames[n - 1].initializes == Some(id as usize) {
                        assert(fails(frames, n - 1, id));
                    }
                    if fails(frames, n - 1, id) && !fails(frames, n as int, id) {
                        let k = choose|k: int|
                            n - 1 <= k < frames.len() && (#[trigger] frames[k]).initializes
                                == Some(id as usize);
                        assert(k == n - 1);
                    }
                }
            }
            n -= 1;
        }
    }

    /// Throws `exception` in the top frame of the thread.
    pub fn handle_exception(&mut self, vm: &mut Vm, exception: Exception) -> (status: Status)
        requires
            old(vm).wf(),
        ensures
            final(vm).wf(),
            unwind_effect(old(self)@, exception@, *old(vm), *final(vm), final(self)@, status@),
    {
        let thrown = match &exception {
            Exception::VmException { exception_type, .. } => Some(
                vm.famous.exception_class(*exception_type),
            ),
            Exception::UserException(object) => {
                let classes = vm.famous.special_classes();
                match vm.heap.get_class(*object, &classes) {
                    Some(class) => if class < vm.loader.classes.len() {
                        Some(class)
                    } else {
                        None
                    },
                    None => None,
                }
            },
        };
        assert(thrown == thrown_class(*vm, exception@));
        let (kept, handler_pc) = match find_frame(self, &vm.loader, thrown) {
            Some(found) => found,
            None => {
                return Status::Malformed;
            },
        };
        if kept == 0 {
            self.fail_initializers(vm, 0);
            return Status::Uncaught(exception);
        }
        let object = match &exception {
            Exception::UserException(object) => *object,
            Exception::VmException { exception_type, .. } => {
                let class = vm.famous.exception_class(*exception_type);
                let slots = match object_slots(&vm.loader.classes[class]) {
                    Some(slots) => slots,
                    None => {
                        return Status::Malformed;
                    },
                };
                match vm.heap.allocate_object(class, zero_slots(slots)) {
                    Some(id) => id,
                    None => {
                        return Status::HeapFull;
                    },
                }
            },
        };
        let ghost allocated_vm = *vm;
        assert(0 < kept <= old(self).frames.len());
        self.fail_initializers(vm, kept);
        self.frames.truncate(kept);
        assert(self@.frames =~= old(self)@.frames.subrange(0, kept as int));
        assert(self.frames@.len() == kept);
        let ghost held = self.frames@;
        match self.frames.pop() {
            Some(mut frame) => {
                assert(frames_view(held)[kept - 1] == held[kept - 1]@);
                assert(old(self)@.frames.subrange(0, kept as int)[kept - 1] == old(
                    self,
                )@.frames[kept - 1]);
                assert(frame@ == old(self)@.frames[kept - 1]);
                if frame.stack.len() > 2 {
                    frame.stack.truncate(2);
                }
                frame.stack.push(Variable::from_reference(object));
                self.frames.push(frame);
                assert(self@.frames =~= old(self)@.frames.subrange(0, kept as int).update(
                    kept - 1,
                    FrameView {
                        stack: bottom(old(self)@.frames[kept - 1].stack).push(
                            Variable::of_bits(object),
                        ),
                        ..old(self)@.frames[kept - 1]
                    },
                ));
            },
            None => {},
        }
        self.pc = handler_pc as usize;
        self.wide = false;
        Status::Running
    }
}

} // verus!

//! A thread: a stack of frames and the program counter of the top frame.
//!
//! The frames below the top keep, in the two bottom slots of the operand
//! stack of the frame above them, where they go on.

use crate::descriptor::FieldTypeView;
use crate::runtime::class_loader::bootstrap::same_shapes;
use crate::runtime::famous_classes::lemma_famous_stay;
use crate::runtime::interpreter::frame::{
    argument_slots, method_body, new_frame_view, Frame, FrameView,
};
use crate::runtime::interpreter::float_ops::FloatRequest;
use crate::runtime::interpreter::local::{depth, dropped};
use crate::runtime::interpreter::next::ExceptionView;
use crate::runtime::structs::exception::Exception;
use crate::runtime::interpreter::variable::Variable;
use crate::runtime::structs::{Class, ClinitStatus};
use crate::runtime::Vm;
use vstd::prelude::*;

verus! {

/// A thread of the machine.
pub struct Thread {
    /// The frames, the top frame last.
    pub frames: Vec<Frame>,
    /// The number of frames that the thread may have.
    pub max_frame_size: usize,
    pub thread_id: usize,
    /// The program counter of the top frame.
    pub pc: usize,
    /// Whether the `wide` prefix is in force for the next instruction.
    pub wide: bool,
}

pub struct ThreadView {
    pub frames: Seq<FrameView>,
    pub max_frame_size: usize,
    pub thread_id: usize,
    pub pc: usize,
    pub wide: bool,
}

/// The mathematical values of the frames.
pub open spec fn frames_view(frames: Seq<Frame>) -> Seq<FrameView> {
    frames.map_values(|f: Frame| f@)
}

impl View for Thread {
    type V = ThreadView;

    open spec fn view(&self) -> ThreadView {
        ThreadView {
            frames: frames_view(self.frames@),
            max_frame_size: self.max_frame_size,
            thread_id: self.thread_id,
            pc: self.pc,
            wide: self.wide,
        }
    }
}

/// Why a thread has stopped.
#[derive(Debug)]
pub enum Status {
    /// It has not stopped: it can go on.
    Running,
    /// Its last frame has returned.
    Done,
    /// An exception has left its last frame.
    Uncaught(Exception),
    /// The class with this name has to be defined; then the thread can go
    /// on.
    LoadClass(String),
    /// The instruction at the program counter computes with floating-point
    /// numbers: its result has to be handed to the thread.
    Float(FloatRequest),
    /// The native method of the top frame gives what the clock reads: that
    /// has to be handed to the thread.
    Clock { nanos: bool },
    /// Another thread holds what the thread asks for.
    Blocked,
    /// The heap has no room for what the thread asks for.
    HeapFull,
    /// The code asks for what no verified class file asks for.
    Malformed,
}

pub enum StatusView {
    Running,
    Done,
    Uncaught(ExceptionView),
    LoadClass(Seq<char>),
    Float(FloatRequest),
    Clock { nanos: bool },
    Blocked,
    HeapFull,
    Malformed,
}

impl View for Status {
    type V = StatusView;

    open spec fn view(&self) -> StatusView {
        match self {
            Status::Running => StatusView::Running,
            Status::Done => StatusView::Done,
            Status::Uncaught(e) => StatusView::Uncaught(e@),
            Status::LoadClass(name) => StatusView::LoadClass(name@),
            Status::Float(request) => StatusView::Float(*request),
            Status::Clock { nanos } => StatusView::Clock { nanos: *nanos },
            Status::Blocked => StatusView::Blocked,
            Status::HeapFull => StatusView::HeapFull,
            Status::Malformed => StatusView::Malformed,
        }
    }
}

/// How an invocation went.
#[derive(Debug, Clone, Copy, PartialEq, Eq, Structural)]
pub enum Entered {
    /// The frame of the method is the top frame.
    Entered,
    /// The thread has as many frames as it may have.
    Overflow,
    /// There is no such method, the method has no code, or the caller has
    /// too few operands for it.
    Malformed,
}

/// The operand stack of the caller with what a method of this return type
/// returned on it: nothing, one slot, or two for a long or a double.
pub open spec fn with_returned(
    stack: Seq<Variable>,
    return_type: Option<FieldTypeView>,
    v1: Variable,
    v2: Variable,
) -> Seq<Variable> {
    match return_type {
        None => stack,
        Some(t) => if t.is_long() {
            stack.push(v1).push(v2)
        } else {
            stack.push(v1)
        },
    }
}

/// Whether `after` is `before` with the end of the initializer of a class
/// noted: the class is initialized, or its initialization has failed.
/// Where no class is named, the two are the same.
pub open spec fn initialization_noted(
    before: Vm,
    after: Vm,
    class: Option<usize>,
    succeeded: bool,
) -> bool {
    match class {
        Some(c) => if c < before.loader.classes.len() {
            &&& same_shapes(before.loader, after.loader)
            &&& after.loader.classes[c as int].clinit_call == (if succeeded {
                ClinitStatus::Init
            } else {
                ClinitStatus::Failed
            })
            &&& after.loader.classes[c as int].constant_pool
                == before.loader.classes[c as int].constant_pool
            &&& after.loader.classes[c as int].static_fields
                == before.loader.classes[c as int].static_fields
            &&& forall|id: int|
                0 <= id < before.loader.classes.len() && id != c ==> after.loader.classes[id]
                    == before.loader.classes[id]
            &&& after == (Vm { loader: after.loader, ..before })
        } else {
            after == before
        },
        None => after == before,
    }
}

/// The thread with the frame of an invocation of method `method` of class
/// `class` on top, which takes its arguments from the operand stack of the
/// frame that was on top and returns to `return_pc`; and how the
/// invocation went. Unless the frame is entered, the thread stays as it
/// is.
pub open spec fn entered(
    thread: ThreadView,
    classes: Seq<Class>,
    class: usize,
    method: usize,
    return_pc: usize,
    need_this: bool,
) -> (ThreadView, Entered) {
    if class >= classes.len() || method >= classes[class as int].methods.len()
        || thread.frames.len() == 0 {
        (thread, Entered::Malformed)
    } else if thread.frames.len() >= thread.max_frame_size {
        (thread, Entered::Overflow)
    } else {
        let m = classes[class as int].methods[method as int]@;
        let caller = thread.frames.last();
        let slots = argument_slots(m, need_this);
        if method_body(m).is_none() || depth(caller.stack) < slots {
            (thread, Entered::Malformed)
        } else {
            (
                ThreadView {
                    frames: thread.frames.drop_last().push(
                        FrameView { stack: dropped(caller.stack, slots), ..caller },
                    ).push(
                        new_frame_view(
                            class,
                            m,
                            caller.stack.subrange(
                                caller.stack.len() - slots,
                                caller.stack.len() as int,
                            ),
                            return_pc,
                            need_this,
                        ),
                    ),
                    pc: 0,
                    wide: false,
                    ..thread
                },
                Entered::Entered,
            )
        }
    }
}

/// The thread once its top frame has returned `v1` (and `v2`) to
/// `return_pc`: the frame is gone, and what it returned lies on the
/// operand stack of the frame below, if there is one.
pub open spec fn left(thread: ThreadView, v1: Variable, v2: Variable, return_pc: usize) -> ThreadView {
    let top = thread.frames.last();
    let rest = thread.frames.drop_last();
    ThreadView {
        frames: if rest.len() > 0 {
            rest.update(
                rest.len() - 1,
                FrameView {
                    stack: with_returned(rest.last().stack, top.return_type, v1, v2),
                    ..rest.last()
                },
            )
        } else {
            rest
        },
        pc: return_pc,
        wide: false,
        ..thread
    }
}

impl Thread {
    /// A thread without frames, with the next free thread number. There is
    /// none where the numbers have run out.
    pub fn new(vm: &mut Vm, max_frame_size: usize) -> (thread: Option<Thread>)
        ensures
            match thread {
                Some(t) => {
                    &&& old(vm).next_thread_id < usize::MAX
                    &&& t@ == (ThreadView {
                        frames: Seq::empty(),
                        max_frame_size,
                        thread_id: old(vm).next_thread_id,
                        pc: 0,
                        wide: false,
                    })
                    &&& *final(vm) == (Vm {
                        next_thread_id: (old(vm).next_thread_id + 1) as usize,
                        ..*old(vm)
                    })
                },
                None => old(vm).next_thread_id == usize::MAX && *final(vm) == *old(vm),
            },
    {
        if vm.next_thread_id == usize::MAX {
            return None;
        }
        let thread_id = vm.next_thread_id;
        vm.next_thread_id = thread_id + 1;
        let thread = Thread {
            frames: Vec::new(),
            max_frame_size,
            thread_id,
            pc: 0,
            wide: false,
        };
        assert(thread@.frames =~= Seq::empty());
        Some(thread)
    }

    /// The top frame.
    pub fn top_frame(&self) -> (top: Option<&Frame>)
        ensures
            match top {
                Some(frame) => self.frames.len() > 0 && *frame == self.frames@.last(),
                None => self.frames.len() == 0,
            },
    {
        if self.frames.len() == 0 {
            None
        } else {
            Some(&self.frames[self.frames.len() - 1])
        }
    }

    /// Puts a value behind the locals of the top frame.
    pub fn add_local(&mut self, value: Variable) -> (done: bool)
        ensures
            done == (old(self).frames.len() > 0),
            final(self)@ == (if done {
                ThreadView {
                    frames: old(self)@.frames.update(
                        old(self).frames.len() - 1,
                        FrameView {
                            locals: old(self)@.frames.last().locals.push(value),
                            ..old(self)@.frames.last()
                        },
                    ),
                    ..old(self)@
                }
            } else {
                old(self)@
            }),
    {
        match self.frames.pop() {
            Some(mut frame) => {
                frame.locals.push(value);
                self.frames.push(frame);
                assert(self@.frames =~= old(self)@.frames.update(
                    old(self).frames.len() - 1,
                    FrameView {
                        locals: old(self)@.frames.last().locals.push(value),
                        ..old(self)@.frames.last()
                    },
                ));
                true
            },
            None => {
                assert(self@.frames =~= old(self)@.frames);
                false
            },
        }
    }

    /// Invokes method `method` of class `class`: its frame takes its
    /// arguments from the operand stack of the top frame and becomes the
    /// top frame.
    pub fn enter(
        &mut self,
        classes: &Vec<Class>,
        class: usize,
        method: usize,
        return_pc: usize,
        need_this: bool,
    ) -> (how: Entered)
        ensures
            (final(self)@, how) == entered(
                old(self)@,
                classes@,
                class,
                method,
                return_pc,
                need_this,
            ),
    {
        if class >= classes.len() || method >= classes[class].methods.len() || self.frames.len()
            == 0 {
            return Entered::Malformed;
        }
        if self.frames.len() >= self.max_frame_size {
            return Entered::Overflow;
        }
        let ghost before = self@;
        let mut caller = match self.frames.pop() {
            Some(caller) => caller,
            None => {
                return Entered::Malformed;
            },
        };
        assert(caller@ == before.frames.last());
        assert(frames_view(self.frames@) =~= before.frames.drop_last());
        let made = Frame::new(
            &mut caller.stack,
            class,
            &classes[class].methods[method],
            return_pc,
            need_this,
        );
        match made {
            Ok(frame) => {
                self.frames.push(caller);
                self.frames.push(frame);
                self.pc = 0;
                self.wide = false;
                assert(self@.frames =~= entered(
                    before,
                    classes@,
                    class,
                    method,
                    return_pc,
                    need_this,
                ).0.frames);
                Entered::Entered
            },
            Err(_) => {
                self.frames.push(caller);
                assert(self@.frames =~= before.frames);
                Entered::Malformed
            },
        }
    }

    /// Lets the top frame return `v1` (and `v2`) to `return_pc`. Where the
    /// frame ran the initializer of a class, the class is now initialized.
    pub fn leave(&mut self, vm: &mut Vm, v1: Variable, v2: Variable, return_pc: usize)
        requires
            old(self).frames.len() > 0,
            old(vm).wf(),
        ensures
            final(vm).wf(),
            final(self)@ == left(old(self)@, v1, v2, return_pc),
            initialization_noted(
                *old(vm),
                *final(vm),
                old(self)@.frames.last().initializes,
                true,
            ),
    {
        let ghost before = self@;
        let top = match self.frames.pop() {
            Some(top) => top,
            None => {
                return ;
            },
        };
        assert(top@ == before.frames.last());
        assert(frames_view(self.frames@) =~= before.frames.drop_last());
        note_initialization(vm, top.initializes, true);
        self.pc = return_pc;
        self.wide = false;
        match self.frames.pop() {
            Some(mut caller) => {
                match &top.return_type {
                    None => {},
                    Some(t) => {
                        caller.stack.push(v1);
                        if t.is_long() {
                            caller.stack.push(v2);
                        }
                    },
                }
                self.frames.push(caller);
                assert(self@.frames =~= left(before, v1, v2, return_pc).frames);
            },
            None => {
                assert(self@.frames =~= left(before, v1, v2, return_pc).frames);
            },
        }
    }
}

/// Notes the end of the initializer of a class.
pub fn note_initialization(vm: &mut Vm, class: Option<usize>, succeeded: bool)
    requires
        old(vm).wf(),
    ensures
        final(vm).wf(),
        initialization_noted(*old(vm), *final(vm), class, succeeded),
{
    match class {
        Some(c) => {
            if c < vm.loader.classes.len() {
                vm.loader.finish_initialization(c, succeeded);
                proof {
                    lemma_famous_stay(vm.famous, old(vm).loader, vm.loader);
                }
            }
        },
        None => {},
    }
}

/// The descriptor of a method with these parameters and this return
/// type.
pub open spec fn signature_text(
    parameters: Seq<FieldTypeView>,
    return_type: Option<FieldTypeView>,
) -> Seq<char> {
    seq!['('] + crate::runtime::native::parameters_text(parameters, parameters.len() as int)
        + seq![')'] + (match return_type {
        Some(t) => t.descriptor(),
        None => seq!['V'],
    })
}

/// How a frame is named in a trace: the name of its class, `.`, the name
/// of its method, or `?` where that is not modified UTF-8, and the
/// descriptor of the method.
pub open spec fn frame_text(frame: FrameView, class_name: Seq<char>) -> Seq<char> {
    class_name + seq!['.'] + (match crate::class::structs::java_str::java_cesu8_decoded(
        frame.method_name,
    ) {
        Some(name) => name,
        None => seq!['?'],
    }) + signature_text(frame.param_descriptor, frame.return_type)
}

/// How a frame is named in a trace.
pub fn frame_name(frame: &Frame, class_name: &str) -> (text: String)
    ensures
        text@ == frame_text(frame@, class_name@),
{
    proof {
        reveal_strlit(".");
        reveal_strlit("?");
        reveal_strlit("V");
        reveal_strlit("(");
        reveal_strlit(")");
    }
    let method = match frame.method_name.to_str() {
        Some(name) => name,
        None => String::from_str("?"),
    };
    let ghost views = crate::descriptor::types_view(frame.param_descriptor@);
    let mut text = String::from_str(class_name).concat(".").concat(method.as_str()).concat("(");
    let ghost head = text@;
    let mut i: usize = 0;
    while i < frame.param_descriptor.len()
        invariant
            i <= frame.param_descriptor.len(),
            views == crate::descriptor::types_view(frame.param_descriptor@),
            text@ =~= head + crate::runtime::native::parameters_text(views, i as int),
        decreases frame.param_descriptor.len() - i,
    {
        assert(views[i as int] == frame.param_descriptor@[i as int]@);
        let part = frame.param_descriptor[i].to_descriptor();
        text = text.concat(part.as_str());
        i += 1;
    }
    let text = text.concat(")");
    let text = match &frame.return_type {
        Some(t) => {
            let part = t.to_descriptor();
            text.concat(part.as_str())
        },
        None => text.concat("V"),
    };
    assert(text@ =~= frame_text(frame@, class_name@));
    text
}

impl Thread {
    /// The names of the frames for a trace, the top frame first. A frame
    /// of a class that the machine does not have is left out.
    pub fn frame_names(&self, classes: &Vec<Class>) -> (names: Vec<String>)
        ensures
            names.len() <= self.frames.len(),
            (forall|k: int| 0 <= k < self.frames.len() ==> (#[trigger] self.frames[k]).class
                < classes.len()) ==> names.len() == self.frames.len() && forall|k: int|
                0 <= k < names.len() ==> (#[trigger] names[k])@ == frame_text(
                    self.frames[self.frames.len() - 1 - k]@,
                    classes[self.frames[self.frames.len() - 1 - k].class as int].class_name@,
                ),
    {
        let mut names: Vec<String> = Vec::new();
        let mut n: usize = self.frames.len();
        let ghost mut complete = true;
        while n > 0
            invariant
                n <= self.frames.len(),
                names.len() <= self.frames.len() - n,
                complete == (forall|k: int|
                    n <= k < self.frames.len() ==> (#[trigger] self.frames[k]).class
                        < classes.len()),
                complete ==> names.len() == self.frames.len() - n && forall|k: int|
                    0 <= k < names.len() ==> (#[trigger] names[k])@ == frame_text(
                        self.frames[self.frames.len() - 1 - k]@,
                        classes[self.frames[self.frames.len() - 1 - k].class as int].class_name@,
                    ),
            decreases n,
        {
            let frame = &self.frames[n - 1];
            if frame.class < classes.len() {
                names.push(frame_name(frame, classes[frame.class].class_name.as_str()));
            } else {
                proof {
                    complete = false;
                }
            }
            n -= 1;
        }
        names
    }
}

} // verus!

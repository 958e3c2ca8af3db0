//! Frames: the record of one invocation.
//!
//! A frame holds the code of its method, its locals and its operand stack.
//! The two bottom slots of the operand stack hold the program counter at
//! which the caller goes on, upper half first. The arguments of the
//! invocation are taken from the top of the caller's operand stack and
//! become the first locals, in their order.

use crate::class::structs::java_str::{copy_bytes, JavaStr};
use crate::consts::{has_flags, ACC_NATIVE};
use crate::descriptor::{
    clone_return_type, clone_types, return_type_view, types_view, FieldType, FieldTypeView, ReturnType,
};
use crate::instructions as inst;
use crate::runtime::interpreter::local::{drop_slots, dropped, RETURN_SLOTS};
use crate::runtime::interpreter::variable::{split_halves, Variable, lower_half, upper_half};
use crate::runtime::structs::attributes::{
    attribute_infos_view, clone_exception_table, exception_table_view, AttributeInfo,
    AttributeInfoView, CodeAttribute, CodeAttributeView, ExceptionTableItem,
    ExceptionTableItemView,
};
use crate::runtime::structs::{MethodInfo, MethodInfoView};
use vstd::prelude::*;

verus! {

/// The record of one invocation.
#[derive(Debug)]
pub struct Frame {
    /// The class of the method.
    pub class: usize,
    pub code: Vec<u8>,
    pub return_type: ReturnType,
    pub locals: Vec<Variable>,
    pub stack: Vec<Variable>,
    pub method_name: JavaStr,
    pub param_descriptor: Vec<FieldType>,
    pub is_static: bool,
    pub exception_table: Vec<ExceptionTableItem>,
    /// The class that is initialized once the frame returns, where the
    /// frame runs the initializer of a class.
    pub initializes: Option<usize>,
}

pub struct FrameView {
    pub class: usize,
    pub code: Seq<u8>,
    pub return_type: Option<FieldTypeView>,
    pub locals: Seq<Variable>,
    pub stack: Seq<Variable>,
    pub method_name: Seq<u8>,
    pub param_descriptor: Seq<FieldTypeView>,
    pub is_static: bool,
    pub exception_table: Seq<ExceptionTableItemView>,
    pub initializes: Option<usize>,
}

impl View for Frame {
    type V = FrameView;

    open spec fn view(&self) -> FrameView {
        FrameView {
            class: self.class,
            code: self.code@,
            return_type: return_type_view(self.return_type),
            locals: self.locals@,
            stack: self.stack@,
            method_name: self.method_name@,
            param_descriptor: types_view(self.param_descriptor@),
            is_static: self.is_static,
            exception_table: exception_table_view(self.exception_table@),
            initializes: self.initializes,
        }
    }
}

/// Why no frame can be made for a method.
#[derive(Debug, Clone, Copy, PartialEq, Eq, Structural)]
pub enum FrameError {
    /// The method has no code and is not native.
    NoCode,
    /// The caller has fewer operands than the method has parameters.
    MissingArguments,
}

/// The first code attribute among the attributes from `from` on.
pub open spec fn first_code(attributes: Seq<AttributeInfoView>, from: int) -> Option<
    CodeAttributeView,
>
    decreases attributes.len() - from,
{
    if from < 0 || from >= attributes.len() {
        None
    } else {
        match attributes[from] {
            AttributeInfoView::Code(code) => Some(*code),
            _ => first_code(attributes, from + 1),
        }
    }
}

/// The number of slots that the first `n` parameters fill.
pub open spec fn parameter_slots(parameters: Seq<FieldTypeView>, n: int) -> int
    decreases n,
{
    if n <= 0 {
        0
    } else {
        parameter_slots(parameters, n - 1) + parameters[n - 1].slots()
    }
}

/// The return instruction for a value of this type.
pub open spec fn return_instruction(return_type: Option<FieldTypeView>) -> u8 {
    match return_type {
        None => inst::RETURN,
        Some(FieldTypeView::Long) => inst::LRETURN,
        Some(FieldTypeView::Double) => inst::DRETURN,
        Some(FieldTypeView::Float) => inst::FRETURN,
        Some(FieldTypeView::Object(_)) => inst::ARETURN,
        Some(FieldTypeView::Array(_)) => inst::ARETURN,
        Some(_) => inst::IRETURN,
    }
}

/// The code that a frame of the method runs and the method's handler
/// table: those of its code attribute; for a native method, the two
/// instructions that call the native implementation and return what it
/// gives, and no handlers. None where the method has neither.
pub open spec fn method_body(method: MethodInfoView) -> Option<(Seq<u8>, Seq<ExceptionTableItemView>)> {
    if has_flags(method.access_flags, ACC_NATIVE) {
        Some(
            (
                seq![inst::INVOKENATIVE, return_instruction(method.descriptor.return_type)],
                Seq::empty(),
            ),
        )
    } else {
        match first_code(method.attributes, 0) {
            Some(code) => Some((code.code, code.exception_table)),
            None => None,
        }
    }
}

/// The number of operands that an invocation of the method takes from its
/// caller.
pub open spec fn argument_slots(method: MethodInfoView, need_this: bool) -> int {
    parameter_slots(method.descriptor.parameters, method.descriptor.parameters.len() as int) + (
    if need_this {
        1int
    } else {
        0int
    })
}

/// The two slots that hold a return address, upper half first.
pub open spec fn return_slots(return_address: usize) -> Seq<Variable> {
    seq![
        Variable { bits: upper_half(return_address as u64) },
        Variable { bits: lower_half(return_address as u64) },
    ]
}

/// The frame of an invocation of the method of class `class`, with these
/// arguments.
pub open spec fn new_frame_view(
    class: usize,
    method: MethodInfoView,
    arguments: Seq<Variable>,
    return_address: usize,
    need_this: bool,
) -> FrameView {
    FrameView {
        class,
        code: method_body(method)->Some_0.0,
        return_type: method.descriptor.return_type,
        locals: arguments,
        stack: return_slots(return_address),
        method_name: method.name,
        param_descriptor: method.descriptor.parameters,
        is_static: !need_this,
        exception_table: method_body(method)->Some_0.1,
        initializes: None,
    }
}

/// The first code attribute among the attributes.
pub fn find_code(attributes: &Vec<AttributeInfo>) -> (found: Option<&CodeAttribute>)
    ensures
        match found {
            Some(code) => first_code(attribute_infos_view(attributes@), 0) == Some(code.model()),
            None => first_code(attribute_infos_view(attributes@), 0).is_none(),
        },
{
    let mut i: usize = 0;
    while i < attributes.len()
        invariant
            i <= attributes.len(),
            first_code(attribute_infos_view(attributes@), 0) == first_code(
                attribute_infos_view(attributes@),
                i as int,
            ),
        decreases attributes.len() - i,
    {
        assert(attribute_infos_view(attributes@)[i as int] == attributes@[i as int].model());
        match &attributes[i] {
            AttributeInfo::Code(code) => {
                return Some(code);
            },
            _ => {},
        }
        i += 1;
    }
    None
}

/// The slots of a longer front of the parameters are no fewer.
pub proof fn lemma_parameter_slots_grow(parameters: Seq<FieldTypeView>, n: int, m: int)
    requires
        0 <= n <= m,
    ensures
        n <= parameter_slots(parameters, n) <= parameter_slots(parameters, m),
    decreases m,
{
    if n < m {
        lemma_parameter_slots_grow(parameters, n, m - 1);
    } else if n > 0 {
        lemma_parameter_slots_grow(parameters, n - 1, n - 1);
    }
}

/// The number of slots that the parameters fill, where that is at most
/// `limit`.
pub fn count_parameter_slots(parameters: &Vec<FieldType>, limit: usize) -> (slots: Option<usize>)
    ensures
        match slots {
            Some(slots) => slots <= limit && slots == parameter_slots(
                types_view(parameters@),
                parameters.len() as int,
            ),
            None => parameter_slots(types_view(parameters@), parameters.len() as int) > limit,
        },
{
    let mut slots: usize = 0;
    let mut i: usize = 0;
    while i < parameters.len()
        invariant
            i <= parameters.len(),
            slots <= limit,
            slots == parameter_slots(types_view(parameters@), i as int),
        decreases parameters.len() - i,
    {
        assert(types_view(parameters@)[i as int] == parameters@[i as int]@);
        let size: usize = if parameters[i].is_long() {
            2
        } else {
            1
        };
        if limit - slots < size {
            proof {
                lemma_parameter_slots_grow(
                    types_view(parameters@),
                    i + 1,
                    parameters.len() as int,
                );
            }
            return None;
        }
        slots += size;
        i += 1;
    }
    Some(slots)
}

/// The code and the handler table of the method.
fn body_of(method_info: &MethodInfo) -> (body: Option<(Vec<u8>, Vec<ExceptionTableItem>)>)
    ensures
        match body {
            Some((code, table)) => method_body(method_info@) == Some(
                (code@, exception_table_view(table@)),
            ),
            None => method_body(method_info@).is_none(),
        },
{
    if method_info.access_flags.contains(ACC_NATIVE) {
        let return_inst = match &method_info.descriptor.return_type {
            None => inst::RETURN,
            Some(FieldType::Long) => inst::LRETURN,
            Some(FieldType::Double) => inst::DRETURN,
            Some(FieldType::Float) => inst::FRETURN,
            Some(FieldType::Object(_)) => inst::ARETURN,
            Some(FieldType::Array(_)) => inst::ARETURN,
            Some(_) => inst::IRETURN,
        };
        let mut code: Vec<u8> = Vec::new();
        code.push(inst::INVOKENATIVE);
        code.push(return_inst);
        let table: Vec<ExceptionTableItem> = Vec::new();
        assert(code@ =~= seq![inst::INVOKENATIVE, return_inst]);
        assert(exception_table_view(table@) =~= Seq::empty());
        return Some((code, table));
    }
    match find_code(&method_info.attributes) {
        Some(code) => Some((copy_bytes(&code.code), clone_exception_table(&code.exception_table))),
        None => None,
    }
}

impl Frame {
    /// Makes the frame of an invocation of a method of class `class`. The
    /// arguments are taken from the top of `caller`, the operand stack of
    /// the frame that invokes.
    pub fn new(
        caller: &mut Vec<Variable>,
        class: usize,
        method_info: &MethodInfo,
        return_address: usize,
        need_this: bool,
    ) -> (r: Result<Frame, FrameError>)
        ensures
            match r {
                Ok(frame) => {
                    &&& method_body(method_info@).is_some()
                    &&& old(caller).len() - RETURN_SLOTS >= argument_slots(method_info@, need_this)
                    &&& final(caller)@ == dropped(
                        old(caller)@,
                        argument_slots(method_info@, need_this),
                    )
                    &&& frame@ == new_frame_view(
                        class,
                        method_info@,
                        old(caller)@.subrange(
                            old(caller).len() - argument_slots(method_info@, need_this),
                            old(caller).len() as int,
                        ),
                        return_address,
                        need_this,
                    )
                },
                Err(e) => final(caller)@ == old(caller)@ && e == (if method_body(
                    method_info@,
                ).is_none() {
                    FrameError::NoCode
                } else {
                    FrameError::MissingArguments
                }) && (method_body(method_info@).is_none() || old(caller).len() - RETURN_SLOTS
                    < argument_slots(method_info@, need_this)),
            },
    {
        let (code, exception_table) = match body_of(method_info) {
            Some(body) => body,
            None => {
                return Err(FrameError::NoCode);
            },
        };
        if caller.len() < RETURN_SLOTS {
            proof {
                lemma_parameter_slots_grow(
                    method_info@.descriptor.parameters,
                    0,
                    method_info@.descriptor.parameters.len() as int,
                );
            }
            return Err(FrameError::MissingArguments);
        }
        let this_size: usize = if need_this {
            1
        } else {
            0
        };
        if caller.len() - RETURN_SLOTS < this_size {
            proof {
                lemma_parameter_slots_grow(
                    method_info@.descriptor.parameters,
                    0,
                    method_info@.descriptor.parameters.len() as int,
                );
            }
            return Err(FrameError::MissingArguments);
        }
        let param_size = match count_parameter_slots(
            &method_info.descriptor.parameters,
            caller.len() - RETURN_SLOTS - this_size,
        ) {
            Some(slots) => slots + this_size,
            None => {
                return Err(FrameError::MissingArguments);
            },
        };
        let start = caller.len() - param_size;
        let mut locals: Vec<Variable> = Vec::new();
        let mut i: usize = start;
        while i < caller.len()
            invariant
                start <= i <= caller.len(),
                locals@ =~= caller@.subrange(start as int, i as int),
            decreases caller.len() - i,
        {
            locals.push(caller[i]);
            i += 1;
        }
        drop_slots(caller, param_size);
        let (upper, lower) = split_halves(return_address as u64);
        let mut stack: Vec<Variable> = Vec::new();
        stack.push(Variable::from_return_address(upper));
        stack.push(Variable::from_return_address(lower));
        assert(stack@ =~= return_slots(return_address));
        Ok(
            Frame {
                code,
                locals,
                stack,
                return_type: clone_return_type(&method_info.descriptor.return_type),
                class,
                method_name: method_info.name.clone(),
                param_descriptor: clone_types(&method_info.descriptor.parameters),
                is_static: !need_this,
                exception_table,
                initializes: None,
            },
        )
    }

    /// The frame of an invocation of a static method of class `class`
    /// whose arguments are put behind its locals later. There is none
    /// where the method has no code and is not native.
    pub fn without_arguments(class: usize, method_info: &MethodInfo, return_address: usize) -> (r:
        Option<Frame>)
        ensures
            match r {
                Some(frame) => method_body(method_info@).is_some() && frame@ == new_frame_view(
                    class,
                    method_info@,
                    Seq::empty(),
                    return_address,
                    false,
                ),
                None => method_body(method_info@).is_none(),
            },
    {
        let (code, exception_table) = match body_of(method_info) {
            Some(body) => body,
            None => {
                return None;
            },
        };
        let (upper, lower) = split_halves(return_address as u64);
        let mut stack: Vec<Variable> = Vec::new();
        stack.push(Variable::from_return_address(upper));
        stack.push(Variable::from_return_address(lower));
        assert(stack@ =~= return_slots(return_address));
        let locals: Vec<Variable> = Vec::new();
        assert(locals@ =~= Seq::empty());
        Some(
            Frame {
                code,
                locals,
                stack,
                return_type: clone_return_type(&method_info.descriptor.return_type),
                class,
                method_name: method_info.name.clone(),
                param_descriptor: clone_types(&method_info.descriptor.parameters),
                is_static: true,
                exception_table,
                initializes: None,
            },
        )
    }

    /// Puts an int behind the locals.
    pub fn add_local_int(&mut self, value: i32)
        ensures
            final(self)@ == (FrameView {
                locals: old(self).locals@.push(Variable::of_int(value)),
                ..old(self)@
            }),
    {
        self.locals.push(Variable::from_int(value));
    }

    /// Puts a long behind the locals, upper half first.
    pub fn add_local_long(&mut self, long: i64)
        ensures
            final(self)@ == (FrameView {
                locals: old(self).locals@.push(Variable::slots_of_long(long).0).push(
                    Variable::slots_of_long(long).1,
                ),
                ..old(self)@
            }),
    {
        let (upper, lower) = Variable::put_long(long);
        self.locals.push(upper);
        self.locals.push(lower);
    }

    /// Puts a reference behind the locals.
    pub fn add_local_reference(&mut self, reference: u32)
        ensures
            final(self)@ == (FrameView {
                locals: old(self).locals@.push(Variable::of_bits(reference)),
                ..old(self)@
            }),
    {
        self.locals.push(Variable::from_reference(reference));
    }
}

} // verus!

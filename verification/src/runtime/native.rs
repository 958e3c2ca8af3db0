//! The native bridge: the methods of the class library that the machine
//! implements itself.
//!
//! A native method is known by a key made of the name of its class, its
//! own name and the descriptors of its parameters. The registry maps the
//! key to the number of an implementation; [`call_native`] runs the
//! implementation with that number.

pub mod bits;
pub mod bridge;
pub mod class;
pub mod object;
pub mod system;

use crate::descriptor::{FieldType, FieldTypeView};
use crate::runtime::interpreter::frame::parameter_slots;
use crate::runtime::interpreter::local::{pushed_bits, pushed_long};
use crate::runtime::interpreter::variable::Variable;
use crate::runtime::structs::exception::VmExceptionKind;
use vstd::prelude::*;

verus! {

/// A value that a native method takes or gives. A float or a double is
/// held as its bits.
#[derive(Debug, Clone, Copy, PartialEq, Eq, Structural)]
pub enum NativeVariable {
    Boolean(bool),
    Byte(i8),
    Char(u16),
    Short(i16),
    Int(i32),
    Long(i64),
    Float(u32),
    Double(u64),
    Reference(u32),
}

impl NativeVariable {
    pub fn get_boolean(&self) -> (value: bool)
        requires
            self is Boolean,
        ensures
            *self == NativeVariable::Boolean(value),
    {
        match self {
            NativeVariable::Boolean(b) => *b,
            _ => false,
        }
    }

    pub fn get_byte(&self) -> (value: i8)
        requires
            self is Byte,
        ensures
            *self == NativeVariable::Byte(value),
    {
        match self {
            NativeVariable::Byte(b) => *b,
            _ => 0,
        }
    }

    pub fn get_char(&self) -> (value: u16)
        requires
            self is Char,
        ensures
            *self == NativeVariable::Char(value),
    {
        match self {
            NativeVariable::Char(c) => *c,
            _ => 0,
        }
    }

    pub fn get_short(&self) -> (value: i16)
        requires
            self is Short,
        ensures
            *self == NativeVariable::Short(value),
    {
        match self {
            NativeVariable::Short(s) => *s,
            _ => 0,
        }
    }

    pub fn get_int(&self) -> (value: i32)
        requires
            self is Int,
        ensures
            *self == NativeVariable::Int(value),
    {
        match self {
            NativeVariable::Int(i) => *i,
            _ => 0,
        }
    }

    pub fn get_long(&self) -> (value: i64)
        requires
            self is Long,
        ensures
            *self == NativeVariable::Long(value),
    {
        match self {
            NativeVariable::Long(l) => *l,
            _ => 0,
        }
    }

    /// The bits of the float.
    pub fn get_float(&self) -> (bits: u32)
        requires
            self is Float,
        ensures
            *self == NativeVariable::Float(bits),
    {
        match self {
            NativeVariable::Float(f) => *f,
            _ => 0,
        }
    }

    /// The bits of the double.
    pub fn get_double(&self) -> (bits: u64)
        requires
            self is Double,
        ensures
            *self == NativeVariable::Double(bits),
    {
        match self {
            NativeVariable::Double(d) => *d,
            _ => 0,
        }
    }

    pub fn get_ref(&self) -> (id: u32)
        requires
            self is Reference,
        ensures
            *self == NativeVariable::Reference(id),
    {
        match self {
            NativeVariable::Reference(r) => *r,
            _ => 0,
        }
    }
}

/// How a native method ends.
#[derive(Debug, Clone, Copy, PartialEq, Eq, Structural)]
pub enum NativeOutcome {
    /// It gives a value, or none.
    Value(Option<NativeVariable>),
    /// It raises an exception.
    Throw(VmExceptionKind),
    /// It gives what the clock reads, which the machine has to be told: the
    /// milliseconds since the epoch, or the nanoseconds since some moment.
    Clock { nanos: bool },
    /// The heap has no room for what it makes.
    HeapFull,
    /// It was called with arguments that no method with its key gets.
    Malformed,
}

/// The descriptors of the first `n` parameters, one behind the other.
pub open spec fn parameters_text(parameters: Seq<FieldTypeView>, n: int) -> Seq<char>
    decreases n,
{
    if n <= 0 {
        Seq::empty()
    } else {
        parameters_text(parameters, n - 1) + parameters[n - 1].descriptor()
    }
}

/// The key of a native method: the name of the class, `.`, the name of the
/// method, and the descriptors of the parameters in brackets.
pub open spec fn native_key(class_name: Seq<char>, method: Seq<char>, parameters: Seq<FieldTypeView>) -> Seq<
    char,
> {
    class_name + seq!['.'] + method + seq!['('] + parameters_text(
        parameters,
        parameters.len() as int,
    ) + seq![')']
}

/// The key of a native method.
pub fn key_of(class_name: &str, method: &str, parameters: &Vec<FieldType>) -> (key: String)
    ensures
        key@ == native_key(class_name@, method@, crate::descriptor::types_view(parameters@)),
{
    proof {
        reveal_strlit(".");
        reveal_strlit("(");
        reveal_strlit(")");
    }
    let ghost views = crate::descriptor::types_view(parameters@);
    let mut key = String::from_str(class_name).concat(".").concat(method).concat("(");
    let ghost head = key@;
    assert(head =~= class_name@ + seq!['.'] + method@ + seq!['(']);
    let mut i: usize = 0;
    while i < parameters.len()
        invariant
            i <= parameters.len(),
            views == crate::descriptor::types_view(parameters@),
            key@ =~= head + parameters_text(views, i as int),
        decreases parameters.len() - i,
    {
        assert(views[i as int] == parameters@[i as int]@);
        let text = parameters[i].to_descriptor();
        key = key.concat(text.as_str());
        i += 1;
    }
    let key = key.concat(")");
    assert(key@ =~= native_key(class_name@, method@, views));
    key
}

/// The argument that a parameter of this type gets from the locals from
/// slot `i` on: an int cut to the size of the type, the bits of a float,
/// or the two slots of a long or a double joined.
pub open spec fn argument_of(t: FieldTypeView, locals: Seq<Variable>, i: int) -> NativeVariable {
    match t {
        FieldTypeView::Byte => NativeVariable::Byte(locals[i].as_int() as i8),
        FieldTypeView::Char => NativeVariable::Char(locals[i].as_int() as u16),
        FieldTypeView::Short => NativeVariable::Short(locals[i].as_int() as i16),
        FieldTypeView::Boolean => NativeVariable::Boolean(locals[i].as_int() == 1),
        FieldTypeView::Int => NativeVariable::Int(locals[i].as_int()),
        FieldTypeView::Float => NativeVariable::Float(locals[i].bits),
        FieldTypeView::Long => NativeVariable::Long(Variable::long_of(locals[i], locals[i + 1])),
        FieldTypeView::Double => NativeVariable::Double(
            Variable::bits_of(locals[i], locals[i + 1]),
        ),
        FieldTypeView::Object(_) => NativeVariable::Reference(locals[i].bits),
        FieldTypeView::Array(_) => NativeVariable::Reference(locals[i].bits),
    }
}

/// The arguments of the first `n` parameters, which lie in the locals from
/// slot `start` on.
pub open spec fn marshalled(
    parameters: Seq<FieldTypeView>,
    n: int,
    locals: Seq<Variable>,
    start: int,
) -> Seq<NativeVariable>
    decreases n,
{
    if n <= 0 {
        Seq::empty()
    } else {
        marshalled(parameters, n - 1, locals, start).push(
            argument_of(parameters[n - 1], locals, start + parameter_slots(parameters, n - 1)),
        )
    }
}

/// The arguments of a native method, from the locals of its frame: the
/// object that it is invoked on, unless it is static, and one argument for
/// each parameter. None where the locals are too few.
pub open spec fn arguments_of(
    parameters: Seq<FieldTypeView>,
    locals: Seq<Variable>,
    is_static: bool,
) -> Option<Seq<NativeVariable>> {
    let start: int = if is_static {
        0
    } else {
        1
    };
    if locals.len() < start + parameter_slots(parameters, parameters.len() as int) {
        None
    } else if is_static {
        Some(marshalled(parameters, parameters.len() as int, locals, 0))
    } else {
        Some(
            seq![NativeVariable::Reference(locals[0].bits)] + marshalled(
                parameters,
                parameters.len() as int,
                locals,
                1,
            ),
        )
    }
}

/// The argument that a parameter of this type gets from the locals from
/// slot `i` on.
fn read_argument(t: &FieldType, locals: &Vec<Variable>, i: usize) -> (argument: NativeVariable)
    requires
        i + t@.slots() <= locals.len(),
    ensures
        argument == argument_of(t@, locals@, i as int),
{
    match t {
        FieldType::Byte => NativeVariable::Byte(locals[i].get_int() as i8),
        FieldType::Char => NativeVariable::Char(locals[i].get_int() as u16),
        FieldType::Short => NativeVariable::Short(locals[i].get_int() as i16),
        FieldType::Boolean => NativeVariable::Boolean(locals[i].get_int() == 1),
        FieldType::Int => NativeVariable::Int(locals[i].get_int()),
        FieldType::Float => NativeVariable::Float(locals[i].get_float()),
        FieldType::Long => NativeVariable::Long(Variable::get_long(locals[i], locals[i + 1])),
        FieldType::Double => NativeVariable::Double(
            Variable::get_double(locals[i], locals[i + 1]),
        ),
        FieldType::Object(_) => NativeVariable::Reference(locals[i].get_reference()),
        FieldType::Array(_) => NativeVariable::Reference(locals[i].get_reference()),
    }
}

/// The arguments of a native method, from the locals of its frame.
pub fn marshal_arguments(parameters: &Vec<FieldType>, locals: &Vec<Variable>, is_static: bool) -> (arguments:
    Option<Vec<NativeVariable>>)
    ensures
        match arguments {
            Some(arguments) => arguments_of(
                crate::descriptor::types_view(parameters@),
                locals@,
                is_static,
            ) == Some(arguments@),
            None => arguments_of(
                crate::descriptor::types_view(parameters@),
                locals@,
                is_static,
            ).is_none(),
        },
{
    let ghost views = crate::descriptor::types_view(parameters@);
    let start: usize = if is_static {
        0
    } else {
        1
    };
    if locals.len() < start {
        proof {
            crate::runtime::interpreter::frame::lemma_parameter_slots_grow(
                views,
                0,
                views.len() as int,
            );
        }
        return None;
    }
    let mut arguments: Vec<NativeVariable> = Vec::new();
    if !is_static {
        arguments.push(NativeVariable::Reference(locals[0].get_reference()));
    }
    let ghost head = arguments@;
    let mut at: usize = start;
    let mut i: usize = 0;
    while i < parameters.len()
        invariant
            i <= parameters.len(),
            views == crate::descriptor::types_view(parameters@),
            start <= at <= locals.len(),
            start == (if is_static {
                0usize
            } else {
                1usize
            }),
            at == start + parameter_slots(views, i as int),
            arguments@ =~= head + marshalled(views, i as int, locals@, start as int),
        decreases parameters.len() - i,
    {
        assert(views[i as int] == parameters@[i as int]@);
        let size: usize = if parameters[i].is_long() {
            2
        } else {
            1
        };
        assert(size == views[i as int].slots());
        assert(parameter_slots(views, i + 1) == parameter_slots(views, i as int) + size);
        if locals.len() - at < size {
            proof {
                crate::runtime::interpreter::frame::lemma_parameter_slots_grow(
                    views,
                    i + 1,
                    views.len() as int,
                );
            }
            return None;
        }
        arguments.push(read_argument(&parameters[i], locals, at));
        at += size;
        i += 1;
    }
    Some(arguments)
}

/// The operand stack with the value that a native method gave on it: an
/// int for a boolean, a byte, a char, a short or an int, two slots for a
/// long or a double.
pub open spec fn with_native_result(stack: Seq<Variable>, value: Option<NativeVariable>) -> Seq<
    Variable,
> {
    match value {
        None => stack,
        Some(NativeVariable::Boolean(b)) => stack.push(
            Variable::of_int(
                if b {
                    1
                } else {
                    0
                },
            ),
        ),
        Some(NativeVariable::Byte(b)) => stack.push(Variable::of_int(b as i32)),
        Some(NativeVariable::Char(c)) => stack.push(Variable::of_int(c as i32)),
        Some(NativeVariable::Short(s)) => stack.push(Variable::of_int(s as i32)),
        Some(NativeVariable::Int(i)) => stack.push(Variable::of_int(i)),
        Some(NativeVariable::Long(l)) => pushed_long(stack, l),
        Some(NativeVariable::Float(f)) => stack.push(Variable::of_bits(f)),
        Some(NativeVariable::Double(d)) => pushed_bits(stack, d),
        Some(NativeVariable::Reference(r)) => stack.push(Variable::of_bits(r)),
    }
}

/// Puts the value that a native method gave on the operand stack.
pub fn push_native_result(stack: &mut Vec<Variable>, value: Option<NativeVariable>)
    ensures
        final(stack)@ == with_native_result(old(stack)@, value),
{
    match value {
        None => {},
        Some(NativeVariable::Boolean(b)) => {
            stack.push(
                Variable::from_int(
                    if b {
                        1
                    } else {
                        0
                    },
                ),
            );
        },
        Some(NativeVariable::Byte(b)) => {
            stack.push(Variable::from_int(b as i32));
        },
        Some(NativeVariable::Char(c)) => {
            stack.push(Variable::from_int(c as i32));
        },
        Some(NativeVariable::Short(s)) => {
            stack.push(Variable::from_int(s as i32));
        },
        Some(NativeVariable::Int(i)) => {
            stack.push(Variable::from_int(i));
        },
        Some(NativeVariable::Long(l)) => {
            crate::runtime::interpreter::local::push_long(stack, l);
        },
        Some(NativeVariable::Float(f)) => {
            stack.push(Variable::from_float_bits(f));
        },
        Some(NativeVariable::Double(d)) => {
            crate::runtime::interpreter::local::push_bits(stack, d);
        },
        Some(NativeVariable::Reference(r)) => {
            stack.push(Variable::from_reference(r));
        },
    }
}

} // verus!

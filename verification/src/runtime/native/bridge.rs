//! The registry of the native methods and the call of one.

use crate::class::structs::java_str::{java_cesu8_decoded, JavaStr};
use crate::descriptor::{types_view, FieldType, FieldTypeView};
use crate::runtime::interpreter::constant_ops::registries_unchanged;
use crate::runtime::interpreter::next::{raise, raised, Next, NextView};
use crate::runtime::interpreter::variable::Variable;
use crate::runtime::native::bits::{
    double_to_long_outcome, double_to_raw_long_bits, float_to_int_outcome, float_to_raw_int_bits,
    int_bits_to_float, int_to_float_outcome, long_bits_to_double, long_to_double_outcome,
};
use crate::runtime::native::class::{
    get_primitive_class, get_primitive_class_effect, init_class_name, init_class_name_effect,
};
use crate::runtime::native::object::{
    clone_effect, hash_code_outcome, native_object_clone, native_object_hash_code,
};
use crate::runtime::native::system::{arraycopy_effect, native_system_arraycopy};
use crate::runtime::native::{
    arguments_of, key_of, marshal_arguments, native_key, push_native_result, with_native_result,
    NativeOutcome, NativeVariable,
};
use crate::runtime::Vm;
use crate::table::{entries, table_get, table_insert};
use vstd::prelude::*;

verus! {

/// A native that does nothing and gives nothing.
pub const NATIVE_NOP: usize = 0;
pub const OBJECT_HASH_CODE: usize = 1;
pub const OBJECT_CLONE: usize = 2;
pub const SYSTEM_REGISTER_NATIVES: usize = 3;
pub const SYSTEM_ARRAYCOPY: usize = 4;
pub const SYSTEM_CURRENT_TIME_MILLIS: usize = 5;
pub const SYSTEM_NANO_TIME: usize = 6;
pub const STRING_IS_BIG_ENDIAN: usize = 7;
pub const CLASS_REGISTER_NATIVES: usize = 8;
pub const CLASS_INIT_CLASS_NAME: usize = 9;
pub const CLASS_DESIRED_ASSERTION_STATUS: usize = 10;
pub const CLASS_GET_PRIMITIVE_CLASS: usize = 11;
pub const DOUBLE_TO_RAW_LONG_BITS: usize = 12;
pub const LONG_BITS_TO_DOUBLE: usize = 13;
pub const FLOAT_TO_RAW_INT_BITS: usize = 14;
pub const INT_BITS_TO_FLOAT: usize = 15;
/// A native that gives `false`.
pub const NATIVE_FALSE: usize = 16;
/// A native that gives the long 0.
pub const NATIVE_ZERO: usize = 17;

/// The type of a parameter that takes an object of the class with this
/// name.
pub open spec fn object_type(name: Seq<char>) -> FieldTypeView {
    FieldTypeView::Object(name)
}

/// The natives that the machine knows from the start.
pub open spec fn boot_natives(table: Map<Seq<char>, usize>) -> Map<Seq<char>, usize> {
    table.insert(
        native_key("java/lang/Object"@, "hashCode"@, seq![]),
        OBJECT_HASH_CODE,
    ).insert(native_key("java/lang/Object"@, "clone"@, seq![]), OBJECT_CLONE).insert(
        native_key("java/lang/System"@, "registerNatives"@, seq![]),
        SYSTEM_REGISTER_NATIVES,
    ).insert(
        native_key("java/lang/StringUTF16"@, "isBigEndian"@, seq![]),
        STRING_IS_BIG_ENDIAN,
    ).insert(
        native_key("java/lang/Class"@, "registerNatives"@, seq![]),
        CLASS_REGISTER_NATIVES,
    ).insert(
        native_key("java/lang/Double"@, "doubleToRawLongBits"@, seq![FieldTypeView::Double]),
        DOUBLE_TO_RAW_LONG_BITS,
    ).insert(
        native_key("java/lang/Double"@, "longBitsToDouble"@, seq![FieldTypeView::Long]),
        LONG_BITS_TO_DOUBLE,
    ).insert(
        native_key("java/lang/Float"@, "floatToRawIntBits"@, seq![FieldTypeView::Float]),
        FLOAT_TO_RAW_INT_BITS,
    ).insert(
        native_key("java/lang/Float"@, "intBitsToFloat"@, seq![FieldTypeView::Int]),
        INT_BITS_TO_FLOAT,
    ).insert(
        native_key("jdk/internal/misc/CDS"@, "isDumpingClassList0"@, seq![]),
        NATIVE_FALSE,
    ).insert(
        native_key("jdk/internal/misc/CDS"@, "isDumpingArchive0"@, seq![]),
        NATIVE_FALSE,
    ).insert(
        native_key("jdk/internal/misc/CDS"@, "isSharingEnabled0"@, seq![]),
        NATIVE_FALSE,
    ).insert(
        native_key("jdk/internal/misc/CDS"@, "getRandomSeedForDumping"@, seq![]),
        NATIVE_ZERO,
    ).insert(
        native_key(
            "jdk/internal/misc/CDS"@,
            "initializeFromArchive"@,
            seq![object_type("java/lang/Class"@)],
        ),
        NATIVE_NOP,
    )
}

/// The natives that `System.registerNatives` adds.
pub open spec fn system_natives(table: Map<Seq<char>, usize>) -> Map<Seq<char>, usize> {
    table.insert(
        native_key(
            "java/lang/System"@,
            "arraycopy"@,
            seq![
                object_type("java/lang/Object"@),
                FieldTypeView::Int,
                object_type("java/lang/Object"@),
                FieldTypeView::Int,
                FieldTypeView::Int,
            ],
        ),
        SYSTEM_ARRAYCOPY,
    ).insert(
        native_key("java/lang/System"@, "currentTimeMillis"@, seq![]),
        SYSTEM_CURRENT_TIME_MILLIS,
    ).insert(native_key("java/lang/System"@, "nanoTime"@, seq![]), SYSTEM_NANO_TIME).insert(
        native_key(
            "java/lang/System"@,
            "identityHashCode"@,
            seq![object_type("java/lang/Object"@)],
        ),
        OBJECT_HASH_CODE,
    )
}

/// The natives that `Class.registerNatives` adds.
pub open spec fn class_natives(table: Map<Seq<char>, usize>) -> Map<Seq<char>, usize> {
    table.insert(
        native_key("java/lang/Class"@, "initClassName"@, seq![]),
        CLASS_INIT_CLASS_NAME,
    ).insert(
        native_key(
            "java/lang/Class"@,
            "desiredAssertionStatus0"@,
            seq![object_type("java/lang/Class"@)],
        ),
        CLASS_DESIRED_ASSERTION_STATUS,
    ).insert(
        native_key(
            "java/lang/Class"@,
            "getPrimitiveClass"@,
            seq![object_type("java/lang/String"@)],
        ),
        CLASS_GET_PRIMITIVE_CLASS,
    )
}

/// Notes the implementation of a native method.
pub fn register(
    natives: &mut dashmap::DashMap<String, usize>,
    class_name: &str,
    method: &str,
    parameters: &Vec<FieldType>,
    id: usize,
)
    ensures
        entries(*final(natives)) == entries(*old(natives)).insert(
            native_key(class_name@, method@, types_view(parameters@)),
            id,
        ),
{
    let key = key_of(class_name, method, parameters);
    let _ = table_insert(natives, key, id);
}

/// No parameters.
fn no_parameters() -> (parameters: Vec<FieldType>)
    ensures
        types_view(parameters@) == Seq::<FieldTypeView>::empty(),
{
    let parameters: Vec<FieldType> = Vec::new();
    assert(types_view(parameters@) =~= Seq::<FieldTypeView>::empty());
    parameters
}

/// One parameter of this type.
fn one_parameter(t: FieldType) -> (parameters: Vec<FieldType>)
    ensures
        types_view(parameters@) == seq![t@],
{
    let mut parameters: Vec<FieldType> = Vec::new();
    parameters.push(t);
    assert(types_view(parameters@) =~= seq![t@]);
    parameters
}

/// The type of a parameter that takes an object of the class with this
/// name.
fn object_of(name: &str) -> (t: FieldType)
    ensures
        t@ == object_type(name@),
{
    FieldType::Object(name.to_owned())
}

/// Notes the natives that the machine knows from the start.
pub fn register_natives(natives: &mut dashmap::DashMap<String, usize>)
    ensures
        entries(*final(natives)) == boot_natives(entries(*old(natives))),
{
    let none = no_parameters();
    register(natives, "java/lang/Object", "hashCode", &none, OBJECT_HASH_CODE);
    register(natives, "java/lang/Object", "clone", &none, OBJECT_CLONE);
    register(natives, "java/lang/System", "registerNatives", &none, SYSTEM_REGISTER_NATIVES);
    register(natives, "java/lang/StringUTF16", "isBigEndian", &none, STRING_IS_BIG_ENDIAN);
    register(natives, "java/lang/Class", "registerNatives", &none, CLASS_REGISTER_NATIVES);
    register(
        natives,
        "java/lang/Double",
        "doubleToRawLongBits",
        &one_parameter(FieldType::Double),
        DOUBLE_TO_RAW_LONG_BITS,
    );
    register(
        natives,
        "java/lang/Double",
        "longBitsToDouble",
        &one_parameter(FieldType::Long),
        LONG_BITS_TO_DOUBLE,
    );
    register(
        natives,
        "java/lang/Float",
        "floatToRawIntBits",
        &one_parameter(FieldType::Float),
        FLOAT_TO_RAW_INT_BITS,
    );
    register(
        natives,
        "java/lang/Float",
        "intBitsToFloat",
        &one_parameter(FieldType::Int),
        INT_BITS_TO_FLOAT,
    );
    register(natives, "jdk/internal/misc/CDS", "isDumpingClassList0", &none, NATIVE_FALSE);
    register(natives, "jdk/internal/misc/CDS", "isDumpingArchive0", &none, NATIVE_FALSE);
    register(natives, "jdk/internal/misc/CDS", "isSharingEnabled0", &none, NATIVE_FALSE);
    register(natives, "jdk/internal/misc/CDS", "getRandomSeedForDumping", &none, NATIVE_ZERO);
    register(
        natives,
        "jdk/internal/misc/CDS",
        "initializeFromArchive",
        &one_parameter(object_of("java/lang/Class")),
        NATIVE_NOP,
    );
}

/// Notes the natives of `java/lang/System`.
pub fn native_system_register_natives(natives: &mut dashmap::DashMap<String, usize>)
    ensures
        entries(*final(natives)) == system_natives(entries(*old(natives))),
{
    let none = no_parameters();
    let mut copy: Vec<FieldType> = Vec::new();
    copy.push(object_of("java/lang/Object"));
    copy.push(FieldType::Int);
    copy.push(object_of("java/lang/Object"));
    copy.push(FieldType::Int);
    copy.push(FieldType::Int);
    assert(types_view(copy@) =~= seq![
        object_type("java/lang/Object"@),
        FieldTypeView::Int,
        object_type("java/lang/Object"@),
        FieldTypeView::Int,
        FieldTypeView::Int,
    ]);
    register(natives, "java/lang/System", "arraycopy", &copy, SYSTEM_ARRAYCOPY);
    register(natives, "java/lang/System", "currentTimeMillis", &none, SYSTEM_CURRENT_TIME_MILLIS);
    register(natives, "java/lang/System", "nanoTime", &none, SYSTEM_NANO_TIME);
    register(
        natives,
        "java/lang/System",
        "identityHashCode",
        &one_parameter(object_of("java/lang/Object")),
        OBJECT_HASH_CODE,
    );
}

/// Notes the natives of `java/lang/Class`.
pub fn native_class_register_natives(natives: &mut dashmap::DashMap<String, usize>)
    ensures
        entries(*final(natives)) == class_natives(entries(*old(natives))),
{
    let none = no_parameters();
    register(natives, "java/lang/Class", "initClassName", &none, CLASS_INIT_CLASS_NAME);
    register(
        natives,
        "java/lang/Class",
        "desiredAssertionStatus0",
        &one_parameter(object_of("java/lang/Class")),
        CLASS_DESIRED_ASSERTION_STATUS,
    );
    register(
        natives,
        "java/lang/Class",
        "getPrimitiveClass",
        &one_parameter(object_of("java/lang/String")),
        CLASS_GET_PRIMITIVE_CLASS,
    );
}

/// What a native gives that changes nothing in the machine.
pub open spec fn plain_outcome(id: usize, args: Seq<NativeVariable>, big_endian: bool) -> NativeOutcome {
    if id == NATIVE_NOP {
        NativeOutcome::Value(None)
    } else if id == OBJECT_HASH_CODE {
        hash_code_outcome(args)
    } else if id == SYSTEM_CURRENT_TIME_MILLIS {
        NativeOutcome::Clock { nanos: false }
    } else if id == SYSTEM_NANO_TIME {
        NativeOutcome::Clock { nanos: true }
    } else if id == STRING_IS_BIG_ENDIAN {
        NativeOutcome::Value(Some(NativeVariable::Boolean(big_endian)))
    } else if id == CLASS_DESIRED_ASSERTION_STATUS {
        NativeOutcome::Value(Some(NativeVariable::Boolean(true)))
    } else if id == DOUBLE_TO_RAW_LONG_BITS {
        double_to_long_outcome(args)
    } else if id == LONG_BITS_TO_DOUBLE {
        long_to_double_outcome(args)
    } else if id == FLOAT_TO_RAW_INT_BITS {
        float_to_int_outcome(args)
    } else if id == INT_BITS_TO_FLOAT {
        int_to_float_outcome(args)
    } else if id == NATIVE_FALSE {
        NativeOutcome::Value(Some(NativeVariable::Boolean(false)))
    } else if id == NATIVE_ZERO {
        NativeOutcome::Value(Some(NativeVariable::Long(0)))
    } else {
        NativeOutcome::Malformed
    }
}

/// Whether `after` is `before` with these natives in its registry.
pub open spec fn natives_added(before: Vm, after: Vm, natives: Map<Seq<char>, usize>) -> bool {
    &&& entries(after.natives) == natives
    &&& after.loader == before.loader
    &&& after.heap == before.heap
    &&& after.string_table == before.string_table
    &&& after.class_table == before.class_table
    &&& after.famous == before.famous
    &&& after.special_fields == before.special_fields
    &&& after.next_thread_id == before.next_thread_id
    &&& after.compact_strings == before.compact_strings
    &&& after.big_endian == before.big_endian
}

/// What the native with this number does to the machine, and how it ends.
pub open spec fn native_effect(
    id: usize,
    args: Seq<NativeVariable>,
    before: Vm,
    after: Vm,
    outcome: NativeOutcome,
) -> bool {
    if id == OBJECT_CLONE {
        clone_effect(args, before, after, outcome)
    } else if id == SYSTEM_ARRAYCOPY {
        arraycopy_effect(args, before, after, outcome)
    } else if id == CLASS_INIT_CLASS_NAME {
        registries_unchanged(before, after) && init_class_name_effect(args, before, after, outcome)
    } else if id == CLASS_GET_PRIMITIVE_CLASS {
        registries_unchanged(before, after) && get_primitive_class_effect(
            args,
            before,
            after,
            outcome,
        )
    } else if id == SYSTEM_REGISTER_NATIVES {
        outcome == NativeOutcome::Value(None) && natives_added(
            before,
            after,
            system_natives(entries(before.natives)),
        )
    } else if id == CLASS_REGISTER_NATIVES {
        outcome == NativeOutcome::Value(None) && natives_added(
            before,
            after,
            class_natives(entries(before.natives)),
        )
    } else {
        after == before && outcome == plain_outcome(id, args, before.big_endian)
    }
}

/// Runs the native with this number.
pub fn call_native(id: usize, args: &Vec<NativeVariable>, vm: &mut Vm) -> (outcome: NativeOutcome)
    requires
        old(vm).wf(),
    ensures
        final(vm).wf(),
        native_effect(id, args@, *old(vm), *final(vm), outcome),
{
    if id == OBJECT_CLONE {
        native_object_clone(args, vm)
    } else if id == SYSTEM_ARRAYCOPY {
        native_system_arraycopy(args, vm)
    } else if id == CLASS_INIT_CLASS_NAME {
        init_class_name(args, vm)
    } else if id == CLASS_GET_PRIMITIVE_CLASS {
        get_primitive_class(args, vm)
    } else if id == SYSTEM_REGISTER_NATIVES {
        native_system_register_natives(&mut vm.natives);
        NativeOutcome::Value(None)
    } else if id == CLASS_REGISTER_NATIVES {
        native_class_register_natives(&mut vm.natives);
        NativeOutcome::Value(None)
    } else if id == NATIVE_NOP {
        NativeOutcome::Value(None)
    } else if id == OBJECT_HASH_CODE {
        native_object_hash_code(args)
    } else if id == SYSTEM_CURRENT_TIME_MILLIS {
        NativeOutcome::Clock { nanos: false }
    } else if id == SYSTEM_NANO_TIME {
        NativeOutcome::Clock { nanos: true }
    } else if id == STRING_IS_BIG_ENDIAN {
        NativeOutcome::Value(Some(NativeVariable::Boolean(vm.big_endian)))
    } else if id == CLASS_DESIRED_ASSERTION_STATUS {
        NativeOutcome::Value(Some(NativeVariable::Boolean(true)))
    } else if id == DOUBLE_TO_RAW_LONG_BITS {
        double_to_raw_long_bits(args)
    } else if id == LONG_BITS_TO_DOUBLE {
        long_bits_to_double(args)
    } else if id == FLOAT_TO_RAW_INT_BITS {
        float_to_raw_int_bits(args)
    } else if id == INT_BITS_TO_FLOAT {
        int_bits_to_float(args)
    } else if id == NATIVE_FALSE {
        NativeOutcome::Value(Some(NativeVariable::Boolean(false)))
    } else if id == NATIVE_ZERO {
        NativeOutcome::Value(Some(NativeVariable::Long(0)))
    } else {
        NativeOutcome::Malformed
    }
}

/// The number of the implementation of the native method of class `class`
/// with this name and these parameters. None where the name is not
/// modified UTF-8 or the registry has no such method.
pub open spec fn native_of(
    vm: Vm,
    class: usize,
    method_name: Seq<u8>,
    parameters: Seq<FieldTypeView>,
) -> Option<usize> {
    match java_cesu8_decoded(method_name) {
        None => None,
        Some(name) => {
            let key = native_key(vm.loader.classes[class as int].class_name@, name, parameters);
            if entries(vm.natives).contains_key(key) {
                Some(entries(vm.natives)[key])
            } else {
                None
            }
        },
    }
}

/// The number of the implementation of a native method.
pub fn find_native(vm: &Vm, class: usize, method_name: &JavaStr, parameters: &Vec<FieldType>) -> (found:
    Option<usize>)
    requires
        class < vm.loader.classes.len(),
    ensures
        found == native_of(*vm, class, method_name@, types_view(parameters@)),
{
    let name = match method_name.to_str() {
        Some(name) => name,
        None => {
            return None;
        },
    };
    let key = key_of(vm.loader.classes[class].class_name.as_str(), name.as_str(), parameters);
    table_get(&vm.natives, key.as_str())
}

/// How the frame of a native method goes on behind the call.
pub open spec fn native_finished(
    outcome: NativeOutcome,
    stack: Seq<Variable>,
    pc: int,
    next: NextView,
    after_stack: Seq<Variable>,
    after_pc: int,
) -> bool {
    match outcome {
        NativeOutcome::Value(value) => next == NextView::Step && after_stack == with_native_result(
            stack,
            value,
        ) && after_pc == pc + 1,
        NativeOutcome::Throw(kind) => next == raised(kind) && after_stack == stack && after_pc
            == pc,
        NativeOutcome::Clock { nanos } => next == (NextView::Clock { nanos }) && after_stack
            == stack && after_pc == pc,
        NativeOutcome::HeapFull => next == NextView::HeapFull && after_stack == stack && after_pc
            == pc,
        NativeOutcome::Malformed => next == NextView::Malformed && after_stack == stack
            && after_pc == pc,
    }
}

/// Whether the native with this number ends in `outcome` and the frame goes
/// on accordingly.
pub open spec fn native_called(
    id: usize,
    args: Seq<NativeVariable>,
    before: Vm,
    after: Vm,
    outcome: NativeOutcome,
    stack: Seq<Variable>,
    pc: int,
    next: NextView,
    after_stack: Seq<Variable>,
    after_pc: int,
) -> bool {
    native_effect(id, args, before, after, outcome) && native_finished(
        outcome,
        stack,
        pc,
        next,
        after_stack,
        after_pc,
    )
}

/// What `invokenative` does in the frame of a native method: it calls the
/// implementation that the registry has for the method, with the locals of
/// the frame as arguments, and puts what the implementation gives on the
/// operand stack.
pub open spec fn invoke_native_effect(
    class: usize,
    method_name: Seq<u8>,
    parameters: Seq<FieldTypeView>,
    is_static: bool,
    locals: Seq<Variable>,
    pc: int,
    stack: Seq<Variable>,
    before: Vm,
    after: Vm,
    next: NextView,
    after_stack: Seq<Variable>,
    after_pc: int,
) -> bool {
    let found = native_of(before, class, method_name, parameters);
    let args = arguments_of(parameters, locals, is_static);
    if found.is_some() && args.is_some() {
        exists|outcome: NativeOutcome| #[trigger]
            native_called(
                found->Some_0,
                args->Some_0,
                before,
                after,
                outcome,
                stack,
                pc,
                next,
                after_stack,
                after_pc,
            )
    } else {
        next == NextView::Malformed && after == before && after_stack == stack && after_pc == pc
    }
}

/// Runs `invokenative`.
pub fn invoke_native(
    class: usize,
    method_name: &JavaStr,
    parameters: &Vec<FieldType>,
    is_static: bool,
    locals: &Vec<Variable>,
    pc: &mut usize,
    stack: &mut Vec<Variable>,
    vm: &mut Vm,
) -> (next: Next)
    requires
        old(vm).wf(),
        class < old(vm).loader.classes.len(),
        *old(pc) < usize::MAX,
    ensures
        final(vm).wf(),
        invoke_native_effect(
            class,
            method_name@,
            types_view(parameters@),
            is_static,
            locals@,
            *old(pc) as int,
            old(stack)@,
            *old(vm),
            *final(vm),
            next@,
            final(stack)@,
            *final(pc) as int,
        ),
{
    let id = match find_native(vm, class, method_name, parameters) {
        Some(id) => id,
        None => {
            return Next::Malformed;
        },
    };
    let args = match marshal_arguments(parameters, locals, is_static) {
        Some(args) => args,
        None => {
            return Next::Malformed;
        },
    };
    let outcome = call_native(id, &args, vm);
    let next = finish_native(outcome, pc, stack);
    proof {
        let views = types_view(parameters@);
        assert(native_of(*old(vm), class, method_name@, views) == Some(id));
        assert(arguments_of(views, locals@, is_static) == Some(args@));
        assert(native_called(
            id,
            args@,
            *old(vm),
            *vm,
            outcome,
            old(stack)@,
            *old(pc) as int,
            next@,
            stack@,
            *pc as int,
        ));
        let f = native_of(*old(vm), class, method_name@, views);
        let a = arguments_of(views, locals@, is_static);
        assert(f.is_some() && a.is_some());
        assert(f->Some_0 == id);
        assert(a->Some_0 == args@);
        assert(native_called(
            f->Some_0,
            a->Some_0,
            *old(vm),
            *vm,
            outcome,
            old(stack)@,
            *old(pc) as int,
            next@,
            stack@,
            *pc as int,
        ));
        assert(invoke_native_effect(
            class,
            method_name@,
            views,
            is_static,
            locals@,
            *old(pc) as int,
            old(stack)@,
            *old(vm),
            *vm,
            next@,
            stack@,
            *pc as int,
        ));
    }
    next
}

/// Lets the frame of a native method go on behind the call.
pub fn finish_native(outcome: NativeOutcome, pc: &mut usize, stack: &mut Vec<Variable>) -> (next:
    Next)
    requires
        *old(pc) < usize::MAX,
    ensures
        native_finished(
            outcome,
            old(stack)@,
            *old(pc) as int,
            next@,
            final(stack)@,
            *final(pc) as int,
        ),
{
    match outcome {
        NativeOutcome::Value(value) => {
            push_native_result(stack, value);
            *pc = *pc + 1;
            Next::Step
        },
        NativeOutcome::Throw(kind) => raise(kind),
        NativeOutcome::Clock { nanos } => Next::Clock { nanos },
        NativeOutcome::HeapFull => Next::HeapFull,
        NativeOutcome::Malformed => Next::Malformed,
    }
}

} // verus!

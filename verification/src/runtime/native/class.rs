//! The natives of `java/lang/Class`.

use crate::class::structs::java_str::{copy_bytes, java_cesu8_encoded, string_bytes, JavaStr};
use crate::runtime::class_loader::pool::{ascii_bytes, is_ascii_text};
use crate::runtime::heap::reflection::SpecialClassObject;
use crate::runtime::heap::{intern_effect, mirror_effect, Heap, SpecialObject};
use crate::runtime::native::{NativeOutcome, NativeVariable};
use crate::runtime::Vm;
use vstd::prelude::*;

verus! {

/// The binary name of a class with dots in place of the slashes.
pub open spec fn dotted(name: Seq<char>) -> Seq<char> {
    Seq::new(
        name.len(),
        |i: int|
            if name[i] == '/' {
                '.'
            } else {
                name[i]
            },
    )
}

/// The binary name of a class with dots in place of the slashes.
pub fn dotted_name(name: &str) -> (text: String)
    ensures
        text@ == dotted(name@),
{
    proof {
        reveal_strlit("");
        reveal_strlit(".");
    }
    let len = name.unicode_len();
    let mut text = String::from_str("");
    let mut i: usize = 0;
    while i < len
        invariant
            i <= len,
            len == name@.len(),
            text@ =~= dotted(name@).subrange(0, i as int),
        decreases len - i,
    {
        proof {
            reveal_strlit(".");
        }
        if name.get_char(i) == '/' {
            text = text.concat(".");
        } else {
            text = text.concat(name.substring_char(i, i + 1));
        }
        assert(text@ =~= dotted(name@).subrange(0, i + 1));
        i += 1;
    }
    assert(text@ =~= dotted(name@));
    text
}

/// The mirror that a native of `Class` is called on.
pub open spec fn mirror_argument(args: Seq<NativeVariable>, vm: Vm) -> Option<SpecialClassObject> {
    if args.len() >= 1 && args[0] is Reference {
        match vm.heap.special(args[0]->Reference_0) {
            Some(SpecialObject::Class(mirror)) => if mirror.class < vm.loader.classes.len() {
                Some(mirror)
            } else {
                None
            },
            _ => None,
        }
    } else {
        None
    }
}

/// What `initClassName` does: it interns the name of the class of the
/// mirror, with dots in place of the slashes, notes the string in the
/// mirror and gives a reference to it.
pub open spec fn init_class_name_effect(
    args: Seq<NativeVariable>,
    before: Vm,
    after: Vm,
    outcome: NativeOutcome,
) -> bool {
    &&& after.loader == before.loader
    &&& after.class_table == before.class_table
    &&& match mirror_argument(args, before) {
        None => outcome == NativeOutcome::Malformed && after.heap == before.heap
            && after.string_table == before.string_table,
        Some(mirror) => {
            let this = args[0]->Reference_0;
            let bytes = string_bytes(
                java_cesu8_encoded(dotted(before.loader.classes[mirror.class as int].class_name@)),
                before.compact_strings,
                before.big_endian,
            );
            exists|id: Option<u32>, middle: Heap| #[trigger]
                intern_effect(
                    before.heap,
                    middle,
                    before.string_table,
                    after.string_table,
                    bytes.0,
                    bytes.1,
                    id,
                ) && (match id {
                    None => outcome == NativeOutcome::HeapFull && after.heap == middle,
                    Some(id) => {
                        &&& outcome == NativeOutcome::Value(Some(NativeVariable::Reference(id)))
                        &&& after.heap.heap == middle.heap
                        &&& after.heap.next_id == middle.next_id
                        &&& after.heap.special(this) == Some(
                            SpecialObject::Class(SpecialClassObject { name_str: id, ..mirror }),
                        )
                        &&& forall|other: u32|
                            other != this ==> after.heap.special(other) == middle.special(other)
                    },
                })
        },
    }
}

/// `Class.initClassName`.
pub fn init_class_name(args: &Vec<NativeVariable>, vm: &mut Vm) -> (outcome: NativeOutcome)
    requires
        old(vm).wf(),
    ensures
        final(vm).wf(),
        crate::runtime::interpreter::constant_ops::registries_unchanged(*old(vm), *final(vm)),
        init_class_name_effect(args@, *old(vm), *final(vm), outcome),
{
    if args.len() < 1 {
        return NativeOutcome::Malformed;
    }
    let this = match args[0] {
        NativeVariable::Reference(id) => id,
        _ => {
            return NativeOutcome::Malformed;
        },
    };
    let class = match vm.heap.get_special(this) {
        Some(SpecialObject::Class(mirror)) => mirror.class,
        _ => {
            return NativeOutcome::Malformed;
        },
    };
    if class >= vm.loader.classes.len() {
        return NativeOutcome::Malformed;
    }
    let ghost mirror = mirror_argument(args@, *vm)->Some_0;
    let text = dotted_name(vm.loader.classes[class].class_name.as_str());
    let (bytes, has_multi_bytes) = JavaStr::from_str(text.as_str()).to_java_string_bytes(
        vm.compact_strings,
        vm.big_endian,
    );
    let ghost held = bytes@;
    let id = vm.heap.intern_string(bytes, has_multi_bytes, &mut vm.string_table);
    let ghost middle = vm.heap;
    assert(intern_effect(
        old(vm).heap,
        middle,
        old(vm).string_table,
        vm.string_table,
        held,
        has_multi_bytes,
        id,
    ));
    assert(mirror_argument(args@, *old(vm)) == Some(mirror));
    assert(held == string_bytes(
        java_cesu8_encoded(dotted(old(vm).loader.classes[mirror.class as int].class_name@)),
        old(vm).compact_strings,
        old(vm).big_endian,
    ).0);
    match id {
        None => {
            assert(vm.heap == middle);
            assert(init_class_name_effect(args@, *old(vm), *vm, NativeOutcome::HeapFull));
            NativeOutcome::HeapFull
        },
        Some(id) => {
            assert(old(vm).heap.special(this) == Some(SpecialObject::Class(mirror)));
            assert(middle.special(this) == old(vm).heap.special(this)) by {
                if old(vm).string_table.lookup(held).is_none() {
                    assert(this != id && this != id - 1);
                }
            }
            let done = vm.heap.set_mirror_name(this, id);
            assert(done);
            assert(vm.heap.special(this) == Some(
                SpecialObject::Class(SpecialClassObject { name_str: id, ..mirror }),
            ));
            assert(forall|other: u32|
                other != this ==> vm.heap.special(other) == middle.special(other));
            assert(vm.heap.heap == middle.heap);
            assert(vm.heap.next_id == middle.next_id);
            assert(vm.loader == old(vm).loader);
            assert(vm.class_table == old(vm).class_table);
            assert(has_multi_bytes == string_bytes(
                java_cesu8_encoded(
                    dotted(old(vm).loader.classes[mirror.class as int].class_name@),
                ),
                old(vm).compact_strings,
                old(vm).big_endian,
            ).1);
            assert(args@[0]->Reference_0 == this);
            assert(intern_effect(
                old(vm).heap,
                middle,
                old(vm).string_table,
                vm.string_table,
                held,
                has_multi_bytes,
                Some(id),
            ));
            NativeOutcome::Value(Some(NativeVariable::Reference(id)))
        },
    }
}

/// The name among those of the primitive types and `void` whose ASCII
/// bytes these are.
pub open spec fn primitive_name(bytes: Seq<u8>) -> Option<Seq<char>> {
    if bytes == ascii_bytes("boolean"@) {
        Some("boolean"@)
    } else if bytes == ascii_bytes("byte"@) {
        Some("byte"@)
    } else if bytes == ascii_bytes("char"@) {
        Some("char"@)
    } else if bytes == ascii_bytes("short"@) {
        Some("short"@)
    } else if bytes == ascii_bytes("float"@) {
        Some("float"@)
    } else if bytes == ascii_bytes("double"@) {
        Some("double"@)
    } else if bytes == ascii_bytes("int"@) {
        Some("int"@)
    } else if bytes == ascii_bytes("long"@) {
        Some("long"@)
    } else if bytes == ascii_bytes("void"@) {
        Some("void"@)
    } else {
        None
    }
}

/// The name among those of the primitive types and `void` whose ASCII
/// bytes these are.
pub fn primitive_name_of(bytes: &JavaStr) -> (name: Option<&'static str>)
    ensures
        match name {
            Some(name) => primitive_name(bytes@) == Some(name@),
            None => primitive_name(bytes@).is_none(),
        },
{
    proof {
        reveal_strlit("boolean");
        reveal_strlit("byte");
        reveal_strlit("char");
        reveal_strlit("short");
        reveal_strlit("float");
        reveal_strlit("double");
        reveal_strlit("int");
        reveal_strlit("long");
        reveal_strlit("void");
    }
    if is_ascii_text(bytes, "boolean") {
        Some("boolean")
    } else if is_ascii_text(bytes, "byte") {
        Some("byte")
    } else if is_ascii_text(bytes, "char") {
        Some("char")
    } else if is_ascii_text(bytes, "short") {
        Some("short")
    } else if is_ascii_text(bytes, "float") {
        Some("float")
    } else if is_ascii_text(bytes, "double") {
        Some("double")
    } else if is_ascii_text(bytes, "int") {
        Some("int")
    } else if is_ascii_text(bytes, "long") {
        Some("long")
    } else if is_ascii_text(bytes, "void") {
        Some("void")
    } else {
        None
    }
}

/// The class that `getPrimitiveClass` is asked for: the class that the
/// loader has under the name that the string argument spells. None where
/// the argument is no string, the string names no primitive type, or the
/// loader has no class of that name.
pub open spec fn primitive_class_asked(args: Seq<NativeVariable>, vm: Vm) -> Option<usize> {
    if args.len() >= 1 && args[0] is Reference {
        match vm.heap.special(args[0]->Reference_0) {
            Some(SpecialObject::String(text)) => match primitive_name(text.bytes()) {
                Some(name) => if vm.loader.names().contains_key(name) {
                    Some(vm.loader.names()[name])
                } else {
                    None
                },
                None => None,
            },
            _ => None,
        }
    } else {
        None
    }
}

/// What `getPrimitiveClass` does: it gives a reference to the mirror of
/// the class, which it makes first if need be.
pub open spec fn get_primitive_class_effect(
    args: Seq<NativeVariable>,
    before: Vm,
    after: Vm,
    outcome: NativeOutcome,
) -> bool {
    &&& after.loader == before.loader
    &&& after.string_table == before.string_table
    &&& match primitive_class_asked(args, before) {
        None => outcome == NativeOutcome::Malformed && after.heap == before.heap
            && after.class_table == before.class_table,
        Some(class) => exists|id: Option<u32>| #[trigger]
            mirror_effect(
                before.heap,
                after.heap,
                before.class_table,
                after.class_table,
                class,
                id,
            ) && outcome == (match id {
                Some(id) => NativeOutcome::Value(Some(NativeVariable::Reference(id))),
                None => NativeOutcome::HeapFull,
            }),
    }
}

/// `Class.getPrimitiveClass`.
pub fn get_primitive_class(args: &Vec<NativeVariable>, vm: &mut Vm) -> (outcome: NativeOutcome)
    requires
        old(vm).wf(),
    ensures
        final(vm).wf(),
        crate::runtime::interpreter::constant_ops::registries_unchanged(*old(vm), *final(vm)),
        get_primitive_class_effect(args@, *old(vm), *final(vm), outcome),
{
    if args.len() < 1 {
        return NativeOutcome::Malformed;
    }
    let name_ref = match args[0] {
        NativeVariable::Reference(id) => id,
        _ => {
            return NativeOutcome::Malformed;
        },
    };
    let bytes = match vm.heap.get_special(name_ref) {
        Some(SpecialObject::String(text)) => JavaStr::new(copy_bytes(text.get_bytes())),
        _ => {
            return NativeOutcome::Malformed;
        },
    };
    let name = match primitive_name_of(&bytes) {
        Some(name) => name,
        None => {
            return NativeOutcome::Malformed;
        },
    };
    let class = match vm.loader.find_class(name) {
        Some(class) => class,
        None => {
            return NativeOutcome::Malformed;
        },
    };
    let id = vm.heap.get_class_object(class, &mut vm.class_table);
    assert(mirror_effect(
        old(vm).heap,
        vm.heap,
        old(vm).class_table,
        vm.class_table,
        class,
        id,
    ));
    match id {
        Some(id) => NativeOutcome::Value(Some(NativeVariable::Reference(id))),
        None => NativeOutcome::HeapFull,
    }
}

} // verus!

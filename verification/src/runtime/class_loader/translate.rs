//! From the constant pool of a decoded class file to the constant pool of a
//! class: every index that names a text, a class or a name and type is
//! followed, and descriptors are read.

use crate::class::structs::java_str::{java_cesu8_decoded, JavaStr};
use crate::class::structs::{
    pool_view, ConstantPoolInfo as RawConstant, ConstantView, TAG_CLASS, TAG_DOUBLE, TAG_DYNAMIC, TAG_FIELDREF, TAG_FLOAT, TAG_INTEGER, TAG_INTERFACE_METHODREF, TAG_INVOKE_DYNAMIC, TAG_LONG, TAG_METHODREF, TAG_METHOD_HANDLE, TAG_METHOD_TYPE, TAG_MODULE, TAG_NAME_AND_TYPE, TAG_PACKAGE, TAG_STRING, TAG_UTF8,
};
use crate::descriptor::{FieldDescriptor, FieldTypeView, MethodDescriptor, MethodDescriptorView};
use crate::runtime::class_loader::pool::{
    field_descriptor_of_text, field_type_of_text, method_descriptor_of_text, method_type_of_text,
};
use crate::runtime::structs::constant_pool::{
    constants_view, ConstantInfoView, ConstantPoolInfo, CpClassInfo, CpNameAndTypeInfo, Fieldref,
    Methodref,
};
use vstd::prelude::*;

verus! {

/// The entry with this index, counted from 1, or the empty entry where the
/// pool has none.
pub open spec fn raw_entry(raw: Seq<ConstantView>, index: int) -> ConstantView {
    if 1 <= index <= raw.len() {
        raw[index - 1]
    } else {
        ConstantView::empty()
    }
}

/// The text with this index, if the entry is a text.
pub open spec fn raw_utf8(raw: Seq<ConstantView>, index: int) -> Option<Seq<u8>> {
    if raw_entry(raw, index).tag == TAG_UTF8 {
        Some(raw_entry(raw, index).text)
    } else {
        None
    }
}

/// The name of the class with this index, if the entry is a class whose
/// name is a text in modified UTF-8.
pub open spec fn raw_class_name(raw: Seq<ConstantView>, index: int) -> Option<Seq<char>> {
    if raw_entry(raw, index).tag == TAG_CLASS {
        match raw_utf8(raw, raw_entry(raw, index).first) {
            Some(text) => java_cesu8_decoded(text),
            None => None,
        }
    } else {
        None
    }
}

/// The name and the descriptor of the name and type with this index.
pub open spec fn raw_name_and_type(raw: Seq<ConstantView>, index: int) -> Option<
    (Seq<u8>, Seq<u8>),
> {
    if raw_entry(raw, index).tag == TAG_NAME_AND_TYPE {
        match raw_utf8(raw, raw_entry(raw, index).first) {
            Some(name) => match raw_utf8(raw, raw_entry(raw, index).second) {
                Some(descriptor) => Some((name, descriptor)),
                None => None,
            },
            None => None,
        }
    } else {
        None
    }
}

/// The name, and the descriptor read as a field type, of the name and type
/// with this index.
pub open spec fn raw_field_signature(raw: Seq<ConstantView>, index: int) -> Option<
    (Seq<u8>, FieldTypeView),
> {
    match raw_name_and_type(raw, index) {
        Some(found) => match field_type_of_text(found.1) {
            Some(t) => Some((found.0, t)),
            None => None,
        },
        None => None,
    }
}

/// The name, and the descriptor read as a method type, of the name and type
/// with this index.
pub open spec fn raw_method_signature(raw: Seq<ConstantView>, index: int) -> Option<
    (Seq<u8>, MethodDescriptorView),
> {
    match raw_name_and_type(raw, index) {
        Some(found) => match method_type_of_text(found.1) {
            Some(t) => Some((found.0, t)),
            None => None,
        },
        None => None,
    }
}

/// The entry of the class's pool that stands for entry `i` (counted from
/// 0) of the file's pool, or none where an index that the entry holds leads
/// to no entry of the kind it needs. No reference is resolved yet.
pub open spec fn translated_entry(raw: Seq<ConstantView>, i: int) -> Option<ConstantInfoView> {
    let c = raw[i];
    if c.tag == TAG_UTF8 {
        Some(ConstantInfoView::Utf8(c.text))
    } else if c.tag == TAG_INTEGER {
        Some(ConstantInfoView::Integer(c.first as i32))
    } else if c.tag == TAG_FLOAT {
        Some(ConstantInfoView::Float(c.first as u32))
    } else if c.tag == TAG_LONG {
        Some(ConstantInfoView::Long(c.first as i64))
    } else if c.tag == TAG_DOUBLE {
        Some(ConstantInfoView::Double(c.first as u64))
    } else if c.tag == TAG_CLASS {
        match raw_class_name(raw, i + 1) {
            Some(name) => Some(ConstantInfoView::Class { name, class: None }),
            None => None,
        }
    } else if c.tag == TAG_STRING {
        match raw_utf8(raw, c.first) {
            Some(text) => Some(ConstantInfoView::String(text)),
            None => None,
        }
    } else if c.tag == TAG_FIELDREF {
        match (raw_class_name(raw, c.first), raw_field_signature(raw, c.second)) {
            (Some(class_name), Some(signature)) => Some(
                ConstantInfoView::Fieldref {
                    class_name,
                    name: signature.0,
                    descriptor: signature.1,
                    resolve: None,
                },
            ),
            _ => None,
        }
    } else if c.tag == TAG_METHODREF {
        match (raw_class_name(raw, c.first), raw_method_signature(raw, c.second)) {
            (Some(class_name), Some(signature)) => Some(
                ConstantInfoView::Methodref {
                    class_name,
                    name: signature.0,
                    descriptor: signature.1,
                    resolve: None,
                },
            ),
            _ => None,
        }
    } else if c.tag == TAG_INTERFACE_METHODREF {
        match (raw_class_name(raw, c.first), raw_method_signature(raw, c.second)) {
            (Some(class_name), Some(signature)) => Some(
                ConstantInfoView::InterfaceMethodref {
                    class_name,
                    name: signature.0,
                    descriptor: signature.1,
                    resolve: None,
                },
            ),
            _ => None,
        }
    } else if c.tag == TAG_NAME_AND_TYPE {
        match raw_name_and_type(raw, i + 1) {
            Some(found) => Some(
                ConstantInfoView::NameAndType { name: found.0, descriptor: found.1 },
            ),
            None => None,
        }
    } else if c.tag == TAG_METHOD_HANDLE {
        Some(
            ConstantInfoView::MethodHandle {
                reference_kind: c.first as u8,
                reference_index: c.second as u16,
            },
        )
    } else if c.tag == TAG_METHOD_TYPE {
        Some(ConstantInfoView::MethodType { descriptor_index: c.first as u16 })
    } else if c.tag == TAG_DYNAMIC {
        Some(
            ConstantInfoView::Dynamic {
                bootstrap_method_attr_index: c.first as u16,
                name_and_type_index: c.second as u16,
            },
        )
    } else if c.tag == TAG_INVOKE_DYNAMIC {
        Some(
            ConstantInfoView::InvokeDynamic {
                bootstrap_method_attr_index: c.first as u16,
                name_and_type_index: c.second as u16,
            },
        )
    } else if c.tag == TAG_MODULE {
        match raw_utf8(raw, c.first) {
            Some(text) => Some(ConstantInfoView::Module(text)),
            None => None,
        }
    } else if c.tag == TAG_PACKAGE {
        match raw_utf8(raw, c.first) {
            Some(text) => Some(ConstantInfoView::Package(text)),
            None => None,
        }
    } else {
        Some(ConstantInfoView::Empty)
    }
}

/// The entry with this index.
fn raw(constant_pool: &Vec<RawConstant>, index: u16) -> (found: Option<&RawConstant>)
    ensures
        match found {
            Some(e) => 1 <= index <= constant_pool.len() && *e == constant_pool[index - 1]
                && e@ == raw_entry(pool_view(constant_pool@), index as int),
            None => !(1 <= index <= constant_pool.len()),
        },
{
    if 1 <= index && index as usize <= constant_pool.len() {
        Some(&constant_pool[index as usize - 1])
    } else {
        None
    }
}

pub fn resolve_cp_utf8(constant_pool: &Vec<RawConstant>, index: u16) -> (found: Option<&JavaStr>)
    ensures
        match found {
            Some(s) => raw_utf8(pool_view(constant_pool@), index as int) == Some(s@),
            None => raw_utf8(pool_view(constant_pool@), index as int).is_none(),
        },
{
    match raw(constant_pool, index) {
        Some(RawConstant::Utf8(s)) => Some(s),
        _ => None,
    }
}

/// The name of the class with this index.
pub fn resolve_raw_class_name(constant_pool: &Vec<RawConstant>, index: u16) -> (found: Option<
    String,
>)
    ensures
        match found {
            Some(s) => raw_class_name(pool_view(constant_pool@), index as int) == Some(s@),
            None => raw_class_name(pool_view(constant_pool@), index as int).is_none(),
        },
{
    match raw(constant_pool, index) {
        Some(RawConstant::Class { name_index }) => match resolve_cp_utf8(
            constant_pool,
            *name_index,
        ) {
            Some(text) => text.to_str(),
            None => None,
        },
        _ => None,
    }
}

pub fn resolve_cp_name_and_type(
    constant_pool: &Vec<RawConstant>,
    name_index: u16,
    descriptor_index: u16,
) -> (found: Option<CpNameAndTypeInfo<JavaStr>>)
    ensures
        match found {
            Some(n) => raw_utf8(pool_view(constant_pool@), name_index as int) == Some(n.name@)
                && raw_utf8(pool_view(constant_pool@), descriptor_index as int) == Some(
                n.descriptor@,
            ),
            None => raw_utf8(pool_view(constant_pool@), name_index as int).is_none() || raw_utf8(
                pool_view(constant_pool@),
                descriptor_index as int,
            ).is_none(),
        },
{
    match resolve_cp_utf8(constant_pool, name_index) {
        Some(name) => match resolve_cp_utf8(constant_pool, descriptor_index) {
            Some(descriptor) => Some(
                CpNameAndTypeInfo { name: name.clone(), descriptor: descriptor.clone() },
            ),
            None => None,
        },
        None => None,
    }
}

/// The name and type with this index.
fn resolve_raw_name_and_type(constant_pool: &Vec<RawConstant>, index: u16) -> (found: Option<
    CpNameAndTypeInfo<JavaStr>,
>)
    ensures
        match found {
            Some(n) => raw_name_and_type(pool_view(constant_pool@), index as int) == Some(
                (n.name@, n.descriptor@),
            ),
            None => raw_name_and_type(pool_view(constant_pool@), index as int).is_none(),
        },
{
    match raw(constant_pool, index) {
        Some(RawConstant::NameAndType { name_index, descriptor_index }) => {
            resolve_cp_name_and_type(constant_pool, *name_index, *descriptor_index)
        },
        _ => None,
    }
}

pub fn resolve_cp_name_and_type_field(constant_pool: &Vec<RawConstant>, index: u16) -> (found:
    Option<CpNameAndTypeInfo<FieldDescriptor>>)
    ensures
        match found {
            Some(n) => raw_field_signature(pool_view(constant_pool@), index as int) == Some(
                (n.name@, n.descriptor@),
            ),
            None => raw_field_signature(pool_view(constant_pool@), index as int).is_none(),
        },
{
    match resolve_raw_name_and_type(constant_pool, index) {
        Some(found) => match field_descriptor_of_text(&found.descriptor) {
            Some(descriptor) => Some(CpNameAndTypeInfo { name: found.name, descriptor }),
            None => None,
        },
        None => None,
    }
}

pub fn resolve_cp_name_and_type_method(constant_pool: &Vec<RawConstant>, index: u16) -> (found:
    Option<CpNameAndTypeInfo<MethodDescriptor>>)
    ensures
        match found {
            Some(n) => raw_method_signature(pool_view(constant_pool@), index as int) == Some(
                (n.name@, n.descriptor@),
            ),
            None => raw_method_signature(pool_view(constant_pool@), index as int).is_none(),
        },
{
    match resolve_raw_name_and_type(constant_pool, index) {
        Some(found) => match method_descriptor_of_text(&found.descriptor) {
            Some(descriptor) => Some(CpNameAndTypeInfo { name: found.name, descriptor }),
            None => None,
        },
        None => None,
    }
}

/// A reference to a method of the class and with the name and type that the
/// two indices give.
fn method_reference(constant_pool: &Vec<RawConstant>, class_index: u16, name_and_type_index: u16) -> (found:
    Option<Methodref>)
    ensures
        match found {
            Some(r) => raw_class_name(pool_view(constant_pool@), class_index as int) == Some(
                r.class_name@,
            ) && raw_method_signature(pool_view(constant_pool@), name_and_type_index as int)
                == Some((r.name_and_type.name@, r.name_and_type.descriptor@))
                && r.resolve.is_none(),
            None => raw_class_name(pool_view(constant_pool@), class_index as int).is_none()
                || raw_method_signature(
                pool_view(constant_pool@),
                name_and_type_index as int,
            ).is_none(),
        },
{
    match resolve_raw_class_name(constant_pool, class_index) {
        Some(class_name) => match resolve_cp_name_and_type_method(
            constant_pool,
            name_and_type_index,
        ) {
            Some(name_and_type) => Some(Methodref { class_name, name_and_type, resolve: None }),
            None => None,
        },
        None => None,
    }
}

/// Translates entry `i`, counted from 0, of the file's pool.
pub fn translate_constant(constant_pool: &Vec<RawConstant>, i: usize) -> (found: Option<
    ConstantPoolInfo,
>)
    requires
        i < constant_pool.len(),
        constant_pool.len() <= 0xffff,
    ensures
        match found {
            Some(c) => translated_entry(pool_view(constant_pool@), i as int) == Some(c@),
            None => translated_entry(pool_view(constant_pool@), i as int).is_none(),
        },
{
    let index = (i + 1) as u16;
    assert(pool_view(constant_pool@)[i as int] == constant_pool@[i as int]@);
    match &constant_pool[i] {
        RawConstant::Utf8(v) => Some(ConstantPoolInfo::Utf8(v.clone())),
        RawConstant::Integer(v) => Some(ConstantPoolInfo::Integer(*v)),
        RawConstant::Float(v) => Some(ConstantPoolInfo::Float(*v)),
        RawConstant::Long(v) => Some(ConstantPoolInfo::Long(*v)),
        RawConstant::Double(v) => Some(ConstantPoolInfo::Double(*v)),
        RawConstant::Class { .. } => match resolve_raw_class_name(constant_pool, index) {
            Some(name) => Some(ConstantPoolInfo::Class(CpClassInfo { name, class: None })),
            None => None,
        },
        RawConstant::String { string_index } => match resolve_cp_utf8(
            constant_pool,
            *string_index,
        ) {
            Some(text) => Some(ConstantPoolInfo::String(text.clone())),
            None => None,
        },
        RawConstant::Fieldref { class_index, name_and_type_index } => {
            match resolve_raw_class_name(constant_pool, *class_index) {
                Some(class_name) => match resolve_cp_name_and_type_field(
                    constant_pool,
                    *name_and_type_index,
                ) {
                    Some(name_and_type) => Some(
                        ConstantPoolInfo::Fieldref(
                            Fieldref { class_name, name_and_type, resolve: None },
                        ),
                    ),
                    None => None,
                },
                None => None,
            }
        },
        RawConstant::Methodref { class_index, name_and_type_index } => {
            match method_reference(constant_pool, *class_index, *name_and_type_index) {
                Some(r) => Some(ConstantPoolInfo::Methodref(r)),
                None => None,
            }
        },
        RawConstant::InterfaceMethodref { class_index, name_and_type_index } => {
            match method_reference(constant_pool, *class_index, *name_and_type_index) {
                Some(r) => Some(ConstantPoolInfo::InterfaceMethodref(r)),
                None => None,
            }
        },
        RawConstant::NameAndType { .. } => match resolve_raw_name_and_type(constant_pool, index) {
            Some(n) => Some(ConstantPoolInfo::NameAndType(n)),
            None => None,
        },
        RawConstant::MethodHandle { reference_kind, reference_index } => Some(
            ConstantPoolInfo::MethodHandle {
                reference_kind: *reference_kind,
                reference_index: *reference_index,
            },
        ),
        RawConstant::MethodType { descriptor_index } => Some(
            ConstantPoolInfo::MethodType { descriptor_index: *descriptor_index },
        ),
        RawConstant::Dynamic { bootstrap_method_attr_index, name_and_type_index } => Some(
            ConstantPoolInfo::Dynamic {
                bootstrap_method_attr_index: *bootstrap_method_attr_index,
                name_and_type_index: *name_and_type_index,
            },
        ),
        RawConstant::InvokeDynamic { bootstrap_method_attr_index, name_and_type_index } => Some(
            ConstantPoolInfo::InvokeDynamic {
                bootstrap_method_attr_index: *bootstrap_method_attr_index,
                name_and_type_index: *name_and_type_index,
            },
        ),
        RawConstant::Module { name_index } => match resolve_cp_utf8(constant_pool, *name_index) {
            Some(text) => Some(ConstantPoolInfo::Module(text.clone())),
            None => None,
        },
        RawConstant::Package { name_index } => match resolve_cp_utf8(constant_pool, *name_index) {
            Some(text) => Some(ConstantPoolInfo::Package(text.clone())),
            None => None,
        },
        RawConstant::Empty => Some(ConstantPoolInfo::Empty),
    }
}

/// The first entry, counted from 0, that cannot be translated, or the
/// length of the pool where every entry can.
pub open spec fn first_untranslated(raw: Seq<ConstantView>, from: int) -> int
    decreases raw.len() - from,
{
    if from < 0 || from >= raw.len() {
        raw.len() as int
    } else if translated_entry(raw, from).is_none() {
        from
    } else {
        first_untranslated(raw, from + 1)
    }
}

/// The pool of the class that stands for the pool of the file, or the index,
/// counted from 1, of the first entry that cannot be translated.
pub open spec fn translated_pool(raw: Seq<ConstantView>) -> Result<Seq<ConstantInfoView>, int> {
    if first_untranslated(raw, 0) < raw.len() {
        Err(first_untranslated(raw, 0) + 1)
    } else {
        Ok(Seq::new(raw.len(), |i: int| translated_entry(raw, i)->Some_0))
    }
}

/// Translates the constant pool of a decoded class file. A failure names
/// the index, counted from 1, of the first entry that cannot be translated.
pub fn parse_constant_pool(cp: &Vec<RawConstant>) -> (r: Result<Vec<ConstantPoolInfo>, u16>)
    requires
        cp.len() < 0xffff,
    ensures
        match r {
            Ok(pool) => translated_pool(pool_view(cp@)) == Ok::<Seq<ConstantInfoView>, int>(
                constants_view(pool@),
            ),
            Err(index) => translated_pool(pool_view(cp@)) == Err::<Seq<ConstantInfoView>, int>(
                index as int,
            ),
        },
{
    let ghost raw = pool_view(cp@);
    let mut constant_pool: Vec<ConstantPoolInfo> = Vec::new();
    let mut i: usize = 0;
    while i < cp.len()
        invariant
            i <= cp.len() < 0xffff,
            raw == pool_view(cp@),
            constant_pool.len() == i,
            first_untranslated(raw, 0) == first_untranslated(raw, i as int),
            forall|k: int| 0 <= k < i ==> translated_entry(raw, k) == Some(constant_pool@[k]@),
        decreases cp.len() - i,
    {
        match translate_constant(cp, i) {
            Some(constant) => {
                constant_pool.push(constant);
            },
            None => {
                return Err((i + 1) as u16);
            },
        }
        i += 1;
    }
    assert(constants_view(constant_pool@) =~= Seq::new(
        raw.len(),
        |i: int| translated_entry(raw, i)->Some_0,
    ));
    Ok(constant_pool)
}

} // verus!

//! Looking entries up in the constant pool of a linked class. All indices
//! count from 1, as in the class file.

use crate::class::structs::java_str::{java_cesu8_decoded, JavaStr};
use crate::descriptor::{
    field_descriptor_of, method_descriptor_of, parse_field_descriptor, parse_method_descriptor,
    parse_return_type_descriptor, return_descriptor_of, return_type_view, FieldDescriptor,
    FieldTypeView, MethodDescriptor, MethodDescriptorView, ReturnType,
};
use crate::runtime::structs::attributes::{Const, ConstView};
use crate::runtime::structs::constant_pool::{
    constants_view, ConstantInfoView, ConstantPoolInfo, CpClassInfo,
};
use vstd::prelude::*;
use vstd::string::*;

verus! {

/// The entry with this index, or the empty entry where the pool has none.
pub open spec fn entry_at(pool: Seq<ConstantInfoView>, index: int) -> ConstantInfoView {
    if 1 <= index <= pool.len() {
        pool[index - 1]
    } else {
        ConstantInfoView::Empty
    }
}

/// The text with this index, if the entry is a text.
pub open spec fn utf8_at(pool: Seq<ConstantInfoView>, index: int) -> Option<Seq<u8>> {
    match entry_at(pool, index) {
        ConstantInfoView::Utf8(s) => Some(s),
        _ => None,
    }
}

/// The package name with this index, if the entry is a package.
pub open spec fn package_at(pool: Seq<ConstantInfoView>, index: int) -> Option<Seq<u8>> {
    match entry_at(pool, index) {
        ConstantInfoView::Package(s) => Some(s),
        _ => None,
    }
}

/// The module name with this index, if the entry is a module.
pub open spec fn module_at(pool: Seq<ConstantInfoView>, index: int) -> Option<Seq<u8>> {
    match entry_at(pool, index) {
        ConstantInfoView::Module(s) => Some(s),
        _ => None,
    }
}

/// The name of the class with this index, if the entry is a class.
pub open spec fn class_name_at(pool: Seq<ConstantInfoView>, index: int) -> Option<Seq<char>> {
    match entry_at(pool, index) {
        ConstantInfoView::Class { name, .. } => Some(name),
        _ => None,
    }
}

/// The constant value with this index, if the entry is a number or a text.
pub open spec fn constant_value_at(pool: Seq<ConstantInfoView>, index: int) -> Option<ConstView> {
    match entry_at(pool, index) {
        ConstantInfoView::Integer(v) => Some(ConstView::Int(v)),
        ConstantInfoView::Float(v) => Some(ConstView::Float(v)),
        ConstantInfoView::Long(v) => Some(ConstView::Long(v)),
        ConstantInfoView::Double(v) => Some(ConstView::Double(v)),
        ConstantInfoView::String(s) => Some(ConstView::String(s)),
        ConstantInfoView::Utf8(s) => Some(ConstView::String(s)),
        _ => None,
    }
}

/// The entry with this index.
pub fn entry(constant_pool: &Vec<ConstantPoolInfo>, index: u16) -> (found: Option<
    &ConstantPoolInfo,
>)
    ensures
        match found {
            Some(e) => 1 <= index <= constant_pool.len() && *e == constant_pool[index - 1],
            None => !(1 <= index <= constant_pool.len()),
        },
{
    if 1 <= index && index as usize <= constant_pool.len() {
        Some(&constant_pool[index as usize - 1])
    } else {
        None
    }
}

pub fn resolve_runtime_cp_utf8(constant_pool: &Vec<ConstantPoolInfo>, index: u16) -> (found:
    Option<&JavaStr>)
    ensures
        match found {
            Some(s) => utf8_at(constants_view(constant_pool@), index as int) == Some(s@),
            None => utf8_at(constants_view(constant_pool@), index as int).is_none(),
        },
{
    match entry(constant_pool, index) {
        Some(ConstantPoolInfo::Utf8(s)) => Some(s),
        _ => None,
    }
}

pub fn resolve_cp_package(constant_pool: &Vec<ConstantPoolInfo>, index: u16) -> (found: Option<
    &JavaStr,
>)
    ensures
        match found {
            Some(s) => package_at(constants_view(constant_pool@), index as int) == Some(s@),
            None => package_at(constants_view(constant_pool@), index as int).is_none(),
        },
{
    match entry(constant_pool, index) {
        Some(ConstantPoolInfo::Package(s)) => Some(s),
        _ => None,
    }
}

pub fn resolve_cp_module(constant_pool: &Vec<ConstantPoolInfo>, index: u16) -> (found: Option<
    &JavaStr,
>)
    ensures
        match found {
            Some(s) => module_at(constants_view(constant_pool@), index as int) == Some(s@),
            None => module_at(constants_view(constant_pool@), index as int).is_none(),
        },
{
    match entry(constant_pool, index) {
        Some(ConstantPoolInfo::Module(s)) => Some(s),
        _ => None,
    }
}

pub fn resolve_cp_class(constant_pool: &Vec<ConstantPoolInfo>, class_index: u16) -> (found:
    Option<&CpClassInfo>)
    ensures
        match found {
            Some(info) => class_name_at(constants_view(constant_pool@), class_index as int)
                == Some(info.name@) && 1 <= class_index <= constant_pool.len()
                && constant_pool[class_index - 1] == ConstantPoolInfo::Class(*info),
            None => class_name_at(constants_view(constant_pool@), class_index as int).is_none(),
        },
{
    match entry(constant_pool, class_index) {
        Some(ConstantPoolInfo::Class(info)) => Some(info),
        _ => None,
    }
}

pub fn resolve_constant_value(constant_pool: &Vec<ConstantPoolInfo>, index: u16) -> (found:
    Option<Const>)
    ensures
        match found {
            Some(c) => constant_value_at(constants_view(constant_pool@), index as int) == Some(
                c@,
            ),
            None => constant_value_at(constants_view(constant_pool@), index as int).is_none(),
        },
{
    match entry(constant_pool, index) {
        Some(ConstantPoolInfo::Integer(i)) => Some(Const::Int(*i)),
        Some(ConstantPoolInfo::Float(f)) => Some(Const::Float(*f)),
        Some(ConstantPoolInfo::Long(l)) => Some(Const::Long(*l)),
        Some(ConstantPoolInfo::Double(d)) => Some(Const::Double(*d)),
        Some(ConstantPoolInfo::String(s)) => Some(Const::String(s.clone())),
        Some(ConstantPoolInfo::Utf8(s)) => Some(Const::String(s.clone())),
        _ => None,
    }
}

/// The bytes of a text of ASCII characters.
pub open spec fn ascii_bytes(text: Seq<char>) -> Seq<u8> {
    Seq::new(text.len(), |i: int| text[i] as u8)
}

/// Whether the string is the ASCII text `text`.
pub fn is_ascii_text(name: &JavaStr, text: &str) -> (same: bool)
    requires
        text.is_ascii(),
    ensures
        same == (name@ == ascii_bytes(text@)),
{
    broadcast use is_ascii_spec_bytes;

    let bytes = text.as_bytes();
    if bytes.len() != name.inner.len() {
        return false;
    }
    let mut i: usize = 0;
    while i < bytes.len()
        invariant
            i <= bytes.len(),
            bytes.len() == name.inner.len(),
            bytes@ == ascii_bytes(text@),
            forall|k: int| 0 <= k < i ==> name@[k] == bytes@[k],
        decreases bytes.len() - i,
    {
        if name.inner[i] != bytes[i] {
            return false;
        }
        i += 1;
    }
    assert(name@ =~= bytes@);
    true
}

/// The field type that a text denotes: the text is decoded and then read
/// as a field descriptor.
pub open spec fn field_type_of_text(text: Seq<u8>) -> Option<FieldTypeView> {
    match java_cesu8_decoded(text) {
        Some(chars) => match field_descriptor_of(chars) {
            Ok(t) => Some(t),
            Err(_) => None,
        },
        None => None,
    }
}

/// The method type that a text denotes.
pub open spec fn method_type_of_text(text: Seq<u8>) -> Option<MethodDescriptorView> {
    match java_cesu8_decoded(text) {
        Some(chars) => match method_descriptor_of(chars) {
            Ok(t) => Some(t),
            Err(_) => None,
        },
        None => None,
    }
}

/// The return type that a text denotes.
pub open spec fn return_type_of_text(text: Seq<u8>) -> Option<Option<FieldTypeView>> {
    match java_cesu8_decoded(text) {
        Some(chars) => match return_descriptor_of(chars) {
            Ok(t) => Some(t),
            Err(_) => None,
        },
        None => None,
    }
}

/// The field type that the text with this index denotes.
pub open spec fn field_type_at(pool: Seq<ConstantInfoView>, index: int) -> Option<FieldTypeView> {
    match utf8_at(pool, index) {
        Some(text) => field_type_of_text(text),
        None => None,
    }
}

/// The return type that the text with this index denotes.
pub open spec fn return_type_at(pool: Seq<ConstantInfoView>, index: int) -> Option<
    Option<FieldTypeView>,
> {
    match utf8_at(pool, index) {
        Some(text) => return_type_of_text(text),
        None => None,
    }
}

/// Reads a text as a field descriptor.
pub fn field_descriptor_of_text(text: &JavaStr) -> (found: Option<FieldDescriptor>)
    ensures
        match found {
            Some(d) => field_type_of_text(text@) == Some(d@),
            None => field_type_of_text(text@).is_none(),
        },
{
    match text.to_str() {
        Some(chars) => match parse_field_descriptor(chars.as_str()) {
            Ok(d) => Some(d),
            Err(_) => None,
        },
        None => None,
    }
}

/// Reads a text as a method descriptor.
pub fn method_descriptor_of_text(text: &JavaStr) -> (found: Option<MethodDescriptor>)
    ensures
        match found {
            Some(d) => method_type_of_text(text@) == Some(d@),
            None => method_type_of_text(text@).is_none(),
        },
{
    match text.to_str() {
        Some(chars) => match parse_method_descriptor(chars.as_str()) {
            Ok(d) => Some(d),
            Err(_) => None,
        },
        None => None,
    }
}

/// Reads a text as a return descriptor.
pub fn return_descriptor_of_text(text: &JavaStr) -> (found: Option<ReturnType>)
    ensures
        match found {
            Some(t) => return_type_of_text(text@) == Some(return_type_view(t)),
            None => return_type_of_text(text@).is_none(),
        },
{
    match text.to_str() {
        Some(chars) => match parse_return_type_descriptor(chars.as_str()) {
            Ok(t) => Some(t),
            Err(_) => None,
        },
        None => None,
    }
}

/// The field descriptor that the text with this index denotes.
pub fn resolve_field_descriptor(constant_pool: &Vec<ConstantPoolInfo>, index: u16) -> (found:
    Option<FieldDescriptor>)
    ensures
        match found {
            Some(d) => field_type_at(constants_view(constant_pool@), index as int) == Some(d@),
            None => field_type_at(constants_view(constant_pool@), index as int).is_none(),
        },
{
    match resolve_runtime_cp_utf8(constant_pool, index) {
        Some(text) => field_descriptor_of_text(text),
        None => None,
    }
}

/// The return type that the text with this index denotes.
pub fn resolve_return_descriptor(constant_pool: &Vec<ConstantPoolInfo>, index: u16) -> (found:
    Option<ReturnType>)
    ensures
        match found {
            Some(t) => return_type_at(constants_view(constant_pool@), index as int) == Some(
                return_type_view(t),
            ),
            None => return_type_at(constants_view(constant_pool@), index as int).is_none(),
        },
{
    match resolve_runtime_cp_utf8(constant_pool, index) {
        Some(text) => return_descriptor_of_text(text),
        None => None,
    }
}

} // verus!

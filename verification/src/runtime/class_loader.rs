//! The loader and linker: from decoded class files to classes that can run.

pub mod annotation;
pub mod attribute;
pub mod bootstrap;
pub mod initialize;
pub mod layout;
pub mod load;
pub mod modules;
pub mod link;
pub mod pool;
pub mod reference;
pub mod resolve;
pub mod translate;
pub mod vtable;

use crate::class::structs::{
    Class as RawClass, ClassView as RawClassView, FieldInfo as RawField, MemberView,
    MethodInfo as RawMethod,
};
use crate::consts::{has_flags, ClassAccessFlag, ACC_STATIC};
use crate::descriptor::{FieldType, FieldTypeView};
use crate::runtime::class_loader::attribute::{convert_attributes, converted_attributes};
use crate::runtime::class_loader::pool::{
    class_name_at, field_type_at, resolve_cp_class, resolve_field_descriptor,
    resolve_runtime_cp_utf8, utf8_at,
};
use crate::runtime::class_loader::translate::{parse_constant_pool, translated_pool};
use crate::runtime::interpreter::variable::Variable;
use crate::runtime::structs::attributes::{
    attribute_infos_view, AttributeInfo, AttributeInfoView, Const, ConstView,
};
use crate::runtime::structs::constant_pool::{constants_view, ConstantInfoView, ConstantPoolInfo};
use crate::runtime::structs::{
    field_infos_view, method_infos_view, Class, ClassView, ClinitStatus, FieldInfo, FieldInfoView,
    MethodInfo, MethodInfoView,
};
use vstd::prelude::*;

verus! {

/// Why a decoded class file cannot become a class.
#[derive(Debug, Clone, Copy, PartialEq, Eq, Structural)]
pub enum LinkError {
    /// The constant-pool entry with this index, counted from 1, is not of
    /// the kind that its user needs.
    BadConstant { index: u16 },
    /// An attribute is malformed at this offset of its bytes.
    BadAttribute { offset: usize },
    /// The constant value of the static field with this place among the
    /// static fields is not of the field's type.
    BadConstantValue { field: usize },
}

/// The field of a class that stands for a field of the file, with index 0.
#[verifier::opaque]
pub open spec fn translated_field(pool: Seq<ConstantInfoView>, raw: MemberView) -> Result<
    FieldInfoView,
    LinkError,
> {
    match field_type_at(pool, raw.descriptor_index as int) {
        None => Err(LinkError::BadConstant { index: raw.descriptor_index }),
        Some(descriptor) => match utf8_at(pool, raw.name_index as int) {
            None => Err(LinkError::BadConstant { index: raw.name_index }),
            Some(name) => match converted_attributes(pool, raw.attributes) {
                Err(offset) => Err(LinkError::BadAttribute { offset: offset as usize }),
                Ok(attributes) => Ok(
                    FieldInfoView {
                        access_flags: raw.access_flags,
                        name,
                        descriptor,
                        attributes,
                        index: 0,
                    },
                ),
            },
        },
    }
}

/// The method of a class that stands for a method of the file.
#[verifier::opaque]
pub open spec fn translated_method(pool: Seq<ConstantInfoView>, raw: MemberView) -> Result<
    MethodInfoView,
    LinkError,
> {
    match crate::runtime::class_loader::pool::utf8_at(pool, raw.descriptor_index as int) {
        None => Err(LinkError::BadConstant { index: raw.descriptor_index }),
        Some(text) => match crate::runtime::class_loader::pool::method_type_of_text(text) {
            None => Err(LinkError::BadConstant { index: raw.descriptor_index }),
            Some(descriptor) => match utf8_at(pool, raw.name_index as int) {
                None => Err(LinkError::BadConstant { index: raw.name_index }),
                Some(name) => match converted_attributes(pool, raw.attributes) {
                    Err(offset) => Err(LinkError::BadAttribute { offset: offset as usize }),
                    Ok(attributes) => Ok(
                        MethodInfoView { access_flags: raw.access_flags, name, descriptor, attributes },
                    ),
                },
            },
        },
    }
}

pub fn parse_field(cp: &Vec<ConstantPoolInfo>, field: &RawField) -> (r: Result<
    FieldInfo,
    LinkError,
>)
    ensures
        match r {
            Ok(f) => translated_field(constants_view(cp@), field@) == Ok::<
                FieldInfoView,
                LinkError,
            >(f@),
            Err(e) => translated_field(constants_view(cp@), field@) == Err::<
                FieldInfoView,
                LinkError,
            >(e),
        },
{
    reveal(translated_field);
    let descriptor = match resolve_field_descriptor(cp, field.descriptor_index) {
        Some(d) => d,
        None => {
            return Err(LinkError::BadConstant { index: field.descriptor_index });
        },
    };
    let name = match resolve_runtime_cp_utf8(cp, field.name_index) {
        Some(name) => name.clone(),
        None => {
            return Err(LinkError::BadConstant { index: field.name_index });
        },
    };
    match convert_attributes(cp, &field.attributes) {
        Ok(attributes) => Ok(
            FieldInfo { access_flags: field.access_flags, name, descriptor, attributes, index: 0 },
        ),
        Err(e) => Err(LinkError::BadAttribute { offset: e.offset }),
    }
}

pub fn parse_method(cp: &Vec<ConstantPoolInfo>, method: &RawMethod) -> (r: Result<
    MethodInfo,
    LinkError,
>)
    ensures
        match r {
            Ok(m) => translated_method(constants_view(cp@), method@) == Ok::<
                MethodInfoView,
                LinkError,
            >(m@),
            Err(e) => translated_method(constants_view(cp@), method@) == Err::<
                MethodInfoView,
                LinkError,
            >(e),
        },
{
    reveal(translated_method);
    let descriptor = match resolve_runtime_cp_utf8(cp, method.descriptor_index) {
        Some(text) => match crate::runtime::class_loader::pool::method_descriptor_of_text(text) {
            Some(d) => d,
            None => {
                return Err(LinkError::BadConstant { index: method.descriptor_index });
            },
        },
        None => {
            return Err(LinkError::BadConstant { index: method.descriptor_index });
        },
    };
    let name = match resolve_runtime_cp_utf8(cp, method.name_index) {
        Some(name) => name.clone(),
        None => {
            return Err(LinkError::BadConstant { index: method.name_index });
        },
    };
    match convert_attributes(cp, &method.attributes) {
        Ok(attributes) => Ok(
            MethodInfo { access_flags: method.access_flags, name, descriptor, attributes },
        ),
        Err(e) => Err(LinkError::BadAttribute { offset: e.offset }),
    }
}

/// The first `n` fields of the file translated, or the failure of the first
/// that cannot be.
pub open spec fn translated_fields(pool: Seq<ConstantInfoView>, raw: Seq<MemberView>, n: int) -> Result<
    Seq<FieldInfoView>,
    LinkError,
>
    decreases n,
{
    if n <= 0 {
        Ok(Seq::empty())
    } else {
        match translated_fields(pool, raw, n - 1) {
            Ok(front) => match translated_field(pool, raw[n - 1]) {
                Ok(f) => Ok(front.push(f)),
                Err(e) => Err(e),
            },
            Err(e) => Err(e),
        }
    }
}

/// The first `n` methods of the file translated, or the failure of the
/// first that cannot be.
pub open spec fn translated_methods(pool: Seq<ConstantInfoView>, raw: Seq<MemberView>, n: int) -> Result<
    Seq<MethodInfoView>,
    LinkError,
>
    decreases n,
{
    if n <= 0 {
        Ok(Seq::empty())
    } else {
        match translated_methods(pool, raw, n - 1) {
            Ok(front) => match translated_method(pool, raw[n - 1]) {
                Ok(m) => Ok(front.push(m)),
                Err(e) => Err(e),
            },
            Err(e) => Err(e),
        }
    }
}

/// The first constant value among the attributes from `from` on.
pub open spec fn first_constant_value(attributes: Seq<AttributeInfoView>, from: int) -> Option<
    ConstView,
>
    decreases attributes.len() - from,
{
    if from < 0 || from >= attributes.len() {
        None
    } else {
        match attributes[from] {
            AttributeInfoView::ConstantValue(c) => Some(c),
            _ => first_constant_value(attributes, from + 1),
        }
    }
}

/// The slots that a static field starts with: what its constant value
/// gives, or zero, or null; none where the constant value is not of the
/// field's type.
pub open spec fn initial_slots(field: FieldInfoView) -> Option<Seq<Variable>> {
    let value = first_constant_value(field.attributes, 0);
    match field.descriptor {
        FieldTypeView::Byte
        | FieldTypeView::Char
        | FieldTypeView::Short
        | FieldTypeView::Int
        | FieldTypeView::Boolean => match value {
            None => Some(seq![Variable::of_int(0)]),
            Some(ConstView::Byte(a)) => Some(seq![Variable::of_int(a)]),
            Some(ConstView::Char(a)) => Some(seq![Variable::of_int(a)]),
            Some(ConstView::Int(a)) => Some(seq![Variable::of_int(a)]),
            Some(ConstView::Short(a)) => Some(seq![Variable::of_int(a)]),
            Some(ConstView::Boolean(a)) => Some(seq![Variable::of_int(a)]),
            _ => None,
        },
        FieldTypeView::Double => match value {
            None => Some(seq![Variable::of_bits(0), Variable::of_bits(0)]),
            Some(ConstView::Double(a)) => Some(
                seq![Variable::slots_of_bits(a).0, Variable::slots_of_bits(a).1],
            ),
            _ => None,
        },
        FieldTypeView::Float => match value {
            None => Some(seq![Variable::of_bits(0)]),
            Some(ConstView::Float(a)) => Some(seq![Variable::of_bits(a)]),
            _ => None,
        },
        FieldTypeView::Long => match value {
            None => Some(seq![Variable::of_bits(0), Variable::of_bits(0)]),
            Some(ConstView::Long(a)) => Some(
                seq![Variable::slots_of_long(a).0, Variable::slots_of_long(a).1],
            ),
            _ => None,
        },
        _ => Some(seq![Variable::of_bits(0)]),
    }
}

/// The static slots of the first `n` fields, or the place of the first
/// field whose constant value is not of its type.
pub open spec fn static_slots(fields: Seq<FieldInfoView>, n: int) -> Result<Seq<Variable>, int>
    decreases n,
{
    if n <= 0 {
        Ok(Seq::empty())
    } else {
        match static_slots(fields, n - 1) {
            Ok(front) => match initial_slots(fields[n - 1]) {
                Some(slots) => Ok(front + slots),
                None => Err(n - 1),
            },
            Err(at) => Err(at),
        }
    }
}

/// The field with its index set.
pub open spec fn at_index(field: FieldInfoView, index: int) -> FieldInfoView {
    FieldInfoView { index: index as usize, ..field }
}

/// The static fields with their indices: each starts where the slots of
/// those in front of it end.
pub open spec fn static_layout(fields: Seq<FieldInfoView>) -> Seq<FieldInfoView> {
    Seq::new(
        fields.len(),
        |i: int| at_index(fields[i], static_slots(fields, i)->Ok_0.len() as int),
    )
}

/// The first constant value among the attributes.
fn find_constant_value(attributes: &Vec<AttributeInfo>) -> (found: Option<&Const>)
    ensures
        match found {
            Some(c) => first_constant_value(attribute_infos_view(attributes@), 0) == Some(c@),
            None => first_constant_value(attribute_infos_view(attributes@), 0).is_none(),
        },
{
    let mut i: usize = 0;
    while i < attributes.len()
        invariant
            i <= attributes.len(),
            first_constant_value(attribute_infos_view(attributes@), 0) == first_constant_value(
                attribute_infos_view(attributes@),
                i as int,
            ),
        decreases attributes.len() - i,
    {
        assert(attribute_infos_view(attributes@)[i as int] == attributes@[i as int].model());
        match &attributes[i] {
            AttributeInfo::ConstantValue(c) => {
                return Some(c);
            },
            _ => {},
        }
        i += 1;
    }
    None
}

/// The slots that a static field starts with.
fn initial_value(field: &FieldInfo) -> (slots: Option<Vec<Variable>>)
    ensures
        match slots {
            Some(s) => initial_slots(field@) == Some(s@),
            None => initial_slots(field@).is_none(),
        },
{
    let value = find_constant_value(&field.attributes);
    let mut slots: Vec<Variable> = Vec::new();
    match &field.descriptor.0 {
        FieldType::Byte
        | FieldType::Char
        | FieldType::Short
        | FieldType::Int
        | FieldType::Boolean => {
            let a: i32 = match value {
                None => 0,
                Some(Const::Byte(a)) => *a,
                Some(Const::Char(a)) => *a,
                Some(Const::Int(a)) => *a,
                Some(Const::Short(a)) => *a,
                Some(Const::Boolean(a)) => *a,
                _ => {
                    return None;
                },
            };
            slots.push(Variable::from_int(a));
        },
        FieldType::Double => {
            let a: u64 = match value {
                None => 0,
                Some(Const::Double(a)) => *a,
                _ => {
                    return None;
                },
            };
            let (upper, lower) = Variable::put_double(a);
            slots.push(upper);
            slots.push(lower);
        },
        FieldType::Float => {
            let a: u32 = match value {
                None => 0,
                Some(Const::Float(a)) => *a,
                _ => {
                    return None;
                },
            };
            slots.push(Variable::from_float_bits(a));
        },
        FieldType::Long => {
            let a: i64 = match value {
                None => 0,
                Some(Const::Long(a)) => *a,
                _ => {
                    return None;
                },
            };
            let (upper, lower) = Variable::put_long(a);
            slots.push(upper);
            slots.push(lower);
        },
        FieldType::Object(_) | FieldType::Array(_) => {
            slots.push(Variable::from_reference(0));
        },
    }
    assert(slots@ =~= initial_slots(field@)->Some_0);
    Some(slots)
}

/// Puts `slots` behind the slots that are there.
fn append_slots(static_fields: &mut Vec<Variable>, slots: &Vec<Variable>)
    ensures
        final(static_fields)@ == old(static_fields)@ + slots@,
{
    let mut k: usize = 0;
    while k < slots.len()
        invariant
            k <= slots.len(),
            static_fields@ =~= old(static_fields)@ + slots@.subrange(0, k as int),
        decreases slots.len() - k,
    {
        static_fields.push(slots[k]);
        k += 1;
    }
    assert(slots@.subrange(0, slots.len() as int) =~= slots@);
}

/// Sets the index of field `i`.
fn set_field_index(fields: &mut Vec<FieldInfo>, i: usize, index: usize)
    requires
        i < old(fields).len(),
    ensures
        final(fields).len() == old(fields).len(),
        final(fields)@[i as int]@ == at_index(old(fields)@[i as int]@, index as int),
        forall|k: int| 0 <= k < old(fields).len() && k != i ==> final(fields)@[k] == old(fields)@[k],
{
    fields[i].index = index;
}

/// Gives every static field its index and makes the static slots of the
/// class, each with the field's constant value or zero or null.
pub fn allocate_static_fields(static_fields_info: &mut Vec<FieldInfo>) -> (r: Result<
    Vec<Variable>,
    LinkError,
>)
    ensures
        match r {
            Ok(slots) => static_slots(
                field_infos_view(old(static_fields_info)@),
                old(static_fields_info).len() as int,
            ) == Ok::<Seq<Variable>, int>(slots@) && field_infos_view(final(static_fields_info)@)
                == static_layout(field_infos_view(old(static_fields_info)@)),
            Err(e) => e matches LinkError::BadConstantValue { field } && static_slots(
                field_infos_view(old(static_fields_info)@),
                old(static_fields_info).len() as int,
            ) == Err::<Seq<Variable>, int>(field as int),
        },
{
    let ghost before = field_infos_view(static_fields_info@);
    let mut static_fields: Vec<Variable> = Vec::new();
    let mut i: usize = 0;
    while i < static_fields_info.len()
        invariant
            i <= static_fields_info.len(),
            static_fields_info.len() == old(static_fields_info).len(),
            before == field_infos_view(old(static_fields_info)@),
            static_slots(before, i as int) == Ok::<Seq<Variable>, int>(static_fields@),
            forall|k: int|
                0 <= k < i ==> (#[trigger] static_fields_info@[k])@ == at_index(
                    before[k],
                    static_slots(before, k)->Ok_0.len() as int,
                ),
            forall|k: int|
                i <= k < static_fields_info.len() ==> #[trigger] static_fields_info@[k] == old(
                    static_fields_info,
                )@[k],
        decreases static_fields_info.len() - i,
    {
        assert(before[i as int] == static_fields_info@[i as int]@);
        let slots = match initial_value(&static_fields_info[i]) {
            Some(slots) => slots,
            None => {
                proof {
                    lemma_static_slots_failure(before, i as int, static_fields_info.len() as int);
                }
                return Err(LinkError::BadConstantValue { field: i });
            },
        };
        set_field_index(static_fields_info, i, static_fields.len());
        append_slots(&mut static_fields, &slots);
        i += 1;
    }
    assert(field_infos_view(static_fields_info@) =~= static_layout(before));
    Ok(static_fields)
}

/// A failure among the first fields is the failure of the whole.
proof fn lemma_static_slots_failure(fields: Seq<FieldInfoView>, i: int, n: int)
    requires
        0 <= i < n,
        static_slots(fields, i) is Ok,
        initial_slots(fields[i]).is_none(),
    ensures
        static_slots(fields, n) == Err::<Seq<Variable>, int>(i),
    decreases n - i,
{
    if n > i + 1 {
        lemma_static_slots_failure(fields, i, n - 1);
    }
}

/// Those of the first `n` fields that are static (or that are not, where
/// `statics` is false), in their order.
pub open spec fn kept_fields(fields: Seq<FieldInfoView>, n: int, statics: bool) -> Seq<
    FieldInfoView,
>
    decreases n,
{
    if n <= 0 {
        Seq::empty()
    } else if has_flags(fields[n - 1].access_flags, ACC_STATIC) == statics {
        kept_fields(fields, n - 1, statics).push(fields[n - 1])
    } else {
        kept_fields(fields, n - 1, statics)
    }
}

/// The class that a decoded class file gives before it is linked: its pool
/// is translated, its members and attributes are read, its static fields
/// have their slots, and its instance fields stand in declaration order
/// with no index yet. It has no super-class, interfaces or vtable yet.
pub open spec fn parsed_class(raw: RawClassView) -> Result<ClassView, LinkError> {
    if raw.constant_pool.len() >= 0xffff {
        Err(LinkError::BadConstant { index: 0xffff })
    } else {
        match translated_pool(raw.constant_pool) {
            Err(index) => Err(LinkError::BadConstant { index: index as u16 }),
            Ok(pool) => match translated_fields(pool, raw.fields, raw.fields.len() as int) {
                Err(e) => Err(e),
                Ok(fields) => match translated_methods(
                    pool,
                    raw.methods,
                    raw.methods.len() as int,
                ) {
                    Err(e) => Err(e),
                    Ok(methods) => match converted_attributes(pool, raw.attributes) {
                        Err(offset) => Err(LinkError::BadAttribute { offset: offset as usize }),
                        Ok(attributes) => match class_name_at(pool, raw.this_class as int) {
                            None => Err(LinkError::BadConstant { index: raw.this_class }),
                            Some(class_name) => {
                                let statics = kept_fields(fields, fields.len() as int, true);
                                match static_slots(statics, statics.len() as int) {
                                    Err(at) => Err(
                                        LinkError::BadConstantValue { field: at as usize },
                                    ),
                                    Ok(slots) => Ok(
                                        ClassView {
                                            constant_pool: pool,
                                            access_flags: raw.access_flags,
                                            class_name,
                                            super_class: None,
                                            interfaces: Seq::empty(),
                                            static_fields_info: static_layout(statics),
                                            instance_fields_info: kept_fields(
                                                fields,
                                                fields.len() as int,
                                                false,
                                            ),
                                            methods,
                                            attributes,
                                            static_fields: slots,
                                            array_element_type: None,
                                            clinit_call: ClinitStatus::NotInit,
                                            vtable: Seq::empty(),
                                        },
                                    ),
                                }
                            },
                        },
                    },
                },
            },
        }
    }
}

/// Translates the fields of a decoded class file and parts the static from
/// the others.
fn parse_fields(cp: &Vec<ConstantPoolInfo>, fields: &Vec<RawField>) -> (r: Result<
    (Vec<FieldInfo>, Vec<FieldInfo>),
    LinkError,
>)
    ensures
        match r {
            Ok((statics, others)) => translated_fields(
                constants_view(cp@),
                crate::class::structs::fields_view(fields@),
                fields.len() as int,
            ) matches Ok(all) && field_infos_view(statics@) == kept_fields(
                all,
                all.len() as int,
                true,
            ) && field_infos_view(others@) == kept_fields(all, all.len() as int, false),
            Err(e) => translated_fields(
                constants_view(cp@),
                crate::class::structs::fields_view(fields@),
                fields.len() as int,
            ) == Err::<Seq<FieldInfoView>, LinkError>(e),
        },
{
    let ghost pool = constants_view(cp@);
    let ghost raw = crate::class::structs::fields_view(fields@);
    let mut statics: Vec<FieldInfo> = Vec::new();
    let mut others: Vec<FieldInfo> = Vec::new();
    let ghost mut all: Seq<FieldInfoView> = Seq::empty();
    let mut i: usize = 0;
    while i < fields.len()
        invariant
            i <= fields.len(),
            pool == constants_view(cp@),
            raw == crate::class::structs::fields_view(fields@),
            translated_fields(pool, raw, i as int) == Ok::<Seq<FieldInfoView>, LinkError>(all),
            all.len() == i,
            field_infos_view(statics@) == kept_fields(all, i as int, true),
            field_infos_view(others@) == kept_fields(all, i as int, false),
        decreases fields.len() - i,
    {
        assert(raw[i as int] == fields@[i as int]@);
        match parse_field(cp, &fields[i]) {
            Ok(field) => {
                proof {
                    let next = all.push(field@);
                    lemma_kept_fields_prefix(all, next, i as int, true);
                    lemma_kept_fields_prefix(all, next, i as int, false);
                    all = next;
                }
                let ghost before_statics = field_infos_view(statics@);
                let ghost before_others = field_infos_view(others@);
                if field.access_flags.contains(ACC_STATIC) {
                    statics.push(field);
                    assert(field_infos_view(statics@) =~= before_statics.push(field@));
                } else {
                    others.push(field);
                    assert(field_infos_view(others@) =~= before_others.push(field@));
                }
            },
            Err(e) => {
                proof {
                    lemma_translated_fields_failure(pool, raw, i as int, fields.len() as int);
                }
                return Err(e);
            },
        }
        i += 1;
    }
    Ok((statics, others))
}

/// What is kept of the first `n` fields depends on those fields alone.
proof fn lemma_kept_fields_prefix(a: Seq<FieldInfoView>, b: Seq<FieldInfoView>, n: int, statics: bool)
    requires
        0 <= n <= a.len() <= b.len(),
        forall|k: int| 0 <= k < n ==> a[k] == b[k],
    ensures
        kept_fields(a, n, statics) == kept_fields(b, n, statics),
    decreases n,
{
    if n > 0 {
        lemma_kept_fields_prefix(a, b, n - 1, statics);
    }
}

/// A failure among the first fields is the failure of the whole.
proof fn lemma_translated_fields_failure(pool: Seq<ConstantInfoView>, raw: Seq<MemberView>, i: int, n: int)
    requires
        0 <= i < n,
        translated_fields(pool, raw, i) is Ok,
        translated_field(pool, raw[i]) is Err,
    ensures
        translated_fields(pool, raw, n) == Err::<Seq<FieldInfoView>, LinkError>(
            translated_field(pool, raw[i])->Err_0,
        ),
    decreases n - i,
{
    if n > i + 1 {
        lemma_translated_fields_failure(pool, raw, i, n - 1);
    }
}

/// A failure among the first methods is the failure of the whole.
proof fn lemma_translated_methods_failure(pool: Seq<ConstantInfoView>, raw: Seq<MemberView>, i: int, n: int)
    requires
        0 <= i < n,
        translated_methods(pool, raw, i) is Ok,
        translated_method(pool, raw[i]) is Err,
    ensures
        translated_methods(pool, raw, n) == Err::<Seq<MethodInfoView>, LinkError>(
            translated_method(pool, raw[i])->Err_0,
        ),
    decreases n - i,
{
    if n > i + 1 {
        lemma_translated_methods_failure(pool, raw, i, n - 1);
    }
}

/// Translates the methods of a decoded class file.
fn parse_methods(cp: &Vec<ConstantPoolInfo>, methods: &Vec<RawMethod>) -> (r: Result<
    Vec<MethodInfo>,
    LinkError,
>)
    ensures
        match r {
            Ok(translated) => translated_methods(
                constants_view(cp@),
                crate::class::structs::methods_view(methods@),
                methods.len() as int,
            ) == Ok::<Seq<MethodInfoView>, LinkError>(method_infos_view(translated@)),
            Err(e) => translated_methods(
                constants_view(cp@),
                crate::class::structs::methods_view(methods@),
                methods.len() as int,
            ) == Err::<Seq<MethodInfoView>, LinkError>(e),
        },
{
    let ghost pool = constants_view(cp@);
    let ghost raw = crate::class::structs::methods_view(methods@);
    let mut translated: Vec<MethodInfo> = Vec::new();
    let mut i: usize = 0;
    assert(method_infos_view(translated@) =~= Seq::empty());
    while i < methods.len()
        invariant
            i <= methods.len(),
            pool == constants_view(cp@),
            raw == crate::class::structs::methods_view(methods@),
            translated_methods(pool, raw, i as int) == Ok::<Seq<MethodInfoView>, LinkError>(
                method_infos_view(translated@),
            ),
        decreases methods.len() - i,
    {
        assert(raw[i as int] == methods@[i as int]@);
        let ghost before = method_infos_view(translated@);
        match parse_method(cp, &methods[i]) {
            Ok(method) => {
                translated.push(method);
                assert(method_infos_view(translated@) =~= before.push(method@));
            },
            Err(e) => {
                proof {
                    lemma_translated_methods_failure(pool, raw, i as int, methods.len() as int);
                }
                return Err(e);
            },
        }
        i += 1;
    }
    Ok(translated)
}

/// Makes the class of a decoded class file, not linked yet.
pub fn parse_class(class_file: &RawClass) -> (r: Result<Class, LinkError>)
    ensures
        match r {
            Ok(class) => parsed_class(class_file@) == Ok::<ClassView, LinkError>(class@),
            Err(e) => parsed_class(class_file@) == Err::<ClassView, LinkError>(e),
        },
{
    if class_file.constant_pool.len() >= 0xffff {
        return Err(LinkError::BadConstant { index: 0xffff });
    }
    let constant_pool = match parse_constant_pool(&class_file.constant_pool) {
        Ok(pool) => pool,
        Err(index) => {
            return Err(LinkError::BadConstant { index });
        },
    };
    let (mut static_fields, instance_fields) = match parse_fields(
        &constant_pool,
        &class_file.fields,
    ) {
        Ok(found) => found,
        Err(e) => {
            return Err(e);
        },
    };
    let methods = match parse_methods(&constant_pool, &class_file.methods) {
        Ok(found) => found,
        Err(e) => {
            return Err(e);
        },
    };
    let attributes = match convert_attributes(&constant_pool, &class_file.attributes) {
        Ok(found) => found,
        Err(e) => {
            return Err(LinkError::BadAttribute { offset: e.offset });
        },
    };
    let class_name = match resolve_cp_class(&constant_pool, class_file.this_class) {
        Some(info) => info.name.clone(),
        None => {
            return Err(LinkError::BadConstant { index: class_file.this_class });
        },
    };
    let static_fields_var = match allocate_static_fields(&mut static_fields) {
        Ok(slots) => slots,
        Err(e) => {
            return Err(e);
        },
    };
    let class = Class {
        access_flags: class_file.access_flags,
        class_name,
        super_class: None,
        interfaces: Vec::new(),
        static_fields_info: static_fields,
        instance_fields_info: instance_fields,
        methods,
        attributes,
        constant_pool,
        array_element_type: None,
        static_fields: static_fields_var,
        clinit_call: ClinitStatus::NotInit,
        vtable: Vec::new(),
    };
    assert(class@.interfaces =~= Seq::<usize>::empty());
    assert(class@.vtable =~= Seq::empty());
    Ok(class)
}

/// The flags of every array class: public, final and synthetic.
pub const ARRAY_CLASS_FLAGS: u16 = 0x1011;

/// The class of arrays with this name, before its super-class and its
/// interfaces are set. It has no fields, no methods and nothing to
/// initialize.
pub fn gen_array_class(class_name: String) -> (class: Class)
    ensures
        class@ == (ClassView {
            constant_pool: Seq::empty(),
            access_flags: ARRAY_CLASS_FLAGS,
            class_name: class_name@,
            super_class: None,
            interfaces: Seq::empty(),
            static_fields_info: Seq::empty(),
            instance_fields_info: Seq::empty(),
            methods: Seq::empty(),
            attributes: Seq::empty(),
            static_fields: Seq::empty(),
            array_element_type: None,
            clinit_call: ClinitStatus::Init,
            vtable: Seq::empty(),
        }),
{
    let class = Class {
        access_flags: ClassAccessFlag::from_bits_retain(ARRAY_CLASS_FLAGS),
        class_name,
        super_class: None,
        interfaces: Vec::new(),
        static_fields_info: Vec::new(),
        instance_fields_info: Vec::new(),
        methods: Vec::new(),
        attributes: Vec::new(),
        constant_pool: Vec::new(),
        static_fields: Vec::new(),
        array_element_type: None,
        clinit_call: ClinitStatus::Init,
        vtable: Vec::new(),
    };
    assert(class@.constant_pool =~= Seq::empty());
    assert(class@.interfaces =~= Seq::<usize>::empty());
    assert(class@.static_fields_info =~= Seq::empty());
    assert(class@.instance_fields_info =~= Seq::empty());
    assert(class@.methods =~= Seq::empty());
    assert(class@.attributes =~= Seq::empty());
    assert(class@.static_fields =~= Seq::<Variable>::empty());
    assert(class@.vtable =~= Seq::empty());
    class
}

} // verus!

//! The decoder of the class-file format.
//!
//! A class file is, in this order: the magic `CA FE BA BE`; the minor and the
//! major version; the constant pool, as a count `n` and the entries 1 to
//! `n - 1`; the access flags; the indices of the class and of its
//! super-class; the interfaces; the fields; the methods; the attributes.
//! All numbers are big-endian, and counts are 16 bits wide but for the
//! length of an attribute, which is 32 bits wide.
//!
//! Every failure names the offset of the item that could not be read.

use crate::bytes::{has_bytes, read_u16, read_u32, read_u64, u16_at, u32_at, u64_at, u8_at};
use crate::class::structs::java_str::JavaStr;
use crate::class::structs::{
    attributes_view, fields_view, methods_view, pool_view, AttributeInfo, AttributeView, Class,
    ClassView, ConstantPoolInfo, ConstantView, FieldInfo, MemberView, MethodInfo, TAG_CLASS,
    TAG_DOUBLE, TAG_DYNAMIC, TAG_FIELDREF, TAG_FLOAT, TAG_INTEGER, TAG_INTERFACE_METHODREF,
    TAG_INVOKE_DYNAMIC, TAG_LONG, TAG_METHODREF, TAG_METHOD_HANDLE, TAG_METHOD_TYPE, TAG_MODULE,
    TAG_NAME_AND_TYPE, TAG_PACKAGE, TAG_STRING, TAG_UTF8,
};
use crate::consts::{ClassAccessFlag, FieldAccessFlag, MethodAccessFlag};
use crate::error::ClassFormatError;
use crate::runtime::interpreter::variable::{signed32, signed64, to_signed32, to_signed64};
use vstd::prelude::*;

verus! {

/// The number of bytes that follow the tag of an entry whose length the tag
/// fixes, or none for a tag that no entry has. A text has its own length.
pub open spec fn fixed_length(tag: u8) -> Option<int> {
    if tag == TAG_INTEGER || tag == TAG_FLOAT || tag == TAG_FIELDREF || tag == TAG_METHODREF
        || tag == TAG_INTERFACE_METHODREF || tag == TAG_NAME_AND_TYPE || tag == TAG_DYNAMIC
        || tag == TAG_INVOKE_DYNAMIC {
        Some(4)
    } else if tag == TAG_LONG || tag == TAG_DOUBLE {
        Some(8)
    } else if tag == TAG_CLASS || tag == TAG_STRING || tag == TAG_METHOD_TYPE || tag
        == TAG_MODULE || tag == TAG_PACKAGE {
        Some(2)
    } else if tag == TAG_METHOD_HANDLE {
        Some(3)
    } else {
        None
    }
}

/// The entry with tag `tag` whose `fixed_length(tag)` bytes stand at `at`.
pub open spec fn fixed_constant(bytes: Seq<u8>, tag: u8, at: int) -> ConstantView {
    if tag == TAG_INTEGER {
        ConstantView::number(tag, signed32(u32_at(bytes, at) as u32) as int)
    } else if tag == TAG_FLOAT {
        ConstantView::number(tag, u32_at(bytes, at))
    } else if tag == TAG_LONG {
        ConstantView::number(tag, signed64(u64_at(bytes, at) as u64) as int)
    } else if tag == TAG_DOUBLE {
        ConstantView::number(tag, u64_at(bytes, at))
    } else if tag == TAG_METHOD_HANDLE {
        ConstantView::pair(tag, u8_at(bytes, at), u16_at(bytes, at + 1))
    } else if fixed_length(tag) == Some(2int) {
        ConstantView::number(tag, u16_at(bytes, at))
    } else {
        ConstantView::pair(tag, u16_at(bytes, at), u16_at(bytes, at + 2))
    }
}

/// The constant-pool entry at `pos` and the offset behind it.
pub open spec fn parse_constant_at(bytes: Seq<u8>, pos: int) -> Result<(ConstantView, int), int> {
    if !has_bytes(bytes, pos, 1) {
        Err(pos)
    } else if bytes[pos] == TAG_UTF8 {
        if !has_bytes(bytes, pos + 1, 2) {
            Err(pos + 1)
        } else if !has_bytes(bytes, pos + 3, u16_at(bytes, pos + 1)) {
            Err(pos + 3)
        } else {
            Ok(
                (
                    ConstantView {
                        tag: TAG_UTF8,
                        first: 0,
                        second: 0,
                        text: bytes.subrange(pos + 3, pos + 3 + u16_at(bytes, pos + 1)),
                    },
                    pos + 3 + u16_at(bytes, pos + 1),
                ),
            )
        }
    } else {
        match fixed_length(bytes[pos]) {
            Some(n) => if has_bytes(bytes, pos + 1, n) {
                Ok((fixed_constant(bytes, bytes[pos], pos + 1), pos + 1 + n))
            } else {
                Err(pos + 1)
            },
            None => Err(pos),
        }
    }
}

/// The entries that fill `slots` slots of the pool, from `pos` on, and the
/// offset behind them. A long or a double fills two slots, of which the
/// second holds the empty entry; one that has only one slot left is
/// malformed.
pub open spec fn parse_pool_at(bytes: Seq<u8>, pos: int, slots: int) -> Result<
    (Seq<ConstantView>, int),
    int,
>
    decreases slots,
{
    if slots <= 0 {
        Ok((Seq::empty(), pos))
    } else {
        match parse_constant_at(bytes, pos) {
            Ok(first) => {
                if first.0.is_wide() {
                    if slots < 2 {
                        Err(pos)
                    } else {
                        match parse_pool_at(bytes, first.1, slots - 2) {
                            Ok(rest) => Ok(
                                (seq![first.0, ConstantView::empty()] + rest.0, rest.1),
                            ),
                            Err(offset) => Err(offset),
                        }
                    }
                } else {
                    match parse_pool_at(bytes, first.1, slots - 1) {
                        Ok(rest) => Ok((seq![first.0] + rest.0, rest.1)),
                        Err(offset) => Err(offset),
                    }
                }
            },
            Err(offset) => Err(offset),
        }
    }
}

/// The attribute at `pos` and the offset behind it.
pub open spec fn parse_attribute_at(bytes: Seq<u8>, pos: int) -> Result<(AttributeView, int), int> {
    if !has_bytes(bytes, pos, 2) {
        Err(pos)
    } else if !has_bytes(bytes, pos + 2, 4) {
        Err(pos + 2)
    } else if !has_bytes(bytes, pos + 6, u32_at(bytes, pos + 2)) {
        Err(pos + 6)
    } else {
        Ok(
            (
                AttributeView {
                    attribute_name_index: u16_at(bytes, pos) as u16,
                    info: bytes.subrange(pos + 6, pos + 6 + u32_at(bytes, pos + 2)),
                },
                pos + 6 + u32_at(bytes, pos + 2),
            ),
        )
    }
}

/// `count` attributes from `pos` on, and the offset behind them.
pub open spec fn parse_attributes_at(bytes: Seq<u8>, pos: int, count: int) -> Result<
    (Seq<AttributeView>, int),
    int,
>
    decreases count,
{
    if count <= 0 {
        Ok((Seq::empty(), pos))
    } else {
        match parse_attribute_at(bytes, pos) {
            Ok(first) => match parse_attributes_at(bytes, first.1, count - 1) {
                Ok(rest) => Ok((seq![first.0] + rest.0, rest.1)),
                Err(offset) => Err(offset),
            },
            Err(offset) => Err(offset),
        }
    }
}

/// A count and that many attributes.
pub open spec fn parse_attribute_list_at(bytes: Seq<u8>, pos: int) -> Result<
    (Seq<AttributeView>, int),
    int,
> {
    if has_bytes(bytes, pos, 2) {
        parse_attributes_at(bytes, pos + 2, u16_at(bytes, pos))
    } else {
        Err(pos)
    }
}

/// The field or method at `pos` and the offset behind it.
pub open spec fn parse_member_at(bytes: Seq<u8>, pos: int) -> Result<(MemberView, int), int> {
    if !has_bytes(bytes, pos, 2) {
        Err(pos)
    } else if !has_bytes(bytes, pos + 2, 2) {
        Err(pos + 2)
    } else if !has_bytes(bytes, pos + 4, 2) {
        Err(pos + 4)
    } else {
        match parse_attribute_list_at(bytes, pos + 6) {
            Ok(attributes) => Ok(
                (
                    MemberView {
                        access_flags: u16_at(bytes, pos) as u16,
                        name_index: u16_at(bytes, pos + 2) as u16,
                        descriptor_index: u16_at(bytes, pos + 4) as u16,
                        attributes: attributes.0,
                    },
                    attributes.1,
                ),
            ),
            Err(offset) => Err(offset),
        }
    }
}

/// `count` fields or methods from `pos` on, and the offset behind them.
pub open spec fn parse_members_at(bytes: Seq<u8>, pos: int, count: int) -> Result<
    (Seq<MemberView>, int),
    int,
>
    decreases count,
{
    if count <= 0 {
        Ok((Seq::empty(), pos))
    } else {
        match parse_member_at(bytes, pos) {
            Ok(first) => match parse_members_at(bytes, first.1, count - 1) {
                Ok(rest) => Ok((seq![first.0] + rest.0, rest.1)),
                Err(offset) => Err(offset),
            },
            Err(offset) => Err(offset),
        }
    }
}

/// A count and that many fields or methods.
pub open spec fn parse_member_list_at(bytes: Seq<u8>, pos: int) -> Result<
    (Seq<MemberView>, int),
    int,
> {
    if has_bytes(bytes, pos, 2) {
        parse_members_at(bytes, pos + 2, u16_at(bytes, pos))
    } else {
        Err(pos)
    }
}

/// `count` indices from `pos` on.
pub open spec fn indices_at(bytes: Seq<u8>, pos: int, count: int) -> Seq<u16> {
    Seq::new(count as nat, |i: int| u16_at(bytes, pos + 2 * i) as u16)
}

/// A count and that many indices; a failure names the first index that is
/// not there.
pub open spec fn parse_index_list_at(bytes: Seq<u8>, pos: int) -> Result<(Seq<u16>, int), int> {
    if !has_bytes(bytes, pos, 2) {
        Err(pos)
    } else if !has_bytes(bytes, pos + 2, 2 * u16_at(bytes, pos)) {
        Err(pos + 2 + 2 * ((bytes.len() - pos - 2) / 2))
    } else {
        Ok((indices_at(bytes, pos + 2, u16_at(bytes, pos)), pos + 2 + 2 * u16_at(bytes, pos)))
    }
}

/// Whether the bytes start with the magic number.
pub open spec fn has_magic(bytes: Seq<u8>) -> bool {
    bytes.len() >= 4 && bytes[0] == 0xca && bytes[1] == 0xfe && bytes[2] == 0xba && bytes[3]
        == 0xbe
}

/// What lies behind the constant pool, which ends at `pos`.
pub open spec fn parse_body_at(
    bytes: Seq<u8>,
    pos: int,
    minor_version: u16,
    major_version: u16,
    constant_pool: Seq<ConstantView>,
) -> Result<ClassView, int> {
    if !has_bytes(bytes, pos, 2) {
        Err(pos)
    } else if !has_bytes(bytes, pos + 2, 2) {
        Err(pos + 2)
    } else if !has_bytes(bytes, pos + 4, 2) {
        Err(pos + 4)
    } else {
        match parse_index_list_at(bytes, pos + 6) {
            Ok(interfaces) => match parse_member_list_at(bytes, interfaces.1) {
                Ok(fields) => match parse_member_list_at(bytes, fields.1) {
                    Ok(methods) => match parse_attribute_list_at(bytes, methods.1) {
                        Ok(attributes) => if attributes.1 == bytes.len() {
                            Ok(
                                ClassView {
                                    minor_version,
                                    major_version,
                                    constant_pool,
                                    access_flags: u16_at(bytes, pos) as u16,
                                    this_class: u16_at(bytes, pos + 2) as u16,
                                    super_class: u16_at(bytes, pos + 4) as u16,
                                    interfaces: interfaces.0,
                                    fields: fields.0,
                                    methods: methods.0,
                                    attributes: attributes.0,
                                },
                            )
                        } else {
                            Err(attributes.1)
                        },
                        Err(offset) => Err(offset),
                    },
                    Err(offset) => Err(offset),
                },
                Err(offset) => Err(offset),
            },
            Err(offset) => Err(offset),
        }
    }
}

/// The class that the bytes denote, or the offset at which they stop being
/// a class file.
pub open spec fn decoded(bytes: Seq<u8>) -> Result<ClassView, int> {
    if !has_magic(bytes) {
        Err(0)
    } else if !has_bytes(bytes, 4, 2) {
        Err(4)
    } else if !has_bytes(bytes, 6, 2) {
        Err(6)
    } else if !has_bytes(bytes, 8, 2) || u16_at(bytes, 8) == 0 {
        Err(8)
    } else {
        match parse_pool_at(bytes, 10, u16_at(bytes, 8) - 1) {
            Ok(pool) => parse_body_at(
                bytes,
                pool.1,
                u16_at(bytes, 4) as u16,
                u16_at(bytes, 6) as u16,
                pool.0,
            ),
            Err(offset) => Err(offset),
        }
    }
}

/// Whether `n` bytes stand at `pos`.
fn room(input: &[u8], pos: usize, n: usize) -> (yes: bool)
    ensures
        yes == has_bytes(input@, pos as int, n as int),
        yes ==> pos + n <= input.len() <= usize::MAX,
{
    pos <= input.len() && n <= input.len() - pos
}

/// A copy of the bytes from `from` up to `to`.
pub fn copy_range(input: &[u8], from: usize, to: usize) -> (copy: Vec<u8>)
    requires
        from <= to <= input.len(),
    ensures
        copy@ == input@.subrange(from as int, to as int),
{
    let mut copy: Vec<u8> = Vec::new();
    let mut i: usize = from;
    while i < to
        invariant
            from <= i <= to <= input.len(),
            copy@ =~= input@.subrange(from as int, i as int),
        decreases to - i,
    {
        copy.push(input[i]);
        i += 1;
    }
    copy
}

/// Decodes the constant-pool entry at `pos`.
pub fn parse_constant(input: &[u8], pos: usize) -> (r: Result<
    (ConstantPoolInfo, usize),
    ClassFormatError,
>)
    ensures
        match r {
            Ok((constant, end)) => parse_constant_at(input@, pos as int) == Ok::<
                (ConstantView, int),
                int,
            >((constant@, end as int)),
            Err(e) => parse_constant_at(input@, pos as int) == Err::<(ConstantView, int), int>(
                e.offset as int,
            ),
        },
{
    if !room(input, pos, 1) {
        return Err(ClassFormatError { offset: pos });
    }
    let tag = input[pos];
    if tag == TAG_UTF8 {
        if !room(input, pos + 1, 2) {
            return Err(ClassFormatError { offset: pos + 1 });
        }
        let length = read_u16(input, pos + 1) as usize;
        if !room(input, pos + 3, length) {
            return Err(ClassFormatError { offset: pos + 3 });
        }
        let text = copy_range(input, pos + 3, pos + 3 + length);
        return Ok((ConstantPoolInfo::Utf8(JavaStr::new(text)), pos + 3 + length));
    }
    let length: usize = if tag == TAG_INTEGER || tag == TAG_FLOAT || tag == TAG_FIELDREF || tag
        == TAG_METHODREF || tag == TAG_INTERFACE_METHODREF || tag == TAG_NAME_AND_TYPE || tag
        == TAG_DYNAMIC || tag == TAG_INVOKE_DYNAMIC {
        4
    } else if tag == TAG_LONG || tag == TAG_DOUBLE {
        8
    } else if tag == TAG_CLASS || tag == TAG_STRING || tag == TAG_METHOD_TYPE || tag
        == TAG_MODULE || tag == TAG_PACKAGE {
        2
    } else if tag == TAG_METHOD_HANDLE {
        3
    } else {
        return Err(ClassFormatError { offset: pos });
    };
    if !room(input, pos + 1, length) {
        return Err(ClassFormatError { offset: pos + 1 });
    }
    let at = pos + 1;
    let constant = if tag == TAG_INTEGER {
        ConstantPoolInfo::Integer(to_signed32(read_u32(input, at)))
    } else if tag == TAG_FLOAT {
        ConstantPoolInfo::Float(read_u32(input, at))
    } else if tag == TAG_LONG {
        ConstantPoolInfo::Long(to_signed64(read_u64(input, at)))
    } else if tag == TAG_DOUBLE {
        ConstantPoolInfo::Double(read_u64(input, at))
    } else if tag == TAG_CLASS {
        ConstantPoolInfo::Class { name_index: read_u16(input, at) }
    } else if tag == TAG_STRING {
        ConstantPoolInfo::String { string_index: read_u16(input, at) }
    } else if tag == TAG_FIELDREF {
        ConstantPoolInfo::Fieldref {
            class_index: read_u16(input, at),
            name_and_type_index: read_u16(input, at + 2),
        }
    } else if tag == TAG_METHODREF {
        ConstantPoolInfo::Methodref {
            class_index: read_u16(input, at),
            name_and_type_index: read_u16(input, at + 2),
        }
    } else if tag == TAG_INTERFACE_METHODREF {
        ConstantPoolInfo::InterfaceMethodref {
            class_index: read_u16(input, at),
            name_and_type_index: read_u16(input, at + 2),
        }
    } else if tag == TAG_NAME_AND_TYPE {
        ConstantPoolInfo::NameAndType {
            name_index: read_u16(input, at),
            descriptor_index: read_u16(input, at + 2),
        }
    } else if tag == TAG_METHOD_HANDLE {
        ConstantPoolInfo::MethodHandle {
            reference_kind: input[at],
            reference_index: read_u16(input, at + 1),
        }
    } else if tag == TAG_METHOD_TYPE {
        ConstantPoolInfo::MethodType { descriptor_index: read_u16(input, at) }
    } else if tag == TAG_DYNAMIC {
        ConstantPoolInfo::Dynamic {
            bootstrap_method_attr_index: read_u16(input, at),
            name_and_type_index: read_u16(input, at + 2),
        }
    } else if tag == TAG_INVOKE_DYNAMIC {
        ConstantPoolInfo::InvokeDynamic {
            bootstrap_method_attr_index: read_u16(input, at),
            name_and_type_index: read_u16(input, at + 2),
        }
    } else if tag == TAG_MODULE {
        ConstantPoolInfo::Module { name_index: read_u16(input, at) }
    } else {
        ConstantPoolInfo::Package { name_index: read_u16(input, at) }
    };
    Ok((constant, at + length))
}

/// A list read so far, with what reading the rest gives behind it.
pub open spec fn with_front<T>(front: Seq<T>, rest: Result<(Seq<T>, int), int>) -> Result<
    (Seq<T>, int),
    int,
> {
    match rest {
        Ok(more) => Ok((front + more.0, more.1)),
        Err(offset) => Err(offset),
    }
}

/// Decodes the entries that fill `slots` slots of the constant pool.
pub fn parse_constant_pool(input: &[u8], pos: usize, slots: usize) -> (r: Result<
    (Vec<ConstantPoolInfo>, usize),
    ClassFormatError,
>)
    requires
        slots < 0xffff,
    ensures
        match r {
            Ok((pool, end)) => parse_pool_at(input@, pos as int, slots as int) == Ok::<
                (Seq<ConstantView>, int),
                int,
            >((pool_view(pool@), end as int)),
            Err(e) => parse_pool_at(input@, pos as int, slots as int) == Err::<
                (Seq<ConstantView>, int),
                int,
            >(e.offset as int),
        },
{
    let mut pool: Vec<ConstantPoolInfo> = Vec::new();
    let mut at: usize = pos;
    assert(pool_view(pool@) + parse_pool_at(input@, pos as int, slots as int)->Ok_0.0
        =~= parse_pool_at(input@, pos as int, slots as int)->Ok_0.0);
    while pool.len() < slots
        invariant
            pool.len() <= slots < 0xffff,
            with_front(pool_view(pool@), parse_pool_at(input@, at as int, slots - pool.len()))
                == parse_pool_at(input@, pos as int, slots as int),
        decreases slots - pool.len(),
    {
        let ghost before = pool_view(pool@);
        let ghost left = slots - pool.len();
        match parse_constant(input, at) {
            Ok((constant, end)) => {
                let wide = matches!(
                    constant,
                    ConstantPoolInfo::Long(_) | ConstantPoolInfo::Double(_)
                );
                assert(wide == constant@.is_wide());
                if wide {
                    if slots - pool.len() < 2 {
                        return Err(ClassFormatError { offset: at });
                    }
                    pool.push(constant);
                    pool.push(ConstantPoolInfo::Empty);
                    proof {
                        assert(pool_view(pool@) =~= before.push(constant@).push(
                            ConstantView::empty(),
                        ));
                        let rest = parse_pool_at(input@, end as int, left - 2);
                        if rest is Ok {
                            assert(before + (seq![constant@, ConstantView::empty()]
                                + rest->Ok_0.0) =~= pool_view(pool@) + rest->Ok_0.0);
                        }
                    }
                } else {
                    pool.push(constant);
                    proof {
                        assert(pool_view(pool@) =~= before.push(constant@));
                        let rest = parse_pool_at(input@, end as int, left - 1);
                        if rest is Ok {
                            assert(before + (seq![constant@] + rest->Ok_0.0) =~= pool_view(pool@)
                                + rest->Ok_0.0);
                        }
                    }
                }
                at = end;
            },
            Err(e) => {
                return Err(e);
            },
        }
    }
    assert(pool_view(pool@) + Seq::<ConstantView>::empty() =~= pool_view(pool@));
    Ok((pool, at))
}

/// Decodes the attribute at `pos`.
pub fn parse_attribute(input: &[u8], pos: usize) -> (r: Result<
    (AttributeInfo, usize),
    ClassFormatError,
>)
    ensures
        match r {
            Ok((attribute, end)) => parse_attribute_at(input@, pos as int) == Ok::<
                (AttributeView, int),
                int,
            >((attribute@, end as int)),
            Err(e) => parse_attribute_at(input@, pos as int) == Err::<(AttributeView, int), int>(
                e.offset as int,
            ),
        },
{
    if !room(input, pos, 2) {
        return Err(ClassFormatError { offset: pos });
    }
    if !room(input, pos + 2, 4) {
        return Err(ClassFormatError { offset: pos + 2 });
    }
    let attribute_name_index = read_u16(input, pos);
    let length = read_u32(input, pos + 2);
    if length as usize as u32 != length || !room(input, pos + 6, length as usize) {
        return Err(ClassFormatError { offset: pos + 6 });
    }
    let end = pos + 6 + length as usize;
    Ok((AttributeInfo { attribute_name_index, info: copy_range(input, pos + 6, end) }, end))
}

/// Decodes a count and that many attributes.
pub fn parse_attributes(input: &[u8], pos: usize) -> (r: Result<
    (Vec<AttributeInfo>, usize),
    ClassFormatError,
>)
    ensures
        match r {
            Ok((attributes, end)) => parse_attribute_list_at(input@, pos as int) == Ok::<
                (Seq<AttributeView>, int),
                int,
            >((attributes_view(attributes@), end as int)),
            Err(e) => parse_attribute_list_at(input@, pos as int) == Err::<
                (Seq<AttributeView>, int),
                int,
            >(e.offset as int),
        },
{
    if !room(input, pos, 2) {
        return Err(ClassFormatError { offset: pos });
    }
    let count = read_u16(input, pos) as usize;
    let start = pos + 2;
    let mut attributes: Vec<AttributeInfo> = Vec::new();
    let mut at: usize = start;
    assert(attributes_view(attributes@) + parse_attributes_at(
        input@,
        start as int,
        count as int,
    )->Ok_0.0 =~= parse_attributes_at(input@, start as int, count as int)->Ok_0.0);
    while attributes.len() < count
        invariant
            attributes.len() <= count,
            has_bytes(input@, pos as int, 2),
            start == pos + 2,
            count == u16_at(input@, pos as int),
            with_front(
                attributes_view(attributes@),
                parse_attributes_at(input@, at as int, count - attributes.len()),
            ) == parse_attributes_at(input@, start as int, count as int),
        decreases count - attributes.len(),
    {
        let ghost before = attributes_view(attributes@);
        let ghost left = count - attributes.len();
        match parse_attribute(input, at) {
            Ok((attribute, end)) => {
                attributes.push(attribute);
                proof {
                    assert(attributes_view(attributes@) =~= before.push(attribute@));
                    let rest = parse_attributes_at(input@, end as int, left - 1);
                    if rest is Ok {
                        assert(before + (seq![attribute@] + rest->Ok_0.0) =~= attributes_view(
                            attributes@,
                        ) + rest->Ok_0.0);
                    }
                }
                at = end;
            },
            Err(e) => {
                return Err(e);
            },
        }
    }
    assert(attributes_view(attributes@) + Seq::<AttributeView>::empty() =~= attributes_view(
        attributes@,
    ));
    Ok((attributes, at))
}

/// Decodes the field at `pos`.
pub fn parse_field(input: &[u8], pos: usize) -> (r: Result<(FieldInfo, usize), ClassFormatError>)
    ensures
        match r {
            Ok((field, end)) => parse_member_at(input@, pos as int) == Ok::<
                (MemberView, int),
                int,
            >((field@, end as int)),
            Err(e) => parse_member_at(input@, pos as int) == Err::<(MemberView, int), int>(
                e.offset as int,
            ),
        },
{
    if !room(input, pos, 2) {
        return Err(ClassFormatError { offset: pos });
    }
    if !room(input, pos + 2, 2) {
        return Err(ClassFormatError { offset: pos + 2 });
    }
    if !room(input, pos + 4, 2) {
        return Err(ClassFormatError { offset: pos + 4 });
    }
    match parse_attributes(input, pos + 6) {
        Ok((attributes, end)) => Ok(
            (
                FieldInfo {
                    access_flags: FieldAccessFlag::from_bits_retain(read_u16(input, pos)),
                    name_index: read_u16(input, pos + 2),
                    descriptor_index: read_u16(input, pos + 4),
                    attributes,
                },
                end,
            ),
        ),
        Err(e) => Err(e),
    }
}

/// Decodes the method at `pos`.
pub fn parse_method(input: &[u8], pos: usize) -> (r: Result<
    (MethodInfo, usize),
    ClassFormatError,
>)
    ensures
        match r {
            Ok((method, end)) => parse_member_at(input@, pos as int) == Ok::<
                (MemberView, int),
                int,
            >((method@, end as int)),
            Err(e) => parse_member_at(input@, pos as int) == Err::<(MemberView, int), int>(
                e.offset as int,
            ),
        },
{
    if !room(input, pos, 2) {
        return Err(ClassFormatError { offset: pos });
    }
    if !room(input, pos + 2, 2) {
        return Err(ClassFormatError { offset: pos + 2 });
    }
    if !room(input, pos + 4, 2) {
        return Err(ClassFormatError { offset: pos + 4 });
    }
    match parse_attributes(input, pos + 6) {
        Ok((attributes, end)) => Ok(
            (
                MethodInfo {
                    access_flags: MethodAccessFlag::from_bits_retain(read_u16(input, pos)),
                    name_index: read_u16(input, pos + 2),
                    descriptor_index: read_u16(input, pos + 4),
                    attributes,
                },
                end,
            ),
        ),
        Err(e) => Err(e),
    }
}

/// Decodes a count and that many fields.
pub fn parse_fields(input: &[u8], pos: usize) -> (r: Result<
    (Vec<FieldInfo>, usize),
    ClassFormatError,
>)
    ensures
        match r {
            Ok((fields, end)) => parse_member_list_at(input@, pos as int) == Ok::<
                (Seq<MemberView>, int),
                int,
            >((fields_view(fields@), end as int)),
            Err(e) => parse_member_list_at(input@, pos as int) == Err::<
                (Seq<MemberView>, int),
                int,
            >(e.offset as int),
        },
{
    if !room(input, pos, 2) {
        return Err(ClassFormatError { offset: pos });
    }
    let count = read_u16(input, pos) as usize;
    let start = pos + 2;
    let mut fields: Vec<FieldInfo> = Vec::new();
    let mut at: usize = start;
    assert(fields_view(fields@) + parse_members_at(input@, start as int, count as int)->Ok_0.0
        =~= parse_members_at(input@, start as int, count as int)->Ok_0.0);
    while fields.len() < count
        invariant
            fields.len() <= count,
            has_bytes(input@, pos as int, 2),
            start == pos + 2,
            count == u16_at(input@, pos as int),
            with_front(
                fields_view(fields@),
                parse_members_at(input@, at as int, count - fields.len()),
            ) == parse_members_at(input@, start as int, count as int),
        decreases count - fields.len(),
    {
        let ghost before = fields_view(fields@);
        let ghost left = count - fields.len();
        match parse_field(input, at) {
            Ok((field, end)) => {
                fields.push(field);
                proof {
                    assert(fields_view(fields@) =~= before.push(field@));
                    let rest = parse_members_at(input@, end as int, left - 1);
                    if rest is Ok {
                        assert(before + (seq![field@] + rest->Ok_0.0) =~= fields_view(fields@)
                            + rest->Ok_0.0);
                    }
                }
                at = end;
            },
            Err(e) => {
                return Err(e);
            },
        }
    }
    assert(fields_view(fields@) + Seq::<MemberView>::empty() =~= fields_view(fields@));
    Ok((fields, at))
}

/// Decodes a count and that many methods.
pub fn parse_methods(input: &[u8], pos: usize) -> (r: Result<
    (Vec<MethodInfo>, usize),
    ClassFormatError,
>)
    ensures
        match r {
            Ok((methods, end)) => parse_member_list_at(input@, pos as int) == Ok::<
                (Seq<MemberView>, int),
                int,
            >((methods_view(methods@), end as int)),
            Err(e) => parse_member_list_at(input@, pos as int) == Err::<
                (Seq<MemberView>, int),
                int,
            >(e.offset as int),
        },
{
    if !room(input, pos, 2) {
        return Err(ClassFormatError { offset: pos });
    }
    let count = read_u16(input, pos) as usize;
    let start = pos + 2;
    let mut methods: Vec<MethodInfo> = Vec::new();
    let mut at: usize = start;
    assert(methods_view(methods@) + parse_members_at(input@, start as int, count as int)->Ok_0.0
        =~= parse_members_at(input@, start as int, count as int)->Ok_0.0);
    while methods.len() < count
        invariant
            methods.len() <= count,
            has_bytes(input@, pos as int, 2),
            start == pos + 2,
            count == u16_at(input@, pos as int),
            with_front(
                methods_view(methods@),
                parse_members_at(input@, at as int, count - methods.len()),
            ) == parse_members_at(input@, start as int, count as int),
        decreases count - methods.len(),
    {
        let ghost before = methods_view(methods@);
        let ghost left = count - methods.len();
        match parse_method(input, at) {
            Ok((method, end)) => {
                methods.push(method);
                proof {
                    assert(methods_view(methods@) =~= before.push(method@));
                    let rest = parse_members_at(input@, end as int, left - 1);
                    if rest is Ok {
                        assert(before + (seq![method@] + rest->Ok_0.0) =~= methods_view(methods@)
                            + rest->Ok_0.0);
                    }
                }
                at = end;
            },
            Err(e) => {
                return Err(e);
            },
        }
    }
    assert(methods_view(methods@) + Seq::<MemberView>::empty() =~= methods_view(methods@));
    Ok((methods, at))
}

/// Decodes a count and that many indices.
pub fn parse_interfaces(input: &[u8], pos: usize) -> (r: Result<
    (Vec<u16>, usize),
    ClassFormatError,
>)
    ensures
        match r {
            Ok((indices, end)) => parse_index_list_at(input@, pos as int) == Ok::<
                (Seq<u16>, int),
                int,
            >((indices@, end as int)),
            Err(e) => parse_index_list_at(input@, pos as int) == Err::<(Seq<u16>, int), int>(
                e.offset as int,
            ),
        },
{
    if !room(input, pos, 2) {
        return Err(ClassFormatError { offset: pos });
    }
    let count = read_u16(input, pos) as usize;
    let start = pos + 2;
    if !room(input, start, 2 * count) {
        return Err(ClassFormatError { offset: start + 2 * ((input.len() - start) / 2) });
    }
    let mut indices: Vec<u16> = Vec::new();
    while indices.len() < count
        invariant
            indices.len() <= count,
            start + 2 * count <= input.len(),
            has_bytes(input@, start as int, 2 * count),
            indices@ =~= indices_at(input@, start as int, indices.len() as int),
        decreases count - indices.len(),
    {
        let index = read_u16(input, start + 2 * indices.len());
        indices.push(index);
    }
    Ok((indices, start + 2 * count))
}

/// Decodes a class file.
pub fn class_file(input: &[u8]) -> (r: Result<Class, ClassFormatError>)
    ensures
        match r {
            Ok(class) => decoded(input@) == Ok::<ClassView, int>(class@),
            Err(e) => decoded(input@) == Err::<ClassView, int>(e.offset as int),
        },
{
    if !(input.len() >= 4 && input[0] == 0xca && input[1] == 0xfe && input[2] == 0xba && input[3]
        == 0xbe) {
        return Err(ClassFormatError { offset: 0 });
    }
    if !room(input, 4, 2) {
        return Err(ClassFormatError { offset: 4 });
    }
    if !room(input, 6, 2) {
        return Err(ClassFormatError { offset: 6 });
    }
    if !room(input, 8, 2) {
        return Err(ClassFormatError { offset: 8 });
    }
    let minor_version = read_u16(input, 4);
    let major_version = read_u16(input, 6);
    let count = read_u16(input, 8);
    if count == 0 {
        return Err(ClassFormatError { offset: 8 });
    }
    let (constant_pool, pos) = match parse_constant_pool(input, 10, (count - 1) as usize) {
        Ok(pool) => pool,
        Err(e) => {
            return Err(e);
        },
    };
    if !room(input, pos, 2) {
        return Err(ClassFormatError { offset: pos });
    }
    if !room(input, pos + 2, 2) {
        return Err(ClassFormatError { offset: pos + 2 });
    }
    if !room(input, pos + 4, 2) {
        return Err(ClassFormatError { offset: pos + 4 });
    }
    let access_flags = read_u16(input, pos);
    let this_class = read_u16(input, pos + 2);
    let super_class = read_u16(input, pos + 4);
    let (interfaces, pos) = match parse_interfaces(input, pos + 6) {
        Ok(found) => found,
        Err(e) => {
            return Err(e);
        },
    };
    let (fields, pos) = match parse_fields(input, pos) {
        Ok(found) => found,
        Err(e) => {
            return Err(e);
        },
    };
    let (methods, pos) = match parse_methods(input, pos) {
        Ok(found) => found,
        Err(e) => {
            return Err(e);
        },
    };
    let (attributes, pos) = match parse_attributes(input, pos) {
        Ok(found) => found,
        Err(e) => {
            return Err(e);
        },
    };
    if pos != input.len() {
        return Err(ClassFormatError { offset: pos });
    }
    Ok(
        Class {
            minor_version,
            major_version,
            access_flags: ClassAccessFlag::from_bits_retain(access_flags),
            this_class,
            super_class,
            constant_pool,
            interfaces,
            fields,
            methods,
            attributes,
        },
    )
}

/// Whether behind every long and double of the pool, and nowhere else,
/// stands the empty entry.
pub open spec fn has_sentinels(pool: Seq<ConstantView>) -> bool {
    &&& forall|i: int|
        0 <= i < pool.len() && (#[trigger] pool[i]).is_wide() ==> i + 1 < pool.len() && pool[i
            + 1] == ConstantView::empty()
    &&& forall|i: int|
        0 <= i < pool.len() && (#[trigger] pool[i]).tag == crate::class::structs::TAG_EMPTY ==> i
            > 0 && pool[i - 1].is_wide()
}

/// The entries read for `slots` slots fill exactly that many slots, and the
/// empty entry stands behind every long and double and nowhere else.
pub proof fn lemma_pool_slots(bytes: Seq<u8>, pos: int, slots: int)
    requires
        slots >= 0,
    ensures
        parse_pool_at(bytes, pos, slots) matches Ok(pool) ==> pool.0.len() == slots
            && has_sentinels(pool.0),
    decreases slots,
{
    if slots > 0 {
        match parse_constant_at(bytes, pos) {
            Ok(first) => {
                if first.0.is_wide() {
                    if slots >= 2 {
                        lemma_pool_slots(bytes, first.1, slots - 2);
                        match parse_pool_at(bytes, first.1, slots - 2) {
                            Ok(rest) => {
                                let pool = seq![first.0, ConstantView::empty()] + rest.0;
                                assert forall|i: int|
                                    0 <= i < pool.len() && (#[trigger] pool[i]).is_wide() implies i
                                    + 1 < pool.len() && pool[i + 1] == ConstantView::empty() by {
                                    if i >= 2 {
                                        assert(pool[i] == rest.0[i - 2]);
                                        assert(pool[i + 1] == rest.0[i - 2 + 1]);
                                    }
                                }
                                assert forall|i: int|
                                    0 <= i < pool.len() && (#[trigger] pool[i]).tag
                                        == crate::class::structs::TAG_EMPTY implies i > 0 && pool[i
                                    - 1].is_wide() by {
                                    if i >= 2 {
                                        assert(pool[i] == rest.0[i - 2]);
                                        if i > 2 {
                                            assert(pool[i - 1] == rest.0[i - 2 - 1]);
                                        }
                                    }
                                }
                            },
                            Err(_) => {},
                        }
                    }
                } else {
                    lemma_pool_slots(bytes, first.1, slots - 1);
                    match parse_pool_at(bytes, first.1, slots - 1) {
                        Ok(rest) => {
                            let pool = seq![first.0] + rest.0;
                            assert forall|i: int|
                                0 <= i < pool.len() && (#[trigger] pool[i]).is_wide() implies i + 1
                                < pool.len() && pool[i + 1] == ConstantView::empty() by {
                                if i >= 1 {
                                    assert(pool[i] == rest.0[i - 1]);
                                    assert(pool[i + 1] == rest.0[i - 1 + 1]);
                                }
                            }
                            assert forall|i: int|
                                0 <= i < pool.len() && (#[trigger] pool[i]).tag
                                    == crate::class::structs::TAG_EMPTY implies i > 0 && pool[i
                                - 1].is_wide() by {
                                if i >= 1 {
                                    assert(pool[i] == rest.0[i - 1]);
                                    if i > 1 {
                                        assert(pool[i - 1] == rest.0[i - 1 - 1]);
                                    }
                                }
                            }
                        },
                        Err(_) => {},
                    }
                }
            },
            Err(_) => {},
        }
    }
}

/// Every class file that decodes starts with the magic number, and its
/// constant pool has exactly one slot less than the count that the file
/// gives, with the empty entry behind every long and double and nowhere
/// else.
pub proof fn lemma_decoded_pool(bytes: Seq<u8>)
    ensures
        decoded(bytes) matches Ok(class) ==> has_magic(bytes) && class.constant_pool.len()
            == u16_at(bytes, 8) - 1 && has_sentinels(class.constant_pool),
{
    if has_magic(bytes) && has_bytes(bytes, 8, 2) && u16_at(bytes, 8) != 0 {
        lemma_pool_slots(bytes, 10, u16_at(bytes, 8) - 1);
    }
}

} // verus!

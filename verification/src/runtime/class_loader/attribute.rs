//! Reading the bytes of an attribute by its name.
//!
//! The name decides how the bytes are read. An attribute whose name is not
//! known is kept by its name alone. Bytes that are left behind what an
//! attribute needs are passed over. Positions are offsets into the bytes
//! that hold the attribute, and `to` is the offset at which the attribute
//! ends; every failure names the offset of the item that could not be
//! read.

use crate::bytes::{read_u16, read_u32, u16_at, u32_at};
use crate::class::parser::{copy_range, with_front};
use crate::class::structs::java_str::JavaStr;
use crate::error::ClassFormatError;
use crate::runtime::class_loader::annotation::{annotations_at, fits, parse_annotations};
use crate::runtime::class_loader::pool::{
    ascii_bytes, class_name_at, constant_value_at, field_type_at, is_ascii_text, module_at,
    package_at, resolve_constant_value, resolve_cp_class, resolve_cp_module, resolve_cp_package,
    resolve_field_descriptor, resolve_runtime_cp_utf8, utf8_at,
};
use crate::runtime::structs::attributes::{
    attribute_infos_view, exception_table_view, exports_view, local_variables_view, names_view, AttributeInfo, AttributeInfoView, CodeAttribute, CodeAttributeView, ExceptionTableItem, ExceptionTableItemView, LineNumberTableItem, LocalVariable, LocalVariableView, Module, ModuleExport, ModuleExportView,
};
use crate::runtime::structs::constant_pool::{constants_view, ConstantInfoView, ConstantPoolInfo};
use vstd::prelude::*;
use vstd::string::*;

verus! {

/// The attributes that are read by their name.
#[derive(Debug, Clone, Copy, PartialEq, Eq, Structural)]
pub enum AttributeKind {
    Code,
    ConstantValue,
    RuntimeVisibleAnnotations,
    LocalVariableTable,
    Signature,
    Deprecated,
    StackMapTable,
    Exceptions,
    SourceFile,
    LineNumberTable,
    Module,
    ModulePackages,
    ModuleHashes,
    ModuleTarget,
    InnerClasses,
    Unknown,
}

/// The kind of the attribute with this name.
pub open spec fn kind_of(name: Seq<u8>) -> AttributeKind {
    if name == ascii_bytes("Code"@) {
        AttributeKind::Code
    } else if name == ascii_bytes("ConstantValue"@) {
        AttributeKind::ConstantValue
    } else if name == ascii_bytes("RuntimeVisibleAnnotations"@) {
        AttributeKind::RuntimeVisibleAnnotations
    } else if name == ascii_bytes("LocalVariableTable"@) {
        AttributeKind::LocalVariableTable
    } else if name == ascii_bytes("Signature"@) {
        AttributeKind::Signature
    } else if name == ascii_bytes("Deprecated"@) {
        AttributeKind::Deprecated
    } else if name == ascii_bytes("StackMapTable"@) {
        AttributeKind::StackMapTable
    } else if name == ascii_bytes("Exceptions"@) {
        AttributeKind::Exceptions
    } else if name == ascii_bytes("SourceFile"@) {
        AttributeKind::SourceFile
    } else if name == ascii_bytes("LineNumberTable"@) {
        AttributeKind::LineNumberTable
    } else if name == ascii_bytes("Module"@) {
        AttributeKind::Module
    } else if name == ascii_bytes("ModulePackages"@) {
        AttributeKind::ModulePackages
    } else if name == ascii_bytes("ModuleHashes"@) {
        AttributeKind::ModuleHashes
    } else if name == ascii_bytes("ModuleTarget"@) {
        AttributeKind::ModuleTarget
    } else if name == ascii_bytes("InnerClasses"@) {
        AttributeKind::InnerClasses
    } else {
        AttributeKind::Unknown
    }
}

/// The kind of the attribute with this name.
pub fn attribute_kind(name: &JavaStr) -> (kind: AttributeKind)
    ensures
        kind == kind_of(name@),
{
    proof {
        reveal_strlit("Code");
        reveal_strlit("ConstantValue");
        reveal_strlit("RuntimeVisibleAnnotations");
        reveal_strlit("LocalVariableTable");
        reveal_strlit("Signature");
        reveal_strlit("Deprecated");
        reveal_strlit("StackMapTable");
        reveal_strlit("Exceptions");
        reveal_strlit("SourceFile");
        reveal_strlit("LineNumberTable");
        reveal_strlit("Module");
        reveal_strlit("ModulePackages");
        reveal_strlit("ModuleHashes");
        reveal_strlit("ModuleTarget");
        reveal_strlit("InnerClasses");
    }
    if is_ascii_text(name, "Code") {
        AttributeKind::Code
    } else if is_ascii_text(name, "ConstantValue") {
        AttributeKind::ConstantValue
    } else if is_ascii_text(name, "RuntimeVisibleAnnotations") {
        AttributeKind::RuntimeVisibleAnnotations
    } else if is_ascii_text(name, "LocalVariableTable") {
        AttributeKind::LocalVariableTable
    } else if is_ascii_text(name, "Signature") {
        AttributeKind::Signature
    } else if is_ascii_text(name, "Deprecated") {
        AttributeKind::Deprecated
    } else if is_ascii_text(name, "StackMapTable") {
        AttributeKind::StackMapTable
    } else if is_ascii_text(name, "Exceptions") {
        AttributeKind::Exceptions
    } else if is_ascii_text(name, "SourceFile") {
        AttributeKind::SourceFile
    } else if is_ascii_text(name, "LineNumberTable") {
        AttributeKind::LineNumberTable
    } else if is_ascii_text(name, "Module") {
        AttributeKind::Module
    } else if is_ascii_text(name, "ModulePackages") {
        AttributeKind::ModulePackages
    } else if is_ascii_text(name, "ModuleHashes") {
        AttributeKind::ModuleHashes
    } else if is_ascii_text(name, "ModuleTarget") {
        AttributeKind::ModuleTarget
    } else if is_ascii_text(name, "InnerClasses") {
        AttributeKind::InnerClasses
    } else {
        AttributeKind::Unknown
    }
}

/// Whether `n` bytes stand at `pos` in front of `to`.
fn room(pos: usize, n: usize, to: usize) -> (yes: bool)
    ensures
        yes == fits(pos as int, n as int, to as int),
        yes ==> pos + n <= to,
{
    pos <= to && n <= to - pos
}

/// The text whose index stands at `from`.
pub open spec fn text_operand(pool: Seq<ConstantInfoView>, bytes: Seq<u8>, from: int, to: int) -> Result<
    Seq<u8>,
    int,
> {
    if !fits(from, 2, to) {
        Err(from)
    } else {
        match utf8_at(pool, u16_at(bytes, from)) {
            Some(text) => Ok(text),
            None => Err(from),
        }
    }
}

fn parse_text_operand(constant_pool: &Vec<ConstantPoolInfo>, input: &[u8], from: usize, to: usize) -> (r:
    Result<JavaStr, ClassFormatError>)
    requires
        to <= input.len(),
    ensures
        match r {
            Ok(text) => text_operand(constants_view(constant_pool@), input@, from as int, to as int)
                == Ok::<Seq<u8>, int>(text@),
            Err(e) => text_operand(constants_view(constant_pool@), input@, from as int, to as int)
                == Err::<Seq<u8>, int>(e.offset as int),
        },
{
    if !room(from, 2, to) {
        return Err(ClassFormatError { offset: from });
    }
    match resolve_runtime_cp_utf8(constant_pool, read_u16(input, from)) {
        Some(text) => Ok(text.clone()),
        None => Err(ClassFormatError { offset: from }),
    }
}

/// The line-number table: a count and that many pairs of a program counter
/// and a line. A failure names the first pair that is not whole.
pub open spec fn line_numbers_at(bytes: Seq<u8>, from: int, to: int) -> Result<
    Seq<LineNumberTableItem>,
    int,
> {
    if !fits(from, 2, to) {
        Err(from)
    } else if !fits(from + 2, 4 * u16_at(bytes, from), to) {
        Err(from + 2 + 4 * ((to - from - 2) / 4))
    } else {
        Ok(
            Seq::new(
                u16_at(bytes, from) as nat,
                |i: int|
                    LineNumberTableItem {
                        start_pc: u16_at(bytes, from + 2 + 4 * i) as u16,
                        line_number: u16_at(bytes, from + 4 + 4 * i) as u16,
                    },
            ),
        )
    }
}

fn parse_line_numbers(input: &[u8], from: usize, to: usize) -> (r: Result<
    Vec<LineNumberTableItem>,
    ClassFormatError,
>)
    requires
        to <= input.len(),
    ensures
        match r {
            Ok(table) => line_numbers_at(input@, from as int, to as int) == Ok::<
                Seq<LineNumberTableItem>,
                int,
            >(table@),
            Err(e) => line_numbers_at(input@, from as int, to as int) == Err::<
                Seq<LineNumberTableItem>,
                int,
            >(e.offset as int),
        },
{
    if !room(from, 2, to) {
        return Err(ClassFormatError { offset: from });
    }
    let count = read_u16(input, from) as usize;
    if !room(from + 2, 4 * count, to) {
        return Err(ClassFormatError { offset: from + 2 + 4 * ((to - from - 2) / 4) });
    }
    let mut table: Vec<LineNumberTableItem> = Vec::new();
    while table.len() < count
        invariant
            table.len() <= count,
            from + 2 + 4 * count <= to <= input.len(),
            table@ =~= Seq::new(
                table.len() as nat,
                |i: int|
                    LineNumberTableItem {
                        start_pc: u16_at(input@, from + 2 + 4 * i) as u16,
                        line_number: u16_at(input@, from + 4 + 4 * i) as u16,
                    },
            ),
        decreases count - table.len(),
    {
        let i = table.len();
        table.push(
            LineNumberTableItem {
                start_pc: read_u16(input, from + 2 + 4 * i),
                line_number: read_u16(input, from + 4 + 4 * i),
            },
        );
    }
    Ok(table)
}

/// The local variable at `pos`: two program counters, the indices of its
/// name and of its descriptor, and its slot.
pub open spec fn local_variable_at(pool: Seq<ConstantInfoView>, bytes: Seq<u8>, pos: int, to: int) -> Result<
    LocalVariableView,
    int,
> {
    if !fits(pos, 10, to) {
        Err(pos)
    } else {
        match utf8_at(pool, u16_at(bytes, pos + 4)) {
            Some(name) => match field_type_at(pool, u16_at(bytes, pos + 6)) {
                Some(descriptor) => Ok(
                    LocalVariableView {
                        start_pc: u16_at(bytes, pos) as u16,
                        length: u16_at(bytes, pos + 2) as u16,
                        name,
                        descriptor,
                        index: u16_at(bytes, pos + 8) as u16,
                    },
                ),
                None => Err(pos + 6),
            },
            None => Err(pos + 4),
        }
    }
}

/// `count` local variables from `pos` on.
pub open spec fn local_variables_at(
    pool: Seq<ConstantInfoView>,
    bytes: Seq<u8>,
    pos: int,
    count: int,
    to: int,
) -> Result<(Seq<LocalVariableView>, int), int>
    decreases count,
{
    if count <= 0 {
        Ok((Seq::empty(), pos))
    } else {
        match local_variable_at(pool, bytes, pos, to) {
            Ok(first) => match local_variables_at(pool, bytes, pos + 10, count - 1, to) {
                Ok(rest) => Ok((seq![first] + rest.0, rest.1)),
                Err(offset) => Err(offset),
            },
            Err(offset) => Err(offset),
        }
    }
}

/// The local-variable table: a count and that many local variables.
pub open spec fn local_variable_table_at(pool: Seq<ConstantInfoView>, bytes: Seq<u8>, from: int, to: int) -> Result<
    Seq<LocalVariableView>,
    int,
> {
    if !fits(from, 2, to) {
        Err(from)
    } else {
        match local_variables_at(pool, bytes, from + 2, u16_at(bytes, from), to) {
            Ok(found) => Ok(found.0),
            Err(offset) => Err(offset),
        }
    }
}

pub fn parse_local_variable(constant_pool: &Vec<ConstantPoolInfo>, input: &[u8], pos: usize, to: usize) -> (r:
    Result<LocalVariable, ClassFormatError>)
    requires
        to <= input.len(),
    ensures
        match r {
            Ok(v) => local_variable_at(constants_view(constant_pool@), input@, pos as int, to as int)
                == Ok::<LocalVariableView, int>(v@),
            Err(e) => local_variable_at(constants_view(constant_pool@), input@, pos as int, to as int)
                == Err::<LocalVariableView, int>(e.offset as int),
        },
{
    if !room(pos, 10, to) {
        return Err(ClassFormatError { offset: pos });
    }
    let name = match resolve_runtime_cp_utf8(constant_pool, read_u16(input, pos + 4)) {
        Some(name) => name.clone(),
        None => {
            return Err(ClassFormatError { offset: pos + 4 });
        },
    };
    match resolve_field_descriptor(constant_pool, read_u16(input, pos + 6)) {
        Some(descriptor) => Ok(
            LocalVariable {
                start_pc: read_u16(input, pos),
                length: read_u16(input, pos + 2),
                name,
                descriptor,
                index: read_u16(input, pos + 8),
            },
        ),
        None => Err(ClassFormatError { offset: pos + 6 }),
    }
}

fn parse_local_variable_table(constant_pool: &Vec<ConstantPoolInfo>, input: &[u8], from: usize, to: usize) -> (r:
    Result<Vec<LocalVariable>, ClassFormatError>)
    requires
        to <= input.len(),
    ensures
        match r {
            Ok(table) => local_variable_table_at(
                constants_view(constant_pool@),
                input@,
                from as int,
                to as int,
            ) == Ok::<Seq<LocalVariableView>, int>(local_variables_view(table@)),
            Err(e) => local_variable_table_at(
                constants_view(constant_pool@),
                input@,
                from as int,
                to as int,
            ) == Err::<Seq<LocalVariableView>, int>(e.offset as int),
        },
{
    if !room(from, 2, to) {
        return Err(ClassFormatError { offset: from });
    }
    let count = read_u16(input, from) as usize;
    let start = from + 2;
    let ghost pool = constants_view(constant_pool@);
    let mut table: Vec<LocalVariable> = Vec::new();
    let mut at: usize = start;
    assert(local_variables_view(table@) + local_variables_at(
        pool,
        input@,
        start as int,
        count as int,
        to as int,
    )->Ok_0.0 =~= local_variables_at(pool, input@, start as int, count as int, to as int)->Ok_0.0);
    while table.len() < count
        invariant
            table.len() <= count,
            to <= input.len(),
            at <= to,
            pool == constants_view(constant_pool@),
            fits(from as int, 2, to as int),
            start == from + 2,
            count == u16_at(input@, from as int),
            with_front(
                local_variables_view(table@),
                local_variables_at(pool, input@, at as int, count - table.len(), to as int),
            ) == local_variables_at(pool, input@, start as int, count as int, to as int),
        decreases count - table.len(),
    {
        let ghost before = local_variables_view(table@);
        let ghost left = count - table.len();
        match parse_local_variable(constant_pool, input, at, to) {
            Ok(variable) => {
                table.push(variable);
                proof {
                    assert(local_variables_view(table@) =~= before.push(variable@));
                    let rest = local_variables_at(pool, input@, at + 10, left - 1, to as int);
                    if rest is Ok {
                        assert(before + (seq![variable@] + rest->Ok_0.0) =~= local_variables_view(
                            table@,
                        ) + rest->Ok_0.0);
                    }
                }
                at = at + 10;
            },
            Err(e) => {
                return Err(e);
            },
        }
    }
    assert(local_variables_view(table@) + Seq::<LocalVariableView>::empty()
        =~= local_variables_view(table@));
    Ok(table)
}

/// The row of a handler table at `pos`: three program counters and the
/// index of the class to catch, or 0 for every class.
pub open spec fn exception_item_at(pool: Seq<ConstantInfoView>, bytes: Seq<u8>, pos: int, to: int) -> Result<
    ExceptionTableItemView,
    int,
> {
    if !fits(pos, 8, to) {
        Err(pos)
    } else if u16_at(bytes, pos + 6) == 0 {
        Ok(
            ExceptionTableItemView {
                start_pc: u16_at(bytes, pos) as u16,
                end_pc: u16_at(bytes, pos + 2) as u16,
                handler_pc: u16_at(bytes, pos + 4) as u16,
                catch_type: None,
            },
        )
    } else {
        match class_name_at(pool, u16_at(bytes, pos + 6)) {
            Some(name) => Ok(
                ExceptionTableItemView {
                    start_pc: u16_at(bytes, pos) as u16,
                    end_pc: u16_at(bytes, pos + 2) as u16,
                    handler_pc: u16_at(bytes, pos + 4) as u16,
                    catch_type: Some(name),
                },
            ),
            None => Err(pos + 6),
        }
    }
}

/// `count` rows of a handler table from `pos` on.
pub open spec fn exception_items_at(
    pool: Seq<ConstantInfoView>,
    bytes: Seq<u8>,
    pos: int,
    count: int,
    to: int,
) -> Result<(Seq<ExceptionTableItemView>, int), int>
    decreases count,
{
    if count <= 0 {
        Ok((Seq::empty(), pos))
    } else {
        match exception_item_at(pool, bytes, pos, to) {
            Ok(first) => match exception_items_at(pool, bytes, pos + 8, count - 1, to) {
                Ok(rest) => Ok((seq![first] + rest.0, rest.1)),
                Err(offset) => Err(offset),
            },
            Err(offset) => Err(offset),
        }
    }
}

pub fn parse_exception_table(constant_pool: &Vec<ConstantPoolInfo>, input: &[u8], pos: usize, to: usize) -> (r:
    Result<ExceptionTableItem, ClassFormatError>)
    requires
        to <= input.len(),
    ensures
        match r {
            Ok(item) => exception_item_at(constants_view(constant_pool@), input@, pos as int, to as int)
                == Ok::<ExceptionTableItemView, int>(item@),
            Err(e) => exception_item_at(constants_view(constant_pool@), input@, pos as int, to as int)
                == Err::<ExceptionTableItemView, int>(e.offset as int),
        },
{
    if !room(pos, 8, to) {
        return Err(ClassFormatError { offset: pos });
    }
    let catch_index = read_u16(input, pos + 6);
    let catch_type = if catch_index == 0 {
        None
    } else {
        match resolve_cp_class(constant_pool, catch_index) {
            Some(info) => Some(info.name.clone()),
            None => {
                return Err(ClassFormatError { offset: pos + 6 });
            },
        }
    };
    Ok(
        ExceptionTableItem {
            start_pc: read_u16(input, pos),
            end_pc: read_u16(input, pos + 2),
            handler_pc: read_u16(input, pos + 4),
            catch_type,
        },
    )
}

fn parse_exception_items(
    constant_pool: &Vec<ConstantPoolInfo>,
    input: &[u8],
    pos: usize,
    count: usize,
    to: usize,
) -> (r: Result<(Vec<ExceptionTableItem>, usize), ClassFormatError>)
    requires
        pos <= to <= input.len(),
    ensures
        match r {
            Ok((table, end)) => exception_items_at(
                constants_view(constant_pool@),
                input@,
                pos as int,
                count as int,
                to as int,
            ) == Ok::<(Seq<ExceptionTableItemView>, int), int>(
                (exception_table_view(table@), end as int),
            ) && pos <= end <= to,
            Err(e) => exception_items_at(
                constants_view(constant_pool@),
                input@,
                pos as int,
                count as int,
                to as int,
            ) == Err::<(Seq<ExceptionTableItemView>, int), int>(e.offset as int),
        },
{
    let ghost pool = constants_view(constant_pool@);
    let mut table: Vec<ExceptionTableItem> = Vec::new();
    let mut at: usize = pos;
    assert(exception_table_view(table@) + exception_items_at(
        pool,
        input@,
        pos as int,
        count as int,
        to as int,
    )->Ok_0.0 =~= exception_items_at(pool, input@, pos as int, count as int, to as int)->Ok_0.0);
    while table.len() < count
        invariant
            table.len() <= count,
            pos <= at <= to <= input.len(),
            pool == constants_view(constant_pool@),
            with_front(
                exception_table_view(table@),
                exception_items_at(pool, input@, at as int, count - table.len(), to as int),
            ) == exception_items_at(pool, input@, pos as int, count as int, to as int),
        decreases count - table.len(),
    {
        let ghost before = exception_table_view(table@);
        let ghost left = count - table.len();
        match parse_exception_table(constant_pool, input, at, to) {
            Ok(item) => {
                table.push(item);
                proof {
                    assert(exception_table_view(table@) =~= before.push(item@));
                    let rest = exception_items_at(pool, input@, at + 8, left - 1, to as int);
                    if rest is Ok {
                        assert(before + (seq![item@] + rest->Ok_0.0) =~= exception_table_view(
                            table@,
                        ) + rest->Ok_0.0);
                    }
                }
                at = at + 8;
            },
            Err(e) => {
                return Err(e);
            },
        }
    }
    assert(exception_table_view(table@) + Seq::<ExceptionTableItemView>::empty()
        =~= exception_table_view(table@));
    Ok((table, at))
}

/// `count` names from `pos` on, each given by the index of a package (or of
/// a module, where `packages` is false).
pub open spec fn names_at(
    pool: Seq<ConstantInfoView>,
    bytes: Seq<u8>,
    pos: int,
    count: int,
    to: int,
    packages: bool,
) -> Result<(Seq<Seq<u8>>, int), int>
    decreases count,
{
    if count <= 0 {
        Ok((Seq::empty(), pos))
    } else if !fits(pos, 2, to) {
        Err(pos)
    } else {
        match (if packages {
            package_at(pool, u16_at(bytes, pos))
        } else {
            module_at(pool, u16_at(bytes, pos))
        }) {
            Some(name) => match names_at(pool, bytes, pos + 2, count - 1, to, packages) {
                Ok(rest) => Ok((seq![name] + rest.0, rest.1)),
                Err(offset) => Err(offset),
            },
            None => Err(pos),
        }
    }
}

fn parse_names(
    constant_pool: &Vec<ConstantPoolInfo>,
    input: &[u8],
    pos: usize,
    count: usize,
    to: usize,
    packages: bool,
) -> (r: Result<(Vec<JavaStr>, usize), ClassFormatError>)
    requires
        pos <= to <= input.len(),
    ensures
        match r {
            Ok((names, end)) => names_at(
                constants_view(constant_pool@),
                input@,
                pos as int,
                count as int,
                to as int,
                packages,
            ) == Ok::<(Seq<Seq<u8>>, int), int>((names_view(names@), end as int)) && pos <= end
                <= to,
            Err(e) => names_at(
                constants_view(constant_pool@),
                input@,
                pos as int,
                count as int,
                to as int,
                packages,
            ) == Err::<(Seq<Seq<u8>>, int), int>(e.offset as int),
        },
{
    let ghost pool = constants_view(constant_pool@);
    let mut names: Vec<JavaStr> = Vec::new();
    let mut at: usize = pos;
    assert(names_view(names@) + names_at(
        pool,
        input@,
        pos as int,
        count as int,
        to as int,
        packages,
    )->Ok_0.0 =~= names_at(pool, input@, pos as int, count as int, to as int, packages)->Ok_0.0);
    while names.len() < count
        invariant
            names.len() <= count,
            pos <= at <= to <= input.len(),
            pool == constants_view(constant_pool@),
            with_front(
                names_view(names@),
                names_at(pool, input@, at as int, count - names.len(), to as int, packages),
            ) == names_at(pool, input@, pos as int, count as int, to as int, packages),
        decreases count - names.len(),
    {
        let ghost before = names_view(names@);
        let ghost left = count - names.len();
        if !room(at, 2, to) {
            return Err(ClassFormatError { offset: at });
        }
        let index = read_u16(input, at);
        let found = if packages {
            resolve_cp_package(constant_pool, index)
        } else {
            resolve_cp_module(constant_pool, index)
        };
        match found {
            Some(name) => {
                let name = name.clone();
                names.push(name);
                proof {
                    assert(names_view(names@) =~= before.push(name@));
                    let rest = names_at(pool, input@, at + 2, left - 1, to as int, packages);
                    if rest is Ok {
                        assert(before + (seq![name@] + rest->Ok_0.0) =~= names_view(names@)
                            + rest->Ok_0.0);
                    }
                }
                at = at + 2;
            },
            None => {
                return Err(ClassFormatError { offset: at });
            },
        }
    }
    assert(names_view(names@) + Seq::<Seq<u8>>::empty() =~= names_view(names@));
    Ok((names, at))
}

/// The list of packages of a module: a count and that many indices of
/// packages.
pub open spec fn module_packages_at(pool: Seq<ConstantInfoView>, bytes: Seq<u8>, from: int, to: int) -> Result<
    Seq<Seq<u8>>,
    int,
> {
    if !fits(from, 2, to) {
        Err(from)
    } else {
        match names_at(pool, bytes, from + 2, u16_at(bytes, from), to, true) {
            Ok(found) => Ok(found.0),
            Err(offset) => Err(offset),
        }
    }
}

/// The export at `pos`: the index of a package, flags, a count and that
/// many indices of modules.
pub open spec fn export_at(pool: Seq<ConstantInfoView>, bytes: Seq<u8>, pos: int, to: int) -> Result<
    (ModuleExportView, int),
    int,
> {
    if !fits(pos, 6, to) {
        Err(pos)
    } else {
        match package_at(pool, u16_at(bytes, pos)) {
            Some(exports) => match names_at(
                pool,
                bytes,
                pos + 6,
                u16_at(bytes, pos + 4),
                to,
                false,
            ) {
                Ok(found) => Ok(
                    (
                        ModuleExportView {
                            exports,
                            exports_flags: u16_at(bytes, pos + 2) as u16,
                            exports_to: found.0,
                        },
                        found.1,
                    ),
                ),
                Err(offset) => Err(offset),
            },
            None => Err(pos),
        }
    }
}

/// `count` exports from `pos` on.
pub open spec fn exports_at(
    pool: Seq<ConstantInfoView>,
    bytes: Seq<u8>,
    pos: int,
    count: int,
    to: int,
) -> Result<(Seq<ModuleExportView>, int), int>
    decreases count,
{
    if count <= 0 {
        Ok((Seq::empty(), pos))
    } else {
        match export_at(pool, bytes, pos, to) {
            Ok(first) => match exports_at(pool, bytes, first.1, count - 1, to) {
                Ok(rest) => Ok((seq![first.0] + rest.0, rest.1)),
                Err(offset) => Err(offset),
            },
            Err(offset) => Err(offset),
        }
    }
}

/// The offset behind `count` groups from `pos` on. A group is a header of
/// `header` bytes, whose last two give a count, and that many indices.
pub open spec fn skip_groups(bytes: Seq<u8>, pos: int, count: int, to: int, header: int) -> Result<
    int,
    int,
>
    decreases count,
{
    if count <= 0 {
        Ok(pos)
    } else if !fits(pos, header, to) {
        Err(pos)
    } else if !fits(pos + header, 2 * u16_at(bytes, pos + header - 2), to) {
        Err(pos + header + 2 * ((to - pos - header) / 2))
    } else {
        skip_groups(
            bytes,
            pos + header + 2 * u16_at(bytes, pos + header - 2),
            count - 1,
            to,
            header,
        )
    }
}

/// The offset behind a count at `pos` and that many records of `size`
/// bytes. A failure names the first record that is not whole.
pub open spec fn skip_records(bytes: Seq<u8>, pos: int, to: int, size: int) -> Result<int, int> {
    if !fits(pos, 2, to) {
        Err(pos)
    } else if !fits(pos + 2, size * u16_at(bytes, pos), to) {
        Err(pos + 2 + size * ((to - pos - 2) / size))
    } else {
        Ok(pos + 2 + size * u16_at(bytes, pos))
    }
}

/// The module attribute: the module's name, flags and version; what it
/// requires; what it exports; what it opens; what it uses; what it
/// provides. Only the exports are kept.
pub open spec fn module_exports_at(pool: Seq<ConstantInfoView>, bytes: Seq<u8>, from: int, to: int) -> Result<
    Seq<ModuleExportView>,
    int,
> {
    if !fits(from, 6, to) {
        Err(from)
    } else {
        match skip_records(bytes, from + 6, to, 6) {
            Ok(p) => if !fits(p, 2, to) {
                Err(p)
            } else {
                match exports_at(pool, bytes, p + 2, u16_at(bytes, p), to) {
                    Ok(exports) => if !fits(exports.1, 2, to) {
                        Err(exports.1)
                    } else {
                        match skip_groups(
                            bytes,
                            exports.1 + 2,
                            u16_at(bytes, exports.1),
                            to,
                            6,
                        ) {
                            Ok(q) => match skip_records(bytes, q, to, 2) {
                                Ok(u) => if !fits(u, 2, to) {
                                    Err(u)
                                } else {
                                    match skip_groups(bytes, u + 2, u16_at(bytes, u), to, 4) {
                                        Ok(_) => Ok(exports.0),
                                        Err(offset) => Err(offset),
                                    }
                                },
                                Err(offset) => Err(offset),
                            },
                            Err(offset) => Err(offset),
                        }
                    },
                    Err(offset) => Err(offset),
                }
            },
            Err(offset) => Err(offset),
        }
    }
}

fn parse_export(constant_pool: &Vec<ConstantPoolInfo>, input: &[u8], pos: usize, to: usize) -> (r:
    Result<(ModuleExport, usize), ClassFormatError>)
    requires
        pos <= to <= input.len(),
    ensures
        match r {
            Ok((export, end)) => export_at(constants_view(constant_pool@), input@, pos as int, to as int)
                == Ok::<(ModuleExportView, int), int>((export@, end as int)) && pos <= end <= to,
            Err(e) => export_at(constants_view(constant_pool@), input@, pos as int, to as int) == Err::<
                (ModuleExportView, int),
                int,
            >(e.offset as int),
        },
{
    if !room(pos, 6, to) {
        return Err(ClassFormatError { offset: pos });
    }
    let exports = match resolve_cp_package(constant_pool, read_u16(input, pos)) {
        Some(name) => name.clone(),
        None => {
            return Err(ClassFormatError { offset: pos });
        },
    };
    let exports_flags = read_u16(input, pos + 2);
    let count = read_u16(input, pos + 4) as usize;
    match parse_names(constant_pool, input, pos + 6, count, to, false) {
        Ok((exports_to, end)) => Ok((ModuleExport { exports, exports_flags, exports_to }, end)),
        Err(e) => Err(e),
    }
}

fn parse_exports(
    constant_pool: &Vec<ConstantPoolInfo>,
    input: &[u8],
    pos: usize,
    count: usize,
    to: usize,
) -> (r: Result<(Vec<ModuleExport>, usize), ClassFormatError>)
    requires
        pos <= to <= input.len(),
    ensures
        match r {
            Ok((exports, end)) => exports_at(
                constants_view(constant_pool@),
                input@,
                pos as int,
                count as int,
                to as int,
            ) == Ok::<(Seq<ModuleExportView>, int), int>((exports_view(exports@), end as int))
                && pos <= end <= to,
            Err(e) => exports_at(
                constants_view(constant_pool@),
                input@,
                pos as int,
                count as int,
                to as int,
            ) == Err::<(Seq<ModuleExportView>, int), int>(e.offset as int),
        },
{
    let ghost pool = constants_view(constant_pool@);
    let mut exports: Vec<ModuleExport> = Vec::new();
    let mut at: usize = pos;
    assert(exports_view(exports@) + exports_at(pool, input@, pos as int, count as int, to as int)->Ok_0.0
        =~= exports_at(pool, input@, pos as int, count as int, to as int)->Ok_0.0);
    while exports.len() < count
        invariant
            exports.len() <= count,
            pos <= at <= to <= input.len(),
            pool == constants_view(constant_pool@),
            with_front(
                exports_view(exports@),
                exports_at(pool, input@, at as int, count - exports.len(), to as int),
            ) == exports_at(pool, input@, pos as int, count as int, to as int),
        decreases count - exports.len(),
    {
        let ghost before = exports_view(exports@);
        let ghost left = count - exports.len();
        match parse_export(constant_pool, input, at, to) {
            Ok((export, end)) => {
                exports.push(export);
                proof {
                    assert(exports_view(exports@) =~= before.push(export@));
                    let rest = exports_at(pool, input@, end as int, left - 1, to as int);
                    if rest is Ok {
                        assert(before + (seq![export@] + rest->Ok_0.0) =~= exports_view(exports@)
                            + rest->Ok_0.0);
                    }
                }
                at = end;
            },
            Err(e) => {
                return Err(e);
            },
        }
    }
    assert(exports_view(exports@) + Seq::<ModuleExportView>::empty() =~= exports_view(exports@));
    Ok((exports, at))
}

fn pass_groups(input: &[u8], pos: usize, count: usize, to: usize, header: usize) -> (r: Result<
    usize,
    ClassFormatError,
>)
    requires
        pos <= to <= input.len(),
        2 <= header <= 6,
    ensures
        match r {
            Ok(end) => skip_groups(input@, pos as int, count as int, to as int, header as int)
                == Ok::<int, int>(end as int) && pos <= end <= to,
            Err(e) => skip_groups(input@, pos as int, count as int, to as int, header as int)
                == Err::<int, int>(e.offset as int),
        },
{
    let mut at: usize = pos;
    let mut done: usize = 0;
    while done < count
        invariant
            done <= count,
            pos <= at <= to <= input.len(),
            2 <= header <= 6,
            skip_groups(input@, at as int, count - done, to as int, header as int) == skip_groups(
                input@,
                pos as int,
                count as int,
                to as int,
                header as int,
            ),
        decreases count - done,
    {
        if !room(at, header, to) {
            return Err(ClassFormatError { offset: at });
        }
        let n = read_u16(input, at + header - 2) as usize;
        if !room(at + header, 2 * n, to) {
            return Err(ClassFormatError { offset: at + header + 2 * ((to - at - header) / 2) });
        }
        at = at + header + 2 * n;
        done += 1;
    }
    Ok(at)
}

fn pass_records(input: &[u8], pos: usize, to: usize, size: usize) -> (r: Result<
    usize,
    ClassFormatError,
>)
    requires
        pos <= to <= input.len(),
        1 <= size <= 6,
    ensures
        match r {
            Ok(end) => skip_records(input@, pos as int, to as int, size as int) == Ok::<int, int>(
                end as int,
            ) && pos <= end <= to,
            Err(e) => skip_records(input@, pos as int, to as int, size as int) == Err::<int, int>(
                e.offset as int,
            ),
        },
{
    if !room(pos, 2, to) {
        return Err(ClassFormatError { offset: pos });
    }
    let n = read_u16(input, pos) as usize;
    assert(size * n <= 6 * 65535) by (nonlinear_arith)
        requires
            1 <= size <= 6,
            n <= 65535,
    ;
    if !room(pos + 2, size * n, to) {
        let whole = (to - pos - 2) / size;
        assert(size * whole <= to - pos - 2) by (nonlinear_arith)
            requires
                whole == (to - pos - 2) / (size as int),
                size >= 1,
                to - pos - 2 >= 0,
        ;
        return Err(ClassFormatError { offset: pos + 2 + size * whole });
    }
    Ok(pos + 2 + size * n)
}

fn parse_module(constant_pool: &Vec<ConstantPoolInfo>, input: &[u8], from: usize, to: usize) -> (r:
    Result<Module, ClassFormatError>)
    requires
        from <= to <= input.len(),
    ensures
        match r {
            Ok(module) => module_exports_at(constants_view(constant_pool@), input@, from as int, to as int)
                == Ok::<Seq<ModuleExportView>, int>(exports_view(module.exports@)),
            Err(e) => module_exports_at(constants_view(constant_pool@), input@, from as int, to as int)
                == Err::<Seq<ModuleExportView>, int>(e.offset as int),
        },
{
    if !room(from, 6, to) {
        return Err(ClassFormatError { offset: from });
    }
    let p = match pass_records(input, from + 6, to, 6) {
        Ok(p) => p,
        Err(e) => {
            return Err(e);
        },
    };
    if !room(p, 2, to) {
        return Err(ClassFormatError { offset: p });
    }
    let (exports, at) = match parse_exports(
        constant_pool,
        input,
        p + 2,
        read_u16(input, p) as usize,
        to,
    ) {
        Ok(found) => found,
        Err(e) => {
            return Err(e);
        },
    };
    if !room(at, 2, to) {
        return Err(ClassFormatError { offset: at });
    }
    let q = match pass_groups(input, at + 2, read_u16(input, at) as usize, to, 6) {
        Ok(q) => q,
        Err(e) => {
            return Err(e);
        },
    };
    let u = match pass_records(input, q, to, 2) {
        Ok(u) => u,
        Err(e) => {
            return Err(e);
        },
    };
    if !room(u, 2, to) {
        return Err(ClassFormatError { offset: u });
    }
    match pass_groups(input, u + 2, read_u16(input, u) as usize, to, 4) {
        Ok(_) => Ok(Module { exports }),
        Err(e) => Err(e),
    }
}

/// The code attribute: the sizes of the operand stack and of the locals,
/// the length of the code and the code, the handler table, and attributes
/// of its own.
pub open spec fn code_at(pool: Seq<ConstantInfoView>, bytes: Seq<u8>, from: int, to: int) -> Result<
    CodeAttributeView,
    int,
>
    decreases to - from, 1int, 0int,
{
    if !fits(from, 2, to) {
        Err(from)
    } else if !fits(from + 2, 2, to) {
        Err(from + 2)
    } else if !fits(from + 4, 4, to) {
        Err(from + 4)
    } else if !fits(from + 8, u32_at(bytes, from + 4), to) {
        Err(from + 8)
    } else if !fits(from + 8 + u32_at(bytes, from + 4), 2, to) {
        Err(from + 8 + u32_at(bytes, from + 4))
    } else {
        let p = from + 8 + u32_at(bytes, from + 4);
        match exception_items_at(pool, bytes, p + 2, u16_at(bytes, p), to) {
            Ok(table) => {
                if table.1 <= from || !fits(table.1, 2, to) {
                    Err(table.1)
                } else {
                    match nested_attributes_at(
                        pool,
                        bytes,
                        table.1 + 2,
                        u16_at(bytes, table.1),
                        to,
                    ) {
                        Ok(attributes) => Ok(
                            CodeAttributeView {
                                max_stack: u16_at(bytes, from) as u16,
                                max_locals: u16_at(bytes, from + 2) as u16,
                                code: bytes.subrange(from + 8, p),
                                exception_table: table.0,
                                attributes: attributes.0,
                            },
                        ),
                        Err(offset) => Err(offset),
                    }
                }
            },
            Err(offset) => Err(offset),
        }
    }
}

/// `count` attributes from `pos` on, each as the index of its name, its
/// length and its bytes, and the offset behind them.
pub open spec fn nested_attributes_at(
    pool: Seq<ConstantInfoView>,
    bytes: Seq<u8>,
    pos: int,
    count: int,
    to: int,
) -> Result<(Seq<AttributeInfoView>, int), int>
    decreases to - pos, 0int, count,
{
    if count <= 0 {
        Ok((Seq::empty(), pos))
    } else if !fits(pos, 2, to) {
        Err(pos)
    } else if !fits(pos + 2, 4, to) {
        Err(pos + 2)
    } else if !fits(pos + 6, u32_at(bytes, pos + 2), to) {
        Err(pos + 6)
    } else {
        let end = pos + 6 + u32_at(bytes, pos + 2);
        match attribute_at(pool, u16_at(bytes, pos), bytes, pos + 6, end) {
            Ok(first) => match nested_attributes_at(pool, bytes, end, count - 1, to) {
                Ok(rest) => Ok((seq![first] + rest.0, rest.1)),
                Err(offset) => Err(offset),
            },
            Err(offset) => Err(offset),
        }
    }
}

/// The attribute whose name has index `name_index` and whose bytes stand
/// from `from` up to `to`.
pub open spec fn attribute_at(
    pool: Seq<ConstantInfoView>,
    name_index: int,
    bytes: Seq<u8>,
    from: int,
    to: int,
) -> Result<AttributeInfoView, int>
    decreases to - from, 2int, 0int,
{
    match utf8_at(pool, name_index) {
        None => Err(from),
        Some(name) => match kind_of(name) {
            AttributeKind::Code => match code_at(pool, bytes, from, to) {
                Ok(code) => Ok(AttributeInfoView::Code(Box::new(code))),
                Err(offset) => Err(offset),
            },
            AttributeKind::ConstantValue => if !fits(from, 2, to) {
                Err(from)
            } else {
                match constant_value_at(pool, u16_at(bytes, from)) {
                    Some(c) => Ok(AttributeInfoView::ConstantValue(c)),
                    None => Err(from),
                }
            },
            AttributeKind::RuntimeVisibleAnnotations => if !fits(from, 2, to) {
                Err(from)
            } else {
                match annotations_at(pool, bytes, from + 2, u16_at(bytes, from), to) {
                    Ok(found) => Ok(AttributeInfoView::RuntimeVisibleAnnotations(found.0)),
                    Err(offset) => Err(offset),
                }
            },
            AttributeKind::LocalVariableTable => match local_variable_table_at(
                pool,
                bytes,
                from,
                to,
            ) {
                Ok(table) => Ok(AttributeInfoView::LocalVariableTable(table)),
                Err(offset) => Err(offset),
            },
            AttributeKind::Signature => match text_operand(pool, bytes, from, to) {
                Ok(text) => Ok(AttributeInfoView::Signature(text)),
                Err(offset) => Err(offset),
            },
            AttributeKind::Deprecated => Ok(AttributeInfoView::Deprecated),
            AttributeKind::StackMapTable => Ok(AttributeInfoView::StackMapTable),
            AttributeKind::Exceptions => Ok(AttributeInfoView::Exceptions),
            AttributeKind::SourceFile => match text_operand(pool, bytes, from, to) {
                Ok(text) => Ok(AttributeInfoView::SourceFile(text)),
                Err(offset) => Err(offset),
            },
            AttributeKind::LineNumberTable => match line_numbers_at(bytes, from, to) {
                Ok(table) => Ok(AttributeInfoView::LineNumberTable(table)),
                Err(offset) => Err(offset),
            },
            AttributeKind::Module => match module_exports_at(pool, bytes, from, to) {
                Ok(exports) => Ok(AttributeInfoView::Module(exports)),
                Err(offset) => Err(offset),
            },
            AttributeKind::ModulePackages => match module_packages_at(pool, bytes, from, to) {
                Ok(packages) => Ok(AttributeInfoView::ModulePackages(packages)),
                Err(offset) => Err(offset),
            },
            AttributeKind::ModuleHashes => Ok(AttributeInfoView::ModuleHashes),
            AttributeKind::ModuleTarget => match text_operand(pool, bytes, from, to) {
                Ok(text) => Ok(AttributeInfoView::ModuleTarget(text)),
                Err(offset) => Err(offset),
            },
            AttributeKind::InnerClasses => Ok(AttributeInfoView::InnerClasses),
            AttributeKind::Unknown => Ok(AttributeInfoView::Unknown(name)),
        },
    }
}

/// Reads the code attribute that stands from `from` up to `to`.
pub fn parse_code_attribute(constant_pool: &Vec<ConstantPoolInfo>, input: &[u8], from: usize, to: usize) -> (r:
    Result<CodeAttribute, ClassFormatError>)
    requires
        from <= to <= input.len(),
    ensures
        match r {
            Ok(code) => code_at(constants_view(constant_pool@), input@, from as int, to as int)
                == Ok::<CodeAttributeView, int>(code.model()),
            Err(e) => code_at(constants_view(constant_pool@), input@, from as int, to as int)
                == Err::<CodeAttributeView, int>(e.offset as int),
        },
    decreases to - from, 1int, 0int,
{
    if !room(from, 2, to) {
        return Err(ClassFormatError { offset: from });
    }
    if !room(from + 2, 2, to) {
        return Err(ClassFormatError { offset: from + 2 });
    }
    if !room(from + 4, 4, to) {
        return Err(ClassFormatError { offset: from + 4 });
    }
    let code_length = read_u32(input, from + 4);
    if code_length as usize as u32 != code_length || !room(from + 8, code_length as usize, to) {
        return Err(ClassFormatError { offset: from + 8 });
    }
    let p = from + 8 + code_length as usize;
    if !room(p, 2, to) {
        return Err(ClassFormatError { offset: p });
    }
    let (exception_table, q) = match parse_exception_items(
        constant_pool,
        input,
        p + 2,
        read_u16(input, p) as usize,
        to,
    ) {
        Ok(found) => found,
        Err(e) => {
            return Err(e);
        },
    };
    if !room(q, 2, to) {
        return Err(ClassFormatError { offset: q });
    }
    match parse_attributes(constant_pool, input, q + 2, read_u16(input, q) as usize, to) {
        Ok((attributes, _)) => {
            let code = CodeAttribute {
                max_stack: read_u16(input, from),
                max_locals: read_u16(input, from + 2),
                code: copy_range(input, from + 8, p),
                exception_table,
                attributes,
            };
            assert(code.model().attributes =~= attribute_infos_view(attributes@));
            Ok(code)
        },
        Err(e) => Err(e),
    }
}

/// Reads `count` attributes from `pos` on, each with its name's index and
/// its length in front.
pub fn parse_attributes(
    constant_pool: &Vec<ConstantPoolInfo>,
    input: &[u8],
    pos: usize,
    count: usize,
    to: usize,
) -> (r: Result<(Vec<AttributeInfo>, usize), ClassFormatError>)
    requires
        pos <= to <= input.len(),
    ensures
        match r {
            Ok((attributes, end)) => nested_attributes_at(
                constants_view(constant_pool@),
                input@,
                pos as int,
                count as int,
                to as int,
            ) == Ok::<(Seq<AttributeInfoView>, int), int>(
                (attribute_infos_view(attributes@), end as int),
            ),
            Err(e) => nested_attributes_at(
                constants_view(constant_pool@),
                input@,
                pos as int,
                count as int,
                to as int,
            ) == Err::<(Seq<AttributeInfoView>, int), int>(e.offset as int),
        },
    decreases to - pos, 0int, count,
{
    let ghost pool = constants_view(constant_pool@);
    let mut attributes: Vec<AttributeInfo> = Vec::new();
    let mut at: usize = pos;
    assert(attribute_infos_view(attributes@) + nested_attributes_at(
        pool,
        input@,
        pos as int,
        count as int,
        to as int,
    )->Ok_0.0 =~= nested_attributes_at(pool, input@, pos as int, count as int, to as int)->Ok_0.0);
    while attributes.len() < count
        invariant
            attributes.len() <= count,
            pos <= at <= to <= input.len(),
            pool == constants_view(constant_pool@),
            with_front(
                attribute_infos_view(attributes@),
                nested_attributes_at(pool, input@, at as int, count - attributes.len(), to as int),
            ) == nested_attributes_at(pool, input@, pos as int, count as int, to as int),
        decreases count - attributes.len(),
    {
        let ghost before = attribute_infos_view(attributes@);
        let ghost left = count - attributes.len();
        if !room(at, 2, to) {
            return Err(ClassFormatError { offset: at });
        }
        if !room(at + 2, 4, to) {
            return Err(ClassFormatError { offset: at + 2 });
        }
        let length = read_u32(input, at + 2);
        if length as usize as u32 != length || !room(at + 6, length as usize, to) {
            return Err(ClassFormatError { offset: at + 6 });
        }
        let end = at + 6 + length as usize;
        match parse_attribute(read_u16(input, at), input, at + 6, end, constant_pool) {
            Ok(attribute) => {
                attributes.push(attribute);
                proof {
                    assert(attribute_infos_view(attributes@) =~= before.push(attribute.model()));
                    let rest = nested_attributes_at(pool, input@, end as int, left - 1, to as int);
                    if rest is Ok {
                        assert(before + (seq![attribute.model()] + rest->Ok_0.0)
                            =~= attribute_infos_view(attributes@) + rest->Ok_0.0);
                    }
                }
                at = end;
            },
            Err(e) => {
                return Err(e);
            },
        }
    }
    assert(attribute_infos_view(attributes@) + Seq::<AttributeInfoView>::empty()
        =~= attribute_infos_view(attributes@));
    Ok((attributes, at))
}

/// Reads the attribute whose name has index `attribute_name_index` and
/// whose bytes stand from `from` up to `to`.
pub fn parse_attribute(
    attribute_name_index: u16,
    input: &[u8],
    from: usize,
    to: usize,
    constant_pool: &Vec<ConstantPoolInfo>,
) -> (r: Result<AttributeInfo, ClassFormatError>)
    requires
        from <= to <= input.len(),
    ensures
        match r {
            Ok(attribute) => attribute_at(
                constants_view(constant_pool@),
                attribute_name_index as int,
                input@,
                from as int,
                to as int,
            ) == Ok::<AttributeInfoView, int>(attribute.model()),
            Err(e) => attribute_at(
                constants_view(constant_pool@),
                attribute_name_index as int,
                input@,
                from as int,
                to as int,
            ) == Err::<AttributeInfoView, int>(e.offset as int),
        },
    decreases to - from, 2int, 0int,
{
    let name = match resolve_runtime_cp_utf8(constant_pool, attribute_name_index) {
        Some(name) => name,
        None => {
            return Err(ClassFormatError { offset: from });
        },
    };
    match attribute_kind(name) {
        AttributeKind::Code => match parse_code_attribute(constant_pool, input, from, to) {
            Ok(code) => Ok(AttributeInfo::Code(code)),
            Err(e) => Err(e),
        },
        AttributeKind::ConstantValue => {
            if !room(from, 2, to) {
                return Err(ClassFormatError { offset: from });
            }
            match resolve_constant_value(constant_pool, read_u16(input, from)) {
                Some(c) => Ok(AttributeInfo::ConstantValue(c)),
                None => Err(ClassFormatError { offset: from }),
            }
        },
        AttributeKind::RuntimeVisibleAnnotations => {
            if !room(from, 2, to) {
                return Err(ClassFormatError { offset: from });
            }
            match parse_annotations(
                constant_pool,
                input,
                from + 2,
                read_u16(input, from) as usize,
                to,
            ) {
                Ok((annotations, _)) => Ok(AttributeInfo::RuntimeVisibleAnnotations(annotations)),
                Err(e) => Err(e),
            }
        },
        AttributeKind::LocalVariableTable => match parse_local_variable_table(
            constant_pool,
            input,
            from,
            to,
        ) {
            Ok(table) => Ok(AttributeInfo::LocalVariableTable(table)),
            Err(e) => Err(e),
        },
        AttributeKind::Signature => match parse_text_operand(constant_pool, input, from, to) {
            Ok(text) => Ok(AttributeInfo::Signature(text)),
            Err(e) => Err(e),
        },
        AttributeKind::Deprecated => Ok(AttributeInfo::Deprecated),
        AttributeKind::StackMapTable => Ok(AttributeInfo::StackMapTable(Vec::new())),
        AttributeKind::Exceptions => Ok(AttributeInfo::Exceptions),
        AttributeKind::SourceFile => match parse_text_operand(constant_pool, input, from, to) {
            Ok(text) => Ok(AttributeInfo::SourceFile(text)),
            Err(e) => Err(e),
        },
        AttributeKind::LineNumberTable => match parse_line_numbers(input, from, to) {
            Ok(table) => Ok(AttributeInfo::LineNumberTable(table)),
            Err(e) => Err(e),
        },
        AttributeKind::Module => match parse_module(constant_pool, input, from, to) {
            Ok(module) => Ok(AttributeInfo::Module(module)),
            Err(e) => Err(e),
        },
        AttributeKind::ModulePackages => {
            if !room(from, 2, to) {
                return Err(ClassFormatError { offset: from });
            }
            match parse_names(
                constant_pool,
                input,
                from + 2,
                read_u16(input, from) as usize,
                to,
                true,
            ) {
                Ok((packages, _)) => Ok(AttributeInfo::ModulePackages(packages)),
                Err(e) => Err(e),
            }
        },
        AttributeKind::ModuleHashes => Ok(AttributeInfo::ModuleHashes),
        AttributeKind::ModuleTarget => match parse_text_operand(constant_pool, input, from, to) {
            Ok(text) => Ok(AttributeInfo::ModuleTarget(text)),
            Err(e) => Err(e),
        },
        AttributeKind::InnerClasses => Ok(AttributeInfo::InnerClasses),
        AttributeKind::Unknown => Ok(AttributeInfo::Unknown(name.clone())),
    }
}

/// The attributes of a decoded class file, read by their names.
pub open spec fn converted_attributes(
    pool: Seq<ConstantInfoView>,
    attributes: Seq<crate::class::structs::AttributeView>,
) -> Result<Seq<AttributeInfoView>, int>
    decreases attributes.len(),
{
    if attributes.len() == 0 {
        Ok(Seq::empty())
    } else {
        match attribute_at(
            pool,
            attributes[0].attribute_name_index as int,
            attributes[0].info,
            0,
            attributes[0].info.len() as int,
        ) {
            Ok(first) => match converted_attributes(pool, attributes.drop_first()) {
                Ok(rest) => Ok(seq![first] + rest),
                Err(offset) => Err(offset),
            },
            Err(offset) => Err(offset),
        }
    }
}

/// Reads an attribute of a decoded class file by its name.
pub fn convert_attribute(
    constant_pool: &Vec<ConstantPoolInfo>,
    attribute: &crate::class::structs::AttributeInfo,
) -> (r: Result<AttributeInfo, ClassFormatError>)
    ensures
        match r {
            Ok(converted) => attribute_at(
                constants_view(constant_pool@),
                attribute.attribute_name_index as int,
                attribute.info@,
                0,
                attribute.info.len() as int,
            ) == Ok::<AttributeInfoView, int>(converted.model()),
            Err(e) => attribute_at(
                constants_view(constant_pool@),
                attribute.attribute_name_index as int,
                attribute.info@,
                0,
                attribute.info.len() as int,
            ) == Err::<AttributeInfoView, int>(e.offset as int),
        },
{
    parse_attribute(
        attribute.attribute_name_index,
        attribute.info.as_slice(),
        0,
        attribute.info.len(),
        constant_pool,
    )
}

/// Reads all attributes of a member of a decoded class file.
pub fn convert_attributes(
    constant_pool: &Vec<ConstantPoolInfo>,
    attributes: &Vec<crate::class::structs::AttributeInfo>,
) -> (r: Result<Vec<AttributeInfo>, ClassFormatError>)
    ensures
        match r {
            Ok(converted) => converted_attributes(
                constants_view(constant_pool@),
                crate::class::structs::attributes_view(attributes@),
            ) == Ok::<Seq<AttributeInfoView>, int>(attribute_infos_view(converted@)),
            Err(e) => converted_attributes(
                constants_view(constant_pool@),
                crate::class::structs::attributes_view(attributes@),
            ) == Err::<Seq<AttributeInfoView>, int>(e.offset as int),
        },
{
    let ghost pool = constants_view(constant_pool@);
    let ghost all = crate::class::structs::attributes_view(attributes@);
    let mut converted: Vec<AttributeInfo> = Vec::new();
    let mut i: usize = 0;
    assert(all.subrange(0, all.len() as int) =~= all);
    while i < attributes.len()
        invariant
            i <= attributes.len(),
            converted.len() == i,
            pool == constants_view(constant_pool@),
            all == crate::class::structs::attributes_view(attributes@),
            front_of(attribute_infos_view(converted@), converted_attributes(pool, all.subrange(i as int, all.len() as int)))
                == converted_attributes(pool, all),
        decreases attributes.len() - i,
    {
        let ghost before = attribute_infos_view(converted@);
        let ghost rest_input = all.subrange(i as int, all.len() as int);
        assert(rest_input[0] == attributes@[i as int]@);
        assert(rest_input.drop_first() =~= all.subrange(i + 1, all.len() as int));
        match convert_attribute(constant_pool, &attributes[i]) {
            Ok(attribute) => {
                converted.push(attribute);
                proof {
                    assert(attribute_infos_view(converted@) =~= before.push(attribute.model()));
                    let rest = converted_attributes(pool, all.subrange(i + 1, all.len() as int));
                    if rest is Ok {
                        assert(before + (seq![attribute.model()] + rest->Ok_0)
                            =~= attribute_infos_view(converted@) + rest->Ok_0);
                    }
                }
                i += 1;
            },
            Err(e) => {
                return Err(e);
            },
        }
    }
    assert(attribute_infos_view(converted@) + Seq::<AttributeInfoView>::empty()
        =~= attribute_infos_view(converted@));
    Ok(converted)
}

/// A list read so far, with what reading the rest gives behind it.
pub open spec fn front_of<T>(front: Seq<T>, rest: Result<Seq<T>, int>) -> Result<Seq<T>, int> {
    match rest {
        Ok(more) => Ok(front + more),
        Err(offset) => Err(offset),
    }
}

} // verus!

//! The structure of a class file as it is decoded: indices into the
//! constant pool are still indices, and attributes are still bytes.

pub mod java_str;

use crate::class::structs::java_str::JavaStr;
use crate::consts::{ClassAccessFlag, FieldAccessFlag, MethodAccessFlag};
use vstd::prelude::*;

verus! {

/// The tags of the constant-pool entries.
pub const TAG_UTF8: u8 = 1;
pub const TAG_INTEGER: u8 = 3;
pub const TAG_FLOAT: u8 = 4;
pub const TAG_LONG: u8 = 5;
pub const TAG_DOUBLE: u8 = 6;
pub const TAG_CLASS: u8 = 7;
pub const TAG_STRING: u8 = 8;
pub const TAG_FIELDREF: u8 = 9;
pub const TAG_METHODREF: u8 = 10;
pub const TAG_INTERFACE_METHODREF: u8 = 11;
pub const TAG_NAME_AND_TYPE: u8 = 12;
pub const TAG_METHOD_HANDLE: u8 = 15;
pub const TAG_METHOD_TYPE: u8 = 16;
pub const TAG_DYNAMIC: u8 = 17;
pub const TAG_INVOKE_DYNAMIC: u8 = 18;
pub const TAG_MODULE: u8 = 19;
pub const TAG_PACKAGE: u8 = 20;
/// The tag of no entry in a file: it marks the slot behind a long or a
/// double.
pub const TAG_EMPTY: u8 = 0;

/// One entry of the constant pool.
#[derive(Debug)]
pub enum ConstantPoolInfo {
    Utf8(JavaStr),
    Integer(i32),
    /// The bits of a float.
    Float(u32),
    Long(i64),
    /// The bits of a double.
    Double(u64),
    Class { name_index: u16 },
    String { string_index: u16 },
    Fieldref { class_index: u16, name_and_type_index: u16 },
    Methodref { class_index: u16, name_and_type_index: u16 },
    InterfaceMethodref { class_index: u16, name_and_type_index: u16 },
    NameAndType { name_index: u16, descriptor_index: u16 },
    MethodHandle { reference_kind: u8, reference_index: u16 },
    MethodType { descriptor_index: u16 },
    Dynamic { bootstrap_method_attr_index: u16, name_and_type_index: u16 },
    InvokeDynamic { bootstrap_method_attr_index: u16, name_and_type_index: u16 },
    Module { name_index: u16 },
    Package { name_index: u16 },
    /// The slot behind a long or a double.
    Empty,
}

/// A constant-pool entry as the file writes it: a tag and then a text, one
/// number or two numbers.
pub struct ConstantView {
    pub tag: u8,
    pub first: int,
    pub second: int,
    pub text: Seq<u8>,
}

impl ConstantView {
    /// Long and double: the entries that fill two slots of the pool.
    pub open spec fn is_wide(self) -> bool {
        self.tag == TAG_LONG || self.tag == TAG_DOUBLE
    }

    pub open spec fn empty() -> ConstantView {
        ConstantView { tag: TAG_EMPTY, first: 0, second: 0, text: Seq::empty() }
    }

    pub open spec fn number(tag: u8, first: int) -> ConstantView {
        ConstantView { tag, first, second: 0, text: Seq::empty() }
    }

    pub open spec fn pair(tag: u8, first: int, second: int) -> ConstantView {
        ConstantView { tag, first, second, text: Seq::empty() }
    }
}

impl View for ConstantPoolInfo {
    type V = ConstantView;

    open spec fn view(&self) -> ConstantView {
        match self {
            ConstantPoolInfo::Utf8(s) => ConstantView {
                tag: TAG_UTF8,
                first: 0,
                second: 0,
                text: s@,
            },
            ConstantPoolInfo::Integer(v) => ConstantView::number(TAG_INTEGER, *v as int),
            ConstantPoolInfo::Float(v) => ConstantView::number(TAG_FLOAT, *v as int),
            ConstantPoolInfo::Long(v) => ConstantView::number(TAG_LONG, *v as int),
            ConstantPoolInfo::Double(v) => ConstantView::number(TAG_DOUBLE, *v as int),
            ConstantPoolInfo::Class { name_index } => ConstantView::number(
                TAG_CLASS,
                *name_index as int,
            ),
            ConstantPoolInfo::String { string_index } => ConstantView::number(
                TAG_STRING,
                *string_index as int,
            ),
            ConstantPoolInfo::Fieldref { class_index, name_and_type_index } => ConstantView::pair(
                TAG_FIELDREF,
                *class_index as int,
                *name_and_type_index as int,
            ),
            ConstantPoolInfo::Methodref { class_index, name_and_type_index } => ConstantView::pair(
                TAG_METHODREF,
                *class_index as int,
                *name_and_type_index as int,
            ),
            ConstantPoolInfo::InterfaceMethodref {
                class_index,
                name_and_type_index,
            } => ConstantView::pair(
                TAG_INTERFACE_METHODREF,
                *class_index as int,
                *name_and_type_index as int,
            ),
            ConstantPoolInfo::NameAndType { name_index, descriptor_index } => ConstantView::pair(
                TAG_NAME_AND_TYPE,
                *name_index as int,
                *descriptor_index as int,
            ),
            ConstantPoolInfo::MethodHandle { reference_kind, reference_index } => ConstantView::pair(
                TAG_METHOD_HANDLE,
                *reference_kind as int,
                *reference_index as int,
            ),
            ConstantPoolInfo::MethodType { descriptor_index } => ConstantView::number(
                TAG_METHOD_TYPE,
                *descriptor_index as int,
            ),
            ConstantPoolInfo::Dynamic {
                bootstrap_method_attr_index,
                name_and_type_index,
            } => ConstantView::pair(
                TAG_DYNAMIC,
                *bootstrap_method_attr_index as int,
                *name_and_type_index as int,
            ),
            ConstantPoolInfo::InvokeDynamic {
                bootstrap_method_attr_index,
                name_and_type_index,
            } => ConstantView::pair(
                TAG_INVOKE_DYNAMIC,
                *bootstrap_method_attr_index as int,
                *name_and_type_index as int,
            ),
            ConstantPoolInfo::Module { name_index } => ConstantView::number(
                TAG_MODULE,
                *name_index as int,
            ),
            ConstantPoolInfo::Package { name_index } => ConstantView::number(
                TAG_PACKAGE,
                *name_index as int,
            ),
            ConstantPoolInfo::Empty => ConstantView::empty(),
        }
    }
}

/// An attribute as it stands in the file: the index of its name and its
/// bytes.
#[derive(Debug)]
pub struct AttributeInfo {
    pub attribute_name_index: u16,
    pub info: Vec<u8>,
}

pub struct AttributeView {
    pub attribute_name_index: u16,
    pub info: Seq<u8>,
}

impl View for AttributeInfo {
    type V = AttributeView;

    open spec fn view(&self) -> AttributeView {
        AttributeView { attribute_name_index: self.attribute_name_index, info: self.info@ }
    }
}

pub open spec fn attributes_view(attributes: Seq<AttributeInfo>) -> Seq<AttributeView> {
    attributes.map_values(|a: AttributeInfo| a@)
}

#[derive(Debug)]
pub struct FieldInfo {
    pub access_flags: FieldAccessFlag,
    pub name_index: u16,
    pub descriptor_index: u16,
    pub attributes: Vec<AttributeInfo>,
}

#[derive(Debug)]
pub struct MethodInfo {
    pub access_flags: MethodAccessFlag,
    pub name_index: u16,
    pub descriptor_index: u16,
    pub attributes: Vec<AttributeInfo>,
}

/// A field or a method as it stands in the file.
pub struct MemberView {
    pub access_flags: u16,
    pub name_index: u16,
    pub descriptor_index: u16,
    pub attributes: Seq<AttributeView>,
}

impl View for FieldInfo {
    type V = MemberView;

    open spec fn view(&self) -> MemberView {
        MemberView {
            access_flags: self.access_flags.bits,
            name_index: self.name_index,
            descriptor_index: self.descriptor_index,
            attributes: attributes_view(self.attributes@),
        }
    }
}

impl View for MethodInfo {
    type V = MemberView;

    open spec fn view(&self) -> MemberView {
        MemberView {
            access_flags: self.access_flags.bits,
            name_index: self.name_index,
            descriptor_index: self.descriptor_index,
            attributes: attributes_view(self.attributes@),
        }
    }
}

/// A decoded class file.
#[derive(Debug)]
pub struct Class {
    pub minor_version: u16,
    pub major_version: u16,
    /// Entry `i` of the file, counted from 1, is `constant_pool[i - 1]`.
    pub constant_pool: Vec<ConstantPoolInfo>,
    pub access_flags: ClassAccessFlag,
    pub this_class: u16,
    /// 0 where the class has no super-class.
    pub super_class: u16,
    pub interfaces: Vec<u16>,
    pub fields: Vec<FieldInfo>,
    pub methods: Vec<MethodInfo>,
    pub attributes: Vec<AttributeInfo>,
}

pub struct ClassView {
    pub minor_version: u16,
    pub major_version: u16,
    pub constant_pool: Seq<ConstantView>,
    pub access_flags: u16,
    pub this_class: u16,
    pub super_class: u16,
    pub interfaces: Seq<u16>,
    pub fields: Seq<MemberView>,
    pub methods: Seq<MemberView>,
    pub attributes: Seq<AttributeView>,
}

pub open spec fn pool_view(pool: Seq<ConstantPoolInfo>) -> Seq<ConstantView> {
    pool.map_values(|c: ConstantPoolInfo| c@)
}

pub open spec fn fields_view(fields: Seq<FieldInfo>) -> Seq<MemberView> {
    fields.map_values(|f: FieldInfo| f@)
}

pub open spec fn methods_view(methods: Seq<MethodInfo>) -> Seq<MemberView> {
    methods.map_values(|m: MethodInfo| m@)
}

impl View for Class {
    type V = ClassView;

    open spec fn view(&self) -> ClassView {
        ClassView {
            minor_version: self.minor_version,
            major_version: self.major_version,
            constant_pool: pool_view(self.constant_pool@),
            access_flags: self.access_flags.bits,
            this_class: self.this_class,
            super_class: self.super_class,
            interfaces: self.interfaces@,
            fields: fields_view(self.fields@),
            methods: methods_view(self.methods@),
            attributes: attributes_view(self.attributes@),
        }
    }
}

} // verus!

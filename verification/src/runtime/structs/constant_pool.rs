//! The constant pool of a linked class: names are resolved to text, and the
//! references to fields and methods remember what they were resolved to.

use crate::class::structs::java_str::JavaStr;
use crate::descriptor::{FieldDescriptor, FieldTypeView, MethodDescriptor, MethodDescriptorView};
use crate::runtime::structs::MethodInfo;
use vstd::prelude::*;

verus! {

/// What a field reference was resolved to: a slot of the class that holds the
/// reference, or a slot of another class.
#[derive(Debug, Clone, Copy, PartialEq, Eq, Structural)]
pub enum FieldResolve {
    InThisClass(usize),
    OtherClass { class: usize, index: usize },
}

impl FieldResolve {
    pub fn get_index(&self) -> (index: usize)
        ensures
            index == match *self {
                FieldResolve::InThisClass(index) => index,
                FieldResolve::OtherClass { index, .. } => index,
            },
    {
        match self {
            FieldResolve::InThisClass(index) => *index,
            FieldResolve::OtherClass { index, .. } => *index,
        }
    }
}

/// What a method reference was resolved to: a method of the class that
/// holds the reference or of another class, and its row in the vtable, or
/// -1 where the method is never dispatched through the vtable.
#[derive(Debug, Clone, Copy, PartialEq, Eq, Structural)]
pub enum MethodResolve {
    InThisClass { index: usize, vtable_index: isize },
    OtherClass { class: usize, index: usize, vtable_index: isize },
}

impl MethodResolve {
    pub fn get_index(&self) -> (index: usize)
        ensures
            index == match *self {
                MethodResolve::InThisClass { index, .. } => index,
                MethodResolve::OtherClass { index, .. } => index,
            },
    {
        match self {
            MethodResolve::InThisClass { index, .. } => *index,
            MethodResolve::OtherClass { index, .. } => *index,
        }
    }

    /// The class of the method, its index among the class's methods and its
    /// row in the vtable, for a reference held by `this_class`.
    pub fn get_class_and_index(&self, this_class: usize) -> (found: (usize, usize, isize))
        ensures
            found == match *self {
                MethodResolve::InThisClass { index, vtable_index } => (
                    this_class,
                    index,
                    vtable_index,
                ),
                MethodResolve::OtherClass { class, index, vtable_index } => (
                    class,
                    index,
                    vtable_index,
                ),
            },
    {
        match self {
            MethodResolve::InThisClass { index, vtable_index } => (
                this_class,
                *index,
                *vtable_index,
            ),
            MethodResolve::OtherClass { class, index, vtable_index } => (
                *class,
                *index,
                *vtable_index,
            ),
        }
    }
}

/// A reference to a class: its binary name, and the class once it is known.
#[derive(Debug)]
pub struct CpClassInfo {
    pub name: String,
    pub class: Option<usize>,
}

impl CpClassInfo {
    /// Remembers the class. It is set once: a reference that knows its class
    /// keeps it.
    pub fn set_class(&mut self, class: usize)
        requires
            old(self).class.is_none(),
        ensures
            final(self).class == Some(class),
            final(self).name == old(self).name,
    {
        self.class = Some(class);
    }
}

impl Clone for CpClassInfo {
    /// A copy with the same name that does not know its class yet.
    fn clone(&self) -> (copy: Self)
        ensures
            copy.name@ == self.name@,
            copy.class.is_none(),
    {
        CpClassInfo { name: self.name.clone(), class: None }
    }
}

#[derive(Debug)]
pub struct CpNameAndTypeInfo<T> {
    pub name: JavaStr,
    pub descriptor: T,
}

#[derive(Debug)]
pub struct Fieldref {
    pub class_name: String,
    pub name_and_type: CpNameAndTypeInfo<FieldDescriptor>,
    pub resolve: Option<FieldResolve>,
}

impl Fieldref {
    pub fn is_resolved(&self) -> (yes: bool)
        ensures
            yes == self.resolve.is_some(),
    {
        self.resolve.is_some()
    }
}

#[derive(Debug)]
pub struct Methodref {
    pub class_name: String,
    pub name_and_type: CpNameAndTypeInfo<MethodDescriptor>,
    pub resolve: Option<MethodResolve>,
}

impl Methodref {
    /// Whether the method has the name and the descriptor that the
    /// reference asks for.
    pub fn is_signature_equal(&self, method_info: &MethodInfo) -> (same: bool)
        ensures
            same == (self.name_and_type.name@ == method_info.name@
                && self.name_and_type.descriptor@ == method_info.descriptor@),
    {
        self.name_and_type.name.same_str(&method_info.name)
            && self.name_and_type.descriptor.same_descriptor(&method_info.descriptor)
    }
}

#[derive(Debug)]
pub enum ConstantPoolInfo {
    Utf8(JavaStr),
    Integer(i32),
    /// The bits of a float.
    Float(u32),
    Long(i64),
    /// The bits of a double.
    Double(u64),
    Class(CpClassInfo),
    String(JavaStr),
    Fieldref(Fieldref),
    Methodref(Methodref),
    InterfaceMethodref(Methodref),
    NameAndType(CpNameAndTypeInfo<JavaStr>),
    MethodHandle { reference_kind: u8, reference_index: u16 },
    MethodType { descriptor_index: u16 },
    Dynamic { bootstrap_method_attr_index: u16, name_and_type_index: u16 },
    InvokeDynamic { bootstrap_method_attr_index: u16, name_and_type_index: u16 },
    Module(JavaStr),
    Package(JavaStr),
    /// The slot behind a long or a double.
    Empty,
}

#[allow(inconsistent_fields)]
pub enum ConstantInfoView {
    Utf8(Seq<u8>),
    Integer(i32),
    Float(u32),
    Long(i64),
    Double(u64),
    Class { name: Seq<char>, class: Option<usize> },
    String(Seq<u8>),
    Fieldref {
        class_name: Seq<char>,
        name: Seq<u8>,
        descriptor: FieldTypeView,
        resolve: Option<FieldResolve>,
    },
    Methodref {
        class_name: Seq<char>,
        name: Seq<u8>,
        descriptor: MethodDescriptorView,
        resolve: Option<MethodResolve>,
    },
    InterfaceMethodref {
        class_name: Seq<char>,
        name: Seq<u8>,
        descriptor: MethodDescriptorView,
        resolve: Option<MethodResolve>,
    },
    NameAndType { name: Seq<u8>, descriptor: Seq<u8> },
    MethodHandle { reference_kind: u8, reference_index: u16 },
    MethodType { descriptor_index: u16 },
    Dynamic { bootstrap_method_attr_index: u16, name_and_type_index: u16 },
    InvokeDynamic { bootstrap_method_attr_index: u16, name_and_type_index: u16 },
    Module(Seq<u8>),
    Package(Seq<u8>),
    Empty,
}

impl View for ConstantPoolInfo {
    type V = ConstantInfoView;

    open spec fn view(&self) -> ConstantInfoView {
        match self {
            ConstantPoolInfo::Utf8(s) => ConstantInfoView::Utf8(s@),
            ConstantPoolInfo::Integer(v) => ConstantInfoView::Integer(*v),
            ConstantPoolInfo::Float(v) => ConstantInfoView::Float(*v),
            ConstantPoolInfo::Long(v) => ConstantInfoView::Long(*v),
            ConstantPoolInfo::Double(v) => ConstantInfoView::Double(*v),
            ConstantPoolInfo::Class(info) => ConstantInfoView::Class {
                name: info.name@,
                class: info.class,
            },
            ConstantPoolInfo::String(s) => ConstantInfoView::String(s@),
            ConstantPoolInfo::Fieldref(r) => ConstantInfoView::Fieldref {
                class_name: r.class_name@,
                name: r.name_and_type.name@,
                descriptor: r.name_and_type.descriptor@,
                resolve: r.resolve,
            },
            ConstantPoolInfo::Methodref(r) => ConstantInfoView::Methodref {
                class_name: r.class_name@,
                name: r.name_and_type.name@,
                descriptor: r.name_and_type.descriptor@,
                resolve: r.resolve,
            },
            ConstantPoolInfo::InterfaceMethodref(r) => ConstantInfoView::InterfaceMethodref {
                class_name: r.class_name@,
                name: r.name_and_type.name@,
                descriptor: r.name_and_type.descriptor@,
                resolve: r.resolve,
            },
            ConstantPoolInfo::NameAndType(n) => ConstantInfoView::NameAndType {
                name: n.name@,
                descriptor: n.descriptor@,
            },
            ConstantPoolInfo::MethodHandle {
                reference_kind,
                reference_index,
            } => ConstantInfoView::MethodHandle {
                reference_kind: *reference_kind,
                reference_index: *reference_index,
            },
            ConstantPoolInfo::MethodType { descriptor_index } => ConstantInfoView::MethodType {
                descriptor_index: *descriptor_index,
            },
            ConstantPoolInfo::Dynamic {
                bootstrap_method_attr_index,
                name_and_type_index,
            } => ConstantInfoView::Dynamic {
                bootstrap_method_attr_index: *bootstrap_method_attr_index,
                name_and_type_index: *name_and_type_index,
            },
            ConstantPoolInfo::InvokeDynamic {
                bootstrap_method_attr_index,
                name_and_type_index,
            } => ConstantInfoView::InvokeDynamic {
                bootstrap_method_attr_index: *bootstrap_method_attr_index,
                name_and_type_index: *name_and_type_index,
            },
            ConstantPoolInfo::Module(s) => ConstantInfoView::Module(s@),
            ConstantPoolInfo::Package(s) => ConstantInfoView::Package(s@),
            ConstantPoolInfo::Empty => ConstantInfoView::Empty,
        }
    }
}

pub open spec fn constants_view(pool: Seq<ConstantPoolInfo>) -> Seq<ConstantInfoView> {
    pool.map_values(|c: ConstantPoolInfo| c@)
}

} // verus!

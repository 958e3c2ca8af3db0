//! The data of the running machine.

pub mod attributes;
pub mod constant_pool;
pub mod copy;
pub mod exception;
pub mod object;

use crate::class::structs::java_str::JavaStr;
use crate::consts::{ClassAccessFlag, FieldAccessFlag, MethodAccessFlag};
use crate::descriptor::{
    FieldDescriptor, FieldTypeView, MethodDescriptor, MethodDescriptorView,
};
use crate::runtime::interpreter::variable::Variable;
use crate::runtime::structs::attributes::{
    attribute_infos_view, AttributeInfo, AttributeInfoView,
};
use crate::runtime::structs::constant_pool::{constants_view, ConstantInfoView, ConstantPoolInfo};
use vstd::prelude::*;

verus! {

/// How far the initialization of a class has come.
#[derive(Debug, Clone, Copy, PartialEq, Eq, Structural)]
pub enum ClinitStatus {
    NotInit,
    /// The thread with this identifier is running the initializer.
    Initializing { thread: usize },
    Init,
    /// The initializer has thrown.
    Failed,
}

/// Where the method of a vtable row is found.
#[derive(Debug, Clone, Copy, PartialEq, Eq, Structural)]
pub enum VtableIndex {
    InThisClass(usize),
    OtherClass { class: usize, index: usize },
    OtherInterface { class: usize, index: usize },
}

/// One row of a vtable: a virtual method by name and descriptor, the class
/// that first declared it, and where the method that a call reaches is
/// found.
#[derive(Debug)]
pub struct VtableEntry {
    pub root_class: Option<usize>,
    pub name: JavaStr,
    pub descriptor: MethodDescriptor,
    pub index: VtableIndex,
}

pub struct VtableEntryView {
    pub root_class: Option<usize>,
    pub name: Seq<u8>,
    pub descriptor: MethodDescriptorView,
    pub index: VtableIndex,
}

impl View for VtableEntry {
    type V = VtableEntryView;

    open spec fn view(&self) -> VtableEntryView {
        VtableEntryView {
            root_class: self.root_class,
            name: self.name@,
            descriptor: self.descriptor@,
            index: self.index,
        }
    }
}

impl Clone for VtableEntry {
    fn clone(&self) -> (copy: Self)
        ensures
            copy@ == self@,
    {
        VtableEntry {
            root_class: self.root_class,
            name: self.name.clone(),
            descriptor: self.descriptor.clone(),
            index: self.index,
        }
    }
}

pub open spec fn vtable_view(vtable: Seq<VtableEntry>) -> Seq<VtableEntryView> {
    vtable.map_values(|e: VtableEntry| e@)
}

#[derive(Debug)]
pub struct FieldInfo {
    pub access_flags: FieldAccessFlag,
    pub name: JavaStr,
    pub descriptor: FieldDescriptor,
    pub attributes: Vec<AttributeInfo>,
    /// The first slot of the field: among the instance slots of an object,
    /// or among the static slots of the class.
    pub index: usize,
}

pub struct FieldInfoView {
    pub access_flags: u16,
    pub name: Seq<u8>,
    pub descriptor: FieldTypeView,
    pub attributes: Seq<AttributeInfoView>,
    pub index: usize,
}

impl View for FieldInfo {
    type V = FieldInfoView;

    open spec fn view(&self) -> FieldInfoView {
        FieldInfoView {
            access_flags: self.access_flags.bits,
            name: self.name@,
            descriptor: self.descriptor@,
            attributes: attribute_infos_view(self.attributes@),
            index: self.index,
        }
    }
}

pub open spec fn field_infos_view(fields: Seq<FieldInfo>) -> Seq<FieldInfoView> {
    fields.map_values(|f: FieldInfo| f@)
}

#[derive(Debug)]
pub struct MethodInfo {
    pub access_flags: MethodAccessFlag,
    pub name: JavaStr,
    pub descriptor: MethodDescriptor,
    pub attributes: Vec<AttributeInfo>,
}

pub struct MethodInfoView {
    pub access_flags: u16,
    pub name: Seq<u8>,
    pub descriptor: MethodDescriptorView,
    pub attributes: Seq<AttributeInfoView>,
}

impl View for MethodInfo {
    type V = MethodInfoView;

    open spec fn view(&self) -> MethodInfoView {
        MethodInfoView {
            access_flags: self.access_flags.bits,
            name: self.name@,
            descriptor: self.descriptor@,
            attributes: attribute_infos_view(self.attributes@),
        }
    }
}

pub open spec fn method_infos_view(methods: Seq<MethodInfo>) -> Seq<MethodInfoView> {
    methods.map_values(|m: MethodInfo| m@)
}

/// A class of the running machine. Other classes are named by their
/// identifiers: their places in the loader's list of classes.
#[derive(Debug)]
pub struct Class {
    /// Entry `i` of the class file, counted from 1, is
    /// `constant_pool[i - 1]`.
    pub constant_pool: Vec<ConstantPoolInfo>,
    pub access_flags: ClassAccessFlag,
    /// The binary name, with `/` between its parts; one `[` in front for each
    /// dimension of an array class.
    pub class_name: String,
    pub super_class: Option<usize>,
    pub interfaces: Vec<usize>,
    pub static_fields_info: Vec<FieldInfo>,
    /// The fields of the super-class, as the super-class lays them out, and
    /// behind them the fields that this class declares.
    pub instance_fields_info: Vec<FieldInfo>,
    pub methods: Vec<MethodInfo>,
    pub attributes: Vec<AttributeInfo>,
    pub static_fields: Vec<Variable>,
    /// The class of the elements, for an array of references.
    pub array_element_type: Option<usize>,
    pub clinit_call: ClinitStatus,
    pub vtable: Vec<VtableEntry>,
}

pub struct ClassView {
    pub constant_pool: Seq<ConstantInfoView>,
    pub access_flags: u16,
    pub class_name: Seq<char>,
    pub super_class: Option<usize>,
    pub interfaces: Seq<usize>,
    pub static_fields_info: Seq<FieldInfoView>,
    pub instance_fields_info: Seq<FieldInfoView>,
    pub methods: Seq<MethodInfoView>,
    pub attributes: Seq<AttributeInfoView>,
    pub static_fields: Seq<Variable>,
    pub array_element_type: Option<usize>,
    pub clinit_call: ClinitStatus,
    pub vtable: Seq<VtableEntryView>,
}

impl View for Class {
    type V = ClassView;

    open spec fn view(&self) -> ClassView {
        ClassView {
            constant_pool: constants_view(self.constant_pool@),
            access_flags: self.access_flags.bits,
            class_name: self.class_name@,
            super_class: self.super_class,
            interfaces: self.interfaces@,
            static_fields_info: field_infos_view(self.static_fields_info@),
            instance_fields_info: field_infos_view(self.instance_fields_info@),
            methods: method_infos_view(self.methods@),
            attributes: attribute_infos_view(self.attributes@),
            static_fields: self.static_fields@,
            array_element_type: self.array_element_type,
            clinit_call: self.clinit_call,
            vtable: vtable_view(self.vtable@),
        }
    }
}

/// The index of the first `/` from the end, or -1 where the name has none.
pub open spec fn last_slash(name: Seq<char>, n: int) -> int
    decreases n,
{
    if n <= 0 {
        -1
    } else if name[n - 1] == '/' {
        n - 1
    } else {
        last_slash(name, n - 1)
    }
}

/// The package of a class: its binary name up to the last `/`, or nothing
/// where the name has none.
pub open spec fn package_of(name: Seq<char>) -> Seq<char> {
    if last_slash(name, name.len() as int) < 0 {
        Seq::empty()
    } else {
        name.subrange(0, last_slash(name, name.len() as int))
    }
}

/// Whether the name is the name of an array class.
pub open spec fn is_array_name(name: Seq<char>) -> bool {
    name.len() > 0 && name[0] == '['
}

/// The package of the class with this binary name.
pub fn package_name_of(class_name: &str) -> (package: &str)
    ensures
        package@ == package_of(class_name@),
{
    let len = class_name.unicode_len();
    let mut n = len;
    while n > 0 && class_name.get_char(n - 1) != '/'
        invariant
            n <= len,
            len == class_name@.len(),
            last_slash(class_name@, len as int) == last_slash(class_name@, n as int),
        decreases n,
    {
        n -= 1;
    }
    if n == 0 {
        proof {
            reveal_strlit("");
        }
        ""
    } else {
        class_name.substring_char(0, n - 1)
    }
}

impl Class {
    /// The method with this name and these parameter types.
    pub fn resolve_method(&self, name: &JavaStr, param_descriptor: &Vec<crate::descriptor::FieldType>) -> (found: Option<usize>)
        ensures
            match found {
                Some(i) => i < self.methods.len() && self.methods[i as int].name@ == name@
                    && self.methods[i as int].descriptor@.parameters
                    == crate::descriptor::types_view(param_descriptor@) && forall|k: int|
                    0 <= k < i ==> !(self.methods[k].name@ == name@
                        && self.methods[k].descriptor@.parameters == crate::descriptor::types_view(
                        param_descriptor@,
                    )),
                None => forall|k: int|
                    0 <= k < self.methods.len() ==> !(self.methods[k].name@ == name@
                        && self.methods[k].descriptor@.parameters == crate::descriptor::types_view(
                        param_descriptor@,
                    )),
            },
    {
        let mut i: usize = 0;
        while i < self.methods.len()
            invariant
                i <= self.methods.len(),
                forall|k: int|
                    0 <= k < i ==> !(self.methods[k].name@ == name@
                        && self.methods[k].descriptor@.parameters == crate::descriptor::types_view(
                        param_descriptor@,
                    )),
            decreases self.methods.len() - i,
        {
            if self.methods[i].name.same_str(name) && crate::descriptor::same_types(
                &self.methods[i].descriptor.parameters,
                param_descriptor,
            ) {
                return Some(i);
            }
            i += 1;
        }
        None
    }

    /// The constant with index `index`, counted from 1.
    pub fn get_constant(&self, index: u16) -> (constant: &ConstantPoolInfo)
        requires
            1 <= index <= self.constant_pool.len(),
        ensures
            *constant == self.constant_pool[index - 1],
    {
        &self.constant_pool[index as usize - 1]
    }

    pub fn get_static_field(&self, index: usize) -> (value: Variable)
        requires
            index < self.static_fields.len(),
        ensures
            value == self.static_fields[index as int],
    {
        self.static_fields[index]
    }

    pub fn set_static_field(&mut self, index: usize, value: Variable)
        requires
            index < old(self).static_fields.len(),
        ensures
            final(self).static_fields@ == old(self).static_fields@.update(index as int, value),
            final(self)@ == (ClassView { static_fields: final(self).static_fields@, ..old(self)@ }),
    {
        self.static_fields.set(index, value);
    }

    pub fn is_array(&self) -> (yes: bool)
        ensures
            yes == is_array_name(self.class_name@),
    {
        let name = self.class_name.as_str();
        name.unicode_len() > 0 && name.get_char(0) == '['
    }

    pub fn package_name(&self) -> (package: &str)
        ensures
            package@ == package_of(self.class_name@),
    {
        package_name_of(self.class_name.as_str())
    }
}

} // verus!

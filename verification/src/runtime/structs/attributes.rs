//! Attributes of classes, fields, methods and code, as the machine keeps
//! them.

use crate::class::structs::java_str::JavaStr;
use crate::descriptor::{
    return_type_view, FieldDescriptor, FieldTypeView, ReturnType,
};
use vstd::prelude::*;

verus! {

/// A constant value of a field or of an annotation.
#[derive(Debug)]
pub enum Const {
    Byte(i32),
    Char(i32),
    /// The bits of a double.
    Double(u64),
    /// The bits of a float.
    Float(u32),
    Int(i32),
    Long(i64),
    Short(i32),
    Boolean(i32),
    String(JavaStr),
}

pub enum ConstView {
    Byte(i32),
    Char(i32),
    Double(u64),
    Float(u32),
    Int(i32),
    Long(i64),
    Short(i32),
    Boolean(i32),
    String(Seq<u8>),
}

impl View for Const {
    type V = ConstView;

    open spec fn view(&self) -> ConstView {
        match self {
            Const::Byte(v) => ConstView::Byte(*v),
            Const::Char(v) => ConstView::Char(*v),
            Const::Double(v) => ConstView::Double(*v),
            Const::Float(v) => ConstView::Float(*v),
            Const::Int(v) => ConstView::Int(*v),
            Const::Long(v) => ConstView::Long(*v),
            Const::Short(v) => ConstView::Short(*v),
            Const::Boolean(v) => ConstView::Boolean(*v),
            Const::String(s) => ConstView::String(s@),
        }
    }
}

impl Const {
    /// The int constant as a byte constant.
    pub fn into_byte(self) -> (c: Self)
        requires
            self is Int,
        ensures
            c@ == ConstView::Byte(self->Int_0),
    {
        match self {
            Const::Int(v) => Const::Byte(v),
            other => other,
        }
    }

    /// The int constant as a char constant.
    pub fn into_char(self) -> (c: Self)
        requires
            self is Int,
        ensures
            c@ == ConstView::Char(self->Int_0),
    {
        match self {
            Const::Int(v) => Const::Char(v),
            other => other,
        }
    }

    /// The int constant as a short constant.
    pub fn into_short(self) -> (c: Self)
        requires
            self is Int,
        ensures
            c@ == ConstView::Short(self->Int_0),
    {
        match self {
            Const::Int(v) => Const::Short(v),
            other => other,
        }
    }

    /// The int constant as a boolean constant.
    pub fn into_boolean(self) -> (c: Self)
        requires
            self is Int,
        ensures
            c@ == ConstView::Boolean(self->Int_0),
    {
        match self {
            Const::Int(v) => Const::Boolean(v),
            other => other,
        }
    }
}

#[derive(Debug, Clone, Copy, PartialEq, Eq, Structural)]
pub struct LineNumberTableItem {
    pub start_pc: u16,
    pub line_number: u16,
}

/// One row of a method's handler table: the handler at `handler_pc` takes
/// what is thrown at a program counter from `start_pc` up to, not
/// including, `end_pc`, if it is of the class named (or of any class, where
/// none is named).
#[derive(Debug)]
pub struct ExceptionTableItem {
    pub start_pc: u16,
    pub end_pc: u16,
    pub handler_pc: u16,
    pub catch_type: Option<String>,
}

pub struct ExceptionTableItemView {
    pub start_pc: u16,
    pub end_pc: u16,
    pub handler_pc: u16,
    pub catch_type: Option<Seq<char>>,
}

impl View for ExceptionTableItem {
    type V = ExceptionTableItemView;

    open spec fn view(&self) -> ExceptionTableItemView {
        ExceptionTableItemView {
            start_pc: self.start_pc,
            end_pc: self.end_pc,
            handler_pc: self.handler_pc,
            catch_type: match self.catch_type {
                Some(name) => Some(name@),
                None => None,
            },
        }
    }
}

impl Clone for ExceptionTableItem {
    fn clone(&self) -> (copy: Self)
        ensures
            copy@ == self@,
    {
        ExceptionTableItem {
            start_pc: self.start_pc,
            end_pc: self.end_pc,
            handler_pc: self.handler_pc,
            catch_type: match &self.catch_type {
                Some(name) => Some(name.clone()),
                None => None,
            },
        }
    }
}

pub open spec fn exception_table_view(table: Seq<ExceptionTableItem>) -> Seq<
    ExceptionTableItemView,
> {
    table.map_values(|item: ExceptionTableItem| item@)
}

/// A copy of a handler table.
pub fn clone_exception_table(table: &Vec<ExceptionTableItem>) -> (copy: Vec<ExceptionTableItem>)
    ensures
        exception_table_view(copy@) == exception_table_view(table@),
{
    let mut copy: Vec<ExceptionTableItem> = Vec::new();
    let mut i: usize = 0;
    while i < table.len()
        invariant
            i <= table.len(),
            copy.len() == i,
            forall|k: int| 0 <= k < i ==> copy@[k]@ == table@[k]@,
        decreases table.len() - i,
    {
        copy.push(table[i].clone());
        i += 1;
    }
    assert(exception_table_view(copy@) =~= exception_table_view(table@));
    copy
}

#[derive(Debug)]
pub struct LocalVariable {
    pub start_pc: u16,
    pub length: u16,
    pub name: JavaStr,
    pub descriptor: FieldDescriptor,
    pub index: u16,
}

pub struct LocalVariableView {
    pub start_pc: u16,
    pub length: u16,
    pub name: Seq<u8>,
    pub descriptor: FieldTypeView,
    pub index: u16,
}

impl View for LocalVariable {
    type V = LocalVariableView;

    open spec fn view(&self) -> LocalVariableView {
        LocalVariableView {
            start_pc: self.start_pc,
            length: self.length,
            name: self.name@,
            descriptor: self.descriptor@,
            index: self.index,
        }
    }
}

/// A stack-map frame. The table is for the verifier alone; nothing of it is
/// kept.
#[derive(Debug, Clone, Copy, PartialEq, Eq, Structural)]
pub struct StackMapFrame {
}

#[derive(Debug)]
pub struct ModuleExport {
    pub exports: JavaStr,
    pub exports_flags: u16,
    pub exports_to: Vec<JavaStr>,
}

pub struct ModuleExportView {
    pub exports: Seq<u8>,
    pub exports_flags: u16,
    pub exports_to: Seq<Seq<u8>>,
}

pub open spec fn names_view(names: Seq<JavaStr>) -> Seq<Seq<u8>> {
    names.map_values(|name: JavaStr| name@)
}

impl View for ModuleExport {
    type V = ModuleExportView;

    open spec fn view(&self) -> ModuleExportView {
        ModuleExportView {
            exports: self.exports@,
            exports_flags: self.exports_flags,
            exports_to: names_view(self.exports_to@),
        }
    }
}

#[derive(Debug)]
pub struct Module {
    pub exports: Vec<ModuleExport>,
}

pub open spec fn exports_view(exports: Seq<ModuleExport>) -> Seq<ModuleExportView> {
    exports.map_values(|e: ModuleExport| e@)
}

#[derive(Debug)]
pub struct Annotation {
    pub type_descriptor: FieldDescriptor,
    pub element_value_pairs: Vec<ElementValuePair>,
}

#[derive(Debug)]
pub struct ElementValuePair {
    pub element_name: JavaStr,
    pub value: ElementValue,
}

#[derive(Debug)]
pub enum ElementValue {
    Const(Const),
    Enum { class_name: JavaStr, const_name: JavaStr },
    Class(ReturnType),
    Annotation(Annotation),
    Array(Vec<ElementValue>),
}

pub struct AnnotationView {
    pub type_descriptor: FieldTypeView,
    pub element_value_pairs: Seq<ElementValuePairView>,
}

pub struct ElementValuePairView {
    pub element_name: Seq<u8>,
    pub value: ElementValueView,
}

pub enum ElementValueView {
    Const(ConstView),
    Enum { class_name: Seq<u8>, const_name: Seq<u8> },
    Class(Option<FieldTypeView>),
    Annotation(Box<AnnotationView>),
    Array(Seq<ElementValueView>),
}

impl ElementValue {
    pub open spec fn model(&self) -> ElementValueView
        decreases self,
    {
        match self {
            ElementValue::Const(c) => ElementValueView::Const(c@),
            ElementValue::Enum { class_name, const_name } => ElementValueView::Enum {
                class_name: class_name@,
                const_name: const_name@,
            },
            ElementValue::Class(t) => ElementValueView::Class(return_type_view(*t)),
            ElementValue::Annotation(a) => ElementValueView::Annotation(Box::new(a.model())),
            ElementValue::Array(values) => ElementValueView::Array(
                Seq::new(
                    values@.len(),
                    |i: int|
                        if 0 <= i < values@.len() {
                            values@[i].model()
                        } else {
                            ElementValueView::Class(None)
                        },
                ),
            ),
        }
    }
}

impl ElementValuePair {
    pub open spec fn model(&self) -> ElementValuePairView
        decreases self,
    {
        ElementValuePairView { element_name: self.element_name@, value: self.value.model() }
    }
}

impl Annotation {
    pub open spec fn model(&self) -> AnnotationView
        decreases self,
    {
        AnnotationView {
            type_descriptor: self.type_descriptor@,
            element_value_pairs: Seq::new(
                self.element_value_pairs@.len(),
                |i: int|
                    if 0 <= i < self.element_value_pairs@.len() {
                        self.element_value_pairs@[i].model()
                    } else {
                        ElementValuePairView {
                            element_name: Seq::empty(),
                            value: ElementValueView::Class(None),
                        }
                    },
            ),
        }
    }
}

/// The values of a list of element values, in order.
pub open spec fn values_view(values: Seq<ElementValue>) -> Seq<ElementValueView> {
    Seq::new(values.len(), |i: int| values[i].model())
}

/// The values of a list of pairs, in order.
pub open spec fn pairs_view(pairs: Seq<ElementValuePair>) -> Seq<ElementValuePairView> {
    Seq::new(pairs.len(), |i: int| pairs[i].model())
}

/// The values of a list of annotations, in order.
pub open spec fn annotations_view(annotations: Seq<Annotation>) -> Seq<AnnotationView> {
    Seq::new(annotations.len(), |i: int| annotations[i].model())
}

#[derive(Debug)]
pub struct CodeAttribute {
    pub max_stack: u16,
    pub max_locals: u16,
    pub code: Vec<u8>,
    pub exception_table: Vec<ExceptionTableItem>,
    pub attributes: Vec<AttributeInfo>,
}

#[derive(Debug)]
pub enum AttributeInfo {
    Code(CodeAttribute),
    SourceFile(JavaStr),
    LineNumberTable(Vec<LineNumberTableItem>),
    ConstantValue(Const),
    RuntimeVisibleAnnotations(Vec<Annotation>),
    LocalVariableTable(Vec<LocalVariable>),
    StackMapTable(Vec<StackMapFrame>),
    Deprecated,
    Signature(JavaStr),
    Exceptions,
    Module(Module),
    ModulePackages(Vec<JavaStr>),
    ModuleHashes,
    ModuleTarget(JavaStr),
    InnerClasses,
    Unknown(JavaStr),
}

pub struct CodeAttributeView {
    pub max_stack: u16,
    pub max_locals: u16,
    pub code: Seq<u8>,
    pub exception_table: Seq<ExceptionTableItemView>,
    pub attributes: Seq<AttributeInfoView>,
}

pub enum AttributeInfoView {
    Code(Box<CodeAttributeView>),
    SourceFile(Seq<u8>),
    LineNumberTable(Seq<LineNumberTableItem>),
    ConstantValue(ConstView),
    RuntimeVisibleAnnotations(Seq<AnnotationView>),
    LocalVariableTable(Seq<LocalVariableView>),
    StackMapTable,
    Deprecated,
    Signature(Seq<u8>),
    Exceptions,
    Module(Seq<ModuleExportView>),
    ModulePackages(Seq<Seq<u8>>),
    ModuleHashes,
    ModuleTarget(Seq<u8>),
    InnerClasses,
    Unknown(Seq<u8>),
}

pub open spec fn local_variables_view(table: Seq<LocalVariable>) -> Seq<LocalVariableView> {
    table.map_values(|v: LocalVariable| v@)
}

impl AttributeInfo {
    pub open spec fn model(&self) -> AttributeInfoView
        decreases self,
    {
        match self {
            AttributeInfo::Code(code) => AttributeInfoView::Code(Box::new(code.model())),
            AttributeInfo::SourceFile(name) => AttributeInfoView::SourceFile(name@),
            AttributeInfo::LineNumberTable(table) => AttributeInfoView::LineNumberTable(table@),
            AttributeInfo::ConstantValue(c) => AttributeInfoView::ConstantValue(c@),
            AttributeInfo::RuntimeVisibleAnnotations(
                annotations,
            ) => AttributeInfoView::RuntimeVisibleAnnotations(annotations_view(annotations@)),
            AttributeInfo::LocalVariableTable(table) => AttributeInfoView::LocalVariableTable(
                local_variables_view(table@),
            ),
            AttributeInfo::StackMapTable(_) => AttributeInfoView::StackMapTable,
            AttributeInfo::Deprecated => AttributeInfoView::Deprecated,
            AttributeInfo::Signature(s) => AttributeInfoView::Signature(s@),
            AttributeInfo::Exceptions => AttributeInfoView::Exceptions,
            AttributeInfo::Module(module) => AttributeInfoView::Module(
                exports_view(module.exports@),
            ),
            AttributeInfo::ModulePackages(packages) => AttributeInfoView::ModulePackages(
                names_view(packages@),
            ),
            AttributeInfo::ModuleHashes => AttributeInfoView::ModuleHashes,
            AttributeInfo::ModuleTarget(target) => AttributeInfoView::ModuleTarget(target@),
            AttributeInfo::InnerClasses => AttributeInfoView::InnerClasses,
            AttributeInfo::Unknown(name) => AttributeInfoView::Unknown(name@),
        }
    }
}

impl CodeAttribute {
    pub open spec fn model(&self) -> CodeAttributeView
        decreases self,
    {
        CodeAttributeView {
            max_stack: self.max_stack,
            max_locals: self.max_locals,
            code: self.code@,
            exception_table: exception_table_view(self.exception_table@),
            attributes: Seq::new(
                self.attributes@.len(),
                |i: int|
                    if 0 <= i < self.attributes@.len() {
                        self.attributes@[i].model()
                    } else {
                        AttributeInfoView::Deprecated
                    },
            ),
        }
    }
}

/// The values of a list of attributes, in order.
pub open spec fn attribute_infos_view(attributes: Seq<AttributeInfo>) -> Seq<AttributeInfoView> {
    Seq::new(attributes.len(), |i: int| attributes[i].model())
}

} // verus!

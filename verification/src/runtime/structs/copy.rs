//! Copies of attributes. A class that inherits a field keeps a copy of the
//! field as its super-class has it, attributes and all.

use crate::class::structs::java_str::{copy_bytes, JavaStr};
use crate::descriptor::clone_return_type;
use crate::runtime::structs::attributes::{
    annotations_view, attribute_infos_view, clone_exception_table, exports_view,
    local_variables_view, names_view, Annotation, AttributeInfo, CodeAttribute, Const,
    ElementValue, ElementValuePair, LineNumberTableItem, LocalVariable, Module, ModuleExport,
    StackMapFrame,
};
use vstd::prelude::*;

verus! {

/// A copy of a constant.
pub fn copy_const(c: &Const) -> (copy: Const)
    ensures
        copy@ == c@,
{
    match c {
        Const::Byte(v) => Const::Byte(*v),
        Const::Char(v) => Const::Char(*v),
        Const::Double(v) => Const::Double(*v),
        Const::Float(v) => Const::Float(*v),
        Const::Int(v) => Const::Int(*v),
        Const::Long(v) => Const::Long(*v),
        Const::Short(v) => Const::Short(*v),
        Const::Boolean(v) => Const::Boolean(*v),
        Const::String(s) => Const::String(s.clone()),
    }
}

/// A copy of a list of names.
pub fn copy_names(names: &Vec<JavaStr>) -> (copy: Vec<JavaStr>)
    ensures
        names_view(copy@) == names_view(names@),
{
    let mut copy: Vec<JavaStr> = Vec::new();
    let mut i: usize = 0;
    while i < names.len()
        invariant
            i <= names.len(),
            copy.len() == i,
            forall|k: int| 0 <= k < i ==> copy@[k]@ == names@[k]@,
        decreases names.len() - i,
    {
        copy.push(names[i].clone());
        i += 1;
    }
    assert(names_view(copy@) =~= names_view(names@));
    copy
}

/// A copy of a line-number table.
pub fn copy_lines(table: &Vec<LineNumberTableItem>) -> (copy: Vec<LineNumberTableItem>)
    ensures
        copy@ == table@,
{
    let mut copy: Vec<LineNumberTableItem> = Vec::new();
    let mut i: usize = 0;
    while i < table.len()
        invariant
            i <= table.len(),
            copy@ =~= table@.subrange(0, i as int),
        decreases table.len() - i,
    {
        copy.push(table[i]);
        i += 1;
    }
    assert(copy@ =~= table@);
    copy
}

/// A copy of a table of local variables.
pub fn copy_local_variables(table: &Vec<LocalVariable>) -> (copy: Vec<LocalVariable>)
    ensures
        local_variables_view(copy@) == local_variables_view(table@),
{
    let mut copy: Vec<LocalVariable> = Vec::new();
    let mut i: usize = 0;
    while i < table.len()
        invariant
            i <= table.len(),
            copy.len() == i,
            forall|k: int| 0 <= k < i ==> copy@[k]@ == table@[k]@,
        decreases table.len() - i,
    {
        let v = &table[i];
        copy.push(
            LocalVariable {
                start_pc: v.start_pc,
                length: v.length,
                name: v.name.clone(),
                descriptor: v.descriptor.clone(),
                index: v.index,
            },
        );
        i += 1;
    }
    assert(local_variables_view(copy@) =~= local_variables_view(table@));
    copy
}

/// A copy of the exports of a module.
pub fn copy_exports(exports: &Vec<ModuleExport>) -> (copy: Vec<ModuleExport>)
    ensures
        exports_view(copy@) == exports_view(exports@),
{
    let mut copy: Vec<ModuleExport> = Vec::new();
    let mut i: usize = 0;
    while i < exports.len()
        invariant
            i <= exports.len(),
            copy.len() == i,
            forall|k: int| 0 <= k < i ==> copy@[k]@ == exports@[k]@,
        decreases exports.len() - i,
    {
        let e = &exports[i];
        copy.push(
            ModuleExport {
                exports: e.exports.clone(),
                exports_flags: e.exports_flags,
                exports_to: copy_names(&e.exports_to),
            },
        );
        i += 1;
    }
    assert(exports_view(copy@) =~= exports_view(exports@));
    copy
}

/// A copy of an element value.
#[verifier::loop_isolation(false)]
pub fn copy_element_value(value: &ElementValue) -> (copy: ElementValue)
    ensures
        copy.model() == value.model(),
    decreases value,
{
    match value {
        ElementValue::Const(c) => ElementValue::Const(copy_const(c)),
        ElementValue::Enum { class_name, const_name } => ElementValue::Enum {
            class_name: class_name.clone(),
            const_name: const_name.clone(),
        },
        ElementValue::Class(t) => ElementValue::Class(clone_return_type(t)),
        ElementValue::Annotation(a) => ElementValue::Annotation(copy_annotation(a)),
        ElementValue::Array(values) => {
            let mut copies: Vec<ElementValue> = Vec::new();
            let mut i: usize = 0;
            while i < values.len()
                invariant
                    i <= values.len(),
                    copies.len() == i,
                    forall|k: int| 0 <= k < i ==> copies@[k].model() == values@[k].model(),
                decreases values.len() - i,
            {
                copies.push(copy_element_value(&values[i]));
                i += 1;
            }
            let copy = ElementValue::Array(copies);
            assert(copy.model()->Array_0 =~= value.model()->Array_0);
            copy
        },
    }
}

/// A copy of an annotation.
#[verifier::loop_isolation(false)]
pub fn copy_annotation(annotation: &Annotation) -> (copy: Annotation)
    ensures
        copy.model() == annotation.model(),
    decreases annotation,
{
    let mut pairs: Vec<ElementValuePair> = Vec::new();
    let mut i: usize = 0;
    while i < annotation.element_value_pairs.len()
        invariant
            i <= annotation.element_value_pairs.len(),
            pairs.len() == i,
            forall|k: int|
                0 <= k < i ==> pairs@[k].model() == annotation.element_value_pairs@[k].model(),
        decreases annotation.element_value_pairs.len() - i,
    {
        let pair = &annotation.element_value_pairs[i];
        pairs.push(
            ElementValuePair {
                element_name: pair.element_name.clone(),
                value: copy_element_value(&pair.value),
            },
        );
        i += 1;
    }
    let copy = Annotation {
        type_descriptor: annotation.type_descriptor.clone(),
        element_value_pairs: pairs,
    };
    assert(copy.model().element_value_pairs =~= annotation.model().element_value_pairs);
    copy
}

/// A copy of a list of annotations.
pub fn copy_annotations(annotations: &Vec<Annotation>) -> (copy: Vec<Annotation>)
    ensures
        annotations_view(copy@) == annotations_view(annotations@),
{
    let mut copy: Vec<Annotation> = Vec::new();
    let mut i: usize = 0;
    while i < annotations.len()
        invariant
            i <= annotations.len(),
            copy.len() == i,
            forall|k: int| 0 <= k < i ==> copy@[k].model() == annotations@[k].model(),
        decreases annotations.len() - i,
    {
        copy.push(copy_annotation(&annotations[i]));
        i += 1;
    }
    assert(annotations_view(copy@) =~= annotations_view(annotations@));
    copy
}

/// A copy of an attribute.
#[verifier::loop_isolation(false)]
pub fn copy_attribute(attribute: &AttributeInfo) -> (copy: AttributeInfo)
    ensures
        copy.model() == attribute.model(),
    decreases attribute,
{
    match attribute {
        AttributeInfo::Code(code) => {
            let mut nested: Vec<AttributeInfo> = Vec::new();
            let mut i: usize = 0;
            while i < code.attributes.len()
                invariant
                    i <= code.attributes.len(),
                    nested.len() == i,
                    forall|k: int|
                        0 <= k < i ==> nested@[k].model() == code.attributes@[k].model(),
                decreases code.attributes.len() - i,
            {
                nested.push(copy_attribute(&code.attributes[i]));
                i += 1;
            }
            let copy = CodeAttribute {
                max_stack: code.max_stack,
                max_locals: code.max_locals,
                code: copy_bytes(&code.code),
                exception_table: clone_exception_table(&code.exception_table),
                attributes: nested,
            };
            assert(copy.model().attributes =~= code.model().attributes);
            AttributeInfo::Code(copy)
        },
        AttributeInfo::SourceFile(name) => AttributeInfo::SourceFile(name.clone()),
        AttributeInfo::LineNumberTable(table) => AttributeInfo::LineNumberTable(copy_lines(table)),
        AttributeInfo::ConstantValue(c) => AttributeInfo::ConstantValue(copy_const(c)),
        AttributeInfo::RuntimeVisibleAnnotations(
            annotations,
        ) => AttributeInfo::RuntimeVisibleAnnotations(copy_annotations(annotations)),
        AttributeInfo::LocalVariableTable(table) => AttributeInfo::LocalVariableTable(
            copy_local_variables(table),
        ),
        AttributeInfo::StackMapTable(frames) => {
            let mut copies: Vec<StackMapFrame> = Vec::new();
            let mut i: usize = 0;
            while i < frames.len()
                invariant
                    i <= frames.len(),
                decreases frames.len() - i,
            {
                copies.push(frames[i]);
                i += 1;
            }
            AttributeInfo::StackMapTable(copies)
        },
        AttributeInfo::Deprecated => AttributeInfo::Deprecated,
        AttributeInfo::Signature(s) => AttributeInfo::Signature(s.clone()),
        AttributeInfo::Exceptions => AttributeInfo::Exceptions,
        AttributeInfo::Module(module) => AttributeInfo::Module(
            Module { exports: copy_exports(&module.exports) },
        ),
        AttributeInfo::ModulePackages(packages) => AttributeInfo::ModulePackages(
            copy_names(packages),
        ),
        AttributeInfo::ModuleHashes => AttributeInfo::ModuleHashes,
        AttributeInfo::ModuleTarget(target) => AttributeInfo::ModuleTarget(target.clone()),
        AttributeInfo::InnerClasses => AttributeInfo::InnerClasses,
        AttributeInfo::Unknown(name) => AttributeInfo::Unknown(name.clone()),
    }
}

/// A copy of a list of attributes.
pub fn copy_attributes(attributes: &Vec<AttributeInfo>) -> (copy: Vec<AttributeInfo>)
    ensures
        attribute_infos_view(copy@) == attribute_infos_view(attributes@),
{
    let mut copy: Vec<AttributeInfo> = Vec::new();
    let mut i: usize = 0;
    while i < attributes.len()
        invariant
            i <= attributes.len(),
            copy.len() == i,
            forall|k: int| 0 <= k < i ==> copy@[k].model() == attributes@[k].model(),
        decreases attributes.len() - i,
    {
        copy.push(copy_attribute(&attributes[i]));
        i += 1;
    }
    assert(attribute_infos_view(copy@) =~= attribute_infos_view(attributes@));
    copy
}

} // verus!

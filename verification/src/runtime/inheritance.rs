//! What is assignable to what.
//!
//! A class is assignable to itself and to its super-classes, and to the
//! interfaces that it or one of its super-classes lists. An array of
//! primitives is assignable to arrays of the same primitive alone; an array
//! of references to an array of references whose elements its own elements
//! are assignable to; and every array to `java/lang/Object`,
//! `java/lang/Cloneable` and `java/io/Serializable`.

use crate::consts::{has_flags, ACC_INTERFACE};
use crate::descriptor::{
    field_descriptor_of, parse_field_descriptor, FieldDescriptor, FieldType, FieldTypeView,
};
use crate::runtime::class_loader::resolve::hierarchy_ordered;
use crate::runtime::class_loader::vtable::same_text;
use crate::runtime::heap::Heap;
use crate::runtime::structs::{is_array_name, Class};
use vstd::prelude::*;
use vstd::string::*;

verus! {

/// Whether class `class` or one of its super-classes lists the interface.
pub open spec fn implements(classes: Seq<Class>, class: int, interface: usize) -> bool
    decreases class,
{
    if class < 0 || class >= classes.len() {
        false
    } else {
        classes[class].interfaces@.contains(interface) || (match classes[class].super_class {
            Some(s) => s < class && implements(classes, s as int, interface),
            None => false,
        })
    }
}

/// Whether class `source` is class `target` or one of its sub-classes.
pub open spec fn same_or_sub_class(classes: Seq<Class>, source: int, target: usize) -> bool
    decreases source,
{
    if source < 0 || source >= classes.len() {
        false
    } else {
        source == target || (match classes[source].super_class {
            Some(s) => s < source && same_or_sub_class(classes, s as int, target),
            None => false,
        })
    }
}

/// The type of the elements of the array class with this name; none where
/// the name is not the name of an array class.
pub open spec fn element_type_of(name: Seq<char>) -> Option<FieldTypeView> {
    if is_array_name(name) {
        match field_descriptor_of(name) {
            Ok(FieldTypeView::Array(element)) => Some(*element),
            _ => None,
        }
    } else {
        None
    }
}

/// Whether a value of class `source` may be stored where class `target` is
/// asked for.
pub open spec fn assignable(classes: Seq<Class>, source: int, target: usize) -> bool
    decreases source,
{
    if source < 0 || source >= classes.len() || target >= classes.len() {
        false
    } else {
        match element_type_of(classes[source].class_name@) {
            Some(source_type) => match element_type_of(classes[target as int].class_name@) {
                Some(target_type) => {
                    if source_type.is_primitive() || target_type.is_primitive() {
                        source_type == target_type
                    } else {
                        match (
                            classes[source].array_element_type,
                            classes[target as int].array_element_type,
                        ) {
                            (Some(s), Some(t)) => s < source && assignable(classes, s as int, t),
                            _ => false,
                        }
                    }
                },
                None => {
                    if has_flags(classes[target as int].access_flags.bits, ACC_INTERFACE) {
                        classes[target as int].class_name@ == "java/lang/Cloneable"@
                            || classes[target as int].class_name@ == "java/io/Serializable"@
                    } else {
                        classes[target as int].class_name@ == "java/lang/Object"@
                    }
                },
            },
            None => {
                if has_flags(classes[target as int].access_flags.bits, ACC_INTERFACE) {
                    implements(classes, source, target)
                } else {
                    same_or_sub_class(classes, source, target)
                }
            },
        }
    }
}

pub fn is_class_implements(classes: &Vec<Class>, class: usize, interface: usize) -> (yes: bool)
    requires
        class < classes.len(),
        hierarchy_ordered(classes@),
    ensures
        yes == implements(classes@, class as int, interface),
    decreases class,
{
    let listed = &classes[class].interfaces;
    let mut k: usize = 0;
    while k < listed.len()
        invariant
            k <= listed.len(),
            class < classes.len(),
            listed == &classes[class as int].interfaces,
            forall|j: int| 0 <= j < k ==> listed@[j] != interface,
        decreases listed.len() - k,
    {
        if listed[k] == interface {
            assert(listed@[k as int] == interface);
            assert(listed@.contains(interface));
            return true;
        }
        k += 1;
    }
    assert(!listed@.contains(interface));
    match classes[class].super_class {
        Some(s) => is_class_implements(classes, s, interface),
        None => false,
    }
}

pub fn is_same_or_sub_class_of(classes: &Vec<Class>, source: usize, target: usize) -> (yes: bool)
    requires
        source < classes.len(),
        hierarchy_ordered(classes@),
    ensures
        yes == same_or_sub_class(classes@, source as int, target),
    decreases source,
{
    if source == target {
        return true;
    }
    match classes[source].super_class {
        Some(s) => is_same_or_sub_class_of(classes, s, target),
        None => false,
    }
}

/// The type of the elements of the class, if it is an array class.
pub fn get_array_type(class: &Class) -> (element: Option<FieldType>)
    ensures
        match element {
            Some(t) => element_type_of(class.class_name@) == Some(t@),
            None => element_type_of(class.class_name@).is_none(),
        },
{
    if !class.is_array() {
        return None;
    }
    match parse_field_descriptor(class.class_name.as_str()) {
        Ok(FieldDescriptor(FieldType::Array(element))) => {
            assert(field_descriptor_of(class.class_name@) == Ok::<FieldTypeView, int>(
                FieldTypeView::Array(Box::new(element.model())),
            ));
            Some(*element)
        },
        Ok(other) => {
            assert(!(other.0 is Array));
            assert(!(other@ is Array));
            None
        },
        Err(_) => None,
    }
}

/// Whether a value of class `source` may be stored where class `target` is
/// asked for.
pub fn is_array_assignable_to(classes: &Vec<Class>, source: usize, target: usize) -> (yes: bool)
    requires
        source < classes.len(),
        target < classes.len(),
        hierarchy_ordered(classes@),
    ensures
        yes == assignable(classes@, source as int, target),
    decreases source,
{
    let target_class = &classes[target];
    match get_array_type(&classes[source]) {
        Some(source_type) => match get_array_type(target_class) {
            Some(target_type) => {
                if source_type.is_primitive() || target_type.is_primitive() {
                    return source_type.same_type(&target_type);
                }
                match (classes[source].array_element_type, target_class.array_element_type) {
                    (Some(s), Some(t)) => {
                        if t < classes.len() {
                            is_array_assignable_to(classes, s, t)
                        } else {
                            false
                        }
                    },
                    _ => false,
                }
            },
            None => {
                if target_class.access_flags.contains(ACC_INTERFACE) {
                    same_text(target_class.class_name.as_str(), "java/lang/Cloneable")
                        || same_text(target_class.class_name.as_str(), "java/io/Serializable")
                } else {
                    same_text(target_class.class_name.as_str(), "java/lang/Object")
                }
            },
        },
        None => {
            if target_class.access_flags.contains(ACC_INTERFACE) {
                is_class_implements(classes, source, target)
            } else {
                is_same_or_sub_class_of(classes, source, target)
            }
        },
    }
}

/// The number of elements of the array `id`, whose class is `class`.
pub fn get_array_len(heap: &Heap, id: u32, class: &Class) -> (len: Option<usize>)
    ensures
        match len {
            Some(n) => element_type_of(class.class_name@) matches Some(t) && heap.array_bytes(
                id,
            ) matches Some(bytes) && n == (bytes.len() as int) / (t.size() as int),
            None => element_type_of(class.class_name@).is_none() || heap.array_bytes(
                id,
            ).is_none(),
        },
{
    match get_array_type(class) {
        Some(t) => heap.get_array_size(id, t.get_field_type_size()),
        None => None,
    }
}

} // verus!

//! Resolving references to fields and methods among the classes that are
//! defined.
//!
//! A class is known by its place in the list of classes. Its super-class
//! and its interfaces stand in front of it in the list, so every search up
//! the hierarchy ends.

use crate::class::structs::java_str::JavaStr;
use crate::consts::{has_flags, ACC_FINAL, ACC_PRIVATE, ACC_STATIC};
use crate::descriptor::{FieldDescriptor, FieldTypeView, MethodDescriptor, MethodDescriptorView};
use crate::runtime::class_loader::pool::{ascii_bytes, is_ascii_text};
use crate::runtime::structs::constant_pool::{FieldResolve, MethodResolve};
use crate::runtime::structs::{
    field_infos_view, method_infos_view, vtable_view, Class, FieldInfo, FieldInfoView, MethodInfo, MethodInfoView, VtableEntryView, VtableIndex,
};
use vstd::prelude::*;
use vstd::string::*;

verus! {

/// Whether the super-class, the interfaces and the element class of every
/// class stand in front of it.
pub open spec fn hierarchy_ordered(classes: Seq<Class>) -> bool {
    forall|id: int|
        0 <= id < classes.len() ==> {
            &&& (#[trigger] classes[id]).super_class matches Some(s) ==> s < id
            &&& forall|k: int|
                0 <= k < classes[id].interfaces.len() ==> (#[trigger] classes[id].interfaces@[k])
                    < id
            &&& classes[id].array_element_type matches Some(e) ==> e < id
        }
}

/// The place of the first field from `from` on that has this name and
/// type.
pub open spec fn first_field_named(
    fields: Seq<FieldInfoView>,
    from: int,
    name: Seq<u8>,
    descriptor: FieldTypeView,
) -> Option<int>
    decreases fields.len() - from,
{
    if from < 0 || from >= fields.len() {
        None
    } else if fields[from].name == name && fields[from].descriptor == descriptor {
        Some(from)
    } else {
        first_field_named(fields, from + 1, name, descriptor)
    }
}

/// The place of the first field with this name and type.
pub fn find_first_field(fields: &Vec<FieldInfo>, name: &JavaStr, descriptor: &FieldDescriptor) -> (found:
    Option<usize>)
    ensures
        match found {
            Some(k) => first_field_named(field_infos_view(fields@), 0, name@, descriptor@) == Some(
                k as int,
            ) && k < fields.len(),
            None => first_field_named(field_infos_view(fields@), 0, name@, descriptor@).is_none(),
        },
{
    let mut i: usize = 0;
    while i < fields.len()
        invariant
            i <= fields.len(),
            first_field_named(field_infos_view(fields@), 0, name@, descriptor@)
                == first_field_named(field_infos_view(fields@), i as int, name@, descriptor@),
        decreases fields.len() - i,
    {
        assert(field_infos_view(fields@)[i as int] == fields@[i as int]@);
        if fields[i].name.same_str(name) && fields[i].descriptor.0.same_type(&descriptor.0) {
            return Some(i);
        }
        i += 1;
    }
    None
}

/// The static field with this name and type that class `id` has or
/// inherits: its own, unless `skip_this`; else that of the first of its
/// interfaces that has or inherits one; else that of its super-class.
pub open spec fn static_field_in(
    classes: Seq<Class>,
    id: int,
    name: Seq<u8>,
    descriptor: FieldTypeView,
    skip_this: bool,
) -> Option<FieldResolve>
    decreases id, 1int, 0int,
{
    if id < 0 || id >= classes.len() {
        None
    } else {
        let own = first_field_named(
            field_infos_view(classes[id].static_fields_info@),
            0,
            name,
            descriptor,
        );
        if !skip_this && own.is_some() {
            Some(
                FieldResolve::OtherClass {
                    class: id as usize,
                    index: classes[id].static_fields_info@[own->Some_0].index,
                },
            )
        } else {
            match static_field_among(classes, id, 0, name, descriptor) {
                Some(r) => Some(r),
                None => match classes[id].super_class {
                    Some(s) => if s < id {
                        static_field_in(classes, s as int, name, descriptor, false)
                    } else {
                        None
                    },
                    None => None,
                },
            }
        }
    }
}

/// The static field with this name and type that the first of the
/// interfaces of class `id`, from interface `k` on, has or inherits.
pub open spec fn static_field_among(
    classes: Seq<Class>,
    id: int,
    k: int,
    name: Seq<u8>,
    descriptor: FieldTypeView,
) -> Option<FieldResolve>
    decreases id, 0int, classes[id].interfaces.len() - k,
{
    if id < 0 || id >= classes.len() || k < 0 || k >= classes[id].interfaces.len() {
        None
    } else {
        let found = if classes[id].interfaces@[k] < id {
            static_field_in(classes, classes[id].interfaces@[k] as int, name, descriptor, false)
        } else {
            None
        };
        match found {
            Some(r) => Some(r),
            None => static_field_among(classes, id, k + 1, name, descriptor),
        }
    }
}

/// Finds the static field with this name and type that class `id` has or
/// inherits.
pub fn resolve_static_field(
    classes: &Vec<Class>,
    id: usize,
    name: &JavaStr,
    descriptor: &FieldDescriptor,
    skip_this: bool,
) -> (found: Option<FieldResolve>)
    requires
        id < classes.len(),
        hierarchy_ordered(classes@),
    ensures
        found == static_field_in(classes@, id as int, name@, descriptor@, skip_this),
    decreases id, 1int, 0int,
{
    let class = &classes[id];
    if !skip_this {
        match find_first_field(&class.static_fields_info, name, descriptor) {
            Some(k) => {
                return Some(
                    FieldResolve::OtherClass { class: id, index: class.static_fields_info[k].index },
                );
            },
            None => {},
        }
    }
    let mut k: usize = 0;
    while k < class.interfaces.len()
        invariant
            k <= class.interfaces.len(),
            id < classes.len(),
            class == &classes[id as int],
            hierarchy_ordered(classes@),
            skip_this || first_field_named(
                field_infos_view(classes[id as int].static_fields_info@),
                0,
                name@,
                descriptor@,
            ).is_none(),
            static_field_among(classes@, id as int, 0, name@, descriptor@) == static_field_among(
                classes@,
                id as int,
                k as int,
                name@,
                descriptor@,
            ),
        decreases class.interfaces.len() - k,
    {
        let interface = class.interfaces[k];
        assert(classes@[id as int].interfaces@[k as int] < id);
        match resolve_static_field(classes, interface, name, descriptor, false) {
            Some(r) => {
                return Some(r);
            },
            None => {},
        }
        k += 1;
    }
    match class.super_class {
        Some(s) => resolve_static_field(classes, s, name, descriptor, false),
        None => None,
    }
}

/// The field that a reference to a field of class `id` leads to: for a
/// static field, as [`static_field_in`] says; else the first instance field
/// of the class with this name and type.
pub open spec fn field_in(
    classes: Seq<Class>,
    id: int,
    name: Seq<u8>,
    descriptor: FieldTypeView,
    is_static: bool,
) -> Option<FieldResolve> {
    if is_static {
        static_field_in(classes, id, name, descriptor, false)
    } else {
        match first_field_named(
            field_infos_view(classes[id].instance_fields_info@),
            0,
            name,
            descriptor,
        ) {
            Some(k) => Some(
                FieldResolve::OtherClass {
                    class: id as usize,
                    index: classes[id].instance_fields_info@[k].index,
                },
            ),
            None => None,
        }
    }
}

/// Finds the field that a reference to a field of class `id` leads to.
pub fn resolve_field(
    classes: &Vec<Class>,
    id: usize,
    name: &JavaStr,
    descriptor: &FieldDescriptor,
    is_static: bool,
) -> (found: Option<FieldResolve>)
    requires
        id < classes.len(),
        hierarchy_ordered(classes@),
    ensures
        found == field_in(classes@, id as int, name@, descriptor@, is_static),
{
    if is_static {
        return resolve_static_field(classes, id, name, descriptor, false);
    }
    match find_first_field(&classes[id].instance_fields_info, name, descriptor) {
        Some(k) => Some(
            FieldResolve::OtherClass { class: id, index: classes[id].instance_fields_info[k].index },
        ),
        None => None,
    }
}

/// The place of the last among the first `n` methods that has this name
/// and descriptor and that is static (or is not, where `statics` is false).
pub open spec fn last_method_named(
    methods: Seq<MethodInfoView>,
    n: int,
    name: Seq<u8>,
    descriptor: MethodDescriptorView,
    statics: bool,
) -> Option<int>
    decreases n,
{
    if n <= 0 {
        None
    } else if has_flags(methods[n - 1].access_flags, ACC_STATIC) == statics && methods[n
        - 1].name == name && methods[n - 1].descriptor == descriptor {
        Some(n - 1)
    } else {
        last_method_named(methods, n - 1, name, descriptor, statics)
    }
}

/// The place of the last method with this name and descriptor that is
/// static (or is not, where `statics` is false).
pub fn find_last_method(
    methods: &Vec<MethodInfo>,
    name: &JavaStr,
    descriptor: &MethodDescriptor,
    statics: bool,
) -> (found: Option<usize>)
    ensures
        match found {
            Some(k) => last_method_named(
                method_infos_view(methods@),
                methods.len() as int,
                name@,
                descriptor@,
                statics,
            ) == Some(k as int) && k < methods.len(),
            None => last_method_named(
                method_infos_view(methods@),
                methods.len() as int,
                name@,
                descriptor@,
                statics,
            ).is_none(),
        },
{
    let mut n: usize = methods.len();
    while n > 0
        invariant
            n <= methods.len(),
            last_method_named(
                method_infos_view(methods@),
                methods.len() as int,
                name@,
                descriptor@,
                statics,
            ) == last_method_named(method_infos_view(methods@), n as int, name@, descriptor@, statics),
        decreases n,
    {
        assert(method_infos_view(methods@)[n - 1] == methods@[n - 1]@);
        if methods[n - 1].access_flags.contains(ACC_STATIC) == statics && methods[n
            - 1].name.same_str(name) && methods[n - 1].descriptor.same_descriptor(descriptor) {
            return Some(n - 1);
        }
        n -= 1;
    }
    None
}

/// Whether calls of the method never go through the vtable: it is
/// private, final or a constructor.
pub open spec fn statically_bound(m: MethodInfoView) -> bool {
    has_flags(m.access_flags, ACC_PRIVATE) || has_flags(m.access_flags, ACC_FINAL) || m.name
        == ascii_bytes("<init>"@)
}

/// The first row from `from` on that leads to method `index` of the
/// table's own class, or -1 where there is none.
pub open spec fn row_of(table: Seq<VtableEntryView>, from: int, index: usize) -> int
    decreases table.len() - from,
{
    if from < 0 || from >= table.len() {
        -1
    } else if table[from].index == VtableIndex::InThisClass(index) {
        from
    } else {
        row_of(table, from + 1, index)
    }
}

/// The row of the vtable through which calls of method `index` of a class
/// go, or -1 where they are bound statically. The class has the methods
/// `methods` and the vtable `table`.
pub open spec fn vtable_row(methods: Seq<MethodInfoView>, table: Seq<VtableEntryView>, index: int) -> isize {
    if statically_bound(methods[index]) || row_of(table, 0, index as usize) > isize::MAX {
        -1isize
    } else {
        row_of(table, 0, index as usize) as isize
    }
}

/// Finds the row of the vtable through which calls of method `index` of
/// the class go.
pub fn resolve_from_vtable(class: &Class, index: usize) -> (row: isize)
    requires
        index < class.methods.len(),
    ensures
        row == vtable_row(
            method_infos_view(class.methods@),
            vtable_view(class.vtable@),
            index as int,
        ),
{
    proof {
        reveal_strlit("<init>");
    }
    let m = &class.methods[index];
    assert(method_infos_view(class.methods@)[index as int] == m@);
    if m.access_flags.contains(ACC_PRIVATE) || m.access_flags.contains(ACC_FINAL)
        || is_ascii_text(&m.name, "<init>") {
        return -1;
    }
    let mut k: usize = 0;
    while k < class.vtable.len()
        invariant
            k <= class.vtable.len(),
            index < class.methods.len(),
            !statically_bound(method_infos_view(class.methods@)[index as int]),
            row_of(vtable_view(class.vtable@), 0, index) == row_of(
                vtable_view(class.vtable@),
                k as int,
                index,
            ),
        decreases class.vtable.len() - k,
    {
        assert(vtable_view(class.vtable@)[k as int] == class.vtable@[k as int]@);
        let leads_here = match class.vtable[k].index {
            VtableIndex::InThisClass(i) => i == index,
            _ => false,
        };
        if leads_here {
            if k > isize::MAX as usize {
                return -1;
            }
            return k as isize;
        }
        k += 1;
    }
    -1
}

/// The method with this name and descriptor that class `id` has or
/// inherits from its super-classes: its own last such method that is
/// static (or is not, where `statics` is false), unless `skip_this`; else
/// that of its super-class. A method that is not static comes with its row
/// in the vtable of its class.
pub open spec fn method_in(
    classes: Seq<Class>,
    id: int,
    name: Seq<u8>,
    descriptor: MethodDescriptorView,
    statics: bool,
    skip_this: bool,
) -> Option<MethodResolve>
    decreases id,
{
    if id < 0 || id >= classes.len() {
        None
    } else {
        let own = last_method_named(
            method_infos_view(classes[id].methods@),
            classes[id].methods.len() as int,
            name,
            descriptor,
            statics,
        );
        if !skip_this && own.is_some() {
            Some(
                MethodResolve::OtherClass {
                    class: id as usize,
                    index: own->Some_0 as usize,
                    vtable_index: if statics {
                        -1isize
                    } else {
                        vtable_row(
                            method_infos_view(classes[id].methods@),
                            vtable_view(classes[id].vtable@),
                            own->Some_0,
                        )
                    },
                },
            )
        } else {
            match classes[id].super_class {
                Some(s) => if s < id {
                    method_in(classes, s as int, name, descriptor, statics, false)
                } else {
                    None
                },
                None => None,
            }
        }
    }
}

/// Finds the method with this name and descriptor that class `id` has or
/// inherits from its super-classes.
pub fn resolve_method_in(
    classes: &Vec<Class>,
    id: usize,
    name: &JavaStr,
    descriptor: &MethodDescriptor,
    statics: bool,
    skip_this: bool,
) -> (found: Option<MethodResolve>)
    requires
        id < classes.len(),
        hierarchy_ordered(classes@),
    ensures
        found == method_in(classes@, id as int, name@, descriptor@, statics, skip_this),
    decreases id,
{
    let class = &classes[id];
    if !skip_this {
        match find_last_method(&class.methods, name, descriptor, statics) {
            Some(k) => {
                let vtable_index = if statics {
                    -1
                } else {
                    resolve_from_vtable(class, k)
                };
                return Some(MethodResolve::OtherClass { class: id, index: k, vtable_index });
            },
            None => {},
        }
    }
    match class.super_class {
        Some(s) => resolve_method_in(classes, s, name, descriptor, statics, false),
        None => None,
    }
}

/// Finds the static method that a reference to a method of class `id`
/// leads to.
pub fn resolve_static_method(classes: &Vec<Class>, id: usize, name: &JavaStr, descriptor: &MethodDescriptor) -> (found:
    Option<MethodResolve>)
    requires
        id < classes.len(),
        hierarchy_ordered(classes@),
    ensures
        found == method_in(classes@, id as int, name@, descriptor@, true, false),
{
    resolve_method_in(classes, id, name, descriptor, true, false)
}

/// Finds the method, not static, that a reference to a method of class
/// `id` leads to, with its row in the vtable.
pub fn resolve_method_statically(
    classes: &Vec<Class>,
    id: usize,
    name: &JavaStr,
    descriptor: &MethodDescriptor,
) -> (found: Option<MethodResolve>)
    requires
        id < classes.len(),
        hierarchy_ordered(classes@),
    ensures
        found == method_in(classes@, id as int, name@, descriptor@, false, false),
{
    resolve_method_in(classes, id, name, descriptor, false, false)
}

} // verus!

//! Resolving, when a class is defined, the references of its constant pool
//! that name the class itself.
//!
//! A reference to a field leads to the class's own instance field of that
//! name and type, the last one; else to its own static field, the last one;
//! else to the static field that its interfaces or its super-class have or
//! inherit. A reference to a method leads to the class's own static method
//! of that name and descriptor, the last one; else to the static method
//! that its super-class has or inherits; else to its own method that is
//! not static, with its row in the vtable; else to the method that its
//! super-class has or inherits. A reference that leads nowhere stays
//! unresolved until it is used.

use crate::class::structs::java_str::JavaStr;
use crate::descriptor::{FieldDescriptor, FieldTypeView, MethodDescriptor, MethodDescriptorView};
use crate::runtime::class_loader::layout::{find_last_field, last_field_named};
use crate::runtime::class_loader::resolve::{
    find_last_method, hierarchy_ordered, last_method_named, method_in, resolve_from_vtable,
    resolve_method_in, resolve_static_field, static_field_in, vtable_row,
};
use crate::runtime::structs::constant_pool::{
    ConstantInfoView, ConstantPoolInfo, FieldResolve, MethodResolve,
};
use crate::runtime::structs::{Class, ClassView};
use vstd::prelude::*;

verus! {

/// The static field with this name and type that the first of the
/// interfaces from `k` on has or inherits.
pub open spec fn static_field_via(
    classes: Seq<Class>,
    interfaces: Seq<usize>,
    k: int,
    name: Seq<u8>,
    descriptor: FieldTypeView,
) -> Option<FieldResolve>
    decreases interfaces.len() - k,
{
    if k < 0 || k >= interfaces.len() {
        None
    } else {
        match static_field_in(classes, interfaces[k] as int, name, descriptor, false) {
            Some(r) => Some(r),
            None => static_field_via(classes, interfaces, k + 1, name, descriptor),
        }
    }
}

/// What a reference of the class to a field of its own leads to.
pub open spec fn own_field_link(
    classes: Seq<Class>,
    class: ClassView,
    name: Seq<u8>,
    descriptor: FieldTypeView,
) -> Option<FieldResolve> {
    match last_field_named(
        class.instance_fields_info,
        class.instance_fields_info.len() as int,
        name,
        descriptor,
    ) {
        Some(k) => Some(FieldResolve::InThisClass(class.instance_fields_info[k].index)),
        None => match last_field_named(
            class.static_fields_info,
            class.static_fields_info.len() as int,
            name,
            descriptor,
        ) {
            Some(k) => Some(FieldResolve::InThisClass(class.static_fields_info[k].index)),
            None => match static_field_via(classes, class.interfaces, 0, name, descriptor) {
                Some(r) => Some(r),
                None => match class.super_class {
                    Some(s) => static_field_in(classes, s as int, name, descriptor, false),
                    None => None,
                },
            },
        },
    }
}

/// The method with this name and descriptor that the super-class has or
/// inherits.
pub open spec fn inherited_method(
    classes: Seq<Class>,
    super_class: Option<usize>,
    name: Seq<u8>,
    descriptor: MethodDescriptorView,
    statics: bool,
) -> Option<MethodResolve> {
    match super_class {
        Some(s) => method_in(classes, s as int, name, descriptor, statics, false),
        None => None,
    }
}

/// What a reference of the class to a method of its own leads to.
pub open spec fn own_method_link(
    classes: Seq<Class>,
    class: ClassView,
    name: Seq<u8>,
    descriptor: MethodDescriptorView,
) -> Option<MethodResolve> {
    match last_method_named(class.methods, class.methods.len() as int, name, descriptor, true) {
        Some(k) => Some(MethodResolve::InThisClass { index: k as usize, vtable_index: -1isize }),
        None => match inherited_method(classes, class.super_class, name, descriptor, true) {
            Some(r) => Some(r),
            None => match last_method_named(
                class.methods,
                class.methods.len() as int,
                name,
                descriptor,
                false,
            ) {
                Some(k) => Some(
                    MethodResolve::InThisClass {
                        index: k as usize,
                        vtable_index: vtable_row(class.methods, class.vtable, k),
                    },
                ),
                None => inherited_method(classes, class.super_class, name, descriptor, false),
            },
        },
    }
}

/// The entry as it stands once the class is defined: a reference to a field
/// or a method of the class itself holds what it leads to, if it leads
/// anywhere.
pub open spec fn linked_entry(classes: Seq<Class>, class: ClassView, entry: ConstantInfoView) -> ConstantInfoView {
    match entry {
        ConstantInfoView::Fieldref { class_name, name, descriptor, resolve } => {
            if class_name == class.class_name && own_field_link(
                classes,
                class,
                name,
                descriptor,
            ).is_some() {
                ConstantInfoView::Fieldref {
                    class_name,
                    name,
                    descriptor,
                    resolve: own_field_link(classes, class, name, descriptor),
                }
            } else {
                entry
            }
        },
        ConstantInfoView::Methodref { class_name, name, descriptor, resolve } => {
            if class_name == class.class_name && own_method_link(
                classes,
                class,
                name,
                descriptor,
            ).is_some() {
                ConstantInfoView::Methodref {
                    class_name,
                    name,
                    descriptor,
                    resolve: own_method_link(classes, class, name, descriptor),
                }
            } else {
                entry
            }
        },
        _ => entry,
    }
}

/// The pool as it stands once the class is defined.
pub open spec fn linked_pool(classes: Seq<Class>, class: ClassView) -> Seq<ConstantInfoView> {
    Seq::new(
        class.constant_pool.len(),
        |i: int| linked_entry(classes, class, class.constant_pool[i]),
    )
}

/// Whether the super-class and the interfaces of the class are among
/// `classes`.
pub open spec fn parents_defined(classes: Seq<Class>, class: Class) -> bool {
    &&& class.super_class matches Some(s) ==> s < classes.len()
    &&& forall|k: int|
        0 <= k < class.interfaces.len() ==> (#[trigger] class.interfaces@[k]) < classes.len()
}

/// Finds what a reference of the class to a field of its own leads to.
fn link_own_field(classes: &Vec<Class>, class: &Class, name: &JavaStr, descriptor: &FieldDescriptor) -> (found:
    Option<FieldResolve>)
    requires
        hierarchy_ordered(classes@),
        parents_defined(classes@, *class),
    ensures
        found == own_field_link(classes@, class@, name@, descriptor@),
{
    match find_last_field(&class.instance_fields_info, name, descriptor) {
        Some(k) => {
            assert(class@.instance_fields_info[k as int] == class.instance_fields_info@[k as int]@);
            return Some(FieldResolve::InThisClass(class.instance_fields_info[k].index));
        },
        None => {},
    }
    match find_last_field(&class.static_fields_info, name, descriptor) {
        Some(k) => {
            assert(class@.static_fields_info[k as int] == class.static_fields_info@[k as int]@);
            return Some(FieldResolve::InThisClass(class.static_fields_info[k].index));
        },
        None => {},
    }
    let mut k: usize = 0;
    while k < class.interfaces.len()
        invariant
            k <= class.interfaces.len(),
            hierarchy_ordered(classes@),
            parents_defined(classes@, *class),
            last_field_named(
                class@.instance_fields_info,
                class@.instance_fields_info.len() as int,
                name@,
                descriptor@,
            ).is_none(),
            last_field_named(
                class@.static_fields_info,
                class@.static_fields_info.len() as int,
                name@,
                descriptor@,
            ).is_none(),
            static_field_via(classes@, class.interfaces@, 0, name@, descriptor@)
                == static_field_via(classes@, class.interfaces@, k as int, name@, descriptor@),
        decreases class.interfaces.len() - k,
    {
        match resolve_static_field(classes, class.interfaces[k], name, descriptor, false) {
            Some(r) => {
                return Some(r);
            },
            None => {},
        }
        k += 1;
    }
    match class.super_class {
        Some(s) => resolve_static_field(classes, s, name, descriptor, false),
        None => None,
    }
}

/// Finds what a reference of the class to a method of its own leads to.
fn link_own_method(classes: &Vec<Class>, class: &Class, name: &JavaStr, descriptor: &MethodDescriptor) -> (found:
    Option<MethodResolve>)
    requires
        hierarchy_ordered(classes@),
        parents_defined(classes@, *class),
    ensures
        found == own_method_link(classes@, class@, name@, descriptor@),
{
    match find_last_method(&class.methods, name, descriptor, true) {
        Some(k) => {
            return Some(MethodResolve::InThisClass { index: k, vtable_index: -1 });
        },
        None => {},
    }
    match class.super_class {
        Some(s) => match resolve_method_in(classes, s, name, descriptor, true, false) {
            Some(r) => {
                return Some(r);
            },
            None => {},
        },
        None => {},
    }
    match find_last_method(&class.methods, name, descriptor, false) {
        Some(k) => {
            return Some(
                MethodResolve::InThisClass { index: k, vtable_index: resolve_from_vtable(class, k) },
            );
        },
        None => {},
    }
    match class.super_class {
        Some(s) => resolve_method_in(classes, s, name, descriptor, false, false),
        None => None,
    }
}

/// What the entry with place `i` of the pool has to hold instead of what
/// it holds.
enum Link {
    Nothing,
    Field(FieldResolve),
    Method(MethodResolve),
}

/// Finds what entry `i` of the class's pool leads to, if it is a reference
/// to a field or a method of the class itself.
fn find_link(classes: &Vec<Class>, class: &Class, i: usize) -> (link: Link)
    requires
        hierarchy_ordered(classes@),
        parents_defined(classes@, *class),
        i < class.constant_pool.len(),
    ensures
        match link {
            Link::Nothing => linked_entry(classes@, class@, class.constant_pool@[i as int]@)
                == class.constant_pool@[i as int]@,
            Link::Field(r) => class.constant_pool@[i as int] matches ConstantPoolInfo::Fieldref(f)
                && linked_entry(classes@, class@, class.constant_pool@[i as int]@)
                == (ConstantInfoView::Fieldref {
                class_name: f.class_name@,
                name: f.name_and_type.name@,
                descriptor: f.name_and_type.descriptor@,
                resolve: Some(r),
            }),
            Link::Method(r) => class.constant_pool@[i as int] matches ConstantPoolInfo::Methodref(m)
                && linked_entry(classes@, class@, class.constant_pool@[i as int]@)
                == (ConstantInfoView::Methodref {
                class_name: m.class_name@,
                name: m.name_and_type.name@,
                descriptor: m.name_and_type.descriptor@,
                resolve: Some(r),
            }),
        },
{
    match &class.constant_pool[i] {
        ConstantPoolInfo::Fieldref(f) => {
            if f.class_name == class.class_name {
                match link_own_field(
                    classes,
                    class,
                    &f.name_and_type.name,
                    &f.name_and_type.descriptor,
                ) {
                    Some(r) => Link::Field(r),
                    None => Link::Nothing,
                }
            } else {
                Link::Nothing
            }
        },
        ConstantPoolInfo::Methodref(m) => {
            if m.class_name == class.class_name {
                match link_own_method(
                    classes,
                    class,
                    &m.name_and_type.name,
                    &m.name_and_type.descriptor,
                ) {
                    Some(r) => Link::Method(r),
                    None => Link::Nothing,
                }
            } else {
                Link::Nothing
            }
        },
        _ => Link::Nothing,
    }
}

/// Writes into entry `i` of the pool what it leads to.
fn set_link(pool: &mut Vec<ConstantPoolInfo>, i: usize, link: Link)
    requires
        i < old(pool).len(),
        link matches Link::Field(_) ==> old(pool)@[i as int] is Fieldref,
        link matches Link::Method(_) ==> old(pool)@[i as int] is Methodref,
    ensures
        final(pool).len() == old(pool).len(),
        forall|k: int| 0 <= k < old(pool).len() && k != i ==> final(pool)@[k] == old(pool)@[k],
        match link {
            Link::Nothing => final(pool)@[i as int] == old(pool)@[i as int],
            Link::Field(r) => final(pool)@[i as int]@ == (ConstantInfoView::Fieldref {
                class_name: old(pool)@[i as int]->Fieldref_0.class_name@,
                name: old(pool)@[i as int]->Fieldref_0.name_and_type.name@,
                descriptor: old(pool)@[i as int]->Fieldref_0.name_and_type.descriptor@,
                resolve: Some(r),
            }),
            Link::Method(r) => final(pool)@[i as int]@ == (ConstantInfoView::Methodref {
                class_name: old(pool)@[i as int]->Methodref_0.class_name@,
                name: old(pool)@[i as int]->Methodref_0.name_and_type.name@,
                descriptor: old(pool)@[i as int]->Methodref_0.name_and_type.descriptor@,
                resolve: Some(r),
            }),
        },
{
    match link {
        Link::Nothing => {},
        Link::Field(r) => match &mut pool[i] {
            ConstantPoolInfo::Fieldref(f) => {
                f.resolve = Some(r);
            },
            _ => {},
        },
        Link::Method(r) => match &mut pool[i] {
            ConstantPoolInfo::Methodref(m) => {
                m.resolve = Some(r);
            },
            _ => {},
        },
    }
}

/// Resolves the references of the class's pool that name the class itself.
/// The class is not among `classes` yet; its super-class and its interfaces
/// are.
pub fn link_own_references(classes: &Vec<Class>, class: &mut Class)
    requires
        hierarchy_ordered(classes@),
        parents_defined(classes@, *old(class)),
    ensures
        final(class)@ == (ClassView {
            constant_pool: linked_pool(classes@, old(class)@),
            ..old(class)@
        }),
        final(class).methods == old(class).methods,
        final(class).vtable == old(class).vtable,
        final(class).interfaces == old(class).interfaces,
{
    let ghost before = class@;
    let mut i: usize = 0;
    while i < class.constant_pool.len()
        invariant
            i <= class.constant_pool.len(),
            hierarchy_ordered(classes@),
            parents_defined(classes@, *class),
            before == old(class)@,
            class.constant_pool.len() == old(class).constant_pool.len(),
            class@ == (ClassView { constant_pool: class@.constant_pool, ..before }),
            class.methods == old(class).methods,
            class.vtable == old(class).vtable,
            class.interfaces == old(class).interfaces,
            class.super_class == old(class).super_class,
            forall|k: int|
                0 <= k < i ==> (#[trigger] class.constant_pool@[k])@ == linked_entry(
                    classes@,
                    before,
                    before.constant_pool[k],
                ),
            forall|k: int|
                i <= k < class.constant_pool.len() ==> (#[trigger] class.constant_pool@[k])@
                    == before.constant_pool[k],
        decreases class.constant_pool.len() - i,
    {
        let link = find_link(classes, class, i);
        proof {
            lemma_link_ignores_pool(classes@, class@, before, class.constant_pool@[i as int]@);
        }
        set_link(&mut class.constant_pool, i, link);
        i += 1;
    }
    assert(class@.constant_pool =~= linked_pool(classes@, before));
}

/// What an entry leads to does not depend on the pool that holds it.
proof fn lemma_link_ignores_pool(classes: Seq<Class>, a: ClassView, b: ClassView, entry: ConstantInfoView)
    requires
        a == (ClassView { constant_pool: a.constant_pool, ..b }),
    ensures
        linked_entry(classes, a, entry) == linked_entry(classes, b, entry),
{
}

} // verus!

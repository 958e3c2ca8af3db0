//! Following the references of a constant pool while the program runs.
//!
//! A reference that was resolved holds what it leads to. One that was not
//! is resolved when it is first used, among the classes that are defined
//! then, and holds what it leads to from then on. Where the class that a
//! reference names is not defined, the reference stays unresolved and the
//! class is named, so that it can be defined first.

use crate::runtime::class_loader::bootstrap::{
    lemma_shapes_keep_order, marked, resolve_failure, same_shape, same_shapes,
    BootstrapClassLoader, DefineError, DefineFailure,
};
use crate::runtime::class_loader::pool::entry_at;
use crate::runtime::class_loader::resolve::{field_in, method_in, resolve_field, resolve_method_in};
use crate::runtime::structs::constant_pool::{
    constants_view, ConstantInfoView, ConstantPoolInfo, FieldResolve, MethodResolve,
};
use crate::runtime::structs::Class;
use crate::descriptor::MethodDescriptorView;
use vstd::prelude::*;

verus! {

/// What following a reference to a field gives.
#[derive(Debug)]
pub enum FieldLookup {
    /// The field, and whether its values fill two slots.
    Found { resolve: FieldResolve, is_long: bool },
    /// The class that the reference names has no such field.
    NoSuchField,
    /// The class with this name has to be defined first.
    Missing(String),
    /// The index leads to no reference to a field.
    Malformed,
}

pub enum FieldLookupView {
    Found { resolve: FieldResolve, is_long: bool },
    NoSuchField,
    Missing(Seq<char>),
    Malformed,
}

impl View for FieldLookup {
    type V = FieldLookupView;

    open spec fn view(&self) -> FieldLookupView {
        match self {
            FieldLookup::Found { resolve, is_long } => FieldLookupView::Found {
                resolve: *resolve,
                is_long: *is_long,
            },
            FieldLookup::NoSuchField => FieldLookupView::NoSuchField,
            FieldLookup::Missing(name) => FieldLookupView::Missing(name@),
            FieldLookup::Malformed => FieldLookupView::Malformed,
        }
    }
}

/// What following the reference to a field with this index in the pool of
/// class `class` gives.
pub open spec fn field_lookup(
    classes: Seq<Class>,
    names: Map<Seq<char>, usize>,
    class: int,
    index: int,
    is_static: bool,
) -> FieldLookupView {
    match entry_at(constants_view(classes[class].constant_pool@), index) {
        ConstantInfoView::Fieldref { class_name, name, descriptor, resolve } => match resolve {
            Some(r) => FieldLookupView::Found { resolve: r, is_long: descriptor.is_long() },
            None => if names.contains_key(class_name) {
                match field_in(classes, names[class_name] as int, name, descriptor, is_static) {
                    Some(r) => FieldLookupView::Found { resolve: r, is_long: descriptor.is_long() },
                    None => FieldLookupView::NoSuchField,
                }
            } else {
                FieldLookupView::Missing(class_name)
            },
        },
        _ => FieldLookupView::Malformed,
    }
}

/// The pool in which the reference to a field with this index holds what
/// it leads to.
pub open spec fn with_field_cached(pool: Seq<ConstantInfoView>, index: int, r: FieldResolve) -> Seq<
    ConstantInfoView,
> {
    match entry_at(pool, index) {
        ConstantInfoView::Fieldref { class_name, name, descriptor, resolve } => pool.update(
            index - 1,
            ConstantInfoView::Fieldref { class_name, name, descriptor, resolve: Some(r) },
        ),
        _ => pool,
    }
}

/// What following a reference to a method gives.
#[derive(Debug)]
pub enum MethodLookup {
    Found { resolve: MethodResolve },
    /// The class that the reference names has no such method.
    NoSuchMethod,
    /// The class with this name has to be defined first.
    Missing(String),
    /// The index leads to no reference to a method.
    Malformed,
}

pub enum MethodLookupView {
    Found { resolve: MethodResolve },
    NoSuchMethod,
    Missing(Seq<char>),
    Malformed,
}

impl View for MethodLookup {
    type V = MethodLookupView;

    open spec fn view(&self) -> MethodLookupView {
        match self {
            MethodLookup::Found { resolve } => MethodLookupView::Found { resolve: *resolve },
            MethodLookup::NoSuchMethod => MethodLookupView::NoSuchMethod,
            MethodLookup::Missing(name) => MethodLookupView::Missing(name@),
            MethodLookup::Malformed => MethodLookupView::Malformed,
        }
    }
}

/// The class name, the name, the descriptor and the cached resolution of
/// the reference to a method, of a class or of an interface, with this
/// index.
pub open spec fn method_entry(pool: Seq<ConstantInfoView>, index: int) -> Option<
    (Seq<char>, Seq<u8>, MethodDescriptorView, Option<MethodResolve>),
> {
    match entry_at(pool, index) {
        ConstantInfoView::Methodref { class_name, name, descriptor, resolve } => Some(
            (class_name, name, descriptor, resolve),
        ),
        ConstantInfoView::InterfaceMethodref { class_name, name, descriptor, resolve } => Some(
            (class_name, name, descriptor, resolve),
        ),
        _ => None,
    }
}

/// What following the reference to a method with this index in the pool of
/// class `class` gives: a static method, or one that is not static.
pub open spec fn method_lookup(
    classes: Seq<Class>,
    names: Map<Seq<char>, usize>,
    class: int,
    index: int,
    statics: bool,
) -> MethodLookupView {
    match method_entry(constants_view(classes[class].constant_pool@), index) {
        Some((class_name, name, descriptor, resolve)) => match resolve {
            Some(r) => MethodLookupView::Found { resolve: r },
            None => if names.contains_key(class_name) {
                match method_in(classes, names[class_name] as int, name, descriptor, statics, false) {
                    Some(r) => MethodLookupView::Found { resolve: r },
                    None => MethodLookupView::NoSuchMethod,
                }
            } else {
                MethodLookupView::Missing(class_name)
            },
        },
        None => MethodLookupView::Malformed,
    }
}

/// The pool in which the reference to a method with this index holds what
/// it leads to.
pub open spec fn with_method_cached(pool: Seq<ConstantInfoView>, index: int, r: MethodResolve) -> Seq<
    ConstantInfoView,
> {
    match entry_at(pool, index) {
        ConstantInfoView::Methodref { class_name, name, descriptor, resolve } => pool.update(
            index - 1,
            ConstantInfoView::Methodref { class_name, name, descriptor, resolve: Some(r) },
        ),
        ConstantInfoView::InterfaceMethodref {
            class_name,
            name,
            descriptor,
            resolve,
        } => pool.update(
            index - 1,
            ConstantInfoView::InterfaceMethodref { class_name, name, descriptor, resolve: Some(r) },
        ),
        _ => pool,
    }
}

/// Whether `after` is `before` but for the pool of class `class`, which is
/// `pool`.
pub open spec fn pool_changed(
    before: BootstrapClassLoader,
    after: BootstrapClassLoader,
    class: int,
    pool: Seq<ConstantInfoView>,
) -> bool {
    &&& same_shapes(before, after)
    &&& constants_view(after.classes[class].constant_pool@) == pool
    &&& after.classes[class].clinit_call == before.classes[class].clinit_call
    &&& after.classes[class].static_fields == before.classes[class].static_fields
    &&& forall|id: int|
        0 <= id < before.classes.len() && id != class ==> after.classes[id] == before.classes[id]
}

/// Whether `after` is what following the reference to a field with this
/// index in the pool of class `class` makes of `before`: the reference holds
/// the field that was found; nothing else has changed.
pub open spec fn field_lookup_frame(
    before: BootstrapClassLoader,
    after: BootstrapClassLoader,
    class: int,
    index: int,
    is_static: bool,
) -> bool {
    &&& after.wf()
    &&& pool_changed(
        before,
        after,
        class,
        match field_lookup(before.classes@, before.names(), class, index, is_static) {
            FieldLookupView::Found { resolve, .. } => with_field_cached(
                constants_view(before.classes[class].constant_pool@),
                index,
                resolve,
            ),
            _ => constants_view(before.classes[class].constant_pool@),
        },
    )
}

/// Whether `after` is what following the reference to a method with this
/// index in the pool of class `class` makes of `before`: the reference holds
/// the method that was found; nothing else has changed.
pub open spec fn method_lookup_frame(
    before: BootstrapClassLoader,
    after: BootstrapClassLoader,
    class: int,
    index: int,
    statics: bool,
) -> bool {
    &&& after.wf()
    &&& pool_changed(
        before,
        after,
        class,
        match method_lookup(before.classes@, before.names(), class, index, statics) {
            MethodLookupView::Found { resolve } => with_method_cached(
                constants_view(before.classes[class].constant_pool@),
                index,
                resolve,
            ),
            _ => constants_view(before.classes[class].constant_pool@),
        },
    )
}

/// Writes into the reference to a field what it leads to.
fn cache_field(pool: &mut Vec<ConstantPoolInfo>, index: u16, r: FieldResolve)
    requires
        entry_at(constants_view(old(pool)@), index as int) is Fieldref,
    ensures
        constants_view(final(pool)@) == with_field_cached(
            constants_view(old(pool)@),
            index as int,
            r,
        ),
{
    if 1 <= index && index as usize <= pool.len() {
        let ghost before = constants_view(pool@);
        let i = index as usize - 1;
        assert(before[i as int] == pool@[i as int]@);
        match &mut pool[i] {
            ConstantPoolInfo::Fieldref(f) => {
                f.resolve = Some(r);
            },
            _ => {},
        }
        assert(constants_view(pool@) =~= with_field_cached(before, index as int, r));
    }
}

/// Writes into the reference to a method what it leads to.
fn cache_method(pool: &mut Vec<ConstantPoolInfo>, index: u16, r: MethodResolve)
    requires
        method_entry(constants_view(old(pool)@), index as int).is_some(),
    ensures
        constants_view(final(pool)@) == with_method_cached(
            constants_view(old(pool)@),
            index as int,
            r,
        ),
{
    if 1 <= index && index as usize <= pool.len() {
        let ghost before = constants_view(pool@);
        let i = index as usize - 1;
        assert(before[i as int] == pool@[i as int]@);
        match &mut pool[i] {
            ConstantPoolInfo::Methodref(m) => {
                m.resolve = Some(r);
            },
            ConstantPoolInfo::InterfaceMethodref(m) => {
                m.resolve = Some(r);
            },
            _ => {},
        }
        assert(constants_view(pool@) =~= with_method_cached(before, index as int, r));
    }
}

impl BootstrapClassLoader {
    /// Follows the reference to a field with this index in the pool of
    /// class `class`.
    pub fn field_reference(&mut self, class: usize, index: u16, is_static: bool) -> (found:
        FieldLookup)
        requires
            old(self).wf(),
            class < old(self).classes.len(),
        ensures
            found@ == field_lookup(
                old(self).classes@,
                old(self).names(),
                class as int,
                index as int,
                is_static,
            ),
            field_lookup_frame(*old(self), *final(self), class as int, index as int, is_static),
    {
        let ghost pool = constants_view(self.classes[class as int].constant_pool@);
        let (target, is_long) = match crate::runtime::class_loader::pool::entry(
            &self.classes[class].constant_pool,
            index,
        ) {
            Some(ConstantPoolInfo::Fieldref(f)) => {
                let is_long = f.name_and_type.descriptor.0.is_long();
                match f.resolve {
                    Some(r) => {
                        proof {
                            assert(same_shapes(*self, *self));
                            assert(with_field_cached(pool, index as int, r) =~= pool);
                        }
                        return FieldLookup::Found { resolve: r, is_long };
                    },
                    None => {},
                }
                match self.find_class(f.class_name.as_str()) {
                    Some(target) => (target, is_long),
                    None => {
                        proof {
                            assert(same_shapes(*self, *self));
                        }
                        return FieldLookup::Missing(f.class_name.clone());
                    },
                }
            },
            _ => {
                proof {
                    assert(same_shapes(*self, *self));
                }
                return FieldLookup::Malformed;
            },
        };
        let found = match &self.classes[class].constant_pool[index as usize - 1] {
            ConstantPoolInfo::Fieldref(f) => resolve_field(
                &self.classes,
                target,
                &f.name_and_type.name,
                &f.name_and_type.descriptor,
                is_static,
            ),
            _ => None,
        };
        match found {
            Some(r) => {
                cache_field(&mut self.classes[class].constant_pool, index, r);
                proof {
                    assert(same_shapes(*old(self), *self));
                    lemma_shapes_keep_order(*old(self), *self);
                }
                FieldLookup::Found { resolve: r, is_long }
            },
            None => {
                proof {
                    assert(same_shapes(*self, *self));
                }
                FieldLookup::NoSuchField
            },
        }
    }

    /// Follows the reference to a method with this index in the pool of
    /// class `class`: to a static method, or to one that is not static.
    pub fn method_reference(&mut self, class: usize, index: u16, statics: bool) -> (found:
        MethodLookup)
        requires
            old(self).wf(),
            class < old(self).classes.len(),
        ensures
            found@ == method_lookup(
                old(self).classes@,
                old(self).names(),
                class as int,
                index as int,
                statics,
            ),
            method_lookup_frame(*old(self), *final(self), class as int, index as int, statics),
    {
        let ghost pool = constants_view(self.classes[class as int].constant_pool@);
        let reference = match crate::runtime::class_loader::pool::entry(
            &self.classes[class].constant_pool,
            index,
        ) {
            Some(ConstantPoolInfo::Methodref(m)) => Some(m),
            Some(ConstantPoolInfo::InterfaceMethodref(m)) => Some(m),
            _ => None,
        };
        let m = match reference {
            Some(m) => m,
            None => {
                proof {
                    assert(same_shapes(*self, *self));
                }
                return MethodLookup::Malformed;
            },
        };
        match m.resolve {
            Some(r) => {
                proof {
                    assert(same_shapes(*self, *self));
                    assert(with_method_cached(pool, index as int, r) =~= pool);
                }
                return MethodLookup::Found { resolve: r };
            },
            None => {},
        }
        let target = match self.find_class(m.class_name.as_str()) {
            Some(target) => target,
            None => {
                proof {
                    assert(same_shapes(*self, *self));
                }
                return MethodLookup::Missing(m.class_name.clone());
            },
        };
        let found = resolve_method_in(
            &self.classes,
            target,
            &m.name_and_type.name,
            &m.name_and_type.descriptor,
            statics,
            false,
        );
        match found {
            Some(r) => {
                cache_method(&mut self.classes[class].constant_pool, index, r);
                proof {
                    assert(same_shapes(*old(self), *self));
                    lemma_shapes_keep_order(*old(self), *self);
                }
                MethodLookup::Found { resolve: r }
            },
            None => {
                proof {
                    assert(same_shapes(*self, *self));
                }
                MethodLookup::NoSuchMethod
            },
        }
    }
}

/// What following a reference to a class gives.
#[derive(Debug)]
pub enum ClassLookup {
    Found(usize),
    /// The class cannot be had now: it, or a class that it needs, has to be
    /// defined first, or its name is no name of a class.
    Failed(DefineError),
    /// The index leads to no reference to a class.
    Malformed,
}

pub enum ClassLookupView {
    Found(usize),
    Failed(DefineFailure),
    Malformed,
}

impl View for ClassLookup {
    type V = ClassLookupView;

    open spec fn view(&self) -> ClassLookupView {
        match self {
            ClassLookup::Found(id) => ClassLookupView::Found(*id),
            ClassLookup::Failed(e) => ClassLookupView::Failed(e@),
            ClassLookup::Malformed => ClassLookupView::Malformed,
        }
    }
}

/// What following the reference to a class with this index in the pool of
/// class `class` gives: the class itself where the reference names it; else
/// the class that the reference holds; else the class of that name, which
/// is among the classes of `after` if it can be had.
pub open spec fn class_found(
    before: BootstrapClassLoader,
    after: BootstrapClassLoader,
    class: int,
    index: int,
) -> ClassLookupView {
    match entry_at(constants_view(before.classes[class].constant_pool@), index) {
        ConstantInfoView::Class { name, class: cached } => {
            if name == before.classes[class].class_name@ {
                ClassLookupView::Found(class as usize)
            } else {
                match cached {
                    Some(id) => if id < before.classes.len() {
                        ClassLookupView::Found(id)
                    } else {
                        ClassLookupView::Malformed
                    },
                    None => match resolve_failure(before.names(), name) {
                        Some(f) => ClassLookupView::Failed(f),
                        None => ClassLookupView::Found(after.names()[name]),
                    },
                }
            }
        },
        _ => ClassLookupView::Malformed,
    }
}

/// Whether `after` is what following the reference to a class with this
/// index in the pool of class `class` makes of `before`: array classes may
/// have been defined, and the reference holds the class that was found;
/// nothing else has changed.
pub open spec fn class_lookup_frame(
    before: BootstrapClassLoader,
    after: BootstrapClassLoader,
    class: int,
    index: int,
) -> bool {
    &&& after.wf()
    &&& after.package_to_module == before.package_to_module
    &&& after.modules == before.modules
    &&& after.classes.len() >= before.classes.len()
    &&& forall|id: int|
        0 <= id < before.classes.len() && id != class ==> after.classes[id] == before.classes[id]
    &&& same_shape(before.classes[class], after.classes[class])
    &&& after.classes[class].clinit_call == before.classes[class].clinit_call
    &&& after.classes[class].static_fields == before.classes[class].static_fields
    &&& constants_view(after.classes[class].constant_pool@) == pool_after_class_lookup(
        before,
        class,
        index,
        class_found(before, after, class, index),
    )
    &&& class_found(before, after, class, index) matches ClassLookupView::Found(id) ==> id
        < after.classes.len()
    &&& !(class_found(before, after, class, index) is Found) ==> after.classes == before.classes
        && after.names() == before.names()
}

/// The pool of class `class` behind the lookup: the class that was found is
/// noted in the reference, if the reference named another class and held
/// none.
pub open spec fn pool_after_class_lookup(before: BootstrapClassLoader, class: int, index: int, found: ClassLookupView) -> Seq<
    ConstantInfoView,
> {
    let pool = constants_view(before.classes[class].constant_pool@);
    match (entry_at(pool, index), found) {
        (ConstantInfoView::Class { name, class: None }, ClassLookupView::Found(id)) => {
            if name == before.classes[class].class_name@ {
                pool
            } else {
                marked(pool, index, id)
            }
        },
        _ => pool,
    }
}

impl BootstrapClassLoader {
    /// Follows the reference to a class with this index in the pool of
    /// class `class`. An array class that is not defined yet is defined
    /// on the way.
    pub fn class_reference(&mut self, class: usize, index: u16) -> (found: ClassLookup)
        requires
            old(self).wf(),
            class < old(self).classes.len(),
        ensures
            found@ == class_found(*old(self), *final(self), class as int, index as int),
            class_lookup_frame(*old(self), *final(self), class as int, index as int),
    {
        let name = match crate::runtime::class_loader::pool::entry(
            &self.classes[class].constant_pool,
            index,
        ) {
            Some(ConstantPoolInfo::Class(info)) => {
                if info.name == self.classes[class].class_name {
                    return ClassLookup::Found(class);
                }
                match info.class {
                    Some(id) => {
                        if id < self.classes.len() {
                            return ClassLookup::Found(id);
                        }
                        return ClassLookup::Malformed;
                    },
                    None => {},
                }
                info.name.clone()
            },
            _ => {
                return ClassLookup::Malformed;
            },
        };
        let ghost start = self.classes@;
        match self.resolve_class(name.as_str()) {
            Ok(id) => {
                let ghost middle = *self;
                proof {
                    assert(self.names().contains_key(name@));
                    assert forall|c: int| 0 <= c < start.len() implies self.classes@[c]
                        == start[c] by {
                        assert(self.classes@.subrange(0, start.len() as int)[c]
                            == self.classes@[c]);
                    }
                }
                crate::runtime::class_loader::bootstrap::mark_class(
                    &mut self.classes[class].constant_pool,
                    index,
                    id,
                );
                proof {
                    assert(same_shapes(middle, *self));
                    lemma_shapes_keep_order(middle, *self);
                }
                ClassLookup::Found(id)
            },
            Err(e) => ClassLookup::Failed(e),
        }
    }
}

/// What asking for the class with this name gives: its place among the
/// classes of `after`, or why it cannot be had.
pub open spec fn class_named(
    before: BootstrapClassLoader,
    after: BootstrapClassLoader,
    name: Seq<char>,
) -> Result<usize, DefineFailure> {
    match resolve_failure(before.names(), name) {
        Some(f) => Err(f),
        None => Ok(after.names()[name]),
    }
}

/// Whether `after` is what asking for the class with this name makes of
/// `before`: array classes may have been defined behind the classes that
/// were there, which are as they were.
pub open spec fn class_named_frame(
    before: BootstrapClassLoader,
    after: BootstrapClassLoader,
    name: Seq<char>,
) -> bool {
    &&& after.wf()
    &&& after.package_to_module == before.package_to_module
    &&& after.modules == before.modules
    &&& after.classes.len() >= before.classes.len()
    &&& after.classes@.subrange(0, before.classes.len() as int) == before.classes@
    &&& class_named(before, after, name) matches Ok(id) ==> id < after.classes.len()
        && after.classes[id as int].class_name@ == name
    &&& class_named(before, after, name) is Err ==> after.classes == before.classes
        && after.names() == before.names()
}

impl BootstrapClassLoader {
    /// Finds the class with this name, and defines it first where it is an
    /// array class that is not defined yet.
    pub fn class_by_name(&mut self, name: &str) -> (r: Result<usize, DefineError>)
        requires
            old(self).wf(),
        ensures
            class_named_frame(*old(self), *final(self), name@),
            match r {
                Ok(id) => class_named(*old(self), *final(self), name@) == Ok::<
                    usize,
                    DefineFailure,
                >(id),
                Err(e) => class_named(*old(self), *final(self), name@) == Err::<
                    usize,
                    DefineFailure,
                >(e@),
            },
    {
        self.resolve_class(name)
    }
}

} // verus!

//! The bootstrap loader: the list of the classes that are defined, the table
//! from their names to their places in the list, and the routing from
//! packages to the modules that hold their class files.
//!
//! The loader defines a class from its decoded class file once its
//! super-class and its interfaces are defined. Where one of them is not, it
//! names the class that has to be defined first: finding and reading the
//! class file of that class is for whoever holds the modules.

use crate::class::structs::{Class as RawClass, ClassView as RawClassView};
use crate::descriptor::{
    field_descriptor_of, parse_field_descriptor, FieldDescriptor, FieldType, FieldTypeView,
};
use crate::runtime::class_loader::layout::{
    all_instance_fields, lay_out_instance_fields, layout_start, slots_before,
};
use crate::runtime::class_loader::pool::{class_name_at, resolve_cp_class};
use crate::runtime::class_loader::resolve::hierarchy_ordered;
use crate::runtime::class_loader::vtable::{build_vtable, built_vtable, row_valid, rows_valid};
use crate::runtime::class_loader::initialize::{
    clinit_place, find_clinit, plan_initialization, plan_of, InitError,
};
use crate::runtime::class_loader::link::{link_own_references, linked_pool, parents_defined};
use crate::runtime::interpreter::variable::Variable;
use crate::runtime::structs::ClinitStatus;
use crate::runtime::class_loader::{gen_array_class, parse_class, parsed_class, LinkError};
use crate::runtime::structs::constant_pool::{constants_view, ConstantInfoView, ConstantPoolInfo};
use crate::runtime::structs::{
    field_infos_view, is_array_name, method_infos_view, package_name_of, package_of,
    vtable_view, Class, ClassView, FieldInfo, VtableEntryView,
};
use crate::table::{entries, new_table, table_get, table_insert};
use vstd::prelude::*;
use vstd::string::*;

verus! {

/// The loader of the classes of the machine.
pub struct BootstrapClassLoader {
    /// The classes that are defined. A class is known by its place here.
    pub classes: Vec<Class>,
    /// The place of each class by its binary name.
    pub class_registry: dashmap::DashMap<String, usize>,
    /// For each package, the module that holds its classes.
    pub package_to_module: Vec<(String, usize)>,
    /// The number of modules that were added.
    pub modules: usize,
}

/// A source of class files: a module archive or a directory of classes.
pub trait ModuleLoader {
    /// The packages whose classes the module holds.
    fn packages(&self) -> Vec<String>;

    /// The name of the module.
    fn name(&self) -> String;

    /// The class file of the class whose name, with `.class` behind it, is
    /// `class_name`; none where the module has none.
    fn get_class_file(&self, class_name: &str) -> Option<RawClass>;
}

/// A value that is owned or borrowed.
pub enum OwnedOrRef<'a, T> {
    Owned(T),
    Ref(&'a T),
}

impl<'a, T> OwnedOrRef<'a, T> {
    /// The value.
    pub fn get(&self) -> (value: &T)
        ensures
            *value == match *self {
                OwnedOrRef::Owned(o) => o,
                OwnedOrRef::Ref(r) => *r,
            },
    {
        match self {
            OwnedOrRef::Owned(o) => o,
            OwnedOrRef::Ref(r) => r,
        }
    }
}

/// The module in the list that holds the package, the last that was added
/// for it.
pub open spec fn module_of_package(routes: Seq<(String, usize)>, n: int, package: Seq<char>) -> Option<
    usize,
>
    decreases n,
{
    if n <= 0 {
        None
    } else if routes[n - 1].0@ == package {
        Some(routes[n - 1].1)
    } else {
        module_of_package(routes, n - 1, package)
    }
}

impl BootstrapClassLoader {
    /// What the table of names holds.
    pub open spec fn names(&self) -> Map<Seq<char>, usize> {
        entries(self.class_registry)
    }

    /// Whether the loader is in order: the table of names leads to the
    /// classes by their names and to nothing else; the super-class and the
    /// interfaces of every class stand in front of it; and every row of
    /// every vtable leads to a method that exists.
    pub open spec fn wf(&self) -> bool {
        &&& hierarchy_ordered(self.classes@)
        &&& forall|id: int|
            0 <= id < self.classes.len() ==> rows_valid(
                self.classes@,
                (#[trigger] self.classes[id]).methods.len() as int,
                vtable_view(self.classes[id].vtable@),
            )
        &&& forall|id: int|
            0 <= id < self.classes.len() ==> self.names().contains_key(
                (#[trigger] self.classes[id]).class_name@,
            ) && self.names()[self.classes[id].class_name@] == id
        &&& forall|name: Seq<char>|
            self.names().contains_key(name) ==> (#[trigger] self.names()[name])
                < self.classes.len() && self.classes[self.names()[name] as int].class_name@ == name
    }

    /// A loader with no classes and no modules.
    pub fn new() -> (loader: Self)
        ensures
            loader.wf(),
            loader.classes.len() == 0,
            loader.package_to_module.len() == 0,
            loader.modules == 0,
            loader.names() =~= Map::empty(),
    {
        BootstrapClassLoader {
            classes: Vec::new(),
            class_registry: new_table(),
            package_to_module: Vec::new(),
            modules: 0,
        }
    }

    /// Adds a module that holds the classes of these packages, and gives
    /// its number. A package that an earlier module held is the new
    /// module's from now on.
    pub fn add_packages(&mut self, packages: Vec<String>) -> (module: usize)
        requires
            old(self).modules < usize::MAX,
        ensures
            module == old(self).modules,
            final(self).modules == module + 1,
            final(self).classes == old(self).classes,
            final(self).class_registry == old(self).class_registry,
            final(self).package_to_module.len() == old(self).package_to_module.len()
                + packages.len(),
            forall|k: int|
                0 <= k < old(self).package_to_module.len() ==> final(self).package_to_module@[k]
                    == old(self).package_to_module@[k],
            forall|k: int|
                0 <= k < packages.len() ==> (#[trigger] final(self).package_to_module@[old(self).package_to_module.len()
                    + k]).0@ == packages@[k]@ && final(self).package_to_module@[old(self).package_to_module.len()
                    + k].1 == module,
    {
        let module = self.modules;
        let ghost start = self.package_to_module.len();
        let mut i: usize = 0;
        while i < packages.len()
            invariant
                i <= packages.len(),
                module == old(self).modules,
                self.modules == old(self).modules,
                self.classes == old(self).classes,
                self.class_registry == old(self).class_registry,
                start == old(self).package_to_module.len(),
                self.package_to_module.len() == start + i,
                forall|k: int|
                    0 <= k < start ==> self.package_to_module@[k] == old(self).package_to_module@[k],
                forall|k: int|
                    0 <= k < i ==> (#[trigger] self.package_to_module@[start + k]).0@
                        == packages@[k]@ && self.package_to_module@[start + k].1 == module,
            decreases packages.len() - i,
        {
            self.package_to_module.push((packages[i].clone(), module));
            i += 1;
        }
        self.modules = module + 1;
        module
    }

    /// Adds a module and gives its number.
    pub fn add_module<M: ModuleLoader>(&mut self, module: &M) -> (number: usize)
        requires
            old(self).modules < usize::MAX,
        ensures
            number == old(self).modules,
            final(self).modules == number + 1,
            final(self).classes == old(self).classes,
            final(self).class_registry == old(self).class_registry,
    {
        let packages = module.packages();
        self.add_packages(packages)
    }

    /// The module that holds the class files of the package of this class.
    pub fn module_of(&self, class_name: &str) -> (module: Option<usize>)
        ensures
            module == module_of_package(
                self.package_to_module@,
                self.package_to_module.len() as int,
                package_of(class_name@),
            ),
    {
        let package = package_name_of(class_name).to_owned();
        let mut n: usize = self.package_to_module.len();
        while n > 0
            invariant
                n <= self.package_to_module.len(),
                package@ == package_of(class_name@),
                module_of_package(
                    self.package_to_module@,
                    self.package_to_module.len() as int,
                    package@,
                ) == module_of_package(self.package_to_module@, n as int, package@),
            decreases n,
        {
            if self.package_to_module[n - 1].0 == package {
                return Some(self.package_to_module[n - 1].1);
            }
            n -= 1;
        }
        None
    }

    /// The place of the class with this name, if it is defined.
    pub fn find_class(&self, class_name: &str) -> (found: Option<usize>)
        requires
            self.wf(),
        ensures
            match found {
                Some(id) => id < self.classes.len() && self.classes[id as int].class_name@
                    == class_name@ && self.names().contains_key(class_name@),
                None => !self.names().contains_key(class_name@) && forall|id: int|
                    0 <= id < self.classes.len() ==> (#[trigger] self.classes[id]).class_name@
                        != class_name@,
            },
    {
        table_get(&self.class_registry, class_name)
    }
}

/// Why a class cannot be defined now.
#[derive(Debug)]
pub enum DefineError {
    /// The class file cannot become a class.
    Link(LinkError),
    /// The class with this name has to be defined first.
    Missing(String),
    /// The instance fields need more slots than can be counted.
    TooManySlots,
    /// The name of an array class is no descriptor of an array.
    BadName,
}

/// The mathematical value of a [`DefineError`].
pub enum DefineFailure {
    Link(LinkError),
    Missing(Seq<char>),
    TooManySlots,
    BadName,
}

impl View for DefineError {
    type V = DefineFailure;

    open spec fn view(&self) -> DefineFailure {
        match self {
            DefineError::Link(e) => DefineFailure::Link(*e),
            DefineError::Missing(name) => DefineFailure::Missing(name@),
            DefineError::TooManySlots => DefineFailure::TooManySlots,
            DefineError::BadName => DefineFailure::BadName,
        }
    }
}

/// The indices in the pool of the classes that a class depends on: its
/// super-class, if it has one, and then its interfaces.
pub open spec fn dependency_indices(raw: RawClassView) -> Seq<u16> {
    if raw.super_class == 0 {
        raw.interfaces
    } else {
        seq![raw.super_class] + raw.interfaces
    }
}

/// The places of the first `n` classes that the class depends on, or why
/// the first of them that has none has none: its index leads to no class,
/// or the class is not defined.
pub open spec fn dependencies(
    names: Map<Seq<char>, usize>,
    pool: Seq<ConstantInfoView>,
    indices: Seq<u16>,
    n: int,
) -> Result<Seq<usize>, DefineFailure>
    decreases n,
{
    if n <= 0 {
        Ok(Seq::empty())
    } else {
        match dependencies(names, pool, indices, n - 1) {
            Err(e) => Err(e),
            Ok(front) => match class_name_at(pool, indices[n - 1] as int) {
                None => Err(DefineFailure::Link(LinkError::BadConstant { index: indices[n - 1] })),
                Some(name) => if names.contains_key(name) {
                    Ok(front.push(names[name]))
                } else {
                    Err(DefineFailure::Missing(name))
                },
            },
        }
    }
}

/// The pool in which the entry with this index, if it is a class, knows
/// the place of the class.
pub open spec fn marked(pool: Seq<ConstantInfoView>, index: int, place: usize) -> Seq<
    ConstantInfoView,
> {
    if 1 <= index <= pool.len() {
        match pool[index - 1] {
            ConstantInfoView::Class { name, class } => pool.update(
                index - 1,
                ConstantInfoView::Class { name, class: Some(place) },
            ),
            _ => pool,
        }
    } else {
        pool
    }
}

/// The pool in which the first `n` of the classes that the class depends on
/// are noted at their indices.
pub open spec fn marked_pool(
    pool: Seq<ConstantInfoView>,
    indices: Seq<u16>,
    places: Seq<usize>,
    n: int,
) -> Seq<ConstantInfoView>
    decreases n,
{
    if n <= 0 {
        pool
    } else {
        marked(marked_pool(pool, indices, places, n - 1), indices[n - 1] as int, places[n - 1])
    }
}

/// The class that is defined from a parsed class whose dependencies have
/// the places `places`: its super-class and its interfaces are set and
/// noted in the pool; its instance fields are laid out behind those of the
/// super-class; its vtable is built; and the references of its pool to
/// itself are resolved.
pub open spec fn defined_class(
    classes: Seq<Class>,
    parsed: ClassView,
    raw: RawClassView,
    places: Seq<usize>,
) -> ClassView {
    let super_class = if raw.super_class == 0 {
        None
    } else {
        Some(places[0])
    };
    let interfaces = if raw.super_class == 0 {
        places
    } else {
        places.subrange(1, places.len() as int)
    };
    let super_fields = match super_class {
        Some(s) => field_infos_view(classes[s as int].instance_fields_info@),
        None => Seq::empty(),
    };
    let with_parents = ClassView {
        super_class,
        interfaces,
        constant_pool: marked_pool(
            parsed.constant_pool,
            dependency_indices(raw),
            places,
            places.len() as int,
        ),
        instance_fields_info: all_instance_fields(super_fields, parsed.instance_fields_info),
        ..parsed
    };
    let with_vtable = ClassView { vtable: built_vtable(classes, with_parents), ..with_parents };
    ClassView { constant_pool: linked_pool(classes, with_vtable), ..with_vtable }
}

/// The class that defining the class file adds to the loader, or why it
/// adds none.
pub open spec fn definition(
    classes: Seq<Class>,
    names: Map<Seq<char>, usize>,
    raw: RawClassView,
) -> Result<ClassView, DefineFailure> {
    match parsed_class(raw) {
        Err(e) => Err(DefineFailure::Link(e)),
        Ok(parsed) => match dependencies(
            names,
            parsed.constant_pool,
            dependency_indices(raw),
            dependency_indices(raw).len() as int,
        ) {
            Err(e) => Err(e),
            Ok(places) => {
                let super_fields = if raw.super_class == 0 {
                    Seq::empty()
                } else {
                    field_infos_view(classes[places[0] as int].instance_fields_info@)
                };
                if layout_start(super_fields) + slots_before(
                    parsed.instance_fields_info,
                    parsed.instance_fields_info.len() as int,
                ) > usize::MAX {
                    Err(DefineFailure::TooManySlots)
                } else {
                    Ok(defined_class(classes, parsed, raw, places))
                }
            },
        },
    }
}

/// Adding a class behind classes that are in order keeps them in order, if
/// the parents of the class are among them.
pub proof fn lemma_push_keeps_order(classes: Seq<Class>, class: Class)
    requires
        hierarchy_ordered(classes),
        parents_defined(classes, class),
        class.array_element_type matches Some(e) ==> e < classes.len(),
    ensures
        hierarchy_ordered(classes.push(class)),
{
    let after = classes.push(class);
    assert forall|id: int| 0 <= id < after.len() implies {
        &&& (#[trigger] after[id]).super_class matches Some(s) ==> s < id
        &&& forall|k: int|
            0 <= k < after[id].interfaces.len() ==> (#[trigger] after[id].interfaces@[k]) < id
        &&& after[id].array_element_type matches Some(e) ==> e < id
    } by {
        if id < classes.len() {
            assert(after[id] == classes[id]);
        }
    }
}

/// Rows that lead to methods that exist still do among more classes.
pub proof fn lemma_rows_stay_valid(classes: Seq<Class>, class: Class, own_methods: int, table: Seq<VtableEntryView>)
    requires
        rows_valid(classes, own_methods, table),
    ensures
        rows_valid(classes.push(class), own_methods, table),
{
    let after = classes.push(class);
    assert forall|k: int| 0 <= k < table.len() implies row_valid(
        after,
        own_methods,
        (#[trigger] table[k]).index,
    ) by {
        assert(row_valid(classes, own_methods, table[k].index));
        match table[k].index {
            crate::runtime::structs::VtableIndex::InThisClass(_) => {},
            crate::runtime::structs::VtableIndex::OtherClass { class: c, index } => {
                assert(after[c as int] == classes[c as int]);
            },
            crate::runtime::structs::VtableIndex::OtherInterface { class: c, index } => {
                assert(after[c as int] == classes[c as int]);
            },
        }
    }
}

impl BootstrapClassLoader {
    /// Puts a class that is linked behind the classes and registers its
    /// name.
    fn register(&mut self, class: Class) -> (id: usize)
        requires
            old(self).wf(),
            !old(self).names().contains_key(class.class_name@),
            parents_defined(old(self).classes@, class),
            class.array_element_type matches Some(e) ==> e < old(self).classes.len(),
            rows_valid(old(self).classes@, class.methods.len() as int, vtable_view(class.vtable@)),
        ensures
            final(self).wf(),
            id == old(self).classes.len(),
            final(self).classes@ == old(self).classes@.push(class),
            final(self).names() == old(self).names().insert(class.class_name@, id),
            final(self).package_to_module == old(self).package_to_module,
            final(self).modules == old(self).modules,
    {
        let id = self.classes.len();
        let name = class.class_name.clone();
        proof {
            lemma_push_keeps_order(self.classes@, class);
            lemma_rows_stay_valid(
                self.classes@,
                class,
                class.methods.len() as int,
                vtable_view(class.vtable@),
            );
            assert forall|k: int| 0 <= k < self.classes.len() implies rows_valid(
                self.classes@.push(class),
                (#[trigger] self.classes@.push(class)[k]).methods.len() as int,
                vtable_view(self.classes@.push(class)[k].vtable@),
            ) by {
                lemma_rows_stay_valid(
                    self.classes@,
                    class,
                    self.classes[k].methods.len() as int,
                    vtable_view(self.classes[k].vtable@),
                );
            }
        }
        self.classes.push(class);
        table_insert(&mut self.class_registry, name, id);
        id
    }

    /// Finds the places of the classes that the class depends on, and
    /// notes them in the class: its super-class, its interfaces, and the
    /// entries of its pool that name them.
    fn resolve_parents(&self, class: &mut Class, class_file: &RawClass) -> (r: Result<
        (),
        DefineError,
    >)
        requires
            self.wf(),
            old(class).super_class is None,
            old(class).interfaces.len() == 0,
        ensures
            match r {
                Ok(()) => dependencies(
                    self.names(),
                    old(class)@.constant_pool,
                    dependency_indices(class_file@),
                    dependency_indices(class_file@).len() as int,
                ) matches Ok(places) && final(class)@ == (ClassView {
                    super_class: if class_file.super_class == 0 {
                        None
                    } else {
                        Some(places[0])
                    },
                    interfaces: if class_file.super_class == 0 {
                        places
                    } else {
                        places.subrange(1, places.len() as int)
                    },
                    constant_pool: marked_pool(
                        old(class)@.constant_pool,
                        dependency_indices(class_file@),
                        places,
                        places.len() as int,
                    ),
                    ..old(class)@
                }) && parents_defined(self.classes@, *final(class)),
                Err(e) => dependencies(
                    self.names(),
                    old(class)@.constant_pool,
                    dependency_indices(class_file@),
                    dependency_indices(class_file@).len() as int,
                ) == Err::<Seq<usize>, DefineFailure>(e@),
            },
    {
        let ghost pool = class@.constant_pool;
        let ghost indices = dependency_indices(class_file@);
        let ghost before = class@;
        let has_super = class_file.super_class != 0;
        let count = class_file.interfaces.len();
        let ghost offset: int = if has_super {
            1
        } else {
            0
        };
        let ghost mut places: Seq<usize> = Seq::empty();
        if has_super {
            let found = match resolve_cp_class(&class.constant_pool, class_file.super_class) {
                Some(info) => match self.find_class(info.name.as_str()) {
                    Some(id) => Ok(id),
                    None => Err(DefineError::Missing(info.name.clone())),
                },
                None => Err(
                    DefineError::Link(LinkError::BadConstant { index: class_file.super_class }),
                ),
            };
            match found {
                Ok(id) => {
                    mark_class(&mut class.constant_pool, class_file.super_class, id);
                    class.super_class = Some(id);
                    proof {
                        places = places.push(id);
                        assert(indices[0] == class_file.super_class);
                        assert(marked_pool(pool, indices, places, 0) == pool);
                    }
                },
                Err(e) => {
                    proof {
                        lemma_dependencies_failure(
                            self.names(),
                            pool,
                            indices,
                            0,
                            indices.len() as int,
                        );
                    }
                    return Err(e);
                },
            }
        }
        assert(indices.len() == offset + count);
        assert(class.interfaces@ =~= places.subrange(offset, places.len() as int));
        let mut k: usize = 0;
        while k < count
            invariant
                k <= count,
                count == class_file.interfaces.len(),
                self.wf(),
                has_super == (class_file.super_class != 0),
                offset == (if has_super {
                    1int
                } else {
                    0int
                }),
                indices == dependency_indices(class_file@),
                indices.len() == offset + count,
                pool == old(class)@.constant_pool,
                before == old(class)@,
                places.len() == offset + k,
                dependencies(self.names(), pool, indices, offset + k) == Ok::<
                    Seq<usize>,
                    DefineFailure,
                >(places),
                class.interfaces@ =~= places.subrange(offset, places.len() as int),
                class.super_class == (if has_super {
                    Some(places[0])
                } else {
                    None
                }),
                forall|j: int| 0 <= j < places.len() ==> (#[trigger] places[j]) < self.classes.len(),
                class@.constant_pool == marked_pool(pool, indices, places, places.len() as int),
                class@ == (ClassView {
                    super_class: class.super_class,
                    interfaces: class.interfaces@,
                    constant_pool: class@.constant_pool,
                    ..before
                }),
            decreases count - k,
        {
            let index = class_file.interfaces[k];
            assert(indices[offset + k] == index);
            let found = match resolve_cp_class(&class.constant_pool, index) {
                Some(info) => match self.find_class(info.name.as_str()) {
                    Some(id) => Ok(id),
                    None => Err(DefineError::Missing(info.name.clone())),
                },
                None => Err(DefineError::Link(LinkError::BadConstant { index })),
            };
            proof {
                lemma_marking_keeps_names(pool, indices, places, places.len() as int, index as int);
            }
            match found {
                Ok(id) => {
                    let ghost old_places = places;
                    mark_class(&mut class.constant_pool, index, id);
                    class.interfaces.push(id);
                    proof {
                        places = places.push(id);
                        lemma_marked_pool_prefix(pool, indices, old_places, places, old_places.len() as int);
                    }
                },
                Err(e) => {
                    proof {
                        lemma_dependencies_failure(
                            self.names(),
                            pool,
                            indices,
                            offset + k,
                            indices.len() as int,
                        );
                    }
                    return Err(e);
                },
            }
            k += 1;
        }
        proof {
            assert(places.subrange(0, places.len() as int) =~= places);
            assert forall|j: int| 0 <= j < class.interfaces.len() implies (
            #[trigger] class.interfaces@[j]) < self.classes.len() by {
                assert(class.interfaces@[j] == places[offset + j]);
            }
            if has_super {
                assert(places[0] < self.classes.len());
            }
        }
        Ok(())
    }
}

/// Notes in the entry with this index, if it is a class, the place of the
/// class.
pub fn mark_class(pool: &mut Vec<ConstantPoolInfo>, index: u16, id: usize)
    ensures
        final(pool).len() == old(pool).len(),
        constants_view(final(pool)@) == marked(constants_view(old(pool)@), index as int, id),
{
    if 1 <= index && index as usize <= pool.len() {
        let ghost before = constants_view(pool@);
        let i = index as usize - 1;
        assert(before[i as int] == pool@[i as int]@);
        match &mut pool[i] {
            ConstantPoolInfo::Class(info) => {
                info.class = Some(id);
            },
            _ => {},
        }
        assert(constants_view(pool@) =~= marked(before, index as int, id));
    }
}

/// A failure among the first dependencies is the failure of the whole.
proof fn lemma_dependencies_failure(
    names: Map<Seq<char>, usize>,
    pool: Seq<ConstantInfoView>,
    indices: Seq<u16>,
    i: int,
    n: int,
)
    requires
        0 <= i < n,
        dependencies(names, pool, indices, i) is Ok,
        dependencies(names, pool, indices, i + 1) is Err,
    ensures
        dependencies(names, pool, indices, n) == dependencies(names, pool, indices, i + 1),
    decreases n - i,
{
    if n > i + 1 {
        lemma_dependencies_failure(names, pool, indices, i, n - 1);
    }
}

/// Noting places in a pool changes no name in it.
proof fn lemma_marking_keeps_names(
    pool: Seq<ConstantInfoView>,
    indices: Seq<u16>,
    places: Seq<usize>,
    n: int,
    index: int,
)
    ensures
        marked_pool(pool, indices, places, n).len() == pool.len(),
        class_name_at(marked_pool(pool, indices, places, n), index) == class_name_at(pool, index),
    decreases n,
{
    if n > 0 {
        lemma_marking_keeps_names(pool, indices, places, n - 1, index);
    }
}

/// What is noted for the first `n` dependencies depends on their places
/// alone.
proof fn lemma_marked_pool_prefix(
    pool: Seq<ConstantInfoView>,
    indices: Seq<u16>,
    a: Seq<usize>,
    b: Seq<usize>,
    n: int,
)
    requires
        0 <= n <= a.len() <= b.len(),
        forall|k: int| 0 <= k < n ==> a[k] == b[k],
    ensures
        marked_pool(pool, indices, a, n) == marked_pool(pool, indices, b, n),
    decreases n,
{
    if n > 0 {
        lemma_marked_pool_prefix(pool, indices, a, b, n - 1);
    }
}

/// What defining the class file does to a loader with these classes and
/// names: the place of the class where it is defined already; else the
/// class that is added; else why none is.
pub open spec fn define_outcome(
    classes: Seq<Class>,
    names: Map<Seq<char>, usize>,
    raw: RawClassView,
) -> Result<(usize, Option<ClassView>), DefineFailure> {
    match parsed_class(raw) {
        Err(e) => Err(DefineFailure::Link(e)),
        Ok(parsed) => if names.contains_key(parsed.class_name) {
            Ok((names[parsed.class_name], None))
        } else {
            match definition(classes, names, raw) {
                Ok(class) => Ok((classes.len() as usize, Some(class))),
                Err(e) => Err(e),
            }
        },
    }
}

impl BootstrapClassLoader {
    /// Defines the class of a decoded class file, and gives its place. A
    /// class that is defined already keeps its place and stays as it is.
    pub fn define_class(&mut self, class_file: &RawClass) -> (r: Result<usize, DefineError>)
        requires
            old(self).wf(),
        ensures
            final(self).wf(),
            final(self).package_to_module == old(self).package_to_module,
            final(self).modules == old(self).modules,
            match r {
                Ok(id) => match define_outcome(old(self).classes@, old(self).names(), class_file@) {
                    Ok((place, None)) => id == place && final(self).classes == old(self).classes
                        && final(self).names() == old(self).names(),
                    Ok((place, Some(class))) => id == place && final(self).classes.len() == id + 1
                        && final(self).classes@.subrange(0, id as int) == old(self).classes@
                        && final(self).classes[id as int]@ == class && final(self).names() == old(self).names().insert(class.class_name, id),
                    Err(_) => false,
                },
                Err(e) => define_outcome(old(self).classes@, old(self).names(), class_file@)
                    == Err::<(usize, Option<ClassView>), DefineFailure>(e@) && final(self).classes
                    == old(self).classes && final(self).names() == old(self).names(),
            },
    {
        let mut class = match parse_class(class_file) {
            Ok(class) => class,
            Err(e) => {
                return Err(DefineError::Link(e));
            },
        };
        let ghost parsed = class@;
        match self.find_class(class.class_name.as_str()) {
            Some(id) => {
                return Ok(id);
            },
            None => {},
        }
        match self.resolve_parents(&mut class, class_file) {
            Ok(()) => {},
            Err(e) => {
                return Err(e);
            },
        }
        let ghost places = dependencies(
            self.names(),
            parsed.constant_pool,
            dependency_indices(class_file@),
            dependency_indices(class_file@).len() as int,
        )->Ok_0;
        let mut own: Vec<FieldInfo> = Vec::new();
        std::mem::swap(&mut own, &mut class.instance_fields_info);
        let no_fields: Vec<FieldInfo> = Vec::new();
        assert(field_infos_view(no_fields@) =~= Seq::empty());
        let super_fields: &Vec<FieldInfo> = match class.super_class {
            Some(s) => &self.classes[s].instance_fields_info,
            None => &no_fields,
        };
        match lay_out_instance_fields(super_fields, own) {
            Ok(fields) => {
                class.instance_fields_info = fields;
            },
            Err(_) => {
                return Err(DefineError::TooManySlots);
            },
        }
        let ghost with_parents = class@;
        build_vtable(&self.classes, &mut class);
        let ghost with_vtable = class@;
        link_own_references(&self.classes, &mut class);
        assert(class@ == defined_class(self.classes@, parsed, class_file@, places));
        let ghost before = self.classes@;
        let id = self.register(class);
        assert(self.classes@.subrange(0, id as int) =~= before);
        Ok(id)
    }
}

/// The first of the three classes that every array class rests on, its
/// super-class and its two interfaces, that is not defined.
pub open spec fn base_failure(names: Map<Seq<char>, usize>) -> Option<DefineFailure> {
    if !names.contains_key("java/lang/Object"@) {
        Some(DefineFailure::Missing("java/lang/Object"@))
    } else if !names.contains_key("java/lang/Cloneable"@) {
        Some(DefineFailure::Missing("java/lang/Cloneable"@))
    } else if !names.contains_key("java/io/Serializable"@) {
        Some(DefineFailure::Missing("java/io/Serializable"@))
    } else {
        None
    }
}

/// The array class with this name and this element class, for a loader with
/// these names.
pub open spec fn array_class(names: Map<Seq<char>, usize>, name: Seq<char>, element: Option<usize>) -> ClassView {
    ClassView {
        constant_pool: Seq::empty(),
        access_flags: crate::runtime::class_loader::ARRAY_CLASS_FLAGS,
        class_name: name,
        super_class: Some(names["java/lang/Object"@]),
        interfaces: seq![names["java/lang/Cloneable"@], names["java/io/Serializable"@]],
        static_fields_info: Seq::empty(),
        instance_fields_info: Seq::empty(),
        methods: Seq::empty(),
        attributes: Seq::empty(),
        static_fields: Seq::empty(),
        array_element_type: element,
        clinit_call: crate::runtime::structs::ClinitStatus::Init,
        vtable: Seq::empty(),
    }
}

/// Why the class with this name cannot be had from the classes that are
/// defined; nothing where it can. A class that is no array has to be
/// defined. An array class needs its name to be the descriptor of an
/// array, the class of its elements, if they are objects or arrays, and the
/// three classes that every array class rests on.
pub open spec fn resolve_failure(names: Map<Seq<char>, usize>, name: Seq<char>) -> Option<
    DefineFailure,
>
    decreases name.len(),
{
    if names.contains_key(name) {
        None
    } else if !is_array_name(name) {
        Some(DefineFailure::Missing(name))
    } else {
        match field_descriptor_of(name) {
            Ok(FieldTypeView::Array(element)) => match base_failure(names) {
                Some(f) => Some(f),
                None => match *element {
                    FieldTypeView::Object(n) => if names.contains_key(n) {
                        None
                    } else {
                        Some(DefineFailure::Missing(n))
                    },
                    FieldTypeView::Array(_) => resolve_failure(
                        names,
                        name.subrange(1, name.len() as int),
                    ),
                    _ => None,
                },
            },
            _ => Some(DefineFailure::BadName),
        }
    }
}

impl BootstrapClassLoader {
    /// Defines the array class with this name, whose elements are of the
    /// class `ele_class` where they are objects or arrays.
    pub fn define_array(&mut self, class_name: String, ele_class: Option<usize>) -> (r: Result<
        usize,
        DefineError,
    >)
        requires
            old(self).wf(),
            !old(self).names().contains_key(class_name@),
            ele_class matches Some(e) ==> e < old(self).classes.len(),
        ensures
            final(self).wf(),
            final(self).package_to_module == old(self).package_to_module,
            final(self).modules == old(self).modules,
            match r {
                Ok(id) => base_failure(old(self).names()).is_none() && id == old(self).classes.len() && final(self).classes.len() == id + 1 && final(self).classes@.subrange(0, id as int) == old(self).classes@ && final(self).classes[id as int]@ == array_class(old(self).names(), class_name@, ele_class)
                    && final(self).names() == old(self).names().insert(class_name@, id),
                Err(e) => base_failure(old(self).names()) == Some(e@) && final(self).classes
                    == old(self).classes && final(self).names() == old(self).names(),
            },
    {
        let object = match self.find_class("java/lang/Object") {
            Some(id) => id,
            None => {
                return Err(DefineError::Missing("java/lang/Object".to_owned()));
            },
        };
        let cloneable = match self.find_class("java/lang/Cloneable") {
            Some(id) => id,
            None => {
                return Err(DefineError::Missing("java/lang/Cloneable".to_owned()));
            },
        };
        let serializable = match self.find_class("java/io/Serializable") {
            Some(id) => id,
            None => {
                return Err(DefineError::Missing("java/io/Serializable".to_owned()));
            },
        };
        let mut class = gen_array_class(class_name);
        class.super_class = Some(object);
        class.interfaces.push(cloneable);
        class.interfaces.push(serializable);
        class.array_element_type = ele_class;
        assert(class@.interfaces =~= seq![cloneable, serializable]);
        assert(class@ == array_class(self.names(), class_name@, ele_class));
        let ghost before = self.classes@;
        let id = self.register(class);
        assert(self.classes@.subrange(0, id as int) =~= before);
        Ok(id)
    }

    /// The first of the three classes that every array class rests on that
    /// is not defined.
    fn check_base(&self) -> (missing: Option<DefineError>)
        requires
            self.wf(),
        ensures
            match missing {
                Some(e) => base_failure(self.names()) == Some(e@),
                None => base_failure(self.names()).is_none(),
            },
    {
        if self.find_class("java/lang/Object").is_none() {
            Some(DefineError::Missing("java/lang/Object".to_owned()))
        } else if self.find_class("java/lang/Cloneable").is_none() {
            Some(DefineError::Missing("java/lang/Cloneable".to_owned()))
        } else if self.find_class("java/io/Serializable").is_none() {
            Some(DefineError::Missing("java/io/Serializable".to_owned()))
        } else {
            None
        }
    }

    /// Finds the class with this name, and defines it first where it is an
    /// array class that is not defined yet. A class that is no array has to
    /// be defined from its class file.
    pub fn resolve_class(&mut self, class_name: &str) -> (r: Result<usize, DefineError>)
        requires
            old(self).wf(),
        ensures
            final(self).wf(),
            final(self).package_to_module == old(self).package_to_module,
            final(self).modules == old(self).modules,
            final(self).classes.len() >= old(self).classes.len(),
            final(self).classes@.subrange(0, old(self).classes.len() as int) == old(self).classes@,
            forall|name: Seq<char>| #[trigger]
                old(self).names().contains_key(name) ==> final(self).names().contains_key(name)
                    && final(self).names()[name] == old(self).names()[name],
            forall|name: Seq<char>| #[trigger]
                final(self).names().contains_key(name) && !old(self).names().contains_key(name)
                    ==> is_array_name(name) && name.len() <= class_name@.len(),
            old(self).names().contains_key(class_name@) ==> final(self).classes == old(self).classes
                && final(self).names() == old(self).names(),
            match r {
                Ok(id) => resolve_failure(old(self).names(), class_name@).is_none() && id < final(self).classes.len() && final(self).classes[id as int].class_name@ == class_name@,
                Err(e) => resolve_failure(old(self).names(), class_name@) == Some(e@) && final(self).classes == old(self).classes && final(self).names() == old(self).names(),
            },
        decreases class_name@.len(),
    {
        let ghost start = self.classes@;
        assert(start.subrange(0, start.len() as int) =~= start);
        match self.find_class(class_name) {
            Some(id) => {
                return Ok(id);
            },
            None => {},
        }
        let len = class_name.unicode_len();
        if !(len > 0 && class_name.get_char(0) == '[') {
            return Err(DefineError::Missing(class_name.to_owned()));
        }
        let element = match parse_field_descriptor(class_name) {
            Ok(FieldDescriptor(FieldType::Array(element))) => {
                assert(field_descriptor_of(class_name@) == Ok::<FieldTypeView, int>(
                    FieldTypeView::Array(Box::new(element.model())),
                ));
                element
            },
            Ok(other) => {
                assert(!(other.0 is Array));
                assert(!(other@ is Array));
                return Err(DefineError::BadName);
            },
            Err(_) => {
                return Err(DefineError::BadName);
            },
        };
        proof {
            reveal_strlit("java/lang/Object");
            reveal_strlit("java/lang/Cloneable");
            reveal_strlit("java/io/Serializable");
            assert(!is_array_name("java/lang/Object"@));
            assert(!is_array_name("java/lang/Cloneable"@));
            assert(!is_array_name("java/io/Serializable"@));
        }
        match self.check_base() {
            Some(e) => {
                return Err(e);
            },
            None => {},
        }
        let ghost element_view = element.model();
        let mut ele_class: Option<usize> = None;
        match *element {
            FieldType::Object(n) => match self.find_class(n.as_str()) {
                Some(id) => {
                    ele_class = Some(id);
                },
                None => {
                    return Err(DefineError::Missing(n));
                },
            },
            FieldType::Array(_) => {
                let inner = class_name.substring_char(1, len);
                let ghost names_before = self.names();
                assert(names_before == old(self).names());
                match self.resolve_class(inner) {
                    Ok(id) => {
                        ele_class = Some(id);
                    },
                    Err(e) => {
                        return Err(e);
                    },
                }

            },
            _ => {},
        }
        let ghost middle = self.classes@;
        let ghost middle_names = self.names();
        assert(forall|name: Seq<char>| #[trigger]
            old(self).names().contains_key(name) ==> middle_names.contains_key(name)
                && middle_names[name] == old(self).names()[name]);
        assert(forall|name: Seq<char>| #[trigger]
            middle_names.contains_key(name) && !old(self).names().contains_key(name)
                ==> is_array_name(name) && name.len() < class_name@.len());
        assert(!middle_names.contains_key(class_name@)) by {
            assert(class_name@.subrange(1, len as int).len() < class_name@.len());
        }
        assert(base_failure(middle_names) == base_failure(old(self).names()));
        match self.define_array(class_name.to_owned(), ele_class) {
            Ok(id) => {
                assert forall|name: Seq<char>| old(self).names().contains_key(name) implies self.names().contains_key(
                    name,
                ) && self.names()[name] == old(self).names()[name] by {
                    assert(middle_names.contains_key(name));
                }
                assert forall|name: Seq<char>|
                    self.names().contains_key(name) && !old(self).names().contains_key(
                        name,
                    ) implies is_array_name(name) && name.len() <= class_name@.len() by {
                    if name != class_name@ {
                        assert(middle_names.contains_key(name));
                    }
                }
                assert(self.classes@.subrange(0, start.len() as int) =~= start) by {
                    assert(self.classes@.subrange(0, middle.len() as int) == middle);
                    assert(middle.subrange(0, start.len() as int) == start);
                    assert forall|k: int| 0 <= k < start.len() implies self.classes@[k]
                        == start[k] by {
                        assert(self.classes@.subrange(0, middle.len() as int)[k]
                            == self.classes@[k]);
                        assert(middle.subrange(0, start.len() as int)[k] == middle[k]);
                    }
                }
                Ok(id)
            },
            Err(e) => Err(e),
        }
    }
}

/// Whether two classes have the same name, parents, methods and vtable.
pub open spec fn same_shape(a: Class, b: Class) -> bool {
    &&& a.class_name == b.class_name
    &&& a.super_class == b.super_class
    &&& a.interfaces == b.interfaces
    &&& a.array_element_type == b.array_element_type
    &&& a.methods == b.methods
    &&& a.vtable == b.vtable
    &&& a.access_flags == b.access_flags
    &&& a.instance_fields_info == b.instance_fields_info
    &&& a.static_fields_info == b.static_fields_info
    &&& a.attributes == b.attributes
}

/// Whether the loader `after` has the classes of `before` in the same
/// shape, and is otherwise the same.
pub open spec fn same_shapes(before: BootstrapClassLoader, after: BootstrapClassLoader) -> bool {
    &&& after.classes.len() == before.classes.len()
    &&& after.class_registry == before.class_registry
    &&& after.package_to_module == before.package_to_module
    &&& after.modules == before.modules
    &&& forall|id: int|
        0 <= id < before.classes.len() ==> same_shape(
            #[trigger] before.classes[id],
            after.classes[id],
        )
}

/// A loader whose classes change but keep their shape stays in order.
pub proof fn lemma_shapes_keep_order(before: BootstrapClassLoader, after: BootstrapClassLoader)
    requires
        before.wf(),
        same_shapes(before, after),
    ensures
        after.wf(),
{
    assert forall|id: int| 0 <= id < after.classes.len() implies {
        &&& (#[trigger] after.classes@[id]).super_class matches Some(s) ==> s < id
        &&& forall|k: int|
            0 <= k < after.classes@[id].interfaces.len() ==> (
            #[trigger] after.classes@[id].interfaces@[k]) < id
        &&& after.classes@[id].array_element_type matches Some(e) ==> e < id
    } by {
        assert(same_shape(before.classes[id], after.classes[id]));
    }
    assert forall|id: int| 0 <= id < after.classes.len() implies rows_valid(
        after.classes@,
        (#[trigger] after.classes[id]).methods.len() as int,
        vtable_view(after.classes[id].vtable@),
    ) by {
        assert(same_shape(before.classes[id], after.classes[id]));
        let table = vtable_view(before.classes[id].vtable@);
        assert(rows_valid(before.classes@, before.classes[id].methods.len() as int, table));
        assert forall|k: int| 0 <= k < table.len() implies row_valid(
            after.classes@,
            after.classes[id].methods.len() as int,
            (#[trigger] table[k]).index,
        ) by {
            assert(row_valid(before.classes@, before.classes[id].methods.len() as int, table[k].index));
            match table[k].index {
                crate::runtime::structs::VtableIndex::InThisClass(_) => {},
                crate::runtime::structs::VtableIndex::OtherClass { class: c, index } => {
                    assert(same_shape(before.classes[c as int], after.classes[c as int]));
                },
                crate::runtime::structs::VtableIndex::OtherInterface { class: c, index } => {
                    assert(same_shape(before.classes[c as int], after.classes[c as int]));
                },
            }
        }
    }
    assert forall|id: int| 0 <= id < after.classes.len() implies after.names().contains_key(
        (#[trigger] after.classes[id]).class_name@,
    ) && after.names()[after.classes[id].class_name@] == id by {
        assert(same_shape(before.classes[id], after.classes[id]));
    }
    assert forall|name: Seq<char>| after.names().contains_key(name) implies (
    #[trigger] after.names()[name]) < after.classes.len()
        && after.classes[after.names()[name] as int].class_name@ == name by {
        assert(same_shape(
            before.classes[before.names()[name] as int],
            after.classes[before.names()[name] as int],
        ));
    }
}

impl BootstrapClassLoader {
    /// Notes how far the initialization of a class has come.
    pub fn set_status(&mut self, class: usize, status: ClinitStatus)
        requires
            old(self).wf(),
            class < old(self).classes.len(),
        ensures
            final(self).wf(),
            same_shapes(*old(self), *final(self)),
            final(self).classes[class as int].clinit_call == status,
            final(self).classes[class as int].constant_pool == old(self).classes[class as int].constant_pool,
            final(self).classes[class as int].static_fields == old(self).classes[class as int].static_fields,
            forall|id: int|
                0 <= id < old(self).classes.len() && id != class ==> final(self).classes[id]
                    == old(self).classes[id],
    {
        self.classes[class].clinit_call = status;
        proof {
            lemma_shapes_keep_order(*old(self), *self);
        }
    }

    /// Writes a static slot of a class.
    pub fn set_static_field(&mut self, class: usize, index: usize, value: Variable)
        requires
            old(self).wf(),
            class < old(self).classes.len(),
            index < old(self).classes[class as int].static_fields.len(),
        ensures
            final(self).wf(),
            same_shapes(*old(self), *final(self)),
            final(self).classes[class as int].static_fields@ == old(self).classes[class as int].static_fields@.update(index as int, value),
            final(self).classes[class as int].clinit_call == old(self).classes[class as int].clinit_call,
            final(self).classes[class as int].constant_pool == old(self).classes[class as int].constant_pool,
            forall|id: int|
                0 <= id < old(self).classes.len() && id != class ==> final(self).classes[id]
                    == old(self).classes[id],
    {
        self.classes[class].static_fields.set(index, value);
        proof {
            lemma_shapes_keep_order(*old(self), *self);
        }
    }
}

/// The state of a class of the plan once the plan is under way: a class
/// with an initializer is being initialized by the thread, a class without
/// one is initialized.
pub open spec fn planned_status(class: Class, thread: usize) -> ClinitStatus {
    if clinit_place(method_infos_view(class.methods@), 0).is_some() {
        ClinitStatus::Initializing { thread }
    } else {
        ClinitStatus::Init
    }
}

/// The initializers to run for the first `n` classes of the plan, in their
/// order: each as the place of its class and its place among the methods
/// of the class.
pub open spec fn initializers(classes: Seq<Class>, plan: Seq<usize>, n: int) -> Seq<(usize, usize)>
    decreases n,
{
    if n <= 0 {
        Seq::empty()
    } else {
        match clinit_place(method_infos_view(classes[plan[n - 1] as int].methods@), 0) {
            Some(m) => initializers(classes, plan, n - 1).push((plan[n - 1], m as usize)),
            None => initializers(classes, plan, n - 1),
        }
    }
}

impl BootstrapClassLoader {
    /// Starts the initialization of a class for a thread: plans which
    /// classes have to be initialized, notes for each that it is being
    /// initialized, or that it is initialized where it has no initializer,
    /// and gives the initializers to run, in their order. When an
    /// initializer has run, [`Self::finish_initialization`] notes how it
    /// ended.
    pub fn initialize_class(&mut self, class: usize, thread: usize) -> (r: Result<
        Vec<(usize, usize)>,
        InitError,
    >)
        requires
            old(self).wf(),
            class < old(self).classes.len(),
        ensures
            final(self).wf(),
            same_shapes(*old(self), *final(self)),
            forall|id: int|
                0 <= id < old(self).classes.len() ==> (#[trigger] final(self).classes[id]).constant_pool
                    == old(self).classes[id].constant_pool && final(self).classes[id].static_fields
                    == old(self).classes[id].static_fields,
            match r {
                Ok(runs) => {
                    &&& plan_of(old(self).classes@, class, thread, Seq::empty()) matches Ok(plan)
                    &&& runs@ == initializers(old(self).classes@, plan, plan.len() as int)
                    &&& forall|id: int|
                        0 <= id < old(self).classes.len() ==> (#[trigger] final(self).classes[id]).clinit_call == (if plan.contains(id as usize) {
                            planned_status(old(self).classes[id], thread)
                        } else {
                            old(self).classes[id].clinit_call
                        })
                },
                Err(e) => plan_of(old(self).classes@, class, thread, Seq::empty()) == Err::<
                    Seq<usize>,
                    InitError,
                >(e) && *final(self) == *old(self),
            },
    {
        let plan = match plan_initialization(&self.classes, class, thread, Vec::new()) {
            Ok(plan) => plan,
            Err(e) => {
                return Err(e);
            },
        };
        proof {
            crate::runtime::class_loader::initialize::lemma_planned_are_new(
                self.classes@,
                class,
                thread,
                Seq::empty(),
            );
        }
        let mut runs: Vec<(usize, usize)> = Vec::new();
        let mut i: usize = 0;
        while i < plan.len()
            invariant
                i <= plan.len(),
                self.wf(),
                same_shapes(*old(self), *self),
                forall|x: usize| plan@.contains(x) ==> x < old(self).classes.len(),
                runs@ == initializers(old(self).classes@, plan@, i as int),
                forall|id: int|
                    0 <= id < old(self).classes.len() ==> (#[trigger] self.classes[id]).constant_pool
                        == old(self).classes[id].constant_pool && self.classes[id].static_fields
                        == old(self).classes[id].static_fields,
                forall|id: int|
                    0 <= id < old(self).classes.len() ==> (#[trigger] self.classes[id]).clinit_call
                        == (if plan@.subrange(0, i as int).contains(id as usize) {
                        planned_status(old(self).classes[id], thread)
                    } else {
                        old(self).classes[id].clinit_call
                    }),
            decreases plan.len() - i,
        {
            let id = plan[i];
            assert(plan@.contains(id));
            assert(same_shape(old(self).classes[id as int], self.classes[id as int]));
            let ghost before = *self;
            let status = match find_clinit(&self.classes[id].methods) {
                Some(m) => {
                    runs.push((id, m));
                    ClinitStatus::Initializing { thread }
                },
                None => ClinitStatus::Init,
            };
            self.set_status(id, status);
            proof {
                let front = plan@.subrange(0, i as int);
                let next = plan@.subrange(0, i + 1);
                assert(next =~= front.push(id));
                assert forall|x: usize| next.contains(x) == (front.contains(x) || x == id) by {
                    if next.contains(x) {
                        let j = choose|j: int| 0 <= j < next.len() && next[j] == x;
                        if j < front.len() {
                            assert(front[j] == x);
                        }
                    }
                    if front.contains(x) {
                        let j = choose|j: int| 0 <= j < front.len() && front[j] == x;
                        assert(next[j] == x);
                    }
                    if x == id {
                        assert(next[i as int] == x);
                    }
                }
                assert forall|c: int| 0 <= c < old(self).classes.len() implies same_shape(
                    #[trigger] old(self).classes[c],
                    self.classes[c],
                ) by {
                    assert(same_shape(old(self).classes[c], before.classes[c]));
                    assert(same_shape(before.classes[c], self.classes[c]));
                }
            }
            i += 1;
        }
        assert(plan@.subrange(0, plan.len() as int) =~= plan@);
        Ok(runs)
    }

    /// Notes how the initializer of a class ended: the class is initialized,
    /// or its initialization has failed for good.
    pub fn finish_initialization(&mut self, class: usize, succeeded: bool)
        requires
            old(self).wf(),
            class < old(self).classes.len(),
        ensures
            final(self).wf(),
            same_shapes(*old(self), *final(self)),
            final(self).classes[class as int].clinit_call == (if succeeded {
                ClinitStatus::Init
            } else {
                ClinitStatus::Failed
            }),
            final(self).classes[class as int].constant_pool == old(self).classes[class as int].constant_pool,
            final(self).classes[class as int].static_fields == old(self).classes[class as int].static_fields,
            forall|id: int|
                0 <= id < old(self).classes.len() && id != class ==> final(self).classes[id]
                    == old(self).classes[id],
    {
        self.set_status(
            class,
            if succeeded {
                ClinitStatus::Init
            } else {
                ClinitStatus::Failed
            },
        );
    }
}

} // verus!

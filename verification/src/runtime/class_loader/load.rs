//! Loading: classes that are not defined yet are had from the modules.

use crate::class::structs::Class as RawClass;
use crate::class::structs::ClassView as RawClassView;
use crate::runtime::class_loader::bootstrap::{
    define_outcome, module_of_package, resolve_failure, BootstrapClassLoader, DefineError,
    DefineFailure, ModuleLoader,
};
use crate::runtime::class_loader::parsed_class;
use crate::runtime::structs::{package_of, Class};
use crate::runtime::famous_classes::{
    famous_name, first_missing, lemma_famous_names_are_plain, lemma_first_missing_is_missing,
    CLASS_CLASS, FAMOUS_CLASSES, STRING_CLASS,
};
use crate::runtime::native::bridge::boot_natives;
use crate::runtime::special_fields_of;
use crate::runtime::structs::field_infos_view;
use crate::runtime::structs::is_array_name;
use crate::runtime::Vm;
use crate::table::entries;
use vstd::prelude::*;

verus! {

/// Why a class cannot be loaded.
#[derive(Debug)]
pub enum LoadError {
    /// No module holds the package of the class with this name, or the
    /// module that does has no class file for it.
    NotFound(String),
    /// The module gave the class file of another class for this name.
    WrongClass(String),
    /// The class, or a class that it needs, cannot be defined.
    Define(DefineError),
    /// More classes had to be loaded than the fuel allowed.
    OutOfFuel,
}

/// The mathematical value of a [`LoadError`].
pub enum LoadFailure {
    NotFound(Seq<char>),
    WrongClass(Seq<char>),
    Define(DefineFailure),
    OutOfFuel,
}

impl View for LoadError {
    type V = LoadFailure;

    open spec fn view(&self) -> LoadFailure {
        match self {
            LoadError::NotFound(name) => LoadFailure::NotFound(name@),
            LoadError::WrongClass(name) => LoadFailure::WrongClass(name@),
            LoadError::Define(e) => LoadFailure::Define(e@),
            LoadError::OutOfFuel => LoadFailure::OutOfFuel,
        }
    }
}

/// Whether the loader `after` is `before` with more classes: the classes
/// that were there keep their places and stay as they are.
pub open spec fn grown(before: BootstrapClassLoader, after: BootstrapClassLoader) -> bool {
    &&& after.wf()
    &&& after.package_to_module == before.package_to_module
    &&& after.modules == before.modules
    &&& after.classes.len() >= before.classes.len()
    &&& after.classes@.subrange(0, before.classes.len() as int) == before.classes@
}

/// A loader that has grown twice has grown.
pub proof fn lemma_grown_twice(a: BootstrapClassLoader, b: BootstrapClassLoader, c: BootstrapClassLoader)
    requires
        grown(a, b),
        grown(b, c),
    ensures
        grown(a, c),
{
    assert(c.classes@.subrange(0, a.classes.len() as int) =~= a.classes@) by {
        assert forall|k: int| 0 <= k < a.classes.len() implies c.classes@[k] == a.classes@[k] by {
            assert(b.classes@.subrange(0, a.classes.len() as int)[k] == a.classes@[k]);
            assert(c.classes@.subrange(0, b.classes.len() as int)[k] == b.classes@[k]);
        }
    }
}

/// A loader that has grown knows every name that it knew, at the same
/// place.
pub proof fn lemma_grown_keeps_names(before: BootstrapClassLoader, after: BootstrapClassLoader, name: Seq<char>)
    requires
        before.wf(),
        grown(before, after),
        before.names().contains_key(name),
    ensures
        after.names().contains_key(name),
        after.names()[name] == before.names()[name],
{
    let id = before.names()[name];
    assert(before.classes[id as int].class_name@ == name);
    assert(after.classes@.subrange(0, before.classes.len() as int)[id as int]
        == before.classes@[id as int]);
    assert(after.classes[id as int].class_name@ == name);
}

/// The name of the class file of a class.
fn file_name(class_name: &str) -> (name: String)
    ensures
        name@ == class_name@ + ".class"@,
{
    String::from_str(class_name).concat(".class")
}

/// Whether the name begins with `[`.
fn names_array(name: &str) -> (yes: bool)
    ensures
        yes == is_array_name(name@),
{
    name.unicode_len() > 0 && name.get_char(0) == '['
}

/// What the class file that a module gave for the class with this name
/// makes of a loader with these classes and names: the place of the class
/// that the file describes, where that is the class that was asked for and
/// it is or can be defined; else why not.
pub open spec fn loaded_outcome(
    classes: Seq<Class>,
    names: Map<Seq<char>, usize>,
    raw: RawClassView,
    class_name: Seq<char>,
) -> Result<usize, LoadFailure> {
    match define_outcome(classes, names, raw) {
        Err(failure) => Err(LoadFailure::Define(failure)),
        Ok((place, _)) => if parsed_class(raw)->Ok_0.class_name == class_name {
            Ok(place)
        } else {
            Err(LoadFailure::WrongClass(class_name))
        },
    }
}

/// Takes the class file that a module gave for the class with this name:
/// defines the class that the file describes, and gives its place where
/// that is the class that was asked for. Where the class cannot be
/// defined, the loader stays as it is; a class of another name is defined
/// all the same.
pub fn define_loaded(loader: &mut BootstrapClassLoader, class_file: &RawClass, class_name: &str) -> (r:
    Result<usize, LoadError>)
    requires
        old(loader).wf(),
    ensures
        grown(*old(loader), *final(loader)),
        match r {
            Ok(id) => loaded_outcome(
                old(loader).classes@,
                old(loader).names(),
                class_file@,
                class_name@,
            ) == Ok::<usize, LoadFailure>(id) && id < final(loader).classes.len()
                && final(loader).classes[id as int].class_name@ == class_name@,
            Err(e) => loaded_outcome(
                old(loader).classes@,
                old(loader).names(),
                class_file@,
                class_name@,
            ) == Err::<usize, LoadFailure>(e@),
        },
        match define_outcome(old(loader).classes@, old(loader).names(), class_file@) {
            Ok((place, Some(class))) => final(loader).classes.len() == place + 1
                && final(loader).classes[place as int]@ == class && final(loader).names() == old(
                loader,
            ).names().insert(class.class_name, place),
            _ => final(loader).classes == old(loader).classes && final(loader).names() == old(
                loader,
            ).names(),
        },
{
    assert(loader.classes@.subrange(0, loader.classes.len() as int) =~= loader.classes@);
    let id = match loader.define_class(class_file) {
        Ok(id) => id,
        Err(e) => {
            return Err(LoadError::Define(e));
        },
    };
    let ghost name = parsed_class(class_file@)->Ok_0.class_name;
    proof {
        match define_outcome(old(loader).classes@, old(loader).names(), class_file@) {
            Ok((place, None)) => {
                assert(old(loader).names().contains_key(name));
                assert(old(loader).classes[place as int].class_name@ == name);
            },
            Ok((place, Some(class))) => {
                assert(class.class_name == name);
            },
            Err(_) => {},
        }
    }
    assert(id < loader.classes.len());
    assert(loader.classes[id as int].class_name@ == name);
    let wanted = class_name.to_owned();
    if loader.classes[id].class_name == wanted {
        Ok(id)
    } else {
        Err(LoadError::WrongClass(wanted))
    }
}

/// The module that holds the package of the class with this name, among
/// `modules` modules; nothing where no module does.
pub open spec fn module_for(loader: BootstrapClassLoader, modules: int, class_name: Seq<char>) -> Option<
    usize,
> {
    match module_of_package(
        loader.package_to_module@,
        loader.package_to_module.len() as int,
        package_of(class_name),
    ) {
        Some(m) => if m < modules {
            Some(m)
        } else {
            None
        },
        None => None,
    }
}

/// Whether loading failed in this way.
pub open spec fn fails_with(r: Result<usize, LoadError>, failure: LoadFailure) -> bool {
    r is Err && r->Err_0@ == failure
}

/// Whether the two loaders have the same classes under the same names.
pub open spec fn same_classes(before: BootstrapClassLoader, after: BootstrapClassLoader) -> bool {
    after.classes == before.classes && after.names() == before.names()
}

/// Gives the place of the class with this name, and defines it first where
/// it is not defined.
///
/// An array class is defined as soon as the class of its elements is; where
/// that class is missing, it is loaded first. Any other class is defined
/// with the class file that the module of its package has for it
/// ([`define_loaded`]); where that needs a class that is missing, that
/// class is loaded first, in the same way, and the class file is taken
/// again. At most `fuel` class files are asked for on the way from the
/// class to any class that it needs: with no fuel, no module is asked.
pub fn load_class<M: ModuleLoader>(
    loader: &mut BootstrapClassLoader,
    modules: &Vec<M>,
    class_name: &str,
    fuel: usize,
) -> (r: Result<usize, LoadError>)
    requires
        old(loader).wf(),
    ensures
        grown(*old(loader), *final(loader)),
        r matches Ok(id) ==> id < final(loader).classes.len()
            && final(loader).classes[id as int].class_name@ == class_name@,
        old(loader).names().contains_key(class_name@) ==> r == Ok::<usize, LoadError>(
            old(loader).names()[class_name@],
        ) && final(loader).classes == old(loader).classes && final(loader).names() == old(
            loader,
        ).names(),
        is_array_name(class_name@) ==> match resolve_failure(old(loader).names(), class_name@) {
            None => r is Ok,
            Some(DefineFailure::Missing(_)) => fuel == 0 ==> fails_with(r, LoadFailure::OutOfFuel)
                && same_classes(*old(loader), *final(loader)),
            Some(failure) => fails_with(r, LoadFailure::Define(failure)) && same_classes(
                *old(loader),
                *final(loader),
            ),
        },
        !is_array_name(class_name@) && !old(loader).names().contains_key(class_name@) && fuel == 0
            ==> fails_with(r, LoadFailure::OutOfFuel) && same_classes(*old(loader), *final(loader)),
        !is_array_name(class_name@) && !old(loader).names().contains_key(class_name@) && fuel > 0
            && module_for(*old(loader), modules.len() as int, class_name@).is_none() ==> fails_with(
            r,
            LoadFailure::NotFound(class_name@),
        ) && same_classes(*old(loader), *final(loader)),
    decreases fuel,
{
    assert(loader.classes@.subrange(0, loader.classes.len() as int) =~= loader.classes@);
    match loader.find_class(class_name) {
        Some(id) => {
            return Ok(id);
        },
        None => {},
    }
    if names_array(class_name) {
        match loader.class_by_name(class_name) {
            Ok(id) => {
                return Ok(id);
            },
            Err(DefineError::Missing(needed)) => {
                if fuel == 0 {
                    return Err(LoadError::OutOfFuel);
                }
                match load_class(loader, modules, needed.as_str(), fuel - 1) {
                    Ok(_) => {},
                    Err(e) => {
                        return Err(e);
                    },
                }
            },
            Err(e) => {
                return Err(LoadError::Define(e));
            },
        }
        let ghost middle = *loader;
        let r = match loader.class_by_name(class_name) {
            Ok(id) => Ok(id),
            Err(e) => Err(LoadError::Define(e)),
        };
        proof {
            lemma_grown_twice(*old(loader), middle, *loader);
        }
        return r;
    }
    if fuel == 0 {
        return Err(LoadError::OutOfFuel);
    }
    let module = match loader.module_of(class_name) {
        Some(module) => module,
        None => {
            return Err(LoadError::NotFound(class_name.to_owned()));
        },
    };
    if module >= modules.len() {
        return Err(LoadError::NotFound(class_name.to_owned()));
    }
    let file = file_name(class_name);
    let class_file = match modules[module].get_class_file(file.as_str()) {
        Some(class_file) => class_file,
        None => {
            return Err(LoadError::NotFound(class_name.to_owned()));
        },
    };
    let mut left = fuel;
    while left > 0
        invariant
            left <= fuel,
            loader.wf(),
            grown(*old(loader), *loader),
            !old(loader).names().contains_key(class_name@),
            !is_array_name(class_name@),
            fuel > 0,
            module_for(*old(loader), modules.len() as int, class_name@).is_some(),
        decreases left,
    {
        left -= 1;
        let ghost middle = *loader;
        match define_loaded(loader, &class_file, class_name) {
            Ok(id) => {
                proof {
                    lemma_grown_twice(*old(loader), middle, *loader);
                }
                return Ok(id);
            },
            Err(LoadError::Define(DefineError::Missing(needed))) => {
                let loaded = load_class(loader, modules, needed.as_str(), left);
                proof {
                    lemma_grown_twice(*old(loader), middle, *loader);
                }
                match loaded {
                    Ok(_) => {},
                    Err(e) => {
                        return Err(e);
                    },
                }
            },
            Err(e) => {
                proof {
                    lemma_grown_twice(*old(loader), middle, *loader);
                }
                return Err(e);
            },
        }
    }
    Err(LoadError::OutOfFuel)
}

/// Why the machine cannot be made.
#[derive(Debug)]
pub enum GenesisError {
    /// There are more modules than can be counted.
    TooManyModules,
    /// A class that the machine needs cannot be loaded.
    Load(LoadError),
    /// A class that the machine needs cannot be defined.
    Define(DefineError),
    /// More classes had to be loaded than the fuel allowed.
    OutOfFuel,
}

/// A loader that knows the modules.
pub fn init_bootstrap_class_loader<M: ModuleLoader>(modules: &Vec<M>) -> (loader: Option<
    BootstrapClassLoader,
>)
    ensures
        match loader {
            Some(loader) => loader.wf() && loader.classes.len() == 0 && loader.modules
                == modules.len() && modules.len() < usize::MAX,
            None => modules.len() == usize::MAX,
        },
{
    if modules.len() == usize::MAX {
        return None;
    }
    let mut loader = BootstrapClassLoader::new();
    let mut i: usize = 0;
    while i < modules.len()
        invariant
            i <= modules.len() < usize::MAX,
            loader.wf(),
            loader.classes.len() == 0,
            loader.modules == i,
        decreases modules.len() - i,
    {
        let ghost before = loader;
        let _ = loader.add_module(&modules[i]);
        assert(loader.names() == before.names());
        i += 1;
    }
    Some(loader)
}

/// Makes the machine: a loader that knows the modules, the classes that
/// the machine itself needs, which are loaded from the modules, an empty
/// heap and the natives that the machine knows from the start. Each time
/// one of the classes that the machine needs is missing, it is loaded, at
/// most `fuel` times: with no fuel the machine is not made, as a loader
/// starts without classes.
pub fn genesis<M: ModuleLoader>(
    modules: &Vec<M>,
    compact_strings: bool,
    big_endian: bool,
    fuel: usize,
) -> (r: Result<Vm, GenesisError>)
    ensures
        modules.len() == usize::MAX ==> (r matches Err(GenesisError::TooManyModules)),
        r matches Err(GenesisError::TooManyModules) ==> modules.len() == usize::MAX,
        fuel == 0 && modules.len() < usize::MAX ==> (r matches Err(GenesisError::OutOfFuel)),
        !(r matches Err(GenesisError::Define(_))),
        r matches Ok(vm) ==> vm.wf() && first_missing(vm.loader.names(), 0).is_none()
            && vm.loader.modules == modules.len() && vm.heap.heap.len() == 0
            && vm.heap.special_heap.heap.len() == 0 && vm.heap.next_id == 0
            && vm.compact_strings == compact_strings && vm.big_endian == big_endian
            && vm.next_thread_id == 1 && entries(vm.natives) == boot_natives(Map::empty())
            && vm.special_fields == special_fields_of(
            field_infos_view(
                vm.loader.classes[vm.famous.ids@[STRING_CLASS as int] as int].instance_fields_info@,
            ),
            field_infos_view(
                vm.loader.classes[vm.famous.ids@[CLASS_CLASS as int] as int].instance_fields_info@,
            ),
        ),
{
    let mut loader = match init_bootstrap_class_loader(modules) {
        Some(loader) => loader,
        None => {
            return Err(GenesisError::TooManyModules);
        },
    };
    let mut left = fuel;
    loop
        invariant
            loader.wf(),
            loader.modules == modules.len(),
            modules.len() < usize::MAX,
            left <= fuel,
            left == fuel ==> loader.classes.len() == 0,
        decreases left,
    {
        let ghost names = loader.names();
        proof {
            lemma_first_missing_is_missing(names, 0);
            if loader.classes.len() == 0 {
                lemma_famous_names_are_plain(0);
                if names.contains_key(famous_name(0)) {
                    assert(names[famous_name(0)] < loader.classes.len());
                }
                assert(first_missing(names, 0).is_some());
            }
        }
        match Vm::new(loader, compact_strings, big_endian) {
            Ok(vm) => {
                proof {
                    lemma_famous_are_had(vm);
                }
                return Ok(vm);
            },
            Err((given_back, DefineError::Missing(needed))) => {
                loader = given_back;
                if left == 0 {
                    return Err(GenesisError::OutOfFuel);
                }
                left -= 1;
                match load_class(&mut loader, modules, needed.as_str(), fuel) {
                    Ok(_) => {},
                    Err(e) => {
                        return Err(GenesisError::Load(e));
                    },
                }
            },
            Err((_, e)) => {
                return Err(GenesisError::Define(e));
            },
        }
    }
}

/// A machine that is in order has every class that it needs.
pub proof fn lemma_famous_are_had(vm: Vm)
    requires
        vm.wf(),
    ensures
        first_missing(vm.loader.names(), 0).is_none(),
{
    lemma_none_missing(vm, 0);
}

/// A machine that is in order has every class that it needs, from number
/// `k` on.
proof fn lemma_none_missing(vm: Vm, k: int)
    requires
        vm.wf(),
        0 <= k,
    ensures
        first_missing(vm.loader.names(), k).is_none(),
    decreases FAMOUS_CLASSES - k,
{
    if k < FAMOUS_CLASSES {
        let id = vm.famous.ids@[k];
        assert(vm.loader.classes[id as int].class_name@ == famous_name(k));
        assert(vm.loader.names().contains_key(famous_name(k)));
        lemma_none_missing(vm, k + 1);
    }
}

} // verus!

//! The classes that the machine itself needs to know: the roots of the
//! class library, the classes of the special objects, and the classes of
//! the exceptions that the machine raises.

use crate::descriptor::FieldTypeView;
use crate::runtime::class_loader::bootstrap::{
    resolve_failure, BootstrapClassLoader, DefineError, DefineFailure,
};
use crate::runtime::structs::is_array_name;
use crate::runtime::heap::access::SpecialClasses;
use crate::runtime::structs::exception::VmExceptionKind;
use vstd::prelude::*;
use vstd::string::*;

verus! {

pub const OBJECT_CLASS: usize = 0;
pub const STRING_CLASS: usize = 1;
pub const CLASS_CLASS: usize = 2;
pub const BYTE_ARRAY_CLASS: usize = 3;
pub const CLONEABLE_CLASS: usize = 4;
pub const SERIALIZABLE_CLASS: usize = 5;
pub const SYSTEM_CLASS: usize = 6;
pub const THROWABLE_CLASS: usize = 7;
pub const ERROR_CLASS: usize = 8;
pub const EXCEPTION_CLASS: usize = 9;
pub const RUNTIME_EXCEPTION_CLASS: usize = 10;
pub const LINKAGE_ERROR_CLASS: usize = 11;
pub const NULL_POINTER_EXCEPTION_CLASS: usize = 12;
pub const ARITHMETIC_EXCEPTION_CLASS: usize = 13;
pub const NEGATIVE_ARRAY_SIZE_EXCEPTION_CLASS: usize = 14;
pub const INDEX_OUT_OF_BOUND_EXCEPTION_CLASS: usize = 15;
pub const ARRAY_INDEX_OUT_OF_BOUND_EXCEPTION_CLASS: usize = 16;
pub const ARRAY_STORE_EXCEPTION_CLASS: usize = 17;
pub const CLASS_CAST_EXCEPTION_CLASS: usize = 18;
pub const ILLEGAL_MONITOR_STATE_EXCEPTION_CLASS: usize = 19;
pub const NO_SUCH_FIELD_ERROR_CLASS: usize = 20;
pub const NO_SUCH_METHOD_ERROR_CLASS: usize = 21;
pub const CLASS_FORMAT_ERROR_CLASS: usize = 22;
pub const NO_CLASS_DEF_FOUND_ERROR_CLASS: usize = 23;
pub const EXCEPTION_IN_INITIALIZER_ERROR_CLASS: usize = 24;
pub const CLONE_NOT_SUPPORTED_EXCEPTION_CLASS: usize = 25;
pub const STACK_OVERFLOW_ERROR_CLASS: usize = 26;
/// The number of famous classes.
pub const FAMOUS_CLASSES: usize = 27;

/// The name of the famous class with this number.
pub open spec fn famous_name(k: int) -> Seq<char> {
    if k == 0 {
        "java/lang/Object"@
    } else if k == 1 {
        "java/lang/String"@
    } else if k == 2 {
        "java/lang/Class"@
    } else if k == 3 {
        "[B"@
    } else if k == 4 {
        "java/lang/Cloneable"@
    } else if k == 5 {
        "java/io/Serializable"@
    } else if k == 6 {
        "java/lang/System"@
    } else if k == 7 {
        "java/lang/Throwable"@
    } else if k == 8 {
        "java/lang/Error"@
    } else if k == 9 {
        "java/lang/Exception"@
    } else if k == 10 {
        "java/lang/RuntimeException"@
    } else if k == 11 {
        "java/lang/LinkageError"@
    } else if k == 12 {
        "java/lang/NullPointerException"@
    } else if k == 13 {
        "java/lang/ArithmeticException"@
    } else if k == 14 {
        "java/lang/NegativeArraySizeException"@
    } else if k == 15 {
        "java/lang/IndexOutOfBoundsException"@
    } else if k == 16 {
        "java/lang/ArrayIndexOutOfBoundsException"@
    } else if k == 17 {
        "java/lang/ArrayStoreException"@
    } else if k == 18 {
        "java/lang/ClassCastException"@
    } else if k == 19 {
        "java/lang/IllegalMonitorStateException"@
    } else if k == 20 {
        "java/lang/NoSuchFieldError"@
    } else if k == 21 {
        "java/lang/NoSuchMethodError"@
    } else if k == 22 {
        "java/lang/ClassFormatError"@
    } else if k == 23 {
        "java/lang/NoClassDefFoundError"@
    } else if k == 24 {
        "java/lang/ExceptionInInitializerError"@
    } else if k == 25 {
        "java/lang/CloneNotSupportedException"@
    } else {
        "java/lang/StackOverflowError"@
    }
}

/// The name of the famous class with this number.
pub fn name_of_famous(k: usize) -> (name: &'static str)
    ensures
        name@ == famous_name(k as int),
{
    if k == 0 {
        "java/lang/Object"
    } else if k == 1 {
        "java/lang/String"
    } else if k == 2 {
        "java/lang/Class"
    } else if k == 3 {
        "[B"
    } else if k == 4 {
        "java/lang/Cloneable"
    } else if k == 5 {
        "java/io/Serializable"
    } else if k == 6 {
        "java/lang/System"
    } else if k == 7 {
        "java/lang/Throwable"
    } else if k == 8 {
        "java/lang/Error"
    } else if k == 9 {
        "java/lang/Exception"
    } else if k == 10 {
        "java/lang/RuntimeException"
    } else if k == 11 {
        "java/lang/LinkageError"
    } else if k == 12 {
        "java/lang/NullPointerException"
    } else if k == 13 {
        "java/lang/ArithmeticException"
    } else if k == 14 {
        "java/lang/NegativeArraySizeException"
    } else if k == 15 {
        "java/lang/IndexOutOfBoundsException"
    } else if k == 16 {
        "java/lang/ArrayIndexOutOfBoundsException"
    } else if k == 17 {
        "java/lang/ArrayStoreException"
    } else if k == 18 {
        "java/lang/ClassCastException"
    } else if k == 19 {
        "java/lang/IllegalMonitorStateException"
    } else if k == 20 {
        "java/lang/NoSuchFieldError"
    } else if k == 21 {
        "java/lang/NoSuchMethodError"
    } else if k == 22 {
        "java/lang/ClassFormatError"
    } else if k == 23 {
        "java/lang/NoClassDefFoundError"
    } else if k == 24 {
        "java/lang/ExceptionInInitializerError"
    } else if k == 25 {
        "java/lang/CloneNotSupportedException"
    } else {
        "java/lang/StackOverflowError"
    }
}

/// The number, among the famous classes, of the class of the exceptions of
/// this kind.
pub open spec fn famous_of(kind: VmExceptionKind) -> int {
    match kind {
        VmExceptionKind::NullPointer => 12,
        VmExceptionKind::Arithmetic => 13,
        VmExceptionKind::NegativeArraySize => 14,
        VmExceptionKind::IndexOutOfBounds => 15,
        VmExceptionKind::ArrayIndexOutOfBounds => 16,
        VmExceptionKind::ArrayStore => 17,
        VmExceptionKind::ClassCast => 18,
        VmExceptionKind::IllegalMonitorState => 19,
        VmExceptionKind::NoSuchField => 20,
        VmExceptionKind::NoSuchMethod => 21,
        VmExceptionKind::ClassFormat => 22,
        VmExceptionKind::NoClassDefFound => 23,
        VmExceptionKind::ExceptionInInitializer => 24,
        VmExceptionKind::CloneNotSupported => 25,
        VmExceptionKind::StackOverflow => 26,
    }
}

/// The places of the famous classes among the classes of the loader, by
/// their numbers.
pub struct FamousClasses {
    pub ids: Vec<usize>,
}

impl FamousClasses {
    /// Whether every famous class has its place, and the class at that
    /// place has its name.
    pub open spec fn wf(&self, loader: &BootstrapClassLoader) -> bool {
        &&& self.ids.len() == FAMOUS_CLASSES
        &&& forall|k: int|
            0 <= k < FAMOUS_CLASSES ==> (#[trigger] self.ids@[k]) < loader.classes.len()
                && loader.classes[self.ids@[k] as int].class_name@ == famous_name(k)
    }

    /// The place of the famous class with this number.
    pub fn get(&self, k: usize) -> (id: usize)
        requires
            self.ids.len() == FAMOUS_CLASSES,
            k < FAMOUS_CLASSES,
        ensures
            id == self.ids@[k as int],
    {
        self.ids[k]
    }

    /// The place of the class of the exceptions of this kind.
    pub fn exception_class(&self, kind: VmExceptionKind) -> (id: usize)
        requires
            self.ids.len() == FAMOUS_CLASSES,
        ensures
            id == self.ids@[famous_of(kind)],
    {
        let k: usize = match kind {
            VmExceptionKind::NullPointer => 12,
            VmExceptionKind::Arithmetic => 13,
            VmExceptionKind::NegativeArraySize => 14,
            VmExceptionKind::IndexOutOfBounds => 15,
            VmExceptionKind::ArrayIndexOutOfBounds => 16,
            VmExceptionKind::ArrayStore => 17,
            VmExceptionKind::ClassCast => 18,
            VmExceptionKind::IllegalMonitorState => 19,
            VmExceptionKind::NoSuchField => 20,
            VmExceptionKind::NoSuchMethod => 21,
            VmExceptionKind::ClassFormat => 22,
            VmExceptionKind::NoClassDefFound => 23,
            VmExceptionKind::ExceptionInInitializer => 24,
            VmExceptionKind::CloneNotSupported => 25,
            VmExceptionKind::StackOverflow => 26,
        };
        self.ids[k]
    }

    /// The classes of the special objects.
    pub fn special_classes(&self) -> (classes: SpecialClasses)
        requires
            self.ids.len() == FAMOUS_CLASSES,
        ensures
            classes == (SpecialClasses {
                string: self.ids@[STRING_CLASS as int],
                byte_array: self.ids@[BYTE_ARRAY_CLASS as int],
                class: self.ids@[CLASS_CLASS as int],
            }),
    {
        SpecialClasses {
            string: self.ids[STRING_CLASS],
            byte_array: self.ids[BYTE_ARRAY_CLASS],
            class: self.ids[CLASS_CLASS],
        }
    }
}

/// Why the first famous class from number `k` on that cannot be had from
/// the classes with these names cannot be had; nothing where all can.
pub open spec fn first_missing(names: Map<Seq<char>, usize>, k: int) -> Option<DefineFailure>
    decreases FAMOUS_CLASSES - k,
{
    if k < 0 || k >= FAMOUS_CLASSES {
        None
    } else {
        match resolve_failure(names, famous_name(k)) {
            Some(failure) => Some(failure),
            None => first_missing(names, k + 1),
        }
    }
}

/// No famous class but the class of arrays of bytes is an array class.
pub proof fn lemma_famous_names_are_plain(k: int)
    requires
        0 <= k < FAMOUS_CLASSES,
        k != BYTE_ARRAY_CLASS,
    ensures
        !is_array_name(famous_name(k)),
{
    reveal_strlit("java/lang/Object");
    reveal_strlit("java/lang/String");
    reveal_strlit("java/lang/Class");
    reveal_strlit("java/lang/Cloneable");
    reveal_strlit("java/io/Serializable");
    reveal_strlit("java/lang/System");
    reveal_strlit("java/lang/Throwable");
    reveal_strlit("java/lang/Error");
    reveal_strlit("java/lang/Exception");
    reveal_strlit("java/lang/RuntimeException");
    reveal_strlit("java/lang/LinkageError");
    reveal_strlit("java/lang/NullPointerException");
    reveal_strlit("java/lang/ArithmeticException");
    reveal_strlit("java/lang/NegativeArraySizeException");
    reveal_strlit("java/lang/IndexOutOfBoundsException");
    reveal_strlit("java/lang/ArrayIndexOutOfBoundsException");
    reveal_strlit("java/lang/ArrayStoreException");
    reveal_strlit("java/lang/ClassCastException");
    reveal_strlit("java/lang/IllegalMonitorStateException");
    reveal_strlit("java/lang/NoSuchFieldError");
    reveal_strlit("java/lang/NoSuchMethodError");
    reveal_strlit("java/lang/ClassFormatError");
    reveal_strlit("java/lang/NoClassDefFoundError");
    reveal_strlit("java/lang/ExceptionInInitializerError");
    reveal_strlit("java/lang/CloneNotSupportedException");
    reveal_strlit("java/lang/StackOverflowError");
}

/// A famous class that cannot be had is missing, or rests on a class that
/// is missing.
pub proof fn lemma_famous_failure_is_missing(names: Map<Seq<char>, usize>, k: int)
    requires
        0 <= k < FAMOUS_CLASSES,
    ensures
        resolve_failure(names, famous_name(k)) matches Some(failure) ==> failure is Missing,
{
    if k == BYTE_ARRAY_CLASS {
        reveal_strlit("[B");
        let name = "[B"@;
        reveal_with_fuel(crate::descriptor::parse_type_at, 3);
        assert(crate::descriptor::parse_type_at(name, 1) == Ok::<(FieldTypeView, int), int>(
            (FieldTypeView::Byte, 2),
        ));
        assert(crate::descriptor::field_descriptor_of(name) == Ok::<FieldTypeView, int>(
            FieldTypeView::Array(Box::new(FieldTypeView::Byte)),
        ));
    } else {
        lemma_famous_names_are_plain(k);
    }
}

/// Whatever keeps the famous classes from being had is a class that is
/// missing.
pub proof fn lemma_first_missing_is_missing(names: Map<Seq<char>, usize>, k: int)
    requires
        0 <= k,
    ensures
        first_missing(names, k) matches Some(failure) ==> failure is Missing,
    decreases FAMOUS_CLASSES - k,
{
    if k < FAMOUS_CLASSES {
        lemma_famous_failure_is_missing(names, k);
        lemma_first_missing_is_missing(names, k + 1);
    }
}

/// Whether a famous class can be had does not depend on the array classes
/// that are defined, but for the class of arrays of bytes.
pub proof fn lemma_plain_failure(
    names: Map<Seq<char>, usize>,
    more: Map<Seq<char>, usize>,
    k: int,
)
    requires
        0 <= k < FAMOUS_CLASSES,
        k != BYTE_ARRAY_CLASS,
        forall|n: Seq<char>| names.contains_key(n) ==> more.contains_key(n),
        forall|n: Seq<char>| more.contains_key(n) && !names.contains_key(n) ==> is_array_name(n),
    ensures
        resolve_failure(more, famous_name(k)) == resolve_failure(names, famous_name(k)),
{
    lemma_famous_names_are_plain(k);
}

/// Finds the famous classes. All of them have to be defined, but for the
/// class of arrays of bytes, which is defined here if need be; a failure
/// names the first that is not.
pub fn init_famous_classes(loader: &mut BootstrapClassLoader) -> (r: Result<
    FamousClasses,
    DefineError,
>)
    requires
        old(loader).wf(),
    ensures
        final(loader).wf(),
        final(loader).package_to_module == old(loader).package_to_module,
        final(loader).modules == old(loader).modules,
        final(loader).classes.len() >= old(loader).classes.len(),
        final(loader).classes@.subrange(0, old(loader).classes.len() as int) == old(loader).classes@,
        forall|name: Seq<char>| #[trigger]
            old(loader).names().contains_key(name) ==> final(loader).names().contains_key(name)
                && final(loader).names()[name] == old(loader).names()[name],
        forall|name: Seq<char>| #[trigger]
            final(loader).names().contains_key(name) && !old(loader).names().contains_key(name)
                ==> is_array_name(name),
        match r {
            Ok(famous) => first_missing(old(loader).names(), 0).is_none() && famous.wf(
                final(loader),
            ),
            Err(e) => first_missing(old(loader).names(), 0) == Some(e@),
        },
{
    let mut ids: Vec<usize> = Vec::new();
    let ghost start = loader.classes@;
    assert(start.subrange(0, start.len() as int) =~= start);
    let mut k: usize = 0;
    while k < FAMOUS_CLASSES
        invariant
            k <= FAMOUS_CLASSES,
            ids.len() == k,
            loader.wf(),
            loader.package_to_module == old(loader).package_to_module,
            loader.modules == old(loader).modules,
            start == old(loader).classes@,
            loader.classes.len() >= start.len(),
            loader.classes@.subrange(0, start.len() as int) == start,
            forall|name: Seq<char>| #[trigger]
                old(loader).names().contains_key(name) ==> loader.names().contains_key(name)
                    && loader.names()[name] == old(loader).names()[name],
            forall|name: Seq<char>| #[trigger]
                loader.names().contains_key(name) && !old(loader).names().contains_key(name)
                    ==> is_array_name(name),
            k <= BYTE_ARRAY_CLASS ==> loader.names() == old(loader).names(),
            first_missing(old(loader).names(), 0) == first_missing(old(loader).names(), k as int),
            forall|j: int|
                0 <= j < k ==> (#[trigger] ids@[j]) < loader.classes.len()
                    && loader.classes[ids@[j] as int].class_name@ == famous_name(j),
        decreases FAMOUS_CLASSES - k,
    {
        let ghost before = loader.classes@;
        let ghost names_before = loader.names();
        proof {
            if k != BYTE_ARRAY_CLASS {
                lemma_plain_failure(old(loader).names(), names_before, k as int);
                lemma_famous_names_are_plain(k as int);
            }
        }
        assert(resolve_failure(names_before, famous_name(k as int)) == resolve_failure(
            old(loader).names(),
            famous_name(k as int),
        ));
        match loader.resolve_class(name_of_famous(k)) {
            Ok(id) => {
                proof {
                    assert forall|j: int| 0 <= j < k implies (#[trigger] ids@[j])
                        < loader.classes.len() && loader.classes[ids@[j] as int].class_name@
                        == famous_name(j) by {
                        assert(loader.classes@.subrange(0, before.len() as int)[ids@[j] as int]
                            == loader.classes@[ids@[j] as int]);
                    }
                    assert(loader.classes@.subrange(0, start.len() as int) =~= start) by {
                        assert forall|i: int| 0 <= i < start.len() implies loader.classes@[i]
                            == start[i] by {
                            assert(loader.classes@.subrange(0, before.len() as int)[i]
                                == loader.classes@[i]);
                            assert(before.subrange(0, start.len() as int)[i] == before[i]);
                        }
                    }
                }
                ids.push(id);
            },
            Err(e) => {
                assert(loader.names() == names_before);
                return Err(e);
            },
        }
        k += 1;
    }
    Ok(FamousClasses { ids })
}

/// The famous classes keep their places in a loader whose classes keep
/// their names.
pub proof fn lemma_famous_stay(famous: FamousClasses, before: BootstrapClassLoader, after: BootstrapClassLoader)
    requires
        famous.wf(&before),
        after.classes.len() >= before.classes.len(),
        forall|id: int|
            0 <= id < before.classes.len() ==> (#[trigger] after.classes[id]).class_name
                == before.classes[id].class_name,
    ensures
        famous.wf(&after),
{
    assert forall|k: int| 0 <= k < FAMOUS_CLASSES implies (#[trigger] famous.ids@[k])
        < after.classes.len() && after.classes[famous.ids@[k] as int].class_name@ == famous_name(
        k,
    ) by {
        assert(after.classes[famous.ids@[k] as int].class_name
            == before.classes[famous.ids@[k] as int].class_name);
    }
}

} // verus!

//! The running machine: classes, heap, threads and native methods.

pub mod class_loader;
pub mod famous_classes;
pub mod heap;
pub mod inheritance;
pub mod interpreter;
pub mod native;
pub mod structs;

use crate::runtime::class_loader::bootstrap::{BootstrapClassLoader, DefineError};
use crate::runtime::class_loader::pool::{ascii_bytes, is_ascii_text};
use crate::runtime::famous_classes::{
    first_missing, init_famous_classes, FamousClasses, CLASS_CLASS, STRING_CLASS,
};
use crate::runtime::heap::access::SpecialFields;
use crate::runtime::native::bridge::{boot_natives, register_natives};
use crate::runtime::heap::reflection::ClassTable;
use crate::runtime::heap::string_table::StringTable;
use crate::runtime::heap::{strings_live, Heap, MAX_OBJECT_ID};
use crate::runtime::structs::{field_infos_view, FieldInfo, FieldInfoView};
use crate::table::{entries, new_table};
use vstd::prelude::*;
use vstd::string::*;

verus! {

/// The machine: everything that the threads of a program share.
pub struct Vm {
    pub loader: BootstrapClassLoader,
    pub heap: Heap,
    pub string_table: StringTable,
    pub class_table: ClassTable,
    /// The native methods that are registered, by their keys.
    pub natives: dashmap::DashMap<String, usize>,
    pub famous: FamousClasses,
    pub special_fields: SpecialFields,
    /// The identifier of the next thread.
    pub next_thread_id: usize,
    /// Whether strings of one-byte characters are kept as bytes.
    pub compact_strings: bool,
    /// The byte order of the two-byte units of strings.
    pub big_endian: bool,
}

/// The slot of the first of the first `n` fields that has this name; none
/// where no field has.
pub open spec fn slot_named(fields: Seq<FieldInfoView>, from: int, name: Seq<u8>) -> Option<usize>
    decreases fields.len() - from,
{
    if from < 0 || from >= fields.len() {
        None
    } else if fields[from].name == name {
        Some(fields[from].index)
    } else {
        slot_named(fields, from + 1, name)
    }
}

/// The slot of the first field with this name, or `usize::MAX` where no
/// field has the name: a slot that no object has.
pub fn find_slot(fields: &Vec<FieldInfo>, name: &str) -> (slot: usize)
    requires
        name.is_ascii(),
    ensures
        slot == match slot_named(field_infos_view(fields@), 0, ascii_bytes(name@)) {
            Some(s) => s,
            None => usize::MAX,
        },
{
    let mut i: usize = 0;
    while i < fields.len()
        invariant
            i <= fields.len(),
            name.is_ascii(),
            slot_named(field_infos_view(fields@), 0, ascii_bytes(name@)) == slot_named(
                field_infos_view(fields@),
                i as int,
                ascii_bytes(name@),
            ),
        decreases fields.len() - i,
    {
        assert(field_infos_view(fields@)[i as int] == fields@[i as int]@);
        if is_ascii_text(&fields[i].name, name) {
            return fields[i].index;
        }
        i += 1;
    }
    usize::MAX
}

/// The slot of the first field with this name, or `usize::MAX` where no
/// field has the name.
pub open spec fn slot_of(fields: Seq<FieldInfoView>, name: Seq<char>) -> usize {
    match slot_named(fields, 0, ascii_bytes(name)) {
        Some(s) => s,
        None => usize::MAX,
    }
}

/// The slots of the fields that the class library reads from strings and
/// class mirrors, among the fields of the two classes.
pub open spec fn special_fields_of(
    string_fields: Seq<FieldInfoView>,
    class_fields: Seq<FieldInfoView>,
) -> SpecialFields {
    SpecialFields {
        string_value: slot_of(string_fields, "value"@),
        string_coder: slot_of(string_fields, "coder"@),
        string_hash: slot_of(string_fields, "hash"@),
        string_hash_is_zero: slot_of(string_fields, "hashIsZero"@),
        class_name: slot_of(class_fields, "name"@),
        class_package_name: slot_of(class_fields, "packageName"@),
        class_redefined_count: slot_of(class_fields, "classRedefinedCount"@),
        class_loader: slot_of(class_fields, "classLoader"@),
    }
}

impl Vm {
    /// Whether the machine is in order.
    pub open spec fn wf(&self) -> bool {
        &&& self.loader.wf()
        &&& self.heap.wf()
        &&& self.string_table.wf()
        &&& strings_live(self.heap, self.string_table)
        &&& self.famous.wf(&self.loader)
    }

    /// A machine for the classes of the loader, with an empty heap. The
    /// famous classes have to be defined; a failure names the first that
    /// is not, and gives the loader back.
    pub fn new(loader: BootstrapClassLoader, compact_strings: bool, big_endian: bool) -> (r:
        Result<Vm, (BootstrapClassLoader, DefineError)>)
        requires
            loader.wf(),
        ensures
            match r {
                Ok(vm) => first_missing(loader.names(), 0).is_none() && vm.wf()
                    && vm.loader.classes.len() >= loader.classes.len()
                    && vm.loader.classes@.subrange(0, loader.classes.len() as int)
                    == loader.classes@ && vm.heap.heap.len() == 0
                    && vm.heap.special_heap.heap.len() == 0 && vm.compact_strings
                    == compact_strings && vm.big_endian == big_endian && vm.next_thread_id == 1
                    && entries(vm.natives) == boot_natives(Map::empty())
                    && vm.special_fields == special_fields_of(
                    field_infos_view(
                        vm.loader.classes[vm.famous.ids@[STRING_CLASS as int] as int].instance_fields_info@,
                    ),
                    field_infos_view(
                        vm.loader.classes[vm.famous.ids@[CLASS_CLASS as int] as int].instance_fields_info@,
                    ),
                ) && vm.loader.modules
                    == loader.modules && vm.loader.package_to_module
                    == loader.package_to_module,
                Err((given_back, e)) => first_missing(loader.names(), 0) == Some(e@)
                    && given_back.wf() && given_back.classes.len()
                    >= loader.classes.len() && given_back.classes@.subrange(
                    0,
                    loader.classes.len() as int,
                ) == loader.classes@ && given_back.modules == loader.modules
                    && given_back.package_to_module == loader.package_to_module,
            },
    {
        let mut loader = loader;
        let famous = match init_famous_classes(&mut loader) {
            Ok(famous) => famous,
            Err(e) => {
                return Err((loader, e));
            },
        };
        proof {
            reveal_strlit("value");
            reveal_strlit("coder");
            reveal_strlit("hash");
            reveal_strlit("hashIsZero");
            reveal_strlit("name");
            reveal_strlit("packageName");
            reveal_strlit("classRedefinedCount");
            reveal_strlit("classLoader");
        }
        let string_fields = &loader.classes[famous.get(STRING_CLASS)].instance_fields_info;
        let class_fields = &loader.classes[famous.get(CLASS_CLASS)].instance_fields_info;
        let special_fields = SpecialFields {
            string_value: find_slot(string_fields, "value"),
            string_coder: find_slot(string_fields, "coder"),
            string_hash: find_slot(string_fields, "hash"),
            string_hash_is_zero: find_slot(string_fields, "hashIsZero"),
            class_name: find_slot(class_fields, "name"),
            class_package_name: find_slot(class_fields, "packageName"),
            class_redefined_count: find_slot(class_fields, "classRedefinedCount"),
            class_loader: find_slot(class_fields, "classLoader"),
        };
        let mut natives = new_table();
        register_natives(&mut natives);
        Ok(
            Vm {
                loader,
                heap: Heap::new(),
                string_table: StringTable::new(),
                class_table: ClassTable::new(),
                natives,
                famous,
                special_fields,
                next_thread_id: 1,
                compact_strings,
                big_endian,
            },
        )
    }
}

/// Every string that the machine has interned has a special identifier,
/// which names the string on the heap; and so have its bytes.
pub proof fn lemma_interned_is_special(vm: Vm, bytes: Seq<u8>)
    requires
        vm.wf(),
        vm.string_table.lookup(bytes).is_some(),
    ensures
        vm.string_table.lookup(bytes)->Some_0.string_id > MAX_OBJECT_ID,
        vm.string_table.lookup(bytes)->Some_0.bytes_id > MAX_OBJECT_ID,
        vm.heap.string_parts(vm.string_table.lookup(bytes)->Some_0.string_id) == Some(
            (vm.string_table.lookup(bytes)->Some_0.bytes_id, bytes),
        ),
        vm.heap.bytes_part(vm.string_table.lookup(bytes)->Some_0.bytes_id) == Some(bytes),
{
}

} // verus!

//! The method dispatch table of a class.
//!
//! The table of a class starts with the rows of its super-class, in their
//! order. A row whose method the class may override, and for which the
//! class declares a virtual method of the same name and descriptor, leads
//! to that method. Behind the inherited rows come the virtual methods that
//! the class newly introduces, in declaration order, and behind those the
//! methods of the interfaces that the class implements, where the class
//! declares no such method and the table has no such row yet. The table of
//! an interface holds the inherited rows alone.

use crate::class::structs::java_str::JavaStr;
use crate::consts::{
    has_flags, ACC_FINAL, ACC_INTERFACE, ACC_PRIVATE, ACC_PROTECTED, ACC_PUBLIC, ACC_STATIC,
};
use crate::descriptor::{MethodDescriptor, MethodDescriptorView};
use crate::runtime::class_loader::pool::{ascii_bytes, is_ascii_text};
use crate::runtime::structs::{
    method_infos_view, package_of, vtable_view, Class, ClassView, MethodInfo, MethodInfoView, VtableEntry, VtableEntryView, VtableIndex,
};
use vstd::prelude::*;
use vstd::string::*;

verus! {

/// The class and the place among its methods of the method that a row of
/// the table of class `owner` leads to.
pub open spec fn holder(index: VtableIndex, owner: usize) -> (usize, usize) {
    match index {
        VtableIndex::InThisClass(i) => (owner, i),
        VtableIndex::OtherClass { class, index } => (class, index),
        VtableIndex::OtherInterface { class, index } => (class, index),
    }
}

/// Where a row of the table of class `owner` leads, as seen from a
/// sub-class.
pub open spec fn moved(index: VtableIndex, owner: usize) -> VtableIndex {
    match index {
        VtableIndex::InThisClass(i) => VtableIndex::OtherClass { class: owner, index: i },
        other => other,
    }
}

/// Whether the row leads to a method that exists, in the table of class
/// `owner` with `own_methods` methods, among the classes `classes`.
pub open spec fn row_valid(classes: Seq<Class>, own_methods: int, index: VtableIndex) -> bool {
    match index {
        VtableIndex::InThisClass(i) => i < own_methods,
        VtableIndex::OtherClass { class, index } => class < classes.len() && index
            < classes[class as int].methods.len(),
        VtableIndex::OtherInterface { class, index } => class < classes.len() && index
            < classes[class as int].methods.len(),
    }
}

/// Whether every row of the table leads to a method that exists.
pub open spec fn rows_valid(classes: Seq<Class>, own_methods: int, table: Seq<VtableEntryView>) -> bool {
    forall|k: int| 0 <= k < table.len() ==> row_valid(classes, own_methods, (#[trigger] table[k]).index)
}

/// Whether a class in package `package` may override a method with these
/// flags of a class in package `holder_package`: the method is public or
/// protected, or the two packages are the same.
pub open spec fn may_override(flags: u16, holder_package: Seq<char>, package: Seq<char>) -> bool {
    has_flags(flags, ACC_PUBLIC) || has_flags(flags, ACC_PROTECTED) || holder_package == package
}

/// Whether the method is virtual: not static, not private and no
/// constructor.
pub open spec fn eligible(m: MethodInfoView) -> bool {
    !has_flags(m.access_flags, ACC_STATIC) && !has_flags(m.access_flags, ACC_PRIVATE) && m.name
        != ascii_bytes("<init>"@)
}

/// The place of the last virtual method among the first `n` methods that
/// has this name and descriptor.
pub open spec fn last_eligible(
    methods: Seq<MethodInfoView>,
    n: int,
    name: Seq<u8>,
    descriptor: MethodDescriptorView,
) -> Option<int>
    decreases n,
{
    if n <= 0 {
        None
    } else if eligible(methods[n - 1]) && methods[n - 1].name == name && methods[n
        - 1].descriptor == descriptor {
        Some(n - 1)
    } else {
        last_eligible(methods, n - 1, name, descriptor)
    }
}

/// Whether a class in package `package` may override the method that the
/// row of the super-class `super_id` leads to.
pub open spec fn overridable(classes: Seq<Class>, package: Seq<char>, super_id: usize, row: VtableEntryView) -> bool {
    may_override(
        classes[holder(row.index, super_id).0 as int].methods[holder(
            row.index,
            super_id,
        ).1 as int].access_flags.bits,
        package_of(classes[holder(row.index, super_id).0 as int].class_name@),
        package,
    )
}

/// The row as the class inherits it. The class that first declared the
/// method is kept, or is the class that the row leads to where none was
/// noted. Where the class may override the method and declares a virtual
/// method of the row's name and descriptor, the row leads to the last such
/// method; an interface overrides nothing.
pub open spec fn inherited_row(
    classes: Seq<Class>,
    methods: Seq<MethodInfoView>,
    package: Seq<char>,
    is_interface: bool,
    super_id: usize,
    row: VtableEntryView,
) -> VtableEntryView {
    let root_class = match row.root_class {
        Some(r) => Some(r),
        None => Some(holder(row.index, super_id).0),
    };
    let found = last_eligible(methods, methods.len() as int, row.name, row.descriptor);
    if !is_interface && overridable(classes, package, super_id, row) && found.is_some() {
        VtableEntryView {
            root_class,
            index: VtableIndex::InThisClass(found->Some_0 as usize),
            ..row
        }
    } else {
        VtableEntryView { root_class, index: moved(row.index, super_id), ..row }
    }
}

/// Whether one of the first `n` rows has this name and descriptor and leads
/// to a method that the class may override.
pub open spec fn overrides_row(
    classes: Seq<Class>,
    package: Seq<char>,
    super_id: usize,
    rows: Seq<VtableEntryView>,
    n: int,
    name: Seq<u8>,
    descriptor: MethodDescriptorView,
) -> bool
    decreases n,
{
    if n <= 0 {
        false
    } else {
        (rows[n - 1].name == name && rows[n - 1].descriptor == descriptor && overridable(
            classes,
            package,
            super_id,
            rows[n - 1],
        )) || overrides_row(classes, package, super_id, rows, n - 1, name, descriptor)
    }
}

/// Whether the method gets a row of its own: the class is not final, the
/// method is virtual and not final, and it is not a public or protected
/// method that overrides an inherited row.
pub open spec fn adds_row(m: MethodInfoView, class_final: bool, overrides: bool) -> bool {
    !class_final && !has_flags(m.access_flags, ACC_FINAL) && eligible(m) && !(overrides && (
    has_flags(m.access_flags, ACC_PUBLIC) || has_flags(m.access_flags, ACC_PROTECTED)))
}

/// The row of a method that the class newly introduces.
pub open spec fn new_row(m: MethodInfoView, i: int) -> VtableEntryView {
    VtableEntryView {
        root_class: None,
        name: m.name,
        descriptor: m.descriptor,
        index: VtableIndex::InThisClass(i as usize),
    }
}

/// The rows of the first `n` methods of the class that get a row of their
/// own.
pub open spec fn new_rows(
    classes: Seq<Class>,
    package: Seq<char>,
    class_final: bool,
    super_id: usize,
    super_rows: Seq<VtableEntryView>,
    methods: Seq<MethodInfoView>,
    n: int,
) -> Seq<VtableEntryView>
    decreases n,
{
    if n <= 0 {
        Seq::empty()
    } else if adds_row(
        methods[n - 1],
        class_final,
        overrides_row(
            classes,
            package,
            super_id,
            super_rows,
            super_rows.len() as int,
            methods[n - 1].name,
            methods[n - 1].descriptor,
        ),
    ) {
        new_rows(classes, package, class_final, super_id, super_rows, methods, n - 1).push(
            new_row(methods[n - 1], n - 1),
        )
    } else {
        new_rows(classes, package, class_final, super_id, super_rows, methods, n - 1)
    }
}

/// Whether one of the first `n` rows has this name and descriptor.
pub open spec fn has_row(table: Seq<VtableEntryView>, n: int, name: Seq<u8>, descriptor: MethodDescriptorView) -> bool
    decreases n,
{
    if n <= 0 {
        false
    } else {
        (table[n - 1].name == name && table[n - 1].descriptor == descriptor) || has_row(
            table,
            n - 1,
            name,
            descriptor,
        )
    }
}

/// Whether the method of an interface gets a row in the table of a class
/// that implements the interface: it is neither private nor static, the
/// class declares no virtual method of its name and descriptor, and the
/// table has no row of its name and descriptor yet.
pub open spec fn takes_row(table: Seq<VtableEntryView>, methods: Seq<MethodInfoView>, m: MethodInfoView) -> bool {
    !has_flags(m.access_flags, ACC_PRIVATE) && !has_flags(m.access_flags, ACC_STATIC)
        && last_eligible(methods, methods.len() as int, m.name, m.descriptor).is_none()
        && !has_row(table, table.len() as int, m.name, m.descriptor)
}

/// The table with the rows of the first `n` methods of the interface
/// `interface` behind it.
pub open spec fn with_interface_methods(
    table: Seq<VtableEntryView>,
    methods: Seq<MethodInfoView>,
    interface: usize,
    interface_methods: Seq<MethodInfoView>,
    n: int,
) -> Seq<VtableEntryView>
    decreases n,
{
    if n <= 0 {
        table
    } else {
        let front = with_interface_methods(table, methods, interface, interface_methods, n - 1);
        if takes_row(front, methods, interface_methods[n - 1]) {
            front.push(
                VtableEntryView {
                    root_class: Some(interface),
                    name: interface_methods[n - 1].name,
                    descriptor: interface_methods[n - 1].descriptor,
                    index: VtableIndex::OtherInterface { class: interface, index: (n - 1) as usize },
                },
            )
        } else {
            front
        }
    }
}

/// The table with the rows of the first `n` interfaces behind it.
pub open spec fn with_interfaces(
    table: Seq<VtableEntryView>,
    methods: Seq<MethodInfoView>,
    classes: Seq<Class>,
    interfaces: Seq<usize>,
    n: int,
) -> Seq<VtableEntryView>
    decreases n,
{
    if n <= 0 {
        table
    } else {
        with_interface_methods(
            with_interfaces(table, methods, classes, interfaces, n - 1),
            methods,
            interfaces[n - 1],
            method_infos_view(classes[interfaces[n - 1] as int].methods@),
            classes[interfaces[n - 1] as int].methods.len() as int,
        )
    }
}

/// The rows of the super-class as the class inherits them.
pub open spec fn inherited_rows(
    classes: Seq<Class>,
    methods: Seq<MethodInfoView>,
    package: Seq<char>,
    is_interface: bool,
    super_id: usize,
    super_rows: Seq<VtableEntryView>,
) -> Seq<VtableEntryView> {
    Seq::new(
        super_rows.len(),
        |k: int| inherited_row(classes, methods, package, is_interface, super_id, super_rows[k]),
    )
}

/// The table of the class `class`, which is not among `classes` yet but
/// whose super-class and interfaces are.
pub open spec fn built_vtable(classes: Seq<Class>, class: ClassView) -> Seq<VtableEntryView> {
    let package = package_of(class.class_name);
    let is_interface = has_flags(class.access_flags, ACC_INTERFACE);
    let super_id = match class.super_class {
        Some(s) => s,
        None => 0,
    };
    let super_rows = match class.super_class {
        Some(s) => vtable_view(classes[s as int].vtable@),
        None => Seq::empty(),
    };
    let inherited = inherited_rows(
        classes,
        class.methods,
        package,
        is_interface,
        super_id,
        super_rows,
    );
    if is_interface {
        inherited
    } else {
        with_interfaces(
            inherited + new_rows(
                classes,
                package,
                has_flags(class.access_flags, ACC_FINAL),
                super_id,
                super_rows,
                class.methods,
                class.methods.len() as int,
            ),
            class.methods,
            classes,
            class.interfaces,
            class.interfaces.len() as int,
        )
    }
}

/// Rows of interfaces are only added behind the table.
pub proof fn lemma_with_interface_methods_grows(
    table: Seq<VtableEntryView>,
    methods: Seq<MethodInfoView>,
    interface: usize,
    interface_methods: Seq<MethodInfoView>,
    n: int,
)
    ensures
        with_interface_methods(table, methods, interface, interface_methods, n).len()
            >= table.len(),
    decreases n,
{
    if n > 0 {
        lemma_with_interface_methods_grows(table, methods, interface, interface_methods, n - 1);
    }
}

/// Rows of interfaces are only added behind the table.
pub proof fn lemma_with_interfaces_grows(
    table: Seq<VtableEntryView>,
    methods: Seq<MethodInfoView>,
    classes: Seq<Class>,
    interfaces: Seq<usize>,
    n: int,
)
    ensures
        with_interfaces(table, methods, classes, interfaces, n).len() >= table.len(),
    decreases n,
{
    if n > 0 {
        lemma_with_interfaces_grows(table, methods, classes, interfaces, n - 1);
        lemma_with_interface_methods_grows(
            with_interfaces(table, methods, classes, interfaces, n - 1),
            methods,
            interfaces[n - 1],
            method_infos_view(classes[interfaces[n - 1] as int].methods@),
            classes[interfaces[n - 1] as int].methods.len() as int,
        );
    }
}

/// The table of a class is at least as long as the table of its
/// super-class, and its first rows are the rows of the super-class as the
/// class inherits them.
pub proof fn lemma_vtable_extends_super(classes: Seq<Class>, class: ClassView)
    requires
        class.super_class is Some,
    ensures
        built_vtable(classes, class).len() >= classes[class.super_class->Some_0 as int].vtable.len(),
{
    let package = package_of(class.class_name);
    let is_interface = has_flags(class.access_flags, ACC_INTERFACE);
    let super_id = class.super_class->Some_0;
    let super_rows = vtable_view(classes[super_id as int].vtable@);
    let inherited = inherited_rows(
        classes,
        class.methods,
        package,
        is_interface,
        super_id,
        super_rows,
    );
    if !is_interface {
        lemma_with_interfaces_grows(
            inherited + new_rows(
                classes,
                package,
                has_flags(class.access_flags, ACC_FINAL),
                super_id,
                super_rows,
                class.methods,
                class.methods.len() as int,
            ),
            class.methods,
            classes,
            class.interfaces,
            class.interfaces.len() as int,
        );
    }
}

/// Whether the two texts are the same.
pub fn same_text(a: &str, b: &str) -> (same: bool)
    ensures
        same == (a@ == b@),
{
    let x = a.to_owned();
    let y = b.to_owned();
    x == y
}

/// Whether the method is virtual.
pub fn is_virtual(m: &MethodInfo) -> (yes: bool)
    ensures
        yes == eligible(m@),
{
    proof {
        reveal_strlit("<init>");
    }
    !m.access_flags.contains(ACC_STATIC) && !m.access_flags.contains(ACC_PRIVATE)
        && !is_ascii_text(&m.name, "<init>")
}

/// The place of the last virtual method with this name and descriptor.
pub fn find_last_eligible(methods: &Vec<MethodInfo>, name: &JavaStr, descriptor: &MethodDescriptor) -> (found:
    Option<usize>)
    ensures
        match found {
            Some(k) => last_eligible(
                method_infos_view(methods@),
                methods.len() as int,
                name@,
                descriptor@,
            ) == Some(k as int) && k < methods.len(),
            None => last_eligible(
                method_infos_view(methods@),
                methods.len() as int,
                name@,
                descriptor@,
            ).is_none(),
        },
{
    let mut n: usize = methods.len();
    while n > 0
        invariant
            n <= methods.len(),
            last_eligible(method_infos_view(methods@), methods.len() as int, name@, descriptor@)
                == last_eligible(method_infos_view(methods@), n as int, name@, descriptor@),
        decreases n,
    {
        assert(method_infos_view(methods@)[n - 1] == methods@[n - 1]@);
        if is_virtual(&methods[n - 1]) && methods[n - 1].name.same_str(name) && methods[n
            - 1].descriptor.same_descriptor(descriptor) {
            return Some(n - 1);
        }
        n -= 1;
    }
    None
}

/// Whether a class in package `package` may override the method that the
/// row leads to.
fn can_override(classes: &Vec<Class>, package: &str, super_id: usize, row: &VtableEntry) -> (yes:
    bool)
    requires
        holder(row.index, super_id).0 < classes.len(),
        holder(row.index, super_id).1 < classes[holder(row.index, super_id).0 as int].methods.len(),
    ensures
        yes == overridable(classes@, package@, super_id, row@),
{
    let (h, i) = match row.index {
        VtableIndex::InThisClass(i) => (super_id, i),
        VtableIndex::OtherClass { class, index } => (class, index),
        VtableIndex::OtherInterface { class, index } => (class, index),
    };
    let flags = classes[h].methods[i].access_flags;
    flags.contains(ACC_PUBLIC) || flags.contains(ACC_PROTECTED) || same_text(
        classes[h].package_name(),
        package,
    )
}

/// Whether the rows of the super-class hold a row of this name and
/// descriptor whose method the class may override.
fn overrides_inherited(
    classes: &Vec<Class>,
    package: &str,
    super_id: usize,
    rows: &Vec<VtableEntry>,
    name: &JavaStr,
    descriptor: &MethodDescriptor,
) -> (yes: bool)
    requires
        forall|k: int|
            0 <= k < rows.len() ==> holder((#[trigger] rows@[k]).index, super_id).0 < classes.len()
                && holder(rows@[k].index, super_id).1 < classes[holder(
                rows@[k].index,
                super_id,
            ).0 as int].methods.len(),
    ensures
        yes == overrides_row(
            classes@,
            package@,
            super_id,
            vtable_view(rows@),
            rows.len() as int,
            name@,
            descriptor@,
        ),
{
    let mut n: usize = rows.len();
    while n > 0
        invariant
            n <= rows.len(),
            forall|k: int|
                0 <= k < rows.len() ==> holder((#[trigger] rows@[k]).index, super_id).0
                    < classes.len() && holder(rows@[k].index, super_id).1 < classes[holder(
                    rows@[k].index,
                    super_id,
                ).0 as int].methods.len(),
            overrides_row(
                classes@,
                package@,
                super_id,
                vtable_view(rows@),
                rows.len() as int,
                name@,
                descriptor@,
            ) == overrides_row(
                classes@,
                package@,
                super_id,
                vtable_view(rows@),
                n as int,
                name@,
                descriptor@,
            ),
        decreases n,
    {
        assert(vtable_view(rows@)[n - 1] == rows@[n - 1]@);
        if rows[n - 1].name.same_str(name) && rows[n - 1].descriptor.same_descriptor(descriptor)
            && can_override(classes, package, super_id, &rows[n - 1]) {
            return true;
        }
        n -= 1;
    }
    false
}

/// Whether the table holds a row of this name and descriptor.
fn table_has_row(table: &Vec<VtableEntry>, name: &JavaStr, descriptor: &MethodDescriptor) -> (yes:
    bool)
    ensures
        yes == has_row(vtable_view(table@), table.len() as int, name@, descriptor@),
{
    let mut n: usize = table.len();
    while n > 0
        invariant
            n <= table.len(),
            has_row(vtable_view(table@), table.len() as int, name@, descriptor@) == has_row(
                vtable_view(table@),
                n as int,
                name@,
                descriptor@,
            ),
        decreases n,
    {
        assert(vtable_view(table@)[n - 1] == table@[n - 1]@);
        if table[n - 1].name.same_str(name) && table[n - 1].descriptor.same_descriptor(
            descriptor,
        ) {
            return true;
        }
        n -= 1;
    }
    false
}

/// Whether the super-class and the interfaces of the class are among
/// `classes`, and every row of the super-class's table leads to a method
/// that exists.
pub open spec fn ready_for_vtable(classes: Seq<Class>, class: Class) -> bool {
    &&& class.super_class matches Some(s) ==> s < classes.len() && rows_valid(
        classes,
        classes[s as int].methods.len() as int,
        vtable_view(classes[s as int].vtable@),
    )
    &&& forall|k: int|
        0 <= k < class.interfaces.len() ==> (#[trigger] class.interfaces@[k]) < classes.len()
}

/// The rows of the super-class as the class inherits them.
fn inherit_rows(classes: &Vec<Class>, class: &Class) -> (table: Vec<VtableEntry>)
    requires
        ready_for_vtable(classes@, *class),
    ensures
        vtable_view(table@) == inherited_rows(
            classes@,
            method_infos_view(class.methods@),
            package_of(class.class_name@),
            has_flags(class.access_flags.bits, ACC_INTERFACE),
            match class.super_class {
                Some(s) => s,
                None => 0,
            },
            match class.super_class {
                Some(s) => vtable_view(classes[s as int].vtable@),
                None => Seq::empty(),
            },
        ),
        rows_valid(classes@, class.methods.len() as int, vtable_view(table@)),
{
    let mut table: Vec<VtableEntry> = Vec::new();
    let super_id = match class.super_class {
        Some(s) => s,
        None => {
            assert(vtable_view(table@) =~= inherited_rows(
                classes@,
                method_infos_view(class.methods@),
                package_of(class.class_name@),
                has_flags(class.access_flags.bits, ACC_INTERFACE),
                0,
                Seq::empty(),
            ));
            return table;
        },
    };
    let rows = &classes[super_id].vtable;
    let is_interface = class.access_flags.contains(ACC_INTERFACE);
    let package = class.package_name();
    let ghost methods = method_infos_view(class.methods@);
    let ghost super_rows = vtable_view(rows@);
    let mut k: usize = 0;
    while k < rows.len()
        invariant
            k <= rows.len(),
            table.len() == k,
            super_id < classes.len(),
            rows == &classes[super_id as int].vtable,
            super_rows == vtable_view(rows@),
            methods == method_infos_view(class.methods@),
            package@ == package_of(class.class_name@),
            is_interface == has_flags(class.access_flags.bits, ACC_INTERFACE),
            rows_valid(classes@, classes[super_id as int].methods.len() as int, super_rows),
            forall|j: int|
                0 <= j < k ==> (#[trigger] table@[j])@ == inherited_row(
                    classes@,
                    methods,
                    package@,
                    is_interface,
                    super_id,
                    super_rows[j],
                ),
            forall|j: int|
                0 <= j < k ==> row_valid(classes@, class.methods.len() as int, (#[trigger] table@[j]).index),
        decreases rows.len() - k,
    {
        let row = &rows[k];
        assert(super_rows[k as int] == row@);
        assert(row_valid(classes@, classes[super_id as int].methods.len() as int, super_rows[k as int].index));
        let (h, i) = match row.index {
            VtableIndex::InThisClass(i) => (super_id, i),
            VtableIndex::OtherClass { class, index } => (class, index),
            VtableIndex::OtherInterface { class, index } => (class, index),
        };
        let seen_index = match row.index {
            VtableIndex::InThisClass(i) => VtableIndex::OtherClass { class: super_id, index: i },
            other => other,
        };
        let root_class = match row.root_class {
            Some(r) => Some(r),
            None => Some(h),
        };
        let found = find_last_eligible(&class.methods, &row.name, &row.descriptor);
        let index = if !is_interface && found.is_some() && can_override(
            classes,
            package,
            super_id,
            row,
        ) {
            VtableIndex::InThisClass(found.unwrap())
        } else {
            seen_index
        };
        let entry = VtableEntry {
            root_class,
            name: row.name.clone(),
            descriptor: row.descriptor.clone(),
            index,
        };
        table.push(entry);
        k += 1;
    }
    assert(vtable_view(table@) =~= inherited_rows(
        classes@,
        methods,
        package@,
        is_interface,
        super_id,
        super_rows,
    ));
    table
}

/// Puts the methods of the interface `interface` behind the table.
fn add_interface_methods(
    table: &mut Vec<VtableEntry>,
    classes: &Vec<Class>,
    methods: &Vec<MethodInfo>,
    interface: usize,
)
    requires
        interface < classes.len(),
        rows_valid(classes@, methods.len() as int, vtable_view(old(table)@)),
    ensures
        vtable_view(final(table)@) == with_interface_methods(
            vtable_view(old(table)@),
            method_infos_view(methods@),
            interface,
            method_infos_view(classes[interface as int].methods@),
            classes[interface as int].methods.len() as int,
        ),
        rows_valid(classes@, methods.len() as int, vtable_view(final(table)@)),
{
    let interface_methods = &classes[interface].methods;
    let ghost start = vtable_view(table@);
    let ghost own = method_infos_view(methods@);
    let ghost theirs = method_infos_view(interface_methods@);
    let mut i: usize = 0;
    while i < interface_methods.len()
        invariant
            i <= interface_methods.len(),
            interface < classes.len(),
            interface_methods == &classes[interface as int].methods,
            own == method_infos_view(methods@),
            theirs == method_infos_view(interface_methods@),
            vtable_view(table@) == with_interface_methods(start, own, interface, theirs, i as int),
            rows_valid(classes@, methods.len() as int, vtable_view(table@)),
        decreases interface_methods.len() - i,
    {
        let m = &interface_methods[i];
        assert(theirs[i as int] == m@);
        let ghost before = vtable_view(table@);
        if !m.access_flags.contains(ACC_PRIVATE) && !m.access_flags.contains(ACC_STATIC)
            && find_last_eligible(methods, &m.name, &m.descriptor).is_none() && !table_has_row(
            table,
            &m.name,
            &m.descriptor,
        ) {
            let entry = VtableEntry {
                root_class: Some(interface),
                name: m.name.clone(),
                descriptor: m.descriptor.clone(),
                index: VtableIndex::OtherInterface { class: interface, index: i },
            };
            table.push(entry);
            assert(vtable_view(table@) =~= before.push(entry@));
            assert forall|k: int| 0 <= k < vtable_view(table@).len() implies row_valid(
                classes@,
                methods.len() as int,
                (#[trigger] vtable_view(table@)[k]).index,
            ) by {
                if k < before.len() {
                    assert(vtable_view(table@)[k] == before[k]);
                }
            }
        }
        i += 1;
    }
}

/// Builds the table of the class, whose super-class and interfaces are
/// among `classes`.
pub fn build_vtable(classes: &Vec<Class>, class: &mut Class)
    requires
        ready_for_vtable(classes@, *old(class)),
    ensures
        final(class)@ == (ClassView {
            vtable: built_vtable(classes@, old(class)@),
            ..old(class)@
        }),
        rows_valid(classes@, final(class).methods.len() as int, final(class)@.vtable),
{
    let mut vtable = inherit_rows(classes, class);
    if class.access_flags.contains(ACC_INTERFACE) {
        class.vtable = vtable;
        return ;
    }
    let ghost inherited = vtable_view(vtable@);
    let ghost methods = method_infos_view(class.methods@);
    let ghost package = package_of(class.class_name@);
    let class_final = class.access_flags.contains(ACC_FINAL);
    let super_id = match class.super_class {
        Some(s) => s,
        None => 0,
    };
    let no_rows: Vec<VtableEntry> = Vec::new();
    let super_rows: &Vec<VtableEntry> = match class.super_class {
        Some(s) => &classes[s].vtable,
        None => &no_rows,
    };
    assert(class.super_class is None ==> vtable_view(super_rows@) =~= Seq::empty());
    let ghost rows = vtable_view(super_rows@);
    assert forall|k: int| 0 <= k < super_rows.len() implies holder(
        (#[trigger] super_rows@[k]).index,
        super_id,
    ).0 < classes.len() && holder(super_rows@[k].index, super_id).1 < classes[holder(
        super_rows@[k].index,
        super_id,
    ).0 as int].methods.len() by {
        assert(rows[k] == super_rows@[k]@);
        assert(row_valid(classes@, classes[super_id as int].methods.len() as int, rows[k].index));
    }
    let mut i: usize = 0;
    while i < class.methods.len()
        invariant
            i <= class.methods.len(),
            *class == *old(class),
            methods == method_infos_view(class.methods@),
            package == package_of(class.class_name@),
            class_final == has_flags(class.access_flags.bits, ACC_FINAL),
            rows == vtable_view(super_rows@),
            forall|k: int|
                0 <= k < super_rows.len() ==> holder((#[trigger] super_rows@[k]).index, super_id).0
                    < classes.len() && holder(super_rows@[k].index, super_id).1 < classes[holder(
                    super_rows@[k].index,
                    super_id,
                ).0 as int].methods.len(),
            vtable_view(vtable@) == inherited + new_rows(
                classes@,
                package,
                class_final,
                super_id,
                rows,
                methods,
                i as int,
            ),
            rows_valid(classes@, class.methods.len() as int, vtable_view(vtable@)),
        decreases class.methods.len() - i,
    {
        let m = &class.methods[i];
        assert(methods[i as int] == m@);
        let ghost before = vtable_view(vtable@);
        let overrides = overrides_inherited(
            classes,
            class.package_name(),
            super_id,
            super_rows,
            &m.name,
            &m.descriptor,
        );
        if !class_final && !m.access_flags.contains(ACC_FINAL) && is_virtual(m) && !(overrides && (
        m.access_flags.contains(ACC_PUBLIC) || m.access_flags.contains(ACC_PROTECTED))) {
            let entry = VtableEntry {
                root_class: None,
                name: m.name.clone(),
                descriptor: m.descriptor.clone(),
                index: VtableIndex::InThisClass(i),
            };
            vtable.push(entry);
            assert(vtable_view(vtable@) =~= before.push(entry@));
            assert(entry@ == new_row(m@, i as int));
            assert forall|k: int| 0 <= k < vtable_view(vtable@).len() implies row_valid(
                classes@,
                class.methods.len() as int,
                (#[trigger] vtable_view(vtable@)[k]).index,
            ) by {
                if k < before.len() {
                    assert(vtable_view(vtable@)[k] == before[k]);
                }
            }
            assert(vtable_view(vtable@) =~= inherited + new_rows(
                classes@,
                package,
                class_final,
                super_id,
                rows,
                methods,
                i + 1,
            ));
        }
        i += 1;
    }
    let ghost base = vtable_view(vtable@);
    let mut j: usize = 0;
    while j < class.interfaces.len()
        invariant
            j <= class.interfaces.len(),
            *class == *old(class),
            methods == method_infos_view(class.methods@),
            forall|k: int|
                0 <= k < class.interfaces.len() ==> (#[trigger] class.interfaces@[k])
                    < classes.len(),
            vtable_view(vtable@) == with_interfaces(
                base,
                methods,
                classes@,
                class.interfaces@,
                j as int,
            ),
            rows_valid(classes@, class.methods.len() as int, vtable_view(vtable@)),
        decreases class.interfaces.len() - j,
    {
        add_interface_methods(&mut vtable, classes, &class.methods, class.interfaces[j]);
        j += 1;
    }
    class.vtable = vtable;
}

} // verus!

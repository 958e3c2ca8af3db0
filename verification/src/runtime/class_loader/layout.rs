//! The layout of instance fields.
//!
//! An object holds the fields of its class's super-class first, in the
//! slots that the super-class gives them, and behind them the fields that
//! the class declares, in declaration order: one slot each, two for a long
//! or a double.

use crate::class::structs::java_str::JavaStr;
use crate::descriptor::{FieldDescriptor, FieldTypeView};
use crate::runtime::class_loader::at_index;
use crate::runtime::structs::constant_pool::{ConstantInfoView, FieldResolve};
use crate::runtime::structs::{field_infos_view, FieldInfo, FieldInfoView};
use crate::runtime::structs::copy::copy_attributes;
use vstd::prelude::*;

verus! {

/// The first slot behind the fields of the super-class.
pub open spec fn layout_start(super_fields: Seq<FieldInfoView>) -> int {
    if super_fields.len() == 0 {
        0
    } else {
        super_fields.last().index + super_fields.last().descriptor.slots()
    }
}

/// The number of slots that the first `n` fields fill.
pub open spec fn slots_before(fields: Seq<FieldInfoView>, n: int) -> int
    decreases n,
{
    if n <= 0 {
        0
    } else {
        slots_before(fields, n - 1) + fields[n - 1].descriptor.slots()
    }
}

/// The fields with their indices, the first at `start`.
pub open spec fn instance_layout(own: Seq<FieldInfoView>, start: int) -> Seq<FieldInfoView> {
    Seq::new(own.len(), |i: int| at_index(own[i], start + slots_before(own, i)))
}

/// The instance fields of a class: those of its super-class, and behind
/// them its own.
pub open spec fn all_instance_fields(super_fields: Seq<FieldInfoView>, own: Seq<FieldInfoView>) -> Seq<
    FieldInfoView,
> {
    super_fields + instance_layout(own, layout_start(super_fields))
}

/// The place of the last among the first `n` fields that has this name and
/// this type.
pub open spec fn last_field_named(
    fields: Seq<FieldInfoView>,
    n: int,
    name: Seq<u8>,
    descriptor: FieldTypeView,
) -> Option<int>
    decreases n,
{
    if n <= 0 {
        None
    } else if fields[n - 1].name == name && fields[n - 1].descriptor == descriptor {
        Some(n - 1)
    } else {
        last_field_named(fields, n - 1, name, descriptor)
    }
}

/// The entry, resolved if it is a reference to an instance field of the
/// class named: it then holds the slot of the last field with its name
/// and type.
pub open spec fn with_field_resolved(
    entry: ConstantInfoView,
    class_name: Seq<char>,
    fields: Seq<FieldInfoView>,
) -> ConstantInfoView {
    match entry {
        ConstantInfoView::Fieldref { class_name: c, name, descriptor, resolve } => {
            if c == class_name {
                match last_field_named(fields, fields.len() as int, name, descriptor) {
                    Some(k) => ConstantInfoView::Fieldref {
                        class_name: c,
                        name,
                        descriptor,
                        resolve: Some(FieldResolve::InThisClass(fields[k].index)),
                    },
                    None => entry,
                }
            } else {
                entry
            }
        },
        _ => entry,
    }
}

/// The place of the last field with this name and type.
pub fn find_last_field(fields: &Vec<FieldInfo>, name: &JavaStr, descriptor: &FieldDescriptor) -> (found:
    Option<usize>)
    ensures
        match found {
            Some(k) => last_field_named(
                field_infos_view(fields@),
                fields.len() as int,
                name@,
                descriptor@,
            ) == Some(k as int) && k < fields.len(),
            None => last_field_named(
                field_infos_view(fields@),
                fields.len() as int,
                name@,
                descriptor@,
            ).is_none(),
        },
{
    let mut n: usize = fields.len();
    while n > 0
        invariant
            n <= fields.len(),
            last_field_named(field_infos_view(fields@), fields.len() as int, name@, descriptor@)
                == last_field_named(field_infos_view(fields@), n as int, name@, descriptor@),
        decreases n,
    {
        assert(field_infos_view(fields@)[n - 1] == fields@[n - 1]@);
        if fields[n - 1].name.same_str(name) && fields[n - 1].descriptor.0.same_type(
            &descriptor.0,
        ) {
            return Some(n - 1);
        }
        n -= 1;
    }
    None
}

/// A field as a sub-class inherits it: a copy of the field as the
/// super-class has it, with its name, type, flags, attributes and slot.
pub fn inherit_field(field: &FieldInfo) -> (copy: FieldInfo)
    ensures
        copy@ == field@,
{
    FieldInfo {
        access_flags: field.access_flags,
        name: field.name.clone(),
        descriptor: field.descriptor.clone(),
        attributes: copy_attributes(&field.attributes),
        index: field.index,
    }
}

/// Why the instance fields cannot be laid out: they need more slots than
/// can be counted.
#[derive(Debug, Clone, Copy, PartialEq, Eq, Structural)]
pub struct TooManySlots;

/// The instance fields of a class whose own fields are `own` and whose
/// super-class has the fields `super_fields`.
pub fn lay_out_instance_fields(super_fields: &Vec<FieldInfo>, own: Vec<FieldInfo>) -> (r: Result<
    Vec<FieldInfo>,
    TooManySlots,
>)
    ensures
        match r {
            Ok(fields) => field_infos_view(fields@) == all_instance_fields(
                field_infos_view(super_fields@),
                field_infos_view(own@),
            ) && layout_start(field_infos_view(super_fields@)) + slots_before(
                field_infos_view(own@),
                own.len() as int,
            ) <= usize::MAX,
            Err(_) => layout_start(field_infos_view(super_fields@)) + slots_before(
                field_infos_view(own@),
                own.len() as int,
            ) > usize::MAX,
        },
{
    let ghost super_view = field_infos_view(super_fields@);
    let ghost own_view = field_infos_view(own@);
    let ghost count = own.len();
    let mut laid = own;
    let start: usize = if super_fields.len() == 0 {
        0
    } else {
        let last = &super_fields[super_fields.len() - 1];
        assert(super_view.last() == last@);
        let slots: usize = if last.descriptor.0.is_long() {
            2
        } else {
            1
        };
        match last.index.checked_add(slots) {
            Some(start) => start,
            None => {
                proof {
                    lemma_slots_before_nonnegative(own_view, count as int);
                }
                return Err(TooManySlots);
            },
        }
    };
    assert(start == layout_start(super_view));
    let mut next: usize = start;
    let mut i: usize = 0;
    while i < laid.len()
        invariant
            i <= laid.len(),
            laid.len() == own_view.len(),
            count == laid.len(),
            count == own.len(),
            start == layout_start(super_view),
            super_view == field_infos_view(super_fields@),
            own_view == field_infos_view(own@),
            next == start + slots_before(own_view, i as int),
            forall|k: int|
                0 <= k < i ==> (#[trigger] laid@[k])@ == at_index(
                    own_view[k],
                    start + slots_before(own_view, k),
                ),
            forall|k: int| i <= k < laid.len() ==> (#[trigger] laid@[k])@ == own_view[k],
        decreases laid.len() - i,
    {
        let slots: usize = if laid[i].descriptor.0.is_long() {
            2
        } else {
            1
        };
        assert(own_view[i as int] == laid@[i as int]@);
        let after = match next.checked_add(slots) {
            Some(after) => after,
            None => {
                proof {
                    lemma_slots_before_grows(own_view, i + 1, count as int);
                }
                return Err(TooManySlots);
            },
        };
        set_index(&mut laid, i, next);
        next = after;
        i += 1;
    }
    let mut fields: Vec<FieldInfo> = Vec::new();
    let mut k: usize = 0;
    while k < super_fields.len()
        invariant
            k <= super_fields.len(),
            super_view == field_infos_view(super_fields@),
            field_infos_view(fields@) =~= super_view.subrange(0, k as int),
        decreases super_fields.len() - k,
    {
        let ghost before = field_infos_view(fields@);
        let copy = inherit_field(&super_fields[k]);
        fields.push(copy);
        assert(field_infos_view(fields@) =~= before.push(copy@));
        k += 1;
    }
    assert(super_view.subrange(0, super_fields.len() as int) =~= super_view);
    let ghost front = field_infos_view(fields@);
    let ghost laid_out = field_infos_view(laid@);
    assert(laid_out =~= instance_layout(own_view, start as int));
    append_fields(&mut fields, laid);
    Ok(fields)
}

/// Puts `more` behind the fields that are there.
fn append_fields(fields: &mut Vec<FieldInfo>, more: Vec<FieldInfo>)
    ensures
        field_infos_view(final(fields)@) == field_infos_view(old(fields)@) + field_infos_view(
            more@,
        ),
{
    let ghost front = field_infos_view(fields@);
    let ghost back = field_infos_view(more@);
    let mut more = more;
    let mut moved: Vec<FieldInfo> = Vec::new();
    // Taken from the end, so the fields come out in reverse.
    while more.len() > 0
        invariant
            more.len() <= back.len(),
            moved.len() + more.len() == back.len(),
            field_infos_view(more@) =~= back.subrange(0, more.len() as int),
            forall|k: int|
                0 <= k < moved.len() ==> (#[trigger] moved@[k])@ == back[back.len() - 1 - k],
        decreases more.len(),
    {
        let ghost n = more.len();
        let ghost rest = field_infos_view(more@);
        match more.pop() {
            Some(field) => {
                assert(field@ == rest[n - 1]);
                assert(field_infos_view(more@) =~= rest.subrange(0, n - 1));
                moved.push(field);
            },
            None => {},
        }
    }
    while moved.len() > 0
        invariant
            moved.len() <= back.len(),
            forall|k: int|
                0 <= k < moved.len() ==> (#[trigger] moved@[k])@ == back[back.len() - 1 - k],
            field_infos_view(fields@) =~= front + back.subrange(0, back.len() - moved.len()),
        decreases moved.len(),
    {
        let ghost n = moved.len();
        let ghost so_far = field_infos_view(fields@);
        match moved.pop() {
            Some(field) => {
                assert(field@ == back[back.len() - n]);
                fields.push(field);
                assert(field_infos_view(fields@) =~= so_far.push(field@));
            },
            None => {},
        }
    }
    assert(back.subrange(0, back.len() as int) =~= back);
}

/// Sets the index of field `i`.
fn set_index(fields: &mut Vec<FieldInfo>, i: usize, index: usize)
    requires
        i < old(fields).len(),
    ensures
        final(fields).len() == old(fields).len(),
        final(fields)@[i as int]@ == at_index(old(fields)@[i as int]@, index as int),
        forall|k: int| 0 <= k < old(fields).len() && k != i ==> final(fields)@[k] == old(fields)@[k],
{
    fields[i].index = index;
}

/// Fields fill no negative number of slots.
pub proof fn lemma_slots_before_nonnegative(fields: Seq<FieldInfoView>, n: int)
    ensures
        slots_before(fields, n) >= 0,
    decreases n,
{
    if n > 0 {
        lemma_slots_before_nonnegative(fields, n - 1);
    }
}

/// More fields fill no fewer slots.
pub proof fn lemma_slots_before_grows(fields: Seq<FieldInfoView>, i: int, n: int)
    requires
        i <= n,
    ensures
        slots_before(fields, i) <= slots_before(fields, n),
    decreases n - i,
{
    if i < n {
        lemma_slots_before_grows(fields, i, n - 1);
    }
}

/// The number of instance fields of a class is that of its super-class plus
/// the number of fields that the class declares and that are not static;
/// and every field that the class declares starts behind the slots of all
/// fields in front of it.
pub proof fn lemma_instance_field_count(super_fields: Seq<FieldInfoView>, own: Seq<FieldInfoView>)
    requires
        layout_start(super_fields) + slots_before(own, own.len() as int) <= usize::MAX,
    ensures
        all_instance_fields(super_fields, own).len() == super_fields.len() + own.len(),
        forall|i: int|
            0 <= i < super_fields.len() ==> all_instance_fields(super_fields, own)[i]
                == super_fields[i],
        forall|i: int|
            0 <= i < own.len() ==> (#[trigger] all_instance_fields(
                super_fields,
                own,
            )[super_fields.len() + i]).index == layout_start(super_fields) + slots_before(own, i),
{
    assert forall|i: int| 0 <= i < own.len() implies (#[trigger] all_instance_fields(
        super_fields,
        own,
    )[super_fields.len() + i]).index == layout_start(super_fields) + slots_before(own, i) by {
        lemma_slots_before_nonnegative(own, i);
        lemma_slots_before_grows(own, i, own.len() as int);
    }
}

} // verus!

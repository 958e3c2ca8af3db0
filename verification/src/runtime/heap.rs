//! The object heap.
//!
//! Objects are known by 32-bit identifiers. 0 is null. An identifier with
//! the high bit clear names an ordinary object, one with the high bit set a
//! special object: an interned string, its bytes, or a class mirror. Each
//! of the two kinds has its own table of slots, and object `n` of a kind
//! stands in slot `n - 1` of its table. An allocation takes the lowest free
//! slot.

pub mod access;
pub mod array;
pub mod reflection;
pub mod string_table;

use crate::class::structs::java_str::copy_bytes;
use crate::runtime::heap::reflection::{ClassTable, SpecialClassObject};
use crate::runtime::heap::string_table::{SpecialStringObject, StringTable, StringTableEntry};
use crate::runtime::interpreter::variable::Variable;
use crate::runtime::structs::object::{ArrayType, ObjectMonitor};
use vstd::prelude::*;

verus! {

/// The high bit, which tells special identifiers from ordinary ones, and
/// the bound of the number of objects of each kind.
pub const MAX_OBJECT_ID: u32 = 0x8000_0000;

/// What an ordinary object holds: the slots of its instance fields, or the
/// bytes of its elements where it is an array.
#[derive(Debug)]
pub enum Payload {
    Fields(Vec<Variable>),
    Array(Vec<u8>),
}

pub enum PayloadView {
    Fields(Seq<Variable>),
    Array(Seq<u8>),
}

impl View for Payload {
    type V = PayloadView;

    open spec fn view(&self) -> PayloadView {
        match self {
            Payload::Fields(f) => PayloadView::Fields(f@),
            Payload::Array(a) => PayloadView::Array(a@),
        }
    }
}

/// An ordinary object: its class, its monitor and what it holds.
#[derive(Debug)]
pub struct HeapObject {
    pub class: usize,
    pub monitor: ObjectMonitor,
    pub fields_or_array: Payload,
}

pub struct ObjectView {
    pub class: usize,
    pub monitor: ObjectMonitor,
    pub fields_or_array: PayloadView,
}

impl View for HeapObject {
    type V = ObjectView;

    open spec fn view(&self) -> ObjectView {
        ObjectView {
            class: self.class,
            monitor: self.monitor,
            fields_or_array: self.fields_or_array@,
        }
    }
}

/// A special object.
#[derive(Debug)]
pub enum SpecialObject {
    String(SpecialStringObject),
    Class(SpecialClassObject),
}

/// The special objects.
pub struct SpecialHeap {
    pub heap: Vec<Option<SpecialObject>>,
    pub next_id: u32,
}

/// The heap.
pub struct Heap {
    pub heap: Vec<Option<HeapObject>>,
    pub next_id: u32,
    pub special_heap: SpecialHeap,
}

/// Whether `next` is the lowest free slot of the table: every slot below it
/// is taken, and it is free or the end of the table.
pub open spec fn lowest_free<T>(slots: Seq<Option<T>>, next: int) -> bool {
    &&& 0 <= next <= slots.len() < MAX_OBJECT_ID
    &&& forall|k: int| 0 <= k < next ==> (#[trigger] slots[k]).is_some()
    &&& next < slots.len() ==> slots[next].is_none()
}

/// The table with `object` in slot `next`: behind the end, or in place of a
/// free slot.
pub open spec fn with_object<T>(slots: Seq<Option<T>>, next: int, object: T) -> Seq<Option<T>> {
    if next == slots.len() {
        slots.push(Some(object))
    } else {
        slots.update(next, Some(object))
    }
}

/// Puts the object into the lowest free slot and finds the next one. The
/// identifier of the object is the number of its slot plus 1.
pub fn allocate_id_for_obj<T>(heap: &mut Vec<Option<T>>, next_id: &mut u32, object: T) -> (id: u32)
    requires
        lowest_free(old(heap)@, *old(next_id) as int),
        *old(next_id) < MAX_OBJECT_ID - 1,
    ensures
        id == *old(next_id) + 1,
        final(heap)@ == with_object(old(heap)@, *old(next_id) as int, object),
        lowest_free(final(heap)@, *final(next_id) as int),
        *final(next_id) > *old(next_id),
{
    let id = *next_id;
    if heap.len() <= id as usize {
        heap.push(Some(object));
    } else {
        heap.set(id as usize, Some(object));
    }
    let mut next: u32 = id + 1;
    while (next as usize) < heap.len() && heap[next as usize].is_some()
        invariant
            id < next <= heap.len() < MAX_OBJECT_ID,
            forall|k: int| 0 <= k < next ==> (#[trigger] heap@[k]).is_some(),
        decreases heap.len() - next,
    {
        next += 1;
    }
    *next_id = next;
    id + 1
}

/// Why an object cannot be used as asked.
#[derive(Debug, Clone, Copy, PartialEq, Eq, Structural)]
pub enum ObjectFault {
    /// The identifier names no object.
    NoSuchObject,
    /// The object has no fields, or none with this index.
    NoSuchField,
    /// The object is no array, or has no such element.
    NoSuchElement,
    /// The object is special and cannot be changed in this way.
    Immutable,
}

/// A copy of slots.
pub fn copy_slots(slots: &Vec<Variable>) -> (copy: Vec<Variable>)
    ensures
        copy@ == slots@,
{
    let mut copy: Vec<Variable> = Vec::new();
    let mut i: usize = 0;
    while i < slots.len()
        invariant
            i <= slots.len(),
            copy@ =~= slots@.subrange(0, i as int),
        decreases slots.len() - i,
    {
        copy.push(slots[i]);
        i += 1;
    }
    assert(slots@.subrange(0, slots.len() as int) =~= slots@);
    copy
}

/// `n` bytes that are 0.
pub fn zero_bytes(n: usize) -> (bytes: Vec<u8>)
    ensures
        bytes@ == Seq::new(n as nat, |i: int| 0u8),
{
    let mut bytes: Vec<u8> = Vec::new();
    while bytes.len() < n
        invariant
            bytes.len() <= n,
            bytes@ =~= Seq::new(bytes.len() as nat, |i: int| 0u8),
        decreases n - bytes.len(),
    {
        bytes.push(0);
    }
    bytes
}

impl Heap {
    /// Whether the heap is in order: for both kinds of objects, the slot
    /// that the next object takes is the lowest free one; and no special
    /// object was ever freed, so that the next one takes a new slot.
    pub open spec fn wf(&self) -> bool {
        &&& lowest_free(self.heap@, self.next_id as int)
        &&& lowest_free(self.special_heap.heap@, self.special_heap.next_id as int)
        &&& self.special_heap.next_id == self.special_heap.heap.len()
    }

    /// The ordinary object with this identifier.
    pub open spec fn ordinary(&self, id: u32) -> Option<HeapObject> {
        if 1 <= id <= self.heap.len() && id < MAX_OBJECT_ID {
            self.heap@[id - 1]
        } else {
            None
        }
    }

    /// The special object with this identifier.
    pub open spec fn special(&self, id: u32) -> Option<SpecialObject> {
        if id > MAX_OBJECT_ID && id - MAX_OBJECT_ID <= self.special_heap.heap.len() {
            self.special_heap.heap@[id - MAX_OBJECT_ID - 1]
        } else {
            None
        }
    }

    /// Whether the identifier names an object.
    pub open spec fn is_live(&self, id: u32) -> bool {
        self.ordinary(id).is_some() || self.special(id).is_some()
    }

    /// The value of slot `index` of the ordinary object `id`.
    pub open spec fn field_value(&self, id: u32, index: int) -> Option<Variable> {
        match self.ordinary(id) {
            Some(object) => match object.fields_or_array {
                Payload::Fields(fields) => if 0 <= index < fields.len() {
                    Some(fields@[index])
                } else {
                    None
                },
                _ => None,
            },
            None => None,
        }
    }

    /// The bytes of the elements of the array `id`: an ordinary array, or
    /// the bytes of an interned string.
    pub open spec fn array_bytes(&self, id: u32) -> Option<Seq<u8>> {
        match self.ordinary(id) {
            Some(object) => match object.fields_or_array {
                Payload::Array(bytes) => Some(bytes@),
                _ => None,
            },
            None => match self.special(id) {
                Some(SpecialObject::String(SpecialStringObject::Bytes { bytes, .. })) => Some(
                    bytes@,
                ),
                _ => None,
            },
        }
    }

    /// The identifier of the bytes and the bytes of the interned string
    /// `id`; nothing where `id` names no interned string.
    pub open spec fn string_parts(&self, id: u32) -> Option<(u32, Seq<u8>)> {
        match self.special(id) {
            Some(SpecialObject::String(SpecialStringObject::String { bytes_id, bytes, .. })) => Some(
                (bytes_id, bytes@),
            ),
            _ => None,
        }
    }

    /// The bytes that the special object `id` holds, where it is the bytes
    /// of an interned string.
    pub open spec fn bytes_part(&self, id: u32) -> Option<Seq<u8>> {
        match self.special(id) {
            Some(SpecialObject::String(SpecialStringObject::Bytes { bytes, .. })) => Some(bytes@),
            _ => None,
        }
    }

    /// An empty heap.
    pub fn new() -> (heap: Heap)
        ensures
            heap.wf(),
            heap.heap.len() == 0,
            heap.special_heap.heap.len() == 0,
            heap.next_id == 0,
            heap.special_heap.next_id == 0,
    {
        Heap {
            heap: Vec::new(),
            next_id: 0,
            special_heap: SpecialHeap { heap: Vec::new(), next_id: 0 },
        }
    }

    /// Puts an ordinary object into the lowest free slot.
    fn allocate(&mut self, object: HeapObject) -> (id: Option<u32>)
        requires
            old(self).wf(),
        ensures
            final(self).wf(),
            final(self).special_heap == old(self).special_heap,
            match id {
                Some(id) => old(self).next_id < MAX_OBJECT_ID - 1 && id == old(self).next_id + 1
                    && final(self).heap@ == with_object(
                    old(self).heap@,
                    old(self).next_id as int,
                    object,
                ) && final(self).ordinary(id) == Some(object) && !old(self).is_live(id),
                None => old(self).next_id >= MAX_OBJECT_ID - 1 && *final(self) == *old(self),
            },
    {
        if self.next_id >= MAX_OBJECT_ID - 1 {
            return None;
        }
        Some(allocate_id_for_obj(&mut self.heap, &mut self.next_id, object))
    }

    /// Makes an object of the class with these slots, and gives its
    /// identifier: an ordinary one, not null. There is none where the heap
    /// is full.
    pub fn allocate_object(&mut self, class: usize, fields: Vec<Variable>) -> (id: Option<u32>)
        requires
            old(self).wf(),
        ensures
            final(self).wf(),
            final(self).special_heap == old(self).special_heap,
            match id {
                Some(id) => old(self).next_id < MAX_OBJECT_ID - 1 && allocated(
                    *old(self),
                    *final(self),
                    id,
                    ObjectView {
                        class,
                        monitor: ObjectMonitor { owner: 0, count: 0 },
                        fields_or_array: PayloadView::Fields(fields@),
                    },
                ),
                None => old(self).next_id >= MAX_OBJECT_ID - 1 && *final(self) == *old(self),
            },
    {
        let object = HeapObject {
            class,
            monitor: ObjectMonitor::new(),
            fields_or_array: Payload::Fields(fields),
        };
        self.allocate(object)
    }

    /// Makes an array of `size` elements of type `T`, all zero, and gives
    /// its identifier. There is none where the heap is full or the array
    /// would have more bytes than can be counted.
    pub fn allocate_array<T: ArrayType>(&mut self, size: usize, class: usize) -> (id: Option<u32>)
        requires
            old(self).wf(),
        ensures
            final(self).wf(),
            final(self).special_heap == old(self).special_heap,
            match id {
                Some(id) => size * T::size() <= usize::MAX && old(self).next_id < MAX_OBJECT_ID
                    - 1 && allocated(
                    *old(self),
                    *final(self),
                    id,
                    ObjectView {
                        class,
                        monitor: ObjectMonitor { owner: 0, count: 0 },
                        fields_or_array: PayloadView::Array(
                            Seq::new((size * T::size()) as nat, |i: int| 0u8),
                        ),
                    },
                ),
                None => (old(self).next_id >= MAX_OBJECT_ID - 1 || size * T::size() > usize::MAX)
                    && *final(self) == *old(self),
            },
    {
        self.allocate_bytes(size, T::element_size(), class)
    }

    /// Makes an array of `size` elements of `element_size` bytes each.
    pub fn allocate_bytes(&mut self, size: usize, element_size: usize, class: usize) -> (id:
        Option<u32>)
        requires
            old(self).wf(),
        ensures
            final(self).wf(),
            final(self).special_heap == old(self).special_heap,
            match id {
                Some(id) => size * element_size <= usize::MAX && old(self).next_id
                    < MAX_OBJECT_ID - 1 && allocated(
                    *old(self),
                    *final(self),
                    id,
                    ObjectView {
                        class,
                        monitor: ObjectMonitor { owner: 0, count: 0 },
                        fields_or_array: PayloadView::Array(
                            Seq::new((size * element_size) as nat, |i: int| 0u8),
                        ),
                    },
                ),
                None => (old(self).next_id >= MAX_OBJECT_ID - 1 || size * element_size
                    > usize::MAX) && *final(self) == *old(self),
            },
    {
        let length = match size.checked_mul(element_size) {
            Some(length) => length,
            None => {
                return None;
            },
        };
        let object = HeapObject {
            class,
            monitor: ObjectMonitor::new(),
            fields_or_array: Payload::Array(zero_bytes(length)),
        };
        self.allocate(object)
    }

    /// Makes an array that holds these bytes, and gives its identifier.
    /// There is none where the heap is full.
    pub fn allocate_filled(&mut self, bytes: Vec<u8>, class: usize) -> (id: Option<u32>)
        requires
            old(self).wf(),
        ensures
            final(self).wf(),
            final(self).special_heap == old(self).special_heap,
            match id {
                Some(id) => old(self).next_id < MAX_OBJECT_ID - 1 && allocated(
                    *old(self),
                    *final(self),
                    id,
                    ObjectView {
                        class,
                        monitor: ObjectMonitor { owner: 0, count: 0 },
                        fields_or_array: PayloadView::Array(bytes@),
                    },
                ),
                None => old(self).next_id >= MAX_OBJECT_ID - 1 && *final(self) == *old(self),
            },
    {
        let object = HeapObject {
            class,
            monitor: ObjectMonitor::new(),
            fields_or_array: Payload::Array(bytes),
        };
        self.allocate(object)
    }

    /// Frees the slot of an ordinary object. The slot is the next to be
    /// taken if it is the lowest free one.
    pub fn deallocate(&mut self, id: u32)
        requires
            old(self).wf(),
        ensures
            final(self).wf(),
            final(self).special_heap == old(self).special_heap,
            final(self).ordinary(id).is_none(),
            forall|other: u32| other != id ==> final(self).ordinary(other) == old(self).ordinary(
                other,
            ),
            old(self).ordinary(id).is_some() ==> final(self).next_id == (if id - 1 < old(self).next_id {
                (id - 1) as u32
            } else {
                old(self).next_id
            }),
            old(self).ordinary(id).is_none() ==> *final(self) == *old(self),
    {
        if id >= 1 && id < MAX_OBJECT_ID && (id as usize) <= self.heap.len() {
            if self.heap[(id - 1) as usize].is_some() {
                self.heap.set((id - 1) as usize, None);
                if id - 1 < self.next_id {
                    self.next_id = id - 1;
                }
            }
        }
    }

    /// Makes a copy of an ordinary object: of the same class, with a
    /// monitor of its own and the same slots or bytes. There is none where
    /// the object is not ordinary or the heap is full.
    pub fn clone(&mut self, id: u32) -> (copy: Option<u32>)
        requires
            old(self).wf(),
        ensures
            final(self).wf(),
            final(self).special_heap == old(self).special_heap,
            match copy {
                Some(copy) => {
                    &&& old(self).ordinary(id) matches Some(original)
                    &&& copy != id
                    &&& allocated(
                        *old(self),
                        *final(self),
                        copy,
                        ObjectView { monitor: ObjectMonitor { owner: 0, count: 0 }, ..original@ },
                    )
                },
                None => (old(self).ordinary(id).is_none() || old(self).next_id >= MAX_OBJECT_ID
                    - 1) && *final(self) == *old(self),
            },
    {
        if !(id >= 1 && id < MAX_OBJECT_ID && (id as usize) <= self.heap.len()) {
            return None;
        }
        let object = match &self.heap[(id - 1) as usize] {
            Some(original) => HeapObject {
                class: original.class,
                monitor: ObjectMonitor::new(),
                fields_or_array: match &original.fields_or_array {
                    Payload::Fields(fields) => Payload::Fields(copy_slots(fields)),
                    Payload::Array(bytes) => Payload::Array(copy_bytes(bytes)),
                },
            },
            None => {
                return None;
            },
        };
        self.allocate(object)
    }

    /// The value of slot `index` of an ordinary object.
    pub fn get_field(&self, id: u32, index: usize) -> (value: Option<Variable>)
        ensures
            value == self.field_value(id, index as int),
    {
        if !(id >= 1 && id < MAX_OBJECT_ID && (id as usize) <= self.heap.len()) {
            return None;
        }
        match &self.heap[(id - 1) as usize] {
            Some(object) => match &object.fields_or_array {
                Payload::Fields(fields) => if index < fields.len() {
                    Some(fields[index])
                } else {
                    None
                },
                _ => None,
            },
            None => None,
        }
    }

    /// Writes slot `index` of an ordinary object.
    pub fn put_field(&mut self, id: u32, index: usize, v: Variable) -> (r: Result<(), ObjectFault>)
        ensures
            final(self).special_heap == old(self).special_heap,
            final(self).next_id == old(self).next_id,
            final(self).heap.len() == old(self).heap.len(),
            match r {
                Ok(()) => old(self).field_value(id, index as int).is_some() && field_written(
                    *old(self),
                    *final(self),
                    id,
                    index as int,
                    v,
                ),
                Err(e) => old(self).field_value(id, index as int).is_none() && *final(self)
                    == *old(self) && e == (if old(self).ordinary(id).is_none() {
                    ObjectFault::NoSuchObject
                } else {
                    ObjectFault::NoSuchField
                }),
            },
    {
        if !(id >= 1 && id < MAX_OBJECT_ID && (id as usize) <= self.heap.len()) {
            return Err(ObjectFault::NoSuchObject);
        }
        let i = (id - 1) as usize;
        let writable = match &self.heap[i] {
            Some(object) => match &object.fields_or_array {
                Payload::Fields(fields) => index < fields.len(),
                _ => false,
            },
            None => {
                return Err(ObjectFault::NoSuchObject);
            },
        };
        if !writable {
            return Err(ObjectFault::NoSuchField);
        }
        match &mut self.heap[i] {
            Some(object) => {
                write_slot(object, index, v);
            },
            None => {},
        }
        Ok(())
    }
}

/// Writes slot `index` of the object.
fn write_slot(object: &mut HeapObject, index: usize, v: Variable)
    requires
        old(object).fields_or_array matches Payload::Fields(fields) && index < fields.len(),
    ensures
        final(object).class == old(object).class,
        final(object).monitor == old(object).monitor,
        final(object).fields_or_array matches Payload::Fields(fields) && fields@ == old(object).fields_or_array->Fields_0@.update(index as int, v),
{
    match &mut object.fields_or_array {
        Payload::Fields(fields) => {
            fields.set(index, v);
        },
        _ => {},
    }
}

/// A heap in which objects change but none comes or goes stays in order.
pub proof fn lemma_same_objects_keep_order(before: Heap, after: Heap)
    requires
        before.wf(),
        after.heap.len() == before.heap.len(),
        after.next_id == before.next_id,
        after.special_heap.heap.len() == before.special_heap.heap.len(),
        after.special_heap.next_id == before.special_heap.next_id,
        forall|id: u32| after.ordinary(id).is_some() == before.ordinary(id).is_some(),
        forall|id: u32| after.special(id).is_some() == before.special(id).is_some(),
    ensures
        after.wf(),
{
    assert forall|k: int| 0 <= k < after.next_id implies (#[trigger] after.heap@[k]).is_some() by {
        assert(before.heap@[k].is_some());
        assert(before.ordinary((k + 1) as u32) == before.heap@[k]);
        assert(after.ordinary((k + 1) as u32) == after.heap@[k]);
    }
    if after.next_id < after.heap.len() {
        let k = after.next_id as int;
        assert(before.ordinary((k + 1) as u32) == before.heap@[k]);
        assert(after.ordinary((k + 1) as u32) == after.heap@[k]);
    }
    assert forall|k: int| 0 <= k < after.special_heap.next_id implies (
    #[trigger] after.special_heap.heap@[k]).is_some() by {
        assert(before.special_heap.heap@[k].is_some());
        assert(before.special((k + 1 + MAX_OBJECT_ID) as u32) == before.special_heap.heap@[k]);
        assert(after.special((k + 1 + MAX_OBJECT_ID) as u32) == after.special_heap.heap@[k]);
    }
}

/// Whether `after` is `before` with a new ordinary object `id` that is
/// `object`, in the lowest slot that was free, and nothing else changed.
pub open spec fn allocated(before: Heap, after: Heap, id: u32, object: ObjectView) -> bool {
    &&& 0 < id < MAX_OBJECT_ID
    &&& id == before.next_id + 1
    &&& !before.is_live(id)
    &&& after.ordinary(id) matches Some(made)
    &&& made@ == object
    &&& forall|other: u32| other != id ==> after.ordinary(other) == before.ordinary(other)
    &&& after.special_heap == before.special_heap
}

/// Whether `after` is `before` with `v` written into slot `index` of the
/// ordinary object `id`, and nothing else changed.
pub open spec fn field_written(before: Heap, after: Heap, id: u32, index: int, v: Variable) -> bool {
    &&& before.ordinary(id) matches Some(old_object)
    &&& after.ordinary(id) matches Some(new_object)
    &&& old_object.fields_or_array matches Payload::Fields(old_fields)
    &&& new_object.fields_or_array matches Payload::Fields(new_fields)
    &&& new_fields@ == old_fields@.update(index, v)
    &&& new_object.class == old_object.class
    &&& new_object.monitor == old_object.monitor
    &&& after.heap.len() == before.heap.len()
    &&& forall|other: u32| other != id ==> after.ordinary(other) == before.ordinary(other)
    &&& after.special_heap == before.special_heap
    &&& after.next_id == before.next_id
}

/// A value written into a slot of an object is what is read from that
/// slot, bit for bit, and every other slot of every object reads as
/// before.
pub proof fn lemma_field_round_trip(before: Heap, after: Heap, id: u32, index: int, v: Variable)
    requires
        before.field_value(id, index).is_some(),
        field_written(before, after, id, index, v),
    ensures
        after.field_value(id, index) == Some(v),
        after.field_value(id, index)->Some_0.bits == v.bits,
        forall|other: u32, slot: int|
            (other != id || slot != index) ==> after.field_value(other, slot)
                == before.field_value(other, slot),
{
    assert forall|other: u32, slot: int| (other != id || slot != index) implies after.field_value(
        other,
        slot,
    ) == before.field_value(other, slot) by {
        if other != id {
            assert(after.ordinary(other) == before.ordinary(other));
        }
    }
}

/// Whether the string with these bytes, which the table knows by this
/// entry, is on the heap: the entry names two special objects, the string,
/// which holds the bytes and names the other, and its bytes.
pub open spec fn string_live(heap: Heap, bytes: Seq<u8>, entry: StringTableEntry) -> bool {
    &&& entry.string_id > MAX_OBJECT_ID
    &&& entry.bytes_id > MAX_OBJECT_ID
    &&& heap.string_parts(entry.string_id) == Some((entry.bytes_id, bytes))
    &&& heap.bytes_part(entry.bytes_id) == Some(bytes)
}

/// Whether every string that the table knows is on the heap.
pub open spec fn strings_live(heap: Heap, table: StringTable) -> bool {
    forall|bytes: Seq<u8>|
        (#[trigger] table.lookup(bytes)) matches Some(entry) ==> string_live(heap, bytes, entry)
}

/// Whether `after` is `before` with the string `bytes` interned as `id`:
/// a string that was interned keeps its identifier and nothing changes;
/// another gets `id` and no other string is touched.
pub open spec fn interned(before: StringTable, after: StringTable, bytes: Seq<u8>, id: u32) -> bool {
    &&& after.lookup(bytes) matches Some(entry)
    &&& entry.string_id == id
    &&& before.lookup(bytes) matches Some(known) ==> known.string_id == id
    &&& forall|other: Seq<u8>| other != bytes ==> after.lookup(other) == before.lookup(other)
}

/// Whether `after` and `after_table` are what interning the string makes
/// of `before` and `before_table`, and `id` is what it gives.
pub open spec fn intern_effect(
    before: Heap,
    after: Heap,
    before_table: StringTable,
    after_table: StringTable,
    string: Seq<u8>,
    has_multi_bytes: bool,
    id: Option<u32>,
) -> bool {
    &&& after.heap == before.heap
    &&& after.next_id == before.next_id
    &&& {
        match id {
            Some(id) => {
                &&& interned(before_table, after_table, string, id)
                &&& before_table.lookup(string).is_some() ==> after == before
                    && after_table == before_table
                &&& before_table.lookup(string).is_none() ==> {
                    &&& id > MAX_OBJECT_ID
                    &&& before.special(id).is_none()
                    &&& before.special((id - 1) as u32).is_none()
                    &&& after_table.lookup(string) == Some(
                        StringTableEntry {
                            string_id: id,
                            bytes_id: (id - 1) as u32,
                            hash: 0,
                            has_multi_bytes,
                        },
                    )
                    &&& after.special(id) matches Some(
                        SpecialObject::String(
                            SpecialStringObject::String {
                                bytes_id,
                                bytes,
                                hash,
                                has_multi_bytes: flag,
                                ..
                            },
                        ),
                    )
                    &&& bytes_id == id - 1 && bytes@ == string && hash == 0 && flag
                        == has_multi_bytes
                    &&& after.special((id - 1) as u32) matches Some(
                        SpecialObject::String(SpecialStringObject::Bytes { bytes: held, .. }),
                    )
                    &&& held@ == string
                    &&& forall|other: u32|
                        other != id && other != id - 1 ==> after.special(other) == before.special(other)
                }
            },
            None => before_table.lookup(string).is_none() && before.special_heap.next_id + 1 >= MAX_OBJECT_ID - 1 && after == before
                && after_table == before_table,
        }
    }
}

/// Whether `after` and `after_table` are what asking for the mirror of the
/// class makes of `before` and `before_table`, and `id` is what it gives.
pub open spec fn mirror_effect(
    before: Heap,
    after: Heap,
    before_table: ClassTable,
    after_table: ClassTable,
    class: usize,
    id: Option<u32>,
) -> bool {
    &&& after.heap == before.heap
    &&& after.next_id == before.next_id
    &&& {
        match id {
            Some(id) => {
                &&& after_table.lookup(class) == Some(id)
                &&& forall|other: usize|
                    other != class ==> after_table.lookup(other) == before_table.lookup(other)
                &&& before_table.lookup(class) matches Some(known) ==> id == known
                    && after == before
                &&& before_table.lookup(class).is_none() ==> id > MAX_OBJECT_ID
                    && before.special(id).is_none() && after.special(id) == Some(
                    SpecialObject::Class(
                        SpecialClassObject {
                            class,
                            monitor: ObjectMonitor { owner: 0, count: 0 },
                            name_str: 0,
                            package_name_str: 0,
                        },
                    ),
                ) && forall|other: u32|
                    other != id ==> after.special(other) == before.special(other)
            },
            None => before_table.lookup(class).is_none() && before.special_heap.next_id
                >= MAX_OBJECT_ID - 1 && after == before && after_table
                == before_table,
        }
    }
}

/// Interning the same bytes again in the same table gives the same
/// identifier.
pub proof fn lemma_intern_is_idempotent(
    first: StringTable,
    second: StringTable,
    third: StringTable,
    bytes: Seq<u8>,
    id1: u32,
    id2: u32,
)
    requires
        interned(first, second, bytes, id1),
        interned(second, third, bytes, id2),
    ensures
        id1 == id2,
{
}

/// Interning other bytes in between does not change the identifier
/// either.
pub proof fn lemma_intern_is_stable(
    first: StringTable,
    second: StringTable,
    third: StringTable,
    fourth: StringTable,
    bytes: Seq<u8>,
    other: Seq<u8>,
    id1: u32,
    id2: u32,
    id3: u32,
)
    requires
        interned(first, second, bytes, id1),
        interned(second, third, other, id2),
        interned(third, fourth, bytes, id3),
    ensures
        id1 == id3,
{
}

impl Heap {
    /// Puts a special object into the lowest free slot of the special
    /// objects.
    fn allocate_special(&mut self, object: SpecialObject) -> (id: u32)
        requires
            old(self).wf(),
            old(self).special_heap.next_id < MAX_OBJECT_ID - 1,
        ensures
            final(self).wf(),
            final(self).heap == old(self).heap,
            final(self).next_id == old(self).next_id,
            id == old(self).special_heap.next_id + 1 + MAX_OBJECT_ID,
            final(self).special_heap.heap@ == with_object(
                old(self).special_heap.heap@,
                old(self).special_heap.next_id as int,
                object,
            ),
            final(self).special_heap.next_id == old(self).special_heap.next_id + 1,
            final(self).special(id) == Some(object),
            old(self).special(id).is_none(),
            forall|other: u32| other != id ==> final(self).special(other) == old(self).special(other),
    {
        let id = allocate_id_for_obj(
            &mut self.special_heap.heap,
            &mut self.special_heap.next_id,
            object,
        );
        id + MAX_OBJECT_ID
    }

    /// Gives the identifier of the interned string with these bytes, and
    /// interns the string first where it is not interned yet: its bytes
    /// and the string itself become two special objects. There is no
    /// identifier where the string is not interned and the heap has no room
    /// for two special objects.
    pub fn intern_string(
        &mut self,
        string: Vec<u8>,
        has_multi_bytes: bool,
        string_table: &mut StringTable,
    ) -> (id: Option<u32>)
        requires
            old(self).wf(),
            old(string_table).wf(),
            strings_live(*old(self), *old(string_table)),
        ensures
            final(self).wf(),
            final(string_table).wf(),
            strings_live(*final(self), *final(string_table)),
            id matches Some(id) ==> id > MAX_OBJECT_ID && final(self).string_parts(id).is_some()
                && final(self).string_parts(id)->Some_0.1 == string@,
            intern_effect(
                *old(self),
                *final(self),
                *old(string_table),
                *final(string_table),
                string@,
                has_multi_bytes,
                id,
            ),
    {
        match string_table.get(&string) {
            Some(entry) => {
                return Some(entry.string_id);
            },
            None => {},
        }
        if self.special_heap.next_id >= MAX_OBJECT_ID - 2 {
            return None;
        }
        let bytes_obj = SpecialObject::String(
            SpecialStringObject::Bytes { monitor: ObjectMonitor::new(), bytes: copy_bytes(&string) },
        );
        let bytes_id = self.allocate_special(bytes_obj);
        let string_obj = SpecialObject::String(
            SpecialStringObject::String {
                monitor: ObjectMonitor::new(),
                bytes_id,
                bytes: copy_bytes(&string),
                hash: 0,
                has_multi_bytes,
            },
        );
        let string_id = self.allocate_special(string_obj);
        let table_entry = StringTableEntry { string_id, bytes_id, hash: 0, has_multi_bytes };
        string_table.insert(string, table_entry);
        Some(string_id)
    }

    /// Gives the identifier of the mirror of the class, and makes the
    /// mirror first where the class has none yet. There is no identifier
    /// where the class has no mirror and the heap has no room for one.
    pub fn get_class_object(&mut self, class: usize, class_table: &mut ClassTable) -> (id: Option<
        u32,
    >)
        requires
            old(self).wf(),
        ensures
            final(self).wf(),
            mirror_effect(
                *old(self),
                *final(self),
                *old(class_table),
                *final(class_table),
                class,
                id,
            ),
    {
        match class_table.get(class) {
            Some(entry) => {
                proof {
                    assert(class_table.lookup(class) == Some(entry));
                }
                class_table.insert(class, entry);
                return Some(entry);
            },
            None => {},
        }
        if self.special_heap.next_id >= MAX_OBJECT_ID - 1 {
            return None;
        }
        let class_obj = SpecialObject::Class(
            SpecialClassObject {
                class,
                monitor: ObjectMonitor::new(),
                name_str: 0,
                package_name_str: 0,
            },
        );
        let class_id = self.allocate_special(class_obj);
        class_table.insert(class, class_id);
        Some(class_id)
    }
}

} // verus!

//! What every object answers, ordinary or special: its class, its monitor,
//! and, for the special objects, the fields that the class library reads
//! from them.

use crate::runtime::heap::reflection::SpecialClassObject;
use crate::runtime::heap::string_table::SpecialStringObject;
use crate::runtime::heap::{Heap, HeapObject, ObjectFault, SpecialObject, MAX_OBJECT_ID};
use crate::runtime::interpreter::variable::Variable;
use crate::runtime::structs::object::{Entered, IllegalMonitorState, ObjectMonitor};
use vstd::prelude::*;

verus! {

/// The classes of the special objects.
#[derive(Debug, Clone, Copy, PartialEq, Eq, Structural)]
pub struct SpecialClasses {
    /// `java/lang/String`.
    pub string: usize,
    /// The class of arrays of bytes.
    pub byte_array: usize,
    /// `java/lang/Class`.
    pub class: usize,
}

/// The slots of the fields that the class library reads from the special
/// objects: of a string, `value`, `coder`, `hash` and `hashIsZero`; of a
/// class mirror, `name`, `packageName`, `classRedefinedCount` and
/// `classLoader`.
#[derive(Debug, Clone, Copy, PartialEq, Eq, Structural)]
pub struct SpecialFields {
    pub string_value: usize,
    pub string_coder: usize,
    pub string_hash: usize,
    pub string_hash_is_zero: usize,
    pub class_name: usize,
    pub class_package_name: usize,
    pub class_redefined_count: usize,
    pub class_loader: usize,
}

/// The class of a special object.
pub open spec fn special_class(object: SpecialObject, classes: SpecialClasses) -> usize {
    match object {
        SpecialObject::String(SpecialStringObject::Bytes { .. }) => classes.byte_array,
        SpecialObject::String(SpecialStringObject::String { .. }) => classes.string,
        SpecialObject::Class(_) => classes.class,
    }
}

/// What slot `index` of a special object reads as: of a string, the
/// identifier of its bytes, 1 or 0 as it has characters of more than one
/// byte or not, its hash, and 1 or 0 as its hash is 0 or not; of a class
/// mirror, the identifiers of its name and of its package's name, 0 for
/// the number of redefinitions, and null for the class loader.
pub open spec fn special_field(object: SpecialObject, index: usize, fields: SpecialFields) -> Option<
    Variable,
> {
    match object {
        SpecialObject::String(SpecialStringObject::String { bytes_id, hash, has_multi_bytes, .. }) => {
            if index == fields.string_value {
                Some(Variable::of_bits(bytes_id))
            } else if index == fields.string_coder {
                Some(
                    Variable::of_int(
                        if has_multi_bytes {
                            1
                        } else {
                            0
                        },
                    ),
                )
            } else if index == fields.string_hash {
                Some(Variable::of_int(hash))
            } else if index == fields.string_hash_is_zero {
                Some(
                    Variable::of_int(
                        if hash == 0 {
                            1
                        } else {
                            0
                        },
                    ),
                )
            } else {
                None
            }
        },
        SpecialObject::Class(mirror) => {
            if index == fields.class_name {
                Some(Variable::of_bits(mirror.name_str))
            } else if index == fields.class_package_name {
                Some(Variable::of_bits(mirror.package_name_str))
            } else if index == fields.class_redefined_count {
                Some(Variable::of_int(0))
            } else if index == fields.class_loader {
                Some(Variable::of_bits(0))
            } else {
                None
            }
        },
        _ => None,
    }
}

/// The monitor of a special object.
pub open spec fn special_monitor(object: SpecialObject) -> ObjectMonitor {
    match object {
        SpecialObject::String(SpecialStringObject::Bytes { monitor, .. }) => monitor,
        SpecialObject::String(SpecialStringObject::String { monitor, .. }) => monitor,
        SpecialObject::Class(mirror) => mirror.monitor,
    }
}

/// Whether `after` is `before` with `v` written into slot `index` of the
/// object `id`: an ordinary object, or a class mirror, of which only the
/// name and the name of the package can be written.
pub open spec fn stored(before: Heap, after: Heap, id: u32, index: usize, v: Variable, fields: SpecialFields) -> bool {
    &&& after.next_id == before.next_id
    &&& after.heap.len() == before.heap.len()
    &&& after.special_heap.heap.len() == before.special_heap.heap.len()
    &&& after.special_heap.next_id == before.special_heap.next_id
    &&& match before.special(id) {
        None => after.special_heap == before.special_heap
            && crate::runtime::heap::field_written(before, after, id, index as int, v),
        Some(SpecialObject::Class(mirror)) => after.heap == before.heap && (forall|other: u32|
            other != id ==> after.special(other) == before.special(other)) && after.special(id)
            == Some(
            SpecialObject::Class(
                if index == fields.class_package_name {
                    SpecialClassObject { package_name_str: v.bits, ..mirror }
                } else {
                    SpecialClassObject { name_str: v.bits, ..mirror }
                },
            ),
        ),
        Some(_) => false,
    }
}

/// Whether the two heaps differ in nothing but the monitor of the object
/// `id`: every other object is as it was, and the object is of the same
/// class and holds the same slots or bytes.
pub open spec fn monitor_apart(before: Heap, after: Heap, id: u32) -> bool {
    &&& forall|other: u32|
        other != id ==> after.ordinary(other) == before.ordinary(other) && after.special(other)
            == before.special(other)
    &&& forall|index: usize, fields: SpecialFields| #[trigger]
        after.read_field(id, index, fields) == before.read_field(id, index, fields)
    &&& forall|classes: SpecialClasses| #[trigger]
        after.class_of(id, classes) == before.class_of(id, classes)
    &&& after.array_bytes(id) == before.array_bytes(id)
    &&& after.string_parts(id) == before.string_parts(id)
    &&& after.bytes_part(id) == before.bytes_part(id)
}

impl Heap {
    /// Whether slot `index` of the object `id` can be written.
    pub open spec fn can_store(&self, id: u32, index: usize, fields: SpecialFields) -> bool {
        match self.special(id) {
            None => self.field_value(id, index as int).is_some(),
            Some(SpecialObject::Class(_)) => index == fields.class_package_name || index
                == fields.class_name,
            Some(_) => false,
        }
    }

    /// The class of the object `id`.
    pub open spec fn class_of(&self, id: u32, classes: SpecialClasses) -> Option<usize> {
        match self.ordinary(id) {
            Some(object) => Some(object.class),
            None => match self.special(id) {
                Some(object) => Some(special_class(object, classes)),
                None => None,
            },
        }
    }

    /// What slot `index` of the object `id` reads as.
    pub open spec fn read_field(&self, id: u32, index: usize, fields: SpecialFields) -> Option<
        Variable,
    > {
        match self.special(id) {
            Some(object) => special_field(object, index, fields),
            None => self.field_value(id, index as int),
        }
    }

    /// The monitor of the object `id`.
    pub open spec fn monitor_of(&self, id: u32) -> Option<ObjectMonitor> {
        match self.ordinary(id) {
            Some(object) => Some(object.monitor),
            None => match self.special(id) {
                Some(object) => Some(special_monitor(object)),
                None => None,
            },
        }
    }

    /// The special object `id`.
    pub fn get_special(&self, id: u32) -> (found: Option<&SpecialObject>)
        ensures
            match found {
                Some(object) => self.special(id) == Some(*object),
                None => self.special(id).is_none(),
            },
    {
        if id > MAX_OBJECT_ID && ((id - MAX_OBJECT_ID) as usize) <= self.special_heap.heap.len() {
            match &self.special_heap.heap[(id - MAX_OBJECT_ID - 1) as usize] {
                Some(object) => Some(object),
                None => None,
            }
        } else {
            None
        }
    }

    /// The ordinary object `id`.
    pub fn get_ordinary(&self, id: u32) -> (found: Option<&HeapObject>)
        ensures
            match found {
                Some(object) => self.ordinary(id) == Some(*object),
                None => self.ordinary(id).is_none(),
            },
    {
        if id >= 1 && id < MAX_OBJECT_ID && (id as usize) <= self.heap.len() {
            match &self.heap[(id - 1) as usize] {
                Some(object) => Some(object),
                None => None,
            }
        } else {
            None
        }
    }

    /// The class of the object `id`.
    pub fn get_class(&self, id: u32, classes: &SpecialClasses) -> (class: Option<usize>)
        ensures
            class == self.class_of(id, *classes),
    {
        match self.get_ordinary(id) {
            Some(object) => Some(object.class),
            None => match self.get_special(id) {
                Some(SpecialObject::String(SpecialStringObject::Bytes { .. })) => Some(
                    classes.byte_array,
                ),
                Some(SpecialObject::String(SpecialStringObject::String { .. })) => Some(
                    classes.string,
                ),
                Some(SpecialObject::Class(_)) => Some(classes.class),
                None => None,
            },
        }
    }

    /// Reads slot `index` of the object `id`.
    pub fn load_field(&self, id: u32, index: usize, fields: &SpecialFields) -> (value: Option<
        Variable,
    >)
        ensures
            value == self.read_field(id, index, *fields),
    {
        match self.get_special(id) {
            Some(SpecialObject::String(SpecialStringObject::String { bytes_id, hash, has_multi_bytes, .. })) => {
                if index == fields.string_value {
                    Some(Variable::from_reference(*bytes_id))
                } else if index == fields.string_coder {
                    Some(
                        Variable::from_int(
                            if *has_multi_bytes {
                                1
                            } else {
                                0
                            },
                        ),
                    )
                } else if index == fields.string_hash {
                    Some(Variable::from_int(*hash))
                } else if index == fields.string_hash_is_zero {
                    Some(
                        Variable::from_int(
                            if *hash == 0 {
                                1
                            } else {
                                0
                            },
                        ),
                    )
                } else {
                    None
                }
            },
            Some(SpecialObject::Class(mirror)) => {
                if index == fields.class_name {
                    Some(Variable::from_reference(mirror.name_str))
                } else if index == fields.class_package_name {
                    Some(Variable::from_reference(mirror.package_name_str))
                } else if index == fields.class_redefined_count {
                    Some(Variable::from_int(0))
                } else if index == fields.class_loader {
                    Some(Variable::from_reference(0))
                } else {
                    None
                }
            },
            Some(_) => None,
            None => self.get_field(id, index),
        }
    }

    /// Writes slot `index` of the object `id`. Of the special objects only
    /// a class mirror can be written, and of it only the name of its
    /// package and its name.
    pub fn store_field(&mut self, id: u32, index: usize, v: Variable, fields: &SpecialFields) -> (r:
        Result<(), ObjectFault>)
        ensures
            final(self).next_id == old(self).next_id,
            final(self).heap.len() == old(self).heap.len(),
            final(self).special_heap.heap.len() == old(self).special_heap.heap.len(),
            final(self).special_heap.next_id == old(self).special_heap.next_id,
            (r is Ok) == old(self).can_store(id, index, *fields),
            r is Ok ==> stored(*old(self), *final(self), id, index, v, *fields),
            r is Err ==> *final(self) == *old(self),
            old(self).wf() ==> final(self).wf(),
            match old(self).special(id) {
                None => final(self).special_heap == old(self).special_heap && match r {
                    Ok(()) => old(self).field_value(id, index as int).is_some()
                        && crate::runtime::heap::field_written(
                        *old(self),
                        *final(self),
                        id,
                        index as int,
                        v,
                    ),
                    Err(e) => old(self).field_value(id, index as int).is_none() && *final(self)
                        == *old(self),
                },
                Some(SpecialObject::Class(mirror)) => final(self).heap == old(self).heap && (
                forall|other: u32| other != id ==> final(self).special(other) == old(self).special(other))
                    && match r {
                    Ok(()) => (index == fields.class_package_name || index == fields.class_name)
                        && final(self).special(id) == Some(
                        SpecialObject::Class(
                            if index == fields.class_package_name {
                                SpecialClassObject { package_name_str: v.bits, ..mirror }
                            } else {
                                SpecialClassObject { name_str: v.bits, ..mirror }
                            },
                        ),
                    ),
                    Err(e) => e == ObjectFault::Immutable && index != fields.class_package_name
                        && index != fields.class_name && *final(self) == *old(self),
                },
                Some(_) => r == Err::<(), ObjectFault>(ObjectFault::Immutable) && *final(self)
                    == *old(self),
            },
    {
        if id > MAX_OBJECT_ID && ((id - MAX_OBJECT_ID) as usize) <= self.special_heap.heap.len() {
            let i = (id - MAX_OBJECT_ID - 1) as usize;
            let mirror = match &self.special_heap.heap[i] {
                Some(SpecialObject::Class(mirror)) => Some(*mirror),
                Some(_) => {
                    return Err(ObjectFault::Immutable);
                },
                None => None,
            };
            match mirror {
                Some(mirror) => {
                    let changed = if index == fields.class_package_name {
                        SpecialClassObject { package_name_str: v.get_reference(), ..mirror }
                    } else if index == fields.class_name {
                        SpecialClassObject { name_str: v.get_reference(), ..mirror }
                    } else {
                        return Err(ObjectFault::Immutable);
                    };
                    self.special_heap.heap.set(i, Some(SpecialObject::Class(changed)));
                    proof {
                        if old(self).wf() {
                            assert forall|other: u32| self.special(other).is_some() == old(self).special(other).is_some() by {
                                if other != id {
                                    assert(self.special(other) == old(self).special(other));
                                }
                            }
                            crate::runtime::heap::lemma_same_objects_keep_order(*old(self), *self);
                        }
                    }
                    return Ok(());
                },
                None => {},
            }
        }
        let r = self.put_field(id, index, v);
        proof {
            if old(self).wf() && r is Ok {
                assert forall|other: u32| self.ordinary(other).is_some() == old(self).ordinary(
                    other,
                ).is_some() by {
                    if other != id {
                        assert(self.ordinary(other) == old(self).ordinary(other));
                    }
                }
                crate::runtime::heap::lemma_same_objects_keep_order(*old(self), *self);
            }
        }
        r
    }

    /// Notes in the class mirror `id` which interned string is its name.
    /// Nothing is done where `id` is no class mirror.
    pub fn set_mirror_name(&mut self, id: u32, name: u32) -> (done: bool)
        ensures
            old(self).wf() ==> final(self).wf(),
            final(self).heap == old(self).heap,
            final(self).next_id == old(self).next_id,
            final(self).special_heap.next_id == old(self).special_heap.next_id,
            forall|other: u32| other != id ==> final(self).special(other) == old(self).special(other),
            match old(self).special(id) {
                Some(SpecialObject::Class(mirror)) => done && final(self).special(id) == Some(
                    SpecialObject::Class(SpecialClassObject { name_str: name, ..mirror }),
                ),
                _ => !done && *final(self) == *old(self),
            },
    {
        let mirror = match self.get_special(id) {
            Some(SpecialObject::Class(mirror)) => *mirror,
            _ => {
                return false;
            },
        };
        let i = (id - MAX_OBJECT_ID - 1) as usize;
        self.special_heap.heap.set(
            i,
            Some(SpecialObject::Class(SpecialClassObject { name_str: name, ..mirror })),
        );
        proof {
            assert forall|other: u32| other != id implies self.special(other) == old(self).special(
                other,
            ) by {}
            if old(self).wf() {
                assert forall|other: u32| self.special(other).is_some() == old(self).special(
                    other,
                ).is_some() by {
                    if other != id {
                        assert(self.special(other) == old(self).special(other));
                    }
                }
                crate::runtime::heap::lemma_same_objects_keep_order(*old(self), *self);
            }
        }
        true
    }

    /// The monitor of the object `id`.
    pub fn get_monitor(&self, id: u32) -> (monitor: Option<ObjectMonitor>)
        ensures
            monitor == self.monitor_of(id),
    {
        match self.get_ordinary(id) {
            Some(object) => Some(object.monitor),
            None => match self.get_special(id) {
                Some(SpecialObject::String(SpecialStringObject::Bytes { monitor, .. })) => Some(
                    *monitor,
                ),
                Some(SpecialObject::String(SpecialStringObject::String { monitor, .. })) => Some(
                    *monitor,
                ),
                Some(SpecialObject::Class(mirror)) => Some(mirror.monitor),
                None => None,
            },
        }
    }

    /// The thread tries to take the monitor of the object `id`.
    pub fn monitor_enter(&mut self, id: u32, thread: usize) -> (r: Result<Entered, ObjectFault>)
        ensures
            old(self).wf() ==> final(self).wf(),
            forall|other: u32| other != id ==> final(self).monitor_of(other) == old(self).monitor_of(other),
            monitor_apart(*old(self), *final(self), id),
            final(self).next_id == old(self).next_id,
            final(self).heap.len() == old(self).heap.len(),
            final(self).special_heap.heap.len() == old(self).special_heap.heap.len(),
            final(self).special_heap.next_id == old(self).special_heap.next_id,
            match r {
                Ok(entered) => old(self).monitor_of(id) matches Some(monitor) && entered == (
                if monitor.is_free() || (monitor.held_by(thread) && monitor.count < usize::MAX) {
                    Entered::Acquired
                } else {
                    Entered::Blocked
                }) && final(self).monitor_of(id) == Some(
                    if monitor.is_free() {
                        ObjectMonitor { owner: thread, count: 1 }
                    } else if monitor.held_by(thread) && monitor.count < usize::MAX {
                        ObjectMonitor { owner: thread, count: (monitor.count + 1) as usize }
                    } else {
                        monitor
                    },
                ),
                Err(e) => e == ObjectFault::NoSuchObject && old(self).monitor_of(id).is_none()
                    && *final(self) == *old(self),
            },
    {
        if self.get_ordinary(id).is_some() {
            match &mut self.heap[(id - 1) as usize] {
                Some(object) => {
                    return Ok(object.monitor.enter(thread));
                },
                None => {},
            }
        }
        if self.get_special(id).is_some() {
            match &mut self.special_heap.heap[(id - MAX_OBJECT_ID - 1) as usize] {
                Some(SpecialObject::String(SpecialStringObject::Bytes { monitor, .. })) => {
                    return Ok(monitor.enter(thread));
                },
                Some(SpecialObject::String(SpecialStringObject::String { monitor, .. })) => {
                    return Ok(monitor.enter(thread));
                },
                Some(SpecialObject::Class(mirror)) => {
                    return Ok(mirror.monitor.enter(thread));
                },
                None => {},
            }
        }
        Err(ObjectFault::NoSuchObject)
    }

    /// The thread releases the monitor of the object `id` once.
    pub fn monitor_exit(&mut self, id: u32, thread: usize) -> (r: Result<
        Result<(), IllegalMonitorState>,
        ObjectFault,
    >)
        ensures
            old(self).wf() ==> final(self).wf(),
            forall|other: u32| other != id ==> final(self).monitor_of(other) == old(self).monitor_of(other),
            monitor_apart(*old(self), *final(self), id),
            final(self).next_id == old(self).next_id,
            final(self).heap.len() == old(self).heap.len(),
            final(self).special_heap.heap.len() == old(self).special_heap.heap.len(),
            final(self).special_heap.next_id == old(self).special_heap.next_id,
            match r {
                Ok(left) => old(self).monitor_of(id) matches Some(monitor) && (left is Ok)
                    == monitor.held_by(thread) && final(self).monitor_of(id) == Some(
                    if monitor.held_by(thread) {
                        ObjectMonitor { owner: thread, count: (monitor.count - 1) as usize }
                    } else {
                        monitor
                    },
                ),
                Err(e) => e == ObjectFault::NoSuchObject && old(self).monitor_of(id).is_none()
                    && *final(self) == *old(self),
            },
    {
        if self.get_ordinary(id).is_some() {
            match &mut self.heap[(id - 1) as usize] {
                Some(object) => {
                    return Ok(object.monitor.exit(thread));
                },
                None => {},
            }
        }
        if self.get_special(id).is_some() {
            match &mut self.special_heap.heap[(id - MAX_OBJECT_ID - 1) as usize] {
                Some(SpecialObject::String(SpecialStringObject::Bytes { monitor, .. })) => {
                    return Ok(monitor.exit(thread));
                },
                Some(SpecialObject::String(SpecialStringObject::String { monitor, .. })) => {
                    return Ok(monitor.exit(thread));
                },
                Some(SpecialObject::Class(mirror)) => {
                    return Ok(mirror.monitor.exit(thread));
                },
                None => {},
            }
        }
        Err(ObjectFault::NoSuchObject)
    }
}

} // verus!

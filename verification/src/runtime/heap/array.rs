//! The elements of arrays. An array holds its elements as bytes, each
//! element as `element_size` bytes with the lowest first.

use crate::class::parser::copy_range;
use crate::runtime::heap::string_table::SpecialStringObject;
use crate::runtime::heap::{Heap, HeapObject, ObjectFault, Payload, SpecialObject, MAX_OBJECT_ID};
use crate::runtime::structs::object::{bits_of, bytes_of, lemma_bytes_round_trip, range_of};
use vstd::prelude::*;

verus! {

/// The bytes of element `index`.
pub open spec fn element_bytes(bytes: Seq<u8>, index: int, element_size: int) -> Seq<u8> {
    bytes.subrange(index * element_size, (index + 1) * element_size)
}

/// Whether the array has an element `index` of this size.
pub open spec fn has_element(bytes: Seq<u8>, index: int, element_size: int) -> bool {
    0 < element_size && 0 <= index && (index + 1) * element_size <= bytes.len()
}

/// The bytes with `v` in place of element `index`.
pub open spec fn with_element(bytes: Seq<u8>, index: int, v: Seq<u8>) -> Seq<u8> {
    Seq::new(
        bytes.len(),
        |k: int|
            if index * v.len() <= k < (index + 1) * v.len() {
                v[k - index * v.len()]
            } else {
                bytes[k]
            },
    )
}

/// An array of `len` bytes has an element `index` of `size` bytes exactly
/// where `index` is below the number of whole elements.
pub proof fn lemma_element_fits(len: int, index: int, size: int)
    requires
        size > 0,
        0 <= index,
        0 <= len,
    ensures
        (index < len / size) <==> ((index + 1) * size <= len),
        (index + 1) * size == index * size + size,
        0 <= index * size,
{
    vstd::arithmetic::div_mod::lemma_fundamental_div_mod(len, size);
    vstd::arithmetic::div_mod::lemma_mod_bound(len, size);
    vstd::arithmetic::div_mod::lemma_div_pos_is_pos(len, size);
    let q = len / size;
    assert((index + 1) * size == index * size + size) by (nonlinear_arith);
    assert(0 <= index * size) by (nonlinear_arith)
        requires
            0 <= index,
            size > 0,
    ;
    if index < q {
        assert((index + 1) * size <= q * size) by (nonlinear_arith)
            requires
                index + 1 <= q,
                size > 0,
        ;
        assert(size * q == q * size) by (nonlinear_arith);
    } else {
        assert((index + 1) * size >= (q + 1) * size) by (nonlinear_arith)
            requires
                index + 1 >= q + 1,
                size > 0,
        ;
        assert((q + 1) * size == size * q + size) by (nonlinear_arith);
    }
}

/// The number that bytes hold is below the range of so many bytes.
pub proof fn lemma_bits_bound(bytes: Seq<u8>)
    ensures
        0 <= bits_of(bytes) < range_of(bytes.len() as int),
    decreases bytes.len(),
{
    if bytes.len() > 0 {
        lemma_bits_bound(bytes.drop_first());
    }
}

/// The numbers that up to eight bytes hold fit in 64 bits.
pub proof fn lemma_range_of_eight(size: int)
    requires
        0 <= size <= 8,
    ensures
        range_of(size) <= 0x1_0000_0000_0000_0000,
    decreases 8 - size,
{
    reveal_with_fuel(range_of, 9);
}

/// The number that the bytes from `from` up to `to` hold.
pub fn read_bits(bytes: &Vec<u8>, from: usize, to: usize) -> (bits: u64)
    requires
        from <= to <= bytes.len(),
        to - from <= 8,
    ensures
        bits == bits_of(bytes@.subrange(from as int, to as int)),
{
    let mut bits: u64 = 0;
    let mut k: usize = to;
    proof {
        assert(bytes@.subrange(to as int, to as int) =~= Seq::empty());
    }
    while k > from
        invariant
            from <= k <= to <= bytes.len(),
            to - from <= 8,
            bits == bits_of(bytes@.subrange(k as int, to as int)),
        decreases k,
    {
        proof {
            let rest = bytes@.subrange(k as int, to as int);
            let all = bytes@.subrange(k - 1, to as int);
            assert(all.drop_first() =~= rest);
            lemma_bits_bound(rest);
            lemma_range_of_eight(to - k);
            lemma_bits_bound(all);
            lemma_range_of_eight(to - k + 1);
        }
        bits = bits * 256 + bytes[k - 1] as u64;
        k -= 1;
    }
    bits
}

/// Writes the low `size` bytes of `bits` at `from`.
pub fn write_bits(bytes: &mut Vec<u8>, from: usize, size: usize, bits: u64)
    requires
        from + size <= old(bytes).len(),
    ensures
        final(bytes).len() == old(bytes).len(),
        final(bytes)@ =~= Seq::new(
            old(bytes).len() as nat,
            |k: int|
                if from <= k < from + size {
                    bytes_of(bits as int, size as int)[k - from]
                } else {
                    old(bytes)@[k]
                },
        ),
{
    let mut rest: u64 = bits;
    let mut k: usize = 0;
    while k < size
        invariant
            k <= size,
            from + size <= bytes.len(),
            bytes.len() == old(bytes).len(),
            bytes_of(bits as int, size as int) =~= bytes_of(bits as int, k as int) + bytes_of(
                rest as int,
                size - k,
            ),
            forall|j: int| 0 <= j < bytes.len() && !(from <= j < from + k) ==> bytes@[j] == old(bytes)@[j],
            forall|j: int|
                from <= j < from + k ==> bytes@[j] == bytes_of(bits as int, k as int)[j - from],
            bytes_of(bits as int, k as int).len() == k,
        decreases size - k,
    {
        proof {
            lemma_bytes_split(bits as int, k as int, rest as int, size as int);
        }
        bytes.set(from + k, (rest % 256) as u8);
        rest = rest / 256;
        k += 1;
    }
    proof {
        assert(bytes_of(rest as int, 0) =~= Seq::empty());
    }
}

/// The bytes of a number are its lowest bytes and then the bytes of what is
/// left of it.
proof fn lemma_bytes_split(bits: int, k: int, rest: int, size: int)
    requires
        0 <= k < size,
        0 <= bits,
        0 <= rest,
        bytes_of(bits, size) =~= bytes_of(bits, k) + bytes_of(rest, size - k),
        bytes_of(bits, k).len() == k,
    ensures
        bytes_of(bits, k + 1) =~= bytes_of(bits, k).push((rest % 256) as u8),
        bytes_of(bits, size) =~= bytes_of(bits, k + 1) + bytes_of(rest / 256, size - k - 1),
        bytes_of(bits, k + 1).len() == k + 1,
{
    lemma_bytes_prefix(bits, k + 1, size);
    lemma_bytes_prefix(bits, k, size);
    lemma_bytes_round_trip(bits, k + 1);
    let whole = bytes_of(bits, size);
    let tail = bytes_of(rest, size - k);
    assert(tail[0] == (rest % 256) as u8);
    assert(tail.drop_first() =~= bytes_of(rest / 256, size - k - 1));
    assert(whole[k] == tail[0]);
    assert(bytes_of(bits, k + 1) =~= whole.subrange(0, k + 1));
    assert(bytes_of(bits, k) =~= whole.subrange(0, k));
}

/// The first bytes of a number do not depend on how many bytes are asked
/// for.
proof fn lemma_bytes_prefix(bits: int, k: int, size: int)
    requires
        0 <= k <= size,
    ensures
        bytes_of(bits, k) =~= bytes_of(bits, size).subrange(0, k),
        bytes_of(bits, size).len() == size,
    decreases k,
{
    lemma_bytes_len(bits, size);
    if k > 0 {
        lemma_bytes_prefix(bits / 256, k - 1, size - 1);
        lemma_bytes_len(bits / 256, size - 1);
        assert(bytes_of(bits, size).subrange(0, k) =~= seq![(bits % 256) as u8] + bytes_of(
            bits / 256,
            size - 1,
        ).subrange(0, k - 1));
    }
}

/// A number has as many bytes as are asked for.
proof fn lemma_bytes_len(bits: int, size: int)
    requires
        0 <= size,
    ensures
        bytes_of(bits, size).len() == size,
    decreases size,
{
    if size > 0 {
        lemma_bytes_len(bits / 256, size - 1);
    }
}

impl Heap {
    /// The bytes of the array `id`.
    pub fn get_u8_array(&self, id: u32) -> (bytes: Option<&Vec<u8>>)
        ensures
            match bytes {
                Some(b) => self.array_bytes(id) == Some(b@),
                None => self.array_bytes(id).is_none(),
            },
    {
        if id >= 1 && id < MAX_OBJECT_ID && (id as usize) <= self.heap.len() {
            match &self.heap[(id - 1) as usize] {
                Some(object) => match &object.fields_or_array {
                    Payload::Array(bytes) => Some(bytes),
                    _ => None,
                },
                None => None,
            }
        } else if id > MAX_OBJECT_ID && ((id - MAX_OBJECT_ID) as usize)
            <= self.special_heap.heap.len() {
            match &self.special_heap.heap[(id - MAX_OBJECT_ID - 1) as usize] {
                Some(SpecialObject::String(SpecialStringObject::Bytes { bytes, .. })) => Some(
                    bytes,
                ),
                _ => None,
            }
        } else {
            None
        }
    }

    /// The number of elements of `element_size` bytes that the array `id`
    /// holds.
    pub fn get_array_size(&self, id: u32, element_size: usize) -> (size: Option<usize>)
        requires
            element_size > 0,
        ensures
            match size {
                Some(n) => self.array_bytes(id) matches Some(bytes) && n == (bytes.len() as int)
                    / (element_size as int),
                None => self.array_bytes(id).is_none(),
            },
    {
        match self.get_u8_array(id) {
            Some(bytes) => Some(bytes.len() / element_size),
            None => None,
        }
    }

    /// The bytes of element `index` of the array `id`.
    pub fn get_array_index_raw(&self, id: u32, index: usize, element_size: usize) -> (element:
        Option<Vec<u8>>)
        ensures
            match element {
                Some(v) => self.array_bytes(id) matches Some(bytes) && has_element(
                    bytes,
                    index as int,
                    element_size as int,
                ) && v@ == element_bytes(bytes, index as int, element_size as int),
                None => !(self.array_bytes(id) matches Some(bytes) && has_element(
                    bytes,
                    index as int,
                    element_size as int,
                )),
            },
    {
        let bytes = match self.get_u8_array(id) {
            Some(bytes) => bytes,
            None => {
                return None;
            },
        };
        if element_size == 0 {
            return None;
        }
        let count = bytes.len() / element_size;
        if index >= count {
            proof {
                lemma_element_fits(bytes@.len() as int, index as int, element_size as int);
            }
            return None;
        }
        proof {
                lemma_element_fits(bytes.len() as int, index as int, element_size as int);
            }
        Some(copy_range(bytes.as_slice(), index * element_size, (index + 1) * element_size))
    }

    /// The number that element `index` of the array `id` holds.
    pub fn get_array_index(&self, id: u32, index: usize, element_size: usize) -> (element: Option<
        u64,
    >)
        requires
            element_size <= 8,
        ensures
            match element {
                Some(bits) => self.array_bytes(id) matches Some(bytes) && has_element(
                    bytes,
                    index as int,
                    element_size as int,
                ) && bits == bits_of(element_bytes(bytes, index as int, element_size as int)),
                None => !(self.array_bytes(id) matches Some(bytes) && has_element(
                    bytes,
                    index as int,
                    element_size as int,
                )),
            },
    {
        let bytes = match self.get_u8_array(id) {
            Some(bytes) => bytes,
            None => {
                return None;
            },
        };
        if element_size == 0 {
            return None;
        }
        let count = bytes.len() / element_size;
        if index >= count {
            proof {
                lemma_element_fits(bytes@.len() as int, index as int, element_size as int);
            }
            return None;
        }
        proof {
                lemma_element_fits(bytes.len() as int, index as int, element_size as int);
            }
        Some(read_bits(bytes, index * element_size, (index + 1) * element_size))
    }

    /// Writes the bytes `v` as element `index` of the ordinary array `id`.
    pub fn put_array_index_raw(&mut self, id: u32, index: usize, v: &Vec<u8>) -> (r: Result<
        (),
        ObjectFault,
    >)
        ensures
            final(self).special_heap == old(self).special_heap,
            final(self).next_id == old(self).next_id,
            final(self).heap.len() == old(self).heap.len(),
            forall|other: u32| other != id ==> final(self).ordinary(other) == old(self).ordinary(other),
            match r {
                Ok(()) => {
                    &&& old(self).ordinary(id) matches Some(before)
                    &&& before.fields_or_array matches Payload::Array(bytes)
                    &&& has_element(bytes@, index as int, v.len() as int)
                    &&& final(self).ordinary(id) matches Some(after)
                    &&& after.class == before.class && after.monitor == before.monitor
                    &&& after.fields_or_array matches Payload::Array(written)
                    &&& written@ == with_element(bytes@, index as int, v@)
                },
                Err(e) => *final(self) == *old(self) && e == (if old(self).special(id).is_some() {
                    ObjectFault::Immutable
                } else if old(self).ordinary(id).is_none() {
                    ObjectFault::NoSuchObject
                } else {
                    ObjectFault::NoSuchElement
                }) && !(old(self).ordinary(id) matches Some(before) && before.fields_or_array matches Payload::Array(
                    bytes,
                ) && has_element(bytes@, index as int, v.len() as int)),
            },
    {
        if id > MAX_OBJECT_ID && ((id - MAX_OBJECT_ID) as usize) <= self.special_heap.heap.len() {
            if self.special_heap.heap[(id - MAX_OBJECT_ID - 1) as usize].is_some() {
                return Err(ObjectFault::Immutable);
            }
        }
        if !(id >= 1 && id < MAX_OBJECT_ID && (id as usize) <= self.heap.len()) {
            return Err(ObjectFault::NoSuchObject);
        }
        let i = (id - 1) as usize;
        let size = v.len();
        let writable = match &self.heap[i] {
            Some(object) => match &object.fields_or_array {
                Payload::Array(bytes) => size > 0 && index < bytes.len() / size,
                _ => false,
            },
            None => {
                return Err(ObjectFault::NoSuchObject);
            },
        };
        if !writable {
            proof {
                let object = self.heap@[i as int]->Some_0;
                if object.fields_or_array is Array && size > 0 {
                    let bytes = object.fields_or_array->Array_0@;
                    lemma_element_fits(bytes.len() as int, index as int, size as int);
                }
            }
            return Err(ObjectFault::NoSuchElement);
        }
        match &mut self.heap[i] {
            Some(object) => {
                write_element(object, index, v);
            },
            None => {},
        }
        Ok(())
    }
}

/// The bytes with `v` in place of those from `from` on.
pub open spec fn with_range(bytes: Seq<u8>, from: int, v: Seq<u8>) -> Seq<u8> {
    Seq::new(
        bytes.len(),
        |k: int|
            if from <= k < from + v.len() {
                v[k - from]
            } else {
                bytes[k]
            },
    )
}

/// Whether `after` is `before` with the bytes of the ordinary array `id`
/// replaced by `bytes`, and nothing else changed.
pub open spec fn bytes_replaced(before: Heap, after: Heap, id: u32, bytes: Seq<u8>) -> bool {
    &&& before.ordinary(id) matches Some(old_object)
    &&& after.ordinary(id) matches Some(new_object)
    &&& new_object.fields_or_array matches Payload::Array(written)
    &&& written@ == bytes
    &&& new_object.class == old_object.class
    &&& new_object.monitor == old_object.monitor
    &&& forall|other: u32| other != id ==> after.ordinary(other) == before.ordinary(other)
    &&& after.special_heap == before.special_heap
    &&& after.next_id == before.next_id
    &&& after.heap.len() == before.heap.len()
}

/// Whether the ordinary array `id` has the bytes from `from` to `from + len`.
pub open spec fn has_range(heap: Heap, id: u32, from: int, len: int) -> bool {
    &&& heap.ordinary(id) matches Some(object)
    &&& object.fields_or_array matches Payload::Array(bytes)
    &&& 0 <= from && 0 <= len && from + len <= bytes.len()
}

impl Heap {
    /// Writes the bytes `v` into the ordinary array `id`, from byte `from`
    /// on. Nothing is written where there is no such array or it is too
    /// short.
    pub fn put_array_range(&mut self, id: u32, from: usize, v: &Vec<u8>) -> (written: bool)
        ensures
            old(self).wf() ==> final(self).wf(),
            written == has_range(*old(self), id, from as int, v.len() as int),
            if written {
                bytes_replaced(
                    *old(self),
                    *final(self),
                    id,
                    with_range(old(self).array_bytes(id)->Some_0, from as int, v@),
                )
            } else {
                *final(self) == *old(self)
            },
    {
        if !(id >= 1 && id < MAX_OBJECT_ID && (id as usize) <= self.heap.len()) {
            return false;
        }
        let i = (id - 1) as usize;
        let writable = match &self.heap[i] {
            Some(object) => match &object.fields_or_array {
                Payload::Array(bytes) => from <= bytes.len() && v.len() <= bytes.len() - from,
                _ => false,
            },
            None => false,
        };
        if !writable {
            return false;
        }
        match &mut self.heap[i] {
            Some(object) => {
                write_range(object, from, v);
            },
            None => {},
        }
        proof {
            if old(self).wf() {
                crate::runtime::heap::lemma_same_objects_keep_order(*old(self), *self);
            }
        }
        true
    }
}

/// Writes the bytes `v` into the array from byte `from` on.
fn write_range(object: &mut HeapObject, from: usize, v: &Vec<u8>)
    requires
        old(object).fields_or_array matches Payload::Array(bytes) && from + v.len() <= bytes.len(),
    ensures
        final(object).class == old(object).class,
        final(object).monitor == old(object).monitor,
        final(object).fields_or_array matches Payload::Array(bytes) && bytes@ == with_range(
            old(object).fields_or_array->Array_0@,
            from as int,
            v@,
        ),
{
    match &mut object.fields_or_array {
        Payload::Array(bytes) => {
            let size = v.len();
            let ghost before = bytes@;
            let mut k: usize = 0;
            while k < size
                invariant
                    k <= size,
                    size == v.len(),
                    from + size <= bytes.len(),
                    bytes.len() == before.len(),
                    forall|j: int| 0 <= j < bytes.len() && !(from <= j < from + k) ==> bytes@[j] == before[j],
                    forall|j: int| from <= j < from + k ==> bytes@[j] == v@[j - from],
                decreases size - k,
            {
                bytes.set(from + k, v[k]);
                k += 1;
            }
            assert(bytes@ =~= with_range(before, from as int, v@));
        },
        _ => {},
    }
}

/// Writes the bytes `v` as element `index` of the array.
fn write_element(object: &mut HeapObject, index: usize, v: &Vec<u8>)
    requires
        old(object).fields_or_array matches Payload::Array(bytes) && v.len() > 0 && index
            < bytes.len() / v.len(),
    ensures
        final(object).class == old(object).class,
        final(object).monitor == old(object).monitor,
        final(object).fields_or_array matches Payload::Array(bytes) && bytes@ == with_element(
            old(object).fields_or_array->Array_0@,
            index as int,
            v@,
        ),
        has_element(old(object).fields_or_array->Array_0@, index as int, v.len() as int),
{
    match &mut object.fields_or_array {
        Payload::Array(bytes) => {
            let size = v.len();
            proof {
                lemma_element_fits(bytes.len() as int, index as int, size as int);
            }
            let start = index * size;
            let ghost before = bytes@;
            let mut k: usize = 0;
            while k < size
                invariant
                    k <= size,
                    size == v.len(),
                    start == index * size,
                    start + size <= bytes.len(),
                    bytes.len() == before.len(),
                    forall|j: int| 0 <= j < bytes.len() && !(start <= j < start + k) ==> bytes@[j] == before[j],
                    forall|j: int| start <= j < start + k ==> bytes@[j] == v@[j - start],
                decreases size - k,
            {
                bytes.set(start + k, v[k]);
                k += 1;
            }
            assert(bytes@ =~= with_element(before, index as int, v@));
        },
        _ => {},
    }
}

} // verus!

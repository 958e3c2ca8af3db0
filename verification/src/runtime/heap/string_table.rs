//! Interned strings: the table from the bytes of a string to its object,
//! and the two special objects that stand for it, its bytes and the string
//! itself.

use crate::class::structs::java_str::same_bytes;
use crate::runtime::structs::object::ObjectMonitor;
use vstd::prelude::*;

verus! {

/// What the table knows of an interned string.
#[derive(Clone, Copy, Debug, PartialEq, Eq, Structural)]
pub struct StringTableEntry {
    pub string_id: u32,
    pub bytes_id: u32,
    pub hash: i32,
    pub has_multi_bytes: bool,
}

/// The table of the interned strings: for each, its bytes and its entry.
pub struct StringTable {
    pub keys: Vec<Vec<u8>>,
    pub entries: Vec<StringTableEntry>,
}

/// The place of the first of the keys from `from` on that holds these
/// bytes.
pub open spec fn key_place(keys: Seq<Vec<u8>>, from: int, bytes: Seq<u8>) -> Option<int>
    decreases keys.len() - from,
{
    if from < 0 || from >= keys.len() {
        None
    } else if keys[from]@ == bytes {
        Some(from)
    } else {
        key_place(keys, from + 1, bytes)
    }
}

impl StringTable {
    /// Whether every key has its entry.
    pub open spec fn wf(&self) -> bool {
        self.keys.len() == self.entries.len()
    }

    /// The entry of the string with these bytes.
    pub open spec fn lookup(&self, bytes: Seq<u8>) -> Option<StringTableEntry> {
        match key_place(self.keys@, 0, bytes) {
            Some(k) => Some(self.entries@[k]),
            None => None,
        }
    }

    /// A table with no strings.
    pub fn new() -> (table: Self)
        ensures
            table.wf(),
            forall|bytes: Seq<u8>| table.lookup(bytes).is_none(),
    {
        StringTable { keys: Vec::new(), entries: Vec::new() }
    }

    /// The entry of the string with these bytes, if it is interned.
    pub fn get(&self, bytes: &Vec<u8>) -> (found: Option<StringTableEntry>)
        requires
            self.wf(),
        ensures
            found == self.lookup(bytes@),
    {
        let mut i: usize = 0;
        while i < self.keys.len()
            invariant
                i <= self.keys.len(),
                self.wf(),
                key_place(self.keys@, 0, bytes@) == key_place(self.keys@, i as int, bytes@),
            decreases self.keys.len() - i,
        {
            if same_bytes(&self.keys[i], bytes) {
                return Some(self.entries[i]);
            }
            i += 1;
        }
        None
    }

    /// Puts a string that is not in the table into it.
    pub fn insert(&mut self, bytes: Vec<u8>, entry: StringTableEntry)
        requires
            old(self).wf(),
            old(self).lookup(bytes@).is_none(),
        ensures
            final(self).wf(),
            final(self).lookup(bytes@) == Some(entry),
            forall|other: Seq<u8>|
                other != bytes@ ==> final(self).lookup(other) == old(self).lookup(other),
    {
        let ghost before = self.keys@;
        let ghost before_entries = self.entries@;
        self.keys.push(bytes);
        self.entries.push(entry);
        proof {
            lemma_key_place_push(before, bytes, 0, bytes@);
            assert forall|other: Seq<u8>| other != bytes@ implies self.lookup(other) == old(self).lookup(other) by {
                lemma_key_place_push(before, bytes, 0, other);
                if key_place(before, 0, other).is_some() {
                    let k = key_place(before, 0, other)->Some_0;
                    assert(self.entries@[k] == before_entries[k]);
                }
            }
        }
    }
}

/// What pushing a key does to the place of a string.
proof fn lemma_key_place_push(keys: Seq<Vec<u8>>, key: Vec<u8>, from: int, bytes: Seq<u8>)
    requires
        0 <= from <= keys.len(),
    ensures
        key_place(keys.push(key), from, bytes) == (if key_place(keys, from, bytes).is_some() {
            key_place(keys, from, bytes)
        } else if bytes == key@ {
            Some(keys.len() as int)
        } else {
            None
        }),
        key_place(keys, from, bytes) matches Some(k) ==> from <= k < keys.len(),
    decreases keys.len() - from,
{
    if from < keys.len() {
        assert(keys.push(key)[from] == keys[from]);
        lemma_key_place_push(keys, key, from + 1, bytes);
    } else {
        assert(keys.push(key)[from] == key);
        assert(key_place(keys.push(key), from + 1, bytes).is_none());
    }
}

/// The two special objects of an interned string.
#[derive(Debug)]
pub enum SpecialStringObject {
    /// The bytes of the string, as an array of bytes.
    Bytes { monitor: ObjectMonitor, bytes: Vec<u8> },
    /// The string itself.
    String {
        monitor: ObjectMonitor,
        bytes_id: u32,
        bytes: Vec<u8>,
        hash: i32,
        has_multi_bytes: bool,
    },
}

impl SpecialStringObject {
    pub open spec fn bytes(&self) -> Seq<u8> {
        match self {
            SpecialStringObject::Bytes { bytes, .. } => bytes@,
            SpecialStringObject::String { bytes, .. } => bytes@,
        }
    }

    pub fn get_bytes(&self) -> (bytes: &Vec<u8>)
        ensures
            bytes@ == self.bytes(),
    {
        match self {
            SpecialStringObject::Bytes { bytes, .. } => bytes,
            SpecialStringObject::String { bytes, .. } => bytes,
        }
    }
}

} // verus!

//! Strings as class files hold them: in the modified UTF-8 encoding, where
//! U+0000 is written as `C0 80` and a character outside the basic plane as
//! two surrogates of three bytes each.

use vstd::prelude::*;

verus! {

/// A string in the modified UTF-8 encoding.
#[derive(Debug, PartialEq, Eq, Hash)]
pub struct JavaStr {
    pub inner: Vec<u8>,
}

/// An owned [`JavaStr`].
pub type JavaString = JavaStr;

impl View for JavaStr {
    type V = Seq<u8>;

    open spec fn view(&self) -> Seq<u8> {
        self.inner@
    }
}

/// What decoding modified UTF-8 gives: the text, or nothing where the bytes
/// are not modified UTF-8.
pub uninterp spec fn java_cesu8_decoded(bytes: Seq<u8>) -> Option<Seq<char>>;

/// The modified UTF-8 encoding of a text.
pub uninterp spec fn java_cesu8_encoded(text: Seq<char>) -> Seq<u8>;

/// Calls `JavaStr::from_java_cesu8` and `from_java_cesu8` of the crate
/// `cesu8_str`, module `java`: the first checks that the bytes are modified
/// UTF-8, the second turns them into text. The text is a function of the
/// bytes alone; it is none exactly where the check fails.
#[verifier::external_body]
fn decode_java_cesu8(bytes: &[u8]) -> (text: Option<String>)
    ensures
        text.is_some() == java_cesu8_decoded(bytes@).is_some(),
        text matches Some(s) ==> java_cesu8_decoded(bytes@) == Some(s@),
{
    match cesu8_str::java::JavaStr::from_java_cesu8(bytes) {
        Ok(s) => Some(cesu8_str::java::from_java_cesu8(s).into_owned()),
        Err(_) => None,
    }
}

/// Calls `from_utf8` of the crate `cesu8_str`, module `java`, which encodes
/// a text as modified UTF-8. The bytes are a function of the text alone.
#[verifier::external_body]
fn encode_java_cesu8(text: &str) -> (bytes: Vec<u8>)
    ensures
        bytes@ == java_cesu8_encoded(text@),
{
    cesu8_str::java::from_utf8(text).as_bytes().to_vec()
}

/// Whether a byte is a continuation byte: `10xxxxxx`.
pub open spec fn is_continuation(b: u8) -> bool {
    0x80 <= b < 0xc0
}

/// The byte in front of index `i`, or 0 in front of the first.
pub open spec fn byte_before(bytes: Seq<u8>, i: int) -> u8 {
    if i <= 0 {
        0
    } else {
        bytes[i - 1]
    }
}

/// The number of bytes among the first `n` that start a character: those
/// that are no continuation bytes.
pub open spec fn starts_before(bytes: Seq<u8>, n: int) -> nat
    decreases n,
{
    if n <= 0 {
        0
    } else if is_continuation(bytes[n - 1]) {
        starts_before(bytes, n - 1)
    } else {
        starts_before(bytes, n - 1) + 1
    }
}

/// The number of characters, counted as the bytes that start one.
pub open spec fn char_count(bytes: Seq<u8>) -> nat {
    starts_before(bytes, bytes.len() as int)
}

/// Whether some character takes more than one byte.
pub open spec fn has_multibyte(bytes: Seq<u8>) -> bool {
    exists|i: int| 0 <= i < bytes.len() && is_continuation(#[trigger] bytes[i])
}

/// Whether every character is below U+0100: no continuation byte follows a
/// byte above `C3`.
pub open spec fn is_latin1(bytes: Seq<u8>) -> bool {
    forall|i: int|
        0 <= i < bytes.len() && is_continuation(#[trigger] bytes[i]) ==> byte_before(bytes, i)
            <= 0xc3
}

/// The UTF-16 unit that starts at `start` and the number of bytes it takes.
/// A byte that starts no well-formed sequence of one, two or three bytes
/// stands for itself. Behind the end there is nothing: unit 0 of 0 bytes.
pub open spec fn unit_at(bytes: Seq<u8>, start: int) -> (u16, int) {
    if start < 0 || start >= bytes.len() {
        (0, 0)
    } else {
        let ch = bytes[start];
        if 0xc0 <= ch < 0xe0 && start + 1 < bytes.len() && is_continuation(bytes[start + 1]) {
            (((ch % 32) * 64 + bytes[start + 1] % 64) as u16, 2)
        } else if 0xe0 <= ch < 0xf0 && start + 2 < bytes.len() && is_continuation(
            bytes[start + 1],
        ) && is_continuation(bytes[start + 2]) {
            ((((ch % 16) * 64 + bytes[start + 1] % 64) * 64 + bytes[start + 2] % 64) as u16, 3)
        } else {
            (ch as u16, 1)
        }
    }
}

/// The UTF-16 units of the bytes from `from` on, at most `max` of them.
pub open spec fn units_from(bytes: Seq<u8>, from: int, max: int) -> Seq<u16>
    decreases max,
{
    if max <= 0 || from < 0 || from >= bytes.len() {
        Seq::empty()
    } else {
        seq![unit_at(bytes, from).0] + units_from(bytes, from + unit_at(bytes, from).1, max - 1)
    }
}

/// The bytes of UTF-16 units, each unit as two bytes in the byte order
/// asked for.
pub open spec fn unit_bytes(units: Seq<u16>, big_endian: bool) -> Seq<u8> {
    Seq::new(
        2 * units.len(),
        |i: int|
            if (i % 2 == 0) == big_endian {
                (units[i / 2] / 256) as u8
            } else {
                (units[i / 2] % 256) as u8
            },
    )
}

/// The low byte of each unit.
pub open spec fn low_bytes(units: Seq<u16>) -> Seq<u8> {
    Seq::new(units.len(), |i: int| (units[i] % 256) as u8)
}

/// The bytes of the string object for a class-file string: the bytes
/// themselves where every character takes one byte and compact strings are
/// on; else one byte for each unit where every character is below U+0100
/// and compact strings are on; else two bytes for each unit.
pub open spec fn string_bytes(bytes: Seq<u8>, compact: bool, big_endian: bool) -> (Seq<u8>, bool) {
    if compact && !has_multibyte(bytes) {
        (bytes, false)
    } else if compact && is_latin1(bytes) {
        (low_bytes(units_from(bytes, 0, char_count(bytes) as int)), true)
    } else {
        (unit_bytes(units_from(bytes, 0, char_count(bytes) as int), big_endian), true)
    }
}

/// A copy of a byte string.
pub fn copy_bytes(bytes: &Vec<u8>) -> (copy: Vec<u8>)
    ensures
        copy@ == bytes@,
{
    let mut copy: Vec<u8> = Vec::new();
    let mut i: usize = 0;
    while i < bytes.len()
        invariant
            i <= bytes.len(),
            copy@ =~= bytes@.subrange(0, i as int),
        decreases bytes.len() - i,
    {
        copy.push(bytes[i]);
        i += 1;
    }
    assert(bytes@.subrange(0, bytes.len() as int) =~= bytes@);
    copy
}

/// Whether two byte strings hold the same bytes.
pub fn same_bytes(a: &Vec<u8>, b: &Vec<u8>) -> (same: bool)
    ensures
        same == (a@ == b@),
{
    if a.len() != b.len() {
        return false;
    }
    let mut i: usize = 0;
    while i < a.len()
        invariant
            i <= a.len(),
            a.len() == b.len(),
            forall|k: int| 0 <= k < i ==> a@[k] == b@[k],
        decreases a.len() - i,
    {
        if a[i] != b[i] {
            return false;
        }
        i += 1;
    }
    assert(a@ =~= b@);
    true
}

impl Clone for JavaStr {
    fn clone(&self) -> (copy: Self)
        ensures
            copy@ == self@,
    {
        JavaStr { inner: copy_bytes(&self.inner) }
    }
}

impl JavaStr {
    /// The string that holds `inner`, which is taken for modified UTF-8 as
    /// it stands.
    pub fn new(inner: Vec<u8>) -> (s: Self)
        ensures
            s@ == inner@,
    {
        JavaStr { inner }
    }

    pub fn as_bytes(&self) -> (bytes: &Vec<u8>)
        ensures
            bytes@ == self@,
    {
        &self.inner
    }

    pub fn to_java_string(&self) -> (copy: JavaString)
        ensures
            copy@ == self@,
    {
        self.clone()
    }

    /// Whether the two strings hold the same bytes.
    pub fn same_str(&self, other: &JavaStr) -> (same: bool)
        ensures
            same == (self@ == other@),
    {
        same_bytes(&self.inner, &other.inner)
    }

    /// The text, or none where the bytes are not modified UTF-8.
    pub fn to_str(&self) -> (text: Option<String>)
        ensures
            text.is_some() == java_cesu8_decoded(self@).is_some(),
            text matches Some(s) ==> java_cesu8_decoded(self@) == Some(s@),
    {
        decode_java_cesu8(self.inner.as_slice())
    }

    /// The text in modified UTF-8.
    pub fn from_str(s: &str) -> (encoded: JavaStr)
        ensures
            encoded@ == java_cesu8_encoded(s@),
    {
        JavaStr { inner: encode_java_cesu8(s) }
    }

    /// The number of characters, whether all are below U+0100, and whether
    /// any takes more than one byte.
    pub fn calculate_unicode_info(&self) -> (info: (usize, bool, bool))
        ensures
            info.0 == char_count(self@),
            info.1 == is_latin1(self@),
            info.2 == has_multibyte(self@),
    {
        let mut num_chars: usize = 0;
        let mut multibyte = false;
        let mut latin1 = true;
        let mut prev: u8 = 0;
        let mut i: usize = 0;
        while i < self.inner.len()
            invariant
                i <= self.inner.len(),
                num_chars == starts_before(self@, i as int),
                num_chars <= i,
                prev == byte_before(self@, i as int),
                multibyte == (exists|k: int| 0 <= k < i && is_continuation(#[trigger] self@[k])),
                latin1 == (forall|k: int|
                    0 <= k < i && is_continuation(#[trigger] self@[k]) ==> byte_before(self@, k)
                        <= 0xc3),
            decreases self.inner.len() - i,
        {
            let c = self.inner[i];
            if 0x80 <= c && c < 0xc0 {
                multibyte = true;
                if prev > 0xc3 {
                    latin1 = false;
                }
            } else {
                num_chars += 1;
            }
            prev = c;
            i += 1;
        }
        (num_chars, latin1, multibyte)
    }

    /// The UTF-16 unit that starts at `start` and the number of bytes it
    /// takes.
    pub fn next_utf8_char(bytes: &Vec<u8>, start: usize) -> (unit: (u16, usize))
        ensures
            unit.0 == unit_at(bytes@, start as int).0,
            unit.1 == unit_at(bytes@, start as int).1,
    {
        if start >= bytes.len() {
            return (0, 0);
        }
        let ch = bytes[start];
        let left = bytes.len() - start;
        if 0xc0 <= ch && ch < 0xe0 && left >= 2 {
            let ch2 = bytes[start + 1];
            if 0x80 <= ch2 && ch2 < 0xc0 {
                return ((ch % 32) as u16 * 64 + (ch2 % 64) as u16, 2);
            }
        } else if 0xe0 <= ch && ch < 0xf0 && left >= 3 {
            let ch2 = bytes[start + 1];
            let ch3 = bytes[start + 2];
            if 0x80 <= ch2 && ch2 < 0xc0 && 0x80 <= ch3 && ch3 < 0xc0 {
                return (((ch % 16) as u16 * 64 + (ch2 % 64) as u16) * 64 + (ch3 % 64) as u16, 3);
            }
        }
        (ch as u16, 1)
    }

    /// The UTF-16 units of the string, at most `max_len` of them.
    pub fn convert_to_unicode(&self, max_len: usize) -> (units: Vec<u16>)
        ensures
            units@ == units_from(self@, 0, max_len as int),
    {
        let mut units: Vec<u16> = Vec::new();
        let mut index: usize = 0;
        while index < self.inner.len() && units.len() < max_len
            invariant
                index <= self.inner.len(),
                units.len() <= max_len,
                units_from(self@, 0, max_len as int) =~= units@ + units_from(
                    self@,
                    index as int,
                    max_len - units.len(),
                ),
            decreases self.inner.len() - index,
        {
            let (unit, consumed) = JavaStr::next_utf8_char(&self.inner, index);
            units.push(unit);
            index += consumed;
        }
        units
    }

    /// The bytes of the string object for this string, and whether they
    /// hold more than the string's own bytes. `compact` says whether
    /// strings of one-byte characters are kept as they are; `big_endian`
    /// gives the byte order of two-byte units.
    pub fn to_java_string_bytes(&self, compact: bool, big_endian: bool) -> (r: (Vec<u8>, bool))
        ensures
            r.0@ == string_bytes(self@, compact, big_endian).0,
            r.1 == string_bytes(self@, compact, big_endian).1,
    {
        let (num_chars, latin1, multibyte) = self.calculate_unicode_info();
        if compact && !multibyte {
            return (copy_bytes(&self.inner), false);
        }
        let units = self.convert_to_unicode(num_chars);
        let mut bytes: Vec<u8> = Vec::new();
        let mut i: usize = 0;
        if compact && latin1 {
            while i < units.len()
                invariant
                    i <= units.len(),
                    bytes@ =~= low_bytes(units@.subrange(0, i as int)),
                decreases units.len() - i,
            {
                bytes.push((units[i] % 256) as u8);
                i += 1;
            }
            assert(units@.subrange(0, units.len() as int) =~= units@);
        } else {
            while i < units.len()
                invariant
                    i <= units.len(),
                    bytes@ =~= unit_bytes(units@.subrange(0, i as int), big_endian),
                decreases units.len() - i,
            {
                let high = (units[i] / 256) as u8;
                let low = (units[i] % 256) as u8;
                if big_endian {
                    bytes.push(high);
                    bytes.push(low);
                } else {
                    bytes.push(low);
                    bytes.push(high);
                }
                i += 1;
            }
            assert(units@.subrange(0, units.len() as int) =~= units@);
        }
        (bytes, true)
    }
}

} // verus!

//! The value slot: one untagged 32-bit cell.
//!
//! A slot holds, at different times, an int, the bits of a float, a
//! reference, a return address, or nothing yet. What it holds is for the
//! class file to keep straight; the slot itself only has its 32 bits. A long
//! or a double fills two adjacent slots, upper half first.

use vstd::prelude::*;

verus! {

/// The signed number with the bits of `bits`.
pub open spec fn signed32(bits: u32) -> i32 {
    if bits < 0x8000_0000 {
        bits as i32
    } else {
        (bits - 0x1_0000_0000) as i32
    }
}

/// The bits of the signed number `value`.
pub open spec fn unsigned32(value: i32) -> u32 {
    if value >= 0 {
        value as u32
    } else {
        (value + 0x1_0000_0000) as u32
    }
}

/// The signed number with the bits of `bits`.
pub open spec fn signed64(bits: u64) -> i64 {
    if bits < 0x8000_0000_0000_0000 {
        bits as i64
    } else {
        (bits - 0x1_0000_0000_0000_0000) as i64
    }
}

/// The bits of the signed number `value`.
pub open spec fn unsigned64(value: i64) -> u64 {
    if value >= 0 {
        value as u64
    } else {
        (value + 0x1_0000_0000_0000_0000) as u64
    }
}

/// The upper 32 bits of `bits`.
pub open spec fn upper_half(bits: u64) -> u32 {
    (bits / 0x1_0000_0000) as u32
}

/// The lower 32 bits of `bits`.
pub open spec fn lower_half(bits: u64) -> u32 {
    (bits % 0x1_0000_0000) as u32
}

/// The 64 bits made of an upper and a lower half.
pub open spec fn join_halves(upper: u32, lower: u32) -> u64 {
    (upper * 0x1_0000_0000 + lower) as u64
}

pub fn to_signed32(bits: u32) -> (value: i32)
    ensures
        value == signed32(bits),
{
    assert(bits as i32 == signed32(bits)) by (bit_vector)
        requires
            signed32(bits) == if bits < 0x8000_0000u32 {
                bits as i32
            } else {
                (bits - 0x1_0000_0000) as i32
            },
    ;
    bits as i32
}

pub fn to_unsigned32(value: i32) -> (bits: u32)
    ensures
        bits == unsigned32(value),
{
    assert(value as u32 == unsigned32(value)) by (bit_vector)
        requires
            unsigned32(value) == if value >= 0i32 {
                value as u32
            } else {
                (value + 0x1_0000_0000) as u32
            },
    ;
    value as u32
}

pub fn to_signed64(bits: u64) -> (value: i64)
    ensures
        value == signed64(bits),
{
    assert(bits as i64 == signed64(bits)) by (bit_vector)
        requires
            signed64(bits) == if bits < 0x8000_0000_0000_0000u64 {
                bits as i64
            } else {
                (bits - 0x1_0000_0000_0000_0000) as i64
            },
    ;
    bits as i64
}

pub fn to_unsigned64(value: i64) -> (bits: u64)
    ensures
        bits == unsigned64(value),
{
    assert(value as u64 == unsigned64(value)) by (bit_vector)
        requires
            unsigned64(value) == if value >= 0i64 {
                value as u64
            } else {
                (value + 0x1_0000_0000_0000_0000) as u64
            },
    ;
    value as u64
}

/// Splits 64 bits into their upper and lower half.
pub fn split_halves(bits: u64) -> (halves: (u32, u32))
    ensures
        halves.0 == upper_half(bits),
        halves.1 == lower_half(bits),
        join_halves(halves.0, halves.1) == bits,
{
    let upper = (bits >> 32) as u32;
    let lower = (bits & 0xffff_ffff) as u32;
    assert(bits >> 32 == bits / 0x1_0000_0000) by (bit_vector);
    assert(bits & 0xffff_ffff == bits % 0x1_0000_0000) by (bit_vector);
    (upper, lower)
}

/// Joins an upper and a lower half into 64 bits.
pub fn join(upper: u32, lower: u32) -> (bits: u64)
    ensures
        bits == join_halves(upper, lower),
        upper_half(bits) == upper,
        lower_half(bits) == lower,
{
    let bits = ((upper as u64) << 32) | (lower as u64);
    assert(((upper as u64) << 32) | (lower as u64) == (upper as u64) * 0x1_0000_0000 + (
    lower as u64)) by (bit_vector);
    bits
}

/// A value slot.
#[derive(Clone, Copy, Debug, PartialEq, Eq, Structural)]
pub struct Variable {
    pub bits: u32,
}

impl Variable {
    pub open spec fn of_int(value: i32) -> Variable {
        Variable { bits: unsigned32(value) }
    }

    pub open spec fn of_bits(bits: u32) -> Variable {
        Variable { bits }
    }

    pub open spec fn as_int(self) -> i32 {
        signed32(self.bits)
    }

    /// The long that two slots hold, upper half first.
    pub open spec fn long_of(pre: Variable, suf: Variable) -> i64 {
        signed64(join_halves(pre.bits, suf.bits))
    }

    /// The two slots that hold `value`, upper half first.
    pub open spec fn slots_of_long(value: i64) -> (Variable, Variable) {
        (
            Variable { bits: upper_half(unsigned64(value)) },
            Variable { bits: lower_half(unsigned64(value)) },
        )
    }

    /// The 64 bits that two slots hold, upper half first.
    pub open spec fn bits_of(pre: Variable, suf: Variable) -> u64 {
        join_halves(pre.bits, suf.bits)
    }

    /// The two slots that hold `bits`, upper half first.
    pub open spec fn slots_of_bits(bits: u64) -> (Variable, Variable) {
        (Variable { bits: upper_half(bits) }, Variable { bits: lower_half(bits) })
    }

    /// A slot that holds an int.
    pub fn from_int(value: i32) -> (slot: Variable)
        ensures
            slot == Variable::of_int(value),
            slot.as_int() == value,
    {
        Variable { bits: to_unsigned32(value) }
    }

    /// A slot that holds the 32 bits of a float.
    pub fn from_float_bits(bits: u32) -> (slot: Variable)
        ensures
            slot.bits == bits,
    {
        Variable { bits }
    }

    /// A slot that holds a reference; 0 is null.
    pub fn from_reference(id: u32) -> (slot: Variable)
        ensures
            slot.bits == id,
    {
        Variable { bits: id }
    }

    /// A slot that holds one half of a return address.
    pub fn from_return_address(address: u32) -> (slot: Variable)
        ensures
            slot.bits == address,
    {
        Variable { bits: address }
    }

    /// A slot that holds nothing yet.
    pub fn void() -> (slot: Variable)
        ensures
            slot.bits == 0,
    {
        Variable { bits: 0 }
    }

    pub fn get_int(self) -> (value: i32)
        ensures
            value == self.as_int(),
    {
        to_signed32(self.bits)
    }

    pub fn get_float(self) -> (bits: u32)
        ensures
            bits == self.bits,
    {
        self.bits
    }

    pub fn get_reference(self) -> (id: u32)
        ensures
            id == self.bits,
    {
        self.bits
    }

    pub fn get_return_address(self) -> (address: u32)
        ensures
            address == self.bits,
    {
        self.bits
    }

    /// The long in two slots, upper half first.
    pub fn get_long(pre: Self, suf: Self) -> (value: i64)
        ensures
            value == Variable::long_of(pre, suf),
    {
        to_signed64(join(pre.bits, suf.bits))
    }

    /// The two slots for a long, upper half first.
    pub fn put_long(long: i64) -> (slots: (Variable, Variable))
        ensures
            slots == Variable::slots_of_long(long),
            Variable::long_of(slots.0, slots.1) == long,
    {
        let (upper, lower) = split_halves(to_unsigned64(long));
        (Variable { bits: upper }, Variable { bits: lower })
    }

    /// The 64 bits of a double in two slots, upper half first.
    pub fn get_double(pre: Self, suf: Self) -> (bits: u64)
        ensures
            bits == Variable::bits_of(pre, suf),
    {
        join(pre.bits, suf.bits)
    }

    /// The two slots for the 64 bits of a double, upper half first.
    pub fn put_double(double: u64) -> (slots: (Variable, Variable))
        ensures
            slots == Variable::slots_of_bits(double),
            Variable::bits_of(slots.0, slots.1) == double,
    {
        let (upper, lower) = split_halves(double);
        (Variable { bits: upper }, Variable { bits: lower })
    }
}

/// A long written into two slots and read back is the same long.
pub proof fn lemma_long_round_trip(value: i64)
    ensures
        Variable::long_of(Variable::slots_of_long(value).0, Variable::slots_of_long(value).1)
            == value,
{
}

/// The 64 bits of a double written into two slots and read back are the
/// same bits.
pub proof fn lemma_double_round_trip(bits: u64)
    ensures
        Variable::bits_of(Variable::slots_of_bits(bits).0, Variable::slots_of_bits(bits).1)
            == bits,
{
}

/// Two slots read as a long and written back are the same two slots.
pub proof fn lemma_slots_round_trip(pre: Variable, suf: Variable)
    ensures
        Variable::slots_of_long(Variable::long_of(pre, suf)) == (pre, suf),
{
}

/// An int written into a slot and read back is the same int, and the bits of
/// a slot read as an int and written back are the same bits.
pub proof fn lemma_int_round_trip(value: i32, bits: u32)
    ensures
        signed32(unsigned32(value)) == value,
        unsigned32(signed32(bits)) == bits,
{
}

} // verus!

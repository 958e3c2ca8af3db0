//! Big-endian numbers in a run of bytes.

use crate::runtime::interpreter::variable::to_signed32;
use vstd::prelude::*;

verus! {

pub open spec fn u8_at(code: Seq<u8>, i: int) -> int {
    code[i] as int
}

pub open spec fn i8_at(code: Seq<u8>, i: int) -> int {
    if code[i] >= 128 {
        code[i] - 256
    } else {
        code[i] as int
    }
}

pub open spec fn u16_at(code: Seq<u8>, i: int) -> int {
    code[i] * 256 + code[i + 1]
}

pub open spec fn i16_at(code: Seq<u8>, i: int) -> int {
    if u16_at(code, i) >= 32768 {
        u16_at(code, i) - 65536
    } else {
        u16_at(code, i)
    }
}

pub open spec fn u32_at(code: Seq<u8>, i: int) -> int {
    ((code[i] * 256 + code[i + 1]) * 256 + code[i + 2]) * 256 + code[i + 3]
}

pub open spec fn i32_at(code: Seq<u8>, i: int) -> int {
    if u32_at(code, i) >= 0x8000_0000 {
        u32_at(code, i) - 0x1_0000_0000
    } else {
        u32_at(code, i)
    }
}

pub fn read_u8(code: &[u8], i: usize) -> (value: u8)
    requires
        i < code.len(),
    ensures
        value == u8_at(code@, i as int),
{
    code[i]
}

pub fn read_i8(code: &[u8], i: usize) -> (value: i32)
    requires
        i < code.len(),
    ensures
        value == i8_at(code@, i as int),
{
    let b = code[i];
    if b >= 128 {
        b as i32 - 256
    } else {
        b as i32
    }
}

pub fn read_u16(code: &[u8], i: usize) -> (value: u16)
    requires
        i + 1 < code.len(),
    ensures
        value == u16_at(code@, i as int),
{
    code[i] as u16 * 256 + code[i + 1] as u16
}

pub fn read_i16(code: &[u8], i: usize) -> (value: i32)
    requires
        i + 1 < code.len(),
    ensures
        value == i16_at(code@, i as int),
{
    let u = read_u16(code, i);
    if u >= 32768 {
        u as i32 - 65536
    } else {
        u as i32
    }
}

pub fn read_i32(code: &[u8], i: usize) -> (value: i32)
    requires
        i + 3 < code.len(),
    ensures
        value == i32_at(code@, i as int),
{
    let u: u32 = ((code[i] as u32 * 256 + code[i + 1] as u32) * 256 + code[i + 2] as u32) * 256
        + code[i + 3] as u32;
    to_signed32(u)
}

/// Whether `n` bytes stand at `pos`.
pub open spec fn has_bytes(bytes: Seq<u8>, pos: int, n: int) -> bool {
    0 <= pos && 0 <= n && pos + n <= bytes.len()
}

pub open spec fn u64_at(code: Seq<u8>, i: int) -> int {
    u32_at(code, i) * 0x1_0000_0000 + u32_at(code, i + 4)
}

pub fn read_u32(code: &[u8], i: usize) -> (value: u32)
    requires
        i + 3 < code.len(),
    ensures
        value == u32_at(code@, i as int),
{
    ((code[i] as u32 * 256 + code[i + 1] as u32) * 256 + code[i + 2] as u32) * 256 + code[i
        + 3] as u32
}

pub fn read_u64(code: &[u8], i: usize) -> (value: u64)
    requires
        i + 7 < code.len(),
    ensures
        value == u64_at(code@, i as int),
{
    read_u32(code, i) as u64 * 0x1_0000_0000 + read_u32(code, i + 4) as u64
}

} // verus!

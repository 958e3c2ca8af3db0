//! Access-flag words of classes, fields and methods.

use vstd::prelude::*;

verus! {

pub const ACC_PUBLIC: u16 = 0x0001;
pub const ACC_PRIVATE: u16 = 0x0002;
pub const ACC_PROTECTED: u16 = 0x0004;
pub const ACC_STATIC: u16 = 0x0008;
pub const ACC_FINAL: u16 = 0x0010;
pub const ACC_SUPER: u16 = 0x0020;
pub const ACC_SYNCHRONIZED: u16 = 0x0020;
pub const ACC_VOLATILE: u16 = 0x0040;
pub const ACC_BRIDGE: u16 = 0x0040;
pub const ACC_TRANSIENT: u16 = 0x0080;
pub const ACC_VARARGS: u16 = 0x0080;
pub const ACC_NATIVE: u16 = 0x0100;
pub const ACC_INTERFACE: u16 = 0x0200;
pub const ACC_ABSTRACT: u16 = 0x0400;
pub const ACC_STRICT: u16 = 0x0800;
pub const ACC_SYNTHETIC: u16 = 0x1000;
pub const ACC_ANNOTATION: u16 = 0x2000;
pub const ACC_ENUM: u16 = 0x4000;
pub const ACC_MODULE: u16 = 0x8000;

/// Whether every bit of `mask` is set in `bits`.
pub open spec fn has_flags(bits: u16, mask: u16) -> bool {
    bits & mask == mask
}

/// The access flags of a class. Bits without a name are kept as read.
#[derive(Debug, Clone, Copy, PartialEq, Eq, Hash, Structural)]
pub struct ClassAccessFlag {
    pub bits: u16,
}

impl ClassAccessFlag {
    pub fn from_bits_retain(bits: u16) -> (flags: Self)
        ensures
            flags.bits == bits,
    {
        ClassAccessFlag { bits }
    }

    pub fn bits(&self) -> (bits: u16)
        ensures
            bits == self.bits,
    {
        self.bits
    }

    pub fn contains(&self, mask: u16) -> (yes: bool)
        ensures
            yes == has_flags(self.bits, mask),
    {
        self.bits & mask == mask
    }

    pub open spec fn is_interface(&self) -> bool {
        has_flags(self.bits, ACC_INTERFACE)
    }

    pub open spec fn is_final(&self) -> bool {
        has_flags(self.bits, ACC_FINAL)
    }
}

/// The access flags of a field.
#[derive(Debug, Clone, Copy, PartialEq, Eq, Hash, Structural)]
pub struct FieldAccessFlag {
    pub bits: u16,
}

impl FieldAccessFlag {
    pub fn from_bits_retain(bits: u16) -> (flags: Self)
        ensures
            flags.bits == bits,
    {
        FieldAccessFlag { bits }
    }

    pub fn bits(&self) -> (bits: u16)
        ensures
            bits == self.bits,
    {
        self.bits
    }

    pub fn contains(&self, mask: u16) -> (yes: bool)
        ensures
            yes == has_flags(self.bits, mask),
    {
        self.bits & mask == mask
    }

    pub open spec fn is_static(&self) -> bool {
        has_flags(self.bits, ACC_STATIC)
    }
}

/// The access flags of a method.
#[derive(Debug, Clone, Copy, PartialEq, Eq, Hash, Structural)]
pub struct MethodAccessFlag {
    pub bits: u16,
}

impl MethodAccessFlag {
    pub fn from_bits_retain(bits: u16) -> (flags: Self)
        ensures
            flags.bits == bits,
    {
        MethodAccessFlag { bits }
    }

    pub fn bits(&self) -> (bits: u16)
        ensures
            bits == self.bits,
    {
        self.bits
    }

    pub fn contains(&self, mask: u16) -> (yes: bool)
        ensures
            yes == has_flags(self.bits, mask),
    {
        self.bits & mask == mask
    }

    pub open spec fn is_static(&self) -> bool {
        has_flags(self.bits, ACC_STATIC)
    }

    pub open spec fn is_private(&self) -> bool {
        has_flags(self.bits, ACC_PRIVATE)
    }

    pub open spec fn is_final(&self) -> bool {
        has_flags(self.bits, ACC_FINAL)
    }

    pub open spec fn is_public(&self) -> bool {
        has_flags(self.bits, ACC_PUBLIC)
    }

    pub open spec fn is_protected(&self) -> bool {
        has_flags(self.bits, ACC_PROTECTED)
    }

    pub open spec fn is_native(&self) -> bool {
        has_flags(self.bits, ACC_NATIVE)
    }

    pub open spec fn is_abstract(&self) -> bool {
        has_flags(self.bits, ACC_ABSTRACT)
    }
}

} // verus!

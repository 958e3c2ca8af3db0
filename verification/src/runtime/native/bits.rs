//! The natives that read a float as an int and a double as a long, and
//! back. The machine holds a float and a double as their bits, so each
//! hands the bits over unchanged.

use crate::runtime::interpreter::variable::{
    signed32, signed64, to_signed32, to_signed64, to_unsigned32, to_unsigned64, unsigned32,
    unsigned64,
};
use crate::runtime::native::{NativeOutcome, NativeVariable};
use vstd::prelude::*;

verus! {

/// What `Float.floatToRawIntBits` gives: the int with the bits of the
/// float.
pub open spec fn float_to_int_outcome(args: Seq<NativeVariable>) -> NativeOutcome {
    if args.len() == 1 && args[0] is Float {
        NativeOutcome::Value(Some(NativeVariable::Int(signed32(args[0]->Float_0))))
    } else {
        NativeOutcome::Malformed
    }
}

/// `Float.floatToRawIntBits`.
pub fn float_to_raw_int_bits(args: &Vec<NativeVariable>) -> (outcome: NativeOutcome)
    ensures
        outcome == float_to_int_outcome(args@),
{
    if args.len() != 1 {
        return NativeOutcome::Malformed;
    }
    match args[0] {
        NativeVariable::Float(bits) => NativeOutcome::Value(
            Some(NativeVariable::Int(to_signed32(bits))),
        ),
        _ => NativeOutcome::Malformed,
    }
}

/// What `Float.intBitsToFloat` gives: the float with the bits of the int.
pub open spec fn int_to_float_outcome(args: Seq<NativeVariable>) -> NativeOutcome {
    if args.len() == 1 && args[0] is Int {
        NativeOutcome::Value(Some(NativeVariable::Float(unsigned32(args[0]->Int_0))))
    } else {
        NativeOutcome::Malformed
    }
}

/// `Float.intBitsToFloat`.
pub fn int_bits_to_float(args: &Vec<NativeVariable>) -> (outcome: NativeOutcome)
    ensures
        outcome == int_to_float_outcome(args@),
{
    if args.len() != 1 {
        return NativeOutcome::Malformed;
    }
    match args[0] {
        NativeVariable::Int(value) => NativeOutcome::Value(
            Some(NativeVariable::Float(to_unsigned32(value))),
        ),
        _ => NativeOutcome::Malformed,
    }
}

/// What `Double.doubleToRawLongBits` gives: the long with the bits of the
/// double.
pub open spec fn double_to_long_outcome(args: Seq<NativeVariable>) -> NativeOutcome {
    if args.len() == 1 && args[0] is Double {
        NativeOutcome::Value(Some(NativeVariable::Long(signed64(args[0]->Double_0))))
    } else {
        NativeOutcome::Malformed
    }
}

/// `Double.doubleToRawLongBits`.
pub fn double_to_raw_long_bits(args: &Vec<NativeVariable>) -> (outcome: NativeOutcome)
    ensures
        outcome == double_to_long_outcome(args@),
{
    if args.len() != 1 {
        return NativeOutcome::Malformed;
    }
    match args[0] {
        NativeVariable::Double(bits) => NativeOutcome::Value(
            Some(NativeVariable::Long(to_signed64(bits))),
        ),
        _ => NativeOutcome::Malformed,
    }
}

/// What `Double.longBitsToDouble` gives: the double with the bits of the
/// long.
pub open spec fn long_to_double_outcome(args: Seq<NativeVariable>) -> NativeOutcome {
    if args.len() == 1 && args[0] is Long {
        NativeOutcome::Value(Some(NativeVariable::Double(unsigned64(args[0]->Long_0))))
    } else {
        NativeOutcome::Malformed
    }
}

/// `Double.longBitsToDouble`.
pub fn long_bits_to_double(args: &Vec<NativeVariable>) -> (outcome: NativeOutcome)
    ensures
        outcome == long_to_double_outcome(args@),
{
    if args.len() != 1 {
        return NativeOutcome::Malformed;
    }
    match args[0] {
        NativeVariable::Long(value) => NativeOutcome::Value(
            Some(NativeVariable::Double(to_unsigned64(value))),
        ),
        _ => NativeOutcome::Malformed,
    }
}

/// Reading the bits of a float as an int and the int as a float again
/// gives the float, for every pattern of 32 bits; and the other way round.
pub proof fn lemma_float_bits_round_trip(bits: u32, value: i32)
    ensures
        int_to_float_outcome(
            seq![float_to_int_outcome(seq![NativeVariable::Float(bits)])->Value_0->Some_0],
        ) == NativeOutcome::Value(Some(NativeVariable::Float(bits))),
        float_to_int_outcome(
            seq![int_to_float_outcome(seq![NativeVariable::Int(value)])->Value_0->Some_0],
        ) == NativeOutcome::Value(Some(NativeVariable::Int(value))),
{
    crate::runtime::interpreter::variable::lemma_int_round_trip(value, bits);
}

/// Reading the bits of a double as a long and the long as a double again
/// gives the double, for every pattern of 64 bits; and the other way round.
pub proof fn lemma_double_bits_round_trip(bits: u64, value: i64)
    ensures
        long_to_double_outcome(
            seq![double_to_long_outcome(seq![NativeVariable::Double(bits)])->Value_0->Some_0],
        ) == NativeOutcome::Value(Some(NativeVariable::Double(bits))),
        double_to_long_outcome(
            seq![long_to_double_outcome(seq![NativeVariable::Long(value)])->Value_0->Some_0],
        ) == NativeOutcome::Value(Some(NativeVariable::Long(value))),
{
}

} // verus!

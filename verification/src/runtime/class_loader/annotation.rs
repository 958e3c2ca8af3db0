//! Reading annotations and their element values.
//!
//! An annotation is the index of its type's descriptor, a count, and that
//! many pairs of the index of a name and an element value. An element value
//! starts with a tag: one of `B C D F I J S Z s` for a constant, `e` for an
//! enum constant, `c` for a class, `@` for an annotation, `[` for an array
//! of element values.

use crate::bytes::{read_u16, u16_at};
use crate::class::parser::with_front;
use crate::error::ClassFormatError;
use crate::runtime::class_loader::pool::{
    constant_value_at, field_type_at, resolve_constant_value, resolve_field_descriptor,
    resolve_return_descriptor, resolve_runtime_cp_utf8, return_type_at, utf8_at,
};
use crate::runtime::structs::attributes::{
    annotations_view, pairs_view, values_view, Annotation, AnnotationView, Const, ConstView,
    ElementValue, ElementValuePair, ElementValuePairView, ElementValueView,
};
use crate::runtime::structs::constant_pool::{constants_view, ConstantInfoView, ConstantPoolInfo};
use vstd::prelude::*;

verus! {

pub const TAG_BYTE: u8 = 66;
pub const TAG_CHAR: u8 = 67;
pub const TAG_DOUBLE: u8 = 68;
pub const TAG_FLOAT: u8 = 70;
pub const TAG_INT: u8 = 73;
pub const TAG_LONG: u8 = 74;
pub const TAG_SHORT: u8 = 83;
pub const TAG_BOOLEAN: u8 = 90;
pub const TAG_STRING: u8 = 115;
pub const TAG_ENUM: u8 = 101;
pub const TAG_CLASS: u8 = 99;
pub const TAG_ANNOTATION: u8 = 64;
pub const TAG_ARRAY: u8 = 91;

/// Whether `n` bytes stand at `pos` in front of `to`.
pub open spec fn fits(pos: int, n: int, to: int) -> bool {
    0 <= pos && 0 <= n && pos + n <= to
}

pub open spec fn is_const_tag(tag: u8) -> bool {
    tag == TAG_BYTE || tag == TAG_CHAR || tag == TAG_DOUBLE || tag == TAG_FLOAT || tag == TAG_INT
        || tag == TAG_LONG || tag == TAG_SHORT || tag == TAG_BOOLEAN || tag == TAG_STRING
}

/// The constant as the tag wants it: a byte, char, short or boolean is
/// written as an int constant and takes the tag's kind; the others stay as
/// they are.
pub open spec fn converted_const(tag: u8, c: ConstView) -> Option<ConstView> {
    if tag == TAG_BYTE || tag == TAG_CHAR || tag == TAG_SHORT || tag == TAG_BOOLEAN {
        match c {
            ConstView::Int(v) => Some(
                if tag == TAG_BYTE {
                    ConstView::Byte(v)
                } else if tag == TAG_CHAR {
                    ConstView::Char(v)
                } else if tag == TAG_SHORT {
                    ConstView::Short(v)
                } else {
                    ConstView::Boolean(v)
                },
            ),
            _ => None,
        }
    } else {
        Some(c)
    }
}

/// The element value at `pos` and the offset behind it.
pub open spec fn element_value_at(
    pool: Seq<ConstantInfoView>,
    bytes: Seq<u8>,
    pos: int,
    to: int,
) -> Result<(ElementValueView, int), int>
    decreases to - pos, 0int, 0int,
{
    if !fits(pos, 1, to) {
        Err(pos)
    } else if is_const_tag(bytes[pos]) {
        if !fits(pos + 1, 2, to) {
            Err(pos + 1)
        } else {
            match constant_value_at(pool, u16_at(bytes, pos + 1)) {
                Some(c) => match converted_const(bytes[pos], c) {
                    Some(converted) => Ok((ElementValueView::Const(converted), pos + 3)),
                    None => Err(pos + 1),
                },
                None => Err(pos + 1),
            }
        }
    } else if bytes[pos] == TAG_ENUM {
        if !fits(pos + 1, 2, to) {
            Err(pos + 1)
        } else if !fits(pos + 3, 2, to) {
            Err(pos + 3)
        } else {
            match utf8_at(pool, u16_at(bytes, pos + 1)) {
                Some(class_name) => match utf8_at(pool, u16_at(bytes, pos + 3)) {
                    Some(const_name) => Ok(
                        (ElementValueView::Enum { class_name, const_name }, pos + 5),
                    ),
                    None => Err(pos + 3),
                },
                None => Err(pos + 1),
            }
        }
    } else if bytes[pos] == TAG_CLASS {
        if !fits(pos + 1, 2, to) {
            Err(pos + 1)
        } else {
            match return_type_at(pool, u16_at(bytes, pos + 1)) {
                Some(t) => Ok((ElementValueView::Class(t), pos + 3)),
                None => Err(pos + 1),
            }
        }
    } else if bytes[pos] == TAG_ANNOTATION {
        match annotation_at(pool, bytes, pos + 1, to) {
            Ok(found) => Ok((ElementValueView::Annotation(Box::new(found.0)), found.1)),
            Err(offset) => Err(offset),
        }
    } else if bytes[pos] == TAG_ARRAY {
        if !fits(pos + 1, 2, to) {
            Err(pos + 1)
        } else {
            match element_values_at(pool, bytes, pos + 3, u16_at(bytes, pos + 1), to) {
                Ok(found) => Ok((ElementValueView::Array(found.0), found.1)),
                Err(offset) => Err(offset),
            }
        }
    } else {
        Err(pos)
    }
}

/// `count` element values from `pos` on, and the offset behind them.
pub open spec fn element_values_at(
    pool: Seq<ConstantInfoView>,
    bytes: Seq<u8>,
    pos: int,
    count: int,
    to: int,
) -> Result<(Seq<ElementValueView>, int), int>
    decreases to - pos, 1int, count,
{
    if count <= 0 {
        Ok((Seq::empty(), pos))
    } else if !fits(pos, 1, to) {
        Err(pos)
    } else {
        match element_value_at(pool, bytes, pos, to) {
            Ok(first) => {
                if first.1 <= pos || first.1 > to {
                    Err(pos)
                } else {
                    match element_values_at(pool, bytes, first.1, count - 1, to) {
                        Ok(rest) => Ok((seq![first.0] + rest.0, rest.1)),
                        Err(offset) => Err(offset),
                    }
                }
            },
            Err(offset) => Err(offset),
        }
    }
}

/// The annotation at `pos` and the offset behind it.
pub open spec fn annotation_at(
    pool: Seq<ConstantInfoView>,
    bytes: Seq<u8>,
    pos: int,
    to: int,
) -> Result<(AnnotationView, int), int>
    decreases to - pos, 0int, 0int,
{
    if !fits(pos, 2, to) {
        Err(pos)
    } else if !fits(pos + 2, 2, to) {
        Err(pos + 2)
    } else {
        match pairs_at(pool, bytes, pos + 4, u16_at(bytes, pos + 2), to) {
            Ok(pairs) => match field_type_at(pool, u16_at(bytes, pos)) {
                Some(type_descriptor) => Ok(
                    (AnnotationView { type_descriptor, element_value_pairs: pairs.0 }, pairs.1),
                ),
                None => Err(pos),
            },
            Err(offset) => Err(offset),
        }
    }
}

/// `count` pairs of a name and an element value from `pos` on, and the
/// offset behind them.
pub open spec fn pairs_at(
    pool: Seq<ConstantInfoView>,
    bytes: Seq<u8>,
    pos: int,
    count: int,
    to: int,
) -> Result<(Seq<ElementValuePairView>, int), int>
    decreases to - pos, 1int, count,
{
    if count <= 0 {
        Ok((Seq::empty(), pos))
    } else if !fits(pos, 2, to) {
        Err(pos)
    } else {
        match utf8_at(pool, u16_at(bytes, pos)) {
            Some(element_name) => match element_value_at(pool, bytes, pos + 2, to) {
                Ok(first) => {
                    if first.1 <= pos || first.1 > to {
                        Err(pos)
                    } else {
                        match pairs_at(pool, bytes, first.1, count - 1, to) {
                            Ok(rest) => Ok(
                                (
                                    seq![ElementValuePairView { element_name, value: first.0 }]
                                        + rest.0,
                                    rest.1,
                                ),
                            ),
                            Err(offset) => Err(offset),
                        }
                    }
                },
                Err(offset) => Err(offset),
            },
            None => Err(pos),
        }
    }
}

/// `count` annotations from `pos` on, and the offset behind them.
pub open spec fn annotations_at(
    pool: Seq<ConstantInfoView>,
    bytes: Seq<u8>,
    pos: int,
    count: int,
    to: int,
) -> Result<(Seq<AnnotationView>, int), int>
    decreases count,
{
    if count <= 0 {
        Ok((Seq::empty(), pos))
    } else {
        match annotation_at(pool, bytes, pos, to) {
            Ok(first) => match annotations_at(pool, bytes, first.1, count - 1, to) {
                Ok(rest) => Ok((seq![first.0] + rest.0, rest.1)),
                Err(offset) => Err(offset),
            },
            Err(offset) => Err(offset),
        }
    }
}

/// Reading an element value moves forward and stays in front of `to`.
pub proof fn lemma_element_value_bounds(
    pool: Seq<ConstantInfoView>,
    bytes: Seq<u8>,
    pos: int,
    to: int,
)
    ensures
        element_value_at(pool, bytes, pos, to) matches Ok(found) ==> pos < found.1 <= to,
    decreases to - pos, 0int, 0int,
{
    if fits(pos, 1, to) {
        if bytes[pos] == TAG_ANNOTATION {
            lemma_annotation_bounds(pool, bytes, pos + 1, to);
        } else if bytes[pos] == TAG_ARRAY && fits(pos + 1, 2, to) {
            lemma_element_values_bounds(pool, bytes, pos + 3, u16_at(bytes, pos + 1), to);
        }
    }
}

/// Reading element values stays in front of `to`.
pub proof fn lemma_element_values_bounds(
    pool: Seq<ConstantInfoView>,
    bytes: Seq<u8>,
    pos: int,
    count: int,
    to: int,
)
    requires
        pos <= to,
    ensures
        element_values_at(pool, bytes, pos, count, to) matches Ok(found) ==> pos <= found.1
            <= to,
    decreases to - pos, 1int, count,
{
    if count > 0 && fits(pos, 1, to) {
        lemma_element_value_bounds(pool, bytes, pos, to);
        match element_value_at(pool, bytes, pos, to) {
            Ok(first) => {
                lemma_element_values_bounds(pool, bytes, first.1, count - 1, to);
            },
            Err(_) => {},
        }
    }
}

/// Reading an annotation moves forward and stays in front of `to`.
pub proof fn lemma_annotation_bounds(
    pool: Seq<ConstantInfoView>,
    bytes: Seq<u8>,
    pos: int,
    to: int,
)
    ensures
        annotation_at(pool, bytes, pos, to) matches Ok(found) ==> pos < found.1 <= to,
    decreases to - pos, 0int, 0int,
{
    if fits(pos, 2, to) && fits(pos + 2, 2, to) {
        lemma_pairs_bounds(pool, bytes, pos + 4, u16_at(bytes, pos + 2), to);
    }
}

/// Reading pairs stays in front of `to`.
pub proof fn lemma_pairs_bounds(
    pool: Seq<ConstantInfoView>,
    bytes: Seq<u8>,
    pos: int,
    count: int,
    to: int,
)
    requires
        pos <= to,
    ensures
        pairs_at(pool, bytes, pos, count, to) matches Ok(found) ==> pos <= found.1 <= to,
    decreases to - pos, 1int, count,
{
    if count > 0 && fits(pos, 2, to) {
        lemma_element_value_bounds(pool, bytes, pos + 2, to);
        match element_value_at(pool, bytes, pos + 2, to) {
            Ok(first) => {
                lemma_pairs_bounds(pool, bytes, first.1, count - 1, to);
            },
            Err(_) => {},
        }
    }
}

/// Whether `n` bytes stand at `pos` in front of `to`.
fn room(pos: usize, n: usize, to: usize) -> (yes: bool)
    ensures
        yes == fits(pos as int, n as int, to as int),
        yes ==> pos + n <= to,
{
    pos <= to && n <= to - pos
}

/// The constant as the tag wants it.
fn convert_const(tag: u8, c: Const) -> (converted: Option<Const>)
    ensures
        match converted {
            Some(k) => converted_const(tag, c@) == Some(k@),
            None => converted_const(tag, c@).is_none(),
        },
{
    if tag == TAG_BYTE || tag == TAG_CHAR || tag == TAG_SHORT || tag == TAG_BOOLEAN {
        match c {
            Const::Int(_) => {
                if tag == TAG_BYTE {
                    Some(c.into_byte())
                } else if tag == TAG_CHAR {
                    Some(c.into_char())
                } else if tag == TAG_SHORT {
                    Some(c.into_short())
                } else {
                    Some(c.into_boolean())
                }
            },
            _ => None,
        }
    } else {
        Some(c)
    }
}

/// Reads the element value at `pos`.
pub fn parse_element_value(
    constant_pool: &Vec<ConstantPoolInfo>,
    input: &[u8],
    pos: usize,
    to: usize,
) -> (r: Result<(ElementValue, usize), ClassFormatError>)
    requires
        to <= input.len(),
    ensures
        match r {
            Ok((value, end)) => element_value_at(
                constants_view(constant_pool@),
                input@,
                pos as int,
                to as int,
            ) == Ok::<(ElementValueView, int), int>((value.model(), end as int)),
            Err(e) => element_value_at(
                constants_view(constant_pool@),
                input@,
                pos as int,
                to as int,
            ) == Err::<(ElementValueView, int), int>(e.offset as int),
        },
    decreases to - pos, 0int, 0int,
{
    if !room(pos, 1, to) {
        return Err(ClassFormatError { offset: pos });
    }
    let tag = input[pos];
    if tag == TAG_BYTE || tag == TAG_CHAR || tag == TAG_DOUBLE || tag == TAG_FLOAT || tag
        == TAG_INT || tag == TAG_LONG || tag == TAG_SHORT || tag == TAG_BOOLEAN || tag
        == TAG_STRING {
        if !room(pos + 1, 2, to) {
            return Err(ClassFormatError { offset: pos + 1 });
        }
        match resolve_constant_value(constant_pool, read_u16(input, pos + 1)) {
            Some(c) => match convert_const(tag, c) {
                Some(converted) => Ok((ElementValue::Const(converted), pos + 3)),
                None => Err(ClassFormatError { offset: pos + 1 }),
            },
            None => Err(ClassFormatError { offset: pos + 1 }),
        }
    } else if tag == TAG_ENUM {
        if !room(pos + 1, 2, to) {
            return Err(ClassFormatError { offset: pos + 1 });
        }
        if !room(pos + 3, 2, to) {
            return Err(ClassFormatError { offset: pos + 3 });
        }
        match resolve_runtime_cp_utf8(constant_pool, read_u16(input, pos + 1)) {
            Some(class_name) => match resolve_runtime_cp_utf8(
                constant_pool,
                read_u16(input, pos + 3),
            ) {
                Some(const_name) => Ok(
                    (
                        ElementValue::Enum {
                            class_name: class_name.clone(),
                            const_name: const_name.clone(),
                        },
                        pos + 5,
                    ),
                ),
                None => Err(ClassFormatError { offset: pos + 3 }),
            },
            None => Err(ClassFormatError { offset: pos + 1 }),
        }
    } else if tag == TAG_CLASS {
        if !room(pos + 1, 2, to) {
            return Err(ClassFormatError { offset: pos + 1 });
        }
        match resolve_return_descriptor(constant_pool, read_u16(input, pos + 1)) {
            Some(t) => Ok((ElementValue::Class(t), pos + 3)),
            None => Err(ClassFormatError { offset: pos + 1 }),
        }
    } else if tag == TAG_ANNOTATION {
        match parse_annotation(constant_pool, input, pos + 1, to) {
            Ok((annotation, end)) => Ok((ElementValue::Annotation(annotation), end)),
            Err(e) => Err(e),
        }
    } else if tag == TAG_ARRAY {
        if !room(pos + 1, 2, to) {
            return Err(ClassFormatError { offset: pos + 1 });
        }
        let count = read_u16(input, pos + 1) as usize;
        let start = pos + 3;
        let mut values: Vec<ElementValue> = Vec::new();
        let mut at: usize = start;
        let ghost pool = constants_view(constant_pool@);
        assert(values_view(values@) + element_values_at(
            pool,
            input@,
            start as int,
            count as int,
            to as int,
        )->Ok_0.0 =~= element_values_at(pool, input@, start as int, count as int, to as int)->Ok_0.0);
        while values.len() < count
            invariant
                values.len() <= count,
                pos < at <= to <= input.len(),
                fits(pos as int, 1, to as int),
                fits(pos + 1, 2, to as int),
                input@[pos as int] == TAG_ARRAY,
                count == u16_at(input@, pos + 1),
                start == pos + 3,
                pool == constants_view(constant_pool@),
                with_front(
                    values_view(values@),
                    element_values_at(pool, input@, at as int, count - values.len(), to as int),
                ) == element_values_at(pool, input@, start as int, count as int, to as int),
            decreases count - values.len(),
        {
            let ghost before = values_view(values@);
            let ghost left = count - values.len();
            proof {
                lemma_element_value_bounds(pool, input@, at as int, to as int);
            }
            match parse_element_value(constant_pool, input, at, to) {
                Ok((value, end)) => {
                    values.push(value);
                    proof {
                        assert(values_view(values@) =~= before.push(value.model()));
                        let rest = element_values_at(pool, input@, end as int, left - 1, to as int);
                        if rest is Ok {
                            assert(before + (seq![value.model()] + rest->Ok_0.0) =~= values_view(
                                values@,
                            ) + rest->Ok_0.0);
                        }
                    }
                    at = end;
                },
                Err(e) => {
                    return Err(e);
                },
            }
        }
        assert(values_view(values@) + Seq::<ElementValueView>::empty() =~= values_view(values@));
        let value = ElementValue::Array(values);
        assert(value.model() == ElementValueView::Array(values_view(values@))) by {
            assert(value.model()->Array_0 =~= values_view(values@));
        }
        Ok((value, at))
    } else {
        Err(ClassFormatError { offset: pos })
    }
}

/// Reads the annotation at `pos`.
pub fn parse_annotation(
    constant_pool: &Vec<ConstantPoolInfo>,
    input: &[u8],
    pos: usize,
    to: usize,
) -> (r: Result<(Annotation, usize), ClassFormatError>)
    requires
        to <= input.len(),
    ensures
        match r {
            Ok((annotation, end)) => annotation_at(
                constants_view(constant_pool@),
                input@,
                pos as int,
                to as int,
            ) == Ok::<(AnnotationView, int), int>((annotation.model(), end as int)),
            Err(e) => annotation_at(constants_view(constant_pool@), input@, pos as int, to as int)
                == Err::<(AnnotationView, int), int>(e.offset as int),
        },
    decreases to - pos, 0int, 0int,
{
    if !room(pos, 2, to) {
        return Err(ClassFormatError { offset: pos });
    }
    if !room(pos + 2, 2, to) {
        return Err(ClassFormatError { offset: pos + 2 });
    }
    let count = read_u16(input, pos + 2) as usize;
    let start = pos + 4;
    let mut pairs: Vec<ElementValuePair> = Vec::new();
    let mut at: usize = start;
    let ghost pool = constants_view(constant_pool@);
    assert(pairs_view(pairs@) + pairs_at(pool, input@, start as int, count as int, to as int)->Ok_0.0
        =~= pairs_at(pool, input@, start as int, count as int, to as int)->Ok_0.0);
    while pairs.len() < count
        invariant
            pairs.len() <= count,
            pos < at <= to <= input.len(),
            fits(pos as int, 2, to as int),
            fits(pos + 2, 2, to as int),
            count == u16_at(input@, pos + 2),
            start == pos + 4,
            pool == constants_view(constant_pool@),
            with_front(
                pairs_view(pairs@),
                pairs_at(pool, input@, at as int, count - pairs.len(), to as int),
            ) == pairs_at(pool, input@, start as int, count as int, to as int),
        decreases count - pairs.len(),
    {
        let ghost before = pairs_view(pairs@);
        let ghost left = count - pairs.len();
        if !room(at, 2, to) {
            return Err(ClassFormatError { offset: at });
        }
        let element_name = match resolve_runtime_cp_utf8(constant_pool, read_u16(input, at)) {
            Some(name) => name.clone(),
            None => {
                return Err(ClassFormatError { offset: at });
            },
        };
        proof {
            lemma_element_value_bounds(pool, input@, at + 2, to as int);
        }
        match parse_element_value(constant_pool, input, at + 2, to) {
            Ok((value, end)) => {
                let pair = ElementValuePair { element_name, value };
                pairs.push(pair);
                proof {
                    assert(pairs_view(pairs@) =~= before.push(pair.model()));
                    let rest = pairs_at(pool, input@, end as int, left - 1, to as int);
                    if rest is Ok {
                        assert(before + (seq![pair.model()] + rest->Ok_0.0) =~= pairs_view(pairs@)
                            + rest->Ok_0.0);
                    }
                }
                at = end;
            },
            Err(e) => {
                return Err(e);
            },
        }
    }
    assert(pairs_view(pairs@) + Seq::<ElementValuePairView>::empty() =~= pairs_view(pairs@));
    match resolve_field_descriptor(constant_pool, read_u16(input, pos)) {
        Some(type_descriptor) => {
            let annotation = Annotation { type_descriptor, element_value_pairs: pairs };
            assert(annotation.model().element_value_pairs =~= pairs_view(pairs@));
            Ok((annotation, at))
        },
        None => Err(ClassFormatError { offset: pos }),
    }
}

/// Reads `count` annotations from `pos` on.
pub fn parse_annotations(
    constant_pool: &Vec<ConstantPoolInfo>,
    input: &[u8],
    pos: usize,
    count: usize,
    to: usize,
) -> (r: Result<(Vec<Annotation>, usize), ClassFormatError>)
    requires
        to <= input.len(),
    ensures
        match r {
            Ok((annotations, end)) => annotations_at(
                constants_view(constant_pool@),
                input@,
                pos as int,
                count as int,
                to as int,
            ) == Ok::<(Seq<AnnotationView>, int), int>(
                (annotations_view(annotations@), end as int),
            ),
            Err(e) => annotations_at(
                constants_view(constant_pool@),
                input@,
                pos as int,
                count as int,
                to as int,
            ) == Err::<(Seq<AnnotationView>, int), int>(e.offset as int),
        },
{
    let mut annotations: Vec<Annotation> = Vec::new();
    let mut at: usize = pos;
    let ghost pool = constants_view(constant_pool@);
    assert(annotations_view(annotations@) + annotations_at(
        pool,
        input@,
        pos as int,
        count as int,
        to as int,
    )->Ok_0.0 =~= annotations_at(pool, input@, pos as int, count as int, to as int)->Ok_0.0);
    while annotations.len() < count
        invariant
            annotations.len() <= count,
            to <= input.len(),
            pool == constants_view(constant_pool@),
            with_front(
                annotations_view(annotations@),
                annotations_at(pool, input@, at as int, count - annotations.len(), to as int),
            ) == annotations_at(pool, input@, pos as int, count as int, to as int),
        decreases count - annotations.len(),
    {
        let ghost before = annotations_view(annotations@);
        let ghost left = count - annotations.len();
        match parse_annotation(constant_pool, input, at, to) {
            Ok((annotation, end)) => {
                annotations.push(annotation);
                proof {
                    assert(annotations_view(annotations@) =~= before.push(annotation.model()));
                    let rest = annotations_at(pool, input@, end as int, left - 1, to as int);
                    if rest is Ok {
                        assert(before + (seq![annotation.model()] + rest->Ok_0.0)
                            =~= annotations_view(annotations@) + rest->Ok_0.0);
                    }
                }
                at = end;
            },
            Err(e) => {
                return Err(e);
            },
        }
    }
    assert(annotations_view(annotations@) + Seq::<AnnotationView>::empty() =~= annotations_view(
        annotations@,
    ));
    Ok((annotations, at))
}

} // verus!

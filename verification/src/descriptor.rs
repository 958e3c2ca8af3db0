//! Field and method type descriptors.
//!
//! A field descriptor is one of the letters `B C D F I J S Z`, or `L`, a
//! binary class name and `;`, or `[` and a field descriptor. A method
//! descriptor is `(`, any number of field descriptors, `)`, and then `V` or a
//! field descriptor.

use crate::error::ClassFormatError;
use vstd::prelude::*;
use vstd::string::*;

verus! {

/// The mathematical value of a [`FieldType`].
pub enum FieldTypeView {
    Byte,
    Char,
    Double,
    Float,
    Int,
    Long,
    Object(Seq<char>),
    Short,
    Boolean,
    Array(Box<FieldTypeView>),
}

#[derive(Debug, Eq, Hash)]
pub enum FieldType {
    Byte,
    Char,
    Double,
    Float,
    Int,
    Long,
    Object(String),
    Short,
    Boolean,
    Array(Box<FieldType>),
}

pub type ReturnType = Option<FieldType>;

#[derive(Debug, PartialEq, Eq, Hash)]
pub struct FieldDescriptor(pub FieldType);

#[derive(Debug, PartialEq, Eq, Hash)]
pub struct MethodDescriptor {
    pub parameters: Vec<FieldType>,
    pub return_type: ReturnType,
}

pub struct MethodDescriptorView {
    pub parameters: Seq<FieldTypeView>,
    pub return_type: Option<FieldTypeView>,
}

impl FieldType {
    /// The type as a mathematical value.
    pub open spec fn model(&self) -> FieldTypeView
        decreases self,
    {
        match self {
            FieldType::Byte => FieldTypeView::Byte,
            FieldType::Char => FieldTypeView::Char,
            FieldType::Double => FieldTypeView::Double,
            FieldType::Float => FieldTypeView::Float,
            FieldType::Int => FieldTypeView::Int,
            FieldType::Long => FieldTypeView::Long,
            FieldType::Object(name) => FieldTypeView::Object(name@),
            FieldType::Short => FieldTypeView::Short,
            FieldType::Boolean => FieldTypeView::Boolean,
            FieldType::Array(element) => FieldTypeView::Array(Box::new(element.model())),
        }
    }
}

impl View for FieldType {
    type V = FieldTypeView;

    open spec fn view(&self) -> FieldTypeView {
        self.model()
    }
}

/// The values of a list of types, in order.
pub open spec fn types_view(types: Seq<FieldType>) -> Seq<FieldTypeView> {
    types.map_values(|t: FieldType| t@)
}

pub open spec fn return_type_view(return_type: ReturnType) -> Option<FieldTypeView> {
    match return_type {
        Some(t) => Some(t@),
        None => None,
    }
}

impl View for FieldDescriptor {
    type V = FieldTypeView;

    open spec fn view(&self) -> FieldTypeView {
        self.0@
    }
}

impl View for MethodDescriptor {
    type V = MethodDescriptorView;

    open spec fn view(&self) -> MethodDescriptorView {
        MethodDescriptorView {
            parameters: types_view(self.parameters@),
            return_type: return_type_view(self.return_type),
        }
    }
}

impl FieldTypeView {
    /// Long and double: the types whose values fill two slots.
    pub open spec fn is_long(self) -> bool {
        self is Long || self is Double
    }

    pub open spec fn is_primitive(self) -> bool {
        !(self is Object) && !(self is Array)
    }

    /// The number of bytes that one array element of this type takes.
    pub open spec fn size(self) -> nat {
        match self {
            FieldTypeView::Long | FieldTypeView::Double => 8,
            FieldTypeView::Char | FieldTypeView::Short => 2,
            FieldTypeView::Byte | FieldTypeView::Boolean => 1,
            _ => 4,
        }
    }

    /// The number of value slots that a value of this type fills.
    pub open spec fn slots(self) -> nat {
        if self.is_long() {
            2
        } else {
            1
        }
    }

    /// The descriptor that denotes this type.
    pub open spec fn descriptor(self) -> Seq<char>
        decreases self,
    {
        match self {
            FieldTypeView::Byte => seq!['B'],
            FieldTypeView::Char => seq!['C'],
            FieldTypeView::Double => seq!['D'],
            FieldTypeView::Float => seq!['F'],
            FieldTypeView::Int => seq!['I'],
            FieldTypeView::Long => seq!['J'],
            FieldTypeView::Short => seq!['S'],
            FieldTypeView::Boolean => seq!['Z'],
            FieldTypeView::Object(name) => seq!['L'] + name + seq![';'],
            FieldTypeView::Array(element) => seq!['['] + element.descriptor(),
        }
    }

    /// Whether every class name in the type can stand in a descriptor: none
    /// holds a `;`.
    pub open spec fn well_formed(self) -> bool
        decreases self,
    {
        match self {
            FieldTypeView::Object(name) => !name.contains(';'),
            FieldTypeView::Array(element) => element.well_formed(),
            _ => true,
        }
    }
}

impl FieldType {
    pub fn is_long(&self) -> (yes: bool)
        ensures
            yes == self@.is_long(),
    {
        matches!(self, FieldType::Long | FieldType::Double)
    }

    pub fn is_primitive(&self) -> (yes: bool)
        ensures
            yes == self@.is_primitive(),
    {
        matches!(
            self,
            FieldType::Byte
                | FieldType::Char
                | FieldType::Double
                | FieldType::Float
                | FieldType::Int
                | FieldType::Long
                | FieldType::Short
                | FieldType::Boolean
        )
    }

    pub fn to_descriptor(&self) -> (text: String)
        ensures
            text@ == self@.descriptor(),
        decreases self,
    {
        proof {
            reveal_strlit("B");
            reveal_strlit("C");
            reveal_strlit("D");
            reveal_strlit("F");
            reveal_strlit("I");
            reveal_strlit("J");
            reveal_strlit("S");
            reveal_strlit("Z");
            reveal_strlit("L");
            reveal_strlit(";");
            reveal_strlit("[");
        }
        let text = match self {
            FieldType::Byte => String::from_str("B"),
            FieldType::Char => String::from_str("C"),
            FieldType::Double => String::from_str("D"),
            FieldType::Float => String::from_str("F"),
            FieldType::Int => String::from_str("I"),
            FieldType::Long => String::from_str("J"),
            FieldType::Short => String::from_str("S"),
            FieldType::Boolean => String::from_str("Z"),
            FieldType::Object(class_name) => String::from_str("L").concat(
                class_name.as_str(),
            ).concat(";"),
            FieldType::Array(element_type) => {
                let inner = element_type.to_descriptor();
                String::from_str("[").concat(inner.as_str())
            },
        };
        assert(text@ =~= self@.descriptor());
        text
    }

    pub fn get_field_type_size(&self) -> (size: usize)
        ensures
            size == self@.size(),
    {
        match self {
            FieldType::Byte => 1,
            FieldType::Char => 2,
            FieldType::Double => 8,
            FieldType::Float => 4,
            FieldType::Int => 4,
            FieldType::Long => 8,
            FieldType::Object(_) => 4,
            FieldType::Short => 2,
            FieldType::Boolean => 1,
            FieldType::Array(_) => 4,
        }
    }

    /// Whether the two types are the same type.
    pub fn same_type(&self, other: &FieldType) -> (same: bool)
        ensures
            same == (self@ == other@),
        decreases self,
    {
        match (self, other) {
            (FieldType::Byte, FieldType::Byte) => true,
            (FieldType::Char, FieldType::Char) => true,
            (FieldType::Double, FieldType::Double) => true,
            (FieldType::Float, FieldType::Float) => true,
            (FieldType::Int, FieldType::Int) => true,
            (FieldType::Long, FieldType::Long) => true,
            (FieldType::Short, FieldType::Short) => true,
            (FieldType::Boolean, FieldType::Boolean) => true,
            (FieldType::Object(a), FieldType::Object(b)) => {
                *a == *b
            },
            (FieldType::Array(a), FieldType::Array(b)) => {
                let same = a.same_type(b);
                assert(self@ == FieldTypeView::Array(Box::new(a.model())));
                assert(other@ == FieldTypeView::Array(Box::new(b.model())));
                same
            },
            _ => {
                assert(self@ != other@) by {
                    lemma_variant_of_view(*self);
                    lemma_variant_of_view(*other);
                }
                false
            },
        }
    }
}

/// The variant of a type's value is the variant of the type.
proof fn lemma_variant_of_view(t: FieldType)
    ensures
        t is Byte <==> t@ is Byte,
        t is Char <==> t@ is Char,
        t is Double <==> t@ is Double,
        t is Float <==> t@ is Float,
        t is Int <==> t@ is Int,
        t is Long <==> t@ is Long,
        t is Short <==> t@ is Short,
        t is Boolean <==> t@ is Boolean,
        t is Object <==> t@ is Object,
        t is Array <==> t@ is Array,
{
}

impl Clone for FieldType {
    fn clone(&self) -> (copy: Self)
        ensures
            copy@ == self@,
        decreases self,
    {
        match self {
            FieldType::Byte => FieldType::Byte,
            FieldType::Char => FieldType::Char,
            FieldType::Double => FieldType::Double,
            FieldType::Float => FieldType::Float,
            FieldType::Int => FieldType::Int,
            FieldType::Long => FieldType::Long,
            FieldType::Short => FieldType::Short,
            FieldType::Boolean => FieldType::Boolean,
            FieldType::Object(name) => FieldType::Object(name.clone()),
            FieldType::Array(element) => {
                let inner: FieldType = (**element).clone();
                FieldType::Array(Box::new(inner))
            },
        }
    }
}

impl PartialEq for FieldType {
    fn eq(&self, other: &FieldType) -> (same: bool) {
        self.same_type(other)
    }
}

impl vstd::std_specs::cmp::PartialEqSpecImpl for FieldType {
    open spec fn obeys_eq_spec() -> bool {
        true
    }

    open spec fn eq_spec(&self, other: &FieldType) -> bool {
        self@ == other@
    }
}

/// Whether two lists hold the same types in the same order.
pub fn same_types(a: &Vec<FieldType>, b: &Vec<FieldType>) -> (same: bool)
    ensures
        same == (types_view(a@) == types_view(b@)),
{
    if a.len() != b.len() {
        assert(types_view(a@).len() != types_view(b@).len());
        return false;
    }
    let mut i: usize = 0;
    while i < a.len()
        invariant
            i <= a.len(),
            a.len() == b.len(),
            forall|k: int| 0 <= k < i ==> a@[k]@ == b@[k]@,
        decreases a.len() - i,
    {
        if !a[i].same_type(&b[i]) {
            assert(types_view(a@)[i as int] != types_view(b@)[i as int]);
            return false;
        }
        i += 1;
    }
    assert(types_view(a@) =~= types_view(b@));
    true
}

/// A copy of a list of types.
pub fn clone_types(types: &Vec<FieldType>) -> (copy: Vec<FieldType>)
    ensures
        types_view(copy@) == types_view(types@),
{
    let mut copy: Vec<FieldType> = Vec::new();
    let mut i: usize = 0;
    while i < types.len()
        invariant
            i <= types.len(),
            copy.len() == i,
            forall|k: int| 0 <= k < i ==> copy@[k]@ == types@[k]@,
        decreases types.len() - i,
    {
        copy.push(types[i].clone());
        i += 1;
    }
    assert(types_view(copy@) =~= types_view(types@));
    copy
}

pub fn clone_return_type(return_type: &ReturnType) -> (copy: ReturnType)
    ensures
        return_type_view(copy) == return_type_view(*return_type),
{
    match return_type {
        Some(t) => Some(t.clone()),
        None => None,
    }
}

impl Clone for FieldDescriptor {
    fn clone(&self) -> (copy: Self)
        ensures
            copy@ == self@,
    {
        FieldDescriptor(self.0.clone())
    }
}

impl Clone for MethodDescriptor {
    fn clone(&self) -> (copy: Self)
        ensures
            copy@ == self@,
    {
        MethodDescriptor {
            parameters: clone_types(&self.parameters),
            return_type: clone_return_type(&self.return_type),
        }
    }
}

impl MethodDescriptor {
    /// Whether the two descriptors have the same parameters and the same
    /// return type.
    pub fn same_descriptor(&self, other: &MethodDescriptor) -> (same: bool)
        ensures
            same == (self@ == other@),
    {
        let same_parameters = same_types(&self.parameters, &other.parameters);
        let same_return = match (&self.return_type, &other.return_type) {
            (Some(a), Some(b)) => a.same_type(b),
            (None, None) => true,
            _ => false,
        };
        same_parameters && same_return
    }
}

/// The primitive type that a letter denotes.
pub open spec fn base_type_of(c: char) -> Option<FieldTypeView> {
    if c == 'B' {
        Some(FieldTypeView::Byte)
    } else if c == 'C' {
        Some(FieldTypeView::Char)
    } else if c == 'D' {
        Some(FieldTypeView::Double)
    } else if c == 'F' {
        Some(FieldTypeView::Float)
    } else if c == 'I' {
        Some(FieldTypeView::Int)
    } else if c == 'J' {
        Some(FieldTypeView::Long)
    } else if c == 'S' {
        Some(FieldTypeView::Short)
    } else if c == 'Z' {
        Some(FieldTypeView::Boolean)
    } else {
        None
    }
}

/// The index of the first `;` at or after `from`, or the length of the text
/// where there is none.
pub open spec fn find_semicolon(s: Seq<char>, from: int) -> int
    decreases s.len() - from,
{
    if from < 0 || from >= s.len() {
        s.len() as int
    } else if s[from] == ';' {
        from
    } else {
        find_semicolon(s, from + 1)
    }
}

/// What reading one field type at `pos` gives: the type and the index
/// behind it, or the index at which the text stops being the start of a
/// field descriptor (its length, where the text ends too early).
pub open spec fn parse_type_at(s: Seq<char>, pos: int) -> Result<(FieldTypeView, int), int>
    decreases s.len() - pos,
{
    if pos < 0 || pos >= s.len() {
        Err(s.len() as int)
    } else if s[pos] == '[' {
        match parse_type_at(s, pos + 1) {
            Ok((element, end)) => Ok((FieldTypeView::Array(Box::new(element)), end)),
            Err(offset) => Err(offset),
        }
    } else if s[pos] == 'L' {
        let semicolon = find_semicolon(s, pos + 1);
        if semicolon < s.len() {
            Ok((FieldTypeView::Object(s.subrange(pos + 1, semicolon)), semicolon + 1))
        } else {
            Err(s.len() as int)
        }
    } else {
        match base_type_of(s[pos]) {
            Some(t) => Ok((t, pos + 1)),
            None => Err(pos),
        }
    }
}

/// What reading a return type at `pos` gives: as a field type, but `V`
/// stands for no value.
pub open spec fn parse_return_at(s: Seq<char>, pos: int) -> Result<
    (Option<FieldTypeView>, int),
    int,
> {
    if 0 <= pos < s.len() && s[pos] == 'V' {
        Ok((None, pos + 1))
    } else {
        match parse_type_at(s, pos) {
            Ok((t, end)) => Ok((Some(t), end)),
            Err(offset) => Err(offset),
        }
    }
}

/// What reading parameter types from `pos` up to the closing bracket gives:
/// the types and the index behind the bracket.
pub open spec fn parse_params_at(s: Seq<char>, pos: int) -> Result<(Seq<FieldTypeView>, int), int>
    decreases s.len() - pos,
{
    if pos < 0 || pos >= s.len() {
        Err(s.len() as int)
    } else if s[pos] == ')' {
        Ok((Seq::empty(), pos + 1))
    } else {
        match parse_type_at(s, pos) {
            Ok(first) => {
                if first.1 <= pos || first.1 > s.len() {
                    Err(pos)
                } else {
                    match parse_params_at(s, first.1) {
                        Ok((rest, behind)) => Ok((seq![first.0] + rest, behind)),
                        Err(offset) => Err(offset),
                    }
                }
            },
            Err(offset) => Err(offset),
        }
    }
}

/// The field type that the whole text denotes.
pub open spec fn field_descriptor_of(s: Seq<char>) -> Result<FieldTypeView, int> {
    match parse_type_at(s, 0) {
        Ok((t, end)) => if end == s.len() {
            Ok(t)
        } else {
            Err(end)
        },
        Err(offset) => Err(offset),
    }
}

/// The return type that the whole text denotes.
pub open spec fn return_descriptor_of(s: Seq<char>) -> Result<Option<FieldTypeView>, int> {
    match parse_return_at(s, 0) {
        Ok((t, end)) => if end == s.len() {
            Ok(t)
        } else {
            Err(end)
        },
        Err(offset) => Err(offset),
    }
}

/// The method type that the whole text denotes.
pub open spec fn method_descriptor_of(s: Seq<char>) -> Result<MethodDescriptorView, int> {
    if s.len() == 0 {
        Err(0)
    } else if s[0] != '(' {
        Err(0)
    } else {
        match parse_params_at(s, 1) {
            Ok((parameters, behind)) => match parse_return_at(s, behind) {
                Ok((return_type, end)) => if end == s.len() {
                    Ok(MethodDescriptorView { parameters, return_type })
                } else {
                    Err(end)
                },
                Err(offset) => Err(offset),
            },
            Err(offset) => Err(offset),
        }
    }
}

/// Reading a type moves forward and stays inside the text.
pub proof fn lemma_parse_type_bounds(s: Seq<char>, pos: int)
    requires
        0 <= pos <= s.len(),
    ensures
        parse_type_at(s, pos) matches Ok((_, end)) ==> pos < end <= s.len(),
        parse_type_at(s, pos) matches Err(offset) ==> pos <= offset <= s.len(),
    decreases s.len() - pos,
{
    if pos < s.len() {
        if s[pos] == '[' {
            lemma_parse_type_bounds(s, pos + 1);
        } else if s[pos] == 'L' {
            lemma_find_semicolon(s, pos + 1);
        }
    }
}

/// `find_semicolon` gives the first `;` at or after `from`.
pub proof fn lemma_find_semicolon(s: Seq<char>, from: int)
    requires
        0 <= from <= s.len(),
    ensures
        from <= find_semicolon(s, from) <= s.len(),
        find_semicolon(s, from) < s.len() ==> s[find_semicolon(s, from)] == ';',
        forall|k: int| from <= k < find_semicolon(s, from) ==> s[k] != ';',
    decreases s.len() - from,
{
    if from < s.len() && s[from] != ';' {
        lemma_find_semicolon(s, from + 1);
    }
}

/// Reads one field type at character `pos` of `input`, which has `len`
/// characters.
fn parse_field_type(input: &str, len: usize, pos: usize) -> (r: Result<
    (FieldType, usize),
    ClassFormatError,
>)
    requires
        len == input@.len(),
        pos <= len,
    ensures
        match r {
            Ok((t, end)) => parse_type_at(input@, pos as int) == Ok::<(FieldTypeView, int), int>(
                (t@, end as int),
            ),
            Err(e) => parse_type_at(input@, pos as int) == Err::<(FieldTypeView, int), int>(
                e.offset as int,
            ),
        },
    decreases len - pos,
{
    if pos >= len {
        return Err(ClassFormatError { offset: len });
    }
    let c = input.get_char(pos);
    if c == '[' {
        match parse_field_type(input, len, pos + 1) {
            Ok((element, end)) => Ok((FieldType::Array(Box::new(element)), end)),
            Err(e) => Err(e),
        }
    } else if c == 'L' {
        let mut semicolon: usize = pos + 1;
        while semicolon < len && input.get_char(semicolon) != ';'
            invariant
                pos + 1 <= semicolon <= len,
                len == input@.len(),
                find_semicolon(input@, pos + 1) == find_semicolon(input@, semicolon as int),
            decreases len - semicolon,
        {
            semicolon += 1;
        }
        if semicolon < len {
            let name = input.substring_char(pos + 1, semicolon).to_owned();
            Ok((FieldType::Object(name), semicolon + 1))
        } else {
            Err(ClassFormatError { offset: len })
        }
    } else if c == 'B' {
        Ok((FieldType::Byte, pos + 1))
    } else if c == 'C' {
        Ok((FieldType::Char, pos + 1))
    } else if c == 'D' {
        Ok((FieldType::Double, pos + 1))
    } else if c == 'F' {
        Ok((FieldType::Float, pos + 1))
    } else if c == 'I' {
        Ok((FieldType::Int, pos + 1))
    } else if c == 'J' {
        Ok((FieldType::Long, pos + 1))
    } else if c == 'S' {
        Ok((FieldType::Short, pos + 1))
    } else if c == 'Z' {
        Ok((FieldType::Boolean, pos + 1))
    } else {
        Err(ClassFormatError { offset: pos })
    }
}

/// Reads a return type at character `pos`.
fn parse_return_type(input: &str, len: usize, pos: usize) -> (r: Result<
    (ReturnType, usize),
    ClassFormatError,
>)
    requires
        len == input@.len(),
        pos <= len,
    ensures
        match r {
            Ok((t, end)) => parse_return_at(input@, pos as int) == Ok::<
                (Option<FieldTypeView>, int),
                int,
            >((return_type_view(t), end as int)),
            Err(e) => parse_return_at(input@, pos as int) == Err::<
                (Option<FieldTypeView>, int),
                int,
            >(e.offset as int),
        },
{
    if pos < len && input.get_char(pos) == 'V' {
        return Ok((None, pos + 1));
    }
    match parse_field_type(input, len, pos) {
        Ok((t, end)) => Ok((Some(t), end)),
        Err(e) => Err(e),
    }
}

/// The result of reading parameters from `from`, with `before` in front.
spec fn with_front(
    before: Seq<FieldTypeView>,
    rest: Result<(Seq<FieldTypeView>, int), int>,
) -> Result<(Seq<FieldTypeView>, int), int> {
    match rest {
        Ok((types, behind)) => Ok((before + types, behind)),
        Err(offset) => Err(offset),
    }
}

/// Reads parameter types from character `pos` up to the closing bracket.
fn parse_parameters(input: &str, len: usize, pos: usize) -> (r: Result<
    (Vec<FieldType>, usize),
    ClassFormatError,
>)
    requires
        len == input@.len(),
        pos <= len,
    ensures
        match r {
            Ok((types, behind)) => parse_params_at(input@, pos as int) == Ok::<
                (Seq<FieldTypeView>, int),
                int,
            >((types_view(types@), behind as int)),
            Err(e) => parse_params_at(input@, pos as int) == Err::<
                (Seq<FieldTypeView>, int),
                int,
            >(e.offset as int),
        },
{
    let mut types: Vec<FieldType> = Vec::new();
    let mut at: usize = pos;
    assert(with_front(types_view(types@), parse_params_at(input@, at as int)) == parse_params_at(
        input@,
        pos as int,
    )) by {
        let rest = parse_params_at(input@, at as int);
        match rest {
            Ok((ts, b)) => assert(types_view(types@) + ts =~= ts),
            Err(_) => {},
        }
    }
    loop
        invariant
            len == input@.len(),
            pos <= at <= len,
            with_front(types_view(types@), parse_params_at(input@, at as int)) == parse_params_at(
                input@,
                pos as int,
            ),
        decreases len - at,
    {
        if at >= len {
            return Err(ClassFormatError { offset: len });
        }
        if input.get_char(at) == ')' {
            assert(types_view(types@) + Seq::<FieldTypeView>::empty() =~= types_view(types@));
            return Ok((types, at + 1));
        }
        proof {
            lemma_parse_type_bounds(input@, at as int);
        }
        match parse_field_type(input, len, at) {
            Ok((t, end)) => {
                let ghost before = types_view(types@);
                types.push(t);
                proof {
                    assert(types_view(types@) =~= before.push(t@));
                    match parse_params_at(input@, end as int) {
                        Ok((rest, behind)) => {
                            assert(before + (seq![t@] + rest) =~= before.push(t@) + rest);
                        },
                        Err(_) => {},
                    }
                }
                at = end;
            },
            Err(e) => {
                return Err(e);
            },
        }
    }
}

/// Reads `input` as a field descriptor.
pub fn parse_field_descriptor(input: &str) -> (r: Result<FieldDescriptor, ClassFormatError>)
    ensures
        match r {
            Ok(d) => field_descriptor_of(input@) == Ok::<FieldTypeView, int>(d@),
            Err(e) => field_descriptor_of(input@) == Err::<FieldTypeView, int>(e.offset as int),
        },
{
    let len = input.unicode_len();
    match parse_field_type(input, len, 0) {
        Ok((t, end)) => {
            proof {
                lemma_parse_type_bounds(input@, 0);
            }
            if end == len {
                Ok(FieldDescriptor(t))
            } else {
                Err(ClassFormatError { offset: end })
            }
        },
        Err(e) => Err(e),
    }
}

/// Reads `input` as a return descriptor: `V` or a field descriptor.
pub fn parse_return_type_descriptor(input: &str) -> (r: Result<ReturnType, ClassFormatError>)
    ensures
        match r {
            Ok(t) => return_descriptor_of(input@) == Ok::<Option<FieldTypeView>, int>(
                return_type_view(t),
            ),
            Err(e) => return_descriptor_of(input@) == Err::<Option<FieldTypeView>, int>(
                e.offset as int,
            ),
        },
{
    let len = input.unicode_len();
    match parse_return_type(input, len, 0) {
        Ok((t, end)) => {
            if end == len {
                Ok(t)
            } else {
                Err(ClassFormatError { offset: end })
            }
        },
        Err(e) => Err(e),
    }
}

/// Reads `input` as a method descriptor.
pub fn parse_method_descriptor(input: &str) -> (r: Result<MethodDescriptor, ClassFormatError>)
    ensures
        match r {
            Ok(d) => method_descriptor_of(input@) == Ok::<MethodDescriptorView, int>(d@),
            Err(e) => method_descriptor_of(input@) == Err::<MethodDescriptorView, int>(
                e.offset as int,
            ),
        },
{
    let len = input.unicode_len();
    if len == 0 || input.get_char(0) != '(' {
        return Err(ClassFormatError { offset: 0 });
    }
    match parse_parameters(input, len, 1) {
        Ok((parameters, behind)) => {
            proof {
                lemma_parse_params_bounds(input@, 1);
            }
            match parse_return_type(input, len, behind) {
                Ok((return_type, end)) => {
                    if end == len {
                        Ok(MethodDescriptor { parameters, return_type })
                    } else {
                        Err(ClassFormatError { offset: end })
                    }
                },
                Err(e) => Err(e),
            }
        },
        Err(e) => Err(e),
    }
}

/// Reading parameters stays inside the text.
pub proof fn lemma_parse_params_bounds(s: Seq<char>, pos: int)
    requires
        0 <= pos <= s.len(),
    ensures
        parse_params_at(s, pos) matches Ok((_, behind)) ==> pos < behind <= s.len(),
        parse_params_at(s, pos) matches Err(offset) ==> pos <= offset <= s.len(),
    decreases s.len() - pos,
{
    if pos < s.len() && s[pos] != ')' {
        lemma_parse_type_bounds(s, pos);
        match parse_type_at(s, pos) {
            Ok((t, end)) => {
                lemma_parse_params_bounds(s, end);
            },
            Err(_) => {},
        }
    }
}

/// The first `;` at or after `from` is at `at` where no character between
/// the two is one and the character at `at` is.
proof fn lemma_semicolon_at(s: Seq<char>, from: int, at: int)
    requires
        0 <= from <= at < s.len(),
        s[at] == ';',
        forall|k: int| from <= k < at ==> s[k] != ';',
    ensures
        find_semicolon(s, from) == at,
    decreases at - from,
{
    if from < at {
        lemma_semicolon_at(s, from + 1, at);
    }
}

/// The descriptor of a type, wherever it stands in a text, reads as the
/// type and ends where the descriptor ends.
proof fn lemma_reads_descriptor(t: FieldTypeView, before: Seq<char>, behind: Seq<char>)
    requires
        t.well_formed(),
    ensures
        parse_type_at(before + t.descriptor() + behind, before.len() as int) == Ok::<
            (FieldTypeView, int),
            int,
        >((t, (before.len() + t.descriptor().len()) as int)),
    decreases t,
{
    let s = before + t.descriptor() + behind;
    let pos = before.len() as int;
    match t {
        FieldTypeView::Object(name) => {
            assert(t.descriptor() =~= seq!['L'] + name + seq![';']);
            assert(s[pos] == 'L');
            let at = pos + 1 + name.len();
            assert(s[at] == ';');
            assert forall|k: int| pos + 1 <= k < at implies s[k] != ';' by {
                assert(s[k] == name[k - pos - 1]);
                assert(name.contains(name[k - pos - 1]));
            }
            lemma_semicolon_at(s, pos + 1, at);
            assert(s.subrange(pos + 1, at) =~= name);
        },
        FieldTypeView::Array(element) => {
            assert(t.descriptor() =~= seq!['['] + element.descriptor());
            assert(s[pos] == '[');
            lemma_reads_descriptor(*element, before + seq!['['], behind);
            assert(s =~= (before + seq!['[']) + element.descriptor() + behind);
        },
        _ => {
            assert(t.descriptor().len() == 1);
            assert(s[pos] == t.descriptor()[0]);
        },
    }
}

/// The descriptor that denotes a type reads as that type, for every type
/// whose class names hold no `;`.
pub proof fn lemma_descriptor_round_trip(t: FieldTypeView)
    requires
        t.well_formed(),
    ensures
        field_descriptor_of(t.descriptor()) == Ok::<FieldTypeView, int>(t),
{
    lemma_reads_descriptor(t, Seq::empty(), Seq::empty());
    assert(Seq::<char>::empty() + t.descriptor() + Seq::<char>::empty() =~= t.descriptor());
}

} // verus!

//! Fixed-count arrays of fixed-layout elements.

use vstd::prelude::*;
use crate::defines::{DefineDefinition, DefineDefinitionView, DefineValue};
use crate::links::{clone_link, view_link, UserDefinitionLink, UserDefinitionLinkView};
use crate::numeric::{NumeralSystem, NumericLiteral};
use crate::primitives::Primitive;
use crate::{size_result_to_int, RuneParserError};

verus! {

/// The element count of an array, kept the way the user wrote it.
#[derive(Debug)]
pub enum ArraySize {
    /// A count written as an integer, in whichever numeral system
    Integer(u64, NumeralSystem),
    /// A count that names a define; the constant resolver fills its value in
    UserDefinition(DefineDefinition),
}

/// The element type of an array.
#[derive(Debug)]
pub enum ArrayType {
    Primitive(Primitive),
    UserDefined(String, UserDefinitionLink),
}

/// An array: an element type and an element count.
#[derive(Debug)]
pub struct Array {
    pub data_type: ArrayType,
    pub element_count: ArraySize,
}

/// Mathematical model of an element count.
#[verifier::ext_equal]
pub enum ArraySizeView {
    Integer(u64, NumeralSystem),
    UserDefinition(DefineDefinitionView),
}

/// Mathematical model of an element type.
#[verifier::ext_equal]
pub enum ArrayTypeView {
    Primitive(Primitive),
    UserDefined(Seq<char>, UserDefinitionLinkView),
}

/// Mathematical model of an array.
#[verifier::ext_equal]
pub struct ArrayView {
    pub data_type: ArrayTypeView,
    pub element_count: ArraySizeView,
}

/// The model of an element count.
pub open spec fn view_array_size(s: ArraySize) -> ArraySizeView {
    match s {
        ArraySize::Integer(v, n) => ArraySizeView::Integer(v, n),
        ArraySize::UserDefinition(d) => ArraySizeView::UserDefinition(d@),
    }
}

/// The model of an element type.
pub open spec fn view_array_type(t: ArrayType) -> ArrayTypeView
    decreases t,
{
    match t {
        ArrayType::Primitive(p) => ArrayTypeView::Primitive(p),
        ArrayType::UserDefined(name, link) => ArrayTypeView::UserDefined(name@, view_link(link)),
    }
}

/// The model of an array.
pub open spec fn view_array(a: Array) -> ArrayView
    decreases a,
{
    ArrayView {
        data_type: view_array_type(a.data_type),
        element_count: view_array_size(a.element_count),
    }
}

impl View for ArraySize {
    type V = ArraySizeView;

    open spec fn view(&self) -> ArraySizeView {
        view_array_size(*self)
    }
}

impl View for ArrayType {
    type V = ArrayTypeView;

    open spec fn view(&self) -> ArrayTypeView {
        view_array_type(*self)
    }
}

impl View for Array {
    type V = ArrayView;

    open spec fn view(&self) -> ArrayView {
        view_array(*self)
    }
}

impl ArraySizeView {
    /// The element count the size denotes: the written integer, or for a
    /// define reference the resolved (possibly redefined) value, which must
    /// be a non-negative integer literal.
    pub open spec fn spec_value(self) -> Result<u64, RuneParserError> {
        match self {
            ArraySizeView::Integer(v, _) => Ok(v),
            ArraySizeView::UserDefinition(d) => match d.effective_value() {
                DefineValue::NumericLiteral(NumericLiteral::PositiveInteger(v, _)) => Ok(v),
                _ => Err(RuneParserError::InvalidArraySize),
            },
        }
    }
}

impl ArraySize {
    /// The element count this size denotes, once constants are resolved.
    pub fn value(&self) -> (r: Result<u64, RuneParserError>)
        ensures
            r == self@.spec_value(),
    {
        match self {
            ArraySize::Integer(value, _) => Ok(*value),
            ArraySize::UserDefinition(definition) => {
                let define_value = match &definition.redefinition {
                    None => &definition.value,
                    Some(redefinition) => &redefinition.value,
                };

                match define_value {
                    DefineValue::NumericLiteral(NumericLiteral::PositiveInteger(value, _)) => Ok(
                        *value,
                    ),
                    _ => Err(RuneParserError::InvalidArraySize),
                }
            },
        }
    }
}

impl ArrayTypeView {
    /// The encoded byte width of one array element: the width of the
    /// primitive, the backing width for a linked enum or bitfield, or the
    /// flat size of a linked struct.  An unresolved link cannot be sized, and
    /// a message cannot be an array element.
    pub open spec fn spec_size(self) -> Result<int, RuneParserError>
        decreases self,
    {
        match self {
            ArrayTypeView::Primitive(p) => Ok(p.spec_width() as int),
            ArrayTypeView::UserDefined(_, link) => match link {
                UserDefinitionLinkView::NoLink => Err(RuneParserError::UndefinedIdentifier),
                UserDefinitionLinkView::EnumLink(e) => Ok(e.backing_type.spec_width() as int),
                UserDefinitionLinkView::BitfieldLink(b) => Ok(b.backing_type.spec_width() as int),
                UserDefinitionLinkView::MessageLink(_) => Err(RuneParserError::InvalidArrayType),
                UserDefinitionLinkView::StructLink(s) => s.spec_flat_size(),
            },
        }
    }
}

impl ArrayView {
    /// The encoded byte size of the whole array: element width times element
    /// count, rejected as an invalid encoded size when it cannot fit a
    /// 64-bit byte count.
    pub open spec fn spec_byte_size(self) -> Result<int, RuneParserError>
        decreases self,
    {
        match self.data_type.spec_size() {
            Err(e) => Err(e),
            Ok(w) => match self.element_count.spec_value() {
                Err(e) => Err(e),
                Ok(c) => if w * c <= u64::MAX {
                    Ok(w * c)
                } else {
                    Err(RuneParserError::InvalidEncodedSize)
                },
            },
        }
    }
}

impl ArrayType {
    /// The encoded byte width of one element of this type.
    pub fn size(&self) -> (r: Result<u64, RuneParserError>)
        ensures
            size_result_to_int(r) == self@.spec_size(),
        decreases *self,
    {
        match self {
            ArrayType::Primitive(primitive) => Ok(primitive.encoded_max_data_size()),
            ArrayType::UserDefined(_, definition_link) => match definition_link {
                UserDefinitionLink::NoLink => Err(RuneParserError::UndefinedIdentifier),
                UserDefinitionLink::EnumLink(enum_link) => Ok(
                    enum_link.backing_type.encoded_max_data_size(),
                ),
                UserDefinitionLink::BitfieldLink(bitfield_link) => Ok(
                    bitfield_link.backing_type.encoded_max_data_size(),
                ),
                UserDefinitionLink::MessageLink(_) => Err(RuneParserError::InvalidArrayType),
                UserDefinitionLink::StructLink(struct_link) => struct_link.flat_size(),
            },
        }
    }
}

impl Array {
    /// The encoded byte size of the whole array.
    pub fn byte_size(&self) -> (r: Result<u64, RuneParserError>)
        ensures
            size_result_to_int(r) == self@.spec_byte_size(),
        decreases *self,
    {
        let width = match self.data_type.size() {
            Ok(w) => w,
            Err(e) => {
                return Err(e);
            },
        };
        let count = match self.element_count.value() {
            Ok(c) => c,
            Err(e) => {
                return Err(e);
            },
        };
        match width.checked_mul(count) {
            Some(total) => Ok(total),
            None => Err(RuneParserError::InvalidEncodedSize),
        }
    }
}

/// Copies an element count.
pub fn clone_array_size(s: &ArraySize) -> (r: ArraySize)
    ensures
        r@ == s@,
{
    match s {
        ArraySize::Integer(v, n) => ArraySize::Integer(*v, *n),
        ArraySize::UserDefinition(d) => ArraySize::UserDefinition(d.clone()),
    }
}

/// Copies an element type, snapshot and all.
pub fn clone_array_type(t: &ArrayType) -> (r: ArrayType)
    ensures
        r@ == t@,
    decreases *t,
{
    match t {
        ArrayType::Primitive(p) => ArrayType::Primitive(*p),
        ArrayType::UserDefined(name, link) => ArrayType::UserDefined(name.clone(), clone_link(link)),
    }
}

/// Copies an array, snapshot and all.
pub fn clone_array(a: &Array) -> (r: Array)
    ensures
        r@ == a@,
    decreases *a,
{
    Array {
        data_type: clone_array_type(&a.data_type),
        element_count: clone_array_size(&a.element_count),
    }
}

impl Clone for ArraySize {
    fn clone(&self) -> (r: Self)
        ensures
            r@ == self@,
    {
        clone_array_size(self)
    }
}

impl Clone for ArrayType {
    fn clone(&self) -> (r: Self)
        ensures
            r@ == self@,
    {
        clone_array_type(self)
    }
}

impl Clone for Array {
    fn clone(&self) -> (r: Self)
        ensures
            r@ == self@,
    {
        clone_array(self)
    }
}

impl PartialEq for ArraySize {
    /// Two sizes are equal when they denote the same written count: equal
    /// integers whatever the numeral system, or references to the same
    /// define name.
    fn eq(&self, other: &ArraySize) -> (r: bool) {
        match (self, other) {
            (ArraySize::Integer(value, _), ArraySize::Integer(other_value, _)) =>
                value == other_value,
            (ArraySize::UserDefinition(d), ArraySize::UserDefinition(other_d)) =>
                d.name == other_d.name,
            _ => false,
        }
    }
}

impl vstd::std_specs::cmp::PartialEqSpecImpl for ArraySize {
    open spec fn obeys_eq_spec() -> bool {
        true
    }

    open spec fn eq_spec(&self, other: &ArraySize) -> bool {
        spec_array_size_eq(self@, other@)
    }
}

/// When two element counts count as the same: equal written integers, or the
/// same define name.
pub open spec fn spec_array_size_eq(a: ArraySizeView, b: ArraySizeView) -> bool {
    match (a, b) {
        (ArraySizeView::Integer(x, _), ArraySizeView::Integer(y, _)) => x == y,
        (ArraySizeView::UserDefinition(d), ArraySizeView::UserDefinition(e)) => d.name == e.name,
        _ => false,
    }
}

impl PartialEq for ArrayType {
    /// Two element types are equal when they name the same primitive or the
    /// same user type; resolution state is not compared.
    fn eq(&self, other: &ArrayType) -> (r: bool) {
        array_type_eq(self, other)
    }
}

impl vstd::std_specs::cmp::PartialEqSpecImpl for ArrayType {
    open spec fn obeys_eq_spec() -> bool {
        true
    }

    open spec fn eq_spec(&self, other: &ArrayType) -> bool {
        spec_array_type_eq(self@, other@)
    }
}

/// Compares two element types as `spec_array_type_eq` lays out.
pub fn array_type_eq(a: &ArrayType, b: &ArrayType) -> (r: bool)
    ensures
        r == spec_array_type_eq(a@, b@),
{
    match (a, b) {
        (ArrayType::Primitive(p), ArrayType::Primitive(q)) => *p == *q,
        (ArrayType::UserDefined(name, _), ArrayType::UserDefined(other_name, _)) => *name
            == *other_name,
        _ => false,
    }
}

/// When two element types count as the same: the same primitive, or the same
/// user type name, whatever either link holds.
pub open spec fn spec_array_type_eq(a: ArrayTypeView, b: ArrayTypeView) -> bool {
    match (a, b) {
        (ArrayTypeView::Primitive(p), ArrayTypeView::Primitive(q)) => p == q,
        (ArrayTypeView::UserDefined(n, _), ArrayTypeView::UserDefined(m, _)) => n == m,
        _ => false,
    }
}

impl PartialEq for Array {
    /// Element type and element count both compare equal.
    fn eq(&self, other: &Array) -> (r: bool) {
        (self.data_type == other.data_type) && (self.element_count == other.element_count)
    }
}

impl vstd::std_specs::cmp::PartialEqSpecImpl for Array {
    open spec fn obeys_eq_spec() -> bool {
        true
    }

    open spec fn eq_spec(&self, other: &Array) -> bool {
        spec_array_eq(self@, other@)
    }
}

/// When two arrays count as the same: same element type and same count.
pub open spec fn spec_array_eq(a: ArrayView, b: ArrayView) -> bool {
    spec_array_type_eq(a.data_type, b.data_type) && spec_array_size_eq(
        a.element_count,
        b.element_count,
    )
}

} // verus!

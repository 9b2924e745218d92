//! Messages: variable-length aggregates that encode as index-addressed,
//! length-delimited fields.

use vstd::prelude::*;
use crate::arrays::{clone_array, view_array, Array, ArrayView};
use crate::defines::{clone_comment, view_comment};
use crate::links::{clone_link, view_link, UserDefinitionLink, UserDefinitionLinkView};
use crate::primitives::Primitive;
use crate::standalone_comments::{StandaloneCommentDefinition, StandaloneCommentDefinitionView};
use crate::{size_opt_result_to_int, size_result_to_int, RuneParserError};

verus! {

/// The position of a message field: a plain numeric index, or the verifier
/// alias, which always denotes index 0 and marks an integrity-check field.
#[derive(Clone, Copy, Debug)]
pub enum FieldIndex {
    /// Used for regular fields
    Numeric(u64),
    /// Used for the verification field.  Aliases to 0
    Verifier,
}

impl FieldIndex {
    /// The numeric index the position denotes: the verifier alias stands for
    /// index 0.
    pub open spec fn spec_value(self) -> u64 {
        match self {
            FieldIndex::Numeric(v) => v,
            FieldIndex::Verifier => 0,
        }
    }

    pub open spec fn spec_is_verifier(self) -> bool {
        self is Verifier
    }

    pub fn value(&self) -> (r: u64)
        ensures
            r == self.spec_value(),
    {
        match self {
            FieldIndex::Numeric(value) => *value,
            FieldIndex::Verifier => 0,
        }
    }

    pub fn is_verifier(&self) -> (r: bool)
        ensures
            r == self.spec_is_verifier(),
    {
        matches!(self, FieldIndex::Verifier)
    }
}

impl PartialEq for FieldIndex {
    /// Two positions are equal when they denote the same numeric index, so
    /// the verifier alias equals an explicit index 0.
    fn eq(&self, other: &FieldIndex) -> (r: bool) {
        self.value() == other.value()
    }
}

impl vstd::std_specs::cmp::PartialEqSpecImpl for FieldIndex {
    open spec fn obeys_eq_spec() -> bool {
        true
    }

    open spec fn eq_spec(&self, other: &FieldIndex) -> bool {
        self.spec_value() == other.spec_value()
    }
}

/// The type of a message field.
#[derive(Debug)]
pub enum FieldType {
    /// Used for skipped fields
    Empty,
    Primitive(Primitive),
    Array(Array),
    /// A user-defined type, together with the frozen snapshot of its
    /// declaration once the linker has run
    UserDefined(String, UserDefinitionLink),
}

/// One field of a message.
#[derive(Debug)]
pub struct MessageField {
    /// Name of the data field
    pub identifier: String,
    /// Type of the data field
    pub data_type: FieldType,
    /// Index of the data field
    pub index: FieldIndex,
    /// Comment describing the data field
    pub comment: Option<String>,
}

/// A message declaration.
#[derive(Debug)]
pub struct MessageDefinition {
    /// Name of the message
    pub name: String,
    /// Data fields of the message
    pub fields: Vec<MessageField>,
    /// Indexes that are reserved, and must not be used
    pub reserved_indexes: Vec<FieldIndex>,
    /// Comment describing the message
    pub comment: Option<String>,
    /// Loose comments inside the message declaration
    pub orphan_comments: Vec<StandaloneCommentDefinition>,
}

/// Mathematical model of a field type.
#[verifier::ext_equal]
pub enum FieldTypeView {
    Empty,
    Primitive(Primitive),
    Array(ArrayView),
    UserDefined(Seq<char>, UserDefinitionLinkView),
}

/// Mathematical model of a message field.
#[verifier::ext_equal]
pub struct MessageFieldView {
    pub identifier: Seq<char>,
    pub data_type: FieldTypeView,
    pub index: FieldIndex,
    pub comment: Option<Seq<char>>,
}

/// Mathematical model of a message declaration.
#[verifier::ext_equal]
pub struct MessageDefinitionView {
    pub name: Seq<char>,
    pub fields: Seq<MessageFieldView>,
    pub reserved_indexes: Seq<FieldIndex>,
    pub comment: Option<Seq<char>>,
    pub orphan_comments: Seq<StandaloneCommentDefinitionView>,
}

/// The model of a field type.
pub open spec fn view_field_type(t: FieldType) -> FieldTypeView
    decreases t,
{
    match t {
        FieldType::Empty => FieldTypeView::Empty,
        FieldType::Primitive(p) => FieldTypeView::Primitive(p),
        FieldType::Array(a) => FieldTypeView::Array(view_array(a)),
        FieldType::UserDefined(name, link) => FieldTypeView::UserDefined(name@, view_link(link)),
    }
}

/// The model of a message field.
pub open spec fn view_message_field(f: MessageField) -> MessageFieldView
    decreases f,
{
    MessageFieldView {
        identifier: f.identifier@,
        data_type: view_field_type(f.data_type),
        index: f.index,
        comment: view_comment(f.comment),
    }
}

/// The model of a field list.
pub open spec fn view_message_fields(fs: Seq<MessageField>) -> Seq<MessageFieldView>
    decreases fs,
{
    if fs.len() == 0 {
        Seq::empty()
    } else {
        view_message_fields(fs.drop_last()).push(view_message_field(fs.last()))
    }
}

/// The model of a message declaration.
pub open spec fn view_message_def(m: MessageDefinition) -> MessageDefinitionView
    decreases m,
{
    MessageDefinitionView {
        name: m.name@,
        fields: view_message_fields(m.fields@),
        reserved_indexes: m.reserved_indexes@,
        comment: view_comment(m.comment),
        orphan_comments: m.orphan_comments.deep_view(),
    }
}

/// The field list model indexes pointwise into the field models.
pub broadcast proof fn lemma_view_message_fields(fs: Seq<MessageField>)
    ensures
        (#[trigger] view_message_fields(fs)).len() == fs.len(),
        forall|i: int|
            0 <= i < fs.len() ==> view_message_fields(fs)[i] == view_message_field(fs[i]),
    decreases fs,
{
    if fs.len() > 0 {
        lemma_view_message_fields(fs.drop_last());
    }
}

impl View for FieldType {
    type V = FieldTypeView;

    open spec fn view(&self) -> FieldTypeView {
        view_field_type(*self)
    }
}

impl View for MessageField {
    type V = MessageFieldView;

    open spec fn view(&self) -> MessageFieldView {
        view_message_field(*self)
    }
}

impl DeepView for MessageField {
    type V = MessageFieldView;

    open spec fn deep_view(&self) -> MessageFieldView {
        self.view()
    }
}

impl View for MessageDefinition {
    type V = MessageDefinitionView;

    open spec fn view(&self) -> MessageDefinitionView {
        view_message_def(*self)
    }
}

impl DeepView for MessageDefinition {
    type V = MessageDefinitionView;

    open spec fn deep_view(&self) -> MessageDefinitionView {
        self.view()
    }
}

/// The encoded size of one field payload of `size` bytes under the most
/// efficient encoding: nothing for an absent payload, a one-byte header for
/// a payload of a primitive width, and otherwise a one-byte header plus the
/// smallest length prefix (one, two or four bytes) sufficient for the
/// payload.  A payload beyond what a four-byte length prefix can carry has
/// no valid encoding.
pub open spec fn spec_optimal_data_size(size: int) -> Result<int, RuneParserError> {
    if size == 0 {
        Ok(0)
    } else if size == 1 || size == 2 || size == 4 || size == 8 {
        Ok(1 + size)
    } else if size <= u8::MAX {
        Ok(2 + size)
    } else if size <= u16::MAX {
        Ok(3 + size)
    } else if size <= u32::MAX {
        Ok(5 + size)
    } else {
        Err(RuneParserError::InvalidEncodedSize)
    }
}

impl MessageFieldView {
    /// The nominal payload size of one field under optimal encoding: zero
    /// for a skipped field, the array's byte size, the primitive's width,
    /// the backing width of a linked enum or bitfield, the flat size of a
    /// linked struct, or the optimal size of a nested message.
    pub open spec fn spec_size_opt(self) -> Result<int, RuneParserError>
        decreases self, 0int, 0int,
    {
        match self.data_type {
            FieldTypeView::Empty => Ok(0),
            FieldTypeView::Primitive(p) => Ok(p.spec_width() as int),
            FieldTypeView::Array(a) => a.spec_byte_size(),
            FieldTypeView::UserDefined(_, link) => match link {
                UserDefinitionLinkView::NoLink => Err(RuneParserError::UndefinedIdentifier),
                UserDefinitionLinkView::BitfieldLink(b) => Ok(b.backing_type.spec_width() as int),
                UserDefinitionLinkView::EnumLink(e) => Ok(e.backing_type.spec_width() as int),
                UserDefinitionLinkView::StructLink(s) => s.spec_flat_size(),
                UserDefinitionLinkView::MessageLink(m) => m.spec_optimal_size(),
            },
        }
    }

    /// The payload size of one field under worst-case assumptions: as the
    /// optimal size, except that a nested message uses its own worst-case
    /// size, which is unknown when the nested message has index gaps.
    pub open spec fn spec_size_worst(self) -> Result<Option<int>, RuneParserError>
        decreases self, 0int, 0int,
    {
        match self.data_type {
            FieldTypeView::Empty => Ok(Some(0)),
            FieldTypeView::Primitive(p) => Ok(Some(p.spec_width() as int)),
            FieldTypeView::Array(a) => match a.spec_byte_size() {
                Ok(v) => Ok(Some(v)),
                Err(e) => Err(e),
            },
            FieldTypeView::UserDefined(_, link) => match link {
                UserDefinitionLinkView::NoLink => Err(RuneParserError::UndefinedIdentifier),
                UserDefinitionLinkView::BitfieldLink(b) => Ok(
                    Some(b.backing_type.spec_width() as int),
                ),
                UserDefinitionLinkView::EnumLink(e) => Ok(Some(e.backing_type.spec_width() as int)),
                UserDefinitionLinkView::StructLink(s) => match s.spec_flat_size() {
                    Ok(v) => Ok(Some(v)),
                    Err(e) => Err(e),
                },
                UserDefinitionLinkView::MessageLink(m) => m.spec_worst_case_size(),
            },
        }
    }
}

/// The optimal size of the fields from the front of `fs` onward, starting
/// from the byte count `acc` already spent: each field contributes its
/// payload under the optimal per-field encoding, in field order, and the
/// first field that cannot be sized decides the error.  A total that cannot
/// fit a 64-bit byte count is an invalid encoded size.
pub open spec fn spec_optimal_fields_from(fs: Seq<MessageFieldView>, acc: int) -> Result<
    int,
    RuneParserError,
>
    decreases fs, 0int, 0int,
{
    if fs.len() == 0 {
        Ok(acc)
    } else {
        match fs.first().spec_size_opt() {
            Err(e) => Err(e),
            Ok(v) => match spec_optimal_data_size(v) {
                Err(e) => Err(e),
                Ok(enc) => if acc + enc <= u64::MAX {
                    spec_optimal_fields_from(fs.drop_first(), acc + enc)
                } else {
                    Err(RuneParserError::InvalidEncodedSize)
                },
            },
        }
    }
}

/// The worst-case contribution of index `j`: the worst-case payload size of
/// the first field declared at that index, none when no field claims it.
pub open spec fn spec_worst_contribution(fs: Seq<MessageFieldView>, j: int) -> Result<
    Option<int>,
    RuneParserError,
>
    decreases fs, 0int, 0int,
{
    if fs.len() == 0 {
        Ok(None)
    } else if fs.first().index.spec_value() == j {
        fs.first().spec_size_worst()
    } else {
        spec_worst_contribution(fs.drop_first(), j)
    }
}

/// The largest numeric index any field of the list is declared at, and zero
/// when there are none.
pub open spec fn spec_fields_max_index(fs: Seq<MessageFieldView>) -> u64
    decreases fs,
{
    if fs.len() == 0 {
        0
    } else {
        let rest = spec_fields_max_index(fs.drop_last());
        if fs.last().index.spec_value() > rest {
            fs.last().index.spec_value()
        } else {
            rest
        }
    }
}

impl MessageDefinitionView {
    /// The encoded size of the message when every field encodes to its
    /// nominal size in the most efficient manner possible.
    pub open spec fn spec_optimal_size(self) -> Result<int, RuneParserError>
        decreases self, 1int, 0int,
    {
        spec_optimal_fields_from(self.fields, 0)
    }

    /// The worst-case size of the indexes from `j` up to the largest
    /// declared index, starting from the byte count `acc` already spent:
    /// each index costs a fixed five-byte overhead plus its field's
    /// worst-case payload, an index no field claims makes the whole size
    /// unknown, and a total that cannot fit a 64-bit byte count is an
    /// invalid encoded size.
    pub open spec fn spec_worst_case_from(self, j: int, acc: int) -> Result<
        Option<int>,
        RuneParserError,
    >
        decreases self, 1int, spec_fields_max_index(self.fields) + 1 - j,
    {
        if j > spec_fields_max_index(self.fields) {
            Ok(Some(acc))
        } else {
            match spec_worst_contribution(self.fields, j) {
                Err(e) => Err(e),
                Ok(None) => Ok(None),
                Ok(Some(v)) => if acc + 5 + v <= u64::MAX {
                    self.spec_worst_case_from(j + 1, acc + 5 + v)
                } else {
                    Err(RuneParserError::InvalidEncodedSize)
                },
            }
        }
    }

    /// The largest possible encoding of the message under worst-case
    /// per-field overhead, which exists only when the field indexes run
    /// gap-free from zero to the largest declared index.
    pub open spec fn spec_worst_case_size(self) -> Result<Option<int>, RuneParserError>
        decreases self, 2int, 0int,
    {
        self.spec_worst_case_from(0, 0)
    }
}

impl MessageField {
    /// The full encoded data size of the field.  For a nested message the
    /// flag chooses between optimal and worst-case encoding; the worst case
    /// is unknown for a nested message with index gaps.
    pub fn full_encoded_size(&self, worst_case: bool) -> (r: Result<Option<u64>, RuneParserError>)
        ensures
            worst_case ==> size_opt_result_to_int(r) == self@.spec_size_worst(),
            !worst_case ==> size_opt_result_to_int(r) == (match self@.spec_size_opt() {
                Ok(v) => Ok::<Option<int>, RuneParserError>(Some(v)),
                Err(e) => Err::<Option<int>, RuneParserError>(e),
            }),
        decreases *self, 0usize, 0usize,
    {
        match &self.data_type {
            FieldType::Array(array) => match array.byte_size() {
                Ok(v) => Ok(Some(v)),
                Err(e) => Err(e),
            },
            FieldType::Empty => Ok(Some(0)),
            FieldType::Primitive(primitive) => Ok(Some(primitive.encoded_max_data_size())),
            FieldType::UserDefined(_, definition_link) => match definition_link {
                UserDefinitionLink::NoLink => Err(RuneParserError::UndefinedIdentifier),
                UserDefinitionLink::BitfieldLink(bitfield_definition) => Ok(
                    Some(bitfield_definition.backing_type.encoded_max_data_size()),
                ),
                UserDefinitionLink::EnumLink(enum_definition) => Ok(
                    Some(enum_definition.backing_type.encoded_max_data_size()),
                ),
                UserDefinitionLink::MessageLink(message_link) => if worst_case {
                    message_link.worst_case_encoded_size()
                } else {
                    match message_link.optimal_full_encoded_size() {
                        Ok(v) => Ok(Some(v)),
                        Err(e) => Err(e),
                    }
                },
                UserDefinitionLink::StructLink(struct_definition) => match struct_definition
                    .flat_size() {
                    Ok(v) => Ok(Some(v)),
                    Err(e) => Err(e),
                },
            },
        }
    }
}

/// The per-field header byte.
pub const HEADER_SIZE: u64 = 1;

/// The width of a one-byte length prefix.
pub const LENGTH_SIZE_U8: u64 = 1;

/// The width of a two-byte length prefix.
pub const LENGTH_SIZE_U16: u64 = 2;

/// The width of a four-byte length prefix.
pub const LENGTH_SIZE_U32: u64 = 4;

/// The encoded size of one field payload of `size` bytes under the most
/// efficient encoding.
pub fn optimal_encoded_data_size(size: &u64) -> (r: Result<u64, RuneParserError>)
    ensures
        size_result_to_int(r) == spec_optimal_data_size(*size as int),
{
    if *size == 0 {
        Ok(0)
    } else if *size == 1 || *size == 2 || *size == 4 || *size == 8 {
        Ok(HEADER_SIZE + *size)
    } else if *size <= u8::MAX as u64 {
        Ok(HEADER_SIZE + LENGTH_SIZE_U8 + *size)
    } else if *size <= u16::MAX as u64 {
        Ok(HEADER_SIZE + LENGTH_SIZE_U16 + *size)
    } else if *size <= u32::MAX as u64 {
        Ok(HEADER_SIZE + LENGTH_SIZE_U32 + *size)
    } else {
        Err(RuneParserError::InvalidEncodedSize)
    }
}

impl MessageDefinition {
    /// The encoded size of this message if all fields encode to their
    /// nominal size in the most efficient manner possible.  Used for
    /// allocating buffers.
    pub fn optimal_full_encoded_size(&self) -> (r: Result<u64, RuneParserError>)
        ensures
            size_result_to_int(r) == self@.spec_optimal_size(),
        decreases *self, 1usize, 0usize,
    {
        let ghost fields_view = view_message_fields(self.fields@);
        let mut total_size: u64 = 0;
        let mut i: usize = 0;
        proof {
            broadcast use lemma_view_message_fields;

            assert(fields_view.skip(0) =~= fields_view);
        }
        while i < self.fields.len()
            invariant
                i <= self.fields.len(),
                fields_view == view_message_fields(self.fields@),
                fields_view.len() == self.fields@.len(),
                forall|j: int|
                    0 <= j < self.fields@.len() ==> fields_view[j] == view_message_field(
                        self.fields@[j],
                    ),
                spec_optimal_fields_from(fields_view, 0) == spec_optimal_fields_from(
                    fields_view.skip(i as int),
                    total_size as int,
                ),
            decreases self.fields.len() - i,
        {
            proof {
                assert(fields_view.skip(i as int).first() == fields_view[i as int]);
                assert(fields_view.skip(i as int).drop_first() =~= fields_view.skip(i + 1));
            }
            let payload = match self.fields[i].full_encoded_size(false) {
                Ok(Some(v)) => v,
                Ok(None) => {
                    proof {
                        assert(false);
                    }
                    return Err(RuneParserError::InvalidEncodedSize);
                },
                Err(e) => {
                    return Err(e);
                },
            };
            let encoded = match optimal_encoded_data_size(&payload) {
                Ok(v) => v,
                Err(e) => {
                    return Err(e);
                },
            };
            total_size = match total_size.checked_add(encoded) {
                Some(v) => v,
                None => {
                    return Err(RuneParserError::InvalidEncodedSize);
                },
            };
            i = i + 1;
        }
        proof {
            assert(fields_view.skip(self.fields@.len() as int) =~= Seq::<
                MessageFieldView,
            >::empty());
        }
        Ok(total_size)
    }

    /// The largest possible encoding of the message with all fields present
    /// and fully sized, under worst-case per-field overhead.  Returns
    /// nothing when a field index between zero and the largest declared
    /// index is unclaimed, or when a nested message has such a gap: an
    /// absent field might still be sent, with a size nothing here bounds.
    pub fn worst_case_encoded_size(&self) -> (r: Result<Option<u64>, RuneParserError>)
        ensures
            size_opt_result_to_int(r) == self@.spec_worst_case_size(),
        decreases *self, 2usize, 0usize,
    {
        let ghost fields_view = view_message_fields(self.fields@);
        proof {
            broadcast use lemma_view_message_fields;

        }
        // Find the largest declared index
        let mut largest_index: u64 = 0;
        let mut k: usize = 0;
        proof {
            assert(fields_view.take(0) =~= Seq::<MessageFieldView>::empty());
        }
        while k < self.fields.len()
            invariant
                k <= self.fields.len(),
                fields_view == view_message_fields(self.fields@),
                fields_view.len() == self.fields@.len(),
                forall|j: int|
                    0 <= j < self.fields@.len() ==> fields_view[j] == view_message_field(
                        self.fields@[j],
                    ),
                largest_index == spec_fields_max_index(fields_view.take(k as int)),
            decreases self.fields.len() - k,
        {
            let v = self.fields[k].index.value();
            if v > largest_index {
                largest_index = v;
            }
            proof {
                assert(fields_view.take(k + 1 as int).drop_last() =~= fields_view.take(k as int));
                assert(fields_view.take(k + 1 as int).last() == fields_view[k as int]);
            }
            k = k + 1;
        }
        proof {
            assert(fields_view.take(self.fields@.len() as int) =~= fields_view);
        }
        // Walk every index from zero to the largest, accumulating the
        // worst-case cost of each
        let mut total_size: u64 = 0;
        let mut j: u64 = 0;
        loop
            invariant
                fields_view == view_message_fields(self.fields@),
                fields_view.len() == self.fields@.len(),
                forall|q: int|
                    0 <= q < self.fields@.len() ==> fields_view[q] == view_message_field(
                        self.fields@[q],
                    ),
                largest_index == spec_fields_max_index(fields_view),
                j <= largest_index || (j == 0 && largest_index == 0),
                self@.spec_worst_case_size() == self@.spec_worst_case_from(
                    j as int,
                    total_size as int,
                ),
                self@.fields == fields_view,
            decreases largest_index - j,
        {
            let ghost prev_total = total_size;
            let contribution = worst_index_contribution(&self.fields, j);
            let value = match contribution {
                Ok(Some(v)) => v,
                Ok(None) => {
                    return Ok(None);
                },
                Err(e) => {
                    return Err(e);
                },
            };
            let with_overhead = match 5u64.checked_add(value) {
                Some(v) => v,
                None => {
                    return Err(RuneParserError::InvalidEncodedSize);
                },
            };
            total_size = match total_size.checked_add(with_overhead) {
                Some(v) => v,
                None => {
                    return Err(RuneParserError::InvalidEncodedSize);
                },
            };
            proof {
                assert(self@.spec_worst_case_from(j as int, prev_total as int)
                    == self@.spec_worst_case_from(j + 1, total_size as int));
            }
            if j == largest_index {
                proof {
                    assert(self@.spec_worst_case_from(j + 1, total_size as int) == Ok::<
                        Option<int>,
                        RuneParserError,
                    >(Some(total_size as int)));
                }
                return Ok(Some(total_size));
            }
            j = j + 1;
        }
    }
}

/// The worst-case payload of the first field declared at index `j`, and
/// nothing when no field claims that index.
fn worst_index_contribution(fields: &Vec<MessageField>, j: u64) -> (r: Result<
    Option<u64>,
    RuneParserError,
>)
    ensures
        size_opt_result_to_int(r) == spec_worst_contribution(view_message_fields(fields@), j as int),
    decreases fields@, 0usize, 0usize,
{
    let ghost fields_view = view_message_fields(fields@);
    proof {
        broadcast use lemma_view_message_fields;

        assert(fields_view.skip(0) =~= fields_view);
    }
    let mut k: usize = 0;
    while k < fields.len()
        invariant
            k <= fields.len(),
            fields_view == view_message_fields(fields@),
            fields_view.len() == fields@.len(),
            forall|q: int|
                0 <= q < fields@.len() ==> fields_view[q] == view_message_field(fields@[q]),
            spec_worst_contribution(fields_view, j as int) == spec_worst_contribution(
                fields_view.skip(k as int),
                j as int,
            ),
        decreases fields.len() - k,
    {
        proof {
            assert(fields_view.skip(k as int).first() == fields_view[k as int]);
            assert(fields_view.skip(k as int).drop_first() =~= fields_view.skip(k + 1));
        }
        if fields[k].index.value() == j {
            return fields[k].full_encoded_size(true);
        }
        k = k + 1;
    }
    proof {
        assert(fields_view.skip(fields@.len() as int) =~= Seq::<MessageFieldView>::empty());
    }
    Ok(None)
}

/// Copies a field type, snapshot and all.
pub fn clone_field_type(t: &FieldType) -> (r: FieldType)
    ensures
        r@ == t@,
    decreases *t,
{
    match t {
        FieldType::Empty => FieldType::Empty,
        FieldType::Primitive(p) => FieldType::Primitive(*p),
        FieldType::Array(a) => FieldType::Array(clone_array(a)),
        FieldType::UserDefined(name, link) => FieldType::UserDefined(name.clone(), clone_link(link)),
    }
}

/// Copies a message field, snapshot and all.
pub fn clone_message_field(f: &MessageField) -> (r: MessageField)
    ensures
        r@ == f@,
    decreases *f,
{
    let r = MessageField {
        identifier: f.identifier.clone(),
        data_type: clone_field_type(&f.data_type),
        index: f.index,
        comment: clone_comment(&f.comment),
    };
    proof {
        assert(r@ =~= f@);
    }
    r
}

/// Copies a field list, snapshots and all.
pub fn clone_message_fields(v: &Vec<MessageField>) -> (r: Vec<MessageField>)
    ensures
        r.deep_view() == v.deep_view(),
    decreases v@,
{
    let mut r: Vec<MessageField> = Vec::new();
    let mut i: usize = 0;
    while i < v.len()
        invariant
            i <= v.len(),
            r@.len() == i as int,
            forall|j: int| 0 <= j < i ==> r.deep_view()[j] == v.deep_view()[j],
        decreases v.len() - i,
    {
        r.push(clone_message_field(&v[i]));
        proof {
            assert(r@[i as int]@ == v@[i as int]@);
        }
        i = i + 1;
    }
    proof {
        assert(r.deep_view() =~= v.deep_view());
    }
    r
}

/// Copies a list of reserved field indexes.
pub fn clone_field_indexes(v: &Vec<FieldIndex>) -> (r: Vec<FieldIndex>)
    ensures
        r@ == v@,
{
    let mut r: Vec<FieldIndex> = Vec::new();
    let mut i: usize = 0;
    while i < v.len()
        invariant
            i <= v.len(),
            r@ == v@.take(i as int),
        decreases v.len() - i,
    {
        r.push(v[i]);
        proof {
            assert(r@ =~= v@.take(i + 1 as int));
        }
        i = i + 1;
    }
    proof {
        assert(v@.take(v.len() as int) =~= v@);
    }
    r
}

/// Copies a message declaration, snapshots and all.
pub fn clone_message_def(m: &MessageDefinition) -> (r: MessageDefinition)
    ensures
        r@ == m@,
    decreases *m,
{
    let r = MessageDefinition {
        name: m.name.clone(),
        fields: clone_message_fields(&m.fields),
        reserved_indexes: clone_field_indexes(&m.reserved_indexes),
        comment: clone_comment(&m.comment),
        orphan_comments: crate::bitfields::clone_orphan_comments(&m.orphan_comments),
    };
    proof {
        broadcast use lemma_view_message_fields;

        assert(r.fields.deep_view().len() == r.fields@.len());
        assert(m.fields.deep_view().len() == m.fields@.len());
        assert(r.fields@.len() == m.fields@.len());
        assert forall|i: int| 0 <= i < m.fields@.len() implies view_message_field(r.fields@[i])
            == view_message_field(m.fields@[i]) by {
            assert(r.fields.deep_view()[i] == m.fields.deep_view()[i]);
        }
        assert(view_message_fields(r.fields@) =~= view_message_fields(m.fields@));
        assert(r@ =~= m@);
    }
    r
}

impl Clone for MessageField {
    fn clone(&self) -> (r: Self)
        ensures
            r@ == self@,
    {
        clone_message_field(self)
    }
}

impl Clone for MessageDefinition {
    fn clone(&self) -> (r: Self)
        ensures
            r@ == self@,
    {
        clone_message_def(self)
    }
}

impl PartialEq for FieldType {
    /// Two field types are equal when they are both empty, name the same
    /// primitive, equal arrays, or the same user type; resolution state is
    /// not compared.
    fn eq(&self, other: &FieldType) -> (r: bool) {
        match (self, other) {
            (FieldType::Empty, FieldType::Empty) => true,
            (FieldType::Primitive(p), FieldType::Primitive(q)) => *p == *q,
            (FieldType::Array(a), FieldType::Array(b)) => *a == *b,
            (FieldType::UserDefined(name, _), FieldType::UserDefined(other_name, _)) => *name
                == *other_name,
            _ => false,
        }
    }
}

impl vstd::std_specs::cmp::PartialEqSpecImpl for FieldType {
    open spec fn obeys_eq_spec() -> bool {
        true
    }

    open spec fn eq_spec(&self, other: &FieldType) -> bool {
        spec_field_type_eq(self@, other@)
    }
}

/// When two field types count as the same: both empty, the same primitive,
/// equal arrays, or the same user type name, whatever either link holds.
pub open spec fn spec_field_type_eq(a: FieldTypeView, b: FieldTypeView) -> bool {
    match (a, b) {
        (FieldTypeView::Empty, FieldTypeView::Empty) => true,
        (FieldTypeView::Primitive(p), FieldTypeView::Primitive(q)) => p == q,
        (FieldTypeView::Array(x), FieldTypeView::Array(y)) => crate::arrays::spec_array_eq(x, y),
        (FieldTypeView::UserDefined(n, _), FieldTypeView::UserDefined(m, _)) => n == m,
        _ => false,
    }
}

} // verus!

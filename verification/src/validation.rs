//! Structural validation of a merged, linked, constant-resolved schema.
//!
//! The checks run in a fixed order and stop at the first violation: global
//! name uniqueness, then bitfields, enums, messages and structs.  No partial
//! result is produced; a schema either passes whole or the run aborts with
//! one error.

use vstd::prelude::*;
use crate::bitfields::{BitfieldDefinitionView, BitfieldMember};
use crate::enums::{EnumDefinitionView, EnumMember};
use crate::messages::{lemma_view_message_fields, view_message_def, view_message_fields,
    FieldIndex, MessageDefinitionView, MessageField};
use crate::numeric::{spec_numeric_eq, NumericLiteral};
use crate::primitives::Primitive;
use crate::schema::{RuneFileDescription, RuneFileDescriptionView};
use crate::structs::{lemma_view_struct_members, view_struct_def, view_struct_members,
    StructDefinitionView, StructMember};
use crate::RuneParserError;

verus! {

// Numeric domains
// ----------------

impl Primitive {
    /// Whether the numeric literal lies in the legal domain of this backing
    /// primitive.  The domains are the exact value ranges of the scalar:
    /// boolean backings take booleans alone, integer backings take integer
    /// literals within their signed or unsigned range, and float backings
    /// take float literals within their finite range.
    pub open spec fn spec_value_in_domain(self, value: NumericLiteral) -> bool {
        match self {
            Primitive::Bool => value is Boolean,
            Primitive::Char | Primitive::I8 => match value {
                NumericLiteral::PositiveInteger(v, _) => v <= i8::MAX as u64,
                NumericLiteral::NegativeInteger(v, _) => i8::MIN as i64 <= v <= i8::MAX as i64,
                _ => false,
            },
            Primitive::U8 => match value {
                NumericLiteral::PositiveInteger(v, _) => v <= u8::MAX as u64,
                _ => false,
            },
            Primitive::I16 => match value {
                NumericLiteral::PositiveInteger(v, _) => v <= i16::MAX as u64,
                NumericLiteral::NegativeInteger(v, _) => i16::MIN as i64 <= v <= i16::MAX as i64,
                _ => false,
            },
            Primitive::U16 => match value {
                NumericLiteral::PositiveInteger(v, _) => v <= u16::MAX as u64,
                _ => false,
            },
            Primitive::F32 => match value {
                NumericLiteral::Float(f) => f.in_f32_range,
                _ => false,
            },
            Primitive::I32 => match value {
                NumericLiteral::PositiveInteger(v, _) => v <= i32::MAX as u64,
                NumericLiteral::NegativeInteger(v, _) => i32::MIN as i64 <= v <= i32::MAX as i64,
                _ => false,
            },
            Primitive::U32 => match value {
                NumericLiteral::PositiveInteger(v, _) => v <= u32::MAX as u64,
                _ => false,
            },
            Primitive::F64 => value is Float,
            Primitive::I64 => match value {
                NumericLiteral::PositiveInteger(v, _) => v <= i64::MAX as u64,
                NumericLiteral::NegativeInteger(_, _) => true,
                _ => false,
            },
            Primitive::U64 => value is PositiveInteger,
            _ => false,
        }
    }

    /// Whether the primitive is one of the plain integer backings, character
    /// included; booleans and floats have domains of their own shape.
    pub open spec fn spec_is_integer_backing(self) -> bool {
        match self {
            Primitive::Char
            | Primitive::I8
            | Primitive::U8
            | Primitive::I16
            | Primitive::U16
            | Primitive::I32
            | Primitive::U32
            | Primitive::I64
            | Primitive::U64 => true,
            _ => false,
        }
    }

    /// Checks an enum member or reserved value against this backing
    /// primitive's legal numeric domain.
    pub fn validate_value(&self, value: &NumericLiteral) -> (r: bool)
        ensures
            r == self.spec_value_in_domain(*value),
    {
        match self {
            Primitive::Bool => matches!(value, NumericLiteral::Boolean(_)),
            Primitive::Char | Primitive::I8 => match value {
                NumericLiteral::PositiveInteger(v, _) => *v <= i8::MAX as u64,
                NumericLiteral::NegativeInteger(v, _) => i8::MIN as i64 <= *v && *v
                    <= i8::MAX as i64,
                _ => false,
            },
            Primitive::U8 => match value {
                NumericLiteral::PositiveInteger(v, _) => *v <= u8::MAX as u64,
                _ => false,
            },
            Primitive::I16 => match value {
                NumericLiteral::PositiveInteger(v, _) => *v <= i16::MAX as u64,
                NumericLiteral::NegativeInteger(v, _) => i16::MIN as i64 <= *v && *v
                    <= i16::MAX as i64,
                _ => false,
            },
            Primitive::U16 => match value {
                NumericLiteral::PositiveInteger(v, _) => *v <= u16::MAX as u64,
                _ => false,
            },
            Primitive::F32 => match value {
                NumericLiteral::Float(f) => f.in_f32_range,
                _ => false,
            },
            Primitive::I32 => match value {
                NumericLiteral::PositiveInteger(v, _) => *v <= i32::MAX as u64,
                NumericLiteral::NegativeInteger(v, _) => i32::MIN as i64 <= *v && *v
                    <= i32::MAX as i64,
                _ => false,
            },
            Primitive::U32 => match value {
                NumericLiteral::PositiveInteger(v, _) => *v <= u32::MAX as u64,
                _ => false,
            },
            Primitive::F64 => matches!(value, NumericLiteral::Float(_)),
            Primitive::I64 => match value {
                NumericLiteral::PositiveInteger(v, _) => *v <= i64::MAX as u64,
                NumericLiteral::NegativeInteger(_, _) => true,
                _ => false,
            },
            Primitive::U64 => matches!(value, NumericLiteral::PositiveInteger(_, _)),
            _ => false,
        }
    }
}

/// Acceptance by an enum backing domain is monotonic across widening: a
/// value accepted by a narrower backing is accepted by any wider backing of
/// the same family — integer backings of the same signedness, or the two
/// float widths.  The law does not cross families: a value a signed integer
/// backing accepts need not lie in a float domain, and a boolean is accepted
/// by no wider integer backing.
pub proof fn lemma_enum_domain_monotonic(narrow: Primitive, wide: Primitive, v: NumericLiteral)
    requires
        (narrow.spec_is_integer_backing() && wide.spec_is_integer_backing()
            && narrow.spec_is_signed() == wide.spec_is_signed() && narrow.spec_width()
            <= wide.spec_width()) || (narrow == Primitive::F32 && wide == Primitive::F64),
        narrow.spec_value_in_domain(v),
    ensures
        wide.spec_value_in_domain(v),
{
}

// Global name uniqueness
// -----------------------

/// The names of a bitfield list, in order.
pub open spec fn spec_bitfield_names(bs: Seq<BitfieldDefinitionView>) -> Seq<Seq<char>>
    decreases bs,
{
    if bs.len() == 0 {
        Seq::empty()
    } else {
        spec_bitfield_names(bs.drop_last()).push(bs.last().name)
    }
}

/// The names of a define list, in order.
pub open spec fn spec_define_names(ds: Seq<crate::defines::DefineDefinitionView>) -> Seq<Seq<char>>
    decreases ds,
{
    if ds.len() == 0 {
        Seq::empty()
    } else {
        spec_define_names(ds.drop_last()).push(ds.last().name)
    }
}

/// The names of an enum list, in order.
pub open spec fn spec_enum_names(es: Seq<EnumDefinitionView>) -> Seq<Seq<char>>
    decreases es,
{
    if es.len() == 0 {
        Seq::empty()
    } else {
        spec_enum_names(es.drop_last()).push(es.last().name)
    }
}

/// The names of a message list, in order.
pub open spec fn spec_message_names(ms: Seq<MessageDefinitionView>) -> Seq<Seq<char>>
    decreases ms,
{
    if ms.len() == 0 {
        Seq::empty()
    } else {
        spec_message_names(ms.drop_last()).push(ms.last().name)
    }
}

/// The names of a struct list, in order.
pub open spec fn spec_struct_names(ss: Seq<StructDefinitionView>) -> Seq<Seq<char>>
    decreases ss,
{
    if ss.len() == 0 {
        Seq::empty()
    } else {
        spec_struct_names(ss.drop_last()).push(ss.last().name)
    }
}

/// Each name list indexes pointwise into its definitions.
pub broadcast proof fn lemma_spec_bitfield_names(bs: Seq<BitfieldDefinitionView>)
    ensures
        (#[trigger] spec_bitfield_names(bs)).len() == bs.len(),
        forall|i: int| 0 <= i < bs.len() ==> spec_bitfield_names(bs)[i] == bs[i].name,
    decreases bs,
{
    if bs.len() > 0 {
        lemma_spec_bitfield_names(bs.drop_last());
    }
}

/// Each name list indexes pointwise into its definitions.
pub broadcast proof fn lemma_spec_define_names(ds: Seq<crate::defines::DefineDefinitionView>)
    ensures
        (#[trigger] spec_define_names(ds)).len() == ds.len(),
        forall|i: int| 0 <= i < ds.len() ==> spec_define_names(ds)[i] == ds[i].name,
    decreases ds,
{
    if ds.len() > 0 {
        lemma_spec_define_names(ds.drop_last());
    }
}

/// Each name list indexes pointwise into its definitions.
pub broadcast proof fn lemma_spec_enum_names(es: Seq<EnumDefinitionView>)
    ensures
        (#[trigger] spec_enum_names(es)).len() == es.len(),
        forall|i: int| 0 <= i < es.len() ==> spec_enum_names(es)[i] == es[i].name,
    decreases es,
{
    if es.len() > 0 {
        lemma_spec_enum_names(es.drop_last());
    }
}

/// Each name list indexes pointwise into its definitions.
pub broadcast proof fn lemma_spec_message_names(ms: Seq<MessageDefinitionView>)
    ensures
        (#[trigger] spec_message_names(ms)).len() == ms.len(),
        forall|i: int| 0 <= i < ms.len() ==> spec_message_names(ms)[i] == ms[i].name,
    decreases ms,
{
    if ms.len() > 0 {
        lemma_spec_message_names(ms.drop_last());
    }
}

/// Each name list indexes pointwise into its definitions.
pub broadcast proof fn lemma_spec_struct_names(ss: Seq<StructDefinitionView>)
    ensures
        (#[trigger] spec_struct_names(ss)).len() == ss.len(),
        forall|i: int| 0 <= i < ss.len() ==> spec_struct_names(ss)[i] == ss[i].name,
    decreases ss,
{
    if ss.len() > 0 {
        lemma_spec_struct_names(ss.drop_last());
    }
}

/// The names a file's declarations claim in the global type namespace:
/// bitfields, defines, enums, messages and structs, in that order.
pub open spec fn spec_file_type_names(f: RuneFileDescriptionView) -> Seq<Seq<char>> {
    spec_bitfield_names(f.definitions.bitfields) + spec_define_names(f.definitions.defines)
        + spec_enum_names(f.definitions.enums) + spec_message_names(f.definitions.messages)
        + spec_struct_names(f.definitions.structs)
}

/// All names claimed in the global type namespace, in file order.
pub open spec fn spec_all_type_names(files: Seq<RuneFileDescriptionView>) -> Seq<Seq<char>>
    decreases files,
{
    if files.len() == 0 {
        Seq::empty()
    } else {
        spec_all_type_names(files.drop_last()) + spec_file_type_names(files.last())
    }
}

/// Whether any name occurs twice in the list.
pub open spec fn spec_has_duplicate(names: Seq<Seq<char>>) -> bool {
    exists|i: int, j: int| 0 <= i < j < names.len() && names[i] == names[j]
}

/// Validation of the global type namespace: every bitfield, define, enum,
/// message and struct name must be claimed exactly once across all files.
pub open spec fn spec_validate_names(files: Seq<RuneFileDescriptionView>) -> Result<
    (),
    RuneParserError,
> {
    if spec_has_duplicate(spec_all_type_names(files)) {
        Err(RuneParserError::NameCollision)
    } else {
        Ok(())
    }
}

/// Collects every name claimed in the global type namespace, in file order.
#[verifier::rlimit(50)]
fn collect_type_names(files: &Vec<RuneFileDescription>) -> (r: Vec<String>)
    ensures
        r.deep_view() == spec_all_type_names(files.deep_view()),
{
    let ghost files_view = files.deep_view();
    let mut names: Vec<String> = Vec::new();
    let mut i: usize = 0;
    proof {
        broadcast use lemma_spec_bitfield_names, lemma_spec_define_names, lemma_spec_enum_names,
            lemma_spec_message_names, lemma_spec_struct_names;

        assert(names.deep_view() =~= spec_all_type_names(files_view.take(0)));
    }
    while i < files.len()
        invariant
            i <= files.len(),
            files_view == files.deep_view(),
            files_view.len() == files@.len(),
            names.deep_view() == spec_all_type_names(files_view.take(i as int)),
        decreases files.len() - i,
    {
        let ghost f = files_view[i as int];
        let ghost before = names.deep_view();
        let file = &files[i];
        proof {
            assert(files_view[i as int] == files@[i as int]@);
        }
        let mut k: usize = 0;
        proof {
            assert(f.definitions.bitfields.take(0) =~= Seq::<_>::empty());
            assert(names.deep_view() =~= before + spec_bitfield_names(f.definitions.bitfields.take(0)));
        }
        while k < file.definitions.bitfields.len()
            invariant
                k <= file.definitions.bitfields.len(),
                f == file@,
                names@.len() == before.len() + k,
                names.deep_view() == before + spec_bitfield_names(
                    f.definitions.bitfields.take(k as int),
                ),
            decreases file.definitions.bitfields.len() - k,
        {
            names.push(file.definitions.bitfields[k].name.clone());
            proof {
                broadcast use lemma_spec_bitfield_names;

                let bs = f.definitions.bitfields;
                assert(bs.take(k + 1).drop_last() =~= bs.take(k as int));
                assert(bs.take(k + 1).last() == bs[k as int]);
                assert(bs[k as int] == file.definitions.bitfields@[k as int]@);
                assert(names@.len() == before.len() + k + 1);
                assert(spec_bitfield_names(bs.take(k + 1)) == spec_bitfield_names(
                    bs.take(k as int),
                ).push(bs[k as int].name));
                assert(names@[before.len() + k as int].deep_view() == bs[k as int].name);
                assert forall|x: int| 0 <= x < before.len() + k implies names.deep_view()[x] == (
                before + spec_bitfield_names(bs.take(k as int)))[x] by {
                    assert(names@[x] == names@.take(names@.len() - 1)[x]);
                }
                assert(names.deep_view() =~= before + spec_bitfield_names(bs.take(k + 1)));
            }
            k = k + 1;
        }
        proof {
            assert(f.definitions.bitfields.take(f.definitions.bitfields.len() as int)
                =~= f.definitions.bitfields);
        }
        let ghost after_bitfields = names.deep_view();
        let mut k: usize = 0;
        proof {
            assert(f.definitions.defines.take(0) =~= Seq::<_>::empty());
            assert(names.deep_view() =~= after_bitfields + spec_define_names(f.definitions.defines.take(0)));
        }
        while k < file.definitions.defines.len()
            invariant
                k <= file.definitions.defines.len(),
                f == file@,
                after_bitfields == before + spec_bitfield_names(f.definitions.bitfields),
                names@.len() == after_bitfields.len() + k,
                names.deep_view() == after_bitfields + spec_define_names(
                    f.definitions.defines.take(k as int),
                ),
            decreases file.definitions.defines.len() - k,
        {
            names.push(file.definitions.defines[k].name.clone());
            proof {
                broadcast use lemma_spec_define_names;

                let ds = f.definitions.defines;
                assert(ds.take(k + 1).drop_last() =~= ds.take(k as int));
                assert(ds.take(k + 1).last() == ds[k as int]);
                assert(ds[k as int] == file.definitions.defines@[k as int]@);
                assert forall|x: int| 0 <= x < after_bitfields.len() + k implies names.deep_view()[x]
                    == (after_bitfields + spec_define_names(ds.take(k as int)))[x] by {
                    assert(names@[x] == names@.take(names@.len() - 1)[x]);
                }
                assert(names.deep_view() =~= after_bitfields + spec_define_names(ds.take(k + 1)));
            }
            k = k + 1;
        }
        proof {
            assert(f.definitions.defines.take(f.definitions.defines.len() as int)
                =~= f.definitions.defines);
        }
        let ghost after_defines = names.deep_view();
        let mut k: usize = 0;
        proof {
            assert(f.definitions.enums.take(0) =~= Seq::<_>::empty());
            assert(names.deep_view() =~= after_defines + spec_enum_names(f.definitions.enums.take(0)));
        }
        while k < file.definitions.enums.len()
            invariant
                k <= file.definitions.enums.len(),
                f == file@,
                after_defines == before + spec_bitfield_names(f.definitions.bitfields)
                    + spec_define_names(f.definitions.defines),
                names@.len() == after_defines.len() + k,
                names.deep_view() == after_defines + spec_enum_names(
                    f.definitions.enums.take(k as int),
                ),
            decreases file.definitions.enums.len() - k,
        {
            names.push(file.definitions.enums[k].name.clone());
            proof {
                broadcast use lemma_spec_enum_names;

                let es = f.definitions.enums;
                assert(es.take(k + 1).drop_last() =~= es.take(k as int));
                assert(es.take(k + 1).last() == es[k as int]);
                assert(es[k as int] == file.definitions.enums@[k as int]@);
                assert forall|x: int| 0 <= x < after_defines.len() + k implies names.deep_view()[x]
                    == (after_defines + spec_enum_names(es.take(k as int)))[x] by {
                    assert(names@[x] == names@.take(names@.len() - 1)[x]);
                }
                assert(names.deep_view() =~= after_defines + spec_enum_names(es.take(k + 1)));
            }
            k = k + 1;
        }
        proof {
            assert(f.definitions.enums.take(f.definitions.enums.len() as int)
                =~= f.definitions.enums);
        }
        let ghost after_enums = names.deep_view();
        let mut k: usize = 0;
        proof {
            assert(f.definitions.messages.take(0) =~= Seq::<_>::empty());
            assert(names.deep_view() =~= after_enums + spec_message_names(f.definitions.messages.take(0)));
        }
        while k < file.definitions.messages.len()
            invariant
                k <= file.definitions.messages.len(),
                f == file@,
                after_enums == before + spec_bitfield_names(f.definitions.bitfields)
                    + spec_define_names(f.definitions.defines) + spec_enum_names(
                    f.definitions.enums,
                ),
                names@.len() == after_enums.len() + k,
                names.deep_view() == after_enums + spec_message_names(
                    f.definitions.messages.take(k as int),
                ),
            decreases file.definitions.messages.len() - k,
        {
            names.push(file.definitions.messages[k].name.clone());
            proof {
                broadcast use lemma_spec_message_names;

                let ms = f.definitions.messages;
                assert(ms.take(k + 1).drop_last() =~= ms.take(k as int));
                assert(ms.take(k + 1).last() == ms[k as int]);
                assert(ms[k as int] == view_message_def(file.definitions.messages@[k as int]));
                assert forall|x: int| 0 <= x < after_enums.len() + k implies names.deep_view()[x]
                    == (after_enums + spec_message_names(ms.take(k as int)))[x] by {
                    assert(names@[x] == names@.take(names@.len() - 1)[x]);
                }
                assert(names.deep_view() =~= after_enums + spec_message_names(ms.take(k + 1)));
            }
            k = k + 1;
        }
        proof {
            assert(f.definitions.messages.take(f.definitions.messages.len() as int)
                =~= f.definitions.messages);
        }
        let ghost after_messages = names.deep_view();
        let mut k: usize = 0;
        proof {
            assert(f.definitions.structs.take(0) =~= Seq::<_>::empty());
            assert(names.deep_view() =~= after_messages + spec_struct_names(f.definitions.structs.take(0)));
        }
        while k < file.definitions.structs.len()
            invariant
                k <= file.definitions.structs.len(),
                f == file@,
                after_messages == before + spec_bitfield_names(f.definitions.bitfields)
                    + spec_define_names(f.definitions.defines) + spec_enum_names(
                    f.definitions.enums,
                ) + spec_message_names(f.definitions.messages),
                names@.len() == after_messages.len() + k,
                names.deep_view() == after_messages + spec_struct_names(
                    f.definitions.structs.take(k as int),
                ),
            decreases file.definitions.structs.len() - k,
        {
            names.push(file.definitions.structs[k].name.clone());
            proof {
                broadcast use lemma_spec_struct_names;

                let ss = f.definitions.structs;
                assert(ss.take(k + 1).drop_last() =~= ss.take(k as int));
                assert(ss.take(k + 1).last() == ss[k as int]);
                assert(ss[k as int] == view_struct_def(file.definitions.structs@[k as int]));
                assert forall|x: int| 0 <= x < after_messages.len() + k implies names.deep_view()[x]
                    == (after_messages + spec_struct_names(ss.take(k as int)))[x] by {
                    assert(names@[x] == names@.take(names@.len() - 1)[x]);
                }
                assert(names.deep_view() =~= after_messages + spec_struct_names(ss.take(k + 1)));
            }
            k = k + 1;
        }
        proof {
            assert(f.definitions.structs.take(f.definitions.structs.len() as int)
                =~= f.definitions.structs);
            assert(files_view.take(i + 1).drop_last() =~= files_view.take(i as int));
            assert(files_view.take(i + 1).last() == files_view[i as int]);
            assert(names.deep_view() =~= spec_all_type_names(files_view.take(i + 1)));
        }
        i = i + 1;
    }
    proof {
        assert(files_view.take(files@.len() as int) =~= files_view);
    }
    names
}

/// Validates that all declared type names (bitfields, defines, enums,
/// messages and structs) are distinct across the whole file set.
pub fn validate_names(files: &Vec<RuneFileDescription>) -> (r: Result<(), RuneParserError>)
    ensures
        r == spec_validate_names(files.deep_view()),
{
    let names = collect_type_names(files);
    let ghost names_view = names.deep_view();
    let n = names.len();
    proof {
        assert(names_view.len() == names@.len());
    }
    let mut i: usize = 0;
    while i < n
        invariant
            i <= n,
            n == names@.len(),
            names_view == names.deep_view(),
            names_view == spec_all_type_names(files.deep_view()),
            names_view.len() == names@.len(),
            forall|a: int, b: int| 0 <= a < b < names_view.len() && a < i ==> names_view[a]
                != names_view[b],
        decreases n - i,
    {
        let mut j: usize = i + 1;
        while j < n
            invariant
                i < j <= n,
                n == names@.len(),
                names_view == names.deep_view(),
                names_view == spec_all_type_names(files.deep_view()),
                names_view.len() == names@.len(),
                forall|b: int| i < b < j ==> names_view[i as int] != names_view[b],
            decreases n - j,
        {
            if names[i] == names[j] {
                proof {
                    assert(names.deep_view()[i as int] == names@[i as int]@);
                    assert(names.deep_view()[j as int] == names@[j as int]@);
                    assert(names_view[i as int] == names_view[j as int]);
                    assert(spec_has_duplicate(names_view));
                }
                return Err(RuneParserError::NameCollision);
            }
            j = j + 1;
        }
        i = i + 1;
    }
    proof {
        assert(!spec_has_duplicate(names_view));
    }
    Ok(())
}


// Bitfield validation
// --------------------

/// The total bit width claimed by a member list.
pub open spec fn spec_bitfield_width(ms: Seq<crate::bitfields::BitfieldMemberView>) -> int
    decreases ms,
{
    if ms.len() == 0 {
        0
    } else {
        spec_bitfield_width(ms.drop_last()) + ms.last().size.spec_absolute()
    }
}

/// Whether the members of a bitfield fit within its backing primitive.
pub open spec fn spec_bitfield_size_ok(b: BitfieldDefinitionView) -> bool {
    b.backing_type.spec_can_back_bitfield() && spec_bitfield_width(b.members)
        <= b.backing_type.spec_bit_width()
}

/// The first complaint about member `i` of a bitfield, in check order: a bit
/// slot shared with another member, a reserved bit slot, a name shared with
/// another member.
pub open spec fn spec_bitfield_member_issue(b: BitfieldDefinitionView, i: int) -> Option<
    RuneParserError,
> {
    if exists|j: int|
        0 <= j < b.members.len() && j != i && b.members[j].index == b.members[i].index {
        Some(RuneParserError::IndexCollision)
    } else if b.reserved_indexes.contains(b.members[i].index) {
        Some(RuneParserError::UseOfReservedIndex)
    } else if exists|j: int|
        0 <= j < b.members.len() && j != i && b.members[j].identifier == b.members[i].identifier {
        Some(RuneParserError::IdentifierCollision)
    } else {
        None
    }
}

/// The first complaint about a bitfield from member `i` onward; after the
/// members, the total width must fit the backing primitive.
pub open spec fn spec_bitfield_error_from(b: BitfieldDefinitionView, i: int) -> Option<
    RuneParserError,
>
    decreases b.members.len() - i,
{
    if i >= b.members.len() {
        if spec_bitfield_size_ok(b) {
            None
        } else {
            Some(RuneParserError::InvalidTotalBitfieldSize)
        }
    } else {
        match spec_bitfield_member_issue(b, i) {
            Some(e) => Some(e),
            None => spec_bitfield_error_from(b, i + 1),
        }
    }
}

/// The first complaint about a bitfield, and none when it is valid.
pub open spec fn spec_bitfield_error(b: BitfieldDefinitionView) -> Option<RuneParserError> {
    spec_bitfield_error_from(b, 0)
}

/// A bitfield is valid exactly when no two members share a bit slot, no two
/// members share a name, no member sits on a reserved bit slot, and the
/// total member width fits within the backing primitive.
pub open spec fn spec_bitfield_valid(b: BitfieldDefinitionView) -> bool {
    &&& forall|i: int, j: int|
        0 <= i < b.members.len() && 0 <= j < b.members.len() && i != j ==> b.members[i].index
            != b.members[j].index
    &&& forall|i: int|
        0 <= i < b.members.len() ==> !b.reserved_indexes.contains(b.members[i].index)
    &&& forall|i: int, j: int|
        0 <= i < b.members.len() && 0 <= j < b.members.len() && i != j ==> b.members[i].identifier
            != b.members[j].identifier
    &&& spec_bitfield_size_ok(b)
}

proof fn lemma_bitfield_error_from_none(b: BitfieldDefinitionView, i: int)
    requires
        0 <= i <= b.members.len(),
    ensures
        spec_bitfield_error_from(b, i) is None <==> ((forall|k: int|
            i <= k < b.members.len() ==> spec_bitfield_member_issue(b, k) is None)
            && spec_bitfield_size_ok(b)),
    decreases b.members.len() - i,
{
    if i < b.members.len() {
        lemma_bitfield_error_from_none(b, i + 1);
    }
}

/// A bitfield draws no complaint exactly when it is valid: flipping any one
/// of the four conditions of `spec_bitfield_valid` flips acceptance.
pub proof fn lemma_bitfield_acceptance(b: BitfieldDefinitionView)
    ensures
        spec_bitfield_error(b) is None <==> spec_bitfield_valid(b),
{
    lemma_bitfield_error_from_none(b, 0);
    if spec_bitfield_error(b) is None {
        assert forall|i: int, j: int|
            0 <= i < b.members.len() && 0 <= j < b.members.len() && i != j implies b.members[i].index
            != b.members[j].index by {
            assert(spec_bitfield_member_issue(b, i) is None);
        }
        assert forall|i: int| 0 <= i < b.members.len() implies !b.reserved_indexes.contains(
            b.members[i].index,
        ) by {
            assert(spec_bitfield_member_issue(b, i) is None);
        }
        assert forall|i: int, j: int|
            0 <= i < b.members.len() && 0 <= j < b.members.len() && i
                != j implies b.members[i].identifier != b.members[j].identifier by {
            assert(spec_bitfield_member_issue(b, i) is None);
        }
    }
}

/// The first complaint about any bitfield of the list, from `k` onward.
pub open spec fn spec_bitfield_list_error(bs: Seq<BitfieldDefinitionView>, k: int) -> Option<
    RuneParserError,
>
    decreases bs.len() - k,
{
    if k >= bs.len() {
        None
    } else {
        match spec_bitfield_error(bs[k]) {
            Some(e) => Some(e),
            None => spec_bitfield_list_error(bs, k + 1),
        }
    }
}

/// The first complaint about any bitfield of any file, from file `i` onward.
pub open spec fn spec_bitfield_files_error(files: Seq<RuneFileDescriptionView>, i: int) -> Option<
    RuneParserError,
>
    decreases files.len() - i,
{
    if i >= files.len() {
        None
    } else {
        match spec_bitfield_list_error(files[i].definitions.bitfields, 0) {
            Some(e) => Some(e),
            None => spec_bitfield_files_error(files, i + 1),
        }
    }
}

/// Validation of every bitfield in the file set, in declaration order.
pub open spec fn spec_validate_bitfields(files: Seq<RuneFileDescriptionView>) -> Result<
    (),
    RuneParserError,
> {
    match spec_bitfield_files_error(files, 0) {
        Some(e) => Err(e),
        None => Ok(()),
    }
}

/// Whether another member shares member `i`'s bit slot.
fn bitfield_index_duplicated(members: &Vec<BitfieldMember>, i: usize) -> (r: bool)
    requires
        i < members@.len(),
    ensures
        r == exists|j: int|
            0 <= j < members.deep_view().len() && j != i && members.deep_view()[j].index
                == members.deep_view()[i as int].index,
{
    let mut j: usize = 0;
    while j < members.len()
        invariant
            j <= members@.len(),
            i < members@.len(),
            forall|q: int|
                0 <= q < j && q != i ==> members.deep_view()[q].index != members.deep_view()[i as int].index,
        decreases members.len() - j,
    {
        if j != i && members[j].index == members[i].index {
            proof {
                assert(members.deep_view()[j as int].index == members.deep_view()[i as int].index);
            }
            return true;
        }
        j = j + 1;
    }
    false
}

/// Whether another member shares member `i`'s name.
fn bitfield_ident_duplicated(members: &Vec<BitfieldMember>, i: usize) -> (r: bool)
    requires
        i < members@.len(),
    ensures
        r == exists|j: int|
            0 <= j < members.deep_view().len() && j != i && members.deep_view()[j].identifier
                == members.deep_view()[i as int].identifier,
{
    let mut j: usize = 0;
    while j < members.len()
        invariant
            j <= members@.len(),
            i < members@.len(),
            forall|q: int|
                0 <= q < j && q != i ==> members.deep_view()[q].identifier != members.deep_view()[i as int].identifier,
        decreases members.len() - j,
    {
        if j != i && members[j].identifier == members[i].identifier {
            proof {
                assert(members.deep_view()[j as int].identifier == members.deep_view()[i as int].identifier);
            }
            return true;
        }
        j = j + 1;
    }
    false
}

/// Whether the list holds the value.
fn u64s_contain(list: &Vec<u64>, value: u64) -> (r: bool)
    ensures
        r == list@.contains(value),
{
    let mut j: usize = 0;
    while j < list.len()
        invariant
            j <= list@.len(),
            forall|q: int| 0 <= q < j ==> list@[q] != value,
        decreases list.len() - j,
    {
        if list[j] == value {
            return true;
        }
        j = j + 1;
    }
    proof {
        assert(!list@.contains(value));
    }
    false
}

/// The first complaint about one bitfield declaration.
fn check_bitfield(b: &crate::bitfields::BitfieldDefinition) -> (r: Option<RuneParserError>)
    ensures
        r == spec_bitfield_error(b@),
{
    let ghost bv = b@;
    let mut total_size: u64 = 0;
    let mut overflowed: bool = false;
    let mut i: usize = 0;
    proof {
        assert(bv.members.take(0) =~= Seq::<crate::bitfields::BitfieldMemberView>::empty());
    }
    while i < b.members.len()
        invariant
            i <= b.members@.len(),
            bv == b@,
            bv.members.len() == b.members@.len(),
            !overflowed ==> total_size as int == spec_bitfield_width(bv.members.take(i as int)),
            overflowed ==> spec_bitfield_width(bv.members.take(i as int)) > u64::MAX,
            spec_bitfield_error_from(bv, 0) == spec_bitfield_error_from(bv, i as int),
        decreases b.members.len() - i,
    {
        proof {
            assert(bv.members[i as int] == b.members@[i as int]@);
        }
        if bitfield_index_duplicated(&b.members, i) {
            proof {
                assert(spec_bitfield_member_issue(bv, i as int) == Some(
                    RuneParserError::IndexCollision,
                ));
            }
            return Some(RuneParserError::IndexCollision);
        }
        if u64s_contain(&b.reserved_indexes, b.members[i].index) {
            proof {
                assert(spec_bitfield_member_issue(bv, i as int) == Some(
                    RuneParserError::UseOfReservedIndex,
                ));
            }
            return Some(RuneParserError::UseOfReservedIndex);
        }
        if bitfield_ident_duplicated(&b.members, i) {
            proof {
                assert(spec_bitfield_member_issue(bv, i as int) == Some(
                    RuneParserError::IdentifierCollision,
                ));
            }
            return Some(RuneParserError::IdentifierCollision);
        }
        proof {
            assert(spec_bitfield_member_issue(bv, i as int) is None);
        }
        let width = b.members[i].size.absolute();
        match total_size.checked_add(width) {
            Some(v) => {
                if !overflowed {
                    total_size = v;
                }
            },
            None => {
                overflowed = true;
            },
        }
        i = i + 1;
        proof {
            assert(bv.members.take(i as int).drop_last() =~= bv.members.take(i - 1));
            assert(bv.members.take(i as int).last() == bv.members[i - 1]);
        }
    }
    proof {
        assert(bv.members.take(b.members@.len() as int) =~= bv.members);
    }
    let fits = if overflowed {
        false
    } else {
        b.backing_type.validate_bitfield_size(&total_size)
    };
    if fits {
        None
    } else {
        Some(RuneParserError::InvalidTotalBitfieldSize)
    }
}

/// Checks every bitfield of every file: no duplicate bit slot or name, no
/// member on a reserved slot, and a total width that fits the backing
/// primitive.  The first violation, in file and declaration order, decides
/// the error.
pub fn validate_bitfields(files: &Vec<RuneFileDescription>) -> (r: Result<(), RuneParserError>)
    ensures
        r == spec_validate_bitfields(files.deep_view()),
{
    let ghost files_view = files.deep_view();
    let mut i: usize = 0;
    while i < files.len()
        invariant
            i <= files@.len(),
            files_view == files.deep_view(),
            files_view.len() == files@.len(),
            spec_bitfield_files_error(files_view, 0) == spec_bitfield_files_error(
                files_view,
                i as int,
            ),
        decreases files.len() - i,
    {
        let file = &files[i];
        let ghost bs = files_view[i as int].definitions.bitfields;
        proof {
            assert(files_view[i as int] == files@[i as int]@);
        }
        let mut k: usize = 0;
        while k < file.definitions.bitfields.len()
            invariant
                k <= file.definitions.bitfields@.len(),
                bs == file@.definitions.bitfields,
                bs.len() == file.definitions.bitfields@.len(),
                bs == file.definitions.bitfields.deep_view(),
                spec_bitfield_list_error(bs, 0) == spec_bitfield_list_error(bs, k as int),
                files_view == files.deep_view(),
                i < files_view.len(),
                bs == files_view[i as int].definitions.bitfields,
                spec_bitfield_files_error(files_view, 0) == spec_bitfield_files_error(
                    files_view,
                    i as int,
                ),
            decreases file.definitions.bitfields.len() - k,
        {
            proof {
                assert(bs[k as int] == file.definitions.bitfields@[k as int]@);
            }
            match check_bitfield(&file.definitions.bitfields[k]) {
                Some(e) => {
                    proof {
                        assert(spec_bitfield_list_error(bs, k as int) == Some(e));
                        assert(spec_bitfield_files_error(files_view, i as int) == Some(e));
                    }
                    return Err(e);
                },
                None => {},
            }
            k = k + 1;
        }
        i = i + 1;
    }
    Ok(())
}


// Enum validation
// ----------------

/// Whether the list of reserved values holds one numerically equal to the
/// value.
pub open spec fn spec_reserved_value_hit(reserved: Seq<NumericLiteral>, v: NumericLiteral) -> bool {
    exists|i: int| 0 <= i < reserved.len() && spec_numeric_eq(reserved[i], v)
}

/// The first complaint about member `i` of an enum, in check order: a value
/// another member also carries (numerically, across literal forms), a
/// reserved value, a name another member also carries, a value outside the
/// backing primitive's domain.
pub open spec fn spec_enum_member_issue(e: EnumDefinitionView, i: int) -> Option<RuneParserError> {
    if exists|j: int|
        0 <= j < e.members.len() && j != i && spec_numeric_eq(e.members[j].value, e.members[i].value) {
        Some(RuneParserError::ValueCollision)
    } else if spec_reserved_value_hit(e.reserved_values, e.members[i].value) {
        Some(RuneParserError::UseOfReservedIndex)
    } else if exists|j: int|
        0 <= j < e.members.len() && j != i && e.members[j].identifier == e.members[i].identifier {
        Some(RuneParserError::IdentifierCollision)
    } else if !e.backing_type.spec_value_in_domain(e.members[i].value) {
        Some(RuneParserError::InvalidNumericValue)
    } else {
        None
    }
}

/// The first complaint about an enum from member `i` onward.
pub open spec fn spec_enum_error_from(e: EnumDefinitionView, i: int) -> Option<RuneParserError>
    decreases e.members.len() - i,
{
    if i >= e.members.len() {
        None
    } else {
        match spec_enum_member_issue(e, i) {
            Some(err) => Some(err),
            None => spec_enum_error_from(e, i + 1),
        }
    }
}

/// The first complaint about an enum, and none when it is valid.
pub open spec fn spec_enum_error(e: EnumDefinitionView) -> Option<RuneParserError> {
    spec_enum_error_from(e, 0)
}

/// An enum is valid exactly when no two members carry the same numeric
/// value, no member carries a reserved value, no two members share a name,
/// and every member value lies in the backing primitive's domain.
pub open spec fn spec_enum_valid(e: EnumDefinitionView) -> bool {
    &&& forall|i: int, j: int|
        0 <= i < e.members.len() && 0 <= j < e.members.len() && i != j ==> !spec_numeric_eq(
            e.members[i].value,
            e.members[j].value,
        )
    &&& forall|i: int|
        0 <= i < e.members.len() ==> !spec_reserved_value_hit(e.reserved_values, e.members[i].value)
    &&& forall|i: int, j: int|
        0 <= i < e.members.len() && 0 <= j < e.members.len() && i != j ==> e.members[i].identifier
            != e.members[j].identifier
    &&& forall|i: int|
        0 <= i < e.members.len() ==> e.backing_type.spec_value_in_domain(e.members[i].value)
}

proof fn lemma_enum_error_from_none(e: EnumDefinitionView, i: int)
    requires
        0 <= i <= e.members.len(),
    ensures
        spec_enum_error_from(e, i) is None <==> (forall|k: int|
            i <= k < e.members.len() ==> spec_enum_member_issue(e, k) is None),
    decreases e.members.len() - i,
{
    if i < e.members.len() {
        lemma_enum_error_from_none(e, i + 1);
    }
}

/// An enum draws no complaint exactly when it is valid.  Numeric equality is
/// symmetric across variants, so a collision is found whichever member is
/// scanned first.
pub proof fn lemma_enum_acceptance(e: EnumDefinitionView)
    ensures
        spec_enum_error(e) is None <==> spec_enum_valid(e),
{
    lemma_enum_error_from_none(e, 0);
    if spec_enum_error(e) is None {
        assert forall|i: int, j: int|
            0 <= i < e.members.len() && 0 <= j < e.members.len() && i != j implies !spec_numeric_eq(
            e.members[i].value,
            e.members[j].value,
        ) by {
            assert(spec_enum_member_issue(e, i) is None);
        }
        assert forall|i: int| 0 <= i < e.members.len() implies !spec_reserved_value_hit(
            e.reserved_values,
            e.members[i].value,
        ) && e.backing_type.spec_value_in_domain(e.members[i].value) by {
            assert(spec_enum_member_issue(e, i) is None);
        }
        assert forall|i: int, j: int|
            0 <= i < e.members.len() && 0 <= j < e.members.len() && i
                != j implies e.members[i].identifier != e.members[j].identifier by {
            assert(spec_enum_member_issue(e, i) is None);
        }
    }
}

/// The first complaint about any enum of the list, from `k` onward.
pub open spec fn spec_enum_list_error(es: Seq<EnumDefinitionView>, k: int) -> Option<
    RuneParserError,
>
    decreases es.len() - k,
{
    if k >= es.len() {
        None
    } else {
        match spec_enum_error(es[k]) {
            Some(e) => Some(e),
            None => spec_enum_list_error(es, k + 1),
        }
    }
}

/// The first complaint about any enum of any file, from file `i` onward.
pub open spec fn spec_enum_files_error(files: Seq<RuneFileDescriptionView>, i: int) -> Option<
    RuneParserError,
>
    decreases files.len() - i,
{
    if i >= files.len() {
        None
    } else {
        match spec_enum_list_error(files[i].definitions.enums, 0) {
            Some(e) => Some(e),
            None => spec_enum_files_error(files, i + 1),
        }
    }
}

/// Validation of every enum in the file set, in declaration order.
pub open spec fn spec_validate_enums(files: Seq<RuneFileDescriptionView>) -> Result<
    (),
    RuneParserError,
> {
    match spec_enum_files_error(files, 0) {
        Some(e) => Err(e),
        None => Ok(()),
    }
}

/// Whether another member carries a value numerically equal to member `i`'s.
fn enum_value_duplicated(members: &Vec<EnumMember>, i: usize) -> (r: bool)
    requires
        i < members@.len(),
    ensures
        r == exists|j: int|
            0 <= j < members.deep_view().len() && j != i && spec_numeric_eq(
                members.deep_view()[j].value,
                members.deep_view()[i as int].value,
            ),
{
    let mut j: usize = 0;
    while j < members.len()
        invariant
            j <= members@.len(),
            i < members@.len(),
            forall|q: int|
                0 <= q < j && q != i ==> !spec_numeric_eq(
                    members.deep_view()[q].value,
                    members.deep_view()[i as int].value,
                ),
        decreases members.len() - j,
    {
        if j != i && members[j].value == members[i].value {
            proof {
                assert(spec_numeric_eq(
                    members.deep_view()[j as int].value,
                    members.deep_view()[i as int].value,
                ));
            }
            return true;
        }
        j = j + 1;
    }
    false
}

/// Whether a reserved value is numerically equal to the value.
fn reserved_value_hit(reserved: &Vec<NumericLiteral>, value: &NumericLiteral) -> (r: bool)
    ensures
        r == spec_reserved_value_hit(reserved@, *value),
{
    let mut j: usize = 0;
    while j < reserved.len()
        invariant
            j <= reserved@.len(),
            forall|q: int| 0 <= q < j ==> !spec_numeric_eq(reserved@[q], *value),
        decreases reserved.len() - j,
    {
        if reserved[j] == *value {
            return true;
        }
        j = j + 1;
    }
    false
}

/// Whether another member shares member `i`'s name.
fn enum_ident_duplicated(members: &Vec<EnumMember>, i: usize) -> (r: bool)
    requires
        i < members@.len(),
    ensures
        r == exists|j: int|
            0 <= j < members.deep_view().len() && j != i && members.deep_view()[j].identifier
                == members.deep_view()[i as int].identifier,
{
    let mut j: usize = 0;
    while j < members.len()
        invariant
            j <= members@.len(),
            i < members@.len(),
            forall|q: int|
                0 <= q < j && q != i ==> members.deep_view()[q].identifier != members.deep_view()[i as int].identifier,
        decreases members.len() - j,
    {
        if j != i && members[j].identifier == members[i].identifier {
            proof {
                assert(members.deep_view()[j as int].identifier == members.deep_view()[i as int].identifier);
            }
            return true;
        }
        j = j + 1;
    }
    false
}

/// The first complaint about one enum declaration.
fn check_enum(e: &crate::enums::EnumDefinition) -> (r: Option<RuneParserError>)
    ensures
        r == spec_enum_error(e@),
{
    let ghost ev = e@;
    let mut i: usize = 0;
    while i < e.members.len()
        invariant
            i <= e.members@.len(),
            ev == e@,
            ev.members.len() == e.members@.len(),
            spec_enum_error_from(ev, 0) == spec_enum_error_from(ev, i as int),
        decreases e.members.len() - i,
    {
        proof {
            assert(ev.members[i as int] == e.members@[i as int]@);
        }
        if enum_value_duplicated(&e.members, i) {
            proof {
                assert(spec_enum_member_issue(ev, i as int) == Some(
                    RuneParserError::ValueCollision,
                ));
            }
            return Some(RuneParserError::ValueCollision);
        }
        if reserved_value_hit(&e.reserved_values, &e.members[i].value) {
            proof {
                assert(spec_enum_member_issue(ev, i as int) == Some(
                    RuneParserError::UseOfReservedIndex,
                ));
            }
            return Some(RuneParserError::UseOfReservedIndex);
        }
        if enum_ident_duplicated(&e.members, i) {
            proof {
                assert(spec_enum_member_issue(ev, i as int) == Some(
                    RuneParserError::IdentifierCollision,
                ));
            }
            return Some(RuneParserError::IdentifierCollision);
        }
        if !e.backing_type.validate_value(&e.members[i].value) {
            proof {
                assert(spec_enum_member_issue(ev, i as int) == Some(
                    RuneParserError::InvalidNumericValue,
                ));
            }
            return Some(RuneParserError::InvalidNumericValue);
        }
        proof {
            assert(spec_enum_member_issue(ev, i as int) is None);
        }
        i = i + 1;
    }
    None
}

/// Checks every enum of every file: no duplicate value (numerically, across
/// literal forms) or name, no member on a reserved value, and every value
/// within the backing primitive's domain.  The first violation, in file and
/// declaration order, decides the error.
pub fn validate_enums(files: &Vec<RuneFileDescription>) -> (r: Result<(), RuneParserError>)
    ensures
        r == spec_validate_enums(files.deep_view()),
{
    let ghost files_view = files.deep_view();
    let mut i: usize = 0;
    while i < files.len()
        invariant
            i <= files@.len(),
            files_view == files.deep_view(),
            files_view.len() == files@.len(),
            spec_enum_files_error(files_view, 0) == spec_enum_files_error(files_view, i as int),
        decreases files.len() - i,
    {
        let file = &files[i];
        let ghost es = files_view[i as int].definitions.enums;
        proof {
            assert(files_view[i as int] == files@[i as int]@);
        }
        let mut k: usize = 0;
        while k < file.definitions.enums.len()
            invariant
                k <= file.definitions.enums@.len(),
                es == file@.definitions.enums,
                es.len() == file.definitions.enums@.len(),
                es == file.definitions.enums.deep_view(),
                spec_enum_list_error(es, 0) == spec_enum_list_error(es, k as int),
                files_view == files.deep_view(),
                i < files_view.len(),
                es == files_view[i as int].definitions.enums,
                spec_enum_files_error(files_view, 0) == spec_enum_files_error(files_view, i as int),
            decreases file.definitions.enums.len() - k,
        {
            proof {
                assert(es[k as int] == file.definitions.enums@[k as int]@);
            }
            match check_enum(&file.definitions.enums[k]) {
                Some(e) => {
                    proof {
                        assert(spec_enum_list_error(es, k as int) == Some(e));
                        assert(spec_enum_files_error(files_view, i as int) == Some(e));
                    }
                    return Err(e);
                },
                None => {},
            }
            k = k + 1;
        }
        i = i + 1;
    }
    Ok(())
}


// Message validation
// -------------------

/// How many fields of the list sit at the verifier alias.
pub open spec fn spec_verifier_count(fs: Seq<crate::messages::MessageFieldView>) -> int
    decreases fs,
{
    if fs.len() == 0 {
        0int
    } else {
        spec_verifier_count(fs.drop_last()) + if fs.last().index.spec_is_verifier() {
            1int
        } else {
            0int
        }
    }
}

/// Whether the list of reserved positions holds one denoting the index.
pub open spec fn spec_reserved_index_hit(reserved: Seq<FieldIndex>, value: u64) -> bool {
    exists|i: int| 0 <= i < reserved.len() && reserved[i].spec_value() == value
}

/// The first complaint about field `i` of a message, in check order: an
/// index another field also denotes (the verifier alias and an explicit
/// index 0 collide), a reserved index, a name another field also carries.
pub open spec fn spec_message_field_issue(m: MessageDefinitionView, i: int) -> Option<
    RuneParserError,
> {
    if exists|j: int|
        0 <= j < m.fields.len() && j != i && m.fields[j].index.spec_value()
            == m.fields[i].index.spec_value() {
        Some(RuneParserError::IndexCollision)
    } else if spec_reserved_index_hit(m.reserved_indexes, m.fields[i].index.spec_value()) {
        Some(RuneParserError::UseOfReservedIndex)
    } else if exists|j: int|
        0 <= j < m.fields.len() && j != i && m.fields[j].identifier == m.fields[i].identifier {
        Some(RuneParserError::IdentifierCollision)
    } else {
        None
    }
}

/// The first complaint about a message from field `i` onward.
pub open spec fn spec_message_error_from(m: MessageDefinitionView, i: int) -> Option<
    RuneParserError,
>
    decreases m.fields.len() - i,
{
    if i >= m.fields.len() {
        None
    } else {
        match spec_message_field_issue(m, i) {
            Some(e) => Some(e),
            None => spec_message_error_from(m, i + 1),
        }
    }
}

/// The first complaint about a message: more than one verifier field is an
/// index collision outright, then each field is checked in order.
pub open spec fn spec_message_error(m: MessageDefinitionView) -> Option<RuneParserError> {
    if spec_verifier_count(m.fields) > 1 {
        Some(RuneParserError::IndexCollision)
    } else {
        spec_message_error_from(m, 0)
    }
}

/// The first complaint about any message of the list, from `k` onward.
pub open spec fn spec_message_list_error(ms: Seq<MessageDefinitionView>, k: int) -> Option<
    RuneParserError,
>
    decreases ms.len() - k,
{
    if k >= ms.len() {
        None
    } else {
        match spec_message_error(ms[k]) {
            Some(e) => Some(e),
            None => spec_message_list_error(ms, k + 1),
        }
    }
}

/// The first complaint about any message of any file, from file `i` onward.
pub open spec fn spec_message_files_error(files: Seq<RuneFileDescriptionView>, i: int) -> Option<
    RuneParserError,
>
    decreases files.len() - i,
{
    if i >= files.len() {
        None
    } else {
        match spec_message_list_error(files[i].definitions.messages, 0) {
            Some(e) => Some(e),
            None => spec_message_files_error(files, i + 1),
        }
    }
}

/// Validation of every message in the file set, in declaration order.
pub open spec fn spec_validate_messages(files: Seq<RuneFileDescriptionView>) -> Result<
    (),
    RuneParserError,
> {
    match spec_message_files_error(files, 0) {
        Some(e) => Err(e),
        None => Ok(()),
    }
}

/// Counts the fields sitting at the verifier alias.
fn count_verifier_fields(fields: &Vec<MessageField>) -> (r: usize)
    ensures
        r as int == spec_verifier_count(view_message_fields(fields@)),
{
    let ghost fields_view = view_message_fields(fields@);
    proof {
        broadcast use lemma_view_message_fields;

        assert(fields_view.take(0) =~= Seq::<crate::messages::MessageFieldView>::empty());
    }
    let mut count: usize = 0;
    let mut i: usize = 0;
    while i < fields.len()
        invariant
            i <= fields@.len(),
            count <= i,
            fields_view == view_message_fields(fields@),
            fields_view.len() == fields@.len(),
            forall|q: int|
                0 <= q < fields@.len() ==> fields_view[q] == crate::messages::view_message_field(
                    fields@[q],
                ),
            count as int == spec_verifier_count(fields_view.take(i as int)),
        decreases fields.len() - i,
    {
        if fields[i].index.is_verifier() {
            count = count + 1;
        }
        proof {
            assert(fields_view.take(i + 1).drop_last() =~= fields_view.take(i as int));
            assert(fields_view.take(i + 1).last() == fields_view[i as int]);
        }
        i = i + 1;
    }
    proof {
        assert(fields_view.take(fields@.len() as int) =~= fields_view);
    }
    count
}

/// Whether another field denotes the same numeric index as field `i`.
fn message_index_duplicated(fields: &Vec<MessageField>, i: usize) -> (r: bool)
    requires
        i < fields@.len(),
    ensures
        r == exists|j: int|
            0 <= j < view_message_fields(fields@).len() && j != i && view_message_fields(
                fields@,
            )[j].index.spec_value() == view_message_fields(fields@)[i as int].index.spec_value(),
{
    let ghost fields_view = view_message_fields(fields@);
    proof {
        broadcast use lemma_view_message_fields;

    }
    let value = fields[i].index.value();
    let mut j: usize = 0;
    while j < fields.len()
        invariant
            j <= fields@.len(),
            i < fields@.len(),
            fields_view == view_message_fields(fields@),
            fields_view.len() == fields@.len(),
            forall|q: int|
                0 <= q < fields@.len() ==> fields_view[q] == crate::messages::view_message_field(
                    fields@[q],
                ),
            value == fields_view[i as int].index.spec_value(),
            forall|q: int|
                0 <= q < j && q != i ==> fields_view[q].index.spec_value() != fields_view[i as int].index.spec_value(),
        decreases fields.len() - j,
    {
        if j != i && fields[j].index.value() == value {
            proof {
                assert(fields_view[j as int].index == fields@[j as int].index);
            }
            return true;
        }
        j = j + 1;
    }
    false
}

/// Whether a reserved position denotes the index.
fn message_reserved_hit(reserved: &Vec<FieldIndex>, value: u64) -> (r: bool)
    ensures
        r == spec_reserved_index_hit(reserved@, value),
{
    let mut j: usize = 0;
    while j < reserved.len()
        invariant
            j <= reserved@.len(),
            forall|q: int| 0 <= q < j ==> reserved@[q].spec_value() != value,
        decreases reserved.len() - j,
    {
        if reserved[j].value() == value {
            return true;
        }
        j = j + 1;
    }
    false
}

/// Whether another field shares field `i`'s name.
fn message_ident_duplicated(fields: &Vec<MessageField>, i: usize) -> (r: bool)
    requires
        i < fields@.len(),
    ensures
        r == exists|j: int|
            0 <= j < view_message_fields(fields@).len() && j != i && view_message_fields(
                fields@,
            )[j].identifier == view_message_fields(fields@)[i as int].identifier,
{
    let ghost fields_view = view_message_fields(fields@);
    proof {
        broadcast use lemma_view_message_fields;

    }
    let mut j: usize = 0;
    while j < fields.len()
        invariant
            j <= fields@.len(),
            i < fields@.len(),
            fields_view == view_message_fields(fields@),
            fields_view.len() == fields@.len(),
            forall|q: int|
                0 <= q < fields@.len() ==> fields_view[q] == crate::messages::view_message_field(
                    fields@[q],
                ),
            forall|q: int|
                0 <= q < j && q != i ==> fields_view[q].identifier != fields_view[i as int].identifier,
        decreases fields.len() - j,
    {
        if j != i && fields[j].identifier == fields[i].identifier {
            proof {
                assert(fields_view[j as int].identifier == fields_view[i as int].identifier);
            }
            return true;
        }
        j = j + 1;
    }
    false
}

/// The first complaint about one message declaration.
fn check_message(m: &crate::messages::MessageDefinition) -> (r: Option<RuneParserError>)
    ensures
        r == spec_message_error(m@),
{
    let ghost mv = m@;
    proof {
        broadcast use lemma_view_message_fields;

    }
    if count_verifier_fields(&m.fields) > 1 {
        return Some(RuneParserError::IndexCollision);
    }
    let mut i: usize = 0;
    while i < m.fields.len()
        invariant
            i <= m.fields@.len(),
            mv == m@,
            mv.fields == view_message_fields(m.fields@),
            mv.fields.len() == m.fields@.len(),
            spec_verifier_count(mv.fields) <= 1,
            spec_message_error_from(mv, 0) == spec_message_error_from(mv, i as int),
        decreases m.fields.len() - i,
    {
        proof {
            broadcast use lemma_view_message_fields;

        }
        if message_index_duplicated(&m.fields, i) {
            proof {
                assert(spec_message_field_issue(mv, i as int) == Some(
                    RuneParserError::IndexCollision,
                ));
            }
            return Some(RuneParserError::IndexCollision);
        }
        if message_reserved_hit(&m.reserved_indexes, m.fields[i].index.value()) {
            proof {
                assert(crate::messages::view_message_field(m.fields@[i as int]).index
                    == m.fields@[i as int].index);
                assert(spec_message_field_issue(mv, i as int) == Some(
                    RuneParserError::UseOfReservedIndex,
                ));
            }
            return Some(RuneParserError::UseOfReservedIndex);
        }
        if message_ident_duplicated(&m.fields, i) {
            proof {
                assert(spec_message_field_issue(mv, i as int) == Some(
                    RuneParserError::IdentifierCollision,
                ));
            }
            return Some(RuneParserError::IdentifierCollision);
        }
        proof {
            assert(spec_message_field_issue(mv, i as int) is None);
        }
        i = i + 1;
    }
    None
}

/// Checks every message of every file: at most one verifier field, no
/// duplicate index (the verifier alias collides with an explicit index 0),
/// no field on a reserved index, no duplicate name.  The first violation, in
/// file and declaration order, decides the error.
pub fn validate_messages(files: &Vec<RuneFileDescription>) -> (r: Result<(), RuneParserError>)
    ensures
        r == spec_validate_messages(files.deep_view()),
{
    let ghost files_view = files.deep_view();
    let mut i: usize = 0;
    while i < files.len()
        invariant
            i <= files@.len(),
            files_view == files.deep_view(),
            files_view.len() == files@.len(),
            spec_message_files_error(files_view, 0) == spec_message_files_error(
                files_view,
                i as int,
            ),
        decreases files.len() - i,
    {
        let file = &files[i];
        let ghost ms = files_view[i as int].definitions.messages;
        proof {
            assert(files_view[i as int] == files@[i as int]@);
        }
        let mut k: usize = 0;
        while k < file.definitions.messages.len()
            invariant
                k <= file.definitions.messages@.len(),
                ms == file@.definitions.messages,
                ms.len() == file.definitions.messages@.len(),
                ms == file.definitions.messages.deep_view(),
                spec_message_list_error(ms, 0) == spec_message_list_error(ms, k as int),
                files_view == files.deep_view(),
                i < files_view.len(),
                ms == files_view[i as int].definitions.messages,
                spec_message_files_error(files_view, 0) == spec_message_files_error(
                    files_view,
                    i as int,
                ),
            decreases file.definitions.messages.len() - k,
        {
            proof {
                assert(ms[k as int] == file.definitions.messages@[k as int]@);
            }
            match check_message(&file.definitions.messages[k]) {
                Some(e) => {
                    proof {
                        assert(spec_message_list_error(ms, k as int) == Some(e));
                        assert(spec_message_files_error(files_view, i as int) == Some(e));
                    }
                    return Err(e);
                },
                None => {},
            }
            k = k + 1;
        }
        i = i + 1;
    }
    Ok(())
}


// Struct validation
// ------------------

/// How many members of the list sit at the verifier alias.
pub open spec fn spec_member_verifier_count(ms: Seq<crate::structs::StructMemberView>) -> int
    decreases ms,
{
    if ms.len() == 0 {
        0int
    } else {
        spec_member_verifier_count(ms.drop_last()) + if ms.last().index.spec_is_verifier() {
            1int
        } else {
            0int
        }
    }
}

/// The first complaint about member `i` of a struct, in check order: an
/// index another member also denotes (the verifier alias and an explicit
/// index 0 collide), a reserved index, a name another member also carries.
pub open spec fn spec_struct_member_issue(s: StructDefinitionView, i: int) -> Option<
    RuneParserError,
> {
    if exists|j: int|
        0 <= j < s.members.len() && j != i && s.members[j].index.spec_value()
            == s.members[i].index.spec_value() {
        Some(RuneParserError::IndexCollision)
    } else if s.reserved_indexes.contains(s.members[i].index.spec_value()) {
        Some(RuneParserError::UseOfReservedIndex)
    } else if exists|j: int|
        0 <= j < s.members.len() && j != i && s.members[j].identifier == s.members[i].identifier {
        Some(RuneParserError::IdentifierCollision)
    } else {
        None
    }
}

/// The first complaint about a struct from member `i` onward.
pub open spec fn spec_struct_error_from(s: StructDefinitionView, i: int) -> Option<RuneParserError>
    decreases s.members.len() - i,
{
    if i >= s.members.len() {
        None
    } else {
        match spec_struct_member_issue(s, i) {
            Some(e) => Some(e),
            None => spec_struct_error_from(s, i + 1),
        }
    }
}

/// The first complaint about a struct: more than one verifier member is an
/// index collision outright, then each member is checked in order.
pub open spec fn spec_struct_error(s: StructDefinitionView) -> Option<RuneParserError> {
    if spec_member_verifier_count(s.members) > 1 {
        Some(RuneParserError::IndexCollision)
    } else {
        spec_struct_error_from(s, 0)
    }
}

/// The first complaint about any struct of the list, from `k` onward.
pub open spec fn spec_struct_list_error(ss: Seq<StructDefinitionView>, k: int) -> Option<
    RuneParserError,
>
    decreases ss.len() - k,
{
    if k >= ss.len() {
        None
    } else {
        match spec_struct_error(ss[k]) {
            Some(e) => Some(e),
            None => spec_struct_list_error(ss, k + 1),
        }
    }
}

/// The first complaint about any struct of any file, from file `i` onward.
pub open spec fn spec_struct_files_error(files: Seq<RuneFileDescriptionView>, i: int) -> Option<
    RuneParserError,
>
    decreases files.len() - i,
{
    if i >= files.len() {
        None
    } else {
        match spec_struct_list_error(files[i].definitions.structs, 0) {
            Some(e) => Some(e),
            None => spec_struct_files_error(files, i + 1),
        }
    }
}

/// Validation of every struct in the file set, in declaration order.
pub open spec fn spec_validate_structs(files: Seq<RuneFileDescriptionView>) -> Result<
    (),
    RuneParserError,
> {
    match spec_struct_files_error(files, 0) {
        Some(e) => Err(e),
        None => Ok(()),
    }
}

/// Counts the members sitting at the verifier alias.
fn count_verifier_members(members: &Vec<StructMember>) -> (r: usize)
    ensures
        r as int == spec_member_verifier_count(view_struct_members(members@)),
{
    let ghost members_view = view_struct_members(members@);
    proof {
        broadcast use lemma_view_struct_members;

        assert(members_view.take(0) =~= Seq::<crate::structs::StructMemberView>::empty());
    }
    let mut count: usize = 0;
    let mut i: usize = 0;
    while i < members.len()
        invariant
            i <= members@.len(),
            count <= i,
            members_view == view_struct_members(members@),
            members_view.len() == members@.len(),
            forall|q: int|
                0 <= q < members@.len() ==> members_view[q] == crate::structs::view_struct_member(
                    members@[q],
                ),
            count as int == spec_member_verifier_count(members_view.take(i as int)),
        decreases members.len() - i,
    {
        if members[i].index.is_verifier() {
            count = count + 1;
        }
        proof {
            assert(members_view.take(i + 1).drop_last() =~= members_view.take(i as int));
            assert(members_view.take(i + 1).last() == members_view[i as int]);
        }
        i = i + 1;
    }
    proof {
        assert(members_view.take(members@.len() as int) =~= members_view);
    }
    count
}

/// Whether another member denotes the same numeric index as member `i`.
fn struct_index_duplicated(members: &Vec<StructMember>, i: usize) -> (r: bool)
    requires
        i < members@.len(),
    ensures
        r == exists|j: int|
            0 <= j < view_struct_members(members@).len() && j != i && view_struct_members(
                members@,
            )[j].index.spec_value() == view_struct_members(members@)[i as int].index.spec_value(),
{
    let ghost members_view = view_struct_members(members@);
    proof {
        broadcast use lemma_view_struct_members;

    }
    let value = members[i].index.value();
    let mut j: usize = 0;
    while j < members.len()
        invariant
            j <= members@.len(),
            i < members@.len(),
            members_view == view_struct_members(members@),
            members_view.len() == members@.len(),
            forall|q: int|
                0 <= q < members@.len() ==> members_view[q] == crate::structs::view_struct_member(
                    members@[q],
                ),
            value == members_view[i as int].index.spec_value(),
            forall|q: int|
                0 <= q < j && q != i ==> members_view[q].index.spec_value() != members_view[i as int].index.spec_value(),
        decreases members.len() - j,
    {
        if j != i && members[j].index.value() == value {
            proof {
                assert(members_view[j as int].index == members@[j as int].index);
            }
            return true;
        }
        j = j + 1;
    }
    false
}

/// Whether another member shares member `i`'s name.
fn struct_ident_duplicated(members: &Vec<StructMember>, i: usize) -> (r: bool)
    requires
        i < members@.len(),
    ensures
        r == exists|j: int|
            0 <= j < view_struct_members(members@).len() && j != i && view_struct_members(
                members@,
            )[j].identifier == view_struct_members(members@)[i as int].identifier,
{
    let ghost members_view = view_struct_members(members@);
    proof {
        broadcast use lemma_view_struct_members;

    }
    let mut j: usize = 0;
    while j < members.len()
        invariant
            j <= members@.len(),
            i < members@.len(),
            members_view == view_struct_members(members@),
            members_view.len() == members@.len(),
            forall|q: int|
                0 <= q < members@.len() ==> members_view[q] == crate::structs::view_struct_member(
                    members@[q],
                ),
            forall|q: int|
                0 <= q < j && q != i ==> members_view[q].identifier != members_view[i as int].identifier,
        decreases members.len() - j,
    {
        if j != i && members[j].identifier == members[i].identifier {
            proof {
                assert(members_view[j as int].identifier == members_view[i as int].identifier);
            }
            return true;
        }
        j = j + 1;
    }
    false
}

/// The first complaint about one struct declaration.
fn check_struct(s: &crate::structs::StructDefinition) -> (r: Option<RuneParserError>)
    ensures
        r == spec_struct_error(s@),
{
    let ghost sv = s@;
    proof {
        broadcast use lemma_view_struct_members;

    }
    if count_verifier_members(&s.members) > 1 {
        return Some(RuneParserError::IndexCollision);
    }
    let mut i: usize = 0;
    while i < s.members.len()
        invariant
            i <= s.members@.len(),
            sv == s@,
            sv.members == view_struct_members(s.members@),
            sv.members.len() == s.members@.len(),
            spec_member_verifier_count(sv.members) <= 1,
            spec_struct_error_from(sv, 0) == spec_struct_error_from(sv, i as int),
        decreases s.members.len() - i,
    {
        proof {
            broadcast use lemma_view_struct_members;

        }
        if struct_index_duplicated(&s.members, i) {
            proof {
                assert(spec_struct_member_issue(sv, i as int) == Some(
                    RuneParserError::IndexCollision,
                ));
            }
            return Some(RuneParserError::IndexCollision);
        }
        if u64s_contain(&s.reserved_indexes, s.members[i].index.value()) {
            proof {
                assert(crate::structs::view_struct_member(s.members@[i as int]).index
                    == s.members@[i as int].index);
                assert(spec_struct_member_issue(sv, i as int) == Some(
                    RuneParserError::UseOfReservedIndex,
                ));
            }
            return Some(RuneParserError::UseOfReservedIndex);
        }
        if struct_ident_duplicated(&s.members, i) {
            proof {
                assert(spec_struct_member_issue(sv, i as int) == Some(
                    RuneParserError::IdentifierCollision,
                ));
            }
            return Some(RuneParserError::IdentifierCollision);
        }
        proof {
            assert(spec_struct_member_issue(sv, i as int) is None);
        }
        i = i + 1;
    }
    None
}

/// Checks every struct of every file: at most one verifier member, no
/// duplicate index (the verifier alias collides with an explicit index 0),
/// no member on a reserved index, no duplicate name.  The first violation,
/// in file and declaration order, decides the error.
pub fn validate_structs(files: &Vec<RuneFileDescription>) -> (r: Result<(), RuneParserError>)
    ensures
        r == spec_validate_structs(files.deep_view()),
{
    let ghost files_view = files.deep_view();
    let mut i: usize = 0;
    while i < files.len()
        invariant
            i <= files@.len(),
            files_view == files.deep_view(),
            files_view.len() == files@.len(),
            spec_struct_files_error(files_view, 0) == spec_struct_files_error(files_view, i as int),
        decreases files.len() - i,
    {
        let file = &files[i];
        let ghost ss = files_view[i as int].definitions.structs;
        proof {
            assert(files_view[i as int] == files@[i as int]@);
        }
        let mut k: usize = 0;
        while k < file.definitions.structs.len()
            invariant
                k <= file.definitions.structs@.len(),
                ss == file@.definitions.structs,
                ss.len() == file.definitions.structs@.len(),
                ss == file.definitions.structs.deep_view(),
                spec_struct_list_error(ss, 0) == spec_struct_list_error(ss, k as int),
                files_view == files.deep_view(),
                i < files_view.len(),
                ss == files_view[i as int].definitions.structs,
                spec_struct_files_error(files_view, 0) == spec_struct_files_error(
                    files_view,
                    i as int,
                ),
            decreases file.definitions.structs.len() - k,
        {
            proof {
                assert(ss[k as int] == file.definitions.structs@[k as int]@);
            }
            match check_struct(&file.definitions.structs[k]) {
                Some(e) => {
                    proof {
                        assert(spec_struct_list_error(ss, k as int) == Some(e));
                        assert(spec_struct_files_error(files_view, i as int) == Some(e));
                    }
                    return Err(e);
                },
                None => {},
            }
            k = k + 1;
        }
        i = i + 1;
    }
    Ok(())
}

// The whole validation pass
// --------------------------

/// Validation of the whole file set, in pass order: the global namespace,
/// then bitfields, enums, messages and structs.  The first failing pass
/// decides the error.
pub open spec fn spec_validate_parsed_files(files: Seq<RuneFileDescriptionView>) -> Result<
    (),
    RuneParserError,
> {
    match spec_validate_names(files) {
        Err(e) => Err(e),
        Ok(()) => match spec_validate_bitfields(files) {
            Err(e) => Err(e),
            Ok(()) => match spec_validate_enums(files) {
                Err(e) => Err(e),
                Ok(()) => match spec_validate_messages(files) {
                    Err(e) => Err(e),
                    Ok(()) => spec_validate_structs(files),
                },
            },
        },
    }
}

/// Runs every structural check over the merged, linked, constant-resolved
/// schema, stopping at the first violation.  Nothing is mutated: a schema
/// either passes whole or the run aborts with one error.
pub fn validate_parsed_files(files: &Vec<RuneFileDescription>) -> (r: Result<(), RuneParserError>)
    ensures
        r == spec_validate_parsed_files(files.deep_view()),
{
    // Validate all type names (bitfield, define, enum, message, struct)
    // against each other to check for collisions
    match validate_names(files) {
        Err(e) => {
            return Err(e);
        },
        Ok(()) => {},
    }

    // Validate bitfields
    match validate_bitfields(files) {
        Err(e) => {
            return Err(e);
        },
        Ok(()) => {},
    }

    // Validate defines - Not needed, as they are mere text replacement, and
    // thus have no backing type

    // Validate enums
    match validate_enums(files) {
        Err(e) => {
            return Err(e);
        },
        Ok(()) => {},
    }

    // Validate messages
    match validate_messages(files) {
        Err(e) => {
            return Err(e);
        },
        Ok(()) => {},
    }

    // Validate structs
    validate_structs(files)
}

} // verus!

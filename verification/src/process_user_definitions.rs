//! The type linker: resolves every named type reference into a frozen,
//! fully self-contained snapshot of the declaration it names.
//!
//! Resolution reads an immutable baseline of the whole file set and writes
//! its results into a separate copy, so later lookups never observe a
//! partially linked state.  A name is searched per file, bitfields first,
//! then enums, structs and messages; the first match wins.  A struct match
//! is cloned and its own references are resolved recursively inside the
//! clone.  Recursion carries a budget of one step per struct and message
//! declaration: a schema whose references nest deeper than that must repeat
//! a name along the way, which only a self- or mutually-referential type
//! can do, and is reported as a cyclic definition.

use vstd::prelude::*;
use crate::arrays::{clone_array_size, Array, ArrayType, ArrayTypeView, ArrayView};
use crate::bitfields::{BitfieldDefinitionView};
use crate::defines::clone_comment;
use crate::enums::{EnumDefinitionView};
use crate::links::{UserDefinitionLink, UserDefinitionLinkView};
use crate::messages::{clone_field_indexes, lemma_view_message_fields, view_message_def,
    view_message_field, view_message_fields, FieldType, FieldTypeView, MessageDefinition,
    MessageDefinitionView, MessageField, MessageFieldView};
use crate::schema::{clone_define_defs, clone_includes, clone_redefine_defs, Definitions,
    DefinitionsView, RuneFileDescription, RuneFileDescriptionView};
use crate::structs::{lemma_view_struct_members, view_struct_def, view_struct_member,
    view_struct_members, MemberType, MemberTypeView, StructDefinition, StructDefinitionView,
    StructMember, StructMemberView};
use crate::RuneParserError;

verus! {

// Finding a declaration by name
// ------------------------------

/// The index of the first bitfield carrying the name.
pub open spec fn spec_find_bitfield_idx(bs: Seq<BitfieldDefinitionView>, name: Seq<char>) -> Option<
    int,
>
    decreases bs,
{
    if bs.len() == 0 {
        None
    } else if bs.first().name == name {
        Some(0)
    } else {
        match spec_find_bitfield_idx(bs.drop_first(), name) {
            Some(i) => Some(i + 1),
            None => None,
        }
    }
}

/// The index of the first enum carrying the name.
pub open spec fn spec_find_enum_idx(es: Seq<EnumDefinitionView>, name: Seq<char>) -> Option<int>
    decreases es,
{
    if es.len() == 0 {
        None
    } else if es.first().name == name {
        Some(0)
    } else {
        match spec_find_enum_idx(es.drop_first(), name) {
            Some(i) => Some(i + 1),
            None => None,
        }
    }
}

/// The index of the first struct carrying the name.
pub open spec fn spec_find_struct_idx(ss: Seq<StructDefinitionView>, name: Seq<char>) -> Option<int>
    decreases ss,
{
    if ss.len() == 0 {
        None
    } else if ss.first().name == name {
        Some(0)
    } else {
        match spec_find_struct_idx(ss.drop_first(), name) {
            Some(i) => Some(i + 1),
            None => None,
        }
    }
}

/// The index of the first message carrying the name.
pub open spec fn spec_find_message_idx(ms: Seq<MessageDefinitionView>, name: Seq<char>) -> Option<
    int,
>
    decreases ms,
{
    if ms.len() == 0 {
        None
    } else if ms.first().name == name {
        Some(0)
    } else {
        match spec_find_message_idx(ms.drop_first(), name) {
            Some(i) => Some(i + 1),
            None => None,
        }
    }
}

/// Each finder returns an index within bounds whose entry carries the name,
/// and none earlier does.
pub broadcast proof fn lemma_find_bitfield_idx(bs: Seq<BitfieldDefinitionView>, name: Seq<char>)
    ensures
        match #[trigger] spec_find_bitfield_idx(bs, name) {
            Some(i) => 0 <= i < bs.len() && bs[i].name == name && forall|q: int|
                0 <= q < i ==> bs[q].name != name,
            None => forall|q: int| 0 <= q < bs.len() ==> bs[q].name != name,
        },
    decreases bs,
{
    if bs.len() == 0 {
    } else if bs.first().name == name {
    } else {
        lemma_find_bitfield_idx(bs.drop_first(), name);
        match spec_find_bitfield_idx(bs.drop_first(), name) {
            Some(i) => {
                assert(spec_find_bitfield_idx(bs, name) == Some(i + 1));
                assert(bs.drop_first()[i].name == name);
                assert(bs[i + 1].name == name);
                assert forall|q: int| 0 <= q < i + 1 implies bs[q].name != name by {
                    if q > 0 {
                        assert(bs.drop_first()[q - 1] == bs[q]);
                        assert(bs.drop_first()[q - 1].name != name);
                    }
                }
            },
            None => {
                assert(spec_find_bitfield_idx(bs, name) is None);
                assert forall|q: int| 0 <= q < bs.len() implies bs[q].name != name by {
                    if q > 0 {
                        assert(bs.drop_first()[q - 1] == bs[q]);
                        assert(bs.drop_first()[q - 1].name != name);
                    }
                }
            },
        }
    }
}

/// As for bitfields.
pub broadcast proof fn lemma_find_enum_idx(es: Seq<EnumDefinitionView>, name: Seq<char>)
    ensures
        match #[trigger] spec_find_enum_idx(es, name) {
            Some(i) => 0 <= i < es.len() && es[i].name == name && forall|q: int|
                0 <= q < i ==> es[q].name != name,
            None => forall|q: int| 0 <= q < es.len() ==> es[q].name != name,
        },
    decreases es,
{
    if es.len() == 0 {
    } else if es.first().name == name {
    } else {
        lemma_find_enum_idx(es.drop_first(), name);
        match spec_find_enum_idx(es.drop_first(), name) {
            Some(i) => {
                assert(spec_find_enum_idx(es, name) == Some(i + 1));
                assert(es.drop_first()[i].name == name);
                assert(es[i + 1].name == name);
                assert forall|q: int| 0 <= q < i + 1 implies es[q].name != name by {
                    if q > 0 {
                        assert(es.drop_first()[q - 1] == es[q]);
                        assert(es.drop_first()[q - 1].name != name);
                    }
                }
            },
            None => {
                assert(spec_find_enum_idx(es, name) is None);
                assert forall|q: int| 0 <= q < es.len() implies es[q].name != name by {
                    if q > 0 {
                        assert(es.drop_first()[q - 1] == es[q]);
                        assert(es.drop_first()[q - 1].name != name);
                    }
                }
            },
        }
    }
}

/// As for bitfields.
pub broadcast proof fn lemma_find_struct_idx(ss: Seq<StructDefinitionView>, name: Seq<char>)
    ensures
        match #[trigger] spec_find_struct_idx(ss, name) {
            Some(i) => 0 <= i < ss.len() && ss[i].name == name && forall|q: int|
                0 <= q < i ==> ss[q].name != name,
            None => forall|q: int| 0 <= q < ss.len() ==> ss[q].name != name,
        },
    decreases ss,
{
    if ss.len() == 0 {
    } else if ss.first().name == name {
    } else {
        lemma_find_struct_idx(ss.drop_first(), name);
        match spec_find_struct_idx(ss.drop_first(), name) {
            Some(i) => {
                assert(spec_find_struct_idx(ss, name) == Some(i + 1));
                assert(ss.drop_first()[i].name == name);
                assert(ss[i + 1].name == name);
                assert forall|q: int| 0 <= q < i + 1 implies ss[q].name != name by {
                    if q > 0 {
                        assert(ss.drop_first()[q - 1] == ss[q]);
                        assert(ss.drop_first()[q - 1].name != name);
                    }
                }
            },
            None => {
                assert(spec_find_struct_idx(ss, name) is None);
                assert forall|q: int| 0 <= q < ss.len() implies ss[q].name != name by {
                    if q > 0 {
                        assert(ss.drop_first()[q - 1] == ss[q]);
                        assert(ss.drop_first()[q - 1].name != name);
                    }
                }
            },
        }
    }
}

/// As for bitfields.
pub broadcast proof fn lemma_find_message_idx(ms: Seq<MessageDefinitionView>, name: Seq<char>)
    ensures
        match #[trigger] spec_find_message_idx(ms, name) {
            Some(i) => 0 <= i < ms.len() && ms[i].name == name && forall|q: int|
                0 <= q < i ==> ms[q].name != name,
            None => forall|q: int| 0 <= q < ms.len() ==> ms[q].name != name,
        },
    decreases ms,
{
    if ms.len() == 0 {
    } else if ms.first().name == name {
    } else {
        lemma_find_message_idx(ms.drop_first(), name);
        match spec_find_message_idx(ms.drop_first(), name) {
            Some(i) => {
                assert(spec_find_message_idx(ms, name) == Some(i + 1));
                assert(ms.drop_first()[i].name == name);
                assert(ms[i + 1].name == name);
                assert forall|q: int| 0 <= q < i + 1 implies ms[q].name != name by {
                    if q > 0 {
                        assert(ms.drop_first()[q - 1] == ms[q]);
                        assert(ms.drop_first()[q - 1].name != name);
                    }
                }
            },
            None => {
                assert(spec_find_message_idx(ms, name) is None);
                assert forall|q: int| 0 <= q < ms.len() implies ms[q].name != name by {
                    if q > 0 {
                        assert(ms.drop_first()[q - 1] == ms[q]);
                        assert(ms.drop_first()[q - 1].name != name);
                    }
                }
            },
        }
    }
}

// Resolution
// -----------

/// Resolution of a name used where fixed-layout data is expected: per file,
/// bitfields are searched first, then enums, then structs — whose match is
/// deep-resolved into a self-contained snapshot — then messages, whose
/// match is the fatal misuse of a message in a data position.  The first
/// match over all files wins; a name found nowhere is undefined.
pub open spec fn spec_find_data_link_from(
    files: Seq<RuneFileDescriptionView>,
    i: int,
    name: Seq<char>,
    fuel: nat,
) -> Result<UserDefinitionLinkView, RuneParserError>
    decreases fuel, 0int, files.len() - i,
{
    if i < 0 || i >= files.len() {
        Err(RuneParserError::UndefinedIdentifier)
    } else {
        let d = files[i].definitions;
        match spec_find_bitfield_idx(d.bitfields, name) {
            Some(k) => Ok(UserDefinitionLinkView::BitfieldLink(d.bitfields[k])),
            None => match spec_find_enum_idx(d.enums, name) {
                Some(k) => Ok(UserDefinitionLinkView::EnumLink(d.enums[k])),
                None => match spec_find_struct_idx(d.structs, name) {
                    Some(k) => if fuel == 0 {
                        Err(RuneParserError::CyclicDefinition)
                    } else {
                        match spec_resolve_struct_snapshot(
                            files,
                            d.structs[k],
                            (fuel - 1) as nat,
                        ) {
                            Ok(s) => Ok(UserDefinitionLinkView::StructLink(s)),
                            Err(e) => Err(e),
                        }
                    },
                    None => match spec_find_message_idx(d.messages, name) {
                        Some(_) => Err(RuneParserError::InvalidTypeUse),
                        None => spec_find_data_link_from(files, i + 1, name, fuel),
                    },
                },
            },
        }
    }
}

/// Resolution of one member type against the baseline: a user-defined
/// member or array element resolves through the data search.
pub open spec fn spec_resolve_member_type(
    files: Seq<RuneFileDescriptionView>,
    t: MemberTypeView,
    fuel: nat,
) -> Result<MemberTypeView, RuneParserError>
    decreases fuel, 1int, 0int,
{
    match t {
        MemberTypeView::Primitive(p) => Ok(t),
        MemberTypeView::Array(a) => match a.data_type {
            ArrayTypeView::Primitive(_) => Ok(t),
            ArrayTypeView::UserDefined(n, _) => match spec_find_data_link_from(files, 0, n, fuel) {
                Ok(link) => Ok(
                    MemberTypeView::Array(
                        ArrayView { data_type: ArrayTypeView::UserDefined(n, link), ..a },
                    ),
                ),
                Err(e) => Err(e),
            },
        },
        MemberTypeView::UserDefined(n, _) => match spec_find_data_link_from(files, 0, n, fuel) {
            Ok(link) => Ok(MemberTypeView::UserDefined(n, link)),
            Err(e) => Err(e),
        },
    }
}

/// Resolution of a member list, in order; the first failing member decides
/// the error.
pub open spec fn spec_resolve_members(
    files: Seq<RuneFileDescriptionView>,
    ms: Seq<StructMemberView>,
    fuel: nat,
) -> Result<Seq<StructMemberView>, RuneParserError>
    decreases fuel, 2int, ms.len(),
{
    if ms.len() == 0 {
        Ok(Seq::empty())
    } else {
        match spec_resolve_member_type(files, ms.first().data_type, fuel) {
            Err(e) => Err(e),
            Ok(t) => match spec_resolve_members(files, ms.drop_first(), fuel) {
                Err(e) => Err(e),
                Ok(rest) => Ok(
                    seq![StructMemberView { data_type: t, ..ms.first() }] + rest,
                ),
            },
        }
    }
}

/// A struct snapshot with every reference inside it resolved.
pub open spec fn spec_resolve_struct_snapshot(
    files: Seq<RuneFileDescriptionView>,
    s: StructDefinitionView,
    fuel: nat,
) -> Result<StructDefinitionView, RuneParserError>
    decreases fuel, 3int, 0int,
{
    match spec_resolve_members(files, s.members, fuel) {
        Ok(ms) => Ok(StructDefinitionView { members: ms, ..s }),
        Err(e) => Err(e),
    }
}

/// Resolution of a name used as a message field type: messages are searched
/// first across all files — a match is deep-resolved into a snapshot — and
/// any other kind of declaration is found through the data search.
pub open spec fn spec_find_field_link_from(
    files: Seq<RuneFileDescriptionView>,
    i: int,
    name: Seq<char>,
    fuel: nat,
) -> Result<UserDefinitionLinkView, RuneParserError>
    decreases fuel, 4int, files.len() - i,
{
    if i < 0 || i >= files.len() {
        spec_find_data_link_from(files, 0, name, fuel)
    } else {
        match spec_find_message_idx(files[i].definitions.messages, name) {
            Some(k) => if fuel == 0 {
                Err(RuneParserError::CyclicDefinition)
            } else {
                match spec_resolve_message_snapshot(
                    files,
                    files[i].definitions.messages[k],
                    (fuel - 1) as nat,
                ) {
                    Ok(m) => Ok(UserDefinitionLinkView::MessageLink(m)),
                    Err(e) => Err(e),
                }
            },
            None => spec_find_field_link_from(files, i + 1, name, fuel),
        }
    }
}

/// Resolution of one field type against the baseline.  A skipped field has
/// no type to resolve and is an error; a user-defined field resolves
/// through the field search, an array element through the data search.
pub open spec fn spec_resolve_field_type(
    files: Seq<RuneFileDescriptionView>,
    t: FieldTypeView,
    fuel: nat,
) -> Result<FieldTypeView, RuneParserError>
    decreases fuel, 5int, 0int,
{
    match t {
        FieldTypeView::Empty => Err(RuneParserError::EmptyMessageField),
        FieldTypeView::Primitive(p) => Ok(t),
        FieldTypeView::Array(a) => match a.data_type {
            ArrayTypeView::Primitive(_) => Ok(t),
            ArrayTypeView::UserDefined(n, _) => match spec_find_data_link_from(files, 0, n, fuel) {
                Ok(link) => Ok(
                    FieldTypeView::Array(
                        ArrayView { data_type: ArrayTypeView::UserDefined(n, link), ..a },
                    ),
                ),
                Err(e) => Err(e),
            },
        },
        FieldTypeView::UserDefined(n, _) => match spec_find_field_link_from(files, 0, n, fuel) {
            Ok(link) => Ok(FieldTypeView::UserDefined(n, link)),
            Err(e) => Err(e),
        },
    }
}

/// Resolution of a field list, in order; the first failing field decides
/// the error.
pub open spec fn spec_resolve_fields(
    files: Seq<RuneFileDescriptionView>,
    fs: Seq<MessageFieldView>,
    fuel: nat,
) -> Result<Seq<MessageFieldView>, RuneParserError>
    decreases fuel, 6int, fs.len(),
{
    if fs.len() == 0 {
        Ok(Seq::empty())
    } else {
        match spec_resolve_field_type(files, fs.first().data_type, fuel) {
            Err(e) => Err(e),
            Ok(t) => match spec_resolve_fields(files, fs.drop_first(), fuel) {
                Err(e) => Err(e),
                Ok(rest) => Ok(
                    seq![MessageFieldView { data_type: t, ..fs.first() }] + rest,
                ),
            },
        }
    }
}

/// A message snapshot with every reference inside it resolved.
pub open spec fn spec_resolve_message_snapshot(
    files: Seq<RuneFileDescriptionView>,
    m: MessageDefinitionView,
    fuel: nat,
) -> Result<MessageDefinitionView, RuneParserError>
    decreases fuel, 7int, 0int,
{
    match spec_resolve_fields(files, m.fields, fuel) {
        Ok(fs) => Ok(MessageDefinitionView { fields: fs, ..m }),
        Err(e) => Err(e),
    }
}

// The whole pass
// ---------------

/// The recursion budget: one step per struct and message declaration, plus
/// one.  A legal — acyclic — schema never exhausts it, because every step
/// of nesting enters a distinct declaration.
pub open spec fn spec_link_fuel_from(files: Seq<RuneFileDescriptionView>, i: int) -> int
    decreases files.len() - i,
{
    if i < 0 || i >= files.len() {
        1
    } else {
        let rest = spec_link_fuel_from(files, i + 1);
        let here = files[i].definitions.structs.len() + files[i].definitions.messages.len();
        if rest + here > usize::MAX {
            usize::MAX as int
        } else {
            rest + here
        }
    }
}

/// A file with every message field and struct member reference resolved
/// against the baseline.
pub open spec fn spec_link_file(
    files: Seq<RuneFileDescriptionView>,
    f: RuneFileDescriptionView,
    fuel: nat,
) -> Result<RuneFileDescriptionView, RuneParserError> {
    match spec_link_messages(files, f.definitions.messages, fuel) {
        Err(e) => Err(e),
        Ok(ms) => match spec_link_structs(files, f.definitions.structs, fuel) {
            Err(e) => Err(e),
            Ok(ss) => Ok(
                RuneFileDescriptionView {
                    definitions: DefinitionsView { messages: ms, structs: ss, ..f.definitions },
                    ..f
                },
            ),
        },
    }
}

/// The messages of one file, each with its fields resolved.
pub open spec fn spec_link_messages(
    files: Seq<RuneFileDescriptionView>,
    ms: Seq<MessageDefinitionView>,
    fuel: nat,
) -> Result<Seq<MessageDefinitionView>, RuneParserError>
    decreases ms,
{
    if ms.len() == 0 {
        Ok(Seq::empty())
    } else {
        match spec_resolve_message_snapshot(files, ms.first(), fuel) {
            Err(e) => Err(e),
            Ok(m) => match spec_link_messages(files, ms.drop_first(), fuel) {
                Err(e) => Err(e),
                Ok(rest) => Ok(seq![m] + rest),
            },
        }
    }
}

/// The structs of one file, each with its members resolved.
pub open spec fn spec_link_structs(
    files: Seq<RuneFileDescriptionView>,
    ss: Seq<StructDefinitionView>,
    fuel: nat,
) -> Result<Seq<StructDefinitionView>, RuneParserError>
    decreases ss,
{
    if ss.len() == 0 {
        Ok(Seq::empty())
    } else {
        match spec_resolve_struct_snapshot(files, ss.first(), fuel) {
            Err(e) => Err(e),
            Ok(s) => match spec_link_structs(files, ss.drop_first(), fuel) {
                Err(e) => Err(e),
                Ok(rest) => Ok(seq![s] + rest),
            },
        }
    }
}

/// The whole linking pass: every message field and struct member of every
/// file resolved against the immutable baseline, the first failure — in
/// file, declaration, member order — deciding the error.
pub open spec fn spec_link_files_from(
    files: Seq<RuneFileDescriptionView>,
    i: int,
    fuel: nat,
) -> Result<Seq<RuneFileDescriptionView>, RuneParserError>
    decreases files.len() - i,
{
    if i < 0 || i >= files.len() {
        Ok(Seq::empty())
    } else {
        match spec_link_file(files, files[i], fuel) {
            Err(e) => Err(e),
            Ok(f) => match spec_link_files_from(files, i + 1, fuel) {
                Err(e) => Err(e),
                Ok(rest) => Ok(seq![f] + rest),
            },
        }
    }
}

/// The linking pass over the whole file set, with its full recursion
/// budget.
pub open spec fn spec_link_user_definitions(files: Seq<RuneFileDescriptionView>) -> Result<
    Seq<RuneFileDescriptionView>,
    RuneParserError,
> {
    spec_link_files_from(files, 0, spec_link_fuel_from(files, 0) as nat)
}


// The pass itself
// ----------------

/// The index of the first bitfield of the list carrying the name.
fn find_bitfield_in(bs: &Vec<crate::bitfields::BitfieldDefinition>, name: &String) -> (r: Option<
    usize,
>)
    ensures
        spec_find_bitfield_idx(bs.deep_view(), name@) == match r {
            Some(k) => Some(k as int),
            None => None::<int>,
        },
        r matches Some(k) ==> k < bs@.len(),
{
    let ghost bv = bs.deep_view();
    proof {
        broadcast use lemma_find_bitfield_idx;

    }
    let mut k: usize = 0;
    while k < bs.len()
        invariant
            k <= bs@.len(),
            bv == bs.deep_view(),
            bv.len() == bs@.len(),
            forall|q: int| 0 <= q < k ==> bv[q].name != name@,
        decreases bs.len() - k,
    {
        proof {
            assert(bv[k as int] == bs@[k as int]@);
        }
        if bs[k].name == *name {
            proof {
                broadcast use lemma_find_bitfield_idx;

                assert(bv[k as int].name == name@);
                assert(spec_find_bitfield_idx(bv, name@) == Some(k as int));
            }
            return Some(k);
        }
        k = k + 1;
    }
    proof {
        broadcast use lemma_find_bitfield_idx;

        assert(spec_find_bitfield_idx(bv, name@) is None);
    }
    None
}

/// The index of the first enum of the list carrying the name.
fn find_enum_in(es: &Vec<crate::enums::EnumDefinition>, name: &String) -> (r: Option<usize>)
    ensures
        spec_find_enum_idx(es.deep_view(), name@) == match r {
            Some(k) => Some(k as int),
            None => None::<int>,
        },
        r matches Some(k) ==> k < es@.len(),
{
    let ghost ev = es.deep_view();
    proof {
        broadcast use lemma_find_enum_idx;

    }
    let mut k: usize = 0;
    while k < es.len()
        invariant
            k <= es@.len(),
            ev == es.deep_view(),
            ev.len() == es@.len(),
            forall|q: int| 0 <= q < k ==> ev[q].name != name@,
        decreases es.len() - k,
    {
        proof {
            assert(ev[k as int] == es@[k as int]@);
        }
        if es[k].name == *name {
            proof {
                broadcast use lemma_find_enum_idx;

                assert(ev[k as int].name == name@);
                assert(spec_find_enum_idx(ev, name@) == Some(k as int));
            }
            return Some(k);
        }
        k = k + 1;
    }
    proof {
        broadcast use lemma_find_enum_idx;

        assert(spec_find_enum_idx(ev, name@) is None);
    }
    None
}

/// The index of the first struct of the list carrying the name.
fn find_struct_in(ss: &Vec<StructDefinition>, name: &String) -> (r: Option<usize>)
    ensures
        spec_find_struct_idx(ss.deep_view(), name@) == match r {
            Some(k) => Some(k as int),
            None => None::<int>,
        },
        r matches Some(k) ==> k < ss@.len(),
{
    let ghost sv = ss.deep_view();
    proof {
        broadcast use lemma_find_struct_idx;

    }
    let mut k: usize = 0;
    while k < ss.len()
        invariant
            k <= ss@.len(),
            sv == ss.deep_view(),
            sv.len() == ss@.len(),
            forall|q: int| 0 <= q < k ==> sv[q].name != name@,
        decreases ss.len() - k,
    {
        proof {
            assert(sv[k as int] == view_struct_def(ss@[k as int]));
        }
        if ss[k].name == *name {
            proof {
                broadcast use lemma_find_struct_idx;

                assert(sv[k as int].name == name@);
                assert(spec_find_struct_idx(sv, name@) == Some(k as int));
            }
            return Some(k);
        }
        k = k + 1;
    }
    proof {
        broadcast use lemma_find_struct_idx;

        assert(spec_find_struct_idx(sv, name@) is None);
    }
    None
}

/// The index of the first message of the list carrying the name.
fn find_message_in(ms: &Vec<MessageDefinition>, name: &String) -> (r: Option<usize>)
    ensures
        spec_find_message_idx(ms.deep_view(), name@) == match r {
            Some(k) => Some(k as int),
            None => None::<int>,
        },
        r matches Some(k) ==> k < ms@.len(),
{
    let ghost mv = ms.deep_view();
    proof {
        broadcast use lemma_find_message_idx;

    }
    let mut k: usize = 0;
    while k < ms.len()
        invariant
            k <= ms@.len(),
            mv == ms.deep_view(),
            mv.len() == ms@.len(),
            forall|q: int| 0 <= q < k ==> mv[q].name != name@,
        decreases ms.len() - k,
    {
        proof {
            assert(mv[k as int] == view_message_def(ms@[k as int]));
        }
        if ms[k].name == *name {
            proof {
                broadcast use lemma_find_message_idx;

                assert(mv[k as int].name == name@);
                assert(spec_find_message_idx(mv, name@) == Some(k as int));
            }
            return Some(k);
        }
        k = k + 1;
    }
    proof {
        broadcast use lemma_find_message_idx;

        assert(spec_find_message_idx(mv, name@) is None);
    }
    None
}

/// Resolution of a name used where fixed-layout data is expected.
fn find_data_definition(files: &Vec<RuneFileDescription>, name: &String, fuel: usize) -> (r: Result<
    UserDefinitionLink,
    RuneParserError,
>)
    ensures
        match spec_find_data_link_from(files.deep_view(), 0, name@, fuel as nat) {
            Ok(v) => (r matches Ok(link) && link@ == v),
            Err(e) => r == Err::<UserDefinitionLink, RuneParserError>(e),
        },
    decreases fuel, 0int, 0int,
{
    let ghost fv = files.deep_view();
    let mut i: usize = 0;
    while i < files.len()
        invariant
            i <= files@.len(),
            fv == files.deep_view(),
            fv.len() == files@.len(),
            spec_find_data_link_from(fv, 0, name@, fuel as nat) == spec_find_data_link_from(
                fv,
                i as int,
                name@,
                fuel as nat,
            ),
        decreases files.len() - i,
    {
        let file = &files[i];
        proof {
            assert(fv[i as int] == files@[i as int]@);
        }
        match find_bitfield_in(&file.definitions.bitfields, name) {
            Some(k) => {
                let link = UserDefinitionLink::BitfieldLink(file.definitions.bitfields[k].clone());
                proof {
                    assert(fv[i as int].definitions.bitfields[k as int]
                        == file.definitions.bitfields@[k as int]@);
                }
                return Ok(link);
            },
            None => {},
        }
        match find_enum_in(&file.definitions.enums, name) {
            Some(k) => {
                let link = UserDefinitionLink::EnumLink(file.definitions.enums[k].clone());
                proof {
                    assert(fv[i as int].definitions.enums[k as int]
                        == file.definitions.enums@[k as int]@);
                }
                return Ok(link);
            },
            None => {},
        }
        match find_struct_in(&file.definitions.structs, name) {
            Some(k) => {
                if fuel == 0 {
                    return Err(RuneParserError::CyclicDefinition);
                }
                proof {
                    assert(fv[i as int].definitions.structs[k as int] == view_struct_def(
                        file.definitions.structs@[k as int],
                    ));
                }
                match resolve_struct_snapshot(files, &file.definitions.structs[k], fuel - 1) {
                    Ok(s) => {
                        return Ok(UserDefinitionLink::StructLink(s));
                    },
                    Err(e) => {
                        return Err(e);
                    },
                }
            },
            None => {},
        }
        match find_message_in(&file.definitions.messages, name) {
            Some(_) => {
                return Err(RuneParserError::InvalidTypeUse);
            },
            None => {},
        }
        i = i + 1;
    }
    Err(RuneParserError::UndefinedIdentifier)
}

/// Resolution of one struct member type against the baseline.
fn resolve_member_type(files: &Vec<RuneFileDescription>, t: &MemberType, fuel: usize) -> (r: Result<
    MemberType,
    RuneParserError,
>)
    ensures
        match spec_resolve_member_type(files.deep_view(), t@, fuel as nat) {
            Ok(v) => (r matches Ok(x) && x@ == v),
            Err(e) => r == Err::<MemberType, RuneParserError>(e),
        },
    decreases fuel, 1int, 0int,
{
    match t {
        MemberType::Primitive(p) => Ok(MemberType::Primitive(*p)),
        MemberType::Array(a) => match &a.data_type {
            ArrayType::Primitive(p) => {
                let r = MemberType::Array(
                    Array {
                        data_type: ArrayType::Primitive(*p),
                        element_count: clone_array_size(&a.element_count),
                    },
                );
                proof {
                    assert(r@ =~= t@);
                }
                Ok(r)
            },
            ArrayType::UserDefined(n, _) => match find_data_definition(files, n, fuel) {
                Ok(link) => {
                    let r = MemberType::Array(
                        Array {
                            data_type: ArrayType::UserDefined(n.clone(), link),
                            element_count: clone_array_size(&a.element_count),
                        },
                    );
                    proof {
                        assert(r@ =~= spec_resolve_member_type(
                            files.deep_view(),
                            t@,
                            fuel as nat,
                        )->Ok_0);
                    }
                    Ok(r)
                },
                Err(e) => Err(e),
            },
        },
        MemberType::UserDefined(n, _) => match find_data_definition(files, n, fuel) {
            Ok(link) => {
                let r = MemberType::UserDefined(n.clone(), link);
                proof {
                    assert(r@ =~= spec_resolve_member_type(
                        files.deep_view(),
                        t@,
                        fuel as nat,
                    )->Ok_0);
                }
                Ok(r)
            },
            Err(e) => Err(e),
        },
    }
}

/// A struct snapshot with every reference inside it resolved.
fn resolve_struct_snapshot(
    files: &Vec<RuneFileDescription>,
    s: &StructDefinition,
    fuel: usize,
) -> (r: Result<StructDefinition, RuneParserError>)
    ensures
        match spec_resolve_struct_snapshot(files.deep_view(), s@, fuel as nat) {
            Ok(v) => (r matches Ok(x) && x@ == v),
            Err(e) => r == Err::<StructDefinition, RuneParserError>(e),
        },
    decreases fuel, 3int, 0int,
{
    let ghost sv = s@;
    let ghost members_view = view_struct_members(s.members@);
    proof {
        broadcast use lemma_view_struct_members;

    }
    let mut new_members: Vec<StructMember> = Vec::new();
    let mut k: usize = 0;
    while k < s.members.len()
        invariant
            k <= s.members@.len(),
            sv == s@,
            members_view == view_struct_members(s.members@),
            sv.members == members_view,
            members_view.len() == s.members@.len(),
            forall|q: int|
                0 <= q < s.members@.len() ==> members_view[q] == view_struct_member(s.members@[q]),
            forall|q: int|
                0 <= q < k ==> spec_resolve_member_type(
                    files.deep_view(),
                    members_view[q].data_type,
                    fuel as nat,
                ) is Ok,
            view_struct_members(new_members@).len() == k as int,
            forall|q: int|
                0 <= q < k ==> view_struct_members(new_members@)[q] == (StructMemberView {
                    data_type: spec_resolve_member_type(
                        files.deep_view(),
                        members_view[q].data_type,
                        fuel as nat,
                    )->Ok_0,
                    ..members_view[q]
                }),
        decreases s.members.len() - k,
    {
        proof {
            assert(members_view[k as int] == view_struct_member(s.members@[k as int]));
        }
        let resolved_type = match resolve_member_type(files, &s.members[k].data_type, fuel) {
            Ok(v) => v,
            Err(e) => {
                proof {
                    lemma_resolve_members_err(files.deep_view(), members_view, fuel as nat, k as int);
                }
                return Err(e);
            },
        };
        let m = &s.members[k];
        let new_member = StructMember {
            identifier: m.identifier.clone(),
            data_type: resolved_type,
            index: m.index,
            comment: clone_comment(&m.comment),
        };
        let ghost pre = view_struct_members(new_members@);
        let ghost nv = new_member@;
        new_members.push(new_member);
        proof {
            broadcast use lemma_view_struct_members;

            assert(view_struct_members(new_members@) =~= pre.push(nv));
        }
        k = k + 1;
    }
    let r = StructDefinition {
        name: s.name.clone(),
        members: new_members,
        reserved_indexes: crate::bitfields::clone_u64s(&s.reserved_indexes),
        comment: clone_comment(&s.comment),
        orphan_comments: crate::bitfields::clone_orphan_comments(&s.orphan_comments),
    };
    proof {
        lemma_resolve_members_shape(files.deep_view(), members_view, fuel as nat);
        match spec_resolve_members(files.deep_view(), members_view, fuel as nat) {
            Ok(all) => {
                assert(view_struct_members(r.members@) =~= all);
                assert(r@ =~= spec_resolve_struct_snapshot(
                    files.deep_view(),
                    sv,
                    fuel as nat,
                )->Ok_0);
            },
            Err(e) => {
                assert(false);
            },
        }
    }
    Ok(r)
}

/// A member list resolves to a pointwise-resolved list of the same length
/// exactly when every member resolves; the first failing member decides
/// the error.
proof fn lemma_resolve_members_shape(
    files: Seq<RuneFileDescriptionView>,
    ms: Seq<StructMemberView>,
    fuel: nat,
)
    ensures
        match spec_resolve_members(files, ms, fuel) {
            Ok(all) => all.len() == ms.len() && forall|q: int|
                0 <= q < ms.len() ==> (spec_resolve_member_type(files, ms[q].data_type, fuel)
                    is Ok && all[q] == (StructMemberView {
                    data_type: spec_resolve_member_type(files, ms[q].data_type, fuel)->Ok_0,
                    ..ms[q]
                })),
            Err(e) => exists|q: int|
                0 <= q < ms.len() && spec_resolve_member_type(files, ms[q].data_type, fuel)
                    == Err::<MemberTypeView, RuneParserError>(e) && forall|p: int|
                    0 <= p < q ==> spec_resolve_member_type(files, ms[p].data_type, fuel) is Ok,
        },
    decreases ms.len(),
{
    if ms.len() > 0 {
        lemma_resolve_members_shape(files, ms.drop_first(), fuel);
        assert(forall|q: int| 0 <= q < ms.len() - 1 ==> ms.drop_first()[q] == ms[q + 1]);
        match spec_resolve_member_type(files, ms.first().data_type, fuel) {
            Err(e) => {
                assert(spec_resolve_member_type(files, ms[0].data_type, fuel) == Err::<
                    MemberTypeView,
                    RuneParserError,
                >(e));
            },
            Ok(t) => {
                match spec_resolve_members(files, ms.drop_first(), fuel) {
                    Err(e) => {
                        let q0 = choose|q: int|
                            0 <= q < ms.drop_first().len() && spec_resolve_member_type(
                                files,
                                ms.drop_first()[q].data_type,
                                fuel,
                            ) == Err::<MemberTypeView, RuneParserError>(e) && forall|p: int|
                                0 <= p < q ==> spec_resolve_member_type(
                                    files,
                                    ms.drop_first()[p].data_type,
                                    fuel,
                                ) is Ok;
                        assert(spec_resolve_member_type(files, ms[q0 + 1].data_type, fuel) == Err::<
                            MemberTypeView,
                            RuneParserError,
                        >(e));
                        assert forall|p: int| 0 <= p < q0 + 1 implies spec_resolve_member_type(
                            files,
                            ms[p].data_type,
                            fuel,
                        ) is Ok by {
                            if p > 0 {
                                assert(spec_resolve_member_type(
                                    files,
                                    ms.drop_first()[p - 1].data_type,
                                    fuel,
                                ) is Ok);
                            }
                        }
                    },
                    Ok(rest) => {
                        let all = seq![StructMemberView { data_type: t, ..ms.first() }] + rest;
                        assert(spec_resolve_members(files, ms, fuel) == Ok::<
                            Seq<StructMemberView>,
                            RuneParserError,
                        >(all));
                        assert forall|q: int|
                            0 <= q < ms.len() implies spec_resolve_member_type(
                            files,
                            ms[q].data_type,
                            fuel,
                        ) is Ok by {
                            if q > 0 {
                                assert(ms.drop_first()[q - 1] == ms[q]);
                                assert(all[q] == rest[q - 1]);
                                assert(spec_resolve_member_type(
                                    files,
                                    ms.drop_first()[q - 1].data_type,
                                    fuel,
                                ) is Ok);
                            } else {
                                assert(ms[q] == ms.first());
                            }
                        }
                        assert forall|q: int| 0 <= q < ms.len() implies (spec_resolve_member_type(
                            files,
                            ms[q].data_type,
                            fuel,
                        ) is Ok && all[q] == (StructMemberView {
                            data_type: spec_resolve_member_type(files, ms[q].data_type, fuel)->Ok_0,
                            ..ms[q]
                        })) by {
                            if q > 0 {
                                assert(rest[q - 1] == (StructMemberView {
                                    data_type: spec_resolve_member_type(
                                        files,
                                        ms.drop_first()[q - 1].data_type,
                                        fuel,
                                    )->Ok_0,
                                    ..ms.drop_first()[q - 1]
                                }));
                            }
                        }
                    },
                }
            },
        }
    }
}

/// When member `k` fails to resolve and all earlier members resolve, the
/// whole list fails the same way.
proof fn lemma_resolve_members_err(
    files: Seq<RuneFileDescriptionView>,
    ms: Seq<StructMemberView>,
    fuel: nat,
    k: int,
)
    requires
        0 <= k < ms.len(),
        spec_resolve_member_type(files, ms[k].data_type, fuel) is Err,
        forall|p: int| 0 <= p < k ==> spec_resolve_member_type(files, ms[p].data_type, fuel) is Ok,
    ensures
        spec_resolve_members(files, ms, fuel) == Err::<Seq<StructMemberView>, RuneParserError>(
            spec_resolve_member_type(files, ms[k].data_type, fuel)->Err_0,
        ),
    decreases k,
{
    assert(forall|q: int| 0 <= q < ms.len() - 1 ==> ms.drop_first()[q] == ms[q + 1]);
    if k == 0 {
    } else {
        lemma_resolve_members_err(files, ms.drop_first(), fuel, k - 1);
    }
}


/// Resolution of a name used as a message field type.
fn find_field_definition(files: &Vec<RuneFileDescription>, name: &String, fuel: usize) -> (r: Result<
    UserDefinitionLink,
    RuneParserError,
>)
    ensures
        match spec_find_field_link_from(files.deep_view(), 0, name@, fuel as nat) {
            Ok(v) => (r matches Ok(link) && link@ == v),
            Err(e) => r == Err::<UserDefinitionLink, RuneParserError>(e),
        },
    decreases fuel, 4int, 0int,
{
    let ghost fv = files.deep_view();
    let mut i: usize = 0;
    while i < files.len()
        invariant
            i <= files@.len(),
            fv == files.deep_view(),
            fv.len() == files@.len(),
            spec_find_field_link_from(fv, 0, name@, fuel as nat) == spec_find_field_link_from(
                fv,
                i as int,
                name@,
                fuel as nat,
            ),
        decreases files.len() - i,
    {
        let file = &files[i];
        proof {
            assert(fv[i as int] == files@[i as int]@);
        }
        match find_message_in(&file.definitions.messages, name) {
            Some(k) => {
                if fuel == 0 {
                    return Err(RuneParserError::CyclicDefinition);
                }
                proof {
                    assert(fv[i as int].definitions.messages[k as int] == view_message_def(
                        file.definitions.messages@[k as int],
                    ));
                }
                match resolve_message_snapshot(files, &file.definitions.messages[k], fuel - 1) {
                    Ok(m) => {
                        return Ok(UserDefinitionLink::MessageLink(m));
                    },
                    Err(e) => {
                        return Err(e);
                    },
                }
            },
            None => {},
        }
        i = i + 1;
    }
    find_data_definition(files, name, fuel)
}

/// Resolution of one message field type against the baseline.
fn resolve_field_type(files: &Vec<RuneFileDescription>, t: &FieldType, fuel: usize) -> (r: Result<
    FieldType,
    RuneParserError,
>)
    ensures
        match spec_resolve_field_type(files.deep_view(), t@, fuel as nat) {
            Ok(v) => (r matches Ok(x) && x@ == v),
            Err(e) => r == Err::<FieldType, RuneParserError>(e),
        },
    decreases fuel, 5int, 0int,
{
    match t {
        FieldType::Empty => Err(RuneParserError::EmptyMessageField),
        FieldType::Primitive(p) => Ok(FieldType::Primitive(*p)),
        FieldType::Array(a) => match &a.data_type {
            ArrayType::Primitive(p) => {
                let r = FieldType::Array(
                    Array {
                        data_type: ArrayType::Primitive(*p),
                        element_count: clone_array_size(&a.element_count),
                    },
                );
                proof {
                    assert(r@ =~= t@);
                }
                Ok(r)
            },
            ArrayType::UserDefined(n, _) => match find_data_definition(files, n, fuel) {
                Ok(link) => {
                    let r = FieldType::Array(
                        Array {
                            data_type: ArrayType::UserDefined(n.clone(), link),
                            element_count: clone_array_size(&a.element_count),
                        },
                    );
                    proof {
                        assert(r@ =~= spec_resolve_field_type(
                            files.deep_view(),
                            t@,
                            fuel as nat,
                        )->Ok_0);
                    }
                    Ok(r)
                },
                Err(e) => Err(e),
            },
        },
        FieldType::UserDefined(n, _) => match find_field_definition(files, n, fuel) {
            Ok(link) => {
                let r = FieldType::UserDefined(n.clone(), link);
                proof {
                    assert(r@ =~= spec_resolve_field_type(
                        files.deep_view(),
                        t@,
                        fuel as nat,
                    )->Ok_0);
                }
                Ok(r)
            },
            Err(e) => Err(e),
        },
    }
}

/// A field list resolves to a pointwise-resolved list of the same length
/// exactly when every field resolves; the first failing field decides the
/// error.
proof fn lemma_resolve_fields_shape(
    files: Seq<RuneFileDescriptionView>,
    fs: Seq<MessageFieldView>,
    fuel: nat,
)
    ensures
        match spec_resolve_fields(files, fs, fuel) {
            Ok(all) => all.len() == fs.len() && forall|q: int|
                0 <= q < fs.len() ==> (spec_resolve_field_type(files, fs[q].data_type, fuel)
                    is Ok && all[q] == (MessageFieldView {
                    data_type: spec_resolve_field_type(files, fs[q].data_type, fuel)->Ok_0,
                    ..fs[q]
                })),
            Err(e) => exists|q: int|
                0 <= q < fs.len() && spec_resolve_field_type(files, fs[q].data_type, fuel) == Err::<
                    FieldTypeView,
                    RuneParserError,
                >(e) && forall|p: int|
                    0 <= p < q ==> spec_resolve_field_type(files, fs[p].data_type, fuel) is Ok,
        },
    decreases fs.len(),
{
    if fs.len() > 0 {
        lemma_resolve_fields_shape(files, fs.drop_first(), fuel);
        assert(forall|q: int| 0 <= q < fs.len() - 1 ==> fs.drop_first()[q] == fs[q + 1]);
        match spec_resolve_field_type(files, fs.first().data_type, fuel) {
            Err(e) => {
                assert(spec_resolve_field_type(files, fs[0].data_type, fuel) == Err::<
                    FieldTypeView,
                    RuneParserError,
                >(e));
            },
            Ok(t) => {
                match spec_resolve_fields(files, fs.drop_first(), fuel) {
                    Err(e) => {
                        let q0 = choose|q: int|
                            0 <= q < fs.drop_first().len() && spec_resolve_field_type(
                                files,
                                fs.drop_first()[q].data_type,
                                fuel,
                            ) == Err::<FieldTypeView, RuneParserError>(e) && forall|p: int|
                                0 <= p < q ==> spec_resolve_field_type(
                                    files,
                                    fs.drop_first()[p].data_type,
                                    fuel,
                                ) is Ok;
                        assert(spec_resolve_field_type(files, fs[q0 + 1].data_type, fuel) == Err::<
                            FieldTypeView,
                            RuneParserError,
                        >(e));
                        assert forall|p: int| 0 <= p < q0 + 1 implies spec_resolve_field_type(
                            files,
                            fs[p].data_type,
                            fuel,
                        ) is Ok by {
                            if p > 0 {
                                assert(spec_resolve_field_type(
                                    files,
                                    fs.drop_first()[p - 1].data_type,
                                    fuel,
                                ) is Ok);
                            }
                        }
                    },
                    Ok(rest) => {
                        let all = seq![MessageFieldView { data_type: t, ..fs.first() }] + rest;
                        assert(spec_resolve_fields(files, fs, fuel) == Ok::<
                            Seq<MessageFieldView>,
                            RuneParserError,
                        >(all));
                        assert forall|q: int|
                            0 <= q < fs.len() implies spec_resolve_field_type(
                            files,
                            fs[q].data_type,
                            fuel,
                        ) is Ok by {
                            if q > 0 {
                                assert(fs.drop_first()[q - 1] == fs[q]);
                                assert(all[q] == rest[q - 1]);
                                assert(spec_resolve_field_type(
                                    files,
                                    fs.drop_first()[q - 1].data_type,
                                    fuel,
                                ) is Ok);
                            } else {
                                assert(fs[q] == fs.first());
                            }
                        }
                        assert forall|q: int| 0 <= q < fs.len() implies (spec_resolve_field_type(
                            files,
                            fs[q].data_type,
                            fuel,
                        ) is Ok && all[q] == (MessageFieldView {
                            data_type: spec_resolve_field_type(files, fs[q].data_type, fuel)->Ok_0,
                            ..fs[q]
                        })) by {
                            if q > 0 {
                                assert(fs.drop_first()[q - 1] == fs[q]);
                                assert(rest[q - 1] == (MessageFieldView {
                                    data_type: spec_resolve_field_type(
                                        files,
                                        fs.drop_first()[q - 1].data_type,
                                        fuel,
                                    )->Ok_0,
                                    ..fs.drop_first()[q - 1]
                                }));
                            } else {
                                assert(fs[q] == fs.first());
                                assert(spec_resolve_field_type(files, fs[q].data_type, fuel)
                                    == Ok::<FieldTypeView, RuneParserError>(t));
                            }
                        }
                    },
                }
            },
        }
    }
}

/// When field `k` fails to resolve and all earlier fields resolve, the
/// whole list fails the same way.
proof fn lemma_resolve_fields_err(
    files: Seq<RuneFileDescriptionView>,
    fs: Seq<MessageFieldView>,
    fuel: nat,
    k: int,
)
    requires
        0 <= k < fs.len(),
        spec_resolve_field_type(files, fs[k].data_type, fuel) is Err,
        forall|p: int| 0 <= p < k ==> spec_resolve_field_type(files, fs[p].data_type, fuel) is Ok,
    ensures
        spec_resolve_fields(files, fs, fuel) == Err::<Seq<MessageFieldView>, RuneParserError>(
            spec_resolve_field_type(files, fs[k].data_type, fuel)->Err_0,
        ),
    decreases k,
{
    assert(forall|q: int| 0 <= q < fs.len() - 1 ==> fs.drop_first()[q] == fs[q + 1]);
    if k == 0 {
    } else {
        lemma_resolve_fields_err(files, fs.drop_first(), fuel, k - 1);
    }
}

/// A message snapshot with every reference inside it resolved.
fn resolve_message_snapshot(
    files: &Vec<RuneFileDescription>,
    m: &MessageDefinition,
    fuel: usize,
) -> (r: Result<MessageDefinition, RuneParserError>)
    ensures
        match spec_resolve_message_snapshot(files.deep_view(), m@, fuel as nat) {
            Ok(v) => (r matches Ok(x) && x@ == v),
            Err(e) => r == Err::<MessageDefinition, RuneParserError>(e),
        },
    decreases fuel, 7int, 0int,
{
    let ghost mv = m@;
    let ghost fields_view = view_message_fields(m.fields@);
    proof {
        broadcast use lemma_view_message_fields;

    }
    let mut new_fields: Vec<MessageField> = Vec::new();
    let mut k: usize = 0;
    while k < m.fields.len()
        invariant
            k <= m.fields@.len(),
            mv == m@,
            fields_view == view_message_fields(m.fields@),
            mv.fields == fields_view,
            fields_view.len() == m.fields@.len(),
            forall|q: int|
                0 <= q < m.fields@.len() ==> fields_view[q] == view_message_field(m.fields@[q]),
            forall|q: int|
                0 <= q < k ==> spec_resolve_field_type(
                    files.deep_view(),
                    fields_view[q].data_type,
                    fuel as nat,
                ) is Ok,
            view_message_fields(new_fields@).len() == k as int,
            forall|q: int|
                0 <= q < k ==> view_message_fields(new_fields@)[q] == (MessageFieldView {
                    data_type: spec_resolve_field_type(
                        files.deep_view(),
                        fields_view[q].data_type,
                        fuel as nat,
                    )->Ok_0,
                    ..fields_view[q]
                }),
        decreases m.fields.len() - k,
    {
        proof {
            assert(fields_view[k as int] == view_message_field(m.fields@[k as int]));
        }
        let resolved_type = match resolve_field_type(files, &m.fields[k].data_type, fuel) {
            Ok(v) => v,
            Err(e) => {
                proof {
                    lemma_resolve_fields_err(files.deep_view(), fields_view, fuel as nat, k as int);
                }
                return Err(e);
            },
        };
        let f = &m.fields[k];
        let new_field = MessageField {
            identifier: f.identifier.clone(),
            data_type: resolved_type,
            index: f.index,
            comment: clone_comment(&f.comment),
        };
        let ghost pre = view_message_fields(new_fields@);
        let ghost nv = new_field@;
        new_fields.push(new_field);
        proof {
            broadcast use lemma_view_message_fields;

            assert(view_message_fields(new_fields@) =~= pre.push(nv));
        }
        k = k + 1;
    }
    let r = MessageDefinition {
        name: m.name.clone(),
        fields: new_fields,
        reserved_indexes: clone_field_indexes(&m.reserved_indexes),
        comment: clone_comment(&m.comment),
        orphan_comments: crate::bitfields::clone_orphan_comments(&m.orphan_comments),
    };
    proof {
        lemma_resolve_fields_shape(files.deep_view(), fields_view, fuel as nat);
        match spec_resolve_fields(files.deep_view(), fields_view, fuel as nat) {
            Ok(all) => {
                assert(view_message_fields(r.fields@) =~= all);
                assert(r@ =~= spec_resolve_message_snapshot(
                    files.deep_view(),
                    mv,
                    fuel as nat,
                )->Ok_0);
            },
            Err(e) => {
                assert(false);
            },
        }
    }
    Ok(r)
}


/// A declaration list links to a pointwise-resolved list of the same length
/// exactly when every declaration links; the first failure decides the
/// error.
proof fn lemma_link_messages_shape(
    files: Seq<RuneFileDescriptionView>,
    ms: Seq<MessageDefinitionView>,
    fuel: nat,
)
    ensures
        match spec_link_messages(files, ms, fuel) {
            Ok(all) => all.len() == ms.len() && forall|q: int|
                0 <= q < ms.len() ==> ((#[trigger] spec_resolve_message_snapshot(files, ms[q], fuel))
                    is Ok && all[q] == spec_resolve_message_snapshot(files, ms[q], fuel)->Ok_0),
            Err(e) => exists|q: int|
                0 <= q < ms.len() && spec_resolve_message_snapshot(files, ms[q], fuel) == Err::<
                    MessageDefinitionView,
                    RuneParserError,
                >(e) && forall|p: int|
                    0 <= p < q ==> spec_resolve_message_snapshot(files, ms[p], fuel) is Ok,
        },
    decreases ms.len(),
{
    if ms.len() > 0 {
        lemma_link_messages_shape(files, ms.drop_first(), fuel);
        assert(forall|q: int| 0 <= q < ms.len() - 1 ==> ms.drop_first()[q] == ms[q + 1]);
        match spec_resolve_message_snapshot(files, ms.first(), fuel) {
            Err(e) => {
                assert(spec_resolve_message_snapshot(files, ms[0], fuel) == Err::<
                    MessageDefinitionView,
                    RuneParserError,
                >(e));
            },
            Ok(m0) => {
                match spec_link_messages(files, ms.drop_first(), fuel) {
                    Err(e) => {
                        let q0 = choose|q: int|
                            0 <= q < ms.drop_first().len() && spec_resolve_message_snapshot(
                                files,
                                ms.drop_first()[q],
                                fuel,
                            ) == Err::<MessageDefinitionView, RuneParserError>(e) && forall|p: int|
                                0 <= p < q ==> spec_resolve_message_snapshot(
                                    files,
                                    ms.drop_first()[p],
                                    fuel,
                                ) is Ok;
                        assert(spec_resolve_message_snapshot(files, ms[q0 + 1], fuel) == Err::<
                            MessageDefinitionView,
                            RuneParserError,
                        >(e));
                        assert forall|p: int| 0 <= p < q0 + 1 implies spec_resolve_message_snapshot(
                            files,
                            ms[p],
                            fuel,
                        ) is Ok by {
                            if p > 0 {
                                assert(spec_resolve_message_snapshot(
                                    files,
                                    ms.drop_first()[p - 1],
                                    fuel,
                                ) is Ok);
                            }
                        }
                    },
                    Ok(rest) => {
                        let all = seq![m0] + rest;
                        assert(spec_link_messages(files, ms, fuel) == Ok::<
                            Seq<MessageDefinitionView>,
                            RuneParserError,
                        >(all));
                        assert forall|q: int|
                            0 <= q < ms.len() implies ((#[trigger] spec_resolve_message_snapshot(
                            files,
                            ms[q],
                            fuel,
                        )) is Ok && all[q] == spec_resolve_message_snapshot(files, ms[q], fuel)->Ok_0)
                            by {
                            if q > 0 {
                                assert(ms.drop_first()[q - 1] == ms[q]);
                                assert(rest[q - 1] == spec_resolve_message_snapshot(
                                    files,
                                    ms.drop_first()[q - 1],
                                    fuel,
                                )->Ok_0);
                                assert(spec_resolve_message_snapshot(
                                    files,
                                    ms.drop_first()[q - 1],
                                    fuel,
                                ) is Ok);
                            } else {
                                assert(ms[q] == ms.first());
                                assert(spec_resolve_message_snapshot(files, ms[q], fuel) == Ok::<
                                    MessageDefinitionView,
                                    RuneParserError,
                                >(m0));
                            }
                        }
                    },
                }
            },
        }
    }
}

/// When declaration `k` fails to link and all earlier ones link, the whole
/// list fails the same way.
proof fn lemma_link_messages_err(
    files: Seq<RuneFileDescriptionView>,
    ms: Seq<MessageDefinitionView>,
    fuel: nat,
    k: int,
)
    requires
        0 <= k < ms.len(),
        spec_resolve_message_snapshot(files, ms[k], fuel) is Err,
        forall|p: int| 0 <= p < k ==> spec_resolve_message_snapshot(files, ms[p], fuel) is Ok,
    ensures
        spec_link_messages(files, ms, fuel) == Err::<Seq<MessageDefinitionView>, RuneParserError>(
            spec_resolve_message_snapshot(files, ms[k], fuel)->Err_0,
        ),
    decreases k,
{
    assert(forall|q: int| 0 <= q < ms.len() - 1 ==> ms.drop_first()[q] == ms[q + 1]);
    if k == 0 {
    } else {
        lemma_link_messages_err(files, ms.drop_first(), fuel, k - 1);
    }
}

/// As for messages.
proof fn lemma_link_structs_shape(
    files: Seq<RuneFileDescriptionView>,
    ss: Seq<StructDefinitionView>,
    fuel: nat,
)
    ensures
        match spec_link_structs(files, ss, fuel) {
            Ok(all) => all.len() == ss.len() && forall|q: int|
                0 <= q < ss.len() ==> ((#[trigger] spec_resolve_struct_snapshot(files, ss[q], fuel))
                    is Ok && all[q] == spec_resolve_struct_snapshot(files, ss[q], fuel)->Ok_0),
            Err(e) => exists|q: int|
                0 <= q < ss.len() && spec_resolve_struct_snapshot(files, ss[q], fuel) == Err::<
                    StructDefinitionView,
                    RuneParserError,
                >(e) && forall|p: int|
                    0 <= p < q ==> spec_resolve_struct_snapshot(files, ss[p], fuel) is Ok,
        },
    decreases ss.len(),
{
    if ss.len() > 0 {
        lemma_link_structs_shape(files, ss.drop_first(), fuel);
        assert(forall|q: int| 0 <= q < ss.len() - 1 ==> ss.drop_first()[q] == ss[q + 1]);
        match spec_resolve_struct_snapshot(files, ss.first(), fuel) {
            Err(e) => {
                assert(spec_resolve_struct_snapshot(files, ss[0], fuel) == Err::<
                    StructDefinitionView,
                    RuneParserError,
                >(e));
            },
            Ok(s0) => {
                match spec_link_structs(files, ss.drop_first(), fuel) {
                    Err(e) => {
                        let q0 = choose|q: int|
                            0 <= q < ss.drop_first().len() && spec_resolve_struct_snapshot(
                                files,
                                ss.drop_first()[q],
                                fuel,
                            ) == Err::<StructDefinitionView, RuneParserError>(e) && forall|p: int|
                                0 <= p < q ==> spec_resolve_struct_snapshot(
                                    files,
                                    ss.drop_first()[p],
                                    fuel,
                                ) is Ok;
                        assert(spec_resolve_struct_snapshot(files, ss[q0 + 1], fuel) == Err::<
                            StructDefinitionView,
                            RuneParserError,
                        >(e));
                        assert forall|p: int| 0 <= p < q0 + 1 implies spec_resolve_struct_snapshot(
                            files,
                            ss[p],
                            fuel,
                        ) is Ok by {
                            if p > 0 {
                                assert(spec_resolve_struct_snapshot(
                                    files,
                                    ss.drop_first()[p - 1],
                                    fuel,
                                ) is Ok);
                            }
                        }
                    },
                    Ok(rest) => {
                        let all = seq![s0] + rest;
                        assert(spec_link_structs(files, ss, fuel) == Ok::<
                            Seq<StructDefinitionView>,
                            RuneParserError,
                        >(all));
                        assert forall|q: int|
                            0 <= q < ss.len() implies ((#[trigger] spec_resolve_struct_snapshot(
                            files,
                            ss[q],
                            fuel,
                        )) is Ok && all[q] == spec_resolve_struct_snapshot(files, ss[q], fuel)->Ok_0)
                            by {
                            if q > 0 {
                                assert(ss.drop_first()[q - 1] == ss[q]);
                                assert(rest[q - 1] == spec_resolve_struct_snapshot(
                                    files,
                                    ss.drop_first()[q - 1],
                                    fuel,
                                )->Ok_0);
                                assert(spec_resolve_struct_snapshot(
                                    files,
                                    ss.drop_first()[q - 1],
                                    fuel,
                                ) is Ok);
                            } else {
                                assert(ss[q] == ss.first());
                                assert(spec_resolve_struct_snapshot(files, ss[q], fuel) == Ok::<
                                    StructDefinitionView,
                                    RuneParserError,
                                >(s0));
                            }
                        }
                    },
                }
            },
        }
    }
}

/// As for messages.
proof fn lemma_link_structs_err(
    files: Seq<RuneFileDescriptionView>,
    ss: Seq<StructDefinitionView>,
    fuel: nat,
    k: int,
)
    requires
        0 <= k < ss.len(),
        spec_resolve_struct_snapshot(files, ss[k], fuel) is Err,
        forall|p: int| 0 <= p < k ==> spec_resolve_struct_snapshot(files, ss[p], fuel) is Ok,
    ensures
        spec_link_structs(files, ss, fuel) == Err::<Seq<StructDefinitionView>, RuneParserError>(
            spec_resolve_struct_snapshot(files, ss[k], fuel)->Err_0,
        ),
    decreases k,
{
    assert(forall|q: int| 0 <= q < ss.len() - 1 ==> ss.drop_first()[q] == ss[q + 1]);
    if k == 0 {
    } else {
        lemma_link_structs_err(files, ss.drop_first(), fuel, k - 1);
    }
}

/// One file with every message field and struct member resolved against
/// the baseline.
fn link_file(files: &Vec<RuneFileDescription>, file: &RuneFileDescription, fuel: usize) -> (r:
    Result<RuneFileDescription, RuneParserError>)
    ensures
        match spec_link_file(files.deep_view(), file@, fuel as nat) {
            Ok(v) => (r matches Ok(x) && x@ == v),
            Err(e) => r == Err::<RuneFileDescription, RuneParserError>(e),
        },
{
    let ghost filev = file@;
    let ghost msv = filev.definitions.messages;
    let mut new_messages: Vec<MessageDefinition> = Vec::new();
    let mut k: usize = 0;
    while k < file.definitions.messages.len()
        invariant
            k <= file.definitions.messages@.len(),
            filev == file@,
            msv == filev.definitions.messages,
            msv.len() == file.definitions.messages@.len(),
            forall|q: int|
                0 <= q < file.definitions.messages@.len() ==> msv[q] == view_message_def(
                    file.definitions.messages@[q],
                ),
            forall|q: int|
                0 <= q < k ==> spec_resolve_message_snapshot(files.deep_view(), msv[q], fuel as nat)
                    is Ok,
            new_messages@.len() == k as int,
            forall|q: int|
                0 <= q < k ==> new_messages.deep_view()[q] == spec_resolve_message_snapshot(
                    files.deep_view(),
                    msv[q],
                    fuel as nat,
                )->Ok_0,
        decreases file.definitions.messages.len() - k,
    {
        proof {
            assert(msv[k as int] == view_message_def(file.definitions.messages@[k as int]));
        }
        let linked = match resolve_message_snapshot(files, &file.definitions.messages[k], fuel) {
            Ok(v) => v,
            Err(e) => {
                proof {
                    lemma_link_messages_err(files.deep_view(), msv, fuel as nat, k as int);
                }
                return Err(e);
            },
        };
        let ghost pre = new_messages.deep_view();
        let ghost nv = linked@;
        new_messages.push(linked);
        proof {
            assert(new_messages.deep_view() =~= pre.push(nv));
        }
        k = k + 1;
    }

    proof {
        lemma_link_messages_shape(files.deep_view(), msv, fuel as nat);
        match spec_link_messages(files.deep_view(), msv, fuel as nat) {
            Ok(_) => {},
            Err(e) => {
                let q0 = choose|q: int|
                    0 <= q < msv.len() && spec_resolve_message_snapshot(
                        files.deep_view(),
                        msv[q],
                        fuel as nat,
                    ) == Err::<MessageDefinitionView, RuneParserError>(e) && forall|p: int|
                        0 <= p < q ==> spec_resolve_message_snapshot(
                            files.deep_view(),
                            msv[p],
                            fuel as nat,
                        ) is Ok;
                assert(spec_resolve_message_snapshot(files.deep_view(), msv[q0], fuel as nat)
                    is Ok);
                assert(false);
            },
        }
    }
    let ghost ssv = filev.definitions.structs;
    let mut new_structs: Vec<StructDefinition> = Vec::new();
    let mut k: usize = 0;
    while k < file.definitions.structs.len()
        invariant
            k <= file.definitions.structs@.len(),
            filev == file@,
            ssv == filev.definitions.structs,
            ssv.len() == file.definitions.structs@.len(),
            forall|q: int|
                0 <= q < file.definitions.structs@.len() ==> ssv[q] == view_struct_def(
                    file.definitions.structs@[q],
                ),
            forall|q: int|
                0 <= q < k ==> spec_resolve_struct_snapshot(files.deep_view(), ssv[q], fuel as nat)
                    is Ok,
            new_structs@.len() == k as int,
            forall|q: int|
                0 <= q < k ==> new_structs.deep_view()[q] == spec_resolve_struct_snapshot(
                    files.deep_view(),
                    ssv[q],
                    fuel as nat,
                )->Ok_0,
            spec_link_messages(files.deep_view(), filev.definitions.messages, fuel as nat) is Ok,
        decreases file.definitions.structs.len() - k,
    {
        proof {
            assert(ssv[k as int] == view_struct_def(file.definitions.structs@[k as int]));
        }
        let linked = match resolve_struct_snapshot(files, &file.definitions.structs[k], fuel) {
            Ok(v) => v,
            Err(e) => {
                proof {
                    lemma_link_structs_err(files.deep_view(), ssv, fuel as nat, k as int);
                }
                return Err(e);
            },
        };
        let ghost pre = new_structs.deep_view();
        let ghost nv = linked@;
        new_structs.push(linked);
        proof {
            assert(new_structs.deep_view() =~= pre.push(nv));
        }
        k = k + 1;
    }

    let r = RuneFileDescription {
        relative_path: file.relative_path.clone(),
        name: file.name.clone(),
        definitions: Definitions {
            bitfields: crate::extensions::clone_bitfield_defs(&file.definitions.bitfields),
            defines: clone_define_defs(&file.definitions.defines),
            redefines: clone_redefine_defs(&file.definitions.redefines),
            enums: crate::extensions::clone_enum_defs(&file.definitions.enums),
            extensions: file.definitions.extensions.clone(),
            includes: clone_includes(&file.definitions.includes),
            messages: new_messages,
            standalone_comments: crate::bitfields::clone_orphan_comments(
                &file.definitions.standalone_comments,
            ),
            structs: new_structs,
        },
    };
    proof {
        lemma_link_messages_shape(files.deep_view(), msv, fuel as nat);
        lemma_link_structs_shape(files.deep_view(), ssv, fuel as nat);
        match spec_link_messages(files.deep_view(), msv, fuel as nat) {
            Ok(all_ms) => {
                assert(r@.definitions.messages =~= all_ms);
            },
            Err(_) => {
                assert(false);
            },
        }
        match spec_link_structs(files.deep_view(), ssv, fuel as nat) {
            Ok(all_ss) => {
                assert(r@.definitions.structs =~= all_ss);
            },
            Err(_) => {
                assert(false);
            },
        }
        assert(r@ =~= spec_link_file(files.deep_view(), filev, fuel as nat)->Ok_0);
    }
    Ok(r)
}

/// The recursion budget: one step per struct and message declaration, plus
/// one, capped at what the machine can count.
fn link_fuel(files: &Vec<RuneFileDescription>) -> (r: usize)
    ensures
        r as int == spec_link_fuel_from(files.deep_view(), 0),
{
    let ghost fv = files.deep_view();
    let mut fuel: usize = 1;
    let mut i: usize = files.len();
    while i > 0
        invariant
            i <= files@.len(),
            fv == files.deep_view(),
            fv.len() == files@.len(),
            fuel as int == spec_link_fuel_from(fv, i as int),
        decreases i,
    {
        i = i - 1;
        proof {
            assert(fv[i as int] == files@[i as int]@);
        }
        let here = files[i].definitions.structs.len();
        let here2 = files[i].definitions.messages.len();
        proof {
            assert(fv[i as int].definitions.structs.len() == here as int);
            assert(fv[i as int].definitions.messages.len() == here2 as int);
        }
        fuel = match fuel.checked_add(here) {
            Some(v) => match v.checked_add(here2) {
                Some(w) => w,
                None => usize::MAX,
            },
            None => usize::MAX,
        };
    }
    fuel
}

/// When the files from `i` on all link, the result lists them pointwise.
#[verifier::rlimit(50)]
proof fn lemma_link_files_shape(files: Seq<RuneFileDescriptionView>, i: int, fuel: nat)
    requires
        0 <= i <= files.len(),
    ensures
        match spec_link_files_from(files, i, fuel) {
            Ok(all) => all.len() == files.len() - i && forall|q: int|
                i <= q < files.len() ==> (spec_link_file(files, files[q], fuel) is Ok && all[q - i]
                    == spec_link_file(files, files[q], fuel)->Ok_0),
            Err(e) => exists|q: int|
                i <= q < files.len() && spec_link_file(files, files[q], fuel) == Err::<
                    RuneFileDescriptionView,
                    RuneParserError,
                >(e) && forall|p: int|
                    i <= p < q ==> spec_link_file(files, files[p], fuel) is Ok,
        },
    decreases files.len() - i,
{
    if i < files.len() {
        lemma_link_files_shape(files, i + 1, fuel);
        match spec_link_file(files, files[i], fuel) {
            Err(e) => {},
            Ok(f0) => {
                match spec_link_files_from(files, i + 1, fuel) {
                    Err(e) => {},
                    Ok(rest) => {},
                }
            },
        }
    }
}

/// The type-linking pass.  Every message field and struct member that names
/// a user-defined type is resolved against an immutable baseline of the
/// whole file set into a frozen, fully self-contained snapshot; results are
/// written into a separate copy, so resolution never observes a partially
/// linked state.  A name found nowhere is undefined; a message used as a
/// struct member or array element is an invalid type use; a skipped field
/// has no type to link; a type that refers to itself, directly or through
/// others, is a cyclic definition.  On failure the files are left exactly
/// as they were.
pub fn link_user_definitions(definitions: &mut Vec<RuneFileDescription>) -> (r: Result<
    (),
    RuneParserError,
>)
    ensures
        match spec_link_user_definitions(old(definitions).deep_view()) {
            Ok(new_files) => r == Ok::<(), RuneParserError>(()) && final(definitions).deep_view()
                == new_files,
            Err(e) => r == Err::<(), RuneParserError>(e) && final(definitions).deep_view() == old(
                definitions,
            ).deep_view(),
        },
{
    let ghost files_view = definitions.deep_view();
    let fuel = link_fuel(definitions);
    let mut new_files: Vec<RuneFileDescription> = Vec::new();
    let mut i: usize = 0;
    while i < definitions.len()
        invariant
            i <= definitions@.len(),
            *definitions == *old(definitions),
            files_view == definitions.deep_view(),
            files_view.len() == definitions@.len(),
            fuel as int == spec_link_fuel_from(files_view, 0),
            forall|q: int|
                0 <= q < i ==> spec_link_file(files_view, files_view[q], fuel as nat) is Ok,
            new_files@.len() == i as int,
            forall|q: int|
                0 <= q < i ==> new_files.deep_view()[q] == spec_link_file(
                    files_view,
                    files_view[q],
                    fuel as nat,
                )->Ok_0,
        decreases definitions.len() - i,
    {
        proof {
            assert(files_view[i as int] == definitions@[i as int]@);
        }
        let linked = match link_file(definitions, &definitions[i], fuel) {
            Ok(v) => v,
            Err(e) => {
                proof {
                    lemma_link_files_shape(files_view, 0, fuel as nat);
                    match spec_link_files_from(files_view, 0, fuel as nat) {
                        Ok(all) => {
                            assert(spec_link_file(files_view, files_view[i as int], fuel as nat)
                                is Ok);
                            assert(false);
                        },
                        Err(e2) => {
                            let q0 = choose|q: int|
                                0 <= q < files_view.len() && spec_link_file(
                                    files_view,
                                    files_view[q],
                                    fuel as nat,
                                ) == Err::<RuneFileDescriptionView, RuneParserError>(e2) && forall|
                                    p: int,
                                |
                                    0 <= p < q ==> spec_link_file(
                                        files_view,
                                        files_view[p],
                                        fuel as nat,
                                    ) is Ok;
                            if q0 < i {
                                assert(spec_link_file(files_view, files_view[q0], fuel as nat)
                                    is Ok);
                                assert(false);
                            } else if q0 > i {
                                assert(spec_link_file(files_view, files_view[i as int], fuel as nat)
                                    is Ok);
                                assert(false);
                            }
                        },
                    }
                }
                return Err(e);
            },
        };
        let ghost pre = new_files.deep_view();
        let ghost nv = linked@;
        new_files.push(linked);
        proof {
            assert(new_files.deep_view() =~= pre.push(nv));
        }
        i = i + 1;
    }
    proof {
        lemma_link_files_shape(files_view, 0, fuel as nat);
        match spec_link_files_from(files_view, 0, fuel as nat) {
            Ok(all) => {},
            Err(e) => {
                let q0 = choose|q: int|
                    0 <= q < files_view.len() && spec_link_file(
                        files_view,
                        files_view[q],
                        fuel as nat,
                    ) == Err::<RuneFileDescriptionView, RuneParserError>(e) && forall|p: int|
                        0 <= p < q ==> spec_link_file(files_view, files_view[p], fuel as nat) is Ok;
                assert(spec_link_file(files_view, files_view[q0], fuel as nat) is Ok);
                assert(false);
            },
        }
    }
    *definitions = new_files;
    proof {
        assert(definitions.deep_view() =~= spec_link_user_definitions(files_view)->Ok_0);
    }
    Ok(())
}

} // verus!

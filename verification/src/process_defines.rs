//! The constant resolver: matches `redefine` statements to their `define`,
//! and fills in array element counts that reference a define by name.
//!
//! The pass first collects every define and redefine across all files into
//! immutable lookup tables and checks them, and only then rewrites the file
//! set; a failing run leaves the files untouched.

use vstd::prelude::*;
use crate::arrays::{clone_array_size, clone_array_type, Array, ArraySize, ArraySizeView,
    ArrayView};
use crate::defines::{clone_comment, DefineDefinition, DefineDefinitionView, DefineValue,
    RedefineDefinition, RedefineDefinitionView};
use crate::messages::{clone_field_type, lemma_view_message_fields, view_message_def,
    view_message_field, view_message_fields, FieldType, FieldTypeView, MessageDefinition,
    MessageDefinitionView, MessageField, MessageFieldView};
use crate::numeric::NumericLiteral;
use crate::schema::{clone_define_defs, clone_includes, clone_message_defs, clone_redefine_defs,
    Definitions, DefinitionsView, RuneFileDescription, RuneFileDescriptionView};
use crate::structs::{clone_member_type, lemma_view_struct_members, view_struct_def,
    view_struct_members, MemberType, MemberTypeView, StructDefinition, StructDefinitionView,
    StructMember, StructMemberView};
use crate::RuneParserError;

verus! {

// The model of the pass
// ----------------------

/// All defines across the file set, in file order.
pub open spec fn spec_all_defines(files: Seq<RuneFileDescriptionView>) -> Seq<DefineDefinitionView>
    decreases files,
{
    if files.len() == 0 {
        Seq::empty()
    } else {
        spec_all_defines(files.drop_last()) + files.last().definitions.defines
    }
}

/// All redefines across the file set, in file order.
pub open spec fn spec_all_redefines(files: Seq<RuneFileDescriptionView>) -> Seq<
    RedefineDefinitionView,
>
    decreases files,
{
    if files.len() == 0 {
        Seq::empty()
    } else {
        spec_all_redefines(files.drop_last()) + files.last().definitions.redefines
    }
}

/// Whether two defines share a name.
pub open spec fn spec_duplicate_define(ds: Seq<DefineDefinitionView>) -> bool {
    exists|i: int, j: int| 0 <= i < j < ds.len() && ds[i].name == ds[j].name
}

/// Whether two redefines share a name.
pub open spec fn spec_duplicate_redefine(rs: Seq<RedefineDefinitionView>) -> bool {
    exists|i: int, j: int| 0 <= i < j < rs.len() && rs[i].name == rs[j].name
}

/// The first redefine carrying the name, if any.
pub open spec fn spec_find_redefine(rs: Seq<RedefineDefinitionView>, name: Seq<char>) -> Option<
    RedefineDefinitionView,
>
    decreases rs,
{
    if rs.len() == 0 {
        None
    } else if rs.first().name == name {
        Some(rs.first())
    } else {
        spec_find_redefine(rs.drop_first(), name)
    }
}

/// The first define carrying the name, if any.
pub open spec fn spec_find_define(ds: Seq<DefineDefinitionView>, name: Seq<char>) -> Option<
    DefineDefinitionView,
>
    decreases ds,
{
    if ds.len() == 0 {
        None
    } else if ds.first().name == name {
        Some(ds.first())
    } else {
        spec_find_define(ds.drop_first(), name)
    }
}

/// A define with the first matching redefine attached; a define no redefine
/// names keeps whatever it had.
pub open spec fn spec_attach(d: DefineDefinitionView, rs: Seq<RedefineDefinitionView>)
    -> DefineDefinitionView {
    match spec_find_redefine(rs, d.name) {
        Some(r) => DefineDefinitionView { redefinition: Some(r), ..d },
        None => d,
    }
}

/// A define list with redefines attached throughout.
pub open spec fn spec_attached_defines(
    ds: Seq<DefineDefinitionView>,
    rs: Seq<RedefineDefinitionView>,
) -> Seq<DefineDefinitionView> {
    Seq::new(ds.len(), |i: int| spec_attach(ds[i], rs))
}

/// Whether an array count names a define whose value — after any
/// redefinition — is not a non-negative integer literal.  A count that
/// names no define is left for the size queries to reject; it is not an
/// error here.
pub open spec fn spec_size_ref_bad(ds: Seq<DefineDefinitionView>, s: ArraySizeView) -> bool {
    match s {
        ArraySizeView::Integer(_, _) => false,
        ArraySizeView::UserDefinition(dref) => match spec_find_define(ds, dref.name) {
            None => false,
            Some(d) => !(d.effective_value() matches DefineValue::NumericLiteral(
                NumericLiteral::PositiveInteger(_, _),
            )),
        },
    }
}

/// Whether a field type holds an array whose count is a bad define
/// reference.
pub open spec fn spec_field_type_ref_bad(ds: Seq<DefineDefinitionView>, t: FieldTypeView) -> bool {
    match t {
        FieldTypeView::Array(a) => spec_size_ref_bad(ds, a.element_count),
        _ => false,
    }
}

/// Whether a member type holds an array whose count is a bad define
/// reference.
pub open spec fn spec_member_type_ref_bad(ds: Seq<DefineDefinitionView>, t: MemberTypeView) -> bool {
    match t {
        MemberTypeView::Array(a) => spec_size_ref_bad(ds, a.element_count),
        _ => false,
    }
}

/// Whether any array count in the file is a bad define reference.
pub open spec fn spec_file_has_bad_ref(
    ds: Seq<DefineDefinitionView>,
    f: RuneFileDescriptionView,
) -> bool {
    ||| exists|j: int, k: int|
        0 <= j < f.definitions.messages.len() && 0 <= k < f.definitions.messages[j].fields.len()
            && spec_field_type_ref_bad(ds, f.definitions.messages[j].fields[k].data_type)
    ||| exists|j: int, k: int|
        0 <= j < f.definitions.structs.len() && 0 <= k < f.definitions.structs[j].members.len()
            && spec_member_type_ref_bad(ds, f.definitions.structs[j].members[k].data_type)
}

/// Whether any array count in the file set is a bad define reference.
pub open spec fn spec_files_have_bad_ref(
    ds: Seq<DefineDefinitionView>,
    files: Seq<RuneFileDescriptionView>,
) -> bool {
    exists|i: int| 0 <= i < files.len() && spec_file_has_bad_ref(ds, files[i])
}

/// An array count with its define reference resolved: the referenced
/// define's effective integer value is written into the reference.  Counts
/// that are plain integers, or that name no define, stay as they are.
pub open spec fn spec_resolved_size(ds: Seq<DefineDefinitionView>, s: ArraySizeView)
    -> ArraySizeView {
    match s {
        ArraySizeView::Integer(_, _) => s,
        ArraySizeView::UserDefinition(dref) => match spec_find_define(ds, dref.name) {
            None => s,
            Some(d) => match d.effective_value() {
                DefineValue::NumericLiteral(NumericLiteral::PositiveInteger(v, base)) =>
                    ArraySizeView::UserDefinition(
                    DefineDefinitionView {
                        value: DefineValue::NumericLiteral(
                            NumericLiteral::PositiveInteger(v, base),
                        ),
                        ..dref
                    },
                ),
                _ => s,
            },
        },
    }
}

/// A field type with any array count resolved.
pub open spec fn spec_resolved_field_type(ds: Seq<DefineDefinitionView>, t: FieldTypeView)
    -> FieldTypeView {
    match t {
        FieldTypeView::Array(a) => FieldTypeView::Array(
            ArrayView { element_count: spec_resolved_size(ds, a.element_count), ..a },
        ),
        _ => t,
    }
}

/// A member type with any array count resolved.
pub open spec fn spec_resolved_member_type(ds: Seq<DefineDefinitionView>, t: MemberTypeView)
    -> MemberTypeView {
    match t {
        MemberTypeView::Array(a) => MemberTypeView::Array(
            ArrayView { element_count: spec_resolved_size(ds, a.element_count), ..a },
        ),
        _ => t,
    }
}

/// A message with every field's array count resolved.
pub open spec fn spec_resolved_message(ds: Seq<DefineDefinitionView>, m: MessageDefinitionView)
    -> MessageDefinitionView {
    MessageDefinitionView {
        fields: Seq::new(
            m.fields.len(),
            |k: int| MessageFieldView {
                data_type: spec_resolved_field_type(ds, m.fields[k].data_type),
                ..m.fields[k]
            },
        ),
        ..m
    }
}

/// A struct with every member's array count resolved.
pub open spec fn spec_resolved_struct(ds: Seq<DefineDefinitionView>, s: StructDefinitionView)
    -> StructDefinitionView {
    StructDefinitionView {
        members: Seq::new(
            s.members.len(),
            |k: int| StructMemberView {
                data_type: spec_resolved_member_type(ds, s.members[k].data_type),
                ..s.members[k]
            },
        ),
        ..s
    }
}

/// A file after the pass: redefines attached to its defines, array counts
/// resolved in its messages and structs, everything else as it was.
pub open spec fn spec_apply_file(
    ds: Seq<DefineDefinitionView>,
    rs: Seq<RedefineDefinitionView>,
    f: RuneFileDescriptionView,
) -> RuneFileDescriptionView {
    RuneFileDescriptionView {
        definitions: DefinitionsView {
            defines: spec_attached_defines(f.definitions.defines, rs),
            messages: Seq::new(
                f.definitions.messages.len(),
                |j: int| spec_resolved_message(ds, f.definitions.messages[j]),
            ),
            structs: Seq::new(
                f.definitions.structs.len(),
                |j: int| spec_resolved_struct(ds, f.definitions.structs[j]),
            ),
            ..f.definitions
        },
        ..f
    }
}

/// The whole constant-resolution pass over the file set: collect all defines
/// and redefines, reject duplicate definitions, attach each redefine to its
/// define, and resolve every array count that references a define.  A
/// referenced define whose effective value is not a non-negative integer is
/// an invalid numeric value.
pub open spec fn spec_parse_define_statements(files: Seq<RuneFileDescriptionView>) -> Result<
    Seq<RuneFileDescriptionView>,
    RuneParserError,
> {
    let ds = spec_all_defines(files);
    let rs = spec_all_redefines(files);
    if spec_duplicate_define(ds) {
        Err(RuneParserError::MultipleDefinitions)
    } else if spec_duplicate_redefine(rs) {
        Err(RuneParserError::MultipleRedefinitions)
    } else {
        let ads = spec_attached_defines(ds, rs);
        if spec_files_have_bad_ref(ads, files) {
            Err(RuneParserError::InvalidNumericValue)
        } else {
            Ok(Seq::new(files.len(), |i: int| spec_apply_file(ads, rs, files[i])))
        }
    }
}


// The pass itself
// ----------------

/// Collects every define across the file set, in file order.
fn collect_defines(files: &Vec<RuneFileDescription>) -> (r: Vec<DefineDefinition>)
    ensures
        r.deep_view() == spec_all_defines(files.deep_view()),
{
    let ghost files_view = files.deep_view();
    let mut out: Vec<DefineDefinition> = Vec::new();
    let mut i: usize = 0;
    proof {
        assert(out.deep_view() =~= spec_all_defines(files_view.take(0)));
    }
    while i < files.len()
        invariant
            i <= files@.len(),
            files_view == files.deep_view(),
            files_view.len() == files@.len(),
            out.deep_view() == spec_all_defines(files_view.take(i as int)),
        decreases files.len() - i,
    {
        let ghost f = files_view[i as int];
        let ghost before = out.deep_view();
        let file = &files[i];
        proof {
            assert(files_view[i as int] == files@[i as int]@);
        }
        let mut k: usize = 0;
        proof {
            assert(f.definitions.defines.take(0) =~= Seq::<DefineDefinitionView>::empty());
            assert(out.deep_view() =~= before + f.definitions.defines.take(0));
        }
        while k < file.definitions.defines.len()
            invariant
                k <= file.definitions.defines@.len(),
                f == file@,
                out@.len() == before.len() + k,
                out.deep_view() == before + f.definitions.defines.take(k as int),
            decreases file.definitions.defines.len() - k,
        {
            out.push(file.definitions.defines[k].clone());
            proof {
                let ds = f.definitions.defines;
                assert(ds[k as int] == file.definitions.defines@[k as int]@);
                assert forall|x: int| 0 <= x < before.len() + k implies out.deep_view()[x] == (
                before + ds.take(k as int))[x] by {
                    assert(out@[x] == out@.take(out@.len() - 1)[x]);
                }
                assert(out.deep_view() =~= before + ds.take(k + 1));
            }
            k = k + 1;
        }
        proof {
            assert(f.definitions.defines.take(f.definitions.defines.len() as int)
                =~= f.definitions.defines);
            assert(files_view.take(i + 1).drop_last() =~= files_view.take(i as int));
            assert(files_view.take(i + 1).last() == files_view[i as int]);
            assert(out.deep_view() =~= spec_all_defines(files_view.take(i + 1)));
        }
        i = i + 1;
    }
    proof {
        assert(files_view.take(files@.len() as int) =~= files_view);
    }
    out
}

/// Collects every redefine across the file set, in file order.
fn collect_redefines(files: &Vec<RuneFileDescription>) -> (r: Vec<RedefineDefinition>)
    ensures
        r.deep_view() == spec_all_redefines(files.deep_view()),
{
    let ghost files_view = files.deep_view();
    let mut out: Vec<RedefineDefinition> = Vec::new();
    let mut i: usize = 0;
    proof {
        assert(out.deep_view() =~= spec_all_redefines(files_view.take(0)));
    }
    while i < files.len()
        invariant
            i <= files@.len(),
            files_view == files.deep_view(),
            files_view.len() == files@.len(),
            out.deep_view() == spec_all_redefines(files_view.take(i as int)),
        decreases files.len() - i,
    {
        let ghost f = files_view[i as int];
        let ghost before = out.deep_view();
        let file = &files[i];
        proof {
            assert(files_view[i as int] == files@[i as int]@);
        }
        let mut k: usize = 0;
        proof {
            assert(f.definitions.redefines.take(0) =~= Seq::<RedefineDefinitionView>::empty());
            assert(out.deep_view() =~= before + f.definitions.redefines.take(0));
        }
        while k < file.definitions.redefines.len()
            invariant
                k <= file.definitions.redefines@.len(),
                f == file@,
                out@.len() == before.len() + k,
                out.deep_view() == before + f.definitions.redefines.take(k as int),
            decreases file.definitions.redefines.len() - k,
        {
            out.push(file.definitions.redefines[k].clone());
            proof {
                let rs = f.definitions.redefines;
                assert(rs[k as int] == file.definitions.redefines@[k as int]@);
                assert forall|x: int| 0 <= x < before.len() + k implies out.deep_view()[x] == (
                before + rs.take(k as int))[x] by {
                    assert(out@[x] == out@.take(out@.len() - 1)[x]);
                }
                assert(out.deep_view() =~= before + rs.take(k + 1));
            }
            k = k + 1;
        }
        proof {
            assert(f.definitions.redefines.take(f.definitions.redefines.len() as int)
                =~= f.definitions.redefines);
            assert(files_view.take(i + 1).drop_last() =~= files_view.take(i as int));
            assert(files_view.take(i + 1).last() == files_view[i as int]);
            assert(out.deep_view() =~= spec_all_redefines(files_view.take(i + 1)));
        }
        i = i + 1;
    }
    proof {
        assert(files_view.take(files@.len() as int) =~= files_view);
    }
    out
}

/// Whether two defines of the list share a name.
fn defines_duplicated(ds: &Vec<DefineDefinition>) -> (r: bool)
    ensures
        r == spec_duplicate_define(ds.deep_view()),
{
    let n = ds.len();
    let mut i: usize = 0;
    while i < n
        invariant
            i <= n,
            n == ds@.len(),
            forall|a: int, b: int|
                0 <= a < b < ds.deep_view().len() && a < i ==> ds.deep_view()[a].name
                    != ds.deep_view()[b].name,
        decreases n - i,
    {
        let mut j: usize = i + 1;
        while j < n
            invariant
                i < j <= n,
                n == ds@.len(),
                forall|b: int| i < b < j ==> ds.deep_view()[i as int].name != ds.deep_view()[b].name,
            decreases n - j,
        {
            if ds[i].name == ds[j].name {
                proof {
                    assert(ds.deep_view()[i as int].name == ds.deep_view()[j as int].name);
                }
                return true;
            }
            j = j + 1;
        }
        i = i + 1;
    }
    false
}

/// Whether two redefines of the list share a name.
fn redefines_duplicated(rs: &Vec<RedefineDefinition>) -> (r: bool)
    ensures
        r == spec_duplicate_redefine(rs.deep_view()),
{
    let n = rs.len();
    let mut i: usize = 0;
    while i < n
        invariant
            i <= n,
            n == rs@.len(),
            forall|a: int, b: int|
                0 <= a < b < rs.deep_view().len() && a < i ==> rs.deep_view()[a].name
                    != rs.deep_view()[b].name,
        decreases n - i,
    {
        let mut j: usize = i + 1;
        while j < n
            invariant
                i < j <= n,
                n == rs@.len(),
                forall|b: int| i < b < j ==> rs.deep_view()[i as int].name != rs.deep_view()[b].name,
            decreases n - j,
        {
            if rs[i].name == rs[j].name {
                proof {
                    assert(rs.deep_view()[i as int].name == rs.deep_view()[j as int].name);
                }
                return true;
            }
            j = j + 1;
        }
        i = i + 1;
    }
    false
}

/// The first redefine carrying the name, copied out.
fn find_redefine_clone(rs: &Vec<RedefineDefinition>, name: &String) -> (r: Option<
    RedefineDefinition,
>)
    ensures
        match spec_find_redefine(rs.deep_view(), name@) {
            Some(v) => (r matches Some(c) && c@ == v),
            None => r is None,
        },
{
    let ghost rsv = rs.deep_view();
    let mut k: usize = 0;
    proof {
        assert(rsv.skip(0) =~= rsv);
    }
    while k < rs.len()
        invariant
            k <= rs@.len(),
            rsv == rs.deep_view(),
            rsv.len() == rs@.len(),
            spec_find_redefine(rsv, name@) == spec_find_redefine(rsv.skip(k as int), name@),
        decreases rs.len() - k,
    {
        proof {
            assert(rsv.skip(k as int).first() == rsv[k as int]);
            assert(rsv.skip(k as int).drop_first() =~= rsv.skip(k + 1));
            assert(rsv[k as int] == rs@[k as int]@);
        }
        if rs[k].name == *name {
            return Some(rs[k].clone());
        }
        k = k + 1;
    }
    proof {
        assert(rsv.skip(rs@.len() as int) =~= Seq::<RedefineDefinitionView>::empty());
    }
    None
}

/// The first define carrying the name, copied out.
fn find_define_clone(ds: &Vec<DefineDefinition>, name: &String) -> (r: Option<DefineDefinition>)
    ensures
        match spec_find_define(ds.deep_view(), name@) {
            Some(v) => (r matches Some(c) && c@ == v),
            None => r is None,
        },
{
    let ghost dsv = ds.deep_view();
    let mut k: usize = 0;
    proof {
        assert(dsv.skip(0) =~= dsv);
    }
    while k < ds.len()
        invariant
            k <= ds@.len(),
            dsv == ds.deep_view(),
            dsv.len() == ds@.len(),
            spec_find_define(dsv, name@) == spec_find_define(dsv.skip(k as int), name@),
        decreases ds.len() - k,
    {
        proof {
            assert(dsv.skip(k as int).first() == dsv[k as int]);
            assert(dsv.skip(k as int).drop_first() =~= dsv.skip(k + 1));
            assert(dsv[k as int] == ds@[k as int]@);
        }
        if ds[k].name == *name {
            return Some(ds[k].clone());
        }
        k = k + 1;
    }
    proof {
        assert(dsv.skip(ds@.len() as int) =~= Seq::<DefineDefinitionView>::empty());
    }
    None
}

/// Attaches the first matching redefine to each define of the list.
fn attach_redefines(ds: &Vec<DefineDefinition>, rs: &Vec<RedefineDefinition>) -> (r: Vec<
    DefineDefinition,
>)
    ensures
        r.deep_view() == spec_attached_defines(ds.deep_view(), rs.deep_view()),
{
    let ghost dsv = ds.deep_view();
    let ghost rsv = rs.deep_view();
    let mut out: Vec<DefineDefinition> = Vec::new();
    let mut i: usize = 0;
    while i < ds.len()
        invariant
            i <= ds@.len(),
            dsv == ds.deep_view(),
            rsv == rs.deep_view(),
            dsv.len() == ds@.len(),
            out@.len() == i as int,
            forall|q: int| 0 <= q < i ==> out.deep_view()[q] == spec_attach(dsv[q], rsv),
        decreases ds.len() - i,
    {
        proof {
            assert(dsv[i as int] == ds@[i as int]@);
        }
        let d = &ds[i];
        let attached = match find_redefine_clone(rs, &d.name) {
            Some(r) => DefineDefinition {
                name: d.name.clone(),
                value: d.value,
                comment: clone_comment(&d.comment),
                redefinition: Some(r),
            },
            None => d.clone(),
        };
        proof {
            assert(attached@ =~= spec_attach(dsv[i as int], rsv));
        }
        let ghost pre = out.deep_view();
        let ghost attached_view = attached@;
        out.push(attached);
        proof {
            assert(out.deep_view() =~= pre.push(attached_view));
        }
        i = i + 1;
    }
    proof {
        assert(out.deep_view() =~= spec_attached_defines(dsv, rsv));
    }
    out
}

/// Resolves one array count against the attached define table, or reports
/// the reference as an invalid numeric value.
fn resolve_array_size(ads: &Vec<DefineDefinition>, s: &ArraySize) -> (r: Result<
    ArraySize,
    RuneParserError,
>)
    ensures
        spec_size_ref_bad(ads.deep_view(), s@) ==> r == Err::<ArraySize, RuneParserError>(
            RuneParserError::InvalidNumericValue,
        ),
        !spec_size_ref_bad(ads.deep_view(), s@) ==> (r matches Ok(v) && v@ == spec_resolved_size(
            ads.deep_view(),
            s@,
        )),
{
    match s {
        ArraySize::Integer(_, _) => Ok(clone_array_size(s)),
        ArraySize::UserDefinition(dref) => match find_define_clone(ads, &dref.name) {
            None => Ok(clone_array_size(s)),
            Some(d) => {
                let effective = match &d.redefinition {
                    Some(r) => &r.value,
                    None => &d.value,
                };
                match effective {
                    DefineValue::NumericLiteral(NumericLiteral::PositiveInteger(v, base)) => {
                        let resolved = ArraySize::UserDefinition(
                            DefineDefinition {
                                name: dref.name.clone(),
                                value: DefineValue::NumericLiteral(
                                    NumericLiteral::PositiveInteger(*v, *base),
                                ),
                                comment: clone_comment(&dref.comment),
                                redefinition: match &dref.redefinition {
                                    Some(rd) => Some(rd.clone()),
                                    None => None,
                                },
                            },
                        );
                        proof {
                            assert(resolved@ =~= spec_resolved_size(ads.deep_view(), s@));
                        }
                        Ok(resolved)
                    },
                    _ => Err(RuneParserError::InvalidNumericValue),
                }
            },
        },
    }
}


/// Resolves one message field's array count, keeping everything else.
fn resolve_field(ads: &Vec<DefineDefinition>, f: &MessageField) -> (r: Result<
    MessageField,
    RuneParserError,
>)
    ensures
        spec_field_type_ref_bad(ads.deep_view(), f@.data_type) ==> r == Err::<
            MessageField,
            RuneParserError,
        >(RuneParserError::InvalidNumericValue),
        !spec_field_type_ref_bad(ads.deep_view(), f@.data_type) ==> (r matches Ok(v) && v@
            == (MessageFieldView {
            data_type: spec_resolved_field_type(ads.deep_view(), f@.data_type),
            ..f@
        })),
{
    let data_type = match &f.data_type {
        FieldType::Array(a) => {
            let count = match resolve_array_size(ads, &a.element_count) {
                Ok(c) => c,
                Err(e) => {
                    return Err(e);
                },
            };
            FieldType::Array(Array { data_type: clone_array_type(&a.data_type), element_count: count })
        },
        other => clone_field_type(other),
    };
    let r = MessageField {
        identifier: f.identifier.clone(),
        data_type,
        index: f.index,
        comment: clone_comment(&f.comment),
    };
    proof {
        assert(r@ =~= (MessageFieldView {
            data_type: spec_resolved_field_type(ads.deep_view(), f@.data_type),
            ..f@
        }));
    }
    Ok(r)
}

/// Resolves every field of a message.
fn resolve_message(ads: &Vec<DefineDefinition>, m: &MessageDefinition) -> (r: Result<
    MessageDefinition,
    RuneParserError,
>)
    ensures
        (exists|k: int|
            0 <= k < m@.fields.len() && spec_field_type_ref_bad(
                ads.deep_view(),
                m@.fields[k].data_type,
            )) ==> r == Err::<MessageDefinition, RuneParserError>(
            RuneParserError::InvalidNumericValue,
        ),
        !(exists|k: int|
            0 <= k < m@.fields.len() && spec_field_type_ref_bad(
                ads.deep_view(),
                m@.fields[k].data_type,
            )) ==> (r matches Ok(v) && v@ == spec_resolved_message(ads.deep_view(), m@)),
{
    let ghost mv = m@;
    let ghost fields_view = view_message_fields(m.fields@);
    proof {
        broadcast use lemma_view_message_fields;

    }
    let mut new_fields: Vec<MessageField> = Vec::new();
    let mut k: usize = 0;
    while k < m.fields.len()
        invariant
            k <= m.fields@.len(),
            mv == m@,
            fields_view == view_message_fields(m.fields@),
            mv.fields == fields_view,
            fields_view.len() == m.fields@.len(),
            forall|q: int|
                0 <= q < m.fields@.len() ==> fields_view[q] == view_message_field(m.fields@[q]),
            new_fields@.len() == k as int,
            forall|q: int|
                0 <= q < k ==> !spec_field_type_ref_bad(ads.deep_view(), fields_view[q].data_type),
            forall|q: int|
                0 <= q < k ==> new_fields.deep_view()[q] == (MessageFieldView {
                    data_type: spec_resolved_field_type(ads.deep_view(), fields_view[q].data_type),
                    ..fields_view[q]
                }),
        decreases m.fields.len() - k,
    {
        proof {
            assert(fields_view[k as int] == view_message_field(m.fields@[k as int]));
        }
        let resolved = match resolve_field(ads, &m.fields[k]) {
            Ok(v) => v,
            Err(e) => {
                return Err(e);
            },
        };
        let ghost pre = new_fields.deep_view();
        let ghost rv = resolved@;
        new_fields.push(resolved);
        proof {
            assert(new_fields.deep_view() =~= pre.push(rv));
        }
        k = k + 1;
    }
    proof {
        broadcast use lemma_view_message_fields;

        assert forall|q: int| 0 <= q < new_fields@.len() implies view_message_fields(
            new_fields@,
        )[q] == spec_resolved_message(ads.deep_view(), mv).fields[q] by {
            assert(new_fields.deep_view()[q] == view_message_field(new_fields@[q]));
        }
        assert(view_message_fields(new_fields@) =~= spec_resolved_message(
            ads.deep_view(),
            mv,
        ).fields);
    }
    let r = MessageDefinition {
        name: m.name.clone(),
        fields: new_fields,
        reserved_indexes: crate::messages::clone_field_indexes(&m.reserved_indexes),
        comment: clone_comment(&m.comment),
        orphan_comments: crate::bitfields::clone_orphan_comments(&m.orphan_comments),
    };
    proof {
        assert(r@ =~= spec_resolved_message(ads.deep_view(), mv));
    }
    Ok(r)
}

/// Resolves one struct member's array count, keeping everything else.
fn resolve_member(ads: &Vec<DefineDefinition>, m: &StructMember) -> (r: Result<
    StructMember,
    RuneParserError,
>)
    ensures
        spec_member_type_ref_bad(ads.deep_view(), m@.data_type) ==> r == Err::<
            StructMember,
            RuneParserError,
        >(RuneParserError::InvalidNumericValue),
        !spec_member_type_ref_bad(ads.deep_view(), m@.data_type) ==> (r matches Ok(v) && v@
            == (StructMemberView {
            data_type: spec_resolved_member_type(ads.deep_view(), m@.data_type),
            ..m@
        })),
{
    let data_type = match &m.data_type {
        MemberType::Array(a) => {
            let count = match resolve_array_size(ads, &a.element_count) {
                Ok(c) => c,
                Err(e) => {
                    return Err(e);
                },
            };
            MemberType::Array(Array { data_type: clone_array_type(&a.data_type), element_count: count })
        },
        other => clone_member_type(other),
    };
    let r = StructMember {
        identifier: m.identifier.clone(),
        data_type,
        index: m.index,
        comment: clone_comment(&m.comment),
    };
    proof {
        assert(r@ =~= (StructMemberView {
            data_type: spec_resolved_member_type(ads.deep_view(), m@.data_type),
            ..m@
        }));
    }
    Ok(r)
}

/// Resolves every member of a struct.
fn resolve_struct(ads: &Vec<DefineDefinition>, s: &StructDefinition) -> (r: Result<
    StructDefinition,
    RuneParserError,
>)
    ensures
        (exists|k: int|
            0 <= k < s@.members.len() && spec_member_type_ref_bad(
                ads.deep_view(),
                s@.members[k].data_type,
            )) ==> r == Err::<StructDefinition, RuneParserError>(
            RuneParserError::InvalidNumericValue,
        ),
        !(exists|k: int|
            0 <= k < s@.members.len() && spec_member_type_ref_bad(
                ads.deep_view(),
                s@.members[k].data_type,
            )) ==> (r matches Ok(v) && v@ == spec_resolved_struct(ads.deep_view(), s@)),
{
    let ghost sv = s@;
    let ghost members_view = view_struct_members(s.members@);
    proof {
        broadcast use lemma_view_struct_members;

    }
    let mut new_members: Vec<StructMember> = Vec::new();
    let mut k: usize = 0;
    while k < s.members.len()
        invariant
            k <= s.members@.len(),
            sv == s@,
            members_view == view_struct_members(s.members@),
            sv.members == members_view,
            members_view.len() == s.members@.len(),
            forall|q: int|
                0 <= q < s.members@.len() ==> members_view[q] == crate::structs::view_struct_member(
                    s.members@[q],
                ),
            new_members@.len() == k as int,
            forall|q: int|
                0 <= q < k ==> !spec_member_type_ref_bad(ads.deep_view(), members_view[q].data_type),
            forall|q: int|
                0 <= q < k ==> new_members.deep_view()[q] == (StructMemberView {
                    data_type: spec_resolved_member_type(ads.deep_view(), members_view[q].data_type),
                    ..members_view[q]
                }),
        decreases s.members.len() - k,
    {
        proof {
            assert(members_view[k as int] == crate::structs::view_struct_member(
                s.members@[k as int],
            ));
        }
        let resolved = match resolve_member(ads, &s.members[k]) {
            Ok(v) => v,
            Err(e) => {
                return Err(e);
            },
        };
        let ghost pre = new_members.deep_view();
        let ghost rv = resolved@;
        new_members.push(resolved);
        proof {
            assert(new_members.deep_view() =~= pre.push(rv));
        }
        k = k + 1;
    }
    proof {
        broadcast use lemma_view_struct_members;

        assert forall|q: int| 0 <= q < new_members@.len() implies view_struct_members(
            new_members@,
        )[q] == spec_resolved_struct(ads.deep_view(), sv).members[q] by {
            assert(new_members.deep_view()[q] == crate::structs::view_struct_member(
                new_members@[q],
            ));
        }
        assert(view_struct_members(new_members@) =~= spec_resolved_struct(
            ads.deep_view(),
            sv,
        ).members);
    }
    let r = StructDefinition {
        name: s.name.clone(),
        members: new_members,
        reserved_indexes: crate::bitfields::clone_u64s(&s.reserved_indexes),
        comment: clone_comment(&s.comment),
        orphan_comments: crate::bitfields::clone_orphan_comments(&s.orphan_comments),
    };
    proof {
        assert(r@ =~= spec_resolved_struct(ads.deep_view(), sv));
    }
    Ok(r)
}

/// Applies the pass to one file: attaches redefines to its defines, and
/// resolves the array counts of its messages and structs.
fn apply_defines_to_file(
    ads: &Vec<DefineDefinition>,
    rs: &Vec<RedefineDefinition>,
    file: &RuneFileDescription,
) -> (r: Result<RuneFileDescription, RuneParserError>)
    ensures
        spec_file_has_bad_ref(ads.deep_view(), file@) ==> r == Err::<
            RuneFileDescription,
            RuneParserError,
        >(RuneParserError::InvalidNumericValue),
        !spec_file_has_bad_ref(ads.deep_view(), file@) ==> (r matches Ok(v) && v@ == spec_apply_file(
            ads.deep_view(),
            rs.deep_view(),
            file@,
        )),
{
    let ghost fv = file@;
    let new_defines = attach_redefines(&file.definitions.defines, rs);

    let mut new_messages: Vec<MessageDefinition> = Vec::new();
    let mut j: usize = 0;
    while j < file.definitions.messages.len()
        invariant
            j <= file.definitions.messages@.len(),
            fv == file@,
            fv.definitions.messages.len() == file.definitions.messages@.len(),
            forall|q: int|
                0 <= q < file.definitions.messages@.len() ==> fv.definitions.messages[q]
                    == view_message_def(file.definitions.messages@[q]),
            new_messages@.len() == j as int,
            forall|q: int, k: int|
                0 <= q < j && 0 <= k < fv.definitions.messages[q].fields.len()
                    ==> !spec_field_type_ref_bad(
                    ads.deep_view(),
                    fv.definitions.messages[q].fields[k].data_type,
                ),
            forall|q: int|
                0 <= q < j ==> new_messages.deep_view()[q] == spec_resolved_message(
                    ads.deep_view(),
                    fv.definitions.messages[q],
                ),
        decreases file.definitions.messages.len() - j,
    {
        proof {
            assert(fv.definitions.messages[j as int] == view_message_def(
                file.definitions.messages@[j as int],
            ));
        }
        let resolved = match resolve_message(ads, &file.definitions.messages[j]) {
            Ok(v) => v,
            Err(e) => {
                return Err(e);
            },
        };
        let ghost pre = new_messages.deep_view();
        let ghost rv = resolved@;
        new_messages.push(resolved);
        proof {
            assert(new_messages.deep_view() =~= pre.push(rv));
        }
        j = j + 1;
    }

    let mut new_structs: Vec<StructDefinition> = Vec::new();
    let mut j: usize = 0;
    while j < file.definitions.structs.len()
        invariant
            j <= file.definitions.structs@.len(),
            fv == file@,
            fv.definitions.structs.len() == file.definitions.structs@.len(),
            forall|q: int|
                0 <= q < file.definitions.structs@.len() ==> fv.definitions.structs[q]
                    == view_struct_def(file.definitions.structs@[q]),
            new_structs@.len() == j as int,
            forall|q: int, k: int|
                0 <= q < j && 0 <= k < fv.definitions.structs[q].members.len()
                    ==> !spec_member_type_ref_bad(
                    ads.deep_view(),
                    fv.definitions.structs[q].members[k].data_type,
                ),
            forall|q: int|
                0 <= q < j ==> new_structs.deep_view()[q] == spec_resolved_struct(
                    ads.deep_view(),
                    fv.definitions.structs[q],
                ),
        decreases file.definitions.structs.len() - j,
    {
        proof {
            assert(fv.definitions.structs[j as int] == view_struct_def(
                file.definitions.structs@[j as int],
            ));
        }
        let resolved = match resolve_struct(ads, &file.definitions.structs[j]) {
            Ok(v) => v,
            Err(e) => {
                return Err(e);
            },
        };
        let ghost pre = new_structs.deep_view();
        let ghost rv = resolved@;
        new_structs.push(resolved);
        proof {
            assert(new_structs.deep_view() =~= pre.push(rv));
        }
        j = j + 1;
    }

    let r = RuneFileDescription {
        relative_path: file.relative_path.clone(),
        name: file.name.clone(),
        definitions: Definitions {
            bitfields: crate::extensions::clone_bitfield_defs(&file.definitions.bitfields),
            defines: new_defines,
            redefines: clone_redefine_defs(&file.definitions.redefines),
            enums: crate::extensions::clone_enum_defs(&file.definitions.enums),
            extensions: file.definitions.extensions.clone(),
            includes: clone_includes(&file.definitions.includes),
            messages: new_messages,
            standalone_comments: crate::bitfields::clone_orphan_comments(
                &file.definitions.standalone_comments,
            ),
            structs: new_structs,
        },
    };
    proof {
        assert(r@.definitions.messages =~= spec_apply_file(
            ads.deep_view(),
            rs.deep_view(),
            fv,
        ).definitions.messages);
        assert(r@.definitions.structs =~= spec_apply_file(
            ads.deep_view(),
            rs.deep_view(),
            fv,
        ).definitions.structs);
        assert(r@ =~= spec_apply_file(ads.deep_view(), rs.deep_view(), fv));
    }
    Ok(r)
}

/// The constant-resolution pass.  Collects every define and redefine across
/// the file set into immutable tables, rejects duplicate definitions,
/// attaches each redefine to its define, and resolves every array element
/// count that references a define to the define's — possibly redefined —
/// value.  On failure the files are left exactly as they were.  Redefines
/// that match no define are ignored.
pub fn parse_define_statements(definitions: &mut Vec<RuneFileDescription>) -> (r: Result<
    (),
    RuneParserError,
>)
    ensures
        match spec_parse_define_statements(old(definitions).deep_view()) {
            Ok(new_files) => r == Ok::<(), RuneParserError>(()) && final(definitions).deep_view()
                == new_files,
            Err(e) => r == Err::<(), RuneParserError>(e) && final(definitions).deep_view() == old(
                definitions,
            ).deep_view(),
        },
{
    let ghost files_view = definitions.deep_view();

    // Collect all defines and redefines across all files
    let defines_list = collect_defines(definitions);
    let redefines_list = collect_redefines(definitions);

    // Check for multiple definitions of the same define or redefine
    if defines_duplicated(&defines_list) {
        return Err(RuneParserError::MultipleDefinitions);
    }
    if redefines_duplicated(&redefines_list) {
        return Err(RuneParserError::MultipleRedefinitions);
    }

    // Attach each redefine to its define, so that lookups see the
    // overriding value
    let attached = attach_redefines(&defines_list, &redefines_list);

    // Rewrite the files against the immutable tables
    let mut new_files: Vec<RuneFileDescription> = Vec::new();
    let mut i: usize = 0;
    while i < definitions.len()
        invariant
            i <= definitions@.len(),
            *definitions == *old(definitions),
            files_view == definitions.deep_view(),
            files_view.len() == definitions@.len(),
            !spec_duplicate_define(spec_all_defines(files_view)),
            !spec_duplicate_redefine(spec_all_redefines(files_view)),
            attached.deep_view() == spec_attached_defines(
                spec_all_defines(files_view),
                spec_all_redefines(files_view),
            ),
            redefines_list.deep_view() == spec_all_redefines(files_view),
            new_files@.len() == i as int,
            forall|q: int|
                0 <= q < i ==> !spec_file_has_bad_ref(attached.deep_view(), files_view[q]),
            forall|q: int|
                0 <= q < i ==> new_files.deep_view()[q] == spec_apply_file(
                    attached.deep_view(),
                    redefines_list.deep_view(),
                    files_view[q],
                ),
        decreases definitions.len() - i,
    {
        proof {
            assert(files_view[i as int] == definitions@[i as int]@);
        }
        let new_file = match apply_defines_to_file(&attached, &redefines_list, &definitions[i]) {
            Ok(v) => v,
            Err(e) => {
                proof {
                    assert(spec_files_have_bad_ref(attached.deep_view(), files_view));
                }
                return Err(e);
            },
        };
        let ghost pre = new_files.deep_view();
        let ghost nv = new_file@;
        new_files.push(new_file);
        proof {
            assert(new_files.deep_view() =~= pre.push(nv));
        }
        i = i + 1;
    }
    proof {
        assert(!spec_files_have_bad_ref(attached.deep_view(), files_view));
    }
    *definitions = new_files;
    proof {
        assert(definitions.deep_view() =~= spec_parse_define_statements(files_view)->Ok_0);
    }
    Ok(())
}

} // verus!

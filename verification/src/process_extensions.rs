//! The extension merger: gathers `extend` fragments from every file, checks
//! same-named fragments against each other, and — when splicing is enabled —
//! appends the merged members to the original declaration and records the
//! contributing files as include dependencies.
//!
//! The pass first collects every fragment across all files into immutable
//! tables and checks them, and only then rewrites the file set; a failing
//! run leaves the files untouched.

use vstd::prelude::*;
use vstd::multiset::Multiset;
use crate::bitfields::{BitfieldDefinition, BitfieldDefinitionView, BitfieldMember,
    BitfieldMemberView};
use crate::defines::clone_comment;
use crate::enums::{EnumDefinition, EnumDefinitionView, EnumMember, EnumMemberView};
use crate::includes::IncludeDefinition;
use crate::schema::{clone_define_defs, clone_includes, clone_message_defs, clone_redefine_defs,
    Definitions, DefinitionsView, RuneFileDescription, RuneFileDescriptionView};
use crate::structs::{clone_struct_member, lemma_view_struct_members, view_struct_def,
    view_struct_members, StructDefinition, StructDefinitionView, StructMember, StructMemberView};
use crate::RuneParserError;

verus! {

// Fragment tables
// ----------------

/// Every bitfield fragment across the file set, each with the name of the
/// file that contributed it, in file-discovery order.
pub open spec fn spec_bitfield_fragments(files: Seq<RuneFileDescriptionView>) -> Seq<
    (Seq<char>, BitfieldDefinitionView),
>
    decreases files,
{
    if files.len() == 0 {
        Seq::empty()
    } else {
        spec_bitfield_fragments(files.drop_last()) + Seq::new(
            files.last().definitions.extensions.bitfields.len(),
            |k: int| (files.last().name, files.last().definitions.extensions.bitfields[k]),
        )
    }
}

/// Every enum fragment across the file set, with its contributing file.
pub open spec fn spec_enum_fragments(files: Seq<RuneFileDescriptionView>) -> Seq<
    (Seq<char>, EnumDefinitionView),
>
    decreases files,
{
    if files.len() == 0 {
        Seq::empty()
    } else {
        spec_enum_fragments(files.drop_last()) + Seq::new(
            files.last().definitions.extensions.enums.len(),
            |k: int| (files.last().name, files.last().definitions.extensions.enums[k]),
        )
    }
}

/// Every struct fragment across the file set, with its contributing file.
pub open spec fn spec_struct_fragments(files: Seq<RuneFileDescriptionView>) -> Seq<
    (Seq<char>, StructDefinitionView),
>
    decreases files,
{
    if files.len() == 0 {
        Seq::empty()
    } else {
        spec_struct_fragments(files.drop_last()) + Seq::new(
            files.last().definitions.extensions.structs.len(),
            |k: int| (files.last().name, files.last().definitions.extensions.structs[k]),
        )
    }
}

// Collision conditions
// ---------------------

/// Whether the two bitfield member lists share an identifier.
pub open spec fn spec_bf_members_share_ident(
    a: Seq<BitfieldMemberView>,
    b: Seq<BitfieldMemberView>,
) -> bool {
    exists|x: int, y: int|
        0 <= x < a.len() && 0 <= y < b.len() && a[x].identifier == b[y].identifier
}

/// Whether the two enum member lists share an identifier.
pub open spec fn spec_en_members_share_ident(
    a: Seq<EnumMemberView>,
    b: Seq<EnumMemberView>,
) -> bool {
    exists|x: int, y: int|
        0 <= x < a.len() && 0 <= y < b.len() && a[x].identifier == b[y].identifier
}

/// Whether the two struct member lists share an identifier.
pub open spec fn spec_st_members_share_ident(
    a: Seq<StructMemberView>,
    b: Seq<StructMemberView>,
) -> bool {
    exists|x: int, y: int|
        0 <= x < a.len() && 0 <= y < b.len() && a[x].identifier == b[y].identifier
}

/// Whether two same-named bitfield fragments disagree on the backing type.
pub open spec fn spec_bf_frags_mismatch(frags: Seq<(Seq<char>, BitfieldDefinitionView)>) -> bool {
    exists|i: int, j: int|
        0 <= i < frags.len() && 0 <= j < frags.len() && i != j && frags[i].1.name
            == frags[j].1.name && frags[i].1.backing_type != frags[j].1.backing_type
}

/// Whether two same-named bitfield fragments share a member identifier.
pub open spec fn spec_bf_frags_collide(frags: Seq<(Seq<char>, BitfieldDefinitionView)>) -> bool {
    exists|i: int, j: int|
        0 <= i < frags.len() && 0 <= j < frags.len() && i != j && frags[i].1.name
            == frags[j].1.name && spec_bf_members_share_ident(
            frags[i].1.members,
            frags[j].1.members,
        )
}

/// Whether two same-named enum fragments disagree on the backing type.
pub open spec fn spec_en_frags_mismatch(frags: Seq<(Seq<char>, EnumDefinitionView)>) -> bool {
    exists|i: int, j: int|
        0 <= i < frags.len() && 0 <= j < frags.len() && i != j && frags[i].1.name
            == frags[j].1.name && frags[i].1.backing_type != frags[j].1.backing_type
}

/// Whether two same-named enum fragments share a member identifier.
pub open spec fn spec_en_frags_collide(frags: Seq<(Seq<char>, EnumDefinitionView)>) -> bool {
    exists|i: int, j: int|
        0 <= i < frags.len() && 0 <= j < frags.len() && i != j && frags[i].1.name
            == frags[j].1.name && spec_en_members_share_ident(
            frags[i].1.members,
            frags[j].1.members,
        )
}

/// Whether two same-named struct fragments share a member identifier.
pub open spec fn spec_st_frags_collide(frags: Seq<(Seq<char>, StructDefinitionView)>) -> bool {
    exists|i: int, j: int|
        0 <= i < frags.len() && 0 <= j < frags.len() && i != j && frags[i].1.name
            == frags[j].1.name && spec_st_members_share_ident(
            frags[i].1.members,
            frags[j].1.members,
        )
}

/// Whether a bitfield fragment disagrees with an original declaration on
/// the backing type.
pub open spec fn spec_bf_orig_mismatch(
    frags: Seq<(Seq<char>, BitfieldDefinitionView)>,
    files: Seq<RuneFileDescriptionView>,
) -> bool {
    exists|g: int, i: int, j: int|
        0 <= g < frags.len() && 0 <= i < files.len() && 0 <= j
            < files[i].definitions.bitfields.len() && files[i].definitions.bitfields[j].name
            == frags[g].1.name && files[i].definitions.bitfields[j].backing_type
            != frags[g].1.backing_type
}

/// Whether a bitfield fragment shares a member identifier with an original
/// declaration it targets.
pub open spec fn spec_bf_orig_collide(
    frags: Seq<(Seq<char>, BitfieldDefinitionView)>,
    files: Seq<RuneFileDescriptionView>,
) -> bool {
    exists|g: int, i: int, j: int|
        0 <= g < frags.len() && 0 <= i < files.len() && 0 <= j
            < files[i].definitions.bitfields.len() && files[i].definitions.bitfields[j].name
            == frags[g].1.name && spec_bf_members_share_ident(
            files[i].definitions.bitfields[j].members,
            frags[g].1.members,
        )
}

/// Whether an enum fragment disagrees with an original declaration on the
/// backing type.
pub open spec fn spec_en_orig_mismatch(
    frags: Seq<(Seq<char>, EnumDefinitionView)>,
    files: Seq<RuneFileDescriptionView>,
) -> bool {
    exists|g: int, i: int, j: int|
        0 <= g < frags.len() && 0 <= i < files.len() && 0 <= j < files[i].definitions.enums.len()
            && files[i].definitions.enums[j].name == frags[g].1.name
            && files[i].definitions.enums[j].backing_type != frags[g].1.backing_type
}

/// Whether an enum fragment shares a member identifier with an original
/// declaration it targets.
pub open spec fn spec_en_orig_collide(
    frags: Seq<(Seq<char>, EnumDefinitionView)>,
    files: Seq<RuneFileDescriptionView>,
) -> bool {
    exists|g: int, i: int, j: int|
        0 <= g < frags.len() && 0 <= i < files.len() && 0 <= j < files[i].definitions.enums.len()
            && files[i].definitions.enums[j].name == frags[g].1.name
            && spec_en_members_share_ident(
            files[i].definitions.enums[j].members,
            frags[g].1.members,
        )
}

/// Whether a struct fragment shares a member identifier with an original
/// declaration it targets.
pub open spec fn spec_st_orig_collide(
    frags: Seq<(Seq<char>, StructDefinitionView)>,
    files: Seq<RuneFileDescriptionView>,
) -> bool {
    exists|g: int, i: int, j: int|
        0 <= g < frags.len() && 0 <= i < files.len() && 0 <= j < files[i].definitions.structs.len()
            && files[i].definitions.structs[j].name == frags[g].1.name
            && spec_st_members_share_ident(
            files[i].definitions.structs[j].members,
            frags[g].1.members,
        )
}

// The spliced result
// -------------------

/// The members the fragments targeting `name` contribute, in
/// file-discovery order.
pub open spec fn spec_bf_frag_members(
    frags: Seq<(Seq<char>, BitfieldDefinitionView)>,
    name: Seq<char>,
) -> Seq<BitfieldMemberView>
    decreases frags,
{
    if frags.len() == 0 {
        Seq::empty()
    } else {
        spec_bf_frag_members(frags.drop_last(), name) + if frags.last().1.name == name {
            frags.last().1.members
        } else {
            Seq::empty()
        }
    }
}

/// The members the enum fragments targeting `name` contribute.
pub open spec fn spec_en_frag_members(
    frags: Seq<(Seq<char>, EnumDefinitionView)>,
    name: Seq<char>,
) -> Seq<EnumMemberView>
    decreases frags,
{
    if frags.len() == 0 {
        Seq::empty()
    } else {
        spec_en_frag_members(frags.drop_last(), name) + if frags.last().1.name == name {
            frags.last().1.members
        } else {
            Seq::empty()
        }
    }
}

/// The members the struct fragments targeting `name` contribute.
pub open spec fn spec_st_frag_members(
    frags: Seq<(Seq<char>, StructDefinitionView)>,
    name: Seq<char>,
) -> Seq<StructMemberView>
    decreases frags,
{
    if frags.len() == 0 {
        Seq::empty()
    } else {
        spec_st_frag_members(frags.drop_last(), name) + if frags.last().1.name == name {
            frags.last().1.members
        } else {
            Seq::empty()
        }
    }
}

/// The names of the files contributing bitfield fragments for `name`, in
/// file-discovery order.
pub open spec fn spec_bf_frag_files(
    frags: Seq<(Seq<char>, BitfieldDefinitionView)>,
    name: Seq<char>,
) -> Seq<Seq<char>>
    decreases frags,
{
    if frags.len() == 0 {
        Seq::empty()
    } else {
        spec_bf_frag_files(frags.drop_last(), name) + if frags.last().1.name == name {
            seq![frags.last().0]
        } else {
            Seq::empty()
        }
    }
}

/// The names of the files contributing enum fragments for `name`.
pub open spec fn spec_en_frag_files(
    frags: Seq<(Seq<char>, EnumDefinitionView)>,
    name: Seq<char>,
) -> Seq<Seq<char>>
    decreases frags,
{
    if frags.len() == 0 {
        Seq::empty()
    } else {
        spec_en_frag_files(frags.drop_last(), name) + if frags.last().1.name == name {
            seq![frags.last().0]
        } else {
            Seq::empty()
        }
    }
}

/// The names of the files contributing struct fragments for `name`.
pub open spec fn spec_st_frag_files(
    frags: Seq<(Seq<char>, StructDefinitionView)>,
    name: Seq<char>,
) -> Seq<Seq<char>>
    decreases frags,
{
    if frags.len() == 0 {
        Seq::empty()
    } else {
        spec_st_frag_files(frags.drop_last(), name) + if frags.last().1.name == name {
            seq![frags.last().0]
        } else {
            Seq::empty()
        }
    }
}

/// A bitfield with the members of every fragment targeting it appended.
pub open spec fn spec_spliced_bitfield(
    frags: Seq<(Seq<char>, BitfieldDefinitionView)>,
    b: BitfieldDefinitionView,
) -> BitfieldDefinitionView {
    BitfieldDefinitionView { members: b.members + spec_bf_frag_members(frags, b.name), ..b }
}

/// An enum with the members of every fragment targeting it appended.
pub open spec fn spec_spliced_enum(
    frags: Seq<(Seq<char>, EnumDefinitionView)>,
    e: EnumDefinitionView,
) -> EnumDefinitionView {
    EnumDefinitionView { members: e.members + spec_en_frag_members(frags, e.name), ..e }
}

/// A struct with the members of every fragment targeting it appended.
pub open spec fn spec_spliced_struct(
    frags: Seq<(Seq<char>, StructDefinitionView)>,
    s: StructDefinitionView,
) -> StructDefinitionView {
    StructDefinitionView { members: s.members + spec_st_frag_members(frags, s.name), ..s }
}

/// The include edges a file gains: for each of its bitfields, enums and
/// structs in declaration order, the files contributing fragments to it.
pub open spec fn spec_bf_includes(
    frags: Seq<(Seq<char>, BitfieldDefinitionView)>,
    bs: Seq<BitfieldDefinitionView>,
) -> Seq<Seq<char>>
    decreases bs,
{
    if bs.len() == 0 {
        Seq::empty()
    } else {
        spec_bf_includes(frags, bs.drop_last()) + spec_bf_frag_files(frags, bs.last().name)
    }
}

/// The include edges a file gains from enum fragments.
pub open spec fn spec_en_includes(
    frags: Seq<(Seq<char>, EnumDefinitionView)>,
    es: Seq<EnumDefinitionView>,
) -> Seq<Seq<char>>
    decreases es,
{
    if es.len() == 0 {
        Seq::empty()
    } else {
        spec_en_includes(frags, es.drop_last()) + spec_en_frag_files(frags, es.last().name)
    }
}

/// The include edges a file gains from struct fragments.
pub open spec fn spec_st_includes(
    frags: Seq<(Seq<char>, StructDefinitionView)>,
    ss: Seq<StructDefinitionView>,
) -> Seq<Seq<char>>
    decreases ss,
{
    if ss.len() == 0 {
        Seq::empty()
    } else {
        spec_st_includes(frags, ss.drop_last()) + spec_st_frag_files(frags, ss.last().name)
    }
}

/// A file after splicing: fragments appended to the declarations they
/// target, contributing files added as include dependencies, everything
/// else as it was.
pub open spec fn spec_apply_ext_file(
    bfr: Seq<(Seq<char>, BitfieldDefinitionView)>,
    enr: Seq<(Seq<char>, EnumDefinitionView)>,
    str_frags: Seq<(Seq<char>, StructDefinitionView)>,
    f: RuneFileDescriptionView,
) -> RuneFileDescriptionView {
    RuneFileDescriptionView {
        definitions: DefinitionsView {
            bitfields: Seq::new(
                f.definitions.bitfields.len(),
                |j: int| spec_spliced_bitfield(bfr, f.definitions.bitfields[j]),
            ),
            enums: Seq::new(
                f.definitions.enums.len(),
                |j: int| spec_spliced_enum(enr, f.definitions.enums[j]),
            ),
            structs: Seq::new(
                f.definitions.structs.len(),
                |j: int| spec_spliced_struct(str_frags, f.definitions.structs[j]),
            ),
            includes: f.definitions.includes + spec_bf_includes(bfr, f.definitions.bitfields)
                + spec_en_includes(enr, f.definitions.enums) + spec_st_includes(
                str_frags,
                f.definitions.structs,
            ),
            ..f.definitions
        },
        ..f
    }
}

/// The whole extension pass over the file set.  Fragments of one target are
/// checked pairwise: bitfield and enum fragments must agree on the backing
/// type, and no two fragments of one target may share a member identifier.
/// With splicing disabled that is all: the files stay as they are.  With
/// splicing enabled each fragment is also checked against the declaration
/// it targets, and then every targeted declaration absorbs the members of
/// its fragments, in file-discovery order, while the file holding it gains
/// an include edge for every contributing file.  A fragment that targets no
/// declaration is checked and discarded.
pub open spec fn spec_parse_extensions(
    files: Seq<RuneFileDescriptionView>,
    append_definitions: bool,
) -> Result<Seq<RuneFileDescriptionView>, RuneParserError> {
    let bfr = spec_bitfield_fragments(files);
    let enr = spec_enum_fragments(files);
    let str_frags = spec_struct_fragments(files);
    if spec_bf_frags_mismatch(bfr) {
        Err(RuneParserError::ExtensionMismatch)
    } else if spec_bf_frags_collide(bfr) {
        Err(RuneParserError::IndexCollision)
    } else if spec_en_frags_mismatch(enr) {
        Err(RuneParserError::ExtensionMismatch)
    } else if spec_en_frags_collide(enr) {
        Err(RuneParserError::IndexCollision)
    } else if spec_st_frags_collide(str_frags) {
        Err(RuneParserError::IndexCollision)
    } else if !append_definitions {
        Ok(files)
    } else if spec_bf_orig_mismatch(bfr, files) {
        Err(RuneParserError::ExtensionMismatch)
    } else if spec_bf_orig_collide(bfr, files) {
        Err(RuneParserError::IndexCollision)
    } else if spec_en_orig_mismatch(enr, files) {
        Err(RuneParserError::ExtensionMismatch)
    } else if spec_en_orig_collide(enr, files) {
        Err(RuneParserError::IndexCollision)
    } else if spec_st_orig_collide(str_frags, files) {
        Err(RuneParserError::IndexCollision)
    } else {
        Ok(Seq::new(files.len(), |i: int| spec_apply_ext_file(bfr, enr, str_frags, files[i])))
    }
}


// Collecting the fragments
// -------------------------

/// Collects every bitfield fragment with its contributing file.
fn collect_bitfield_fragments(files: &Vec<RuneFileDescription>) -> (r: Vec<
    (String, BitfieldDefinition),
>)
    ensures
        r.deep_view() == spec_bitfield_fragments(files.deep_view()),
{
    let ghost files_view = files.deep_view();
    let mut out: Vec<(String, BitfieldDefinition)> = Vec::new();
    let mut i: usize = 0;
    proof {
        assert(out.deep_view() =~= spec_bitfield_fragments(files_view.take(0)));
    }
    while i < files.len()
        invariant
            i <= files@.len(),
            files_view == files.deep_view(),
            files_view.len() == files@.len(),
            out.deep_view() == spec_bitfield_fragments(files_view.take(i as int)),
        decreases files.len() - i,
    {
        let ghost f = files_view[i as int];
        let ghost before = out.deep_view();
        let file = &files[i];
        proof {
            assert(files_view[i as int] == files@[i as int]@);
        }
        let mut k: usize = 0;
        while k < file.definitions.extensions.bitfields.len()
            invariant
                k <= file.definitions.extensions.bitfields@.len(),
                f == file@,
                f.definitions.extensions.bitfields.len()
                    == file.definitions.extensions.bitfields@.len(),
                out@.len() == before.len() + k,
                forall|q: int| 0 <= q < before.len() ==> out.deep_view()[q] == before[q],
                forall|q: int|
                    0 <= q < k ==> out.deep_view()[before.len() + q] == (
                    f.name,
                    f.definitions.extensions.bitfields[q],
                ),
            decreases file.definitions.extensions.bitfields.len() - k,
        {
            proof {
                assert(f.definitions.extensions.bitfields[k as int]
                    == file.definitions.extensions.bitfields@[k as int]@);
            }
            let ghost pre = out.deep_view();
            let entry = (file.name.clone(), file.definitions.extensions.bitfields[k].clone());
            let ghost ev = entry.deep_view();
            out.push(entry);
            proof {
                assert(out.deep_view() =~= pre.push(ev));
            }
            k = k + 1;
        }
        proof {
            assert(files_view.take(i + 1).drop_last() =~= files_view.take(i as int));
            assert(files_view.take(i + 1).last() == files_view[i as int]);
            assert(out.deep_view() =~= spec_bitfield_fragments(files_view.take(i + 1)));
        }
        i = i + 1;
    }
    proof {
        assert(files_view.take(files@.len() as int) =~= files_view);
    }
    out
}

/// Collects every enum fragment with its contributing file.
fn collect_enum_fragments(files: &Vec<RuneFileDescription>) -> (r: Vec<(String, EnumDefinition)>)
    ensures
        r.deep_view() == spec_enum_fragments(files.deep_view()),
{
    let ghost files_view = files.deep_view();
    let mut out: Vec<(String, EnumDefinition)> = Vec::new();
    let mut i: usize = 0;
    proof {
        assert(out.deep_view() =~= spec_enum_fragments(files_view.take(0)));
    }
    while i < files.len()
        invariant
            i <= files@.len(),
            files_view == files.deep_view(),
            files_view.len() == files@.len(),
            out.deep_view() == spec_enum_fragments(files_view.take(i as int)),
        decreases files.len() - i,
    {
        let ghost f = files_view[i as int];
        let ghost before = out.deep_view();
        let file = &files[i];
        proof {
            assert(files_view[i as int] == files@[i as int]@);
        }
        let mut k: usize = 0;
        while k < file.definitions.extensions.enums.len()
            invariant
                k <= file.definitions.extensions.enums@.len(),
                f == file@,
                f.definitions.extensions.enums.len() == file.definitions.extensions.enums@.len(),
                out@.len() == before.len() + k,
                forall|q: int| 0 <= q < before.len() ==> out.deep_view()[q] == before[q],
                forall|q: int|
                    0 <= q < k ==> out.deep_view()[before.len() + q] == (
                    f.name,
                    f.definitions.extensions.enums[q],
                ),
            decreases file.definitions.extensions.enums.len() - k,
        {
            proof {
                assert(f.definitions.extensions.enums[k as int]
                    == file.definitions.extensions.enums@[k as int]@);
            }
            let ghost pre = out.deep_view();
            let entry = (file.name.clone(), file.definitions.extensions.enums[k].clone());
            let ghost ev = entry.deep_view();
            out.push(entry);
            proof {
                assert(out.deep_view() =~= pre.push(ev));
            }
            k = k + 1;
        }
        proof {
            assert(files_view.take(i + 1).drop_last() =~= files_view.take(i as int));
            assert(files_view.take(i + 1).last() == files_view[i as int]);
            assert(out.deep_view() =~= spec_enum_fragments(files_view.take(i + 1)));
        }
        i = i + 1;
    }
    proof {
        assert(files_view.take(files@.len() as int) =~= files_view);
    }
    out
}

/// Collects every struct fragment with its contributing file.
fn collect_struct_fragments(files: &Vec<RuneFileDescription>) -> (r: Vec<
    (String, StructDefinition),
>)
    ensures
        r.deep_view() == spec_struct_fragments(files.deep_view()),
{
    let ghost files_view = files.deep_view();
    let mut out: Vec<(String, StructDefinition)> = Vec::new();
    let mut i: usize = 0;
    proof {
        assert(out.deep_view() =~= spec_struct_fragments(files_view.take(0)));
    }
    while i < files.len()
        invariant
            i <= files@.len(),
            files_view == files.deep_view(),
            files_view.len() == files@.len(),
            out.deep_view() == spec_struct_fragments(files_view.take(i as int)),
        decreases files.len() - i,
    {
        let ghost f = files_view[i as int];
        let ghost before = out.deep_view();
        let file = &files[i];
        proof {
            assert(files_view[i as int] == files@[i as int]@);
        }
        let mut k: usize = 0;
        while k < file.definitions.extensions.structs.len()
            invariant
                k <= file.definitions.extensions.structs@.len(),
                f == file@,
                f.definitions.extensions.structs.len()
                    == file.definitions.extensions.structs@.len(),
                out@.len() == before.len() + k,
                forall|q: int| 0 <= q < before.len() ==> out.deep_view()[q] == before[q],
                forall|q: int|
                    0 <= q < k ==> out.deep_view()[before.len() + q] == (
                    f.name,
                    f.definitions.extensions.structs[q],
                ),
            decreases file.definitions.extensions.structs.len() - k,
        {
            proof {
                assert(f.definitions.extensions.structs[k as int]
                    == file.definitions.extensions.structs@[k as int]@);
            }
            let ghost pre = out.deep_view();
            let entry = (file.name.clone(), file.definitions.extensions.structs[k].clone());
            let ghost ev = entry.deep_view();
            out.push(entry);
            proof {
                assert(out.deep_view() =~= pre.push(ev));
            }
            k = k + 1;
        }
        proof {
            assert(files_view.take(i + 1).drop_last() =~= files_view.take(i as int));
            assert(files_view.take(i + 1).last() == files_view[i as int]);
            assert(out.deep_view() =~= spec_struct_fragments(files_view.take(i + 1)));
        }
        i = i + 1;
    }
    proof {
        assert(files_view.take(files@.len() as int) =~= files_view);
    }
    out
}

// Checking the fragments against each other
// ------------------------------------------

/// Whether the two bitfield member lists share an identifier.
fn bf_members_share(a: &Vec<BitfieldMember>, b: &Vec<BitfieldMember>) -> (r: bool)
    ensures
        r == spec_bf_members_share_ident(a.deep_view(), b.deep_view()),
{
    let mut x: usize = 0;
    while x < a.len()
        invariant
            x <= a@.len(),
            forall|p: int, q: int|
                0 <= p < x && 0 <= q < b.deep_view().len() ==> a.deep_view()[p].identifier
                    != b.deep_view()[q].identifier,
        decreases a.len() - x,
    {
        let mut y: usize = 0;
        while y < b.len()
            invariant
                x < a@.len(),
                y <= b@.len(),
                forall|q: int|
                    0 <= q < y ==> a.deep_view()[x as int].identifier != b.deep_view()[q].identifier,
            decreases b.len() - y,
        {
            if a[x].identifier == b[y].identifier {
                proof {
                    assert(a.deep_view()[x as int].identifier == b.deep_view()[y as int].identifier);
                }
                return true;
            }
            y = y + 1;
        }
        x = x + 1;
    }
    false
}

/// Whether the two enum member lists share an identifier.
fn en_members_share(a: &Vec<EnumMember>, b: &Vec<EnumMember>) -> (r: bool)
    ensures
        r == spec_en_members_share_ident(a.deep_view(), b.deep_view()),
{
    let mut x: usize = 0;
    while x < a.len()
        invariant
            x <= a@.len(),
            forall|p: int, q: int|
                0 <= p < x && 0 <= q < b.deep_view().len() ==> a.deep_view()[p].identifier
                    != b.deep_view()[q].identifier,
        decreases a.len() - x,
    {
        let mut y: usize = 0;
        while y < b.len()
            invariant
                x < a@.len(),
                y <= b@.len(),
                forall|q: int|
                    0 <= q < y ==> a.deep_view()[x as int].identifier != b.deep_view()[q].identifier,
            decreases b.len() - y,
        {
            if a[x].identifier == b[y].identifier {
                proof {
                    assert(a.deep_view()[x as int].identifier == b.deep_view()[y as int].identifier);
                }
                return true;
            }
            y = y + 1;
        }
        x = x + 1;
    }
    false
}

/// Whether the two struct member lists share an identifier.
fn st_members_share(a: &Vec<StructMember>, b: &Vec<StructMember>) -> (r: bool)
    ensures
        r == spec_st_members_share_ident(
            view_struct_members(a@),
            view_struct_members(b@),
        ),
{
    let ghost av = view_struct_members(a@);
    let ghost bv = view_struct_members(b@);
    proof {
        broadcast use lemma_view_struct_members;

    }
    let mut x: usize = 0;
    while x < a.len()
        invariant
            x <= a@.len(),
            av == view_struct_members(a@),
            bv == view_struct_members(b@),
            av.len() == a@.len(),
            bv.len() == b@.len(),
            forall|q: int|
                0 <= q < a@.len() ==> av[q] == crate::structs::view_struct_member(a@[q]),
            forall|q: int|
                0 <= q < b@.len() ==> bv[q] == crate::structs::view_struct_member(b@[q]),
            forall|p: int, q: int|
                0 <= p < x && 0 <= q < bv.len() ==> av[p].identifier != bv[q].identifier,
        decreases a.len() - x,
    {
        let mut y: usize = 0;
        while y < b.len()
            invariant
                x < a@.len(),
                y <= b@.len(),
                av == view_struct_members(a@),
                bv == view_struct_members(b@),
                av.len() == a@.len(),
                bv.len() == b@.len(),
                forall|q: int|
                    0 <= q < a@.len() ==> av[q] == crate::structs::view_struct_member(a@[q]),
                forall|q: int|
                    0 <= q < b@.len() ==> bv[q] == crate::structs::view_struct_member(b@[q]),
                forall|q: int| 0 <= q < y ==> av[x as int].identifier != bv[q].identifier,
            decreases b.len() - y,
        {
            if a[x].identifier == b[y].identifier {
                proof {
                    assert(av[x as int].identifier == bv[y as int].identifier);
                }
                return true;
            }
            y = y + 1;
        }
        x = x + 1;
    }
    false
}


/// Whether two same-named bitfield fragments disagree on the backing type.
fn bf_frags_mismatch(frags: &Vec<(String, BitfieldDefinition)>) -> (r: bool)
    ensures
        r == spec_bf_frags_mismatch(frags.deep_view()),
{
    let ghost fv = frags.deep_view();
    let n = frags.len();
    let mut i: usize = 0;
    while i < n
        invariant
            i <= n,
            n == frags@.len(),
            fv == frags.deep_view(),
            fv.len() == frags@.len(),
            forall|a: int, b: int|
                0 <= a < b < fv.len() && a < i ==> !(fv[a].1.name == fv[b].1.name
                    && fv[a].1.backing_type != fv[b].1.backing_type),
        decreases n - i,
    {
        let mut j: usize = i + 1;
        while j < n
            invariant
                i < j <= n,
                n == frags@.len(),
                fv == frags.deep_view(),
                fv.len() == frags@.len(),
                forall|b: int|
                    i < b < j ==> !(fv[i as int].1.name == fv[b].1.name
                        && fv[i as int].1.backing_type != fv[b].1.backing_type),
        decreases n - j,
        {
            if frags[i].1.name == frags[j].1.name && !(frags[i].1.backing_type
                == frags[j].1.backing_type) {
                proof {
                    assert(fv[i as int].1 == frags@[i as int].1@);
                    assert(fv[j as int].1 == frags@[j as int].1@);
                }
                return true;
            }
            j = j + 1;
        }
        i = i + 1;
    }
    proof {
        assert forall|a: int, b: int|
            0 <= a < fv.len() && 0 <= b < fv.len() && a != b implies !(fv[a].1.name == fv[b].1.name
            && fv[a].1.backing_type != fv[b].1.backing_type) by {
            if a < b {
            } else {
            }
        }
    }
    false
}

/// Whether two same-named bitfield fragments share a member identifier.
fn bf_frags_collide(frags: &Vec<(String, BitfieldDefinition)>) -> (r: bool)
    ensures
        r == spec_bf_frags_collide(frags.deep_view()),
{
    let ghost fv = frags.deep_view();
    let n = frags.len();
    let mut i: usize = 0;
    while i < n
        invariant
            i <= n,
            n == frags@.len(),
            fv == frags.deep_view(),
            fv.len() == frags@.len(),
            forall|a: int, b: int|
                0 <= a < b < fv.len() && a < i ==> !(fv[a].1.name == fv[b].1.name
                    && spec_bf_members_share_ident(fv[a].1.members, fv[b].1.members)),
        decreases n - i,
    {
        let mut j: usize = i + 1;
        while j < n
            invariant
                i < j <= n,
                n == frags@.len(),
                fv == frags.deep_view(),
                fv.len() == frags@.len(),
                forall|b: int|
                    i < b < j ==> !(fv[i as int].1.name == fv[b].1.name
                        && spec_bf_members_share_ident(fv[i as int].1.members, fv[b].1.members)),
            decreases n - j,
        {
            proof {
                assert(fv[i as int].1 == frags@[i as int].1@);
                assert(fv[j as int].1 == frags@[j as int].1@);
            }
            if frags[i].1.name == frags[j].1.name && bf_members_share(
                &frags[i].1.members,
                &frags[j].1.members,
            ) {
                proof {
                    assert(fv[i as int].1.members == frags@[i as int].1.members.deep_view());
                    assert(fv[j as int].1.members == frags@[j as int].1.members.deep_view());
                }
                return true;
            }
            j = j + 1;
        }
        i = i + 1;
    }
    proof {
        assert forall|a: int, b: int|
            0 <= a < fv.len() && 0 <= b < fv.len() && a != b implies !(fv[a].1.name == fv[b].1.name
            && spec_bf_members_share_ident(fv[a].1.members, fv[b].1.members)) by {
            if b < a {
                assert(!(fv[b].1.name == fv[a].1.name && spec_bf_members_share_ident(
                    fv[b].1.members,
                    fv[a].1.members,
                )));
            }
        }
    }
    false
}

/// Whether two same-named enum fragments disagree on the backing type.
fn en_frags_mismatch(frags: &Vec<(String, EnumDefinition)>) -> (r: bool)
    ensures
        r == spec_en_frags_mismatch(frags.deep_view()),
{
    let ghost fv = frags.deep_view();
    let n = frags.len();
    let mut i: usize = 0;
    while i < n
        invariant
            i <= n,
            n == frags@.len(),
            fv == frags.deep_view(),
            fv.len() == frags@.len(),
            forall|a: int, b: int|
                0 <= a < b < fv.len() && a < i ==> !(fv[a].1.name == fv[b].1.name
                    && fv[a].1.backing_type != fv[b].1.backing_type),
        decreases n - i,
    {
        let mut j: usize = i + 1;
        while j < n
            invariant
                i < j <= n,
                n == frags@.len(),
                fv == frags.deep_view(),
                fv.len() == frags@.len(),
                forall|b: int|
                    i < b < j ==> !(fv[i as int].1.name == fv[b].1.name
                        && fv[i as int].1.backing_type != fv[b].1.backing_type),
            decreases n - j,
        {
            if frags[i].1.name == frags[j].1.name && !(frags[i].1.backing_type
                == frags[j].1.backing_type) {
                proof {
                    assert(fv[i as int].1 == frags@[i as int].1@);
                    assert(fv[j as int].1 == frags@[j as int].1@);
                }
                return true;
            }
            j = j + 1;
        }
        i = i + 1;
    }
    proof {
        assert forall|a: int, b: int|
            0 <= a < fv.len() && 0 <= b < fv.len() && a != b implies !(fv[a].1.name == fv[b].1.name
            && fv[a].1.backing_type != fv[b].1.backing_type) by {
            if a < b {
            } else {
            }
        }
    }
    false
}

/// Whether two same-named enum fragments share a member identifier.
fn en_frags_collide(frags: &Vec<(String, EnumDefinition)>) -> (r: bool)
    ensures
        r == spec_en_frags_collide(frags.deep_view()),
{
    let ghost fv = frags.deep_view();
    let n = frags.len();
    let mut i: usize = 0;
    while i < n
        invariant
            i <= n,
            n == frags@.len(),
            fv == frags.deep_view(),
            fv.len() == frags@.len(),
            forall|a: int, b: int|
                0 <= a < b < fv.len() && a < i ==> !(fv[a].1.name == fv[b].1.name
                    && spec_en_members_share_ident(fv[a].1.members, fv[b].1.members)),
        decreases n - i,
    {
        let mut j: usize = i + 1;
        while j < n
            invariant
                i < j <= n,
                n == frags@.len(),
                fv == frags.deep_view(),
                fv.len() == frags@.len(),
                forall|b: int|
                    i < b < j ==> !(fv[i as int].1.name == fv[b].1.name
                        && spec_en_members_share_ident(fv[i as int].1.members, fv[b].1.members)),
            decreases n - j,
        {
            proof {
                assert(fv[i as int].1 == frags@[i as int].1@);
                assert(fv[j as int].1 == frags@[j as int].1@);
            }
            if frags[i].1.name == frags[j].1.name && en_members_share(
                &frags[i].1.members,
                &frags[j].1.members,
            ) {
                proof {
                    assert(fv[i as int].1.members == frags@[i as int].1.members.deep_view());
                    assert(fv[j as int].1.members == frags@[j as int].1.members.deep_view());
                }
                return true;
            }
            j = j + 1;
        }
        i = i + 1;
    }
    proof {
        assert forall|a: int, b: int|
            0 <= a < fv.len() && 0 <= b < fv.len() && a != b implies !(fv[a].1.name == fv[b].1.name
            && spec_en_members_share_ident(fv[a].1.members, fv[b].1.members)) by {
            if b < a {
                assert(!(fv[b].1.name == fv[a].1.name && spec_en_members_share_ident(
                    fv[b].1.members,
                    fv[a].1.members,
                )));
            }
        }
    }
    false
}

/// Whether two same-named struct fragments share a member identifier.
fn st_frags_collide(frags: &Vec<(String, StructDefinition)>) -> (r: bool)
    ensures
        r == spec_st_frags_collide(frags.deep_view()),
{
    let ghost fv = frags.deep_view();
    let n = frags.len();
    let mut i: usize = 0;
    while i < n
        invariant
            i <= n,
            n == frags@.len(),
            fv == frags.deep_view(),
            fv.len() == frags@.len(),
            forall|a: int, b: int|
                0 <= a < b < fv.len() && a < i ==> !(fv[a].1.name == fv[b].1.name
                    && spec_st_members_share_ident(fv[a].1.members, fv[b].1.members)),
        decreases n - i,
    {
        let mut j: usize = i + 1;
        while j < n
            invariant
                i < j <= n,
                n == frags@.len(),
                fv == frags.deep_view(),
                fv.len() == frags@.len(),
                forall|b: int|
                    i < b < j ==> !(fv[i as int].1.name == fv[b].1.name
                        && spec_st_members_share_ident(fv[i as int].1.members, fv[b].1.members)),
            decreases n - j,
        {
            proof {
                assert(fv[i as int].1 == view_struct_def(frags@[i as int].1));
                assert(fv[j as int].1 == view_struct_def(frags@[j as int].1));
            }
            if frags[i].1.name == frags[j].1.name && st_members_share(
                &frags[i].1.members,
                &frags[j].1.members,
            ) {
                proof {
                    assert(fv[i as int].1.members == view_struct_members(frags@[i as int].1.members@));
                    assert(fv[j as int].1.members == view_struct_members(frags@[j as int].1.members@));
                }
                return true;
            }
            j = j + 1;
        }
        i = i + 1;
    }
    proof {
        assert forall|a: int, b: int|
            0 <= a < fv.len() && 0 <= b < fv.len() && a != b implies !(fv[a].1.name == fv[b].1.name
            && spec_st_members_share_ident(fv[a].1.members, fv[b].1.members)) by {
            if b < a {
                assert(!(fv[b].1.name == fv[a].1.name && spec_st_members_share_ident(
                    fv[b].1.members,
                    fv[a].1.members,
                )));
            }
        }
    }
    false
}


/// Whether a bitfield fragment disagrees with a targeted original on the
/// backing type, or shares a member identifier with it.  The mismatch is
/// reported first, over all fragments.
fn bf_orig_check(
    frags: &Vec<(String, BitfieldDefinition)>,
    files: &Vec<RuneFileDescription>,
) -> (r: Option<RuneParserError>)
    ensures
        r == if spec_bf_orig_mismatch(frags.deep_view(), files.deep_view()) {
            Some(RuneParserError::ExtensionMismatch)
        } else if spec_bf_orig_collide(frags.deep_view(), files.deep_view()) {
            Some(RuneParserError::IndexCollision)
        } else {
            None::<RuneParserError>
        },
{
    let ghost fv = frags.deep_view();
    let ghost filesv = files.deep_view();
    let mut pass: usize = 0;
    while pass < 2
        invariant
            pass <= 2,
            fv == frags.deep_view(),
            filesv == files.deep_view(),
            fv.len() == frags@.len(),
            filesv.len() == files@.len(),
            pass >= 1 ==> !spec_bf_orig_mismatch(fv, filesv),
            pass >= 2 ==> !spec_bf_orig_collide(fv, filesv),
        decreases 2 - pass,
    {
        let mut g: usize = 0;
        while g < frags.len()
            invariant
                g <= frags@.len(),
                pass < 2,
                fv == frags.deep_view(),
                filesv == files.deep_view(),
                fv.len() == frags@.len(),
                filesv.len() == files@.len(),
                pass >= 1 ==> !spec_bf_orig_mismatch(fv, filesv),
                pass == 0 ==> forall|a: int, i: int, j: int|
                    0 <= a < g && 0 <= i < filesv.len() && 0 <= j
                        < filesv[i].definitions.bitfields.len() ==> !(
                    filesv[i].definitions.bitfields[j].name == fv[a].1.name
                        && filesv[i].definitions.bitfields[j].backing_type != fv[a].1.backing_type),
                pass == 1 ==> forall|a: int, i: int, j: int|
                    0 <= a < g && 0 <= i < filesv.len() && 0 <= j
                        < filesv[i].definitions.bitfields.len() ==> !(
                    filesv[i].definitions.bitfields[j].name == fv[a].1.name
                        && spec_bf_members_share_ident(
                        filesv[i].definitions.bitfields[j].members,
                        fv[a].1.members,
                    )),
            decreases frags.len() - g,
        {
            let mut i: usize = 0;
            while i < files.len()
                invariant
                    i <= files@.len(),
                    g < frags@.len(),
                    pass < 2,
                    fv == frags.deep_view(),
                    filesv == files.deep_view(),
                    fv.len() == frags@.len(),
                    filesv.len() == files@.len(),
                    pass >= 1 ==> !spec_bf_orig_mismatch(fv, filesv),
                    pass == 0 ==> forall|q: int, j: int|
                        0 <= q < i && 0 <= j < filesv[q].definitions.bitfields.len() ==> !(
                        filesv[q].definitions.bitfields[j].name == fv[g as int].1.name
                            && filesv[q].definitions.bitfields[j].backing_type
                            != fv[g as int].1.backing_type),
                    pass == 1 ==> forall|q: int, j: int|
                        0 <= q < i && 0 <= j < filesv[q].definitions.bitfields.len() ==> !(
                        filesv[q].definitions.bitfields[j].name == fv[g as int].1.name
                            && spec_bf_members_share_ident(
                            filesv[q].definitions.bitfields[j].members,
                            fv[g as int].1.members,
                        )),
                decreases files.len() - i,
            {
                let file = &files[i];
                let mut j: usize = 0;
                while j < file.definitions.bitfields.len()
                    invariant
                        j <= file.definitions.bitfields@.len(),
                        i < files@.len(),
                        g < frags@.len(),
                        pass < 2,
                        fv == frags.deep_view(),
                        filesv == files.deep_view(),
                        fv.len() == frags@.len(),
                        filesv.len() == files@.len(),
                        file == files@[i as int],
                        filesv[i as int] == file@,
                        filesv[i as int].definitions.bitfields.len()
                            == file.definitions.bitfields@.len(),
                        pass >= 1 ==> !spec_bf_orig_mismatch(fv, filesv),
                        pass == 0 ==> forall|q: int|
                            0 <= q < j ==> !(filesv[i as int].definitions.bitfields[q].name
                                == fv[g as int].1.name
                                && filesv[i as int].definitions.bitfields[q].backing_type
                                != fv[g as int].1.backing_type),
                        pass == 1 ==> forall|q: int|
                            0 <= q < j ==> !(filesv[i as int].definitions.bitfields[q].name
                                == fv[g as int].1.name && spec_bf_members_share_ident(
                                filesv[i as int].definitions.bitfields[q].members,
                                fv[g as int].1.members,
                            )),
                    decreases file.definitions.bitfields.len() - j,
                {
                    proof {
                        assert(filesv[i as int].definitions.bitfields[j as int]
                            == file.definitions.bitfields@[j as int]@);
                        assert(fv[g as int].1 == frags@[g as int].1@);
                    }
                    if file.definitions.bitfields[j].name == frags[g].1.name {
                        if pass == 0 {
                            if !(file.definitions.bitfields[j].backing_type
                                == frags[g].1.backing_type) {
                                return Some(RuneParserError::ExtensionMismatch);
                            }
                        } else {
                            if bf_members_share(
                                &file.definitions.bitfields[j].members,
                                &frags[g].1.members,
                            ) {
                                proof {
                                    assert(filesv[i as int].definitions.bitfields[j as int].members
                                        == file.definitions.bitfields@[j as int].members.deep_view());
                                    assert(fv[g as int].1.members
                                        == frags@[g as int].1.members.deep_view());
                                }
                                return Some(RuneParserError::IndexCollision);
                            }
                        }
                    }
                    j = j + 1;
                }
                i = i + 1;
            }
            g = g + 1;
        }
        pass = pass + 1;
    }
    None
}

/// Whether an enum fragment disagrees with a targeted original on the
/// backing type, or shares a member identifier with it.
fn en_orig_check(
    frags: &Vec<(String, EnumDefinition)>,
    files: &Vec<RuneFileDescription>,
) -> (r: Option<RuneParserError>)
    ensures
        r == if spec_en_orig_mismatch(frags.deep_view(), files.deep_view()) {
            Some(RuneParserError::ExtensionMismatch)
        } else if spec_en_orig_collide(frags.deep_view(), files.deep_view()) {
            Some(RuneParserError::IndexCollision)
        } else {
            None::<RuneParserError>
        },
{
    let ghost fv = frags.deep_view();
    let ghost filesv = files.deep_view();
    let mut pass: usize = 0;
    while pass < 2
        invariant
            pass <= 2,
            fv == frags.deep_view(),
            filesv == files.deep_view(),
            fv.len() == frags@.len(),
            filesv.len() == files@.len(),
            pass >= 1 ==> !spec_en_orig_mismatch(fv, filesv),
            pass >= 2 ==> !spec_en_orig_collide(fv, filesv),
        decreases 2 - pass,
    {
        let mut g: usize = 0;
        while g < frags.len()
            invariant
                g <= frags@.len(),
                pass < 2,
                fv == frags.deep_view(),
                filesv == files.deep_view(),
                fv.len() == frags@.len(),
                filesv.len() == files@.len(),
                pass >= 1 ==> !spec_en_orig_mismatch(fv, filesv),
                pass == 0 ==> forall|a: int, i: int, j: int|
                    0 <= a < g && 0 <= i < filesv.len() && 0 <= j
                        < filesv[i].definitions.enums.len() ==> !(filesv[i].definitions.enums[j].name
                        == fv[a].1.name && filesv[i].definitions.enums[j].backing_type
                        != fv[a].1.backing_type),
                pass == 1 ==> forall|a: int, i: int, j: int|
                    0 <= a < g && 0 <= i < filesv.len() && 0 <= j
                        < filesv[i].definitions.enums.len() ==> !(filesv[i].definitions.enums[j].name
                        == fv[a].1.name && spec_en_members_share_ident(
                        filesv[i].definitions.enums[j].members,
                        fv[a].1.members,
                    )),
            decreases frags.len() - g,
        {
            let mut i: usize = 0;
            while i < files.len()
                invariant
                    i <= files@.len(),
                    g < frags@.len(),
                    pass < 2,
                    fv == frags.deep_view(),
                    filesv == files.deep_view(),
                    fv.len() == frags@.len(),
                    filesv.len() == files@.len(),
                    pass >= 1 ==> !spec_en_orig_mismatch(fv, filesv),
                    pass == 0 ==> forall|q: int, j: int|
                        0 <= q < i && 0 <= j < filesv[q].definitions.enums.len() ==> !(
                        filesv[q].definitions.enums[j].name == fv[g as int].1.name
                            && filesv[q].definitions.enums[j].backing_type
                            != fv[g as int].1.backing_type),
                    pass == 1 ==> forall|q: int, j: int|
                        0 <= q < i && 0 <= j < filesv[q].definitions.enums.len() ==> !(
                        filesv[q].definitions.enums[j].name == fv[g as int].1.name
                            && spec_en_members_share_ident(
                            filesv[q].definitions.enums[j].members,
                            fv[g as int].1.members,
                        )),
                decreases files.len() - i,
            {
                let file = &files[i];
                let mut j: usize = 0;
                while j < file.definitions.enums.len()
                    invariant
                        j <= file.definitions.enums@.len(),
                        i < files@.len(),
                        g < frags@.len(),
                        pass < 2,
                        fv == frags.deep_view(),
                        filesv == files.deep_view(),
                        fv.len() == frags@.len(),
                        filesv.len() == files@.len(),
                        file == files@[i as int],
                        filesv[i as int] == file@,
                        filesv[i as int].definitions.enums.len() == file.definitions.enums@.len(),
                        pass >= 1 ==> !spec_en_orig_mismatch(fv, filesv),
                        pass == 0 ==> forall|q: int|
                            0 <= q < j ==> !(filesv[i as int].definitions.enums[q].name
                                == fv[g as int].1.name
                                && filesv[i as int].definitions.enums[q].backing_type
                                != fv[g as int].1.backing_type),
                        pass == 1 ==> forall|q: int|
                            0 <= q < j ==> !(filesv[i as int].definitions.enums[q].name
                                == fv[g as int].1.name && spec_en_members_share_ident(
                                filesv[i as int].definitions.enums[q].members,
                                fv[g as int].1.members,
                            )),
                    decreases file.definitions.enums.len() - j,
                {
                    proof {
                        assert(filesv[i as int].definitions.enums[j as int]
                            == file.definitions.enums@[j as int]@);
                        assert(fv[g as int].1 == frags@[g as int].1@);
                    }
                    if file.definitions.enums[j].name == frags[g].1.name {
                        if pass == 0 {
                            if !(file.definitions.enums[j].backing_type
                                == frags[g].1.backing_type) {
                                return Some(RuneParserError::ExtensionMismatch);
                            }
                        } else {
                            if en_members_share(
                                &file.definitions.enums[j].members,
                                &frags[g].1.members,
                            ) {
                                proof {
                                    assert(filesv[i as int].definitions.enums[j as int].members
                                        == file.definitions.enums@[j as int].members.deep_view());
                                    assert(fv[g as int].1.members
                                        == frags@[g as int].1.members.deep_view());
                                }
                                return Some(RuneParserError::IndexCollision);
                            }
                        }
                    }
                    j = j + 1;
                }
                i = i + 1;
            }
            g = g + 1;
        }
        pass = pass + 1;
    }
    None
}

/// Whether a struct fragment shares a member identifier with a targeted
/// original.
fn st_orig_check(
    frags: &Vec<(String, StructDefinition)>,
    files: &Vec<RuneFileDescription>,
) -> (r: Option<RuneParserError>)
    ensures
        r == if spec_st_orig_collide(frags.deep_view(), files.deep_view()) {
            Some(RuneParserError::IndexCollision)
        } else {
            None::<RuneParserError>
        },
{
    let ghost fv = frags.deep_view();
    let ghost filesv = files.deep_view();
    let mut g: usize = 0;
    while g < frags.len()
        invariant
            g <= frags@.len(),
            fv == frags.deep_view(),
            filesv == files.deep_view(),
            fv.len() == frags@.len(),
            filesv.len() == files@.len(),
            forall|a: int, i: int, j: int|
                0 <= a < g && 0 <= i < filesv.len() && 0 <= j
                    < filesv[i].definitions.structs.len() ==> !(
                filesv[i].definitions.structs[j].name == fv[a].1.name
                    && spec_st_members_share_ident(
                    filesv[i].definitions.structs[j].members,
                    fv[a].1.members,
                )),
        decreases frags.len() - g,
    {
        let mut i: usize = 0;
        while i < files.len()
            invariant
                i <= files@.len(),
                g < frags@.len(),
                fv == frags.deep_view(),
                filesv == files.deep_view(),
                fv.len() == frags@.len(),
                filesv.len() == files@.len(),
                forall|q: int, j: int|
                    0 <= q < i && 0 <= j < filesv[q].definitions.structs.len() ==> !(
                    filesv[q].definitions.structs[j].name == fv[g as int].1.name
                        && spec_st_members_share_ident(
                        filesv[q].definitions.structs[j].members,
                        fv[g as int].1.members,
                    )),
            decreases files.len() - i,
        {
            let file = &files[i];
            let mut j: usize = 0;
            while j < file.definitions.structs.len()
                invariant
                    j <= file.definitions.structs@.len(),
                    i < files@.len(),
                    g < frags@.len(),
                    fv == frags.deep_view(),
                    filesv == files.deep_view(),
                    fv.len() == frags@.len(),
                    filesv.len() == files@.len(),
                    file == files@[i as int],
                    filesv[i as int] == file@,
                    filesv[i as int].definitions.structs.len() == file.definitions.structs@.len(),
                    forall|q: int|
                        0 <= q < j ==> !(filesv[i as int].definitions.structs[q].name
                            == fv[g as int].1.name && spec_st_members_share_ident(
                            filesv[i as int].definitions.structs[q].members,
                            fv[g as int].1.members,
                        )),
                decreases file.definitions.structs.len() - j,
            {
                proof {
                    assert(filesv[i as int].definitions.structs[j as int] == view_struct_def(
                        file.definitions.structs@[j as int],
                    ));
                    assert(fv[g as int].1 == view_struct_def(frags@[g as int].1));
                }
                if file.definitions.structs[j].name == frags[g].1.name {
                    if st_members_share(
                        &file.definitions.structs[j].members,
                        &frags[g].1.members,
                    ) {
                        proof {
                            assert(filesv[i as int].definitions.structs[j as int].members
                                == view_struct_members(file.definitions.structs@[j as int].members@));
                            assert(fv[g as int].1.members == view_struct_members(
                                frags@[g as int].1.members@,
                            ));
                        }
                        return Some(RuneParserError::IndexCollision);
                    }
                }
                j = j + 1;
            }
            i = i + 1;
        }
        g = g + 1;
    }
    None
}


// Splicing
// ---------

/// The members every bitfield fragment targeting `name` contributes, in
/// file-discovery order, copied out.
fn bf_frag_members_for(frags: &Vec<(String, BitfieldDefinition)>, name: &String) -> (r: Vec<
    BitfieldMember,
>)
    ensures
        r.deep_view() == spec_bf_frag_members(frags.deep_view(), name@),
{
    let ghost fv = frags.deep_view();
    let mut out: Vec<BitfieldMember> = Vec::new();
    let mut t: usize = 0;
    proof {
        assert(out.deep_view() =~= spec_bf_frag_members(fv.take(0), name@));
    }
    while t < frags.len()
        invariant
            t <= frags@.len(),
            fv == frags.deep_view(),
            fv.len() == frags@.len(),
            out.deep_view() == spec_bf_frag_members(fv.take(t as int), name@),
        decreases frags.len() - t,
    {
        let ghost before = out.deep_view();
        proof {
            assert(fv[t as int].1 == frags@[t as int].1@);
            assert(fv.take(t + 1).drop_last() =~= fv.take(t as int));
            assert(fv.take(t + 1).last() == fv[t as int]);
        }
        if frags[t].1.name == *name {
            let mut x: usize = 0;
            while x < frags[t].1.members.len()
                invariant
                    x <= frags@[t as int].1.members@.len(),
                    t < frags@.len(),
                    fv == frags.deep_view(),
                    fv[t as int].1.members.len() == frags@[t as int].1.members@.len(),
                    fv[t as int].1 == frags@[t as int].1@,
                    out@.len() == before.len() + x,
                    forall|q: int| 0 <= q < before.len() ==> out.deep_view()[q] == before[q],
                    forall|q: int|
                        0 <= q < x ==> out.deep_view()[before.len() + q] == fv[t as int].1.members[q],
                decreases frags@[t as int].1.members@.len() - x,
            {
                proof {
                    assert(fv[t as int].1.members[x as int]
                        == frags@[t as int].1.members@[x as int]@);
                }
                let ghost pre = out.deep_view();
                let m = frags[t].1.members[x].clone();
                let ghost mv2 = m@;
                out.push(m);
                proof {
                    assert(out.deep_view() =~= pre.push(mv2));
                }
                x = x + 1;
            }
            proof {
                assert(out.deep_view() =~= before + fv[t as int].1.members);
                assert(out.deep_view() =~= spec_bf_frag_members(fv.take(t + 1), name@));
            }
        } else {
            proof {
                assert(out.deep_view() =~= before + Seq::<BitfieldMemberView>::empty());
                assert(out.deep_view() =~= spec_bf_frag_members(fv.take(t + 1), name@));
            }
        }
        t = t + 1;
    }
    proof {
        assert(fv.take(frags@.len() as int) =~= fv);
    }
    out
}

/// The members every enum fragment targeting `name` contributes.
fn en_frag_members_for(frags: &Vec<(String, EnumDefinition)>, name: &String) -> (r: Vec<EnumMember>)
    ensures
        r.deep_view() == spec_en_frag_members(frags.deep_view(), name@),
{
    let ghost fv = frags.deep_view();
    let mut out: Vec<EnumMember> = Vec::new();
    let mut t: usize = 0;
    proof {
        assert(out.deep_view() =~= spec_en_frag_members(fv.take(0), name@));
    }
    while t < frags.len()
        invariant
            t <= frags@.len(),
            fv == frags.deep_view(),
            fv.len() == frags@.len(),
            out.deep_view() == spec_en_frag_members(fv.take(t as int), name@),
        decreases frags.len() - t,
    {
        let ghost before = out.deep_view();
        proof {
            assert(fv[t as int].1 == frags@[t as int].1@);
            assert(fv.take(t + 1).drop_last() =~= fv.take(t as int));
            assert(fv.take(t + 1).last() == fv[t as int]);
        }
        if frags[t].1.name == *name {
            let mut x: usize = 0;
            while x < frags[t].1.members.len()
                invariant
                    x <= frags@[t as int].1.members@.len(),
                    t < frags@.len(),
                    fv == frags.deep_view(),
                    fv[t as int].1.members.len() == frags@[t as int].1.members@.len(),
                    fv[t as int].1 == frags@[t as int].1@,
                    out@.len() == before.len() + x,
                    forall|q: int| 0 <= q < before.len() ==> out.deep_view()[q] == before[q],
                    forall|q: int|
                        0 <= q < x ==> out.deep_view()[before.len() + q] == fv[t as int].1.members[q],
                decreases frags@[t as int].1.members@.len() - x,
            {
                proof {
                    assert(fv[t as int].1.members[x as int]
                        == frags@[t as int].1.members@[x as int]@);
                }
                let ghost pre = out.deep_view();
                let m = frags[t].1.members[x].clone();
                let ghost mv2 = m@;
                out.push(m);
                proof {
                    assert(out.deep_view() =~= pre.push(mv2));
                }
                x = x + 1;
            }
            proof {
                assert(out.deep_view() =~= before + fv[t as int].1.members);
                assert(out.deep_view() =~= spec_en_frag_members(fv.take(t + 1), name@));
            }
        } else {
            proof {
                assert(out.deep_view() =~= before + Seq::<EnumMemberView>::empty());
                assert(out.deep_view() =~= spec_en_frag_members(fv.take(t + 1), name@));
            }
        }
        t = t + 1;
    }
    proof {
        assert(fv.take(frags@.len() as int) =~= fv);
    }
    out
}

/// The members every struct fragment targeting `name` contributes.
fn st_frag_members_for(frags: &Vec<(String, StructDefinition)>, name: &String) -> (r: Vec<
    StructMember,
>)
    ensures
        view_struct_members(r@) == spec_st_frag_members(frags.deep_view(), name@),
{
    let ghost fv = frags.deep_view();
    proof {
        broadcast use lemma_view_struct_members;

    }
    let mut out: Vec<StructMember> = Vec::new();
    let mut t: usize = 0;
    proof {
        assert(view_struct_members(out@) =~= spec_st_frag_members(fv.take(0), name@));
    }
    while t < frags.len()
        invariant
            t <= frags@.len(),
            fv == frags.deep_view(),
            fv.len() == frags@.len(),
            view_struct_members(out@) == spec_st_frag_members(fv.take(t as int), name@),
        decreases frags.len() - t,
    {
        let ghost before = view_struct_members(out@);
        proof {
            broadcast use lemma_view_struct_members;

            assert(fv[t as int].1 == view_struct_def(frags@[t as int].1));
            assert(fv[t as int].1.members == view_struct_members(frags@[t as int].1.members@));
            assert(fv.take(t + 1).drop_last() =~= fv.take(t as int));
            assert(fv.take(t + 1).last() == fv[t as int]);
        }
        if frags[t].1.name == *name {
            let mut x: usize = 0;
            while x < frags[t].1.members.len()
                invariant
                    x <= frags@[t as int].1.members@.len(),
                    t < frags@.len(),
                    fv == frags.deep_view(),
                    fv[t as int].1.members.len() == frags@[t as int].1.members@.len(),
                    fv[t as int].1 == view_struct_def(frags@[t as int].1),
                    fv[t as int].1.members == view_struct_members(frags@[t as int].1.members@),
                    out@.len() == before.len() + x,
                    forall|q: int|
                        0 <= q < before.len() ==> view_struct_members(out@)[q] == before[q],
                    forall|q: int|
                        0 <= q < x ==> view_struct_members(out@)[before.len() + q] == fv[t as int].1.members[q],
                decreases frags@[t as int].1.members@.len() - x,
            {
                proof {
                    broadcast use lemma_view_struct_members;

                    assert(fv[t as int].1.members[x as int]
                        == crate::structs::view_struct_member(frags@[t as int].1.members@[x as int]));
                }
                let ghost pre = view_struct_members(out@);
                let m = clone_struct_member(&frags[t].1.members[x]);
                let ghost mv2 = m@;
                out.push(m);
                proof {
                    broadcast use lemma_view_struct_members;

                    assert(view_struct_members(out@) =~= pre.push(mv2));
                }
                x = x + 1;
            }
            proof {
                broadcast use lemma_view_struct_members;

                assert(view_struct_members(out@) =~= before + fv[t as int].1.members);
                assert(view_struct_members(out@) =~= spec_st_frag_members(fv.take(t + 1), name@));
            }
        } else {
            proof {
                broadcast use lemma_view_struct_members;

                assert(view_struct_members(out@) =~= before + Seq::<StructMemberView>::empty());
                assert(view_struct_members(out@) =~= spec_st_frag_members(fv.take(t + 1), name@));
            }
        }
        t = t + 1;
    }
    proof {
        assert(fv.take(frags@.len() as int) =~= fv);
    }
    out
}


/// The names of the files contributing bitfield fragments for `name`, as
/// include edges.
fn bf_frag_files_for(frags: &Vec<(String, BitfieldDefinition)>, name: &String) -> (r: Vec<
    IncludeDefinition,
>)
    ensures
        r.deep_view() == spec_bf_frag_files(frags.deep_view(), name@),
{
    let ghost fv = frags.deep_view();
    let mut out: Vec<IncludeDefinition> = Vec::new();
    let mut t: usize = 0;
    proof {
        assert(out.deep_view() =~= spec_bf_frag_files(fv.take(0), name@));
    }
    while t < frags.len()
        invariant
            t <= frags@.len(),
            fv == frags.deep_view(),
            fv.len() == frags@.len(),
            out.deep_view() == spec_bf_frag_files(fv.take(t as int), name@),
        decreases frags.len() - t,
    {
        let ghost pre = out.deep_view();
        proof {
            assert(fv[t as int].1 == frags@[t as int].1@);
            assert(fv[t as int].0 == frags@[t as int].0@);
            assert(fv.take(t + 1).drop_last() =~= fv.take(t as int));
            assert(fv.take(t + 1).last() == fv[t as int]);
        }
        if frags[t].1.name == *name {
            let entry = IncludeDefinition { file: frags[t].0.clone() };
            let ghost ev = entry@;
            out.push(entry);
            proof {
                assert(out.deep_view() =~= pre.push(ev));
                assert(out.deep_view() =~= spec_bf_frag_files(fv.take(t + 1), name@));
            }
        } else {
            proof {
                assert(out.deep_view() =~= pre + Seq::<Seq<char>>::empty());
                assert(out.deep_view() =~= spec_bf_frag_files(fv.take(t + 1), name@));
            }
        }
        t = t + 1;
    }
    proof {
        assert(fv.take(frags@.len() as int) =~= fv);
    }
    out
}

/// The names of the files contributing enum fragments for `name`.
fn en_frag_files_for(frags: &Vec<(String, EnumDefinition)>, name: &String) -> (r: Vec<
    IncludeDefinition,
>)
    ensures
        r.deep_view() == spec_en_frag_files(frags.deep_view(), name@),
{
    let ghost fv = frags.deep_view();
    let mut out: Vec<IncludeDefinition> = Vec::new();
    let mut t: usize = 0;
    proof {
        assert(out.deep_view() =~= spec_en_frag_files(fv.take(0), name@));
    }
    while t < frags.len()
        invariant
            t <= frags@.len(),
            fv == frags.deep_view(),
            fv.len() == frags@.len(),
            out.deep_view() == spec_en_frag_files(fv.take(t as int), name@),
        decreases frags.len() - t,
    {
        let ghost pre = out.deep_view();
        proof {
            assert(fv[t as int].1 == frags@[t as int].1@);
            assert(fv[t as int].0 == frags@[t as int].0@);
            assert(fv.take(t + 1).drop_last() =~= fv.take(t as int));
            assert(fv.take(t + 1).last() == fv[t as int]);
        }
        if frags[t].1.name == *name {
            let entry = IncludeDefinition { file: frags[t].0.clone() };
            let ghost ev = entry@;
            out.push(entry);
            proof {
                assert(out.deep_view() =~= pre.push(ev));
                assert(out.deep_view() =~= spec_en_frag_files(fv.take(t + 1), name@));
            }
        } else {
            proof {
                assert(out.deep_view() =~= pre + Seq::<Seq<char>>::empty());
                assert(out.deep_view() =~= spec_en_frag_files(fv.take(t + 1), name@));
            }
        }
        t = t + 1;
    }
    proof {
        assert(fv.take(frags@.len() as int) =~= fv);
    }
    out
}

/// The names of the files contributing struct fragments for `name`.
fn st_frag_files_for(frags: &Vec<(String, StructDefinition)>, name: &String) -> (r: Vec<
    IncludeDefinition,
>)
    ensures
        r.deep_view() == spec_st_frag_files(frags.deep_view(), name@),
{
    let ghost fv = frags.deep_view();
    let mut out: Vec<IncludeDefinition> = Vec::new();
    let mut t: usize = 0;
    proof {
        assert(out.deep_view() =~= spec_st_frag_files(fv.take(0), name@));
    }
    while t < frags.len()
        invariant
            t <= frags@.len(),
            fv == frags.deep_view(),
            fv.len() == frags@.len(),
            out.deep_view() == spec_st_frag_files(fv.take(t as int), name@),
        decreases frags.len() - t,
    {
        let ghost pre = out.deep_view();
        proof {
            assert(fv[t as int].1 == view_struct_def(frags@[t as int].1));
            assert(fv[t as int].0 == frags@[t as int].0@);
            assert(fv.take(t + 1).drop_last() =~= fv.take(t as int));
            assert(fv.take(t + 1).last() == fv[t as int]);
        }
        if frags[t].1.name == *name {
            let entry = IncludeDefinition { file: frags[t].0.clone() };
            let ghost ev = entry@;
            out.push(entry);
            proof {
                assert(out.deep_view() =~= pre.push(ev));
                assert(out.deep_view() =~= spec_st_frag_files(fv.take(t + 1), name@));
            }
        } else {
            proof {
                assert(out.deep_view() =~= pre + Seq::<Seq<char>>::empty());
                assert(out.deep_view() =~= spec_st_frag_files(fv.take(t + 1), name@));
            }
        }
        t = t + 1;
    }
    proof {
        assert(fv.take(frags@.len() as int) =~= fv);
    }
    out
}

/// One file after splicing: every targeted declaration absorbs its
/// fragments' members, and the file gains include edges for the
/// contributing files.
#[verifier::rlimit(50)]
fn apply_extensions_to_file(
    bfr: &Vec<(String, BitfieldDefinition)>,
    enr: &Vec<(String, EnumDefinition)>,
    str_frags: &Vec<(String, StructDefinition)>,
    file: &RuneFileDescription,
) -> (r: RuneFileDescription)
    ensures
        r@ == spec_apply_ext_file(
            bfr.deep_view(),
            enr.deep_view(),
            str_frags.deep_view(),
            file@,
        ),
{
    let ghost fv = file@;
    let ghost bfv = bfr.deep_view();
    let ghost env = enr.deep_view();
    let ghost stv = str_frags.deep_view();

    // Spliced bitfields
    let mut new_bitfields: Vec<BitfieldDefinition> = Vec::new();
    let mut j: usize = 0;
    while j < file.definitions.bitfields.len()
        invariant
            j <= file.definitions.bitfields@.len(),
            fv == file@,
            bfv == bfr.deep_view(),
            fv.definitions.bitfields.len() == file.definitions.bitfields@.len(),
            new_bitfields@.len() == j as int,
            forall|q: int|
                0 <= q < j ==> new_bitfields.deep_view()[q] == spec_spliced_bitfield(
                    bfv,
                    fv.definitions.bitfields[q],
                ),
        decreases file.definitions.bitfields.len() - j,
    {
        let b = &file.definitions.bitfields[j];
        proof {
            assert(fv.definitions.bitfields[j as int] == file.definitions.bitfields@[j as int]@);
        }
        let mut members = crate::bitfields::clone_bitfield_members(&b.members);
        let mut extra = bf_frag_members_for(bfr, &b.name);
        let ghost members_before = members.deep_view();
        let ghost extra_view = extra.deep_view();
        members.append(&mut extra);
        proof {
            assert(members.deep_view() =~= members_before + extra_view);
        }
        let spliced = BitfieldDefinition {
            name: b.name.clone(),
            backing_type: b.backing_type,
            members,
            reserved_indexes: crate::bitfields::clone_u64s(&b.reserved_indexes),
            comment: clone_comment(&b.comment),
            orphan_comments: crate::bitfields::clone_orphan_comments(&b.orphan_comments),
        };
        proof {
            assert(spliced@ =~= spec_spliced_bitfield(bfv, fv.definitions.bitfields[j as int]));
        }
        let ghost pre = new_bitfields.deep_view();
        let ghost sv = spliced@;
        new_bitfields.push(spliced);
        proof {
            assert(new_bitfields.deep_view() =~= pre.push(sv));
        }
        j = j + 1;
    }

    // Spliced enums
    let mut new_enums: Vec<EnumDefinition> = Vec::new();
    let mut j: usize = 0;
    while j < file.definitions.enums.len()
        invariant
            j <= file.definitions.enums@.len(),
            fv == file@,
            env == enr.deep_view(),
            fv.definitions.enums.len() == file.definitions.enums@.len(),
            new_enums@.len() == j as int,
            forall|q: int|
                0 <= q < j ==> new_enums.deep_view()[q] == spec_spliced_enum(
                    env,
                    fv.definitions.enums[q],
                ),
        decreases file.definitions.enums.len() - j,
    {
        let e = &file.definitions.enums[j];
        proof {
            assert(fv.definitions.enums[j as int] == file.definitions.enums@[j as int]@);
        }
        let mut members = crate::enums::clone_enum_members(&e.members);
        let mut extra = en_frag_members_for(enr, &e.name);
        let ghost members_before = members.deep_view();
        let ghost extra_view = extra.deep_view();
        members.append(&mut extra);
        proof {
            assert(members.deep_view() =~= members_before + extra_view);
        }
        let spliced = EnumDefinition {
            name: e.name.clone(),
            backing_type: e.backing_type,
            members,
            reserved_values: crate::enums::clone_literals(&e.reserved_values),
            comment: clone_comment(&e.comment),
            orphan_comments: crate::bitfields::clone_orphan_comments(&e.orphan_comments),
        };
        proof {
            assert(spliced@ =~= spec_spliced_enum(env, fv.definitions.enums[j as int]));
        }
        let ghost pre = new_enums.deep_view();
        let ghost sv = spliced@;
        new_enums.push(spliced);
        proof {
            assert(new_enums.deep_view() =~= pre.push(sv));
        }
        j = j + 1;
    }

    // Spliced structs
    let mut new_structs: Vec<StructDefinition> = Vec::new();
    let mut j: usize = 0;
    while j < file.definitions.structs.len()
        invariant
            j <= file.definitions.structs@.len(),
            fv == file@,
            stv == str_frags.deep_view(),
            fv.definitions.structs.len() == file.definitions.structs@.len(),
            new_structs@.len() == j as int,
            forall|q: int|
                0 <= q < j ==> new_structs.deep_view()[q] == spec_spliced_struct(
                    stv,
                    fv.definitions.structs[q],
                ),
        decreases file.definitions.structs.len() - j,
    {
        let st = &file.definitions.structs[j];
        proof {
            broadcast use lemma_view_struct_members;

            assert(fv.definitions.structs[j as int] == view_struct_def(
                file.definitions.structs@[j as int],
            ));
        }
        let mut members = crate::structs::clone_struct_members(&st.members);
        let ghost members_before = view_struct_members(members@);
        proof {
            broadcast use lemma_view_struct_members;

            assert(members.deep_view().len() == members@.len());
            assert(st.members.deep_view().len() == st.members@.len());
            assert(members@.len() == st.members@.len());
            assert forall|q: int| 0 <= q < members@.len() implies members_before[q]
                == view_struct_members(st.members@)[q] by {
                assert(members.deep_view()[q] == st.members.deep_view()[q]);
                assert(members.deep_view()[q] == crate::structs::view_struct_member(members@[q]));
                assert(st.members.deep_view()[q] == crate::structs::view_struct_member(
                    st.members@[q],
                ));
            }
            assert(members_before =~= view_struct_members(st.members@));
        }
        let mut extra = st_frag_members_for(str_frags, &st.name);
        let ghost extra_view = view_struct_members(extra@);
        members.append(&mut extra);
        proof {
            broadcast use lemma_view_struct_members;

            assert(view_struct_members(members@) =~= members_before + extra_view);
        }
        let spliced = StructDefinition {
            name: st.name.clone(),
            members,
            reserved_indexes: crate::bitfields::clone_u64s(&st.reserved_indexes),
            comment: clone_comment(&st.comment),
            orphan_comments: crate::bitfields::clone_orphan_comments(&st.orphan_comments),
        };
        proof {
            broadcast use lemma_view_struct_members;

            assert(spliced@ =~= spec_spliced_struct(stv, fv.definitions.structs[j as int]));
        }
        let ghost pre = new_structs.deep_view();
        let ghost sv = spliced@;
        new_structs.push(spliced);
        proof {
            assert(new_structs.deep_view() =~= pre.push(sv));
        }
        j = j + 1;
    }

    // Include edges for the contributing files
    let mut new_includes = clone_includes(&file.definitions.includes);
    let ghost inc0 = new_includes.deep_view();
    let mut j: usize = 0;
    while j < file.definitions.bitfields.len()
        invariant
            j <= file.definitions.bitfields@.len(),
            fv == file@,
            bfv == bfr.deep_view(),
            fv.definitions.bitfields.len() == file.definitions.bitfields@.len(),
            inc0 == fv.definitions.includes,
            new_includes.deep_view() == inc0 + spec_bf_includes(
                bfv,
                fv.definitions.bitfields.take(j as int),
            ),
        decreases file.definitions.bitfields.len() - j,
    {
        proof {
            assert(fv.definitions.bitfields[j as int] == file.definitions.bitfields@[j as int]@);
            assert(fv.definitions.bitfields.take(j + 1).drop_last() =~= fv.definitions.bitfields.take(
                j as int,
            ));
            assert(fv.definitions.bitfields.take(j + 1).last() == fv.definitions.bitfields[j as int]);
        }
        let mut extra = bf_frag_files_for(bfr, &file.definitions.bitfields[j].name);
        let ghost pre = new_includes.deep_view();
        let ghost extra_view = extra.deep_view();
        new_includes.append(&mut extra);
        proof {
            assert(new_includes.deep_view() =~= pre + extra_view);
            assert(new_includes.deep_view() =~= inc0 + spec_bf_includes(
                bfv,
                fv.definitions.bitfields.take(j + 1),
            ));
        }
        j = j + 1;
    }
    proof {
        assert(fv.definitions.bitfields.take(fv.definitions.bitfields.len() as int)
            =~= fv.definitions.bitfields);
    }
    let ghost inc1 = new_includes.deep_view();
    let mut j: usize = 0;
    while j < file.definitions.enums.len()
        invariant
            j <= file.definitions.enums@.len(),
            fv == file@,
            env == enr.deep_view(),
            fv.definitions.enums.len() == file.definitions.enums@.len(),
            inc1 == inc0 + spec_bf_includes(bfv, fv.definitions.bitfields),
            inc0 == fv.definitions.includes,
            bfv == bfr.deep_view(),
            new_includes.deep_view() == inc1 + spec_en_includes(
                env,
                fv.definitions.enums.take(j as int),
            ),
        decreases file.definitions.enums.len() - j,
    {
        proof {
            assert(fv.definitions.enums[j as int] == file.definitions.enums@[j as int]@);
            assert(fv.definitions.enums.take(j + 1).drop_last() =~= fv.definitions.enums.take(
                j as int,
            ));
            assert(fv.definitions.enums.take(j + 1).last() == fv.definitions.enums[j as int]);
        }
        let mut extra = en_frag_files_for(enr, &file.definitions.enums[j].name);
        let ghost pre = new_includes.deep_view();
        let ghost extra_view = extra.deep_view();
        new_includes.append(&mut extra);
        proof {
            assert(new_includes.deep_view() =~= pre + extra_view);
            assert(new_includes.deep_view() =~= inc1 + spec_en_includes(
                env,
                fv.definitions.enums.take(j + 1),
            ));
        }
        j = j + 1;
    }
    proof {
        assert(fv.definitions.enums.take(fv.definitions.enums.len() as int)
            =~= fv.definitions.enums);
    }
    let ghost inc2 = new_includes.deep_view();
    let mut j: usize = 0;
    while j < file.definitions.structs.len()
        invariant
            j <= file.definitions.structs@.len(),
            fv == file@,
            stv == str_frags.deep_view(),
            fv.definitions.structs.len() == file.definitions.structs@.len(),
            inc2 == inc1 + spec_en_includes(env, fv.definitions.enums),
            inc1 == inc0 + spec_bf_includes(bfv, fv.definitions.bitfields),
            inc0 == fv.definitions.includes,
            bfv == bfr.deep_view(),
            env == enr.deep_view(),
            new_includes.deep_view() == inc2 + spec_st_includes(
                stv,
                fv.definitions.structs.take(j as int),
            ),
        decreases file.definitions.structs.len() - j,
    {
        proof {
            broadcast use lemma_view_struct_members;

            assert(fv.definitions.structs[j as int] == view_struct_def(
                file.definitions.structs@[j as int],
            ));
            assert(fv.definitions.structs.take(j + 1).drop_last() =~= fv.definitions.structs.take(
                j as int,
            ));
            assert(fv.definitions.structs.take(j + 1).last() == fv.definitions.structs[j as int]);
        }
        let mut extra = st_frag_files_for(str_frags, &file.definitions.structs[j].name);
        let ghost pre = new_includes.deep_view();
        let ghost extra_view = extra.deep_view();
        new_includes.append(&mut extra);
        proof {
            assert(new_includes.deep_view() =~= pre + extra_view);
            assert(new_includes.deep_view() =~= inc2 + spec_st_includes(
                stv,
                fv.definitions.structs.take(j + 1),
            ));
        }
        j = j + 1;
    }
    proof {
        assert(fv.definitions.structs.take(fv.definitions.structs.len() as int)
            =~= fv.definitions.structs);
    }

    let r = RuneFileDescription {
        relative_path: file.relative_path.clone(),
        name: file.name.clone(),
        definitions: Definitions {
            bitfields: new_bitfields,
            defines: clone_define_defs(&file.definitions.defines),
            redefines: clone_redefine_defs(&file.definitions.redefines),
            enums: new_enums,
            extensions: file.definitions.extensions.clone(),
            includes: new_includes,
            messages: clone_message_defs(&file.definitions.messages),
            standalone_comments: crate::bitfields::clone_orphan_comments(
                &file.definitions.standalone_comments,
            ),
            structs: new_structs,
        },
    };
    proof {
        assert(r@.definitions.bitfields =~= spec_apply_ext_file(
            bfv,
            env,
            stv,
            fv,
        ).definitions.bitfields);
        assert(r@.definitions.enums =~= spec_apply_ext_file(bfv, env, stv, fv).definitions.enums);
        assert(r@.definitions.structs =~= spec_apply_ext_file(
            bfv,
            env,
            stv,
            fv,
        ).definitions.structs);
        assert(r@ =~= spec_apply_ext_file(bfv, env, stv, fv));
    }
    r
}

/// The extension pass.  Gathers every `extend` fragment across the file set
/// and checks same-named fragments against each other: bitfield and enum
/// fragments must agree on their backing type, and no two fragments of one
/// target may share a member identifier.  With `append_definitions` set,
/// each fragment is also checked against the declaration it targets, every
/// targeted declaration absorbs the members of its fragments in
/// file-discovery order, and the file holding it gains an include edge for
/// each contributing file; without it the fragments are checked and
/// discarded.  On failure the files are left exactly as they were.
pub fn parse_extensions(
    definitions: &mut Vec<RuneFileDescription>,
    append_definitions: bool,
) -> (r: Result<(), RuneParserError>)
    ensures
        match spec_parse_extensions(old(definitions).deep_view(), append_definitions) {
            Ok(new_files) => r == Ok::<(), RuneParserError>(()) && final(definitions).deep_view()
                == new_files,
            Err(e) => r == Err::<(), RuneParserError>(e) && final(definitions).deep_view() == old(
                definitions,
            ).deep_view(),
        },
{
    let ghost files_view = definitions.deep_view();

    // Gather every fragment across all files
    let bitfield_fragments = collect_bitfield_fragments(definitions);
    let enum_fragments = collect_enum_fragments(definitions);
    let struct_fragments = collect_struct_fragments(definitions);

    // Check the fragments for a given target against each other
    if bf_frags_mismatch(&bitfield_fragments) {
        return Err(RuneParserError::ExtensionMismatch);
    }
    if bf_frags_collide(&bitfield_fragments) {
        return Err(RuneParserError::IndexCollision);
    }
    if en_frags_mismatch(&enum_fragments) {
        return Err(RuneParserError::ExtensionMismatch);
    }
    if en_frags_collide(&enum_fragments) {
        return Err(RuneParserError::IndexCollision);
    }
    if st_frags_collide(&struct_fragments) {
        return Err(RuneParserError::IndexCollision);
    }

    // With splicing disabled the fragments were only validated
    if !append_definitions {
        return Ok(());
    }

    // Check the fragments against the declarations they target
    match bf_orig_check(&bitfield_fragments, definitions) {
        Some(e) => {
            return Err(e);
        },
        None => {},
    }
    match en_orig_check(&enum_fragments, definitions) {
        Some(e) => {
            return Err(e);
        },
        None => {},
    }
    match st_orig_check(&struct_fragments, definitions) {
        Some(e) => {
            return Err(e);
        },
        None => {},
    }

    // Splice, writing into a separate copy of the file set
    let mut new_files: Vec<RuneFileDescription> = Vec::new();
    let mut i: usize = 0;
    while i < definitions.len()
        invariant
            i <= definitions@.len(),
            *definitions == *old(definitions),
            files_view == definitions.deep_view(),
            files_view.len() == definitions@.len(),
            bitfield_fragments.deep_view() == spec_bitfield_fragments(files_view),
            enum_fragments.deep_view() == spec_enum_fragments(files_view),
            struct_fragments.deep_view() == spec_struct_fragments(files_view),
            new_files@.len() == i as int,
            forall|q: int|
                0 <= q < i ==> new_files.deep_view()[q] == spec_apply_ext_file(
                    spec_bitfield_fragments(files_view),
                    spec_enum_fragments(files_view),
                    spec_struct_fragments(files_view),
                    files_view[q],
                ),
        decreases definitions.len() - i,
    {
        proof {
            assert(files_view[i as int] == definitions@[i as int]@);
        }
        let new_file = apply_extensions_to_file(
            &bitfield_fragments,
            &enum_fragments,
            &struct_fragments,
            &definitions[i],
        );
        let ghost pre = new_files.deep_view();
        let ghost nv = new_file@;
        new_files.push(new_file);
        proof {
            assert(new_files.deep_view() =~= pre.push(nv));
        }
        i = i + 1;
    }
    *definitions = new_files;
    proof {
        assert(definitions.deep_view() =~= spec_parse_extensions(
            files_view,
            append_definitions,
        )->Ok_0);
    }
    Ok(())
}


// Order independence of the merge
// --------------------------------

/// A value counted at least twice in a sequence sits at two distinct
/// positions.
proof fn lemma_two_positions<A>(s: Seq<A>, x: A)
    requires
        s.to_multiset().count(x) >= 2,
    ensures
        exists|i: int, j: int| 0 <= i < j < s.len() && s[i] == x && s[j] == x,
{
    broadcast use vstd::seq_lib::group_seq_properties;

    s.to_multiset_ensures();
    assert(s.contains(x));
    let i0 = choose|i: int| 0 <= i < s.len() && s[i] == x;
    let rest = s.remove(i0);
    assert(rest.to_multiset() =~= s.to_multiset().remove(x));
    rest.to_multiset_ensures();
    assert(rest.to_multiset().count(x) >= 1);
    assert(rest.contains(x));
    let j0 = choose|j: int| 0 <= j < rest.len() && rest[j] == x;
    if j0 < i0 {
        assert(s[j0] == rest[j0]);
        assert(0 <= j0 < i0 < s.len() && s[j0] == x && s[i0] == x);
    } else {
        assert(s[j0 + 1] == rest[j0]);
        assert(0 <= i0 < j0 + 1 < s.len() && s[i0] == x && s[j0 + 1] == x);
    }
}

/// One direction of permutation invariance for the pairwise bitfield
/// fragment checks.
proof fn lemma_bf_pairwise_perm_one(
    f1: Seq<(Seq<char>, BitfieldDefinitionView)>,
    f2: Seq<(Seq<char>, BitfieldDefinitionView)>,
)
    requires
        f1.to_multiset() == f2.to_multiset(),
    ensures
        spec_bf_frags_collide(f1) ==> spec_bf_frags_collide(f2),
        spec_bf_frags_mismatch(f1) ==> spec_bf_frags_mismatch(f2),
{
    broadcast use vstd::seq_lib::group_seq_properties;

    f1.to_multiset_ensures();
    f2.to_multiset_ensures();
    if spec_bf_frags_collide(f1) {
        let (i, j) = choose|i: int, j: int|
            0 <= i < f1.len() && 0 <= j < f1.len() && i != j && f1[i].1.name == f1[j].1.name
                && spec_bf_members_share_ident(f1[i].1.members, f1[j].1.members);
        let x = f1[i];
        let y = f1[j];
        if x == y {
            assert(f1.to_multiset().count(x) >= 2) by {
                broadcast use vstd::multiset::group_multiset_axioms;

                let fr = f1.remove(i);
                assert(fr.to_multiset() =~= f1.to_multiset().remove(x));
                fr.to_multiset_ensures();
                if j < i {
                    assert(fr[j] == x);
                    assert(fr.contains(x));
                } else {
                    assert(fr[j - 1] == x);
                    assert(fr.contains(x));
                }
                assert(fr.to_multiset().count(x) > 0);
                assert(f1.to_multiset().count(x) == f1.to_multiset().remove(x).count(x) + 1);
            }
            assert(f2.to_multiset().count(x) >= 2);
            lemma_two_positions(f2, x);
        } else {
            assert(f1.contains(x));
            assert(f1.contains(y));
            assert(f1.to_multiset().count(x) > 0);
            assert(f1.to_multiset().count(y) > 0);
            assert(f2.to_multiset().count(x) > 0);
            assert(f2.to_multiset().count(y) > 0);
            assert(f2.contains(x));
            assert(f2.contains(y));
            let a = choose|a: int| 0 <= a < f2.len() && f2[a] == x;
            let b = choose|b: int| 0 <= b < f2.len() && f2[b] == y;
            assert(a != b);
            assert(spec_bf_frags_collide(f2));
        }
    }
    if spec_bf_frags_mismatch(f1) {
        let (i, j) = choose|i: int, j: int|
            0 <= i < f1.len() && 0 <= j < f1.len() && i != j && f1[i].1.name == f1[j].1.name
                && f1[i].1.backing_type != f1[j].1.backing_type;
        let x = f1[i];
        let y = f1[j];
        assert(x != y);
        assert(f1.contains(x));
        assert(f1.contains(y));
        assert(f1.to_multiset().count(x) > 0);
        assert(f1.to_multiset().count(y) > 0);
        assert(f2.to_multiset().count(x) > 0);
        assert(f2.to_multiset().count(y) > 0);
        assert(f2.contains(x));
        assert(f2.contains(y));
        let a = choose|a: int| 0 <= a < f2.len() && f2[a] == x;
        let b = choose|b: int| 0 <= b < f2.len() && f2[b] == y;
        assert(a != b);
        assert(spec_bf_frags_mismatch(f2));
    }
}

/// Removing one fragment takes exactly its contribution out of the merged
/// member collection.
proof fn lemma_bf_frag_members_remove(
    frags: Seq<(Seq<char>, BitfieldDefinitionView)>,
    k: int,
    name: Seq<char>,
)
    requires
        0 <= k < frags.len(),
    ensures
        spec_bf_frag_members(frags, name).to_multiset() == spec_bf_frag_members(
            frags.remove(k),
            name,
        ).to_multiset().add(
            if frags[k].1.name == name {
                frags[k].1.members.to_multiset()
            } else {
                Multiset::empty()
            },
        ),
    decreases frags.len(),
{
    broadcast use vstd::seq_lib::group_seq_properties;
    broadcast use vstd::multiset::group_multiset_axioms;

    let contribution = if frags[k].1.name == name {
        frags[k].1.members
    } else {
        Seq::<BitfieldMemberView>::empty()
    };
    if k == frags.len() - 1 {
        assert(frags.remove(k) =~= frags.drop_last());
        vstd::seq_lib::lemma_multiset_commutative(
            spec_bf_frag_members(frags.drop_last(), name),
            contribution,
        );
        assert(spec_bf_frag_members(frags, name) == spec_bf_frag_members(frags.drop_last(), name)
            + contribution);
        assert(spec_bf_frag_members(frags, name).to_multiset() =~= spec_bf_frag_members(
            frags.remove(k),
            name,
        ).to_multiset().add(contribution.to_multiset()));
        if frags[k].1.name != name {
            assert(contribution.to_multiset() =~= Multiset::<BitfieldMemberView>::empty());
        }
    } else {
        let y = frags.last();
        let ytail = if y.1.name == name {
            y.1.members
        } else {
            Seq::<BitfieldMemberView>::empty()
        };
        assert(frags.remove(k).drop_last() =~= frags.drop_last().remove(k));
        assert(frags.remove(k).last() == y);
        lemma_bf_frag_members_remove(frags.drop_last(), k, name);
        assert(frags.drop_last()[k] == frags[k]);
        vstd::seq_lib::lemma_multiset_commutative(
            spec_bf_frag_members(frags.drop_last(), name),
            ytail,
        );
        vstd::seq_lib::lemma_multiset_commutative(
            spec_bf_frag_members(frags.drop_last().remove(k), name),
            ytail,
        );
        assert(spec_bf_frag_members(frags, name).to_multiset() =~= spec_bf_frag_members(
            frags.remove(k),
            name,
        ).to_multiset().add(
            if frags[k].1.name == name {
                frags[k].1.members.to_multiset()
            } else {
                Multiset::empty()
            },
        ));
    }
}

/// The pairwise checks of the merge, and the member collection a target
/// absorbs, do not depend on the order fragments were discovered in: any
/// two discovery orders of the same fragments agree on every backing-type
/// mismatch, on every member collision, and on the merged members of every
/// target, as an unordered collection.
pub proof fn lemma_bf_merge_order_independent(
    f1: Seq<(Seq<char>, BitfieldDefinitionView)>,
    f2: Seq<(Seq<char>, BitfieldDefinitionView)>,
    name: Seq<char>,
)
    requires
        f1.to_multiset() == f2.to_multiset(),
    ensures
        spec_bf_frags_collide(f1) == spec_bf_frags_collide(f2),
        spec_bf_frags_mismatch(f1) == spec_bf_frags_mismatch(f2),
        spec_bf_frag_members(f1, name).to_multiset() == spec_bf_frag_members(
            f2,
            name,
        ).to_multiset(),
    decreases f1.len(),
{
    broadcast use vstd::seq_lib::group_seq_properties;
    broadcast use vstd::multiset::group_multiset_axioms;

    lemma_bf_pairwise_perm_one(f1, f2);
    lemma_bf_pairwise_perm_one(f2, f1);
    f1.to_multiset_ensures();
    f2.to_multiset_ensures();
    if f1.len() == 0 {
        assert(f2.len() == 0);
        assert(f2 =~= Seq::<(Seq<char>, BitfieldDefinitionView)>::empty());
    } else {
        let x = f1.last();
        assert(f1.contains(x));
        assert(f1.to_multiset().count(x) > 0);
        assert(f2.to_multiset().count(x) > 0);
        assert(f2.contains(x));
        let k = choose|k: int| 0 <= k < f2.len() && f2[k] == x;
        assert(f1.drop_last() =~= f1.remove(f1.len() - 1));
        assert(f1.remove(f1.len() - 1).to_multiset() =~= f1.to_multiset().remove(x));
        assert(f2.remove(k).to_multiset() =~= f2.to_multiset().remove(x));
        lemma_bf_merge_order_independent(f1.drop_last(), f2.remove(k), name);
        lemma_bf_frag_members_remove(f1, f1.len() - 1, name);
        lemma_bf_frag_members_remove(f2, k, name);
    }
}

/// One direction of permutation invariance for the pairwise enum
/// fragment checks.
proof fn lemma_en_pairwise_perm_one(
    f1: Seq<(Seq<char>, EnumDefinitionView)>,
    f2: Seq<(Seq<char>, EnumDefinitionView)>,
)
    requires
        f1.to_multiset() == f2.to_multiset(),
    ensures
        spec_en_frags_collide(f1) ==> spec_en_frags_collide(f2),
        spec_en_frags_mismatch(f1) ==> spec_en_frags_mismatch(f2),
{
    broadcast use vstd::seq_lib::group_seq_properties;

    f1.to_multiset_ensures();
    f2.to_multiset_ensures();
    if spec_en_frags_collide(f1) {
        let (i, j) = choose|i: int, j: int|
            0 <= i < f1.len() && 0 <= j < f1.len() && i != j && f1[i].1.name == f1[j].1.name
                && spec_en_members_share_ident(f1[i].1.members, f1[j].1.members);
        let x = f1[i];
        let y = f1[j];
        if x == y {
            assert(f1.to_multiset().count(x) >= 2) by {
                broadcast use vstd::multiset::group_multiset_axioms;

                let fr = f1.remove(i);
                assert(fr.to_multiset() =~= f1.to_multiset().remove(x));
                fr.to_multiset_ensures();
                if j < i {
                    assert(fr[j] == x);
                    assert(fr.contains(x));
                } else {
                    assert(fr[j - 1] == x);
                    assert(fr.contains(x));
                }
                assert(fr.to_multiset().count(x) > 0);
                assert(f1.to_multiset().count(x) == f1.to_multiset().remove(x).count(x) + 1);
            }
            assert(f2.to_multiset().count(x) >= 2);
            lemma_two_positions(f2, x);
        } else {
            assert(f1.contains(x));
            assert(f1.contains(y));
            assert(f1.to_multiset().count(x) > 0);
            assert(f1.to_multiset().count(y) > 0);
            assert(f2.to_multiset().count(x) > 0);
            assert(f2.to_multiset().count(y) > 0);
            assert(f2.contains(x));
            assert(f2.contains(y));
            let a = choose|a: int| 0 <= a < f2.len() && f2[a] == x;
            let b = choose|b: int| 0 <= b < f2.len() && f2[b] == y;
            assert(a != b);
            assert(spec_en_frags_collide(f2));
        }
    }
    if spec_en_frags_mismatch(f1) {
        let (i, j) = choose|i: int, j: int|
            0 <= i < f1.len() && 0 <= j < f1.len() && i != j && f1[i].1.name == f1[j].1.name
                && f1[i].1.backing_type != f1[j].1.backing_type;
        let x = f1[i];
        let y = f1[j];
        assert(x != y);
        assert(f1.contains(x));
        assert(f1.contains(y));
        assert(f1.to_multiset().count(x) > 0);
        assert(f1.to_multiset().count(y) > 0);
        assert(f2.to_multiset().count(x) > 0);
        assert(f2.to_multiset().count(y) > 0);
        assert(f2.contains(x));
        assert(f2.contains(y));
        let a = choose|a: int| 0 <= a < f2.len() && f2[a] == x;
        let b = choose|b: int| 0 <= b < f2.len() && f2[b] == y;
        assert(a != b);
        assert(spec_en_frags_mismatch(f2));
    }
}

/// Removing one fragment takes exactly its contribution out of the merged
/// member collection.
proof fn lemma_en_frag_members_remove(
    frags: Seq<(Seq<char>, EnumDefinitionView)>,
    k: int,
    name: Seq<char>,
)
    requires
        0 <= k < frags.len(),
    ensures
        spec_en_frag_members(frags, name).to_multiset() == spec_en_frag_members(
            frags.remove(k),
            name,
        ).to_multiset().add(
            if frags[k].1.name == name {
                frags[k].1.members.to_multiset()
            } else {
                Multiset::empty()
            },
        ),
    decreases frags.len(),
{
    broadcast use vstd::seq_lib::group_seq_properties;
    broadcast use vstd::multiset::group_multiset_axioms;

    let contribution = if frags[k].1.name == name {
        frags[k].1.members
    } else {
        Seq::<EnumMemberView>::empty()
    };
    if k == frags.len() - 1 {
        assert(frags.remove(k) =~= frags.drop_last());
        vstd::seq_lib::lemma_multiset_commutative(
            spec_en_frag_members(frags.drop_last(), name),
            contribution,
        );
        assert(spec_en_frag_members(frags, name) == spec_en_frag_members(frags.drop_last(), name)
            + contribution);
        assert(spec_en_frag_members(frags, name).to_multiset() =~= spec_en_frag_members(
            frags.remove(k),
            name,
        ).to_multiset().add(contribution.to_multiset()));
        if frags[k].1.name != name {
            assert(contribution.to_multiset() =~= Multiset::<EnumMemberView>::empty());
        }
    } else {
        let y = frags.last();
        let ytail = if y.1.name == name {
            y.1.members
        } else {
            Seq::<EnumMemberView>::empty()
        };
        assert(frags.remove(k).drop_last() =~= frags.drop_last().remove(k));
        assert(frags.remove(k).last() == y);
        lemma_en_frag_members_remove(frags.drop_last(), k, name);
        assert(frags.drop_last()[k] == frags[k]);
        vstd::seq_lib::lemma_multiset_commutative(
            spec_en_frag_members(frags.drop_last(), name),
            ytail,
        );
        vstd::seq_lib::lemma_multiset_commutative(
            spec_en_frag_members(frags.drop_last().remove(k), name),
            ytail,
        );
        assert(spec_en_frag_members(frags, name).to_multiset() =~= spec_en_frag_members(
            frags.remove(k),
            name,
        ).to_multiset().add(
            if frags[k].1.name == name {
                frags[k].1.members.to_multiset()
            } else {
                Multiset::empty()
            },
        ));
    }
}

/// The pairwise checks of the merge, and the member collection a target
/// absorbs, do not depend on the order fragments were discovered in: any
/// two discovery orders of the same fragments agree on every backing-type
/// mismatch, on every member collision, and on the merged members of every
/// target, as an unordered collection.
pub proof fn lemma_en_merge_order_independent(
    f1: Seq<(Seq<char>, EnumDefinitionView)>,
    f2: Seq<(Seq<char>, EnumDefinitionView)>,
    name: Seq<char>,
)
    requires
        f1.to_multiset() == f2.to_multiset(),
    ensures
        spec_en_frags_collide(f1) == spec_en_frags_collide(f2),
        spec_en_frags_mismatch(f1) == spec_en_frags_mismatch(f2),
        spec_en_frag_members(f1, name).to_multiset() == spec_en_frag_members(
            f2,
            name,
        ).to_multiset(),
    decreases f1.len(),
{
    broadcast use vstd::seq_lib::group_seq_properties;
    broadcast use vstd::multiset::group_multiset_axioms;

    lemma_en_pairwise_perm_one(f1, f2);
    lemma_en_pairwise_perm_one(f2, f1);
    f1.to_multiset_ensures();
    f2.to_multiset_ensures();
    if f1.len() == 0 {
        assert(f2.len() == 0);
        assert(f2 =~= Seq::<(Seq<char>, EnumDefinitionView)>::empty());
    } else {
        let x = f1.last();
        assert(f1.contains(x));
        assert(f1.to_multiset().count(x) > 0);
        assert(f2.to_multiset().count(x) > 0);
        assert(f2.contains(x));
        let k = choose|k: int| 0 <= k < f2.len() && f2[k] == x;
        assert(f1.drop_last() =~= f1.remove(f1.len() - 1));
        assert(f1.remove(f1.len() - 1).to_multiset() =~= f1.to_multiset().remove(x));
        assert(f2.remove(k).to_multiset() =~= f2.to_multiset().remove(x));
        lemma_en_merge_order_independent(f1.drop_last(), f2.remove(k), name);
        lemma_en_frag_members_remove(f1, f1.len() - 1, name);
        lemma_en_frag_members_remove(f2, k, name);
    }
}

/// One direction of permutation invariance for the pairwise struct
/// fragment checks.
proof fn lemma_st_pairwise_perm_one(
    f1: Seq<(Seq<char>, StructDefinitionView)>,
    f2: Seq<(Seq<char>, StructDefinitionView)>,
)
    requires
        f1.to_multiset() == f2.to_multiset(),
    ensures
        spec_st_frags_collide(f1) ==> spec_st_frags_collide(f2),
{
    broadcast use vstd::seq_lib::group_seq_properties;

    f1.to_multiset_ensures();
    f2.to_multiset_ensures();
    if spec_st_frags_collide(f1) {
        let (i, j) = choose|i: int, j: int|
            0 <= i < f1.len() && 0 <= j < f1.len() && i != j && f1[i].1.name == f1[j].1.name
                && spec_st_members_share_ident(f1[i].1.members, f1[j].1.members);
        let x = f1[i];
        let y = f1[j];
        if x == y {
            assert(f1.to_multiset().count(x) >= 2) by {
                broadcast use vstd::multiset::group_multiset_axioms;

                let fr = f1.remove(i);
                assert(fr.to_multiset() =~= f1.to_multiset().remove(x));
                fr.to_multiset_ensures();
                if j < i {
                    assert(fr[j] == x);
                    assert(fr.contains(x));
                } else {
                    assert(fr[j - 1] == x);
                    assert(fr.contains(x));
                }
                assert(fr.to_multiset().count(x) > 0);
                assert(f1.to_multiset().count(x) == f1.to_multiset().remove(x).count(x) + 1);
            }
            assert(f2.to_multiset().count(x) >= 2);
            lemma_two_positions(f2, x);
        } else {
            assert(f1.contains(x));
            assert(f1.contains(y));
            assert(f1.to_multiset().count(x) > 0);
            assert(f1.to_multiset().count(y) > 0);
            assert(f2.to_multiset().count(x) > 0);
            assert(f2.to_multiset().count(y) > 0);
            assert(f2.contains(x));
            assert(f2.contains(y));
            let a = choose|a: int| 0 <= a < f2.len() && f2[a] == x;
            let b = choose|b: int| 0 <= b < f2.len() && f2[b] == y;
            assert(a != b);
            assert(spec_st_frags_collide(f2));
        }
    }
}

/// Removing one fragment takes exactly its contribution out of the merged
/// member collection.
proof fn lemma_st_frag_members_remove(
    frags: Seq<(Seq<char>, StructDefinitionView)>,
    k: int,
    name: Seq<char>,
)
    requires
        0 <= k < frags.len(),
    ensures
        spec_st_frag_members(frags, name).to_multiset() == spec_st_frag_members(
            frags.remove(k),
            name,
        ).to_multiset().add(
            if frags[k].1.name == name {
                frags[k].1.members.to_multiset()
            } else {
                Multiset::empty()
            },
        ),
    decreases frags.len(),
{
    broadcast use vstd::seq_lib::group_seq_properties;
    broadcast use vstd::multiset::group_multiset_axioms;

    let contribution = if frags[k].1.name == name {
        frags[k].1.members
    } else {
        Seq::<StructMemberView>::empty()
    };
    if k == frags.len() - 1 {
        assert(frags.remove(k) =~= frags.drop_last());
        vstd::seq_lib::lemma_multiset_commutative(
            spec_st_frag_members(frags.drop_last(), name),
            contribution,
        );
        assert(spec_st_frag_members(frags, name) == spec_st_frag_members(frags.drop_last(), name)
            + contribution);
        assert(spec_st_frag_members(frags, name).to_multiset() =~= spec_st_frag_members(
            frags.remove(k),
            name,
        ).to_multiset().add(contribution.to_multiset()));
        if frags[k].1.name != name {
            assert(contribution.to_multiset() =~= Multiset::<StructMemberView>::empty());
        }
    } else {
        let y = frags.last();
        let ytail = if y.1.name == name {
            y.1.members
        } else {
            Seq::<StructMemberView>::empty()
        };
        assert(frags.remove(k).drop_last() =~= frags.drop_last().remove(k));
        assert(frags.remove(k).last() == y);
        lemma_st_frag_members_remove(frags.drop_last(), k, name);
        assert(frags.drop_last()[k] == frags[k]);
        vstd::seq_lib::lemma_multiset_commutative(
            spec_st_frag_members(frags.drop_last(), name),
            ytail,
        );
        vstd::seq_lib::lemma_multiset_commutative(
            spec_st_frag_members(frags.drop_last().remove(k), name),
            ytail,
        );
        assert(spec_st_frag_members(frags, name).to_multiset() =~= spec_st_frag_members(
            frags.remove(k),
            name,
        ).to_multiset().add(
            if frags[k].1.name == name {
                frags[k].1.members.to_multiset()
            } else {
                Multiset::empty()
            },
        ));
    }
}

/// The pairwise checks of the merge, and the member collection a target
/// absorbs, do not depend on the order fragments were discovered in: any
/// two discovery orders of the same fragments agree on every backing-type
/// mismatch, on every member collision, and on the merged members of every
/// target, as an unordered collection.
pub proof fn lemma_st_merge_order_independent(
    f1: Seq<(Seq<char>, StructDefinitionView)>,
    f2: Seq<(Seq<char>, StructDefinitionView)>,
    name: Seq<char>,
)
    requires
        f1.to_multiset() == f2.to_multiset(),
    ensures
        spec_st_frags_collide(f1) == spec_st_frags_collide(f2),
        spec_st_frag_members(f1, name).to_multiset() == spec_st_frag_members(
            f2,
            name,
        ).to_multiset(),
    decreases f1.len(),
{
    broadcast use vstd::seq_lib::group_seq_properties;
    broadcast use vstd::multiset::group_multiset_axioms;

    lemma_st_pairwise_perm_one(f1, f2);
    lemma_st_pairwise_perm_one(f2, f1);
    f1.to_multiset_ensures();
    f2.to_multiset_ensures();
    if f1.len() == 0 {
        assert(f2.len() == 0);
        assert(f2 =~= Seq::<(Seq<char>, StructDefinitionView)>::empty());
    } else {
        let x = f1.last();
        assert(f1.contains(x));
        assert(f1.to_multiset().count(x) > 0);
        assert(f2.to_multiset().count(x) > 0);
        assert(f2.contains(x));
        let k = choose|k: int| 0 <= k < f2.len() && f2[k] == x;
        assert(f1.drop_last() =~= f1.remove(f1.len() - 1));
        assert(f1.remove(f1.len() - 1).to_multiset() =~= f1.to_multiset().remove(x));
        assert(f2.remove(k).to_multiset() =~= f2.to_multiset().remove(x));
        lemma_st_merge_order_independent(f1.drop_last(), f2.remove(k), name);
        lemma_st_frag_members_remove(f1, f1.len() - 1, name);
        lemma_st_frag_members_remove(f2, k, name);
    }
}


} // verus!

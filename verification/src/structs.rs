//! Structs: fixed-layout aggregates that encode as a flat, fixed-size blob.

use vstd::prelude::*;
use crate::arrays::{clone_array, view_array, Array, ArrayTypeView, ArrayView};
use crate::defines::{clone_comment, view_comment};
use crate::links::{clone_link, view_link, UserDefinitionLink, UserDefinitionLinkView};
use crate::primitives::Primitive;
use crate::standalone_comments::{StandaloneCommentDefinition, StandaloneCommentDefinitionView};
use crate::{size_result_to_int, RuneParserError};

verus! {

/// The position of a struct member: a plain numeric index, or the verifier
/// alias, which always denotes index 0 and marks an integrity-check field.
#[derive(Clone, Copy, Debug)]
pub enum MemberIndex {
    /// Used for regular fields
    Numeric(u64),
    /// Used for the verification field.  Aliases to 0
    Verifier,
}

impl MemberIndex {
    /// The numeric index the position denotes: the verifier alias stands for
    /// index 0.
    pub open spec fn spec_value(self) -> u64 {
        match self {
            MemberIndex::Numeric(v) => v,
            MemberIndex::Verifier => 0,
        }
    }

    pub open spec fn spec_is_verifier(self) -> bool {
        self is Verifier
    }

    pub fn value(&self) -> (r: u64)
        ensures
            r == self.spec_value(),
    {
        match self {
            MemberIndex::Numeric(value) => *value,
            MemberIndex::Verifier => 0,
        }
    }

    pub fn is_verifier(&self) -> (r: bool)
        ensures
            r == self.spec_is_verifier(),
    {
        matches!(self, MemberIndex::Verifier)
    }
}

/// The type of a struct member.
#[derive(Debug)]
pub enum MemberType {
    Array(Array),
    Primitive(Primitive),
    /// A user-defined type, together with the frozen snapshot of its
    /// declaration once the linker has run
    UserDefined(String, UserDefinitionLink),
}

/// One member of a struct.
#[derive(Debug)]
pub struct StructMember {
    /// Name of the data field
    pub identifier: String,
    /// Type of the data field
    pub data_type: MemberType,
    /// Index of the data field.  Structs do not bound their indexes
    pub index: MemberIndex,
    /// Comment describing the data field
    pub comment: Option<String>,
}

/// A struct declaration.
#[derive(Debug)]
pub struct StructDefinition {
    /// Name of the struct
    pub name: String,
    /// Members of the struct
    pub members: Vec<StructMember>,
    /// Indexes that are reserved, and must not be used
    pub reserved_indexes: Vec<u64>,
    /// Comment describing the struct
    pub comment: Option<String>,
    /// Loose comments inside the struct declaration
    pub orphan_comments: Vec<StandaloneCommentDefinition>,
}

/// Mathematical model of a member type.
#[verifier::ext_equal]
pub enum MemberTypeView {
    Array(ArrayView),
    Primitive(Primitive),
    UserDefined(Seq<char>, UserDefinitionLinkView),
}

/// Mathematical model of a struct member.
#[verifier::ext_equal]
pub struct StructMemberView {
    pub identifier: Seq<char>,
    pub data_type: MemberTypeView,
    pub index: MemberIndex,
    pub comment: Option<Seq<char>>,
}

/// Mathematical model of a struct declaration.
#[verifier::ext_equal]
pub struct StructDefinitionView {
    pub name: Seq<char>,
    pub members: Seq<StructMemberView>,
    pub reserved_indexes: Seq<u64>,
    pub comment: Option<Seq<char>>,
    pub orphan_comments: Seq<StandaloneCommentDefinitionView>,
}

/// The model of a member type.
pub open spec fn view_member_type(t: MemberType) -> MemberTypeView
    decreases t,
{
    match t {
        MemberType::Array(a) => MemberTypeView::Array(view_array(a)),
        MemberType::Primitive(p) => MemberTypeView::Primitive(p),
        MemberType::UserDefined(name, link) => MemberTypeView::UserDefined(name@, view_link(link)),
    }
}

/// The model of a struct member.
pub open spec fn view_struct_member(m: StructMember) -> StructMemberView
    decreases m,
{
    StructMemberView {
        identifier: m.identifier@,
        data_type: view_member_type(m.data_type),
        index: m.index,
        comment: view_comment(m.comment),
    }
}

/// The model of a member list.
pub open spec fn view_struct_members(ms: Seq<StructMember>) -> Seq<StructMemberView>
    decreases ms,
{
    if ms.len() == 0 {
        Seq::empty()
    } else {
        view_struct_members(ms.drop_last()).push(view_struct_member(ms.last()))
    }
}

/// The model of a struct declaration.
pub open spec fn view_struct_def(s: StructDefinition) -> StructDefinitionView
    decreases s,
{
    StructDefinitionView {
        name: s.name@,
        members: view_struct_members(s.members@),
        reserved_indexes: s.reserved_indexes@,
        comment: view_comment(s.comment),
        orphan_comments: s.orphan_comments.deep_view(),
    }
}

/// The member list model indexes pointwise into the member models.
pub broadcast proof fn lemma_view_struct_members(ms: Seq<StructMember>)
    ensures
        (#[trigger] view_struct_members(ms)).len() == ms.len(),
        forall|i: int|
            0 <= i < ms.len() ==> view_struct_members(ms)[i] == view_struct_member(ms[i]),
    decreases ms,
{
    if ms.len() > 0 {
        lemma_view_struct_members(ms.drop_last());
    }
}

impl View for MemberType {
    type V = MemberTypeView;

    open spec fn view(&self) -> MemberTypeView {
        view_member_type(*self)
    }
}

impl View for StructMember {
    type V = StructMemberView;

    open spec fn view(&self) -> StructMemberView {
        view_struct_member(*self)
    }
}

impl DeepView for StructMember {
    type V = StructMemberView;

    open spec fn deep_view(&self) -> StructMemberView {
        self.view()
    }
}

impl View for StructDefinition {
    type V = StructDefinitionView;

    open spec fn view(&self) -> StructDefinitionView {
        view_struct_def(*self)
    }
}

impl DeepView for StructDefinition {
    type V = StructDefinitionView;

    open spec fn deep_view(&self) -> StructDefinitionView {
        self.view()
    }
}

impl StructMemberView {
    /// The fixed encoded width of one struct member: the array's byte size,
    /// the primitive's width, the backing width of a linked enum or
    /// bitfield, or the flat size of a nested struct.  An unresolved link
    /// cannot be sized, and a message is not fixed-width and so cannot be a
    /// struct member.
    pub open spec fn spec_size(self) -> Result<int, RuneParserError>
        decreases self,
    {
        match self.data_type {
            MemberTypeView::Array(a) => a.spec_byte_size(),
            MemberTypeView::Primitive(p) => Ok(p.spec_width() as int),
            MemberTypeView::UserDefined(_, link) => match link {
                UserDefinitionLinkView::NoLink => Err(RuneParserError::UndefinedIdentifier),
                UserDefinitionLinkView::BitfieldLink(b) => Ok(b.backing_type.spec_width() as int),
                UserDefinitionLinkView::EnumLink(e) => Ok(e.backing_type.spec_width() as int),
                UserDefinitionLinkView::MessageLink(_) => Err(
                    RuneParserError::InvalidStructMemberType,
                ),
                UserDefinitionLinkView::StructLink(s) => s.spec_flat_size(),
            },
        }
    }
}

/// The flat size of a member list: the sum, in declaration order, of each
/// member's fixed width.  The first member that cannot be sized decides the
/// error, and a sum that cannot fit a 64-bit byte count is an invalid
/// encoded size.
pub open spec fn spec_members_flat_size(ms: Seq<StructMemberView>) -> Result<int, RuneParserError>
    decreases ms,
{
    if ms.len() == 0 {
        Ok(0)
    } else {
        match spec_members_flat_size(ms.drop_last()) {
            Err(e) => Err(e),
            Ok(sum) => match ms.last().spec_size() {
                Err(e) => Err(e),
                Ok(w) => if sum + w <= u64::MAX {
                    Ok(sum + w)
                } else {
                    Err(RuneParserError::InvalidEncodedSize)
                },
            },
        }
    }
}

impl StructDefinitionView {
    /// The flat size of the struct: what it occupies when all members are
    /// laid out in order in one blob with no padding.
    pub open spec fn spec_flat_size(self) -> Result<int, RuneParserError>
        decreases self,
    {
        spec_members_flat_size(self.members)
    }
}

/// Every flat size a member list can have is a non-negative byte count.
pub proof fn lemma_members_flat_size_nonneg(ms: Seq<StructMemberView>)
    ensures
        spec_members_flat_size(ms) matches Ok(v) ==> 0 <= v <= u64::MAX,
    decreases ms,
{
    if ms.len() > 0 {
        lemma_members_flat_size_nonneg(ms.drop_last());
        lemma_member_size_nonneg(ms.last());
    }
}

/// Every width a member can have is a non-negative byte count.
pub proof fn lemma_member_size_nonneg(m: StructMemberView)
    ensures
        m.spec_size() matches Ok(v) ==> 0 <= v <= u64::MAX,
    decreases m,
{
    match m.data_type {
        MemberTypeView::Array(a) => {
            lemma_array_elem_size_nonneg(a.data_type);
            if a.data_type.spec_size() is Ok && a.element_count.spec_value() is Ok {
                let w = a.data_type.spec_size()->Ok_0;
                let c = a.element_count.spec_value()->Ok_0;
                assert(w * c >= 0) by (nonlinear_arith)
                    requires
                        w >= 0,
                        c >= 0,
                ;
            }
        },
        MemberTypeView::Primitive(p) => {},
        MemberTypeView::UserDefined(_, link) => match link {
            UserDefinitionLinkView::StructLink(s) => {
                lemma_members_flat_size_nonneg(s.members);
            },
            _ => {},
        },
    }
}

/// Every width an array element type can have is a non-negative byte count.
pub proof fn lemma_array_elem_size_nonneg(t: ArrayTypeView)
    ensures
        t.spec_size() matches Ok(v) ==> 0 <= v <= u64::MAX,
    decreases t,
{
    match t {
        ArrayTypeView::UserDefined(_, link) => match link {
            UserDefinitionLinkView::StructLink(s) => {
                lemma_members_flat_size_nonneg(s.members);
            },
            _ => {},
        },
        _ => {},
    }
}

impl StructDefinition {
    /// The flat size of the struct: the byte count it occupies when all
    /// members are flattened into one long data blob with no padding.
    pub fn flat_size(&self) -> (r: Result<u64, RuneParserError>)
        ensures
            size_result_to_int(r) == self@.spec_flat_size(),
        decreases *self,
    {
        let ghost members_view = view_struct_members(self.members@);
        let mut total_size: u64 = 0;
        let mut i: usize = 0;
        proof {
            broadcast use lemma_view_struct_members;

            assert(members_view.take(0) =~= Seq::<StructMemberView>::empty());
        }
        while i < self.members.len()
            invariant
                i <= self.members.len(),
                members_view == view_struct_members(self.members@),
                members_view.len() == self.members@.len(),
                forall|j: int|
                    0 <= j < self.members@.len() ==> members_view[j] == view_struct_member(
                        self.members@[j],
                    ),
                spec_members_flat_size(members_view.take(i as int)) == Ok::<
                    int,
                    RuneParserError,
                >(total_size as int),
            decreases self.members.len() - i,
        {
            let member_size: u64 = match &self.members[i].data_type {
                MemberType::Array(array) => match array.byte_size() {
                    Ok(v) => v,
                    Err(e) => {
                        proof {
                            lemma_members_flat_size_prefix_err(members_view, i as int);
                        }
                        return Err(e);
                    },
                },
                MemberType::Primitive(primitive) => primitive.encoded_max_data_size(),
                MemberType::UserDefined(_, definition_link) => match definition_link {
                    UserDefinitionLink::NoLink => {
                        proof {
                            lemma_members_flat_size_prefix_err(members_view, i as int);
                        }
                        return Err(RuneParserError::UndefinedIdentifier);
                    },
                    UserDefinitionLink::BitfieldLink(bitfield_definition) =>
                        bitfield_definition.backing_type.encoded_max_data_size(),
                    UserDefinitionLink::EnumLink(enum_definition) =>
                        enum_definition.backing_type.encoded_max_data_size(),
                    UserDefinitionLink::MessageLink(_) => {
                        proof {
                            lemma_members_flat_size_prefix_err(members_view, i as int);
                        }
                        return Err(RuneParserError::InvalidStructMemberType);
                    },
                    UserDefinitionLink::StructLink(struct_definition) => match struct_definition
                        .flat_size() {
                        Ok(v) => v,
                        Err(e) => {
                            proof {
                                lemma_members_flat_size_prefix_err(members_view, i as int);
                            }
                            return Err(e);
                        },
                    },
                },
            };
            proof {
                assert(members_view[i as int].spec_size() == Ok::<int, RuneParserError>(
                    member_size as int,
                ));
            }
            total_size = match total_size.checked_add(member_size) {
                Some(v) => v,
                None => {
                    proof {
                        lemma_members_flat_size_prefix_err(members_view, i as int);
                    }
                    return Err(RuneParserError::InvalidEncodedSize);
                },
            };
            i = i + 1;
            proof {
                assert(members_view.take(i as int).drop_last() =~= members_view.take(i - 1));
                assert(members_view.take(i as int).last() == members_view[i - 1]);
            }
        }
        proof {
            assert(members_view.take(self.members@.len() as int) =~= members_view);
        }
        Ok(total_size)
    }
}

/// When the members up to `i` sum cleanly but member `i` fails to size, or
/// pushes the sum past what a 64-bit byte count can hold, the whole member
/// list fails the same way.
pub proof fn lemma_members_flat_size_prefix_err(ms: Seq<StructMemberView>, i: int)
    requires
        0 <= i < ms.len(),
        spec_members_flat_size(ms.take(i)) is Ok,
        match ms[i].spec_size() {
            Err(_) => true,
            Ok(w) => spec_members_flat_size(ms.take(i))->Ok_0 + w > u64::MAX,
        },
    ensures
        spec_members_flat_size(ms) == (match ms[i].spec_size() {
            Err(e) => Err::<int, RuneParserError>(e),
            Ok(_) => Err::<int, RuneParserError>(RuneParserError::InvalidEncodedSize),
        }),
    decreases ms,
{
    assert(ms.take(i + 1).drop_last() =~= ms.take(i));
    assert(ms.take(i + 1).last() == ms[i]);
    if i + 1 == ms.len() {
        assert(ms.take(i + 1) =~= ms);
    } else {
        lemma_members_flat_size_err_extend(ms, i + 1);
    }
}

/// Once a prefix of the member list has failed to size, every longer prefix
/// fails with the same error.
pub proof fn lemma_members_flat_size_err_extend(ms: Seq<StructMemberView>, i: int)
    requires
        0 <= i <= ms.len(),
        spec_members_flat_size(ms.take(i)) is Err,
    ensures
        spec_members_flat_size(ms) == spec_members_flat_size(ms.take(i)),
    decreases ms.len() - i,
{
    if i == ms.len() {
        assert(ms.take(i) =~= ms);
    } else {
        assert(ms.take(i + 1).drop_last() =~= ms.take(i));
        lemma_members_flat_size_err_extend(ms, i + 1);
    }
}

/// Copies a member type, snapshot and all.
pub fn clone_member_type(t: &MemberType) -> (r: MemberType)
    ensures
        r@ == t@,
    decreases *t,
{
    match t {
        MemberType::Array(a) => MemberType::Array(clone_array(a)),
        MemberType::Primitive(p) => MemberType::Primitive(*p),
        MemberType::UserDefined(name, link) => MemberType::UserDefined(
            name.clone(),
            clone_link(link),
        ),
    }
}

/// Copies a struct member, snapshot and all.
pub fn clone_struct_member(m: &StructMember) -> (r: StructMember)
    ensures
        r@ == m@,
    decreases *m,
{
    let r = StructMember {
        identifier: m.identifier.clone(),
        data_type: clone_member_type(&m.data_type),
        index: m.index,
        comment: clone_comment(&m.comment),
    };
    proof {
        assert(r@ =~= m@);
    }
    r
}

/// Copies a member list, snapshots and all.
pub fn clone_struct_members(v: &Vec<StructMember>) -> (r: Vec<StructMember>)
    ensures
        r.deep_view() == v.deep_view(),
    decreases v@,
{
    let mut r: Vec<StructMember> = Vec::new();
    let mut i: usize = 0;
    while i < v.len()
        invariant
            i <= v.len(),
            r@.len() == i as int,
            forall|j: int| 0 <= j < i ==> r.deep_view()[j] == v.deep_view()[j],
        decreases v.len() - i,
    {
        r.push(clone_struct_member(&v[i]));
        proof {
            assert(r@[i as int]@ == v@[i as int]@);
        }
        i = i + 1;
    }
    proof {
        assert(r.deep_view() =~= v.deep_view());
    }
    r
}

/// Copies a struct declaration, snapshots and all.
pub fn clone_struct_def(s: &StructDefinition) -> (r: StructDefinition)
    ensures
        r@ == s@,
    decreases *s,
{
    let r = StructDefinition {
        name: s.name.clone(),
        members: clone_struct_members(&s.members),
        reserved_indexes: crate::bitfields::clone_u64s(&s.reserved_indexes),
        comment: clone_comment(&s.comment),
        orphan_comments: crate::bitfields::clone_orphan_comments(&s.orphan_comments),
    };
    proof {
        broadcast use lemma_view_struct_members;

        assert(r.members.deep_view().len() == r.members@.len());
        assert(s.members.deep_view().len() == s.members@.len());
        assert(r.members@.len() == s.members@.len());
        assert forall|i: int| 0 <= i < s.members@.len() implies view_struct_member(r.members@[i])
            == view_struct_member(s.members@[i]) by {
            assert(r.members.deep_view()[i] == s.members.deep_view()[i]);
        }
        assert(view_struct_members(r.members@) =~= view_struct_members(s.members@));
        assert(r@ =~= s@);
    }
    r
}

impl Clone for StructMember {
    fn clone(&self) -> (r: Self)
        ensures
            r@ == self@,
    {
        clone_struct_member(self)
    }
}

impl Clone for StructDefinition {
    fn clone(&self) -> (r: Self)
        ensures
            r@ == self@,
    {
        clone_struct_def(self)
    }
}

impl PartialEq for MemberType {
    /// Two member types are equal when they name the same primitive, equal
    /// arrays, or the same user type; resolution state is not compared.
    fn eq(&self, other: &MemberType) -> (r: bool) {
        match (self, other) {
            (MemberType::Primitive(p), MemberType::Primitive(q)) => *p == *q,
            (MemberType::Array(a), MemberType::Array(b)) => *a == *b,
            (MemberType::UserDefined(name, _), MemberType::UserDefined(other_name, _)) => *name
                == *other_name,
            _ => false,
        }
    }
}

impl vstd::std_specs::cmp::PartialEqSpecImpl for MemberType {
    open spec fn obeys_eq_spec() -> bool {
        true
    }

    open spec fn eq_spec(&self, other: &MemberType) -> bool {
        spec_member_type_eq(self@, other@)
    }
}

/// When two member types count as the same: the same primitive, equal
/// arrays, or the same user type name, whatever either link holds.
pub open spec fn spec_member_type_eq(a: MemberTypeView, b: MemberTypeView) -> bool {
    match (a, b) {
        (MemberTypeView::Primitive(p), MemberTypeView::Primitive(q)) => p == q,
        (MemberTypeView::Array(x), MemberTypeView::Array(y)) => crate::arrays::spec_array_eq(x, y),
        (MemberTypeView::UserDefined(n, _), MemberTypeView::UserDefined(m, _)) => n == m,
        _ => false,
    }
}


/// Inserting member `k` back into the list adds its width to the flat size,
/// wherever it sits: the flat size of a sizable member list is the sum of
/// the member widths, not an artifact of their order.
proof fn lemma_members_flat_size_insert(ms: Seq<StructMemberView>, k: int)
    requires
        0 <= k < ms.len(),
        spec_members_flat_size(ms.remove(k)) is Ok,
        ms[k].spec_size() is Ok,
        spec_members_flat_size(ms.remove(k))->Ok_0 + ms[k].spec_size()->Ok_0 <= u64::MAX,
    ensures
        spec_members_flat_size(ms) == Ok::<int, RuneParserError>(
            spec_members_flat_size(ms.remove(k))->Ok_0 + ms[k].spec_size()->Ok_0,
        ),
    decreases ms.len(),
{
    let s = spec_members_flat_size(ms.remove(k))->Ok_0;
    let w = ms[k].spec_size()->Ok_0;
    lemma_member_size_nonneg(ms[k]);
    if k == ms.len() - 1 {
        assert(ms.remove(k) =~= ms.drop_last());
        assert(ms.last() == ms[k]);
    } else {
        let y = ms.last();
        lemma_member_size_nonneg(y);
        assert(ms.remove(k).drop_last() =~= ms.drop_last().remove(k));
        assert(ms.remove(k).last() == y);
        lemma_members_flat_size_nonneg(ms.drop_last().remove(k));
        match spec_members_flat_size(ms.drop_last().remove(k)) {
            Ok(s0) => {
                match y.spec_size() {
                    Ok(wy) => {
                        assert(spec_members_flat_size(ms.remove(k)) == Ok::<int, RuneParserError>(
                            s0 + wy,
                        ));
                        lemma_members_flat_size_insert(ms.drop_last(), k);
                        assert(spec_members_flat_size(ms.drop_last()) == Ok::<
                            int,
                            RuneParserError,
                        >(s0 + w));
                        assert(ms.drop_last()[k] == ms[k]);
                    },
                    Err(_) => {
                        assert(false);
                    },
                }
            },
            Err(_) => {
                assert(false);
            },
        }
    }
}

/// The flat size of a struct depends only on which members it has, not on
/// the order they are declared in: member lists that hold the same members
/// as an unordered collection have the same flat size, and one is sizable
/// exactly when the other is.
pub proof fn lemma_flat_size_order_independent(ms1: Seq<StructMemberView>, ms2: Seq<
    StructMemberView,
>)
    requires
        ms1.to_multiset() == ms2.to_multiset(),
        spec_members_flat_size(ms1) is Ok,
    ensures
        spec_members_flat_size(ms2) == spec_members_flat_size(ms1),
    decreases ms1.len(),
{
    broadcast use vstd::seq_lib::group_seq_properties;

    ms1.to_multiset_ensures();
    ms2.to_multiset_ensures();
    if ms1.len() == 0 {
        assert(ms2.len() == 0);
        assert(ms2 =~= Seq::<StructMemberView>::empty());
    } else {
        let x = ms1.last();
        assert(ms1.to_multiset().count(x) > 0);
        assert(ms2.to_multiset().count(x) > 0);
        assert(ms2.contains(x));
        let k = choose|k: int| 0 <= k < ms2.len() && ms2[k] == x;
        assert(ms1.drop_last() =~= ms1.remove(ms1.len() - 1));
        assert(ms1.remove(ms1.len() - 1).to_multiset() =~= ms1.to_multiset().remove(x));
        assert(ms2.remove(k).to_multiset() =~= ms2.to_multiset().remove(x));
        assert(ms1.drop_last().to_multiset() == ms2.remove(k).to_multiset());
        match spec_members_flat_size(ms1.drop_last()) {
            Ok(s0) => {
                lemma_flat_size_order_independent(ms1.drop_last(), ms2.remove(k));
                assert(spec_members_flat_size(ms2.remove(k)) == Ok::<int, RuneParserError>(s0));
                match x.spec_size() {
                    Ok(w) => {
                        lemma_members_flat_size_insert(ms2, k);
                    },
                    Err(_) => {
                        assert(false);
                    },
                }
            },
            Err(_) => {
                assert(false);
            },
        }
    }
}

} // verus!

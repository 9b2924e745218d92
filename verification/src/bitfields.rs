//! Bitfields: a fixed-width integer primitive subdivided into named bit
//! ranges at declared bit slots.

use vstd::prelude::*;
use crate::defines::{clone_comment, view_comment};
use crate::primitives::Primitive;
use crate::standalone_comments::{StandaloneCommentDefinition, StandaloneCommentDefinitionView};

verus! {

/// The width of one bitfield member in bits, and whether the member is read
/// back as a signed value.
#[derive(Clone, Copy, Debug)]
pub enum BitSize {
    Signed(u64),
    Unsigned(u64),
}

impl BitSize {
    /// The width in bits, signedness set aside.
    pub open spec fn spec_absolute(self) -> u64 {
        match self {
            BitSize::Signed(size) => size,
            BitSize::Unsigned(size) => size,
        }
    }

    pub fn absolute(&self) -> (r: u64)
        ensures
            r == self.spec_absolute(),
    {
        match self {
            BitSize::Signed(size) => *size,
            BitSize::Unsigned(size) => *size,
        }
    }
}

/// One named bit range of a bitfield.
#[derive(Debug)]
pub struct BitfieldMember {
    /// Name of the bit field
    pub identifier: String,
    /// Size of the bit field
    pub size: BitSize,
    /// Index of the bit field
    pub index: u64,
    /// Comment describing the bit field
    pub comment: Option<String>,
}

/// A bitfield declaration.
#[derive(Debug)]
pub struct BitfieldDefinition {
    /// Name of the bitfield
    pub name: String,
    /// The primitive backing the bitfield.  Only integers are valid
    pub backing_type: Primitive,
    /// Members of the bitfield
    pub members: Vec<BitfieldMember>,
    /// Bit slots that are reserved, and must not be used
    pub reserved_indexes: Vec<u64>,
    /// Comment describing the bitfield
    pub comment: Option<String>,
    /// Loose comments inside the bitfield declaration
    pub orphan_comments: Vec<StandaloneCommentDefinition>,
}

/// Mathematical model of a bitfield member.
#[verifier::ext_equal]
pub struct BitfieldMemberView {
    pub identifier: Seq<char>,
    pub size: BitSize,
    pub index: u64,
    pub comment: Option<Seq<char>>,
}

/// Mathematical model of a bitfield declaration.
#[verifier::ext_equal]
pub struct BitfieldDefinitionView {
    pub name: Seq<char>,
    pub backing_type: Primitive,
    pub members: Seq<BitfieldMemberView>,
    pub reserved_indexes: Seq<u64>,
    pub comment: Option<Seq<char>>,
    pub orphan_comments: Seq<StandaloneCommentDefinitionView>,
}

impl View for BitfieldMember {
    type V = BitfieldMemberView;

    open spec fn view(&self) -> BitfieldMemberView {
        BitfieldMemberView {
            identifier: self.identifier@,
            size: self.size,
            index: self.index,
            comment: view_comment(self.comment),
        }
    }
}

impl View for BitfieldDefinition {
    type V = BitfieldDefinitionView;

    open spec fn view(&self) -> BitfieldDefinitionView {
        BitfieldDefinitionView {
            name: self.name@,
            backing_type: self.backing_type,
            members: self.members.deep_view(),
            reserved_indexes: self.reserved_indexes@,
            comment: view_comment(self.comment),
            orphan_comments: self.orphan_comments.deep_view(),
        }
    }
}

impl DeepView for BitfieldMember {
    type V = BitfieldMemberView;

    open spec fn deep_view(&self) -> BitfieldMemberView {
        self.view()
    }
}

impl DeepView for BitfieldDefinition {
    type V = BitfieldDefinitionView;

    open spec fn deep_view(&self) -> BitfieldDefinitionView {
        self.view()
    }
}

impl Clone for BitfieldMember {
    fn clone(&self) -> (r: Self)
        ensures
            r@ == self@,
    {
        let r = BitfieldMember {
            identifier: self.identifier.clone(),
            size: self.size,
            index: self.index,
            comment: clone_comment(&self.comment),
        };
        proof {
            assert(r@ =~= self@);
        }
        r
    }
}

impl Clone for BitfieldDefinition {
    fn clone(&self) -> (r: Self)
        ensures
            r@ == self@,
    {
        let r = BitfieldDefinition {
            name: self.name.clone(),
            backing_type: self.backing_type,
            members: clone_bitfield_members(&self.members),
            reserved_indexes: clone_u64s(&self.reserved_indexes),
            comment: clone_comment(&self.comment),
            orphan_comments: clone_orphan_comments(&self.orphan_comments),
        };
        proof {
            assert(r@ =~= self@);
        }
        r
    }
}

/// Clones a member list element by element.
pub fn clone_bitfield_members(v: &Vec<BitfieldMember>) -> (r: Vec<BitfieldMember>)
    ensures
        r.deep_view() == v.deep_view(),
{
    let mut r: Vec<BitfieldMember> = Vec::new();
    let mut i: usize = 0;
    while i < v.len()
        invariant
            i <= v.len(),
            r@.len() == i as int,
            forall|j: int| 0 <= j < i ==> r.deep_view()[j] == v.deep_view()[j],
        decreases v.len() - i,
    {
        r.push(v[i].clone());
        proof {
            assert(r@[i as int]@ == v@[i as int]@);
        }
        i = i + 1;
    }
    proof {
        assert(r.deep_view() =~= v.deep_view());
    }
    r
}

/// Clones a list of reserved slots or values.
pub fn clone_u64s(v: &Vec<u64>) -> (r: Vec<u64>)
    ensures
        r@ == v@,
{
    let mut r: Vec<u64> = Vec::new();
    let mut i: usize = 0;
    while i < v.len()
        invariant
            i <= v.len(),
            r@ == v@.take(i as int),
        decreases v.len() - i,
    {
        r.push(v[i]);
        proof {
            assert(r@ =~= v@.take(i + 1 as int));
        }
        i = i + 1;
    }
    proof {
        assert(v@.take(v.len() as int) =~= v@);
    }
    r
}

/// Clones a list of standalone comments element by element.
pub fn clone_orphan_comments(v: &Vec<StandaloneCommentDefinition>) -> (r: Vec<
    StandaloneCommentDefinition,
>)
    ensures
        r.deep_view() == v.deep_view(),
{
    let mut r: Vec<StandaloneCommentDefinition> = Vec::new();
    let mut i: usize = 0;
    while i < v.len()
        invariant
            i <= v.len(),
            r@.len() == i as int,
            forall|j: int| 0 <= j < i ==> r.deep_view()[j] == v.deep_view()[j],
        decreases v.len() - i,
    {
        r.push(v[i].clone());
        proof {
            assert(r@[i as int]@ == v@[i as int]@);
        }
        i = i + 1;
    }
    proof {
        assert(r.deep_view() =~= v.deep_view());
    }
    r
}

} // verus!

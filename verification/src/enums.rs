//! Enums: named members with numeric values drawn from the domain of a
//! backing primitive.

use vstd::prelude::*;
use crate::defines::{clone_comment, view_comment};
use crate::numeric::NumericLiteral;
use crate::primitives::Primitive;
use crate::standalone_comments::{StandaloneCommentDefinition, StandaloneCommentDefinitionView};

verus! {

/// One member of an enum.
#[derive(Debug)]
pub struct EnumMember {
    /// Name of the enum member
    pub identifier: String,
    /// Value of the enum member
    pub value: NumericLiteral,
    /// Comment describing the enum member
    pub comment: Option<String>,
}

/// An enum declaration.
#[derive(Debug)]
pub struct EnumDefinition {
    /// Name of the enum
    pub name: String,
    /// The primitive backing the enum
    pub backing_type: Primitive,
    /// Members of the enum
    pub members: Vec<EnumMember>,
    /// Values that are reserved, and must not be used
    pub reserved_values: Vec<NumericLiteral>,
    /// Comment describing the enum
    pub comment: Option<String>,
    /// Loose comments inside the enum declaration
    pub orphan_comments: Vec<StandaloneCommentDefinition>,
}

/// Mathematical model of an enum member.
#[verifier::ext_equal]
pub struct EnumMemberView {
    pub identifier: Seq<char>,
    pub value: NumericLiteral,
    pub comment: Option<Seq<char>>,
}

/// Mathematical model of an enum declaration.
#[verifier::ext_equal]
pub struct EnumDefinitionView {
    pub name: Seq<char>,
    pub backing_type: Primitive,
    pub members: Seq<EnumMemberView>,
    pub reserved_values: Seq<NumericLiteral>,
    pub comment: Option<Seq<char>>,
    pub orphan_comments: Seq<StandaloneCommentDefinitionView>,
}

impl View for EnumMember {
    type V = EnumMemberView;

    open spec fn view(&self) -> EnumMemberView {
        EnumMemberView {
            identifier: self.identifier@,
            value: self.value,
            comment: view_comment(self.comment),
        }
    }
}

impl DeepView for EnumMember {
    type V = EnumMemberView;

    open spec fn deep_view(&self) -> EnumMemberView {
        self.view()
    }
}

impl View for EnumDefinition {
    type V = EnumDefinitionView;

    open spec fn view(&self) -> EnumDefinitionView {
        EnumDefinitionView {
            name: self.name@,
            backing_type: self.backing_type,
            members: self.members.deep_view(),
            reserved_values: self.reserved_values@,
            comment: view_comment(self.comment),
            orphan_comments: self.orphan_comments.deep_view(),
        }
    }
}

impl DeepView for EnumDefinition {
    type V = EnumDefinitionView;

    open spec fn deep_view(&self) -> EnumDefinitionView {
        self.view()
    }
}

impl Clone for EnumMember {
    fn clone(&self) -> (r: Self)
        ensures
            r@ == self@,
    {
        let r = EnumMember {
            identifier: self.identifier.clone(),
            value: self.value,
            comment: clone_comment(&self.comment),
        };
        proof {
            assert(r@ =~= self@);
        }
        r
    }
}

impl Clone for EnumDefinition {
    fn clone(&self) -> (r: Self)
        ensures
            r@ == self@,
    {
        let r = EnumDefinition {
            name: self.name.clone(),
            backing_type: self.backing_type,
            members: clone_enum_members(&self.members),
            reserved_values: clone_literals(&self.reserved_values),
            comment: clone_comment(&self.comment),
            orphan_comments: crate::bitfields::clone_orphan_comments(&self.orphan_comments),
        };
        proof {
            assert(r@ =~= self@);
        }
        r
    }
}

/// Clones a member list element by element.
pub fn clone_enum_members(v: &Vec<EnumMember>) -> (r: Vec<EnumMember>)
    ensures
        r.deep_view() == v.deep_view(),
{
    let mut r: Vec<EnumMember> = Vec::new();
    let mut i: usize = 0;
    while i < v.len()
        invariant
            i <= v.len(),
            r@.len() == i as int,
            forall|j: int| 0 <= j < i ==> r.deep_view()[j] == v.deep_view()[j],
        decreases v.len() - i,
    {
        r.push(v[i].clone());
        proof {
            assert(r@[i as int]@ == v@[i as int]@);
        }
        i = i + 1;
    }
    proof {
        assert(r.deep_view() =~= v.deep_view());
    }
    r
}

/// Clones a list of reserved values.
pub fn clone_literals(v: &Vec<NumericLiteral>) -> (r: Vec<NumericLiteral>)
    ensures
        r@ == v@,
{
    let mut r: Vec<NumericLiteral> = Vec::new();
    let mut i: usize = 0;
    while i < v.len()
        invariant
            i <= v.len(),
            r@ == v@.take(i as int),
        decreases v.len() - i,
    {
        r.push(v[i]);
        proof {
            assert(r@ =~= v@.take(i + 1 as int));
        }
        i = i + 1;
    }
    proof {
        assert(v@.take(v.len() as int) =~= v@);
    }
    r
}

} // verus!

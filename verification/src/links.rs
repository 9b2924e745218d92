//! Resolved links from a named type reference to a frozen snapshot of the
//! declaration it names.

use vstd::prelude::*;
use crate::bitfields::{BitfieldDefinition, BitfieldDefinitionView};
use crate::enums::{EnumDefinition, EnumDefinitionView};
use crate::messages::{MessageDefinition, MessageDefinitionView};
use crate::structs::{StructDefinition, StructDefinitionView};

verus! {

/// The resolution state of a named type reference.  Each resolved variant
/// holds a self-contained copy of the declaration, frozen at link time, never
/// a live reference: later changes to the original cannot reach a snapshot.
#[derive(Debug)]
pub enum UserDefinitionLink {
    NoLink,
    /// Copy of the bitfield definition
    BitfieldLink(BitfieldDefinition),
    /// Copy of the enum definition
    EnumLink(EnumDefinition),
    /// Copy of the message definition
    MessageLink(MessageDefinition),
    /// Copy of the struct definition
    StructLink(StructDefinition),
}

/// Mathematical model of a resolution state.
#[verifier::ext_equal]
pub enum UserDefinitionLinkView {
    NoLink,
    BitfieldLink(BitfieldDefinitionView),
    EnumLink(EnumDefinitionView),
    MessageLink(MessageDefinitionView),
    StructLink(StructDefinitionView),
}

/// The model of a link.
pub open spec fn view_link(l: UserDefinitionLink) -> UserDefinitionLinkView
    decreases l,
{
    match l {
        UserDefinitionLink::NoLink => UserDefinitionLinkView::NoLink,
        UserDefinitionLink::BitfieldLink(b) => UserDefinitionLinkView::BitfieldLink(b@),
        UserDefinitionLink::EnumLink(e) => UserDefinitionLinkView::EnumLink(e@),
        UserDefinitionLink::MessageLink(m) => UserDefinitionLinkView::MessageLink(
            crate::messages::view_message_def(m),
        ),
        UserDefinitionLink::StructLink(s) => UserDefinitionLinkView::StructLink(
            crate::structs::view_struct_def(s),
        ),
    }
}

impl View for UserDefinitionLink {
    type V = UserDefinitionLinkView;

    open spec fn view(&self) -> UserDefinitionLinkView {
        view_link(*self)
    }
}

impl DeepView for UserDefinitionLink {
    type V = UserDefinitionLinkView;

    open spec fn deep_view(&self) -> UserDefinitionLinkView {
        self.view()
    }
}

/// Copies a link, snapshot and all.
pub fn clone_link(l: &UserDefinitionLink) -> (r: UserDefinitionLink)
    ensures
        r@ == l@,
    decreases *l,
{
    match l {
        UserDefinitionLink::NoLink => UserDefinitionLink::NoLink,
        UserDefinitionLink::BitfieldLink(b) => UserDefinitionLink::BitfieldLink(b.clone()),
        UserDefinitionLink::EnumLink(e) => UserDefinitionLink::EnumLink(e.clone()),
        UserDefinitionLink::MessageLink(m) => UserDefinitionLink::MessageLink(
            crate::messages::clone_message_def(m),
        ),
        UserDefinitionLink::StructLink(s) => UserDefinitionLink::StructLink(
            crate::structs::clone_struct_def(s),
        ),
    }
}

impl Clone for UserDefinitionLink {
    fn clone(&self) -> (r: Self)
        ensures
            r@ == self@,
    {
        clone_link(self)
    }
}

} // verus!

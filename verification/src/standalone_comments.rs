//! Comments that stand on their own inside a declaration, attached to no
//! member.

use vstd::prelude::*;

verus! {

/// A comment not connected to any data field or data declaration, with the
/// member position it was found at so that emission can place it back.
#[derive(Debug)]
pub struct StandaloneCommentDefinition {
    pub comment: String,
    pub index: usize,
}

/// Mathematical model of a standalone comment.
#[verifier::ext_equal]
pub struct StandaloneCommentDefinitionView {
    pub comment: Seq<char>,
    pub index: usize,
}

impl View for StandaloneCommentDefinition {
    type V = StandaloneCommentDefinitionView;

    open spec fn view(&self) -> StandaloneCommentDefinitionView {
        StandaloneCommentDefinitionView { comment: self.comment@, index: self.index }
    }
}

impl DeepView for StandaloneCommentDefinition {
    type V = StandaloneCommentDefinitionView;

    open spec fn deep_view(&self) -> StandaloneCommentDefinitionView {
        self.view()
    }
}

impl Clone for StandaloneCommentDefinition {
    fn clone(&self) -> (r: Self)
        ensures
            r@ == self@,
    {
        let r = StandaloneCommentDefinition { comment: self.comment.clone(), index: self.index };
        proof {
            assert(r@ =~= self@);
        }
        r
    }
}

} // verus!

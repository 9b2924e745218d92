//! Include edges between schema files.

use vstd::prelude::*;

verus! {

/// A dependency of one schema file on another, by file name.  Extension
/// splicing adds synthetic edges of this kind so that emitted artifacts pull
/// in the files whose fragments they absorbed.
#[derive(Debug)]
pub struct IncludeDefinition {
    pub file: String,
}

impl View for IncludeDefinition {
    type V = Seq<char>;

    open spec fn view(&self) -> Seq<char> {
        self.file@
    }
}

impl DeepView for IncludeDefinition {
    type V = Seq<char>;

    open spec fn deep_view(&self) -> Seq<char> {
        self.view()
    }
}

impl Clone for IncludeDefinition {
    fn clone(&self) -> (r: Self)
        ensures
            r@ == self@,
    {
        IncludeDefinition { file: self.file.clone() }
    }
}

} // verus!

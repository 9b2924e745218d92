//! The per-file declaration tree, and the file description that wraps it.

use vstd::prelude::*;
use crate::bitfields::{BitfieldDefinition, BitfieldDefinitionView};
use crate::defines::{DefineDefinition, DefineDefinitionView, RedefineDefinition,
    RedefineDefinitionView};
use crate::enums::{EnumDefinition, EnumDefinitionView};
use crate::extensions::{Extensions, ExtensionsView};
use crate::includes::IncludeDefinition;
use crate::messages::{clone_message_def, view_message_def, MessageDefinition,
    MessageDefinitionView};
use crate::standalone_comments::{StandaloneCommentDefinition, StandaloneCommentDefinitionView};
use crate::structs::{clone_struct_def, view_struct_def, StructDefinition, StructDefinitionView};

verus! {

/// Top level struct containing all message definitions in a compilation unit
/// (one file, plus its includes).
#[derive(Debug)]
pub struct Definitions {
    pub bitfields: Vec<BitfieldDefinition>,
    pub defines: Vec<DefineDefinition>,
    pub redefines: Vec<RedefineDefinition>,
    pub enums: Vec<EnumDefinition>,
    pub extensions: Extensions,
    pub includes: Vec<IncludeDefinition>,
    pub messages: Vec<MessageDefinition>,
    pub standalone_comments: Vec<StandaloneCommentDefinition>,
    pub structs: Vec<StructDefinition>,
}

/// Mathematical model of a declaration tree.
#[verifier::ext_equal]
pub struct DefinitionsView {
    pub bitfields: Seq<BitfieldDefinitionView>,
    pub defines: Seq<DefineDefinitionView>,
    pub redefines: Seq<RedefineDefinitionView>,
    pub enums: Seq<EnumDefinitionView>,
    pub extensions: ExtensionsView,
    pub includes: Seq<Seq<char>>,
    pub messages: Seq<MessageDefinitionView>,
    pub standalone_comments: Seq<StandaloneCommentDefinitionView>,
    pub structs: Seq<StructDefinitionView>,
}

impl View for Definitions {
    type V = DefinitionsView;

    open spec fn view(&self) -> DefinitionsView {
        DefinitionsView {
            bitfields: self.bitfields.deep_view(),
            defines: self.defines.deep_view(),
            redefines: self.redefines.deep_view(),
            enums: self.enums.deep_view(),
            extensions: self.extensions@,
            includes: self.includes.deep_view(),
            messages: self.messages.deep_view(),
            standalone_comments: self.standalone_comments.deep_view(),
            structs: self.structs.deep_view(),
        }
    }
}

impl DeepView for Definitions {
    type V = DefinitionsView;

    open spec fn deep_view(&self) -> DefinitionsView {
        self.view()
    }
}

impl Definitions {
    /// An empty declaration tree.
    pub fn new() -> (r: Definitions)
        ensures
            r@.bitfields.len() == 0,
            r@.defines.len() == 0,
            r@.redefines.len() == 0,
            r@.enums.len() == 0,
            r@.extensions.spec_is_empty(),
            r@.includes.len() == 0,
            r@.messages.len() == 0,
            r@.standalone_comments.len() == 0,
            r@.structs.len() == 0,
    {
        Definitions {
            bitfields: Vec::new(),
            defines: Vec::new(),
            redefines: Vec::new(),
            enums: Vec::new(),
            extensions: Extensions::new(),
            includes: Vec::new(),
            messages: Vec::new(),
            standalone_comments: Vec::new(),
            structs: Vec::new(),
        }
    }
}

impl Default for Definitions {
    /// An empty declaration tree.
    fn default() -> (r: Definitions)
        ensures
            r@.bitfields.len() == 0,
            r@.defines.len() == 0,
            r@.redefines.len() == 0,
            r@.enums.len() == 0,
            r@.extensions.spec_is_empty(),
            r@.includes.len() == 0,
            r@.messages.len() == 0,
            r@.standalone_comments.len() == 0,
            r@.structs.len() == 0,
    {
        Definitions::new()
    }
}

impl Clone for Definitions {
    fn clone(&self) -> (r: Self)
        ensures
            r@ == self@,
    {
        let r = Definitions {
            bitfields: crate::extensions::clone_bitfield_defs(&self.bitfields),
            defines: clone_define_defs(&self.defines),
            redefines: clone_redefine_defs(&self.redefines),
            enums: crate::extensions::clone_enum_defs(&self.enums),
            extensions: self.extensions.clone(),
            includes: clone_includes(&self.includes),
            messages: clone_message_defs(&self.messages),
            standalone_comments: crate::bitfields::clone_orphan_comments(
                &self.standalone_comments,
            ),
            structs: crate::extensions::clone_struct_defs(&self.structs),
        };
        proof {
            assert(r@ =~= self@);
        }
        r
    }
}

/// A schema file: its path relative to the input root, its bare name, and
/// the declarations parsed out of it.
#[derive(Debug)]
pub struct RuneFileDescription {
    pub relative_path: String,
    pub name: String,
    pub definitions: Definitions,
}

/// Mathematical model of a schema file.
#[verifier::ext_equal]
pub struct RuneFileDescriptionView {
    pub relative_path: Seq<char>,
    pub name: Seq<char>,
    pub definitions: DefinitionsView,
}

impl View for RuneFileDescription {
    type V = RuneFileDescriptionView;

    open spec fn view(&self) -> RuneFileDescriptionView {
        RuneFileDescriptionView {
            relative_path: self.relative_path@,
            name: self.name@,
            definitions: self.definitions@,
        }
    }
}

impl DeepView for RuneFileDescription {
    type V = RuneFileDescriptionView;

    open spec fn deep_view(&self) -> RuneFileDescriptionView {
        self.view()
    }
}

impl Clone for RuneFileDescription {
    fn clone(&self) -> (r: Self)
        ensures
            r@ == self@,
    {
        let r = RuneFileDescription {
            relative_path: self.relative_path.clone(),
            name: self.name.clone(),
            definitions: self.definitions.clone(),
        };
        proof {
            assert(r@ =~= self@);
        }
        r
    }
}

/// Clones a list of defines.
pub fn clone_define_defs(v: &Vec<DefineDefinition>) -> (r: Vec<DefineDefinition>)
    ensures
        r.deep_view() == v.deep_view(),
{
    let mut r: Vec<DefineDefinition> = Vec::new();
    let mut i: usize = 0;
    while i < v.len()
        invariant
            i <= v.len(),
            r@.len() == i as int,
            forall|j: int| 0 <= j < i ==> r.deep_view()[j] == v.deep_view()[j],
        decreases v.len() - i,
    {
        r.push(v[i].clone());
        proof {
            assert(r@[i as int]@ == v@[i as int]@);
        }
        i = i + 1;
    }
    proof {
        assert(r.deep_view() =~= v.deep_view());
    }
    r
}

/// Clones a list of redefines.
pub fn clone_redefine_defs(v: &Vec<RedefineDefinition>) -> (r: Vec<RedefineDefinition>)
    ensures
        r.deep_view() == v.deep_view(),
{
    let mut r: Vec<RedefineDefinition> = Vec::new();
    let mut i: usize = 0;
    while i < v.len()
        invariant
            i <= v.len(),
            r@.len() == i as int,
            forall|j: int| 0 <= j < i ==> r.deep_view()[j] == v.deep_view()[j],
        decreases v.len() - i,
    {
        r.push(v[i].clone());
        proof {
            assert(r@[i as int]@ == v@[i as int]@);
        }
        i = i + 1;
    }
    proof {
        assert(r.deep_view() =~= v.deep_view());
    }
    r
}

/// Clones a list of include edges.
pub fn clone_includes(v: &Vec<IncludeDefinition>) -> (r: Vec<IncludeDefinition>)
    ensures
        r.deep_view() == v.deep_view(),
{
    let mut r: Vec<IncludeDefinition> = Vec::new();
    let mut i: usize = 0;
    while i < v.len()
        invariant
            i <= v.len(),
            r@.len() == i as int,
            forall|j: int| 0 <= j < i ==> r.deep_view()[j] == v.deep_view()[j],
        decreases v.len() - i,
    {
        r.push(v[i].clone());
        proof {
            assert(r@[i as int]@ == v@[i as int]@);
        }
        i = i + 1;
    }
    proof {
        assert(r.deep_view() =~= v.deep_view());
    }
    r
}

/// Clones a list of message declarations, snapshots and all.
pub fn clone_message_defs(v: &Vec<MessageDefinition>) -> (r: Vec<MessageDefinition>)
    ensures
        r.deep_view() == v.deep_view(),
{
    let mut r: Vec<MessageDefinition> = Vec::new();
    let mut i: usize = 0;
    while i < v.len()
        invariant
            i <= v.len(),
            r@.len() == i as int,
            forall|j: int| 0 <= j < i ==> r.deep_view()[j] == v.deep_view()[j],
        decreases v.len() - i,
    {
        r.push(clone_message_def(&v[i]));
        proof {
            assert(r@[i as int]@ == v@[i as int]@);
        }
        i = i + 1;
    }
    proof {
        assert(r.deep_view() =~= v.deep_view());
    }
    r
}

} // verus!

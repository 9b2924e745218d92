//! Extensions: fragments of additional members meant to be appended to a
//! declaration made elsewhere, possibly in another file.

use vstd::prelude::*;
use crate::bitfields::{BitfieldDefinition, BitfieldDefinitionView};
use crate::enums::{EnumDefinition, EnumDefinitionView};
use crate::structs::{clone_struct_def, view_struct_def, StructDefinition, StructDefinitionView};

verus! {

/// One parsed extension fragment, before it is sorted into its bucket.  Used
/// only while parsing.
#[derive(Debug)]
pub enum ExtensionDefinition {
    Bitfield(BitfieldDefinition),
    Enum(EnumDefinition),
    Struct(StructDefinition),
}

/// The per-file bucket of extension fragments.
#[derive(Debug)]
pub struct Extensions {
    /// List of bitfield extensions
    pub bitfields: Vec<BitfieldDefinition>,
    /// List of enum extensions
    pub enums: Vec<EnumDefinition>,
    /// List of struct extensions
    pub structs: Vec<StructDefinition>,
}

/// Mathematical model of a file's extension bucket.
#[verifier::ext_equal]
pub struct ExtensionsView {
    pub bitfields: Seq<BitfieldDefinitionView>,
    pub enums: Seq<EnumDefinitionView>,
    pub structs: Seq<StructDefinitionView>,
}

impl View for Extensions {
    type V = ExtensionsView;

    open spec fn view(&self) -> ExtensionsView {
        ExtensionsView {
            bitfields: self.bitfields.deep_view(),
            enums: self.enums.deep_view(),
            structs: self.structs.deep_view(),
        }
    }
}

impl DeepView for Extensions {
    type V = ExtensionsView;

    open spec fn deep_view(&self) -> ExtensionsView {
        self.view()
    }
}

impl ExtensionsView {
    /// Whether the bucket holds no fragment of any kind.
    pub open spec fn spec_is_empty(self) -> bool {
        self.bitfields.len() == 0 && self.enums.len() == 0 && self.structs.len() == 0
    }
}

impl Extensions {
    /// A bucket with no fragments.
    pub fn new() -> (r: Extensions)
        ensures
            r@.spec_is_empty(),
            r@.bitfields == Seq::<BitfieldDefinitionView>::empty(),
            r@.enums == Seq::<EnumDefinitionView>::empty(),
            r@.structs == Seq::<StructDefinitionView>::empty(),
    {
        let r = Extensions { bitfields: Vec::new(), enums: Vec::new(), structs: Vec::new() };
        proof {
            assert(r@.bitfields =~= Seq::<BitfieldDefinitionView>::empty());
            assert(r@.enums =~= Seq::<EnumDefinitionView>::empty());
            assert(r@.structs =~= Seq::<StructDefinitionView>::empty());
        }
        r
    }

    /// An empty bucket with room reserved for `size` fragments of each kind.
    pub fn with_capacity(size: usize) -> (r: Extensions)
        ensures
            r@.spec_is_empty(),
    {
        let r = Extensions {
            bitfields: Vec::with_capacity(size),
            enums: Vec::with_capacity(size),
            structs: Vec::with_capacity(size),
        };
        proof {
            assert(r@.bitfields.len() == 0);
            assert(r@.enums.len() == 0);
            assert(r@.structs.len() == 0);
        }
        r
    }

    /// Drops a parsed fragment into the bucket for its kind.
    pub fn add_entry(&mut self, entry: ExtensionDefinition)
        ensures
            match entry {
                ExtensionDefinition::Bitfield(b) => final(self)@ == (ExtensionsView {
                    bitfields: old(self)@.bitfields.push(b@),
                    ..old(self)@
                }),
                ExtensionDefinition::Enum(e) => final(self)@ == (ExtensionsView {
                    enums: old(self)@.enums.push(e@),
                    ..old(self)@
                }),
                ExtensionDefinition::Struct(s) => final(self)@ == (ExtensionsView {
                    structs: old(self)@.structs.push(view_struct_def(s)),
                    ..old(self)@
                }),
            },
    {
        match entry {
            ExtensionDefinition::Bitfield(entry) => {
                self.bitfields.push(entry);
                proof {
                    assert(self@ =~= (ExtensionsView {
                        bitfields: old(self)@.bitfields.push(self.bitfields@.last()@),
                        ..old(self)@
                    }));
                }
            },
            ExtensionDefinition::Enum(entry) => {
                self.enums.push(entry);
                proof {
                    assert(self@ =~= (ExtensionsView {
                        enums: old(self)@.enums.push(self.enums@.last()@),
                        ..old(self)@
                    }));
                }
            },
            ExtensionDefinition::Struct(entry) => {
                self.structs.push(entry);
                proof {
                    assert(self@ =~= (ExtensionsView {
                        structs: old(self)@.structs.push(view_struct_def(self.structs@.last())),
                        ..old(self)@
                    }));
                }
            },
        }
    }

    /// Whether the bucket holds no fragment of any kind.
    pub fn is_empty(&self) -> (r: bool)
        ensures
            r == self@.spec_is_empty(),
    {
        self.bitfields.len() == 0 && self.enums.len() == 0 && self.structs.len() == 0
    }
}

impl Default for Extensions {
    /// A bucket with no fragments.
    fn default() -> (r: Extensions)
        ensures
            r@.spec_is_empty(),
    {
        Extensions::new()
    }
}

impl Clone for Extensions {
    fn clone(&self) -> (r: Self)
        ensures
            r@ == self@,
    {
        let r = Extensions {
            bitfields: clone_bitfield_defs(&self.bitfields),
            enums: clone_enum_defs(&self.enums),
            structs: clone_struct_defs(&self.structs),
        };
        proof {
            assert(r@ =~= self@);
        }
        r
    }
}

/// Clones a list of bitfield declarations.
pub fn clone_bitfield_defs(v: &Vec<BitfieldDefinition>) -> (r: Vec<BitfieldDefinition>)
    ensures
        r.deep_view() == v.deep_view(),
{
    let mut r: Vec<BitfieldDefinition> = Vec::new();
    let mut i: usize = 0;
    while i < v.len()
        invariant
            i <= v.len(),
            r@.len() == i as int,
            forall|j: int| 0 <= j < i ==> r.deep_view()[j] == v.deep_view()[j],
        decreases v.len() - i,
    {
        r.push(v[i].clone());
        proof {
            assert(r@[i as int]@ == v@[i as int]@);
        }
        i = i + 1;
    }
    proof {
        assert(r.deep_view() =~= v.deep_view());
    }
    r
}

/// Clones a list of enum declarations.
pub fn clone_enum_defs(v: &Vec<EnumDefinition>) -> (r: Vec<EnumDefinition>)
    ensures
        r.deep_view() == v.deep_view(),
{
    let mut r: Vec<EnumDefinition> = Vec::new();
    let mut i: usize = 0;
    while i < v.len()
        invariant
            i <= v.len(),
            r@.len() == i as int,
            forall|j: int| 0 <= j < i ==> r.deep_view()[j] == v.deep_view()[j],
        decreases v.len() - i,
    {
        r.push(v[i].clone());
        proof {
            assert(r@[i as int]@ == v@[i as int]@);
        }
        i = i + 1;
    }
    proof {
        assert(r.deep_view() =~= v.deep_view());
    }
    r
}

/// Clones a list of struct declarations, snapshots and all.
pub fn clone_struct_defs(v: &Vec<StructDefinition>) -> (r: Vec<StructDefinition>)
    ensures
        r.deep_view() == v.deep_view(),
{
    let mut r: Vec<StructDefinition> = Vec::new();
    let mut i: usize = 0;
    while i < v.len()
        invariant
            i <= v.len(),
            r@.len() == i as int,
            forall|j: int| 0 <= j < i ==> r.deep_view()[j] == v.deep_view()[j],
        decreases v.len() - i,
    {
        r.push(clone_struct_def(&v[i]));
        proof {
            assert(r@[i as int]@ == v@[i as int]@);
        }
        i = i + 1;
    }
    proof {
        assert(r.deep_view() =~= v.deep_view());
    }
    r
}

} // verus!

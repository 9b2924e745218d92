//! Named compile-time constants (`define`) and the override mechanism that
//! replaces their values without touching their declaration site
//! (`redefine`).

use vstd::prelude::*;
use crate::numeric::NumericLiteral;

verus! {

/// The value of a define: unset until the constant resolver has run, or a
/// numeric literal.
#[derive(Clone, Copy, Debug)]
pub enum DefineValue {
    /// A definition with no value yet.  Used only while parsing, before the
    /// constant resolver runs.
    NoValue,
    /// The numeric value of a definition.  No other kind of value is allowed
    /// for now.
    NumericLiteral(NumericLiteral),
}

/// A `redefine` statement: a replacement value for a define declared
/// elsewhere.
#[derive(Debug)]
pub struct RedefineDefinition {
    /// Name of the original definition
    pub name: String,
    /// New value of the definition
    pub value: DefineValue,
    /// Comment describing the new value of the definition
    pub comment: Option<String>,
}

/// A `define` statement: a named constant, with the redefinition attached to
/// it once the constant resolver has matched the two up.
#[derive(Debug)]
pub struct DefineDefinition {
    /// Name of the definition
    pub name: String,
    /// Value of the definition
    pub value: DefineValue,
    /// Comment describing the definition
    pub comment: Option<String>,
    /// A possible redefinition by the user, overriding the original value
    pub redefinition: Option<RedefineDefinition>,
}

/// Mathematical model of a redefinition.
#[verifier::ext_equal]
pub struct RedefineDefinitionView {
    pub name: Seq<char>,
    pub value: DefineValue,
    pub comment: Option<Seq<char>>,
}

/// Mathematical model of a definition.
#[verifier::ext_equal]
pub struct DefineDefinitionView {
    pub name: Seq<char>,
    pub value: DefineValue,
    pub comment: Option<Seq<char>>,
    pub redefinition: Option<RedefineDefinitionView>,
}

/// The model of an optional comment: the text alone.
pub open spec fn view_comment(c: Option<String>) -> Option<Seq<char>> {
    match c {
        Some(s) => Some(s@),
        None => None,
    }
}

impl View for RedefineDefinition {
    type V = RedefineDefinitionView;

    open spec fn view(&self) -> RedefineDefinitionView {
        RedefineDefinitionView {
            name: self.name@,
            value: self.value,
            comment: view_comment(self.comment),
        }
    }
}

impl View for DefineDefinition {
    type V = DefineDefinitionView;

    open spec fn view(&self) -> DefineDefinitionView {
        DefineDefinitionView {
            name: self.name@,
            value: self.value,
            comment: view_comment(self.comment),
            redefinition: match self.redefinition {
                Some(r) => Some(r@),
                None => None,
            },
        }
    }
}

impl DeepView for RedefineDefinition {
    type V = RedefineDefinitionView;

    open spec fn deep_view(&self) -> RedefineDefinitionView {
        self.view()
    }
}

impl DeepView for DefineDefinition {
    type V = DefineDefinitionView;

    open spec fn deep_view(&self) -> DefineDefinitionView {
        self.view()
    }
}

impl DefineDefinitionView {
    /// The value the definition stands for: the redefinition's value when one
    /// is attached, the declared value otherwise.
    pub open spec fn effective_value(self) -> DefineValue {
        match self.redefinition {
            Some(r) => r.value,
            None => self.value,
        }
    }
}

/// Clones an optional comment.
pub fn clone_comment(c: &Option<String>) -> (r: Option<String>)
    ensures
        view_comment(r) == view_comment(*c),
{
    match c {
        Some(s) => Some(s.clone()),
        None => None,
    }
}

impl Clone for RedefineDefinition {
    fn clone(&self) -> (r: Self)
        ensures
            r@ == self@,
    {
        let r = RedefineDefinition {
            name: self.name.clone(),
            value: self.value,
            comment: clone_comment(&self.comment),
        };
        proof {
            assert(r@ =~= self@);
        }
        r
    }
}

impl Clone for DefineDefinition {
    fn clone(&self) -> (r: Self)
        ensures
            r@ == self@,
    {
        let r = DefineDefinition {
            name: self.name.clone(),
            value: self.value,
            comment: clone_comment(&self.comment),
            redefinition: match &self.redefinition {
                Some(rd) => Some(rd.clone()),
                None => None,
            },
        };
        proof {
            assert(r@ =~= self@);
        }
        r
    }
}

} // verus!

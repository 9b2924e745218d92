//! Semantic-analysis core for the Rune interface-definition language.
//!
//! Rune schemas declare structs, enums, bit-packed fields and variable-length
//! messages across several files, with cross-file references, compile-time
//! constants (`define` / `redefine`) and an `extend` mechanism.  After a file
//! has been tokenized and parsed into a declaration tree, this crate resolves
//! constants, merges extensions, links named type references into frozen
//! snapshots, validates the structural invariants of the wire format, and
//! computes encoded sizes.  Tokenizing, grammar parsing and target-code
//! emission live outside this crate.

use vstd::prelude::*;
use crate::schema::{RuneFileDescription, RuneFileDescriptionView};

pub mod arrays;
pub mod bitfields;
pub mod defines;
pub mod enums;
pub mod includes;
pub mod links;
pub mod messages;
pub mod numeric;
pub mod output;
pub mod primitives;
pub mod process_defines;
pub mod process_extensions;
pub mod process_user_definitions;
pub mod span;
pub mod extensions;
pub mod schema;
pub mod standalone_comments;
pub mod structs;
pub mod validation;

verus! {

/// One failure of the schema pipeline.  The pipeline is fail-fast: the first
/// violation aborts the run with one of these variants, and no partial schema
/// is handed on.
#[derive(Clone, Copy, Debug, PartialEq, Eq, Structural)]
pub enum RuneParserError {
    InvalidInputPath,
    InvalidFilePath,
    FileSystemError,
    IdentifierCollision,
    IndexCollision,
    NameCollision,
    ValueCollision,
    InvalidTotalBitfieldSize,
    InvalidEncodedSize,
    InvalidArrayType,
    InvalidArraySize,
    InvalidStructMemberType,
    UseOfReservedIndex,
    ExtensionMismatch,
    UndefinedIdentifier,
    MultipleDefinitions,
    MultipleRedefinitions,
    InvalidNumericValue,
    EmptyMessageField,
    InvalidTypeUse,
    /// A struct or message refers to itself, directly or through other types,
    /// so no finite frozen snapshot of it exists.
    CyclicDefinition,
}

/// The run of the semantic pipeline over a parsed file set: constants are
/// resolved, extensions merged and — when asked — spliced, every type
/// reference linked into a frozen snapshot, and the result validated.  The
/// pair carries the outcome and the file state the run leaves behind: each
/// pass that fails leaves the files as the previous pass left them.
pub open spec fn spec_process_schema(
    files: Seq<RuneFileDescriptionView>,
    append_extensions: bool,
) -> (Result<(), RuneParserError>, Seq<RuneFileDescriptionView>) {
    match crate::process_defines::spec_parse_define_statements(files) {
        Err(e) => (Err(e), files),
        Ok(f1) => match crate::process_extensions::spec_parse_extensions(f1, append_extensions) {
            Err(e) => (Err(e), f1),
            Ok(f2) => match crate::process_user_definitions::spec_link_user_definitions(f2) {
                Err(e) => (Err(e), f2),
                Ok(f3) => match crate::validation::spec_validate_parsed_files(f3) {
                    Err(e) => (Err(e), f3),
                    Ok(()) => (Ok(()), f3),
                },
            },
        },
    }
}

/// Runs the whole semantic pipeline over a parsed file set, in pass order:
/// the constant resolver, the extension merger, the type linker, and the
/// validator.  The first failing pass aborts the run; the passes already
/// completed keep their effect, but no partial result of the failing pass
/// is left behind.
pub fn process_schema(definitions: &mut Vec<RuneFileDescription>, append_extensions: bool) -> (r:
    Result<(), RuneParserError>)
    ensures
        r == spec_process_schema(old(definitions).deep_view(), append_extensions).0,
        final(definitions).deep_view() == spec_process_schema(
            old(definitions).deep_view(),
            append_extensions,
        ).1,
{
    // Resolve define statements and fill in referenced array counts
    match crate::process_defines::parse_define_statements(definitions) {
        Err(e) => {
            return Err(e);
        },
        Ok(()) => {},
    }

    // Merge extensions, and splice them into their targets when asked
    match crate::process_extensions::parse_extensions(definitions, append_extensions) {
        Err(e) => {
            return Err(e);
        },
        Ok(()) => {},
    }

    // Link every user-defined type reference into a frozen snapshot
    match crate::process_user_definitions::link_user_definitions(definitions) {
        Err(e) => {
            return Err(e);
        },
        Ok(()) => {},
    }

    // Validate the merged, linked, constant-resolved schema
    crate::validation::validate_parsed_files(definitions)
}

/// Maps a machine-size result into the mathematical sizes the size specs
/// use.
pub open spec fn size_result_to_int(r: Result<u64, RuneParserError>) -> Result<
    int,
    RuneParserError,
> {
    match r {
        Ok(v) => Ok(v as int),
        Err(e) => Err(e),
    }
}

/// Maps an optional machine-size result into the mathematical sizes the size
/// specs use.
pub open spec fn size_opt_result_to_int(r: Result<Option<u64>, RuneParserError>) -> Result<
    Option<int>,
    RuneParserError,
> {
    match r {
        Ok(Some(v)) => Ok(Some(v as int)),
        Ok(None) => Ok(None),
        Err(e) => Err(e),
    }
}

} // verus!

use runic::arrays::{Array, ArraySize, ArrayType};
use runic::defines::{DefineDefinition, DefineValue, RedefineDefinition};
use runic::extensions::Extensions;
use runic::links::UserDefinitionLink;
use runic::messages::{FieldIndex, FieldType, MessageDefinition, MessageField};
use runic::numeric::{NumeralSystem, NumericLiteral};
use runic::primitives::Primitive;
use runic::process_defines::parse_define_statements;
use runic::process_extensions::parse_extensions;
use runic::process_user_definitions::link_user_definitions;
use runic::schema::{Definitions, RuneFileDescription};
use runic::structs::{MemberIndex, MemberType, StructDefinition, StructMember};
use runic::RuneParserError;

fn empty_definitions() -> Definitions {
    Definitions::new()
}

fn file(name: &str, definitions: Definitions) -> RuneFileDescription {
    RuneFileDescription {
        relative_path: String::new(),
        name: String::from(name),
        definitions,
    }
}

fn struct_member(ident: &str, data_type: MemberType, index: u64) -> StructMember {
    StructMember {
        identifier: String::from(ident),
        data_type,
        index: MemberIndex::Numeric(index),
        comment: None,
    }
}

fn plain_struct(name: &str, members: Vec<StructMember>) -> StructDefinition {
    StructDefinition {
        name: String::from(name),
        members,
        reserved_indexes: Vec::new(),
        comment: None,
        orphan_comments: Vec::new(),
    }
}

fn define(name: &str, value: u64) -> DefineDefinition {
    DefineDefinition {
        name: String::from(name),
        value: DefineValue::NumericLiteral(NumericLiteral::PositiveInteger(
            value,
            NumeralSystem::Decimal,
        )),
        comment: None,
        redefinition: None,
    }
}

fn redefine(name: &str, value: u64) -> RedefineDefinition {
    RedefineDefinition {
        name: String::from(name),
        value: DefineValue::NumericLiteral(NumericLiteral::PositiveInteger(
            value,
            NumeralSystem::Decimal,
        )),
        comment: None,
    }
}

fn array_of(primitive: Primitive, count: ArraySize) -> Array {
    Array { data_type: ArrayType::Primitive(primitive), element_count: count }
}

fn count_reference(name: &str) -> ArraySize {
    ArraySize::UserDefinition(DefineDefinition {
        name: String::from(name),
        value: DefineValue::NoValue,
        comment: None,
        redefinition: None,
    })
}

/// `define N = 4;` followed by `redefine N = 10;` makes an array declared
/// with size `N` resolve to 10.
#[test]
fn redefine_overrides_define_for_array_size() {
    let mut defs = empty_definitions();
    defs.defines.push(define("N", 4));
    defs.redefines.push(redefine("N", 10));
    defs.structs.push(plain_struct(
        "Block",
        vec![struct_member("data", MemberType::Array(array_of(Primitive::U8, count_reference("N"))), 0)],
    ));
    let mut files = vec![file("a", defs)];
    assert!(parse_define_statements(&mut files).is_ok());
    match &files[0].definitions.structs[0].members[0].data_type {
        MemberType::Array(a) => assert_eq!(a.element_count.value(), Ok(10)),
        _ => panic!("member should still be an array"),
    }
}

/// Without the redefine, the array resolves to the define's own value.
#[test]
fn define_alone_sets_array_size() {
    let mut defs = empty_definitions();
    defs.defines.push(define("N", 4));
    defs.structs.push(plain_struct(
        "Block",
        vec![struct_member("data", MemberType::Array(array_of(Primitive::U8, count_reference("N"))), 0)],
    ));
    let mut files = vec![file("a", defs)];
    assert!(parse_define_statements(&mut files).is_ok());
    match &files[0].definitions.structs[0].members[0].data_type {
        MemberType::Array(a) => assert_eq!(a.element_count.value(), Ok(4)),
        _ => panic!("member should still be an array"),
    }
}

#[test]
fn duplicate_defines_are_rejected() {
    let mut defs = empty_definitions();
    defs.defines.push(define("N", 4));
    defs.defines.push(define("N", 5));
    let mut files = vec![file("a", defs)];
    assert_eq!(parse_define_statements(&mut files), Err(RuneParserError::MultipleDefinitions));
}

#[test]
fn duplicate_redefines_are_rejected() {
    let mut defs = empty_definitions();
    defs.defines.push(define("N", 4));
    defs.redefines.push(redefine("N", 10));
    defs.redefines.push(redefine("N", 11));
    let mut files = vec![file("a", defs)];
    assert_eq!(parse_define_statements(&mut files), Err(RuneParserError::MultipleRedefinitions));
}

#[test]
fn non_integer_define_reference_is_rejected() {
    let mut defs = empty_definitions();
    defs.defines.push(DefineDefinition {
        name: String::from("N"),
        value: DefineValue::NumericLiteral(NumericLiteral::Boolean(true)),
        comment: None,
        redefinition: None,
    });
    defs.structs.push(plain_struct(
        "Block",
        vec![struct_member("data", MemberType::Array(array_of(Primitive::U8, count_reference("N"))), 0)],
    ));
    let mut files = vec![file("a", defs)];
    assert_eq!(parse_define_statements(&mut files), Err(RuneParserError::InvalidNumericValue));
}

/// An orphaned redefine is ignored, and the files pass unchanged.
#[test]
fn orphan_redefine_is_ignored() {
    let mut defs = empty_definitions();
    defs.redefines.push(redefine("Missing", 10));
    let mut files = vec![file("a", defs)];
    assert!(parse_define_statements(&mut files).is_ok());
    assert_eq!(files[0].definitions.redefines.len(), 1);
}

fn point_file() -> RuneFileDescription {
    let mut defs = empty_definitions();
    defs.structs.push(plain_struct(
        "Point",
        vec![
            struct_member("x", MemberType::Primitive(Primitive::I32), 0),
            struct_member("y", MemberType::Primitive(Primitive::I32), 1),
        ],
    ));
    file("a", defs)
}

fn point_extension_file() -> RuneFileDescription {
    let mut defs = empty_definitions();
    defs.extensions = Extensions {
        bitfields: Vec::new(),
        enums: Vec::new(),
        structs: vec![plain_struct(
            "Point",
            vec![struct_member("z", MemberType::Primitive(Primitive::I32), 2)],
        )],
    };
    file("b", defs)
}

/// File A declares `struct Point { x: i32 = 0; y: i32 = 1; }`; file B
/// declares `extend struct Point { z: i32 = 2; }`.  With splicing enabled
/// Point's flat size is 12 and B becomes an include dependency of A.
#[test]
fn spliced_extension_grows_flat_size_and_adds_include() {
    let mut files = vec![point_file(), point_extension_file()];
    assert!(parse_extensions(&mut files, true).is_ok());
    assert_eq!(files[0].definitions.structs[0].members.len(), 3);
    assert_eq!(files[0].definitions.structs[0].flat_size(), Ok(12));
    assert_eq!(files[0].definitions.includes.len(), 1);
    assert_eq!(files[0].definitions.includes[0].file, "b");
}

/// With splicing disabled, Point's flat size remains 8 and no include edge
/// is added.
#[test]
fn unspliced_extension_leaves_flat_size_and_includes() {
    let mut files = vec![point_file(), point_extension_file()];
    assert!(parse_extensions(&mut files, false).is_ok());
    assert_eq!(files[0].definitions.structs[0].members.len(), 2);
    assert_eq!(files[0].definitions.structs[0].flat_size(), Ok(8));
    assert_eq!(files[0].definitions.includes.len(), 0);
}

fn colliding_extension_file(name: &str) -> RuneFileDescription {
    let mut defs = empty_definitions();
    defs.extensions = Extensions {
        bitfields: Vec::new(),
        enums: Vec::new(),
        structs: vec![plain_struct(
            "Point",
            vec![struct_member("z", MemberType::Primitive(Primitive::I32), 3)],
        )],
    };
    file(name, defs)
}

/// A genuine identifier collision between two fragments is reported
/// whichever order the files are processed in.
#[test]
fn fragment_collision_is_reported_in_either_file_order() {
    let forward = vec![point_file(), colliding_extension_file("b"), colliding_extension_file("c")];
    let backward = vec![point_file(), colliding_extension_file("c"), colliding_extension_file("b")];
    for mut files in [forward, backward] {
        assert_eq!(parse_extensions(&mut files, true), Err(RuneParserError::IndexCollision));
        // The failing run leaves the files untouched
        assert_eq!(files[0].definitions.structs[0].members.len(), 2);
    }
}

/// Merging fragments with no collision gives the same member set whichever
/// order the contributing files arrive in.
#[test]
fn merge_is_order_independent_for_distinct_members() {
    let ext_z = point_extension_file();
    let ext_w = {
        let mut defs = empty_definitions();
        defs.extensions = Extensions {
            bitfields: Vec::new(),
            enums: Vec::new(),
            structs: vec![plain_struct(
                "Point",
                vec![struct_member("w", MemberType::Primitive(Primitive::I32), 3)],
            )],
        };
        file("c", defs)
    };
    let mut forward = vec![point_file(), ext_z, ext_w];
    assert!(parse_extensions(&mut forward, true).is_ok());
    let ext_z = point_extension_file();
    let ext_w = {
        let mut defs = empty_definitions();
        defs.extensions = Extensions {
            bitfields: Vec::new(),
            enums: Vec::new(),
            structs: vec![plain_struct(
                "Point",
                vec![struct_member("w", MemberType::Primitive(Primitive::I32), 3)],
            )],
        };
        file("c", defs)
    };
    let mut backward = vec![point_file(), ext_w, ext_z];
    assert!(parse_extensions(&mut backward, true).is_ok());
    let mut forward_idents: Vec<String> = forward[0].definitions.structs[0]
        .members
        .iter()
        .map(|m| m.identifier.clone())
        .collect();
    let mut backward_idents: Vec<String> = backward[0].definitions.structs[0]
        .members
        .iter()
        .map(|m| m.identifier.clone())
        .collect();
    forward_idents.sort();
    backward_idents.sort();
    assert_eq!(forward_idents, backward_idents);
    assert_eq!(forward[0].definitions.structs[0].flat_size(), forward[0].definitions.structs[0].flat_size());
    assert_eq!(forward[0].definitions.structs[0].flat_size(), Ok(16));
    assert_eq!(backward[0].definitions.structs[0].flat_size(), Ok(16));
}

#[test]
fn linker_resolves_nested_struct_snapshot() {
    let mut defs = empty_definitions();
    defs.structs.push(plain_struct(
        "Inner",
        vec![struct_member("v", MemberType::Primitive(Primitive::U16), 0)],
    ));
    defs.structs.push(plain_struct(
        "Outer",
        vec![struct_member(
            "inner",
            MemberType::UserDefined(String::from("Inner"), UserDefinitionLink::NoLink),
            0,
        )],
    ));
    let mut files = vec![file("a", defs)];
    assert!(link_user_definitions(&mut files).is_ok());
    match &files[0].definitions.structs[1].members[0].data_type {
        MemberType::UserDefined(name, UserDefinitionLink::StructLink(snapshot)) => {
            assert_eq!(name, "Inner");
            assert_eq!(snapshot.name, "Inner");
            assert_eq!(snapshot.members.len(), 1);
        },
        _ => panic!("the member should hold a struct snapshot"),
    }
    assert_eq!(files[0].definitions.structs[1].flat_size(), Ok(2));
}

#[test]
fn linker_rejects_unknown_name() {
    let mut defs = empty_definitions();
    defs.structs.push(plain_struct(
        "Outer",
        vec![struct_member(
            "inner",
            MemberType::UserDefined(String::from("Nowhere"), UserDefinitionLink::NoLink),
            0,
        )],
    ));
    let mut files = vec![file("a", defs)];
    assert_eq!(link_user_definitions(&mut files), Err(RuneParserError::UndefinedIdentifier));
}

#[test]
fn linker_rejects_message_as_struct_member() {
    let mut defs = empty_definitions();
    defs.messages.push(MessageDefinition {
        name: String::from("Report"),
        fields: vec![MessageField {
            identifier: String::from("v"),
            data_type: FieldType::Primitive(Primitive::U8),
            index: FieldIndex::Numeric(0),
            comment: None,
        }],
        reserved_indexes: Vec::new(),
        comment: None,
        orphan_comments: Vec::new(),
    });
    defs.structs.push(plain_struct(
        "Outer",
        vec![struct_member(
            "inner",
            MemberType::UserDefined(String::from("Report"), UserDefinitionLink::NoLink),
            0,
        )],
    ));
    let mut files = vec![file("a", defs)];
    assert_eq!(link_user_definitions(&mut files), Err(RuneParserError::InvalidTypeUse));
}

#[test]
fn linker_rejects_self_referential_struct() {
    let mut defs = empty_definitions();
    defs.structs.push(plain_struct(
        "Loop",
        vec![struct_member(
            "again",
            MemberType::UserDefined(String::from("Loop"), UserDefinitionLink::NoLink),
            0,
        )],
    ));
    let mut files = vec![file("a", defs)];
    assert_eq!(link_user_definitions(&mut files), Err(RuneParserError::CyclicDefinition));
}

#[test]
fn linker_rejects_empty_message_field() {
    let mut defs = empty_definitions();
    defs.messages.push(MessageDefinition {
        name: String::from("Report"),
        fields: vec![MessageField {
            identifier: String::from("gap"),
            data_type: FieldType::Empty,
            index: FieldIndex::Numeric(0),
            comment: None,
        }],
        reserved_indexes: Vec::new(),
        comment: None,
        orphan_comments: Vec::new(),
    });
    let mut files = vec![file("a", defs)];
    assert_eq!(link_user_definitions(&mut files), Err(RuneParserError::EmptyMessageField));
}

#[test]
fn linker_resolves_message_field_to_message_snapshot() {
    let mut defs = empty_definitions();
    defs.messages.push(MessageDefinition {
        name: String::from("Inner"),
        fields: vec![MessageField {
            identifier: String::from("v"),
            data_type: FieldType::Primitive(Primitive::U8),
            index: FieldIndex::Numeric(0),
            comment: None,
        }],
        reserved_indexes: Vec::new(),
        comment: None,
        orphan_comments: Vec::new(),
    });
    defs.messages.push(MessageDefinition {
        name: String::from("Outer"),
        fields: vec![MessageField {
            identifier: String::from("inner"),
            data_type: FieldType::UserDefined(String::from("Inner"), UserDefinitionLink::NoLink),
            index: FieldIndex::Numeric(0),
            comment: None,
        }],
        reserved_indexes: Vec::new(),
        comment: None,
        orphan_comments: Vec::new(),
    });
    let mut files = vec![file("a", defs)];
    assert!(link_user_definitions(&mut files).is_ok());
    match &files[0].definitions.messages[1].fields[0].data_type {
        FieldType::UserDefined(_, UserDefinitionLink::MessageLink(snapshot)) => {
            assert_eq!(snapshot.name, "Inner");
        },
        _ => panic!("the field should hold a message snapshot"),
    }
}

#[test]
fn pipeline_runs_all_passes_in_order() {
    let mut defs = empty_definitions();
    defs.defines.push(define("N", 2));
    defs.structs.push(plain_struct(
        "Packet",
        vec![struct_member(
            "payload",
            MemberType::Array(array_of(Primitive::U32, count_reference("N"))),
            0,
        )],
    ));
    let mut files = vec![file("a", defs)];
    assert!(runic::process_schema(&mut files, true).is_ok());
    assert_eq!(files[0].definitions.structs[0].flat_size(), Ok(8));
}

#[test]
fn pipeline_stops_at_name_collision() {
    let mut defs = empty_definitions();
    defs.structs.push(plain_struct("Twice", Vec::new()));
    defs.structs.push(plain_struct("Twice", Vec::new()));
    let mut files = vec![file("a", defs)];
    assert_eq!(runic::process_schema(&mut files, false), Err(RuneParserError::NameCollision));
}

fn flag_enum_fragment(file_name: &str, backing: Primitive, ident: &str, value: u64) -> RuneFileDescription {
    let mut defs = empty_definitions();
    defs.extensions = Extensions {
        bitfields: Vec::new(),
        enums: vec![runic::enums::EnumDefinition {
            name: String::from("Mode"),
            backing_type: backing,
            members: vec![runic::enums::EnumMember {
                identifier: String::from(ident),
                value: NumericLiteral::PositiveInteger(value, NumeralSystem::Decimal),
                comment: None,
            }],
            reserved_values: Vec::new(),
            comment: None,
            orphan_comments: Vec::new(),
        }],
        structs: Vec::new(),
    };
    file(file_name, defs)
}

/// Two fragments extending one enum must agree on the backing type.
#[test]
fn mismatched_fragment_backing_types_are_rejected() {
    let mut files = vec![
        flag_enum_fragment("a", Primitive::U8, "Fast", 1),
        flag_enum_fragment("b", Primitive::U16, "Slow", 2),
    ];
    assert_eq!(parse_extensions(&mut files, false), Err(RuneParserError::ExtensionMismatch));
}

/// Non-colliding enum fragments merge into the original, which keeps its
/// own members first.
#[test]
fn enum_fragments_are_spliced_into_the_original() {
    let mut original = empty_definitions();
    original.enums.push(runic::enums::EnumDefinition {
        name: String::from("Mode"),
        backing_type: Primitive::U8,
        members: vec![runic::enums::EnumMember {
            identifier: String::from("Idle"),
            value: NumericLiteral::PositiveInteger(0, NumeralSystem::Decimal),
            comment: None,
        }],
        reserved_values: Vec::new(),
        comment: None,
        orphan_comments: Vec::new(),
    });
    let mut files = vec![
        file("a", original),
        flag_enum_fragment("b", Primitive::U8, "Fast", 1),
        flag_enum_fragment("c", Primitive::U8, "Slow", 2),
    ];
    assert!(parse_extensions(&mut files, true).is_ok());
    let merged = &files[0].definitions.enums[0];
    let idents: Vec<&str> = merged.members.iter().map(|m| m.identifier.as_str()).collect();
    assert_eq!(idents, vec!["Idle", "Fast", "Slow"]);
    assert_eq!(files[0].definitions.includes.len(), 2);
}

/// A fragment colliding with the original declaration itself is rejected,
/// and only when splicing would touch the original.
#[test]
fn fragment_colliding_with_original_is_rejected_when_spliced() {
    let mut original = empty_definitions();
    original.enums.push(runic::enums::EnumDefinition {
        name: String::from("Mode"),
        backing_type: Primitive::U8,
        members: vec![runic::enums::EnumMember {
            identifier: String::from("Fast"),
            value: NumericLiteral::PositiveInteger(0, NumeralSystem::Decimal),
            comment: None,
        }],
        reserved_values: Vec::new(),
        comment: None,
        orphan_comments: Vec::new(),
    });
    let build = || {
        let mut original2 = empty_definitions();
        original2.enums.push(runic::enums::EnumDefinition {
            name: String::from("Mode"),
            backing_type: Primitive::U8,
            members: vec![runic::enums::EnumMember {
                identifier: String::from("Fast"),
                value: NumericLiteral::PositiveInteger(0, NumeralSystem::Decimal),
                comment: None,
            }],
            reserved_values: Vec::new(),
            comment: None,
            orphan_comments: Vec::new(),
        });
        original2
    };
    let mut files = vec![file("a", original), flag_enum_fragment("b", Primitive::U8, "Fast", 1)];
    assert_eq!(parse_extensions(&mut files, true), Err(RuneParserError::IndexCollision));
    let mut unspliced = vec![file("a", build()), flag_enum_fragment("b", Primitive::U8, "Fast", 1)];
    assert!(parse_extensions(&mut unspliced, false).is_ok());
}

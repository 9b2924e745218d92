use runic::arrays::{Array, ArraySize, ArrayType};
use runic::extensions::{ExtensionDefinition, Extensions};
use runic::bitfields::BitSize;
use runic::links::UserDefinitionLink;
use runic::messages::{optimal_encoded_data_size, FieldIndex, FieldType, MessageDefinition,
    MessageField};
use runic::numeric::{FloatValue, NumeralSystem, NumericLiteral};
use runic::output::OutputFile;
use runic::primitives::Primitive;
use runic::span::{Position, Spanned};
use runic::structs::{MemberIndex, MemberType, StructDefinition, StructMember};
use runic::RuneParserError;

fn member(ident: &str, data_type: MemberType, index: u64) -> StructMember {
    StructMember {
        identifier: String::from(ident),
        data_type,
        index: MemberIndex::Numeric(index),
        comment: None,
    }
}

fn plain_struct(name: &str, members: Vec<StructMember>) -> StructDefinition {
    StructDefinition {
        name: String::from(name),
        members,
        reserved_indexes: Vec::new(),
        comment: None,
        orphan_comments: Vec::new(),
    }
}

fn field(ident: &str, data_type: FieldType, index: u64) -> MessageField {
    MessageField {
        identifier: String::from(ident),
        data_type,
        index: FieldIndex::Numeric(index),
        comment: None,
    }
}

fn message(name: &str, fields: Vec<MessageField>) -> MessageDefinition {
    MessageDefinition {
        name: String::from(name),
        fields,
        reserved_indexes: Vec::new(),
        comment: None,
        orphan_comments: Vec::new(),
    }
}

/// Flat struct size is additive over members: the sum of the known widths,
/// in any declaration order.
#[test]
fn flat_size_is_additive_and_order_independent() {
    let forward = plain_struct(
        "Mixed",
        vec![
            member("a", MemberType::Primitive(Primitive::U16), 0),
            member("b", MemberType::Primitive(Primitive::U32), 1),
            member("c", MemberType::Primitive(Primitive::U8), 2),
        ],
    );
    let backward = plain_struct(
        "Mixed",
        vec![
            member("c", MemberType::Primitive(Primitive::U8), 2),
            member("b", MemberType::Primitive(Primitive::U32), 1),
            member("a", MemberType::Primitive(Primitive::U16), 0),
        ],
    );
    assert_eq!(forward.flat_size(), Ok(2 + 4 + 1));
    assert_eq!(backward.flat_size(), Ok(2 + 4 + 1));
}

#[test]
fn flat_size_counts_arrays_and_links() {
    let nested = plain_struct("Inner", vec![member("v", MemberType::Primitive(Primitive::U16), 0)]);
    let s = plain_struct(
        "Outer",
        vec![
            member(
                "data",
                MemberType::Array(Array {
                    data_type: ArrayType::Primitive(Primitive::U32),
                    element_count: ArraySize::Integer(4, NumeralSystem::Decimal),
                }),
                0,
            ),
            member(
                "inner",
                MemberType::UserDefined(String::from("Inner"), UserDefinitionLink::StructLink(nested)),
                1,
            ),
        ],
    );
    assert_eq!(s.flat_size(), Ok(16 + 2));
}

#[test]
fn flat_size_rejects_unresolved_and_message_members() {
    let unresolved = plain_struct(
        "Outer",
        vec![member(
            "inner",
            MemberType::UserDefined(String::from("Inner"), UserDefinitionLink::NoLink),
            0,
        )],
    );
    assert_eq!(unresolved.flat_size(), Err(RuneParserError::UndefinedIdentifier));
    let with_message = plain_struct(
        "Outer",
        vec![member(
            "inner",
            MemberType::UserDefined(
                String::from("Report"),
                UserDefinitionLink::MessageLink(message("Report", Vec::new())),
            ),
            0,
        )],
    );
    assert_eq!(with_message.flat_size(), Err(RuneParserError::InvalidStructMemberType));
}

#[test]
fn array_sizes_report_their_errors() {
    let unresolved = ArraySize::UserDefinition(runic::defines::DefineDefinition {
        name: String::from("N"),
        value: runic::defines::DefineValue::NoValue,
        comment: None,
        redefinition: None,
    });
    assert_eq!(unresolved.value(), Err(RuneParserError::InvalidArraySize));
    let array_of_message = ArrayType::UserDefined(
        String::from("Report"),
        UserDefinitionLink::MessageLink(message("Report", Vec::new())),
    );
    assert_eq!(array_of_message.size(), Err(RuneParserError::InvalidArrayType));
}

/// The optimal per-field encoding: nothing for an empty payload, a bare
/// header for primitive widths, and the smallest sufficient length prefix
/// otherwise.
#[test]
fn optimal_encoding_picks_smallest_sufficient_header() {
    assert_eq!(optimal_encoded_data_size(&0), Ok(0));
    assert_eq!(optimal_encoded_data_size(&1), Ok(2));
    assert_eq!(optimal_encoded_data_size(&8), Ok(9));
    assert_eq!(optimal_encoded_data_size(&3), Ok(2 + 3));
    assert_eq!(optimal_encoded_data_size(&255), Ok(2 + 255));
    assert_eq!(optimal_encoded_data_size(&256), Ok(3 + 256));
    assert_eq!(optimal_encoded_data_size(&65535), Ok(3 + 65535));
    assert_eq!(optimal_encoded_data_size(&65536), Ok(5 + 65536));
    assert_eq!(optimal_encoded_data_size(&(u32::MAX as u64)), Ok(5 + u32::MAX as u64));
    assert_eq!(
        optimal_encoded_data_size(&(u32::MAX as u64 + 1)),
        Err(RuneParserError::InvalidEncodedSize)
    );
}

#[test]
fn message_sizes_cover_optimal_and_worst_case() {
    let m = message(
        "Report",
        vec![
            field("tag", FieldType::Primitive(Primitive::U8), 0),
            field("value", FieldType::Primitive(Primitive::U32), 1),
        ],
    );
    assert_eq!(m.optimal_full_encoded_size(), Ok((1 + 1) + (1 + 4)));
    assert_eq!(m.worst_case_encoded_size(), Ok(Some((5 + 1) + (5 + 4))));
}

/// A gap in the field indexes makes the worst case unknown: an absent field
/// might still be sent, with a size nothing bounds.
#[test]
fn index_gap_makes_worst_case_unknown() {
    let m = message(
        "Report",
        vec![
            field("tag", FieldType::Primitive(Primitive::U8), 0),
            field("late", FieldType::Primitive(Primitive::U8), 2),
        ],
    );
    assert_eq!(m.worst_case_encoded_size(), Ok(None));
    assert_eq!(m.optimal_full_encoded_size(), Ok(4));
}

#[test]
fn nested_message_worst_case_propagates_unknown() {
    let gappy = message("Inner", vec![field("late", FieldType::Primitive(Primitive::U8), 1)]);
    let outer = message(
        "Outer",
        vec![MessageField {
            identifier: String::from("inner"),
            data_type: FieldType::UserDefined(
                String::from("Inner"),
                UserDefinitionLink::MessageLink(gappy),
            ),
            index: FieldIndex::Numeric(0),
            comment: None,
        }],
    );
    assert_eq!(outer.worst_case_encoded_size(), Ok(None));
}

/// Cross-variant numeric equality: booleans equal 0 and 1, integral floats
/// equal the corresponding integer, and positive and negative integer
/// literals never compare equal to each other.
#[test]
fn numeric_equality_crosses_variants() {
    let one = NumericLiteral::PositiveInteger(1, NumeralSystem::Decimal);
    let one_hex = NumericLiteral::PositiveInteger(1, NumeralSystem::Hexadecimal);
    assert!(one == one_hex);
    assert!(NumericLiteral::Boolean(true) == one);
    assert!(NumericLiteral::Boolean(false) != one);
    let two_float = NumericLiteral::Float(FloatValue {
        bits: 2.0f64.to_bits(),
        integral: true,
        negative: false,
        magnitude: 2,
        fits_u64: true,
        fits_i64: false,
        in_f32_range: true,
    });
    assert!(two_float == NumericLiteral::PositiveInteger(2, NumeralSystem::Decimal));
    assert!(two_float != NumericLiteral::PositiveInteger(3, NumeralSystem::Decimal));
    let minus_two_float = NumericLiteral::Float(FloatValue {
        bits: (-2.0f64).to_bits(),
        integral: true,
        negative: true,
        magnitude: 2,
        fits_u64: false,
        fits_i64: true,
        in_f32_range: true,
    });
    assert!(minus_two_float == NumericLiteral::NegativeInteger(-2, NumeralSystem::Decimal));
    let zero_pos = NumericLiteral::PositiveInteger(0, NumeralSystem::Decimal);
    let zero_neg = NumericLiteral::NegativeInteger(0, NumeralSystem::Decimal);
    assert!(zero_pos != zero_neg);
    assert!(NumericLiteral::AsciiChar('A') == NumericLiteral::PositiveInteger(65, NumeralSystem::Decimal));
}

#[test]
fn half_float_domain_uses_the_recorded_range_flag() {
    let small = FloatValue {
        bits: 1.5f64.to_bits(),
        integral: false,
        negative: false,
        magnitude: 1,
        fits_u64: true,
        fits_i64: false,
        in_f32_range: true,
    };
    assert!(Primitive::F32.validate_value(&NumericLiteral::Float(small)));
    assert!(Primitive::F64.validate_value(&NumericLiteral::Float(small)));
    let huge = FloatValue {
        bits: 1.0e300f64.to_bits(),
        integral: true,
        negative: false,
        magnitude: 0,
        fits_u64: false,
        fits_i64: false,
        in_f32_range: false,
    };
    assert!(!Primitive::F32.validate_value(&NumericLiteral::Float(huge)));
    assert!(Primitive::F64.validate_value(&NumericLiteral::Float(huge)));
}

#[test]
fn field_index_values_and_verifier_alias() {
    assert_eq!(FieldIndex::Numeric(7).value(), 7);
    assert_eq!(FieldIndex::Verifier.value(), 0);
    assert!(FieldIndex::Verifier.is_verifier());
    assert!(!FieldIndex::Numeric(0).is_verifier());
    assert!(FieldIndex::Verifier == FieldIndex::Numeric(0));
    assert!(FieldIndex::Numeric(1) != FieldIndex::Numeric(2));
    assert_eq!(MemberIndex::Verifier.value(), 0);
    assert!(MemberIndex::Verifier.is_verifier());
    assert_eq!(BitSize::Signed(5).absolute(), 5);
    assert_eq!(BitSize::Unsigned(9).absolute(), 9);
}

#[test]
fn spans_carry_their_positions() {
    let from = Position { line: 1, offset: Some(2) };
    let to = Position { line: 3, offset: None };
    let s = Spanned::new(7u32, from, to);
    assert_eq!(s.item, 7);
    assert_eq!(s.from, from);
    assert_eq!(s.to, to);
    let widened = Spanned::encompass('x', s, Spanned::<u32>::empty());
    assert_eq!(widened.from, from);
    assert_eq!(widened.to.line, 0);
    let mapped = s.map(|v| v + 1);
    assert_eq!(mapped.item, 8);
    assert_eq!(mapped.from, from);
    assert_eq!(s.just_span().to, to);
}

#[test]
fn output_files_accumulate_lines() {
    let mut out = OutputFile::new(String::from("schema.h"));
    out.add_line(String::from("#pragma once"));
    out.add_newline();
    assert_eq!(out.file_name, "schema.h");
    assert_eq!(out.string_buffer, "#pragma once\n\n");
}

#[test]
fn extension_buckets_report_emptiness() {
    let mut bucket = Extensions::with_capacity(4);
    assert!(bucket.is_empty());
    bucket.add_entry(ExtensionDefinition::Struct(plain_struct("Point", Vec::new())));
    assert!(!bucket.is_empty());
    assert_eq!(bucket.structs.len(), 1);
    assert_eq!(bucket.bitfields.len(), 0);
}

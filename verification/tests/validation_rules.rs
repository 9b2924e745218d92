use runic::bitfields::{BitSize, BitfieldDefinition, BitfieldMember};
use runic::enums::{EnumDefinition, EnumMember};
use runic::messages::{FieldIndex, FieldType, MessageDefinition, MessageField};
use runic::numeric::{NumeralSystem, NumericLiteral};
use runic::primitives::Primitive;
use runic::schema::{Definitions, RuneFileDescription};
use runic::structs::{MemberIndex, MemberType, StructDefinition, StructMember};
use runic::validation::{validate_bitfields, validate_enums, validate_messages, validate_names,
    validate_structs};
use runic::RuneParserError;

fn file_with(definitions: Definitions) -> Vec<RuneFileDescription> {
    vec![RuneFileDescription {
        relative_path: String::new(),
        name: String::from("a"),
        definitions,
    }]
}

fn bitfield_member(ident: &str, width: u64, index: u64) -> BitfieldMember {
    BitfieldMember {
        identifier: String::from(ident),
        size: BitSize::Unsigned(width),
        index,
        comment: None,
    }
}

fn bitfield(members: Vec<BitfieldMember>, reserved: Vec<u64>) -> BitfieldDefinition {
    BitfieldDefinition {
        name: String::from("Flags"),
        backing_type: Primitive::U8,
        members,
        reserved_indexes: reserved,
        comment: None,
        orphan_comments: Vec::new(),
    }
}

fn positive(v: u64) -> NumericLiteral {
    NumericLiteral::PositiveInteger(v, NumeralSystem::Decimal)
}

fn enum_member(ident: &str, value: NumericLiteral) -> EnumMember {
    EnumMember { identifier: String::from(ident), value, comment: None }
}

fn color_enum(members: Vec<EnumMember>, reserved: Vec<NumericLiteral>) -> EnumDefinition {
    EnumDefinition {
        name: String::from("Color"),
        backing_type: Primitive::U8,
        members,
        reserved_values: reserved,
        comment: None,
        orphan_comments: Vec::new(),
    }
}

/// A bitfield passing all four conditions of validity is accepted.
#[test]
fn valid_bitfield_is_accepted() {
    let mut defs = Definitions::new();
    defs.bitfields.push(bitfield(
        vec![bitfield_member("low", 4, 0), bitfield_member("high", 4, 4)],
        vec![2],
    ));
    assert!(validate_bitfields(&file_with(defs)).is_ok());
}

/// Flipping the duplicate-slot condition alone flips acceptance.
#[test]
fn bitfield_duplicate_slot_is_rejected() {
    let mut defs = Definitions::new();
    defs.bitfields.push(bitfield(
        vec![bitfield_member("low", 4, 0), bitfield_member("high", 4, 0)],
        Vec::new(),
    ));
    assert_eq!(validate_bitfields(&file_with(defs)), Err(RuneParserError::IndexCollision));
}

/// Flipping the reserved-slot condition alone flips acceptance.
#[test]
fn bitfield_reserved_slot_is_rejected() {
    let mut defs = Definitions::new();
    defs.bitfields.push(bitfield(
        vec![bitfield_member("low", 4, 0), bitfield_member("high", 4, 4)],
        vec![4],
    ));
    assert_eq!(validate_bitfields(&file_with(defs)), Err(RuneParserError::UseOfReservedIndex));
}

/// Flipping the duplicate-identifier condition alone flips acceptance.
#[test]
fn bitfield_duplicate_identifier_is_rejected() {
    let mut defs = Definitions::new();
    defs.bitfields.push(bitfield(
        vec![bitfield_member("low", 4, 0), bitfield_member("low", 4, 4)],
        Vec::new(),
    ));
    assert_eq!(validate_bitfields(&file_with(defs)), Err(RuneParserError::IdentifierCollision));
}

/// Flipping the width condition alone flips acceptance: nine bits cannot
/// back onto a one-byte primitive.
#[test]
fn bitfield_width_overflow_is_rejected() {
    let mut defs = Definitions::new();
    defs.bitfields.push(bitfield(
        vec![bitfield_member("low", 4, 0), bitfield_member("high", 5, 4)],
        Vec::new(),
    ));
    assert_eq!(
        validate_bitfields(&file_with(defs)),
        Err(RuneParserError::InvalidTotalBitfieldSize)
    );
}

/// `enum Color: u8 { reserve 3; Red = 0; Green = 1; Blue = 2; }` — adding a
/// member with value 3 fails as a use of a reserved index.
#[test]
fn enum_member_on_reserved_value_is_rejected() {
    let mut defs = Definitions::new();
    defs.enums.push(color_enum(
        vec![
            enum_member("Red", positive(0)),
            enum_member("Green", positive(1)),
            enum_member("Blue", positive(2)),
            enum_member("Alpha", positive(3)),
        ],
        vec![positive(3)],
    ));
    assert_eq!(validate_enums(&file_with(defs)), Err(RuneParserError::UseOfReservedIndex));
}

/// The same enum accepts a member with value 4.
#[test]
fn enum_member_off_reserved_value_is_accepted() {
    let mut defs = Definitions::new();
    defs.enums.push(color_enum(
        vec![
            enum_member("Red", positive(0)),
            enum_member("Green", positive(1)),
            enum_member("Blue", positive(2)),
            enum_member("Alpha", positive(4)),
        ],
        vec![positive(3)],
    ));
    assert!(validate_enums(&file_with(defs)).is_ok());
}

/// Two members with the same numeric value collide even when written in
/// different literal forms: a boolean equals the integer one.
#[test]
fn enum_cross_variant_value_collision_is_rejected() {
    let mut defs = Definitions::new();
    defs.enums.push(EnumDefinition {
        name: String::from("Switch"),
        backing_type: Primitive::Bool,
        members: vec![
            enum_member("On", NumericLiteral::Boolean(true)),
            enum_member("One", NumericLiteral::Boolean(true)),
        ],
        reserved_values: Vec::new(),
        comment: None,
        orphan_comments: Vec::new(),
    });
    assert_eq!(validate_enums(&file_with(defs)), Err(RuneParserError::ValueCollision));
}

/// A value outside the backing domain is rejected: 256 does not fit u8.
#[test]
fn enum_value_outside_domain_is_rejected() {
    let mut defs = Definitions::new();
    defs.enums.push(color_enum(vec![enum_member("Big", positive(256))], Vec::new()));
    assert_eq!(validate_enums(&file_with(defs)), Err(RuneParserError::InvalidNumericValue));
}

/// A struct with one field at the verifier alias and another at explicit
/// index 0 fails with an index collision: the alias denotes index 0.
#[test]
fn verifier_alias_collides_with_explicit_zero() {
    let mut defs = Definitions::new();
    defs.structs.push(StructDefinition {
        name: String::from("Framed"),
        members: vec![
            StructMember {
                identifier: String::from("check"),
                data_type: MemberType::Primitive(Primitive::U8),
                index: MemberIndex::Verifier,
                comment: None,
            },
            StructMember {
                identifier: String::from("first"),
                data_type: MemberType::Primitive(Primitive::U8),
                index: MemberIndex::Numeric(0),
                comment: None,
            },
        ],
        reserved_indexes: Vec::new(),
        comment: None,
        orphan_comments: Vec::new(),
    });
    assert_eq!(validate_structs(&file_with(defs)), Err(RuneParserError::IndexCollision));
}

fn message_field(ident: &str, index: FieldIndex) -> MessageField {
    MessageField {
        identifier: String::from(ident),
        data_type: FieldType::Primitive(Primitive::U8),
        index,
        comment: None,
    }
}

/// A message may carry at most one verifier field.
#[test]
fn two_verifier_fields_are_rejected() {
    let mut defs = Definitions::new();
    defs.messages.push(MessageDefinition {
        name: String::from("Report"),
        fields: vec![
            message_field("check", FieldIndex::Verifier),
            message_field("extra", FieldIndex::Verifier),
        ],
        reserved_indexes: Vec::new(),
        comment: None,
        orphan_comments: Vec::new(),
    });
    assert_eq!(validate_messages(&file_with(defs)), Err(RuneParserError::IndexCollision));
}

/// A message field on a reserved index is rejected.
#[test]
fn message_field_on_reserved_index_is_rejected() {
    let mut defs = Definitions::new();
    defs.messages.push(MessageDefinition {
        name: String::from("Report"),
        fields: vec![message_field("value", FieldIndex::Numeric(2))],
        reserved_indexes: vec![FieldIndex::Numeric(2)],
        comment: None,
        orphan_comments: Vec::new(),
    });
    assert_eq!(validate_messages(&file_with(defs)), Err(RuneParserError::UseOfReservedIndex));
}

/// Two declarations claiming one name collide, whatever their kinds.
#[test]
fn global_name_collision_is_rejected() {
    let mut defs = Definitions::new();
    defs.enums.push(color_enum(Vec::new(), Vec::new()));
    defs.structs.push(StructDefinition {
        name: String::from("Color"),
        members: Vec::new(),
        reserved_indexes: Vec::new(),
        comment: None,
        orphan_comments: Vec::new(),
    });
    assert_eq!(validate_names(&file_with(defs)), Err(RuneParserError::NameCollision));
}

/// Enum-value domain membership is monotonic across widening: values a
/// narrow backing accepts are accepted by every wider backing of the same
/// signedness.
#[test]
fn enum_domains_widen_monotonically() {
    let narrow_hits = [positive(0), positive(127), NumericLiteral::NegativeInteger(-128, NumeralSystem::Decimal)];
    for value in narrow_hits {
        assert!(Primitive::I8.validate_value(&value));
        assert!(Primitive::I16.validate_value(&value));
        assert!(Primitive::I32.validate_value(&value));
        assert!(Primitive::I64.validate_value(&value));
    }
    let unsigned_hits = [positive(0), positive(200), positive(255)];
    for value in unsigned_hits {
        assert!(Primitive::U8.validate_value(&value));
        assert!(Primitive::U16.validate_value(&value));
        assert!(Primitive::U32.validate_value(&value));
        assert!(Primitive::U64.validate_value(&value));
    }
    // The law stops at family borders: a boolean is accepted by the boolean
    // backing alone, not by any wider integer one.
    assert!(Primitive::Bool.validate_value(&NumericLiteral::Boolean(true)));
    assert!(!Primitive::U16.validate_value(&NumericLiteral::Boolean(true)));
}

#[test]
fn domain_checks_use_exact_bounds() {
    assert!(Primitive::U8.validate_value(&positive(255)));
    assert!(!Primitive::U8.validate_value(&positive(256)));
    assert!(Primitive::I8.validate_value(&positive(127)));
    assert!(!Primitive::I8.validate_value(&positive(128)));
    assert!(Primitive::U16.validate_value(&positive(65535)));
    assert!(!Primitive::U16.validate_value(&positive(65536)));
    assert!(Primitive::I64.validate_value(&positive(i64::MAX as u64)));
    assert!(!Primitive::I64.validate_value(&positive(i64::MAX as u64 + 1)));
}

#[test]
fn backing_capabilities_follow_the_primitive() {
    assert!(Primitive::U8.can_back_bitfield());
    assert!(!Primitive::Bool.can_back_bitfield());
    assert!(!Primitive::F32.can_back_bitfield());
    assert!(Primitive::F32.can_back_enum());
    assert!(!Primitive::U128.can_back_enum());
    assert!(Primitive::I64.is_signed());
    assert!(!Primitive::U64.is_signed());
    assert_eq!(Primitive::U128.encoded_max_data_size(), 16);
    assert!(Primitive::U16.validate_bit_index(&15));
    assert!(!Primitive::U16.validate_bit_index(&16));
    assert!(Primitive::U16.validate_bitfield_size(&16));
    assert!(!Primitive::U16.validate_bitfield_size(&17));
}

use binread::endian::{decode_uint, encode_uint, ByteOrder, Endian};
use binread::error::{ConversionCause, FieldError, IoErrorKind, ParseError};
use binread::field::{check_magic, parse_field, skip};
use binread::ident::IdentStr;
use binread::magic::{numeric_magic, MagicType};
use binread::schema::{
    Assertion, CmpOp, Context, Field, FieldKind, IntWidth, Operand, Parsed, Transform, Value,
};
use binread::stream::{ByteStream, SeekFrom};
use binread::structure::parse_struct;
use binread::variant::{parse_enum, EnumErrorHandling, EnumSchema, EnumValue, Variant};

fn big() -> Context {
    Context { endian: ByteOrder::Big, offset: 0 }
}

fn int_field(name: &str, w: IntWidth) -> Field {
    Field::new(name.to_string(), FieldKind::Int(w))
}

fn magic_field(name: &str, m: &[u8]) -> Field {
    let mut f = Field::new(name.to_string(), FieldKind::Unit);
    f.magic = Some(m.to_vec());
    f
}

/// `{ magic: b"AB", len: u16_be, data_off: u32_be, data: at offset data_off, len bytes }`
fn header_schema() -> Vec<Field> {
    let mut data = Field::new("data".to_string(), FieldKind::Bytes(Operand::Field(1)));
    data.offset = Some(Operand::Field(2));
    vec![
        magic_field("magic", b"AB"),
        int_field("len", IntWidth::U16),
        int_field("data_off", IntWidth::U32),
        data,
    ]
}

fn header_bytes() -> Vec<u8> {
    vec![0x41, 0x42, 0x00, 0x03, 0x00, 0x00, 0x00, 0x09, 0xEE, 0x10, 0x20, 0x30, 0xFF]
}

fn int_of(v: &Value) -> u64 {
    match v {
        Value::Int(x) => *x,
        _ => panic!("not an integer: {:?}", v),
    }
}

fn bytes_of(v: &Value) -> Vec<u8> {
    match v {
        Value::Bytes(b) => b.clone(),
        _ => panic!("not bytes: {:?}", v),
    }
}

fn tagged(name: &str, tag: u8) -> Variant {
    let mut f = int_field("body", IntWidth::U8);
    f.magic = Some(vec![tag]);
    Variant { name: name.to_string(), fields: vec![f] }
}

#[test]
fn header_with_offset_data_parses() {
    let mut s = ByteStream::new(header_bytes());
    let p: Parsed = parse_struct(&header_schema(), big(), &mut s).unwrap();
    assert_eq!(p.values.len(), 4);
    assert!(matches!(p.values[0], Value::Absent));
    assert_eq!(int_of(&p.values[1]), 3);
    assert_eq!(int_of(&p.values[2]), 9);
    assert_eq!(bytes_of(&p.values[3]), vec![0x10, 0x20, 0x30]);
    assert_eq!(s.tell(), 8);
    assert!(p.errors.is_empty());
}

#[test]
fn header_with_wrong_magic_fails() {
    let mut bytes = header_bytes();
    bytes[1] = 0x43;
    let mut s = ByteStream::new(bytes);
    match parse_struct(&header_schema(), big(), &mut s) {
        Err(FieldError::BadMagic { expected, actual, position }) => {
            assert_eq!(expected, vec![0x41, 0x42]);
            assert_eq!(actual, vec![0x41, 0x43]);
            assert_eq!(position, 0);
        },
        other => panic!("unexpected {:?}", other),
    }
    assert_eq!(s.tell(), 0);
}

#[test]
fn no_variant_matched_lists_every_attempt() {
    let schema = EnumSchema {
        variants: vec![tagged("One", 0x01), tagged("Two", 0x02)],
        handling: EnumErrorHandling::ReturnError,
    };
    let mut s = ByteStream::new(vec![0x03, 0x00]);
    match parse_enum(&schema, big(), &mut s) {
        Err(ParseError::EnumNoVariantMatched { attempts, position }) => {
            assert_eq!(position, 0);
            assert_eq!(attempts.len(), 2);
            assert_eq!(attempts[0].variant, "One");
            assert_eq!(attempts[1].variant, "Two");
            for a in &attempts {
                assert!(matches!(a.error, FieldError::BadMagic { position: 0, .. }));
            }
        },
        other => panic!("unexpected {:?}", other),
    }
    assert_eq!(s.tell(), 0);
}

#[test]
fn first_matching_variant_wins() {
    let both = EnumSchema {
        variants: vec![tagged("A", 0x07), tagged("B", 0x07)],
        handling: EnumErrorHandling::ReturnError,
    };
    let only = EnumSchema { variants: vec![tagged("A", 0x07)], handling: EnumErrorHandling::ReturnError };
    let mut s1 = ByteStream::new(vec![0x07, 0x2A]);
    let mut s2 = ByteStream::new(vec![0x07, 0x2A]);
    let r1 = parse_enum(&both, big(), &mut s1).unwrap();
    let r2 = parse_enum(&only, big(), &mut s2).unwrap();
    match (r1, r2) {
        (EnumValue::Matched { index: 0, parsed: p1 }, EnumValue::Matched { index: 0, parsed: p2 }) => {
            assert_eq!(int_of(&p1.values[0]), 42);
            assert_eq!(int_of(&p2.values[0]), 42);
        },
        other => panic!("unexpected {:?}", other),
    }
    assert_eq!(s1.tell(), 2);
    assert_eq!(s2.tell(), 2);
}

#[test]
fn later_variant_matches_after_rollback() {
    let mut first = int_field("wide", IntWidth::U32);
    first.magic = Some(vec![0x05]);
    let schema = EnumSchema {
        variants: vec![Variant { name: "Wide".to_string(), fields: vec![first] }, tagged("Narrow", 0x05)],
        handling: EnumErrorHandling::ReturnError,
    };
    let mut s = ByteStream::new(vec![0x05, 0x09]);
    match parse_enum(&schema, big(), &mut s).unwrap() {
        EnumValue::Matched { index, parsed } => {
            assert_eq!(index, 1);
            assert_eq!(int_of(&parsed.values[0]), 9);
        },
        other => panic!("unexpected {:?}", other),
    }
    assert_eq!(s.tell(), 2);
}

#[test]
fn default_variant_consumes_nothing() {
    let schema = EnumSchema {
        variants: vec![tagged("One", 0x01)],
        handling: EnumErrorHandling::ReturnDefault,
    };
    let mut s = ByteStream::new(vec![0x09]);
    assert!(matches!(parse_enum(&schema, big(), &mut s), Ok(EnumValue::Default)));
    assert_eq!(s.tell(), 0);
}

#[test]
fn repeated_parses_agree() {
    let mut s1 = ByteStream::new(header_bytes());
    let mut s2 = ByteStream::new(header_bytes());
    let a = parse_struct(&header_schema(), big(), &mut s1).unwrap();
    let b = parse_struct(&header_schema(), big(), &mut s2).unwrap();
    assert_eq!(format!("{:?}", a), format!("{:?}", b));
    assert_eq!(s1.tell(), s2.tell());
}

#[test]
fn offset_field_leaves_next_sibling_in_place() {
    let mut jump = int_field("far", IntWidth::U8);
    jump.offset = Some(Operand::Const(5));
    let next = int_field("next", IntWidth::U16);
    let bytes = vec![0x01, 0x02, 0x03, 0x04, 0x05, 0x06];
    let mut s1 = ByteStream::new(bytes.clone());
    let both = parse_struct(&vec![jump, next.clone()], big(), &mut s1).unwrap();
    let mut s2 = ByteStream::new(bytes);
    let alone = parse_struct(&vec![next], big(), &mut s2).unwrap();
    assert_eq!(int_of(&both.values[0]), 6);
    assert_eq!(int_of(&both.values[1]), 0x0102);
    assert_eq!(int_of(&alone.values[0]), 0x0102);
    assert_eq!(s1.tell(), s2.tell());
}

#[test]
fn restore_position_keeps_cursor_after_offset_read() {
    let mut jump = int_field("far", IntWidth::U8);
    jump.offset = Some(Operand::Const(3));
    jump.restore_position = true;
    let next = int_field("next", IntWidth::U8);
    let mut s = ByteStream::new(vec![0x01, 0x02, 0x03, 0x04, 0x05]);
    let p = parse_struct(&vec![jump, next], big(), &mut s).unwrap();
    assert_eq!(int_of(&p.values[0]), 4);
    assert_eq!(int_of(&p.values[1]), 5);
    assert_eq!(s.tell(), 5);
}

#[test]
fn deferred_field_sees_mapped_length() {
    // `len` counts its own byte; the table comes after it, read in the second pass.
    let mut data = Field::new("table".to_string(), FieldKind::Bytes(Operand::Field(2)));
    data.deferred = true;
    data.offset = Some(Operand::Field(1));
    let mut len = int_field("len", IntWidth::U8);
    len.transform = Transform::CheckedSub(1);
    len.assertion = Some(Assertion { op: CmpOp::Le, rhs: 4, message: None });
    let fields = vec![data, int_field("at", IntWidth::U8), len];
    let mut s = ByteStream::new(vec![0x03, 0x03, 0xAA, 0xBB, 0xCC, 0xDD]);
    let p = parse_struct(&fields, big(), &mut s).unwrap();
    assert_eq!(int_of(&p.values[2]), 2);
    assert_eq!(bytes_of(&p.values[0]), vec![0xBB, 0xCC]);
    assert_eq!(s.tell(), 2);
}

#[test]
fn failing_deferred_field_aborts_and_rewinds() {
    let mut data = Field::new("table".to_string(), FieldKind::Bytes(Operand::Const(10)));
    data.deferred = true;
    let fields = vec![int_field("a", IntWidth::U8), data];
    let mut s = ByteStream::new(vec![0x01, 0x02]);
    match parse_struct(&fields, big(), &mut s) {
        Err(FieldError::Io { kind: IoErrorKind::UnexpectedEof, position: 1 }) => {},
        other => panic!("unexpected {:?}", other),
    }
    assert_eq!(s.tell(), 0);
}

#[test]
fn short_read_is_unexpected_eof() {
    let mut s = ByteStream::new(vec![0x01, 0x02]);
    match parse_struct(&vec![int_field("x", IntWidth::U32)], big(), &mut s) {
        Err(FieldError::Io { kind: IoErrorKind::UnexpectedEof, position: 0 }) => {},
        other => panic!("unexpected {:?}", other),
    }
}

#[test]
fn padding_past_the_largest_position_is_invalid_seek() {
    let mut f = int_field("x", IntWidth::U8);
    f.pad_before = u64::MAX;
    let mut s = ByteStream::new(vec![0x01, 0x02]);
    s.seek(SeekFrom::Start(1)).unwrap();
    match parse_struct(&vec![f], big(), &mut s) {
        Err(FieldError::Io { kind: IoErrorKind::InvalidSeek, position: 1 }) => {},
        other => panic!("unexpected {:?}", other),
    }
    assert_eq!(s.tell(), 1);
}

#[test]
fn failed_try_map_is_conversion() {
    let mut f = int_field("x", IntWidth::U8);
    f.transform = Transform::CheckedSub(5);
    let mut s = ByteStream::new(vec![0x00, 0x03]);
    s.seek(SeekFrom::Start(1)).unwrap();
    match parse_struct(&vec![f], big(), &mut s) {
        Err(FieldError::Conversion { position: 1, cause: ConversionCause::Underflow { value: 3, amount: 5 } }) => {},
        other => panic!("unexpected {:?}", other),
    }
}

#[test]
fn mask_keeps_low_bits() {
    let mut f = int_field("flags", IntWidth::U16);
    f.transform = Transform::Mask(0x00F0);
    let mut s = ByteStream::new(vec![0x12, 0x34]);
    let p = parse_struct(&vec![f], big(), &mut s).unwrap();
    assert_eq!(int_of(&p.values[0]), 0x30);
}

#[test]
fn failed_assertion_carries_message() {
    let mut f = int_field("version", IntWidth::U8);
    f.assertion = Some(Assertion { op: CmpOp::Eq, rhs: 2, message: Some("unsupported version".to_string()) });
    let mut s = ByteStream::new(vec![0x03]);
    match parse_struct(&vec![f.clone()], big(), &mut s) {
        Err(FieldError::AssertionFailed { position, field, message }) => {
            assert_eq!(position, 0);
            assert_eq!(field, "version");
            assert_eq!(message.as_deref(), Some("unsupported version"));
        },
        other => panic!("unexpected {:?}", other),
    }
    f.assertion = Some(Assertion { op: CmpOp::Gt, rhs: 7, message: None });
    let mut s = ByteStream::new(vec![0x03]);
    assert!(matches!(
        parse_struct(&vec![f], big(), &mut s),
        Err(FieldError::AssertionFailed { message: None, .. })
    ));
}

#[test]
fn false_condition_leaves_field_absent() {
    let mut f = int_field("extra", IntWidth::U8);
    f.condition = Some(0);
    let mut s = ByteStream::new(vec![0x00, 0x09]);
    let p = parse_struct(&vec![int_field("has_extra", IntWidth::U8), f.clone()], big(), &mut s).unwrap();
    assert!(matches!(p.values[1], Value::Absent));
    assert_eq!(s.tell(), 1);
    let mut s = ByteStream::new(vec![0x01, 0x09]);
    let p = parse_struct(&vec![int_field("has_extra", IntWidth::U8), f], big(), &mut s).unwrap();
    assert_eq!(int_of(&p.values[1]), 9);
    assert_eq!(s.tell(), 2);
}

#[test]
fn ignored_errors_go_to_the_basket() {
    let mut bad = int_field("bad", IntWidth::U8);
    bad.magic = Some(vec![0xFF]);
    bad.ignore_errors = true;
    let fields = vec![bad, int_field("good", IntWidth::U8)];
    let mut s = ByteStream::new(vec![0x11, 0x22]);
    let p = parse_struct(&fields, big(), &mut s).unwrap();
    assert!(matches!(p.values[0], Value::Absent));
    assert_eq!(int_of(&p.values[1]), 0x11);
    assert_eq!(p.errors.len(), 1);
    assert!(matches!(p.errors[0], FieldError::BadMagic { position: 0, .. }));
}

#[test]
fn padding_and_alignment_move_the_cursor() {
    let mut f = int_field("x", IntWidth::U8);
    f.pad_before = 1;
    f.align_before = 4;
    f.pad_after = 2;
    let mut s = ByteStream::new(vec![0, 1, 2, 3, 4, 5, 6, 7, 8]);
    s.seek(SeekFrom::Start(1)).unwrap();
    let p = parse_struct(&vec![f], big(), &mut s).unwrap();
    assert_eq!(int_of(&p.values[0]), 4);
    assert_eq!(s.tell(), 7);
    let mut s = ByteStream::new(vec![0; 16]);
    s.seek(SeekFrom::Start(5)).unwrap();
    skip(&mut s, 0, 8).unwrap();
    assert_eq!(s.tell(), 8);
    skip(&mut s, 0, 8).unwrap();
    assert_eq!(s.tell(), 8);
}

#[test]
fn context_offset_is_the_base_of_offset_fields() {
    let mut f = int_field("x", IntWidth::U8);
    f.offset = Some(Operand::Const(1));
    let ctx = Context { endian: ByteOrder::Big, offset: 2 };
    let mut s = ByteStream::new(vec![0, 1, 2, 3, 4]);
    let v = parse_field(&f, &vec![], ctx, &mut s).unwrap();
    assert_eq!(int_of(&v), 3);
    assert_eq!(s.tell(), 0);
}

#[test]
fn field_byte_order_overrides_context() {
    let mut f = int_field("x", IntWidth::U32);
    f.endian = Some(ByteOrder::Little);
    let mut s = ByteStream::new(vec![0x01, 0x02, 0x03, 0x04]);
    let p = parse_struct(&vec![f, ], big(), &mut s).unwrap();
    assert_eq!(int_of(&p.values[0]), 0x04030201);
}

#[test]
fn decodes_both_byte_orders() {
    let b = vec![0x01, 0x02, 0x03, 0x04, 0x05, 0x06, 0x07, 0x08];
    assert_eq!(decode_uint(ByteOrder::Big, &b), 0x0102030405060708);
    assert_eq!(decode_uint(ByteOrder::Little, &b), 0x0807060504030201);
    assert_eq!(decode_uint(ByteOrder::Big, &vec![0xFF; 8]), u64::MAX);
    assert_eq!(decode_uint(ByteOrder::Little, &vec![]), 0);
}

#[test]
fn native_order_is_the_machines() {
    assert_eq!(Endian::Big.resolve(), ByteOrder::Big);
    assert_eq!(Endian::Little.resolve(), ByteOrder::Little);
    let order = Endian::Native.resolve();
    let b = vec![0x12, 0x34];
    assert_eq!(decode_uint(order, &b), u16::from_ne_bytes([0x12, 0x34]) as u64);
}

#[test]
fn magic_check_consumes_only_on_match() {
    let mut s = ByteStream::new(vec![0xCA, 0xFE, 0x00]);
    assert!(check_magic(&mut s, &vec![0xCA, 0xFF]).is_err());
    assert_eq!(s.tell(), 0);
    check_magic(&mut s, &vec![0xCA, 0xFE]).unwrap();
    assert_eq!(s.tell(), 2);
    match check_magic(&mut s, &vec![0x00, 0x00]) {
        Err(FieldError::Io { kind: IoErrorKind::UnexpectedEof, position: 2 }) => {},
        other => panic!("unexpected {:?}", other),
    }
    assert_eq!(s.tell(), 2);
}

#[test]
fn stream_seeks_and_reads() {
    let mut s = ByteStream::new(vec![1, 2, 3, 4]);
    assert_eq!(s.len(), 4);
    assert_eq!(s.seek(SeekFrom::End(-1)).unwrap(), 3);
    assert_eq!(s.read(1).unwrap(), vec![4]);
    assert_eq!(s.seek(SeekFrom::Current(-3)).unwrap(), 1);
    assert_eq!(s.read(2).unwrap(), vec![2, 3]);
    assert!(matches!(
        s.seek(SeekFrom::Current(-4)),
        Err(FieldError::Io { kind: IoErrorKind::InvalidSeek, position: 3 })
    ));
    assert_eq!(s.tell(), 3);
    assert_eq!(s.seek(SeekFrom::Start(10)).unwrap(), 10);
    assert!(matches!(s.read(1), Err(FieldError::Io { kind: IoErrorKind::UnexpectedEof, position: 10 })));
    assert_eq!(s.read(0).unwrap(), Vec::<u8>::new());
    s.set_position(0);
    assert_eq!(s.tell(), 0);
}

#[test]
fn error_position_is_reported() {
    let e = FieldError::Conversion { position: 7, cause: ConversionCause::Underflow { value: 1, amount: 2 } };
    assert_eq!(e.position(), 7);
}

#[test]
fn ident_str_keeps_its_path() {
    let i = IdentStr::new("binread::io::Seek");
    assert_eq!(i.as_str(), "binread::io::Seek");
}

#[test]
fn magic_types_compare() {
    assert_eq!(MagicType::Int("u32".to_string()), MagicType::Int("u32".to_string()));
    assert_ne!(MagicType::Str, MagicType::ByteStr);
}

#[test]
fn numeric_magic_follows_byte_order() {
    assert_eq!(numeric_magic(0x1234, IntWidth::U16, ByteOrder::Big), Some(vec![0x12, 0x34]));
    assert_eq!(numeric_magic(0x1234, IntWidth::U16, ByteOrder::Little), Some(vec![0x34, 0x12]));
    assert_eq!(numeric_magic(0x1_0000, IntWidth::U16, ByteOrder::Big), None);
    assert_eq!(numeric_magic(7, IntWidth::U32, ByteOrder::Big), Some(vec![0, 0, 0, 7]));
    assert_eq!(numeric_magic(u64::MAX, IntWidth::U64, ByteOrder::Little), Some(vec![0xFF; 8]));
    assert_eq!(encode_uint(ByteOrder::Little, 0x0102, 3), vec![0x02, 0x01, 0x00]);
    let magic = numeric_magic(0xBEEF, IntWidth::U16, ByteOrder::Little).unwrap();
    let mut s = ByteStream::new(vec![0xEF, 0xBE]);
    check_magic(&mut s, &magic).unwrap();
    assert_eq!(s.tell(), 2);
}

#[test]
fn counted_integers_use_an_earlier_length() {
    let mut list = Field::new("items".to_string(), FieldKind::Ints(IntWidth::U16, Operand::Field(0)));
    list.endian = Some(ByteOrder::Little);
    let fields = vec![int_field("count", IntWidth::U8), list];
    let mut s = ByteStream::new(vec![0x02, 0x01, 0x00, 0x02, 0x01, 0x77]);
    let p = parse_struct(&fields, big(), &mut s).unwrap();
    match &p.values[1] {
        Value::Ints(v) => assert_eq!(v, &vec![0x0001, 0x0102]),
        other => panic!("unexpected {:?}", other),
    }
    assert_eq!(s.tell(), 5);
}

#[test]
fn counted_integers_stop_at_the_first_short_read() {
    let list = Field::new("items".to_string(), FieldKind::Ints(IntWidth::U16, Operand::Const(3)));
    let mut s = ByteStream::new(vec![0, 1, 0, 2, 0]);
    match parse_struct(&vec![list], big(), &mut s) {
        Err(FieldError::Io { kind: IoErrorKind::UnexpectedEof, position: 4 }) => {},
        other => panic!("unexpected {:?}", other),
    }
    assert_eq!(s.tell(), 0);
}

#[test]
fn zero_count_reads_nothing() {
    let list = Field::new("items".to_string(), FieldKind::Ints(IntWidth::U64, Operand::Const(0)));
    let mut s = ByteStream::new(vec![]);
    let p = parse_struct(&vec![list], big(), &mut s).unwrap();
    assert!(matches!(&p.values[0], Value::Ints(v) if v.is_empty()));
}

#[test]
fn context_resolves_its_directive() {
    let c = Context::new(Endian::Little, 4);
    assert_eq!(c.endian, ByteOrder::Little);
    assert_eq!(c.offset, 4);
    assert_eq!(Context::new(Endian::Big, 0).endian, ByteOrder::Big);
}

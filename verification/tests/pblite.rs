use bytes::{BufMut, BytesMut};
use prost::encoding::{decode_key, decode_varint, encode_key, encode_varint, WireType};

use tchat::error::PbliteError;
use tchat::googlechat::pblite::{
    is_numeric, looks_like_base64, looks_like_nested_tag, pblite_to_wire, wire_to_pblite_checked,
};
use tchat::googlechat::schema::{load_schema, FieldType};
use tchat::googlechat::typed::pblite_to_wire_typed;
use tchat::googlechat::wire::{read_varint, write_tag, write_varint, WIRE_LEN};
use tchat::json::{parse, print, Json};

/// Some of the messages of the chat service.
const PROTO: &str = r#"
syntax = "proto2";

message UserId {
    optional string id = 1;
    optional UserType type = 2;
    optional string origin_app_id = 3;
    optional string acting_user_id = 4;
}

enum UserType {
    HUMAN = 0;
    BOT = 1;
}

enum AnnotationType {
    UNKNOWN = 0;
    URL = 1;
}

message UploadMetadata {
    optional string attachment_token = 1;
    optional bytes preview = 2;
}

message Annotation {
    optional AnnotationType type = 1;
    optional int32 start_index = 2;
    optional UploadMetadata upload_metadata = 10;
}

message GroupReadStateId {
    optional UserId user_id = 1;
}

message Group {
    optional string name = 4;
    optional int64 create_time = 5;
    repeated int32 levels = 6;
    repeated string tags = 7;
    optional bool hidden = 8;
    optional double weight = 9;
}

message JAddOnsFormAction {
    message ActionParameter {
        optional string key = 1;
        optional string value = 2;
    }
    optional string action_method_name = 1;
    repeated ActionParameter parameters = 2;
}

message Message {
    optional string text_body = 10;
    repeated Annotation annotations = 11;
}
"#;

fn json(text: &str) -> Json {
    parse(text).unwrap()
}

fn items(value: &Json) -> &Vec<Json> {
    match value {
        Json::Array(a) => a,
        _ => panic!("expected array"),
    }
}

/// The pblite form of bytes in which no field has the number zero.
fn wire_to_pblite(wire: &[u8]) -> Result<Json, PbliteError> {
    wire_to_pblite_checked(wire).expect("no field has the number zero")
}

/// A field of a message.
#[derive(Clone, Debug, PartialEq)]
enum Field {
    Text(u32, &'static str),
    Number(u32, u64),
    Message(u32, Vec<Field>),
}

/// The wire form of a message.
fn encode_to_vec(fields: &[Field]) -> Vec<u8> {
    let mut buf = Vec::new();
    for f in fields {
        match f {
            Field::Text(n, s) => {
                encode_key(*n, WireType::LengthDelimited, &mut buf);
                encode_varint(s.len() as u64, &mut buf);
                buf.extend_from_slice(s.as_bytes());
            }
            Field::Number(n, v) => {
                encode_key(*n, WireType::Varint, &mut buf);
                encode_varint(*v, &mut buf);
            }
            Field::Message(n, inner) => {
                let bytes = encode_to_vec(inner);
                encode_key(*n, WireType::LengthDelimited, &mut buf);
                encode_varint(bytes.len() as u64, &mut buf);
                buf.extend_from_slice(&bytes);
            }
        }
    }
    buf
}

/// The fields of a message in its wire form: their numbers, and their values as bytes.
fn decode(wire: &[u8]) -> Vec<(u32, Vec<u8>)> {
    let mut rest = wire;
    let mut out = Vec::new();
    while !rest.is_empty() {
        let (number, wire_type) = decode_key(&mut rest).unwrap();
        match wire_type {
            WireType::Varint => {
                let before = rest;
                decode_varint(&mut rest).unwrap();
                out.push((number, before[..before.len() - rest.len()].to_vec()));
            }
            WireType::LengthDelimited => {
                let n = decode_varint(&mut rest).unwrap() as usize;
                out.push((number, rest[..n].to_vec()));
                rest = &rest[n..];
            }
            _ => panic!("no such field is written here"),
        }
    }
    out
}

/// The value of the only field with a number.
fn field(wire: &[u8], number: u32) -> Option<Vec<u8>> {
    decode(wire).into_iter().find(|f| f.0 == number).map(|f| f.1)
}

fn text_field(wire: &[u8], number: u32) -> Option<String> {
    field(wire, number).map(|b| String::from_utf8(b).unwrap())
}

fn number_field(wire: &[u8], number: u32) -> Option<u64> {
    field(wire, number).map(|b| decode_varint(&mut b.as_slice()).unwrap())
}

/// A message in the wire format, turned to pblite and back.
fn there_and_back(fields: &[Field]) -> Vec<u8> {
    let wire = encode_to_vec(fields);
    let pblite_json = wire_to_pblite(&wire).unwrap();
    pblite_to_wire(&pblite_json).unwrap().to_vec()
}

fn space_id(name: &'static str) -> Vec<Field> {
    vec![Field::Text(1, name)]
}

fn group_id(name: &'static str) -> Vec<Field> {
    vec![Field::Message(1, space_id(name))]
}

fn request_header() -> Field {
    Field::Message(100, vec![Field::Number(2, 3), Field::Text(4, "en")])
}

// ─────── schema parsing tests ───────

#[test]
fn schema_parses_user_id_as_string() {
    let schema = load_schema(PROTO);
    // UserId.id = field 1 should be String
    let ft = schema.field_type("UserId", 1);
    assert!(
        matches!(ft, Some(FieldType::String)),
        "UserId.id should be String, got {:?}",
        ft
    );
}

#[test]
fn schema_parses_annotation_type_as_enum() {
    let schema = load_schema(PROTO);
    // Annotation.type = field 1 (AnnotationType enum)
    let ft = schema.field_type("Annotation", 1);
    assert!(
        matches!(ft, Some(FieldType::Enum)),
        "Annotation.type should be Enum, got {:?}",
        ft
    );
}

#[test]
fn schema_parses_group_read_state_id() {
    let schema = load_schema(PROTO);
    // GroupReadStateId.user_id = field 1 (UserId message)
    let ft = schema.field_type("GroupReadStateId", 1);
    assert!(
        matches!(ft, Some(FieldType::Message(_))),
        "GroupReadStateId.user_id should be Message, got {:?}",
        ft
    );
}

#[test]
fn schema_parses_group_create_time_as_varint() {
    let schema = load_schema(PROTO);
    // Group.create_time = field 5 (int64)
    let ft = schema.field_type("Group", 5);
    assert!(
        matches!(ft, Some(FieldType::Varint)),
        "Group.create_time should be Varint, got {:?}",
        ft
    );
}

#[test]
fn schema_parses_nested_message_path() {
    let schema = load_schema(PROTO);
    // JAddOnsFormAction.ActionParameter is a nested message
    // Check its fields are registered under the full path
    let ft = schema.field_type("JAddOnsFormAction.ActionParameter", 1);
    assert!(
        matches!(ft, Some(FieldType::String)),
        "ActionParameter.key should be String, got {:?}",
        ft
    );
}

#[test]
fn schema_parses_upload_metadata() {
    let schema = load_schema(PROTO);
    // UploadMetadata.attachment_token = field 1 (string)
    let ft = schema.field_type("UploadMetadata", 1);
    assert!(
        matches!(ft, Some(FieldType::String)),
        "UploadMetadata.attachment_token should be String, got {:?}",
        ft
    );
}

#[test]
fn schema_parses_annotation_upload_metadata() {
    let schema = load_schema(PROTO);
    // Annotation.upload_metadata = field 10 (UploadMetadata)
    let ft = schema.field_type("Annotation", 10);
    assert!(
        matches!(ft, Some(FieldType::Message(name)) if name == "UploadMetadata"),
        "Annotation.upload_metadata should be Message(UploadMetadata), got {:?}",
        ft
    );
}

#[test]
fn schema_parses_message_annotations_as_repeated() {
    let schema = load_schema(PROTO);
    // Message.annotations = field 11 (repeated Annotation)
    let ft = schema.field_type("Message", 11);
    assert!(
        matches!(ft, Some(FieldType::RepeatedMessage(name)) if name == "Annotation"),
        "Message.annotations should be RepeatedMessage(Annotation), got {:?}",
        ft
    );
}

// ─────── pblite_to_wire tests ───────

#[test]
fn encode_string_field() {
    // Field 1 = "hello"
    let pblite = json(r#"["hello"]"#);
    let wire = pblite_to_wire(&pblite).unwrap();
    // Tag: field 1, wire type 2 (LEN) = (1 << 3) | 2 = 0x0A
    // Length: 5
    // Content: "hello"
    assert_eq!(&wire[0..1], &[0x0A]);
    assert_eq!(&wire[1..2], &[5]);
    assert_eq!(&wire[2..], b"hello");
}

#[test]
fn encode_varint_field() {
    // Field 2 = 42
    let pblite = json(r#"[null, 42]"#);
    let wire = pblite_to_wire(&pblite).unwrap();
    // Tag: field 2, wire type 0 (VARINT) = (2 << 3) | 0 = 0x10
    // Value: 42
    assert_eq!(&wire[..], &[0x10, 42]);
}

#[test]
fn encode_bool_field() {
    // Field 1 = true
    let pblite = json(r#"[true]"#);
    let wire = pblite_to_wire(&pblite).unwrap();
    // Tag: field 1, wire type 0 = 0x08
    // Value: 1
    assert_eq!(&wire[..], &[0x08, 1]);
}

#[test]
fn encode_nested_message() {
    // Field 1 = nested message with field 1 = "inner"
    let pblite = json(r#"[["inner"]]"#);
    let wire = pblite_to_wire(&pblite).unwrap();

    // Outer: tag field 1, LEN = 0x0A, length = 7
    assert_eq!(wire[0], 0x0A);
    // Inner message bytes: tag 0x0A, len 5, "inner"
    let inner_len = wire[1] as usize;
    let inner = &wire[2..2 + inner_len];
    assert_eq!(inner[0], 0x0A); // inner field 1, LEN
    assert_eq!(inner[1], 5); // length "inner"
    assert_eq!(&inner[2..], b"inner");
}

#[test]
fn encode_array_of_scalars_as_nested_message() {
    // Without schema info, [1, 2, 3] at field 1 is treated as a nested
    // message with field 1=1, field 2=2, field 3=3 (NOT as repeated int).
    // This is correct for the vast majority of Google Chat fields.
    // Repeated scalar fields would need schema-aware encoding.
    let pblite = json(r#"[[1, 2, 3]]"#);
    let wire = pblite_to_wire(&pblite).unwrap();

    // Should be: field 1, LEN, <nested message with 3 varint fields>
    assert_eq!(wire[0], 0x0A); // tag: field 1, wire type LEN
                               // The nested message contains: field 1=1, field 2=2, field 3=3
    let inner_len = wire[1] as usize;
    let inner = &wire[2..2 + inner_len];
    assert_eq!(inner, &[0x08, 1, 0x10, 2, 0x18, 3]);
}

#[test]
fn encode_skips_null_fields() {
    // Field 1 absent, field 2 = "present"
    let pblite = json(r#"[null, "present"]"#);
    let wire = pblite_to_wire(&pblite).unwrap();
    // Only field 2 should be encoded
    assert_eq!(wire[0], 0x12); // (2 << 3) | 2 = 18 = 0x12
}

#[test]
fn encode_sparse_high_field_numbers() {
    // Positional [field1="a"], sparse {100: "b"}
    let pblite = json(r#"["a", {"100": "b"}]"#);
    let wire = pblite_to_wire(&pblite).unwrap();

    // Should contain both field 1 and field 100
    // Field 1: tag 0x0A, len 1, 'a'
    assert_eq!(&wire[0..3], &[0x0A, 1, b'a']);

    // Field 100: tag = (100 << 3) | 2 = 802
    // 802 as varint = 0xA2 0x06
    let rest = &wire[3..];
    assert_eq!(rest[0], 0xA2);
    assert_eq!(rest[1], 0x06);
    assert_eq!(rest[2], 1); // length
    assert_eq!(rest[3], b'b');
}

#[test]
fn empty_array_produces_empty_bytes() {
    let pblite = json(r#"[]"#);
    let wire = pblite_to_wire(&pblite).unwrap();
    assert!(wire.is_empty());
}

#[test]
fn null_produces_empty_bytes() {
    let pblite = Json::Null;
    let wire = pblite_to_wire(&pblite).unwrap();
    assert!(wire.is_empty());
}

#[test]
fn malformed_json_returns_error() {
    let pblite = json(r#""not an array""#);
    assert!(pblite_to_wire(&pblite).is_err());
}

// ─────── wire_to_pblite tests ───────

#[test]
fn roundtrip_simple_string() {
    let original = json(r#"["hello"]"#);
    let wire = pblite_to_wire(&original).unwrap();
    let decoded = wire_to_pblite(&wire).unwrap();

    // Decoded should have field 1 = "hello"
    let arr = items(&decoded);
    assert_eq!(arr[0], json(r#""hello""#));
}

#[test]
fn roundtrip_varint() {
    let original = json(r#"[null, 42]"#);
    let wire = pblite_to_wire(&original).unwrap();
    let decoded = wire_to_pblite(&wire).unwrap();

    let arr = items(&decoded);
    assert_eq!(arr[0], Json::Null); // field 1 absent
    assert_eq!(arr[1], json("42")); // field 2 = 42
}

#[test]
fn roundtrip_bool() {
    let original = json(r#"[true]"#);
    let wire = pblite_to_wire(&original).unwrap();
    let decoded = wire_to_pblite(&wire).unwrap();

    // Bool is encoded as varint 1, decoded as number 1
    let arr = items(&decoded);
    assert_eq!(arr[0], json("1")); // varint 1 — prost handles the bool interpretation
}

#[test]
fn roundtrip_mixed_message() {
    // Simulates a simple message: field 1=string, field 3=int, field 5=string
    let original = json(r#"["space_123", null, 1678886400, null, "Hello world"]"#);
    let wire = pblite_to_wire(&original).unwrap();
    let decoded = wire_to_pblite(&wire).unwrap();

    let arr = items(&decoded);
    assert_eq!(arr.len(), 5);
    assert_eq!(arr[0], json(r#""space_123""#));
    assert!(arr[1].is_null());
    assert_eq!(arr[2], json("1678886400"));
    assert!(arr[3].is_null());
    assert_eq!(arr[4], json(r#""Hello world""#));
}

#[test]
fn roundtrip_large_varint() {
    // Large timestamp-like value
    let original = json(r#"[1678886400000000]"#);
    let wire = pblite_to_wire(&original).unwrap();
    let decoded = wire_to_pblite(&wire).unwrap();

    let arr = items(&decoded);
    assert_eq!(arr[0], json("1678886400000000"));
}

// ─────── varint edge cases ───────

#[test]
fn varint_roundtrip_zero() {
    let mut buf = BytesMut::new();
    write_varint(&mut buf, 0);
    let (val, rest) = read_varint(&buf).unwrap();
    assert_eq!(val, 0);
    assert!(rest.is_empty());
}

#[test]
fn varint_roundtrip_max() {
    let mut buf = BytesMut::new();
    write_varint(&mut buf, u64::MAX);
    let (val, rest) = read_varint(&buf).unwrap();
    assert_eq!(val, u64::MAX);
    assert!(rest.is_empty());
}

#[test]
fn varint_roundtrip_boundary() {
    // Test at byte boundaries: 127, 128, 16383, 16384
    for v in [127_u64, 128, 16383, 16384, 2097151, 2097152] {
        let mut buf = BytesMut::new();
        write_varint(&mut buf, v);
        let (decoded, _) = read_varint(&buf).unwrap();
        assert_eq!(decoded, v, "failed for value {v}");
    }
}

#[test]
fn read_varint_empty_data() {
    assert!(read_varint(&[]).is_err());
}

// ─────── Negative i64 varint ───────

#[test]
fn varint_negative_i64_roundtrip() {
    let mut buf = BytesMut::new();
    let neg: i64 = -1;
    write_varint(&mut buf, neg as u64);
    let (val, rest) = read_varint(&buf).unwrap();
    assert_eq!(val as i64, -1);
    assert!(rest.is_empty());
}

// ─────── Large sparse positional array with gaps ───────

#[test]
fn encode_sparse_positional_array_with_gaps() {
    // Field 10 = "field_10", fields 1-9 are null
    let pblite = json(r#"[null, null, null, null, null, null, null, null, null, "field_10"]"#);
    let wire = pblite_to_wire(&pblite).unwrap();
    let decoded = wire_to_pblite(&wire).unwrap();
    let arr = items(&decoded);
    assert_eq!(arr.len(), 10);
    for (i, item) in arr.iter().take(9).enumerate() {
        assert!(item.is_null(), "expected null at index {i}");
    }
    assert_eq!(arr[9], json(r#""field_10""#));
}

// ─────── wire_to_pblite with repeated fields ───────

#[test]
fn wire_to_pblite_groups_repeated_fields() {
    // Manually encode field 1 twice as length-delimited strings
    let mut buf = BytesMut::new();
    // Field 1, wire type LEN = 0x0A
    write_tag(&mut buf, 1, WIRE_LEN);
    write_varint(&mut buf, 5);
    buf.put_slice(b"hello");
    write_tag(&mut buf, 1, WIRE_LEN);
    write_varint(&mut buf, 5);
    buf.put_slice(b"world");

    let pblite = wire_to_pblite(&buf).unwrap();
    let arr = items(&pblite);
    // Field 1 should be an array of two values
    assert!(arr[0].is_array(), "expected array for repeated field");
    let repeated = items(&arr[0]);
    assert_eq!(repeated.len(), 2);
    assert_eq!(repeated[0], json(r#""hello""#));
    assert_eq!(repeated[1], json(r#""world""#));
}


// ─────── messages there and back ───────

#[test]
fn message_id_string_not_mistaken_for_nested() {
    // "hby1pSB_00Y" starts with a byte that could begin a message.
    let msg_id = [
        Field::Message(
            1,
            vec![Field::Message(
                4,
                vec![
                    Field::Text(2, "hby1pSB_00Y"),
                    Field::Message(3, group_id("AAAAPptFat4")),
                ],
            )],
        ),
        Field::Text(2, "hby1pSB_00Y"),
    ];
    let wire = encode_to_vec(&msg_id);
    let pblite_json = wire_to_pblite(&wire).unwrap();

    let arr = items(&pblite_json);
    assert!(
        matches!(&arr[1], Json::Text(s) if s == "hby1pSB_00Y"),
        "message_id should be string \"hby1pSB_00Y\", got {:?}",
        arr[1]
    );

    let wire_back = pblite_to_wire(&pblite_json).unwrap();
    assert_eq!(text_field(&wire_back, 2), Some("hby1pSB_00Y".into()));
}

#[test]
fn nested_msg_with_printable_tag_byte() {
    // The first byte of the message is a quotation mark.
    let parent = [Field::Message(4, vec![Field::Message(3, group_id("AAAAPptFat4"))])];
    let wire_back = there_and_back(&parent);
    let topic = field(&wire_back, 4).expect("topic_id should exist");
    let gid = field(&topic, 3).expect("group_id should exist");
    let sid = field(&gid, 1).expect("space_id should exist");
    assert_eq!(text_field(&sid, 1), Some("AAAAPptFat4".into()));
}

#[test]
fn prost_roundtrip_user_id() {
    let original = [
        Field::Text(1, "114193829005257704130"),
        Field::Number(2, 0),
        Field::Text(4, "actor_xyz_99"),
    ];
    let decoded = there_and_back(&original);
    assert!(field(&decoded, 1).is_some());
    assert_eq!(number_field(&decoded, 2), Some(0));
    assert_eq!(field(&decoded, 3), None);
    assert_eq!(text_field(&decoded, 4), Some("actor_xyz_99".into()));
}

#[test]
fn prost_decode_from_pblite_user_id() {
    let pblite_json = json(r#"["user_abc", 1, null, "actor_xyz"]"#);
    let wire = pblite_to_wire(&pblite_json).unwrap();
    assert_eq!(text_field(&wire, 1), Some("user_abc".into()));
    assert_eq!(number_field(&wire, 2), Some(1)); // BOT
    assert_eq!(text_field(&wire, 4), Some("actor_xyz".into()));
}

#[test]
fn prost_roundtrip_space_id() {
    let decoded = there_and_back(&space_id("spaces/abc123"));
    assert_eq!(text_field(&decoded, 1), Some("spaces/abc123".into()));
}

#[test]
fn prost_roundtrip_request_header_field_100() {
    let original = [
        Field::Number(2, 1),
        Field::Message(3, vec![Field::Message(1, group_id("spaces/abc"))]),
        request_header(),
    ];
    let decoded = there_and_back(&original);
    assert_eq!(number_field(&decoded, 2), Some(1));
    let header = field(&decoded, 100).unwrap();
    assert_eq!(number_field(&header, 2), Some(3));
    assert_eq!(text_field(&header, 4), Some("en".into()));
    let ctx = field(&decoded, 3).unwrap();
    let gid = field(&ctx, 1).unwrap();
    assert_eq!(text_field(&field(&gid, 1).unwrap(), 1), Some("spaces/abc".into()));
}

#[test]
fn prost_roundtrip_catch_up_group_request() {
    let original = [
        Field::Message(1, group_id("spaces/test123")),
        Field::Message(2, vec![Field::Number(1, 1000000), Field::Number(2, 9999999)]),
        Field::Number(3, 50),
        request_header(),
    ];
    let decoded = there_and_back(&original);
    assert_eq!(number_field(&decoded, 3), Some(50));
    let gid = field(&decoded, 1).unwrap();
    assert_eq!(text_field(&field(&gid, 1).unwrap(), 1), Some("spaces/test123".into()));
    let range = field(&decoded, 2).unwrap();
    assert_eq!(number_field(&range, 1), Some(1000000));
    assert_eq!(number_field(&range, 2), Some(9999999));
    let header = field(&decoded, 100).unwrap();
    assert_eq!(number_field(&header, 2), Some(3));
}

#[test]
fn prost_roundtrip_paginated_world_with_items() {
    let item = |space: &'static str, at: u64, name: &'static str| {
        Field::Message(
            4,
            vec![
                Field::Message(1, group_id(space)),
                Field::Number(3, at),
                Field::Text(5, name),
            ],
        )
    };
    let original = [
        Field::Text(2, "token_abc"),
        item("spaces/aaa", 1000, "Room A"),
        item("spaces/bbb", 2000, "Room B"),
    ];
    let decoded = there_and_back(&original);
    assert_eq!(text_field(&decoded, 2), Some("token_abc".into()));
    let world_items: Vec<Vec<u8>> = decode(&decoded)
        .into_iter()
        .filter(|f| f.0 == 4)
        .map(|f| f.1)
        .collect();
    assert_eq!(world_items.len(), 2);
    assert_eq!(text_field(&world_items[0], 5), Some("Room A".into()));
    assert_eq!(text_field(&world_items[1], 5), Some("Room B".into()));
    assert_eq!(number_field(&world_items[0], 3), Some(1000));
}

#[test]
fn prost_roundtrip_create_message_request() {
    let original = [
        Field::Message(
            1,
            vec![Field::Message(
                4,
                vec![
                    Field::Text(2, "topic_123"),
                    Field::Message(3, group_id("spaces/room1")),
                ],
            )],
        ),
        Field::Text(2, "Hello world!"),
        Field::Text(5, "local_1"),
        request_header(),
    ];
    let decoded = there_and_back(&original);
    assert_eq!(text_field(&decoded, 2), Some("Hello world!".into()));
    assert_eq!(text_field(&decoded, 5), Some("local_1".into()));
    let parent = field(&decoded, 1).unwrap();
    let topic = field(&parent, 4).unwrap();
    assert_eq!(text_field(&topic, 2), Some("topic_123".into()));
    let header = field(&decoded, 100).unwrap();
    assert_eq!(number_field(&header, 2), Some(3));
}

// ── there and back ──

/// The message after a turn through the wire format.
fn turned(text: &str) -> String {
    let wire = pblite_to_wire(&parse(text).unwrap()).unwrap();
    print(&wire_to_pblite_checked(&wire).unwrap().unwrap())
}

#[test]
fn messages_come_back_unchanged() {
    for text in [
        "[]",
        "[1]",
        r#"["hello",null,5]"#,
        r#"[null,[null,"inner text that is long enough",7],"x y"]"#,
        r#"[[[1,2],[3,4]],9]"#,
        r#"[[[[5]]]]"#,
        r#"["/+8="]"#,
    ] {
        assert_eq!(turned(text), text);
    }
}

#[test]
fn values_come_back_as_the_wire_has_them() {
    assert_eq!(turned("[true,false]"), "[1,0]");
    assert_eq!(turned("[-1]"), "[18446744073709551615]");
    assert_eq!(turned(r#"["12"]"#), "[12]");
    assert_eq!(turned("[1,null,[],[null]]"), "[1]");
    assert_eq!(turned(r#"[1,{"4":"x"}]"#), r#"[1,null,null,"x"]"#);
    assert_eq!(turned(r#"[1,{"12":[2,3],"5":6}]"#), "[1,null,null,null,6,null,null,null,null,null,null,[2,3]]");
}

#[test]
fn a_message_that_looks_like_text_comes_back_as_text() {
    // A field with the number one and thirty-two characters.
    let inner = "ab, ".repeat(8);
    let text = format!(r#"[["{inner}"]]"#);
    assert_eq!(turned(&text), format!(r#"["\n {inner}"]"#));
}

#[test]
fn a_schema_that_declares_nothing_guesses() {
    let schema = load_schema("");
    for text in [r#"["hello",null,5]"#, r#"[["12",[1]],{"9":true}]"#] {
        let j = parse(text).unwrap();
        assert_eq!(
            pblite_to_wire_typed(&j, &schema, "UserId").unwrap(),
            pblite_to_wire(&j).unwrap()
        );
    }
}

#[test]
fn a_declared_text_stays_a_text() {
    let schema = load_schema(PROTO);
    let wire = pblite_to_wire_typed(&parse(r#"["123"]"#).unwrap(), &schema, "UserId").unwrap();
    assert_eq!(print(&wire_to_pblite_checked(&wire).unwrap().unwrap()), r#"["123"]"#);
}

#[test]
fn faults_of_the_codec() {
    let fault = |text: &str| pblite_to_wire(&parse(text).unwrap()).unwrap_err();
    assert!(matches!(fault("7"), PbliteError::ExpectedArray));
    assert!(matches!(fault("[1.5]"), PbliteError::UnexpectedType { .. }));
    assert!(matches!(fault(r#"[{"x":1}]"#), PbliteError::InvalidFieldKey(_)));
    let unread = |wire: &[u8]| wire_to_pblite_checked(wire).unwrap().unwrap_err();
    assert!(matches!(unread(&[0x80]), PbliteError::VarintOverflow));
    assert!(matches!(unread(&[0x0b]), PbliteError::UnsupportedWireType(3)));
    assert!(matches!(unread(&[0x0a, 5, 1]), PbliteError::UnexpectedType { .. }));
    assert!(wire_to_pblite_checked(&[0x00, 1]).is_none());
}

#[test]
fn kinds_are_guessed_from_their_looks() {
    for s in ["0", "12", "-7"] {
        assert!(is_numeric(s));
    }
    for s in ["", "-", "1.5", "+1", "12a"] {
        assert!(!is_numeric(s));
    }
    assert!(looks_like_base64("/+8="));
    assert!(looks_like_base64("AAAAAAAAAAAAAAAAAAAAAAAA"));
    assert!(!looks_like_base64("AAAA"));
    assert!(!looks_like_base64("not base64 ="));
    // Field one as an integer, as a run of bytes, as four bytes, as eight bytes, as a
    // group, field zero, and nothing.
    assert!(looks_like_nested_tag(&[0x08]));
    assert!(looks_like_nested_tag(&[0x0a]));
    assert!(looks_like_nested_tag(&[0x0d]));
    assert!(!looks_like_nested_tag(&[0x09]));
    assert!(!looks_like_nested_tag(&[0x0b]));
    assert!(!looks_like_nested_tag(&[0x02]));
    assert!(!looks_like_nested_tag(&[]));
}

#[test]
fn a_message_inside_has_small_field_numbers() {
    // Field one holds a message whose field 999, then 1000, is five.
    match wire_to_pblite(&[0x0a, 3, 0xb8, 0x3e, 5]).unwrap() {
        Json::Array(outer) => match &outer[0] {
            Json::Array(inner) => assert_eq!(inner.len(), 999),
            other => panic!("unexpected: {other:?}"),
        },
        other => panic!("unexpected: {other:?}"),
    }
    match wire_to_pblite(&[0x0a, 3, 0xc0, 0x3e, 5]).unwrap() {
        Json::Array(outer) => assert!(matches!(&outer[0], Json::Text(_))),
        other => panic!("unexpected: {other:?}"),
    }
    // Eight bytes are no beginning of a message inside.
    match wire_to_pblite(&[0x0a, 9, 0x09, 1, 0, 0, 0, 0, 0, 0, 0xff]).unwrap() {
        Json::Array(outer) => assert!(matches!(&outer[0], Json::Text(_))),
        other => panic!("unexpected: {other:?}"),
    }
}

#[test]
fn fields_have_their_numbers_by_name() {
    let schema = load_schema(PROTO);
    assert_eq!(schema.number_of("UserId", "origin_app_id"), Some(3));
    assert_eq!(schema.number_of("UploadMetadata", "preview"), Some(2));
    assert_eq!(schema.number_of("UserId", "no_such"), None);
    assert_eq!(schema.number_of("NoSuch", "id"), None);
    // A value of an enum is no field.
    assert_eq!(schema.number_of("UserType", "BOT"), None);
    let inner = load_schema(
        "message A {\n  message B {\n    required int32 x = 7;\n  }\n  repeated B b = 2; // two\n}\n",
    );
    assert_eq!(inner.number_of("A.B", "x"), Some(7));
    assert_eq!(inner.number_of("B", "x"), None);
    assert_eq!(inner.number_of("A", "b"), Some(2));
    // What has a number by its name has a type by its number.
    assert_eq!(inner.field_type("A.B", 7), Some(&FieldType::Varint));
    assert_eq!(inner.field_type("A", 2), Some(&FieldType::RepeatedMessage("A.B".to_owned())));
}

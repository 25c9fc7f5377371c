//! Messages on the wire.
use apache_avro::types::Value;
use warehouse::avro::{is_writable, AvroValue};
use warehouse::events::decode_avro_event;
use warehouse::payload::EventPayload;
use warehouse::producer::{
    publish_avro_v1, publish_avro_v2, publish_event, AvroV1Request, AvroV2Request, PublishRequest,
};
use warehouse::json::Json;
use warehouse::time::Timestamp;
use warehouse::wire::{body_of, confluent_encode, schema_id_of};

const V1_SCHEMA_STR: &str = r#"{
        "type": "record", "name": "ProductReceived", "namespace": "warehouse",
        "fields": [
            {"name": "event_id",   "type": "string"},
            {"name": "event_type", "type": "string"},
            {"name": "timestamp",  "type": "string"},
            {"name": "product_id", "type": "string"},
            {"name": "zone_id",    "type": "string"},
            {"name": "quantity",   "type": "long"}
        ]
    }"#;

const V2_SCHEMA_STR: &str = r#"{
        "type": "record", "name": "ProductReceived", "namespace": "warehouse",
        "fields": [
            {"name": "event_id",    "type": "string"},
            {"name": "event_type",  "type": "string"},
            {"name": "timestamp",   "type": "string"},
            {"name": "product_id",  "type": "string"},
            {"name": "zone_id",     "type": "string"},
            {"name": "quantity",    "type": "long"},
            {"name": "supplier_id", "type": ["null", "string"], "default": null}
        ]
    }"#;

fn text(s: &str) -> AvroValue {
    AvroValue::String(s.to_string())
}

fn sample_record(event_id: &str) -> AvroValue {
    AvroValue::Record(vec![
        ("event_id".to_string(), text(event_id)),
        ("event_type".to_string(), text("PRODUCT_RECEIVED")),
        ("timestamp".to_string(), text("2024-01-01T00:00:00Z")),
        ("product_id".to_string(), text("P1")),
        ("zone_id".to_string(), text("Z1")),
        ("quantity".to_string(), AvroValue::Long(1)),
    ])
}

fn sample_value(event_id: &str) -> Value {
    Value::Record(vec![
        ("event_id".to_string(), Value::String(event_id.to_string())),
        ("event_type".to_string(), Value::String("PRODUCT_RECEIVED".to_string())),
        ("timestamp".to_string(), Value::String("2024-01-01T00:00:00Z".to_string())),
        ("product_id".to_string(), Value::String("P1".to_string())),
        ("zone_id".to_string(), Value::String("Z1".to_string())),
        ("quantity".to_string(), Value::Long(1)),
    ])
}

#[test]
fn confluent_encode_magic_byte_is_zero() {
    let schema = apache_avro::Schema::parse_str(V1_SCHEMA_STR).unwrap();
    let bytes = confluent_encode(1, &schema, &sample_record("e1")).unwrap();
    assert_eq!(bytes[0], 0x00);
}

#[test]
fn confluent_encode_schema_id_big_endian() {
    let schema_id: u32 = 0x0102_0304;
    let schema = apache_avro::Schema::parse_str(V1_SCHEMA_STR).unwrap();
    let bytes = confluent_encode(schema_id, &schema, &sample_record("e2")).unwrap();
    assert_eq!(u32::from_be_bytes([bytes[1], bytes[2], bytes[3], bytes[4]]), schema_id);
}

#[test]
fn confluent_encode_payload_appended_after_header() {
    let schema = apache_avro::Schema::parse_str(V1_SCHEMA_STR).unwrap();
    let avro_only = apache_avro::to_avro_datum(&schema, sample_value("e3")).unwrap();
    let framed = confluent_encode(1, &schema, &sample_record("e3")).unwrap();
    assert_eq!(framed.len(), 5 + avro_only.len());
    assert_eq!(&framed[5..], avro_only.as_slice());
}

#[test]
fn confluent_encode_wrong_value_type_returns_error() {
    let schema = apache_avro::Schema::parse_str(V1_SCHEMA_STR).unwrap();
    let result = confluent_encode(1, &schema, &text("not-a-record"));
    assert!(result.is_err());
}

#[test]
fn confluent_encode_header_always_five_bytes() {
    let schema = apache_avro::Schema::parse_str(V1_SCHEMA_STR).unwrap();
    let bytes = confluent_encode(0, &schema, &sample_record("e4")).unwrap();
    assert!(bytes.len() >= 5);
    assert_eq!(&bytes[1..5], &[0, 0, 0, 0]);
}

#[test]
fn framed_message_reads_back() {
    let schema = apache_avro::Schema::parse_str(V1_SCHEMA_STR).unwrap();
    let message = confluent_encode(0xFFEE_DDCC, &schema, &sample_record("e5")).unwrap();
    assert_eq!(schema_id_of(&message), Some(0xFFEE_DDCC));
    assert_eq!(body_of(&message), &message[5..]);
    let event = decode_avro_event(body_of(&message), &schema).unwrap();
    assert_eq!(event.event_id, "e5");
}

#[test]
fn short_and_other_messages_have_no_schema() {
    assert_eq!(schema_id_of(&[]), None);
    assert_eq!(schema_id_of(&[0, 0, 0, 0, 1]), None);
    assert_eq!(schema_id_of(&[1, 0, 0, 0, 1, 9]), None);
    assert_eq!(schema_id_of(&[0, 0, 0, 1, 0, 9]), Some(256));
    assert_eq!(body_of(&[0, 0, 0, 1, 0, 9]), &[9]);
}

#[test]
fn records_can_be_held_against_most_schemas() {
    assert!(is_writable(&apache_avro::Schema::parse_str(V1_SCHEMA_STR).unwrap()));
    assert!(is_writable(&apache_avro::Schema::parse_str(V2_SCHEMA_STR).unwrap()));
    for text in [
        "\"long\"",
        r#"{"type": "array", "items": "long"}"#,
        r#"["null", "string"]"#,
        r#"{"type": "record", "name": "R", "fields": [
            {"name": "a", "type": {"type": "array", "items": "long"}},
            {"name": "b", "type": "boolean"},
            {"name": "c", "type": {"type": "record", "name": "S", "fields": []}},
            {"name": "d", "type": ["null", "R"], "aliases": ["e"]}]}"#,
    ] {
        let schema = apache_avro::Schema::parse_str(text).unwrap();
        assert!(is_writable(&schema));
        assert!(confluent_encode(1, &schema, &sample_record("e")).is_err());
    }
    for text in [
        r#"["null", {"type": "record", "name": "R", "fields": []}]"#,
        r#"{"type": "record", "name": "R", "fields": [
            {"name": "a", "type": "long"}, {"name": "b", "type": "string", "aliases": ["a"]}]}"#,
    ] {
        assert!(!is_writable(&apache_avro::Schema::parse_str(text).unwrap()));
    }
}

#[test]
fn records_cannot_be_held_against_broken_tables() {
    let broken = |lookup: Vec<(&str, usize)>| {
        let mut schema = apache_avro::Schema::parse_str(V1_SCHEMA_STR).unwrap();
        if let apache_avro::Schema::Record(r) = &mut schema {
            r.lookup = lookup.into_iter().map(|(k, i)| (k.to_string(), i)).collect();
        }
        schema
    };
    let empty = broken(vec![]);
    assert!(is_writable(&empty));
    assert!(confluent_encode(1, &empty, &sample_record("e")).is_err());
    assert!(!is_writable(&broken(vec![("event_id", 6)])));
    assert!(!is_writable(&broken(vec![("event_id", 1)])));
    let lost = apache_avro::Schema::Ref { name: apache_avro::schema::Name::new("Lost").unwrap() };
    assert!(!is_writable(&apache_avro::Schema::array(lost)));
}

#[test]
fn record_with_a_nested_record_is_written() {
    let schema = apache_avro::Schema::parse_str(
        r#"{"type": "record", "name": "R", "fields": [
            {"name": "a", "type": {"type": "record", "name": "S", "fields": [
                {"name": "b", "type": ["long", "string"]}]}}]}"#,
    )
    .unwrap();
    let value = AvroValue::Record(vec![(
        "a".to_string(),
        AvroValue::Record(vec![("b".to_string(), AvroValue::Union(1, Box::new(text("x"))))]),
    )]);
    assert_eq!(confluent_encode(7, &schema, &value).unwrap(), [0, 0, 0, 0, 7, 2, 2, b'x']);
}

#[test]
fn event_of_any_type_comes_out_as_written() {
    let schema = apache_avro::Schema::parse_str(V2_SCHEMA_STR).unwrap();
    let value = AvroValue::Record(vec![
        ("event_id".to_string(), text("e")),
        ("event_type".to_string(), text("ANYTHING")),
        ("timestamp".to_string(), text("2024-01-01T00:00:00Z")),
        ("product_id".to_string(), text("P")),
        ("zone_id".to_string(), text("Z")),
        ("quantity".to_string(), AvroValue::Long(-1)),
        ("supplier_id".to_string(), AvroValue::Union(1, Box::new(text("S")))),
    ]);
    let message = confluent_encode(3, &schema, &value).unwrap();
    let event = decode_avro_event(&message[5..], &schema).unwrap();
    assert_eq!(event.event_type, "ANYTHING");
    assert_eq!(event.timestamp, Timestamp { secs: 1_704_067_200, nanos: 0 });
    assert_eq!(
        event.payload,
        Json::Object(vec![
            ("product_id".to_string(), Json::String("P".to_string())),
            ("quantity".to_string(), Json::Integer(-1)),
            ("supplier_id".to_string(), Json::String("S".to_string())),
            ("zone_id".to_string(), Json::String("Z".to_string())),
        ])
    );
}

const NOON: Timestamp = Timestamp { secs: 1_704_110_400, nanos: 5_000_000 };

#[test]
fn v1_event_is_received_as_published() {
    let schema = apache_avro::Schema::parse_str(V1_SCHEMA_STR).unwrap();
    let req = AvroV1Request {
        product_id: "Pé".to_string(),
        zone_id: "Z".to_string(),
        quantity: -4,
    };
    let message = publish_avro_v1(Some(9), &schema, "id-1", NOON, req).unwrap();
    assert_eq!(schema_id_of(&message), Some(9));
    let event = decode_avro_event(body_of(&message), &schema).unwrap();
    assert_eq!(event.event_id, "id-1");
    assert_eq!(event.event_type, "PRODUCT_RECEIVED");
    assert_eq!(event.timestamp, NOON);
    match event.parse_payload().unwrap() {
        EventPayload::ProductReceived(p) => {
            assert_eq!(p.product_id, "Pé");
            assert_eq!(p.zone_id, "Z");
            assert_eq!(p.quantity, -4);
            assert!(p.supplier_id.is_none());
        }
        _ => panic!("wrong variant"),
    }
}

#[test]
fn v2_event_is_received_as_published() {
    let schema = apache_avro::Schema::parse_str(V2_SCHEMA_STR).unwrap();
    for supplier in [None, Some("SUP".to_string())] {
        let req = AvroV2Request {
            product_id: "P".to_string(),
            zone_id: "Z".to_string(),
            quantity: 12,
            supplier_id: supplier.clone(),
        };
        let message = publish_avro_v2(Some(2), &schema, "id-2", NOON, req).unwrap();
        let event = decode_avro_event(body_of(&message), &schema).unwrap();
        match event.parse_payload().unwrap() {
            EventPayload::ProductReceived(p) => {
                assert_eq!(p.quantity, 12);
                assert_eq!(p.supplier_id, supplier);
            }
            _ => panic!("wrong variant"),
        }
    }
}

#[test]
fn avro_is_not_published_without_registered_schema() {
    let schema = apache_avro::Schema::parse_str(V1_SCHEMA_STR).unwrap();
    let req = AvroV1Request { product_id: "P".to_string(), zone_id: "Z".to_string(), quantity: 1 };
    let error = publish_avro_v1(None, &schema, "id", NOON, req).unwrap_err();
    assert_eq!(error.status, 503);
    assert_eq!(error.error, "schema registry unavailable");
}

#[test]
fn avro_is_not_published_by_another_schema() {
    let schema = apache_avro::Schema::parse_str(
        r#"{"type": "record", "name": "R", "fields": [{"name": "a", "type": "long"}]}"#,
    )
    .unwrap();
    let req = AvroV2Request {
        product_id: "P".to_string(),
        zone_id: "Z".to_string(),
        quantity: 1,
        supplier_id: None,
    };
    let error = publish_avro_v2(Some(1), &schema, "id", NOON, req).unwrap_err();
    assert_eq!(error.status, 500);
    let nested = apache_avro::Schema::parse_str(
        r#"{"type": "record", "name": "R", "fields": [
            {"name": "a", "type": {"type": "map", "values": "long"}}]}"#,
    )
    .unwrap();
    let req = AvroV1Request { product_id: "P".to_string(), zone_id: "Z".to_string(), quantity: 1 };
    let error = publish_avro_v1(Some(1), &nested, "id", NOON, req).unwrap_err();
    assert_eq!(error.status, 500);
    assert_eq!(error.error, "Value does not match schema");
    let richer = apache_avro::Schema::parse_str(V2_SCHEMA_STR).unwrap();
    let req = AvroV1Request { product_id: "P".to_string(), zone_id: "Z".to_string(), quantity: 1 };
    let error = publish_avro_v1(Some(1), &richer, "id", NOON, req).unwrap_err();
    assert_eq!(error.status, 500);
    assert!(error.error.contains("supplier_id"));
}

#[test]
fn published_event_is_compact_json() {
    let req = PublishRequest {
        event_type: "PRODUCT_SHIPPED".to_string(),
        payload: Json::Object(vec![
            ("zone_id".to_string(), Json::String("Z \"1\"".to_string())),
            ("quantity".to_string(), Json::Integer(3)),
            ("weight".to_string(), Json::Float("0.1".to_string())),
            ("tags".to_string(), Json::Array(vec![Json::Null, Json::Bool(true)])),
        ]),
    };
    assert_eq!(
        publish_event("id-3", NOON, req),
        "{\"event_id\":\"id-3\",\"event_type\":\"PRODUCT_SHIPPED\",\
         \"payload\":{\"quantity\":3,\"tags\":[null,true],\"weight\":0.1,\"zone_id\":\"Z \\\"1\\\"\"},\
         \"sequence_number\":null,\"timestamp\":\"2024-01-01T12:00:00.005+00:00\"}"
    );
}

//! Reading events and their payloads.
use apache_avro::types::Value;
use warehouse::avro::{is_endless, AvroField, AvroValue};
use warehouse::events::{
    decode_avro_event, event_from_avro, event_from_datum, EventError, WarehouseEvent,
};
use warehouse::json::Json;
use warehouse::payload::{EventPayload, PayloadError};
use warehouse::time::Timestamp;

fn text(s: &str) -> Json {
    Json::String(s.to_string())
}

fn object(members: Vec<(&str, Json)>) -> Json {
    Json::Object(members.into_iter().map(|(k, v)| (k.to_string(), v)).collect())
}

fn make_event(event_type: &str, payload: Json) -> WarehouseEvent {
    let now = chrono::Utc::now();
    WarehouseEvent {
        event_id: "test-id".to_string(),
        event_type: event_type.to_string(),
        timestamp: Timestamp { secs: now.timestamp(), nanos: now.timestamp_subsec_nanos() },
        sequence_number: None,
        payload,
    }
}

fn problem(event_type: &str, payload: Json) -> String {
    make_event(event_type, payload).parse_payload().unwrap_err().message()
}

#[test]
fn parse_product_received() {
    let e = make_event(
        "PRODUCT_RECEIVED",
        object(vec![
            ("product_id", text("P1")),
            ("zone_id", text("Z1")),
            ("quantity", Json::Integer(10)),
        ]),
    );
    match e.parse_payload().unwrap() {
        EventPayload::ProductReceived(p) => {
            assert_eq!(p.product_id, "P1");
            assert_eq!(p.zone_id, "Z1");
            assert_eq!(p.quantity, 10);
            assert!(p.supplier_id.is_none());
        }
        _ => panic!("wrong variant"),
    }
}

#[test]
fn parse_product_received_with_supplier() {
    let e = make_event(
        "PRODUCT_RECEIVED",
        object(vec![
            ("product_id", text("P1")),
            ("zone_id", text("Z1")),
            ("quantity", Json::Integer(5)),
            ("supplier_id", text("SUP-1")),
        ]),
    );
    match e.parse_payload().unwrap() {
        EventPayload::ProductReceived(p) => assert_eq!(p.supplier_id.as_deref(), Some("SUP-1")),
        _ => panic!("wrong variant"),
    }
}

#[test]
fn parse_product_shipped() {
    let e = make_event(
        "PRODUCT_SHIPPED",
        object(vec![
            ("product_id", text("P1")),
            ("zone_id", text("Z1")),
            ("quantity", Json::Integer(3)),
        ]),
    );
    match e.parse_payload().unwrap() {
        EventPayload::ProductShipped(p) => assert_eq!(p.quantity, 3),
        _ => panic!("wrong variant"),
    }
}

#[test]
fn parse_product_moved() {
    let e = make_event(
        "PRODUCT_MOVED",
        object(vec![
            ("product_id", text("P1")),
            ("from_zone_id", text("Z1")),
            ("to_zone_id", text("Z2")),
            ("quantity", Json::Integer(7)),
        ]),
    );
    match e.parse_payload().unwrap() {
        EventPayload::ProductMoved(p) => {
            assert_eq!(p.from_zone_id, "Z1");
            assert_eq!(p.to_zone_id, "Z2");
            assert_eq!(p.quantity, 7);
        }
        _ => panic!("wrong variant"),
    }
}

#[test]
fn parse_product_reserved() {
    let e = make_event(
        "PRODUCT_RESERVED",
        object(vec![
            ("product_id", text("P1")),
            ("zone_id", text("Z1")),
            ("quantity", Json::Integer(2)),
        ]),
    );
    match e.parse_payload().unwrap() {
        EventPayload::ProductReserved(p) => assert_eq!(p.quantity, 2),
        _ => panic!("wrong variant"),
    }
}

#[test]
fn parse_product_released() {
    let e = make_event(
        "PRODUCT_RELEASED",
        object(vec![
            ("product_id", text("P1")),
            ("zone_id", text("Z1")),
            ("quantity", Json::Integer(2)),
        ]),
    );
    match e.parse_payload().unwrap() {
        EventPayload::ProductReleased(p) => assert_eq!(p.quantity, 2),
        _ => panic!("wrong variant"),
    }
}

#[test]
fn parse_inventory_counted() {
    let e = make_event(
        "INVENTORY_COUNTED",
        object(vec![
            ("product_id", text("P1")),
            ("zone_id", text("Z1")),
            ("counted_quantity", Json::Integer(99)),
        ]),
    );
    match e.parse_payload().unwrap() {
        EventPayload::InventoryCounted(p) => assert_eq!(p.counted_quantity, 99),
        _ => panic!("wrong variant"),
    }
}

#[test]
fn parse_order_created() {
    let e = make_event(
        "ORDER_CREATED",
        object(vec![
            ("order_id", text("O1")),
            (
                "items",
                Json::Array(vec![object(vec![
                    ("product_id", text("P1")),
                    ("zone_id", text("Z1")),
                    ("quantity", Json::Integer(1)),
                ])]),
            ),
        ]),
    );
    match e.parse_payload().unwrap() {
        EventPayload::OrderCreated(p) => {
            assert_eq!(p.order_id, "O1");
            assert_eq!(p.items.len(), 1);
            assert_eq!(p.items[0].product_id, "P1");
        }
        _ => panic!("wrong variant"),
    }
}

#[test]
fn parse_order_completed() {
    let e = make_event("ORDER_COMPLETED", object(vec![("order_id", text("O1"))]));
    match e.parse_payload().unwrap() {
        EventPayload::OrderCompleted(p) => assert_eq!(p.order_id, "O1"),
        _ => panic!("wrong variant"),
    }
}

#[test]
fn parse_unknown_event_type_returns_error() {
    let e = make_event("UNKNOWN_TYPE", object(vec![]));
    assert!(e.parse_payload().is_err());
}

#[test]
fn parse_missing_required_field_returns_error() {
    let e = make_event(
        "PRODUCT_RECEIVED",
        object(vec![("zone_id", text("Z1")), ("quantity", Json::Integer(10))]),
    );
    assert!(e.parse_payload().is_err());
}

#[test]
fn unknown_event_type_is_named() {
    let e = make_event("UNKNOWN_TYPE", object(vec![]));
    let error = e.parse_payload().unwrap_err();
    assert!(matches!(error, PayloadError::UnknownEventType(_)));
    assert_eq!(error.message(), "Unknown event type: UNKNOWN_TYPE");
}

#[test]
fn payload_problems_are_told_like_this() {
    let zone = || ("zone_id", text("Z1"));
    assert_eq!(
        problem("PRODUCT_RECEIVED", object(vec![zone(), ("quantity", Json::Integer(10))])),
        "missing field `product_id`"
    );
    assert_eq!(
        problem("PRODUCT_RECEIVED", object(vec![("product_id", Json::Integer(4)), zone()])),
        "invalid type: integer `4`, expected a string"
    );
    assert_eq!(
        problem("PRODUCT_SHIPPED", object(vec![("quantity", text("a \"b\""))])),
        "invalid type: string \"a \\\"b\\\"\", expected i64"
    );
    assert_eq!(
        problem("PRODUCT_SHIPPED", object(vec![("quantity", Json::Float("1.5".to_string()))])),
        "invalid type: floating point `1.5`, expected i64"
    );
    assert_eq!(
        problem("PRODUCT_MOVED", object(vec![("quantity", Json::Integer(u64::MAX as i128))])),
        "invalid value: integer `18446744073709551615`, expected i64"
    );
    assert_eq!(
        problem("PRODUCT_RESERVED", object(vec![("order_id", Json::Bool(true))])),
        "invalid type: boolean `true`, expected a string"
    );
    assert_eq!(
        problem("ORDER_CREATED", object(vec![("items", object(vec![]))])),
        "invalid type: map, expected a sequence"
    );
    assert_eq!(
        problem("ORDER_COMPLETED", Json::Null),
        "invalid type: null, expected struct OrderCompletedPayload"
    );
    assert_eq!(
        problem("ORDER_COMPLETED", Json::Array(vec![])),
        "invalid length 0, expected struct OrderCompletedPayload with 1 element"
    );
    assert_eq!(
        problem("INVENTORY_COUNTED", Json::Array(vec![text("P")])),
        "invalid length 1, expected struct InventoryCountedPayload with 3 elements"
    );
    assert_eq!(
        problem("ORDER_COMPLETED", Json::Array(vec![text("O"), Json::Null])),
        "invalid length 2, expected fewer elements in array"
    );
    assert_eq!(
        problem(
            "ORDER_CREATED",
            object(vec![
                ("items", Json::Array(vec![object(vec![("product_id", Json::Array(vec![]))])])),
                ("order_id", text("O")),
            ])
        ),
        "invalid type: sequence, expected a string"
    );
}


#[test]
fn payload_in_an_array_is_read_by_place() {
    let e = make_event(
        "PRODUCT_MOVED",
        Json::Array(vec![text("P"), text("A"), text("B"), Json::Integer(-3)]),
    );
    match e.parse_payload().unwrap() {
        EventPayload::ProductMoved(p) => {
            assert_eq!(p.product_id, "P");
            assert_eq!(p.from_zone_id, "A");
            assert_eq!(p.to_zone_id, "B");
            assert_eq!(p.quantity, -3);
        }
        _ => panic!("wrong variant"),
    }
}

#[test]
fn null_and_unknown_members_are_passed_over() {
    let e = make_event(
        "PRODUCT_RELEASED",
        object(vec![
            ("colour", Json::Bool(false)),
            ("order_id", Json::Null),
            ("product_id", text("P")),
            ("quantity", Json::Integer(i64::MIN as i128)),
            ("zone_id", text("Z")),
        ]),
    );
    match e.parse_payload().unwrap() {
        EventPayload::ProductReleased(p) => {
            assert!(p.order_id.is_none());
            assert_eq!(p.quantity, i64::MIN);
        }
        _ => panic!("wrong variant"),
    }
}

const V1_SCHEMA_STR: &str = r#"{
        "type": "record", "name": "ProductReceived", "namespace": "warehouse",
        "fields": [
            {"name": "event_id",   "type": "string"},
            {"name": "event_type", "type": "string"},
            {"name": "timestamp",  "type": "string"},
            {"name": "product_id", "type": "string"},
            {"name": "zone_id",    "type": "string"},
            {"name": "quantity",   "type": "long"}
        ]
    }"#;

const V2_SCHEMA_STR: &str = r#"{
        "type": "record", "name": "ProductReceived", "namespace": "warehouse",
        "fields": [
            {"name": "event_id",    "type": "string"},
            {"name": "event_type",  "type": "string"},
            {"name": "timestamp",   "type": "string"},
            {"name": "product_id",  "type": "string"},
            {"name": "zone_id",     "type": "string"},
            {"name": "quantity",    "type": "long"},
            {"name": "supplier_id", "type": ["null", "string"], "default": null}
        ]
    }"#;

fn v1_avro_bytes(
    event_id: &str,
    product_id: &str,
    zone_id: &str,
    quantity: i64,
) -> (apache_avro::Schema, Vec<u8>) {
    let schema = apache_avro::Schema::parse_str(V1_SCHEMA_STR).unwrap();
    let value = Value::Record(vec![
        ("event_id".to_string(), Value::String(event_id.to_string())),
        ("event_type".to_string(), Value::String("PRODUCT_RECEIVED".to_string())),
        ("timestamp".to_string(), Value::String("2024-01-01T00:00:00Z".to_string())),
        ("product_id".to_string(), Value::String(product_id.to_string())),
        ("zone_id".to_string(), Value::String(zone_id.to_string())),
        ("quantity".to_string(), Value::Long(quantity)),
    ]);
    let bytes = apache_avro::to_avro_datum(&schema, value).unwrap();
    (schema, bytes)
}

fn v2_value(event_id: &str, product_id: &str, zone_id: &str, quantity: i64, supplier: Value) -> Value {
    Value::Record(vec![
        ("event_id".to_string(), Value::String(event_id.to_string())),
        ("event_type".to_string(), Value::String("PRODUCT_RECEIVED".to_string())),
        ("timestamp".to_string(), Value::String("2024-01-01T00:00:00Z".to_string())),
        ("product_id".to_string(), Value::String(product_id.to_string())),
        ("zone_id".to_string(), Value::String(zone_id.to_string())),
        ("quantity".to_string(), Value::Long(quantity)),
        ("supplier_id".to_string(), supplier),
    ])
}

#[test]
fn decode_avro_v1_fields_are_correct() {
    let (schema, bytes) = v1_avro_bytes("evt-1", "PROD-A", "ZONE-1", 42);
    let event = decode_avro_event(&bytes, &schema).unwrap();
    assert_eq!(event.event_id, "evt-1");
    assert_eq!(event.event_type, "PRODUCT_RECEIVED");
    match event.parse_payload().unwrap() {
        EventPayload::ProductReceived(p) => {
            assert_eq!(p.product_id, "PROD-A");
            assert_eq!(p.zone_id, "ZONE-1");
            assert_eq!(p.quantity, 42);
            assert!(p.supplier_id.is_none());
        }
        _ => panic!("wrong variant"),
    }
}

#[test]
fn decode_avro_v2_with_supplier() {
    let schema = apache_avro::Schema::parse_str(V2_SCHEMA_STR).unwrap();
    let value = v2_value(
        "evt-2",
        "PROD-B",
        "ZONE-2",
        7,
        Value::Union(1, Box::new(Value::String("SUP-X".to_string()))),
    );
    let bytes = apache_avro::to_avro_datum(&schema, value).unwrap();
    let event = decode_avro_event(&bytes, &schema).unwrap();
    match event.parse_payload().unwrap() {
        EventPayload::ProductReceived(p) => {
            assert_eq!(p.supplier_id.as_deref(), Some("SUP-X"));
        }
        _ => panic!("wrong variant"),
    }
}

#[test]
fn decode_avro_v2_with_null_supplier() {
    let schema = apache_avro::Schema::parse_str(V2_SCHEMA_STR).unwrap();
    let value = v2_value("evt-3", "PROD-C", "ZONE-3", 1, Value::Union(0, Box::new(Value::Null)));
    let bytes = apache_avro::to_avro_datum(&schema, value).unwrap();
    let event = decode_avro_event(&bytes, &schema).unwrap();
    match event.parse_payload().unwrap() {
        EventPayload::ProductReceived(p) => assert!(p.supplier_id.is_none()),
        _ => panic!("wrong variant"),
    }
}

#[test]
fn decode_avro_invalid_bytes_returns_error() {
    let schema = apache_avro::Schema::parse_str(V1_SCHEMA_STR).unwrap();
    assert!(decode_avro_event(&[0xFF, 0xFE, 0xFD], &schema).is_err());
}

#[test]
fn decode_avro_gives_time_and_payload() {
    let (schema, bytes) = v1_avro_bytes("evt-1", "PROD-A", "ZONE-1", 42);
    let event = decode_avro_event(&bytes, &schema).unwrap();
    assert_eq!(event.timestamp, Timestamp { secs: 1_704_067_200, nanos: 0 });
    assert!(event.sequence_number.is_none());
    assert_eq!(
        event.payload,
        object(vec![
            ("product_id", text("PROD-A")),
            ("quantity", Json::Integer(42)),
            ("supplier_id", Json::Null),
            ("zone_id", text("ZONE-1")),
        ])
    );
}

fn record(fields: Vec<(&str, Value)>) -> Value {
    Value::Record(fields.into_iter().map(|(k, v)| (k.to_string(), v)).collect())
}

fn avro_text(s: &str) -> Value {
    Value::String(s.to_string())
}

#[test]
fn avro_problems_are_told_like_this() {
    let tell = |v: Value| event_from_datum(Ok(v)).unwrap_err().message();
    assert_eq!(event_from_datum(Err("no".to_string())).unwrap_err().message(), "no");
    assert_eq!(tell(Value::Long(1)), "expected Avro record");
    assert_eq!(tell(record(vec![])), "field 'event_id': expected string, got None");
    assert_eq!(
        tell(record(vec![("event_id", Value::Long(-5))])),
        "field 'event_id': expected string, got Some(Long(-5))"
    );
    assert_eq!(
        tell(record(vec![("event_id", avro_text("e")), ("event_type", Value::Null)])),
        "field 'event_type': expected string, got Some(Null)"
    );
    let nested = record(vec![("a\"", Value::Int(1)), ("b", avro_text("x"))]);
    assert_eq!(
        tell(record(vec![("event_id", Value::Union(3, Box::new(nested)))])),
        "field 'event_id': expected string, got \
         Some(Union(3, Record([(\"a\\\"\", Int(1)), (\"b\", String(\"x\"))])))"
    );
    let most = |quantity: Value| {
        record(vec![
            ("event_id", avro_text("e")),
            ("event_type", avro_text("t")),
            ("timestamp", avro_text("2024-01-01T00:00:00.25Z")),
            ("product_id", avro_text("p")),
            ("zone_id", avro_text("z")),
            ("quantity", quantity),
        ])
    };
    assert_eq!(
        tell(most(Value::Double(2.5))),
        "field 'quantity': expected long, got Some(Double(2.5))"
    );
    let event = event_from_datum(Ok(most(Value::Int(8)))).unwrap();
    assert_eq!(event.timestamp, Timestamp { secs: 1_704_067_200, nanos: 250_000_000 });
    let late = record(vec![
        ("event_id", avro_text("e")),
        ("event_type", avro_text("t")),
        ("timestamp", avro_text("yesterday")),
    ]);
    let error = event_from_datum(Ok(late)).unwrap_err();
    assert!(matches!(error, EventError::Timestamp(_)));
    assert_eq!(
        error.message(),
        "invalid timestamp in avro: input contains invalid characters"
    );
}

#[test]
fn last_field_of_a_name_counts() {
    let value = record(vec![
        ("event_id", avro_text("first")),
        ("event_type", avro_text("t")),
        ("timestamp", avro_text("2024-01-01T01:00:00+01:00")),
        ("product_id", avro_text("p")),
        ("zone_id", avro_text("z")),
        ("quantity", Value::Long(1)),
        ("supplier_id", avro_text("s")),
        ("event_id", avro_text("last")),
    ]);
    let event = event_from_datum(Ok(value)).unwrap();
    assert_eq!(event.event_id, "last");
    assert_eq!(event.timestamp, Timestamp { secs: 1_704_067_200, nanos: 0 });
    match event.payload {
        Json::Object(members) => assert_eq!(members[2], ("supplier_id".to_string(), text("s"))),
        _ => panic!("no object"),
    }
}

#[test]
fn fields_are_read_as_they_are() {
    assert!(matches!(event_from_avro(&None), Err(EventError::NotARecord)));
    let field = AvroField {
        name: "event_id".to_string(),
        value: AvroValue::Int(1),
        printed: "one".to_string(),
    };
    assert_eq!(
        event_from_avro(&Some(vec![field])).unwrap_err().message(),
        "field 'event_id': expected string, got Some(one)"
    );
}

#[test]
fn other_fields_do_not_hinder() {
    let schema = apache_avro::Schema::parse_str(
        r#"{"type": "record", "name": "R", "fields": [
            {"name": "tags", "type": {"type": "map", "values": "long"}},
            {"name": "sizes", "type": {"type": "array", "items": "int"}},
            {"name": "hash", "type": {"type": "fixed", "name": "H", "size": 2}},
            {"name": "price", "type": {"type": "bytes", "logicalType": "decimal", "precision": 4}},
            {"name": "event_id", "type": "string"}, {"name": "event_type", "type": "string"},
            {"name": "timestamp", "type": "string"}, {"name": "product_id", "type": "string"},
            {"name": "zone_id", "type": "string"}, {"name": "quantity", "type": "int"}]}"#,
    )
    .unwrap();
    assert!(!is_endless(&schema));
    let mut data = vec![2, 2, b'k', 6, 0, 4, 1, 1, 0, 7, 8, 2, 9];
    for text in ["e", "ANY", "2024-01-01T00:00:00Z", "P", "Z"] {
        data.push(2 * text.len() as u8);
        data.extend_from_slice(text.as_bytes());
    }
    data.push(10);
    let event = decode_avro_event(&data, &schema).unwrap();
    assert_eq!(event.event_type, "ANY");
    assert_eq!(
        event.payload,
        object(vec![
            ("product_id", text("P")),
            ("quantity", Json::Integer(5)),
            ("supplier_id", Json::Null),
            ("zone_id", text("Z")),
        ])
    );
}

#[test]
fn large_number_is_told_as_it_is_written() {
    let value: serde_json::Value = serde_json::from_str("1e21").unwrap();
    let amount = Json::Float(value.to_string());
    let e = object(vec![("product_id", text("P")), ("quantity", amount), ("zone_id", text("Z"))]);
    assert_eq!(
        problem("PRODUCT_SHIPPED", e),
        serde_json::from_value::<i64>(value).unwrap_err().to_string()
    );
}

#[test]
fn printed_avro_value_is_its_debug_text() {
    let inside = Value::Record(vec![("a".to_string(), Value::Union(2, Box::new(Value::Int(7))))]);
    let schema = apache_avro::Schema::parse_str(
        r#"{"type": "record", "name": "R", "fields": [
            {"name": "event_id", "type": {"type": "record", "name": "S", "fields": [
                {"name": "a", "type": ["null", "string", "int"]}]}}]}"#,
    )
    .unwrap();
    let value = Value::Record(vec![("event_id".to_string(), inside.clone())]);
    let bytes = apache_avro::to_avro_datum(&schema, value).unwrap();
    assert_eq!(
        decode_avro_event(&bytes, &schema).unwrap_err().message(),
        format!("field 'event_id': expected string, got {:?}", Some(inside))
    );
}

#[test]
fn endless_schemas_are_told() {
    let list = apache_avro::Schema::parse_str(
        r#"{"type": "record", "name": "List", "fields": [
            {"name": "next", "type": ["null", "List"]}]}"#,
    )
    .unwrap();
    assert!(is_endless(&list));
    let many = apache_avro::Schema::parse_str(r#"{"type": "array", "items": "long"}"#).unwrap();
    assert!(!is_endless(&many));
    let large = apache_avro::Schema::parse_str(
        r#"{"type": "fixed", "name": "Large", "size": 9223372036854775808}"#,
    )
    .unwrap();
    assert!(is_endless(&large));
    let twice = apache_avro::Schema::parse_str(
        r#"{"type": "record", "name": "Pair", "fields": [
            {"name": "a", "type": {"type": "enum", "name": "Id", "symbols": ["X"]}},
            {"name": "b", "type": ["null", "Id"]}]}"#,
    )
    .unwrap();
    assert!(!is_endless(&twice));
    let namesake = apache_avro::Schema::parse_str(
        r#"{"type": "record", "name": "R", "namespace": "a", "fields": [
            {"name": "x", "type": {"type": "enum", "name": "R", "namespace": "b", "symbols": ["X"]}},
            {"name": "y", "type": "b.R"}]}"#,
    )
    .unwrap();
    assert!(!is_endless(&namesake));
    let v1 = apache_avro::Schema::parse_str(V1_SCHEMA_STR).unwrap();
    assert!(!is_endless(&v1));
}

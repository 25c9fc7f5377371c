//! The rest of the service.
use warehouse::cassandra::{entity_key, inventory_of, parse_consistency, Consistency, Position, Statement};
use warehouse::config::{lag_monitor_group, migration_statements, Config, Variables};
use warehouse::consumer::{classify_error, consumer_lag, Delivery, Phase, Rejection};
use warehouse::dead_letter::{event_dead_letter, raw_dead_letter, unreadable_code, Letter};
use warehouse::events::WarehouseEvent;
use warehouse::http::{error_label, health, producer_health};
use warehouse::json::{json_string, Json};
use warehouse::retry::{Attempts, RetryPolicy};
use warehouse::run::Reply;
use warehouse::schema_registry::{
    is_plain_schema, parse_schema, registered_id, registration, versions_url, Lookup, SchemaRegistry,
};
use warehouse::text::{decimal, join2, split_on, trim, trim_end_matches};
use warehouse::time::Timestamp;

#[test]
fn consistency_is_found_in_any_case() {
    assert_eq!(parse_consistency("ALL"), Consistency::All);
    assert_eq!(parse_consistency("quorum"), Consistency::Quorum);
    assert_eq!(parse_consistency("Local_Quorum"), Consistency::LocalQuorum);
    assert_eq!(parse_consistency("each_quorum"), Consistency::EachQuorum);
    assert_eq!(parse_consistency("oNe"), Consistency::One);
    assert_eq!(parse_consistency("two"), Consistency::Two);
    assert_eq!(parse_consistency("three"), Consistency::Three);
    assert_eq!(parse_consistency("local_one"), Consistency::LocalOne);
    assert_eq!(parse_consistency("any"), Consistency::Any);
    assert_eq!(parse_consistency("serial"), Consistency::Quorum);
    assert_eq!(parse_consistency(""), Consistency::Quorum);
}

#[test]
fn statements_have_their_consistency() {
    assert_eq!(Statement::all().len(), 13);
    let reads = Statement::all()
        .into_iter()
        .filter(|s| s.consistency(Consistency::Quorum, Consistency::One) == Consistency::One)
        .collect::<Vec<_>>();
    assert_eq!(
        reads,
        vec![
            Statement::CheckProcessed,
            Statement::GetInventoryPz,
            Statement::GetInventoryProduct,
            Statement::GetOrder,
            Statement::GetEntityTs,
        ]
    );
    for s in Statement::all() {
        assert_eq!(s.cql().starts_with("SELECT"), reads.contains(&s));
        assert!(!s.cql().contains("  "));
    }
    assert_eq!(
        Statement::UpsertInventoryZone.cql(),
        "UPDATE warehouse.inventory_by_zone \
         SET available_quantity = ?, reserved_quantity = ?, last_updated = ? \
         WHERE zone_id = ? AND product_id = ?"
    );
}

#[test]
fn missing_row_is_nothing_in_stock() {
    assert_eq!(inventory_of(None).available, 0);
    assert_eq!(inventory_of(None).reserved, 0);
    assert_eq!(inventory_of(Some((4, 5))).reserved, 5);
    assert_eq!(entity_key("P", "A"), "P:A");
    assert_eq!(entity_key("a:b", "c"), entity_key("a", "b:c"));
}

#[test]
fn errors_have_their_codes() {
    assert_eq!(classify_error("VALIDATION_ERROR: x"), "VALIDATION_ERROR");
    assert_eq!(classify_error("BUSINESS_ERROR: order O not found"), "BUSINESS_ERROR");
    assert_eq!(classify_error("BUSINESS_ERROR: order VALIDATION_ERROR not found"), "VALIDATION_ERROR");
    assert_eq!(classify_error("no host available"), "PROCESSING_ERROR");
    assert_eq!(classify_error("BUSINESS_ERRO"), "PROCESSING_ERROR");
    assert_eq!(classify_error(""), "PROCESSING_ERROR");
}

#[test]
fn lag_is_what_waits() {
    assert_eq!(consumer_lag(1200, None), 1200);
    assert_eq!(consumer_lag(1, None), 1);
    assert_eq!(consumer_lag(1, Some(0)), 0);
    assert_eq!(consumer_lag(-1, None), 0);
    assert_eq!(consumer_lag(0, None), 0);
    assert_eq!(consumer_lag(10, Some(9)), 0);
    assert_eq!(consumer_lag(10, Some(3)), 6);
    assert_eq!(consumer_lag(3, Some(10)), 0);
    assert_eq!(consumer_lag(i64::MAX, Some(i64::MIN)), 18_446_744_073_709_551_614);
}

fn no_variables() -> Variables {
    Variables {
        kafka_bootstrap_servers: None,
        kafka_group_id: None,
        kafka_topic: None,
        kafka_dlq_topic: None,
        cassandra_hosts: None,
        cassandra_keyspace: None,
        cassandra_consistency_write: None,
        cassandra_consistency_read: None,
        schema_registry_url: None,
    }
}

#[test]
fn settings_have_defaults() {
    let c = Config::from_vars(no_variables());
    assert_eq!(c.kafka_bootstrap_servers, "localhost:9092");
    assert_eq!(c.kafka_group_id, "warehouse-state-consumer");
    assert_eq!(c.kafka_topic, "warehouse-events");
    assert_eq!(c.kafka_dlq_topic, "warehouse-events-dlq");
    assert_eq!(c.cassandra_hosts, vec!["localhost".to_string()]);
    assert_eq!(c.cassandra_keyspace, "warehouse");
    assert_eq!(c.cassandra_consistency_write, "QUORUM");
    assert_eq!(c.cassandra_consistency_read, "ONE");
    assert_eq!(c.schema_registry_url, "http://schema-registry:8081");
}

#[test]
fn hosts_are_split_and_trimmed() {
    let mut vars = no_variables();
    vars.cassandra_hosts = Some(" a:9042 ,b,\t,".to_string());
    vars.kafka_topic = Some(String::new());
    let c = Config::from_vars(vars);
    assert_eq!(c.cassandra_hosts, vec!["a:9042", "b", "", ""]);
    assert_eq!(c.kafka_topic, "");
    assert_eq!(lag_monitor_group("g"), "g-lag-monitor");
}

#[test]
fn migrations_are_split_and_trimmed() {
    assert_eq!(
        migration_statements("CREATE A;\n\n  CREATE B (x);;\n \u{a0};"),
        vec!["CREATE A", "CREATE B (x)"]
    );
    assert!(migration_statements("").is_empty());
}

#[test]
fn text_is_cut_and_joined() {
    assert_eq!(split_on("a,b,,", ','), vec!["a", "b", "", ""]);
    assert_eq!(split_on("a,b,,", ',').join(","), "a,b,,");
    assert_eq!(trim("\u{2003} x y\n"), "x y");
    assert_eq!(trim_end_matches("http://h//", '/'), "http://h");
    assert_eq!(trim_end_matches("///", '/'), "");
    assert_eq!(decimal(i128::MIN), i128::MIN.to_string());
    assert_eq!(decimal(-1203), "-1203");
    assert_eq!(decimal(0), "0");
    assert_eq!(join2("a", "b"), "ab");
    for c in (0..=0x10FFFFu32).filter_map(char::from_u32) {
        assert_eq!(trim(&c.to_string()).is_empty(), c.is_whitespace());
    }
}

#[test]
fn registry_keeps_schemas() {
    let mut registry = SchemaRegistry::new("http://r:8081///");
    assert_eq!(registry.versions_url("s-v1"), "http://r:8081/subjects/s-v1/versions");
    assert_eq!(registry.schema_url(4_294_967_295), "http://r:8081/schemas/ids/4294967295");
    assert_eq!(versions_url("http://r/", "s"), "http://r//subjects/s/versions");
    let kept = |registry: &SchemaRegistry, id: u32| match registry.get_schema(id) {
        Lookup::Kept(schema) => Some(schema),
        Lookup::Wanted(url) => {
            assert_eq!(url, format!("http://r:8081/schemas/ids/{}", id));
            None
        }
    };
    assert!(kept(&registry, 1).is_none());
    assert_eq!(registry.take_schema(1, Err("404".to_string())), Err("404".to_string()));
    assert!(kept(&registry, 1).is_none());
    let long = apache_avro::Schema::parse_str("\"long\"").unwrap();
    let text = apache_avro::Schema::parse_str("\"string\"").unwrap();
    assert_eq!(registry.take_schema(1, Ok(long.clone())), Ok(long.clone()));
    assert_eq!(registry.take_schema(2, Ok(text.clone())), Ok(text.clone()));
    assert!(registry.take_schema(1, Err("503".to_string())).is_err());
    assert_eq!(kept(&registry, 1), Some(long));
    assert_eq!(kept(&registry, 2), Some(text.clone()));
    assert!(kept(&registry, 3).is_none());
    assert_eq!(registry.take_schema(1, Ok(text.clone())), Ok(text.clone()));
    assert_eq!(kept(&registry, 1), Some(text));
}

fn to_json(value: serde_json::Value) -> Json {
    match value {
        serde_json::Value::Null => Json::Null,
        serde_json::Value::Bool(b) => Json::Bool(b),
        serde_json::Value::Number(n) => match n.as_i128() {
            Some(i) => Json::Integer(i),
            None => Json::Float(n.to_string()),
        },
        serde_json::Value::String(s) => Json::String(s),
        serde_json::Value::Array(items) => Json::Array(items.into_iter().map(to_json).collect()),
        serde_json::Value::Object(members) => {
            Json::Object(members.into_iter().map(|(k, v)| (k, to_json(v))).collect())
        }
    }
}

fn read(schema: &str) -> Option<Result<apache_avro::Schema, String>> {
    let json = to_json(serde_json::from_str(schema).unwrap());
    if is_plain_schema(&json) {
        Some(parse_schema(&json))
    } else {
        None
    }
}

#[test]
fn plain_schemas_are_read() {
    let texts = [
        "\"string\"",
        "[\"null\", {\"type\": \"array\", \"items\": \"long\"}]",
        "{\"type\": \"record\", \"name\": \"warehouse.Received\", \"aliases\": [\"Came\"], \"fields\": [\
         {\"name\": \"quantity\", \"type\": \"long\"},\
         {\"name\": \"supplier_id\", \"type\": [\"null\", \"string\"], \"default\": null}]}",
    ];
    let defaults = "{\"type\": \"record\", \"name\": \"R\", \"fields\": [\
         {\"name\": \"a\", \"type\": \"long\", \"default\": 0},\
         {\"name\": \"b\", \"type\": \"string\", \"default\": \"\"},\
         {\"name\": \"c\", \"type\": \"double\", \"default\": 1.5},\
         {\"name\": \"d\", \"type\": \"boolean\", \"default\": true},\
         {\"name\": \"e\", \"type\": [\"string\", \"null\"], \"default\": \"x\"},\
         {\"name\": \"f\", \"type\": {\"type\": \"array\", \"items\": \"long\"}, \"default\": []},\
         {\"name\": \"g\", \"type\": {\"type\": \"map\", \"values\": \"long\"}, \"default\": {}},\
         {\"name\": \"h\", \"type\": {\"type\": \"enum\", \"name\": \"E\", \
         \"symbols\": [\"A\", \"B\"], \"default\": \"A\"}, \"default\": \"B\"},\
         {\"name\": \"i\", \"type\": {\"type\": \"long\", \
         \"logicalType\": \"timestamp-millis\"}, \"default\": 0},\
         {\"name\": \"j\", \"type\": \"bytes\", \"default\": [1, 255]},\
         {\"name\": \"k\", \"type\": \"array\", \"items\": \"string\", \"default\": []}]}";
    for text in texts.into_iter().chain([defaults]) {
        let schema = apache_avro::Schema::parse_str(text).unwrap();
        assert_eq!(read(text), Some(Ok(schema)));
    }
    for text in ["7", "\"number\"", "{\"type\": \"record\", \"name\": \"R\"}",
        "{\"type\": \"record\", \"name\": \"R\", \"fields\": [\
         {\"name\": \"a\", \"type\": \"long\", \"default\": \"no\"}]}",
        "{\"type\": \"record\", \"name\": \"R\", \"fields\": [\
         {\"name\": \"a\", \"type\": \"string\", \"default\": {\"b\": [1]}}]}",
        "{\"type\": \"enum\", \"name\": \"E\", \"symbols\": [\"A\"], \"default\": \"B\"}",
    ] {
        let error = apache_avro::Schema::parse_str(text).unwrap_err().to_string();
        assert_eq!(read(text), Some(Err(error)));
    }
}

#[test]
fn other_schemas_are_not_plain() {
    let texts = [
        "{\"type\": \"fixed\", \"size\": 4, \"name\": \"4\"}",
        "{\"type\": \"fixed\", \"size\": 4, \"name\": \"a..b\"}",
        "{\"type\": \"fixed\", \"size\": 4, \"name\": \"F\", \"aliases\": [\"no name\"]}",
        "{\"type\": \"record\", \"name\": \"R\", \"fields\": [\
         {\"name\": \"n\", \"type\": \"bytes\", \"logicalType\": \"decimal\", \"precision\": 4, \
         \"default\": \"0\"}]}",
        "{\"type\": \"record\", \"name\": \"R\", \"fields\": [{\"name\": \"n\", \"type\": [\
         {\"type\": \"array\", \"items\": \"long\"}, \"null\"], \"default\": null}]}",
        "{\"type\": \"record\", \"name\": \"R\", \"fields\": [{\"name\": \"n\", \"type\": \
         {\"type\": \"array\", \"items\": \"long\"}, \"default\": [1]}]}",
        "{\"type\": \"record\", \"name\": \"R\", \"fields\": [{\"name\": \"n\", \"type\": \
         {\"type\": \"enum\", \"name\": \"E\", \"symbols\": [\"A\"]}, \"default\": \"B\"}]}",
    ];
    for text in texts {
        assert_eq!(read(text), None);
    }
    let mut deep = Json::String("string".to_string());
    for _ in 0..128 {
        deep = Json::Object(vec![("type".to_string(), deep)]);
    }
    assert!(!is_plain_schema(&deep));
}

#[test]
fn registration_is_sent_and_answered() {
    assert_eq!(
        json_string(&registration("{\"type\": \"long\"}")),
        "{\"schema\":\"{\\\"type\\\": \\\"long\\\"}\"}"
    );
    let reply = |id: Json| Json::Object(vec![("id".to_string(), id)]);
    assert_eq!(registered_id(&reply(Json::Integer(7))), Ok(7));
    assert_eq!(registered_id(&reply(Json::Integer(0x1_0000_0005))), Ok(5));
    assert_eq!(
        registered_id(&reply(Json::Integer(-1))),
        Err("no id in registry response: {\"id\":-1}".to_string())
    );
    assert_eq!(
        registered_id(&Json::Object(vec![
            ("message".to_string(), Json::String("no".to_string())),
            ("error_code".to_string(), Json::Integer(422)),
        ])),
        Err("no id in registry response: {\"error_code\":422,\"message\":\"no\"}".to_string())
    );
    assert_eq!(
        registered_id(&Json::Float("2.5e3".to_string())),
        Err("no id in registry response: 2500.0".to_string())
    );
}

#[test]
fn endpoints_answer() {
    assert_eq!(health(true, true), (200, "{\"status\":\"ok\"}"));
    assert_eq!(health(true, false), (503, "{\"status\":\"unavailable\"}"));
    assert_eq!(health(false, true).0, 503);
    assert_eq!(producer_health(), (200, "{\"status\":\"ok\"}"));
    assert_eq!(error_label(200), None);
    assert_eq!(error_label(399), None);
    assert_eq!(error_label(404), Some("client_error"));
    assert_eq!(error_label(500), Some("server_error"));
    assert_eq!(error_label(599), Some("server_error"));
    assert_eq!(error_label(600), None);
}

#[test]
fn tries_come_to_an_end() {
    let tries = |policy: RetryPolicy| {
        let mut attempts = Attempts::new(policy);
        let mut tried = 1;
        while attempts.fail() {
            tried += 1;
        }
        tried
    };
    assert_eq!(tries(RetryPolicy::database()), 31);
    assert_eq!(tries(RetryPolicy::consumer()), 21);
    assert_eq!(tries(RetryPolicy::registration()), 30);
    assert_eq!(RetryPolicy::database().pause_seconds, 5);
}

const NOON: Timestamp = Timestamp { secs: 1_704_110_400, nanos: 0 };

#[test]
fn unreadable_message_is_put_aside_as_it_came() {
    let at = Position { partition: 2, offset: 40 };
    let body = raw_dead_letter(b"{\xFF}", "deserialize error: x", unreadable_code(), NOON, at);
    assert_eq!(
        body,
        "{\"error_code\":\"DESERIALIZE_ERROR\",\"error_reason\":\"deserialize error: x\",\
         \"failed_at\":\"2024-01-01T12:00:00+00:00\",\
         \"kafka_metadata\":{\"offset\":40,\"partition\":2},\"original_event\":\"{\u{FFFD}}\"}"
    );
}

fn shipped(product: &str) -> WarehouseEvent {
    WarehouseEvent {
        event_id: "e".to_string(),
        event_type: "PRODUCT_SHIPPED".to_string(),
        timestamp: NOON,
        sequence_number: Some(4),
        payload: Json::Object(vec![
            ("product_id".to_string(), Json::String(product.to_string())),
            ("quantity".to_string(), Json::Integer(1)),
            ("zone_id".to_string(), Json::String("Z".to_string())),
        ]),
    }
}

#[test]
fn event_is_put_aside_with_its_error() {
    let event = shipped("P");
    let at = Position { partition: 1, offset: 9 };
    let m = event_dead_letter(&event, "no", "BUSINESS_ERROR", NOON, at);
    assert_eq!(m.original_event.event_id, "e");
    assert_eq!(m.error_reason, "no");
    assert_eq!(m.error_code, "BUSINESS_ERROR");
    assert_eq!(m.failed_at, "2024-01-01T12:00:00+00:00");
    assert_eq!((m.kafka_metadata.partition, m.kafka_metadata.offset), (1, 9));
}

#[test]
fn empty_message_is_committed() {
    let mut d = Delivery::open(None, 0, 1);
    assert!(matches!(d.progress(), Phase::Settled(false)));
    d.commit();
    assert!(matches!(d.progress(), Phase::Committed));
    assert_eq!(d.at(), Position { partition: 0, offset: 1 });
}

#[test]
fn message_that_is_no_json_is_put_aside() {
    let mut d = Delivery::open(Some(b"{".to_vec()), 0, 1);
    assert!(matches!(d.progress(), Phase::Json));
    d.with_event(Err("EOF".to_string()));
    match d.progress() {
        Phase::Rejected(why) => assert_eq!(why.reason(), "deserialize error: EOF"),
        _ => panic!("not rejected"),
    }
    let dead = d.dead_letter(NOON).unwrap();
    assert_eq!(dead.key, "unknown");
    match dead.letter {
        Letter::Message(body) => assert_eq!(
            body,
            "{\"error_code\":\"DESERIALIZE_ERROR\",\"error_reason\":\"deserialize error: EOF\",\
             \"failed_at\":\"2024-01-01T12:00:00+00:00\",\
             \"kafka_metadata\":{\"offset\":1,\"partition\":0},\"original_event\":\"{\"}"
        ),
        Letter::Event(_) => panic!("no event was read"),
    }
    d.put_aside();
    assert!(matches!(d.progress(), Phase::Settled(false)));
    assert!(d.dead_letter(NOON).is_none());
    assert_eq!(d.message(), b"{");
}

#[test]
fn message_whose_schema_is_not_found_is_put_aside() {
    let mut d = Delivery::open(Some(vec![0, 0, 0, 1, 2, 3]), 0, 1);
    assert!(matches!(d.progress(), Phase::Schema(258)));
    d.with_schema(Err("404".to_string()));
    match d.progress() {
        Phase::Rejected(why) => assert_eq!(why.reason(), "schema not found 258: 404"),
        _ => panic!("not rejected"),
    }
}

#[test]
fn message_that_does_not_go_with_its_schema_is_put_aside() {
    let long = apache_avro::Schema::parse_str("\"long\"").unwrap();
    let mut d = Delivery::open(Some(vec![0, 0, 0, 0, 1, 3]), 0, 1);
    d.with_schema(Ok(long));
    match d.progress() {
        Phase::Rejected(why) => {
            assert!(matches!(why, Rejection::AvroDecode(_)));
            assert_eq!(why.reason(), "avro decode error: expected Avro record");
        }
        _ => panic!("not rejected"),
    }
    let list = apache_avro::Schema::parse_str(
        r#"{"type": "record", "name": "R", "fields": [{"name": "r", "type": "R"}]}"#,
    )
    .unwrap();
    let mut d = Delivery::open(Some(vec![0, 0, 0, 0, 1, 3]), 0, 1);
    d.with_schema(Ok(list));
    assert!(matches!(d.progress(), Phase::Datum(_)));
    d.with_datum(Err("no end".to_string()));
    match d.progress() {
        Phase::Rejected(why) => assert_eq!(why.reason(), "avro decode error: no end"),
        _ => panic!("not rejected"),
    }
}

#[test]
fn message_is_read_by_a_schema_that_refers_to_itself() {
    let schema = apache_avro::Schema::parse_str(
        r#"{"type": "record", "name": "R", "fields": [
            {"name": "event_id", "type": "string"}, {"name": "event_type", "type": "string"},
            {"name": "timestamp", "type": "string"}, {"name": "product_id", "type": "string"},
            {"name": "zone_id", "type": "string"}, {"name": "quantity", "type": "int"},
            {"name": "before", "type": ["null", "R"]}]}"#,
    )
    .unwrap();
    let mut message = vec![0, 0, 0, 0, 1];
    for text in ["e", "PRODUCT_RECEIVED", "2024-01-01T00:00:00Z", "P", "Z"] {
        message.push(2 * text.len() as u8);
        message.extend_from_slice(text.as_bytes());
    }
    message.extend_from_slice(&[14, 0]);
    let mut d = Delivery::open(Some(message.clone()), 0, 1);
    d.with_schema(Ok(schema.clone()));
    assert!(matches!(d.progress(), Phase::Datum(s) if *s == schema));
    let datum = apache_avro::from_avro_datum(&schema, &mut &message[5..], None).unwrap();
    d.with_datum(Ok(datum));
    match d.progress() {
        Phase::Event(run) => {
            assert_eq!(run.event().event_id, "e");
            assert_eq!(
                json_string(&run.event().payload),
                "{\"product_id\":\"P\",\"quantity\":7,\"supplier_id\":null,\"zone_id\":\"Z\"}"
            );
        }
        _ => panic!("no event"),
    }
}

#[test]
fn message_with_an_event_is_processed() {
    let mut d = Delivery::open(Some(b"{}".to_vec()), 5, 6);
    d.with_event(Ok(shipped("P")));
    assert!(matches!(d.progress(), Phase::Event(_)));
    d.advance(Reply::Processed(true));
    assert!(matches!(d.progress(), Phase::Settled(true)));
}

#[test]
fn message_whose_event_fails_is_put_aside_with_its_code() {
    let mut d = Delivery::open(Some(b"{}".to_vec()), 5, 6);
    d.with_event(Ok(shipped("P")));
    d.advance(Reply::Processed(false));
    d.advance(Reply::Timestamp(None));
    d.advance(Reply::Stock(None));
    match d.progress() {
        Phase::Failed { run, reason, code } => {
            assert_eq!(run.event().event_id, "e");
            assert_eq!(
                reason,
                "BUSINESS_ERROR: insufficient available qty for P in Z: have 0, need 1"
            );
            assert_eq!(*code, "BUSINESS_ERROR");
        }
        _ => panic!("not failed"),
    }
    let dead = d.dead_letter(NOON).unwrap();
    assert_eq!(dead.key, "e");
    match dead.letter {
        Letter::Event(m) => {
            assert_eq!(m.original_event.event_id, "e");
            assert_eq!(
                m.error_reason,
                "BUSINESS_ERROR: insufficient available qty for P in Z: have 0, need 1"
            );
            assert_eq!(m.error_code, "BUSINESS_ERROR");
            assert_eq!(m.failed_at, "2024-01-01T12:00:00+00:00");
            assert_eq!((m.kafka_metadata.partition, m.kafka_metadata.offset), (5, 6));
        }
        Letter::Message(_) => panic!("an event was read"),
    }
    d.put_aside();
    d.commit();
    let mut d = Delivery::open(Some(b"{}".to_vec()), 5, 6);
    d.with_event(Ok(shipped("P")));
    d.advance(Reply::Failed("unreachable".to_string()));
    assert!(matches!(d.progress(), Phase::Failed { code, .. } if *code == "PROCESSING_ERROR"));
}

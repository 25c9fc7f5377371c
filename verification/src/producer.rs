//! What the producer publishes.
use crate::avro;
use crate::avro::{AvroField, AvroValue, AvroView, SchemaView};
use crate::events;
use crate::events::{EventError, EventFault, EventParts, WarehouseEvent};
use crate::http;
use crate::http::{INTERNAL_SERVER_ERROR, SERVICE_UNAVAILABLE};
use crate::json;
use crate::json::{json_string, Json, JsonView};
use crate::payload;
use crate::payload::{EventPayload, PayloadError};
use crate::text;
use crate::time;
use crate::time::{to_rfc3339, Timestamp};
use crate::wire;
use crate::wire::confluent_encode;
use apache_avro::Schema;
use vstd::prelude::*;
use vstd::utf8::encode_utf8;

verus! {

/// An event to be published.
pub struct PublishRequest {
    pub event_type: String,
    pub payload: Json,
}

/// Goods that came in, to be published by the first schema.
pub struct AvroV1Request {
    pub product_id: String,
    pub zone_id: String,
    pub quantity: i64,
}

/// Goods that came in, to be published by the second schema.
pub struct AvroV2Request {
    pub product_id: String,
    pub zone_id: String,
    pub quantity: i64,
    pub supplier_id: Option<String>,
}

/// Why an event is not published: a status and a message.
#[derive(Debug)]
pub struct PublishError {
    pub status: u16,
    pub error: String,
}

/// That no schema has been registered.
pub open spec fn is_unavailable(e: PublishError) -> bool {
    e.status == http::SERVICE_UNAVAILABLE && e.error@ == "schema registry unavailable"@
}

fn unavailable() -> (r: PublishError)
    ensures
        is_unavailable(r),
{
    PublishError {
        status: SERVICE_UNAVAILABLE,
        error: "schema registry unavailable".to_string(),
    }
}

/// That something failed.
pub fn failed(error: String) -> (r: PublishError)
    ensures
        r.status == http::INTERNAL_SERVER_ERROR,
        r.error == error,
{
    PublishError { status: INTERNAL_SERVER_ERROR, error }
}

/// An event as it is published.
pub open spec fn published(
    event_id: Seq<char>,
    event_type: Seq<char>,
    timestamp: Seq<char>,
    payload: JsonView,
) -> JsonView {
    JsonView::Object(
        seq![
            ("event_id"@, JsonView::String(event_id)),
            ("event_type"@, JsonView::String(event_type)),
            ("payload"@, payload),
            ("sequence_number"@, JsonView::Null),
            ("timestamp"@, JsonView::String(timestamp)),
        ],
    )
}

/// Whether a text is JSON that tells of an event, under the names of its members.
pub open spec fn tells_of_event(
    text: Seq<char>,
    event_id: Seq<char>,
    event_type: Seq<char>,
    timestamp: Seq<char>,
    payload: JsonView,
) -> bool {
    exists|event: JsonView|
        {
            &&& text == #[trigger] json::json_text(event)
            &&& json::member_of(event, "event_id"@) == Some(JsonView::String(event_id))
            &&& json::member_of(event, "event_type"@) == Some(JsonView::String(event_type))
            &&& json::member_of(event, "timestamp"@) == Some(JsonView::String(timestamp))
            &&& json::member_of(event, "payload"@) == Some(payload)
            &&& json::member_of(event, "sequence_number"@) == Some(JsonView::Null)
        }
}

/// What is published of an event tells of it, whatever its payload is.
pub proof fn published_tells_of_its_event(
    event_id: Seq<char>,
    event_type: Seq<char>,
    timestamp: Seq<char>,
    payload: JsonView,
)
    ensures
        tells_of_event(
            json::json_text(published(event_id, event_type, timestamp, payload)),
            event_id,
            event_type,
            timestamp,
            payload,
        ),
{
    let members = published(event_id, event_type, timestamp, payload)->Object_0;
    reveal_strlit("event_id");
    reveal_strlit("event_type");
    reveal_strlit("payload");
    reveal_strlit("sequence_number");
    reveal_strlit("timestamp");
    assert("event_id"@.len() == 8 && "event_type"@.len() == 10 && "payload"@.len() == 7
        && "sequence_number"@.len() == 15 && "timestamp"@.len() == 9);
    reveal_with_fuel(json::find_member, 6);
    assert(members.drop_first() =~= seq![members[1], members[2], members[3], members[4]]);
    assert(members.drop_first().drop_first() =~= seq![members[2], members[3], members[4]]);
    assert(members.drop_first().drop_first().drop_first() =~= seq![members[3], members[4]]);
    assert(members.drop_first().drop_first().drop_first().drop_first() =~= seq![members[4]]);
}

/// Writes an event as it is published.
pub fn publish_event(event_id: &str, now: Timestamp, req: PublishRequest) -> (r: String)
    requires
        now.is_time(),
    ensures
        r@ == json::json_text(
            published(event_id@, req.event_type@, time::rfc3339_text(now), req.payload@),
        ),
        tells_of_event(
            r@,
            event_id@,
            req.event_type@,
            time::rfc3339_text(now),
            req.payload@,
        ),
        now.is_plain() ==> time::reads_as(time::rfc3339_text(now), now),
{
    proof {
        published_tells_of_its_event(
            event_id@,
            req.event_type@,
            time::rfc3339_text(now),
            req.payload@,
        );
    }
    let timestamp = to_rfc3339(now);
    let ghost view = published(event_id@, req.event_type@, timestamp@, req.payload@);
    let members = vec![
        ("event_id".to_string(), Json::String(event_id.to_string())),
        ("event_type".to_string(), Json::String(req.event_type)),
        ("payload".to_string(), req.payload),
        ("sequence_number".to_string(), Json::Null),
        ("timestamp".to_string(), Json::String(timestamp)),
    ];
    assert(members@[0].1@ == view->Object_0[0].1);
    assert(members@[1].1@ == view->Object_0[1].1);
    assert(members@[2].1@ == view->Object_0[2].1);
    assert(members@[3].1@ == view->Object_0[3].1);
    assert(members@[4].1@ == view->Object_0[4].1);
    let event = Json::Object(members);
    assert(event@->Object_0 =~= view->Object_0);
    json_string(&event)
}

/// What is written of an event.
pub struct Written {
    pub event_id: Seq<char>,
    pub event_type: Seq<char>,
    pub timestamp: Seq<char>,
    pub product_id: Seq<char>,
    pub zone_id: Seq<char>,
    pub quantity: int,
    pub supplier_id: Option<Seq<char>>,
}

impl Written {
    /// As a record of the first schema.
    pub open spec fn v1_record(self) -> AvroView {
        AvroView::Record(
            seq![
                ("event_id"@, AvroView::String(self.event_id)),
                ("event_type"@, AvroView::String(self.event_type)),
                ("timestamp"@, AvroView::String(self.timestamp)),
                ("product_id"@, AvroView::String(self.product_id)),
                ("zone_id"@, AvroView::String(self.zone_id)),
                ("quantity"@, AvroView::Long(self.quantity)),
            ],
        )
    }

    /// As a record of the second schema.
    pub open spec fn v2_record(self) -> AvroView {
        AvroView::Record(
            self.v1_record()->Record_0.push(("supplier_id"@, supplier_choice(self.supplier_id))),
        )
    }

    /// What such a record says of the event, if its time reads like that.
    pub open spec fn parts(self, time: Timestamp, supplier_id: Option<Seq<char>>) -> EventParts {
        EventParts {
            event_id: self.event_id,
            event_type: self.event_type,
            timestamp: time,
            product_id: self.product_id,
            zone_id: self.zone_id,
            quantity: self.quantity,
            supplier_id,
        }
    }
}

/// The supplier, in the second schema's choice of none or one.
pub open spec fn supplier_choice(supplier_id: Option<Seq<char>>) -> AvroView {
    match supplier_id {
        None => AvroView::Union(0, Box::new(AvroView::Null)),
        Some(s) => AvroView::Union(1, Box::new(AvroView::String(s))),
    }
}

/// What is written of goods that came in.
pub open spec fn v1_written(
    event_id: Seq<char>,
    timestamp: Seq<char>,
    req: AvroV1Request,
) -> Written {
    Written {
        event_id,
        event_type: "PRODUCT_RECEIVED"@,
        timestamp,
        product_id: req.product_id@,
        zone_id: req.zone_id@,
        quantity: req.quantity as int,
        supplier_id: None,
    }
}

/// What is written of goods that came in, with their supplier.
pub open spec fn v2_written(
    event_id: Seq<char>,
    timestamp: Seq<char>,
    req: AvroV2Request,
) -> Written {
    Written {
        event_id,
        event_type: "PRODUCT_RECEIVED"@,
        timestamp,
        product_id: req.product_id@,
        zone_id: req.zone_id@,
        quantity: req.quantity as int,
        supplier_id: text::optional(req.supplier_id),
    }
}

fn common_fields(
    event_id: &str,
    timestamp: String,
    product_id: String,
    zone_id: String,
    quantity: i64,
    Ghost(written): Ghost<Written>,
) -> (r: Vec<(String, AvroValue)>)
    requires
        written.event_id == event_id@,
        written.event_type == "PRODUCT_RECEIVED"@,
        written.timestamp == timestamp@,
        written.product_id == product_id@,
        written.zone_id == zone_id@,
        written.quantity == quantity,
    ensures
        AvroValue::Record(r)@ == written.v1_record(),
{
    let ghost view = written.v1_record();
    let r = vec![
        ("event_id".to_string(), AvroValue::String(event_id.to_string())),
        ("event_type".to_string(), AvroValue::String("PRODUCT_RECEIVED".to_string())),
        ("timestamp".to_string(), AvroValue::String(timestamp)),
        ("product_id".to_string(), AvroValue::String(product_id)),
        ("zone_id".to_string(), AvroValue::String(zone_id)),
        ("quantity".to_string(), AvroValue::Long(quantity)),
    ];
    assert(r@[0].1@ == view->Record_0[0].1);
    assert(r@[1].1@ == view->Record_0[1].1);
    assert(r@[2].1@ == view->Record_0[2].1);
    assert(r@[3].1@ == view->Record_0[3].1);
    assert(r@[4].1@ == view->Record_0[4].1);
    assert(r@[5].1@ == view->Record_0[5].1);
    assert(AvroValue::Record(r)@->Record_0 =~= view->Record_0);
    r
}

/// Makes the record of the first schema.
pub fn avro_v1_value(event_id: &str, timestamp: String, req: AvroV1Request) -> (r: AvroValue)
    ensures
        r@ == v1_written(event_id@, timestamp@, req).v1_record(),
{
    let ghost written = v1_written(event_id@, timestamp@, req);
    AvroValue::Record(
        common_fields(
            event_id,
            timestamp,
            req.product_id,
            req.zone_id,
            req.quantity,
            Ghost(written),
        ),
    )
}

/// Makes the record of the second schema.
pub fn avro_v2_value(event_id: &str, timestamp: String, req: AvroV2Request) -> (r: AvroValue)
    ensures
        r@ == v2_written(event_id@, timestamp@, req).v2_record(),
{
    let ghost written = v2_written(event_id@, timestamp@, req);
    let ghost view = written.v2_record();
    let mut fields = common_fields(
        event_id,
        timestamp,
        req.product_id,
        req.zone_id,
        req.quantity,
        Ghost(written),
    );
    let ghost before = fields;
    let supplier = match req.supplier_id {
        None => {
            let inner = AvroValue::Null;
            assert(inner@ == AvroView::Null);
            AvroValue::Union(0, Box::new(inner))
        },
        Some(s) => {
            let inner = AvroValue::String(s);
            assert(inner@ == AvroView::String(s@));
            AvroValue::Union(1, Box::new(inner))
        },
    };
    assert(supplier@ == supplier_choice(text::optional(req.supplier_id)));
    fields.push(("supplier_id".to_string(), supplier));
    let r = AvroValue::Record(fields);
    assert forall|i: int| 0 <= i < 6 implies #[trigger] r@->Record_0[i] == view->Record_0[i] by {
        assert(AvroValue::Record(before)@->Record_0[i] == view->Record_0[i]);
        assert(fields@[i] == before@[i]);
    }
    assert(r@->Record_0 =~= view->Record_0);
    r
}

/// The records that are published are made of values that the service looks into, without
/// parts or in a choice.
proof fn records_are_shallow(w: Written)
    ensures
        w.v1_record().is_known(),
        w.v1_record().is_shallow(),
        w.v2_record().is_known(),
        w.v2_record().is_shallow(),
{
    reveal_with_fuel(AvroView::is_known, 3);
    let first = w.v1_record()->Record_0;
    let second = w.v2_record()->Record_0;
    assert forall|i: int| 0 <= i < second.len() implies (#[trigger] second[i]).1.is_known() && (
    second[i].1.is_leaf() || second[i].1 is Union && second[i].1->Union_1.is_leaf()) by {
        if i < 6 {
            assert(second[i] == first[i]);
        }
    }
}

/// Whether an attempt to write a value can fail with that text.
pub open spec fn can_fail(schema_id: u32, schema: Schema, value: AvroValue, error: String) -> bool {
    call_ensures(
        confluent_encode,
        (schema_id, &schema, &value),
        Err::<Vec<u8>, String>(error),
    )
}

/// Whether that is what comes of a record to be published by a schema: a message, or an
/// error with the text that the attempt to write it gave. A record of exactly the fields of
/// the schema is published, in a message that reads as that record, unless a text in it is
/// too long to be read.
pub open spec fn publication(
    schema_id: u32,
    schema: Schema,
    record: AvroView,
    r: Result<Vec<u8>, PublishError>,
) -> bool {
    &&& match avro::avro_bytes(schema, record) {
        Some(body) => r matches Ok(message) && message@ == wire::framed(schema_id, body),
        None => {
            &&& r matches Err(e)
            &&& e.status == http::INTERNAL_SERVER_ERROR
            &&& exists|value: AvroValue|
                value@ == record && #[trigger] can_fail(schema_id, schema, value, e.error)
        },
    }
    &&& avro::avro_tree(schema).takes(record) ==> {
        &&& r matches Ok(message)
        &&& record.is_readable() ==> avro::reads_as(schema, message@.skip(5), record)
    }
}

fn publish_value(schema_id: u32, schema: &Schema, value: &AvroValue) -> (r: Result<
    Vec<u8>,
    PublishError,
>)
    requires
        avro::schema_is_writable(*schema),
        value@.is_known(),
        value@.is_shallow(),
    ensures
        publication(schema_id, *schema, value@, r),
{
    proof {
        avro::shallow_records_can_be_written(avro::avro_tree(*schema), value@);
    }
    let encode = confluent_encode;
    match encode(schema_id, schema, value) {
        Ok(message) => Ok(message),
        Err(e) => {
            assert(can_fail(schema_id, *schema, *value, e));
            Err(failed(e))
        },
    }
}

/// Makes the message that publishes goods that came in by the first schema. There is none
/// where no schema has been registered, or where the record does not go with the schema.
pub fn publish_avro_v1(
    schema_id: Option<u32>,
    schema: &Schema,
    event_id: &str,
    now: Timestamp,
    req: AvroV1Request,
) -> (r: Result<Vec<u8>, PublishError>)
    requires
        schema_id is Some ==> avro::schema_is_writable(*schema),
        now.is_time(),
    ensures
        match schema_id {
            None => r matches Err(e) && is_unavailable(e),
            Some(id) => publication(
                id,
                *schema,
                v1_written(event_id@, time::rfc3339_text(now), req).v1_record(),
                r,
            ),
        },
        schema_id is Some && now.is_plain() ==> time::reads_as(time::rfc3339_text(now), now),
        schema_id is None ==> r is Err && r->Err_0.status == 503 && r->Err_0.error@
            == "schema registry unavailable"@,
        schema_id is Some && r is Err ==> r->Err_0.status == 500,
        schema_id is Some && has_fields(avro::avro_tree(*schema), 6) && now.is_plain() && is_short(
            event_id@,
        ) && is_short(time::rfc3339_text(now)) && is_short(req.product_id@) && is_short(
            req.zone_id@,
        ) ==> r is Ok && is_received_as(
            schema_id->0,
            *schema,
            r->Ok_0@,
            event_id@,
            now,
            req.product_id@,
            req.zone_id@,
            req.quantity as int,
            None,
        ),
{
    let id: u32 = match schema_id {
        Some(id) => id,
        None => {
            return Err(unavailable());
        },
    };
    proof {
        records_are_shallow(v1_written(event_id@, time::rfc3339_text(now), req));
    }
    let ghost given = req;
    let value = avro_v1_value(event_id, to_rfc3339(now), req);
    let r = publish_value(id, schema, &value);
    proof {
        if has_fields(avro::avro_tree(*schema), 6) && now.is_plain() && is_short(event_id@) && is_short(
            time::rfc3339_text(now),
        ) && is_short(given.product_id@) && is_short(given.zone_id@) {
            v1_request_is_received(id, *schema, event_id@, now, given, r);
        }
    }
    r
}

/// Makes the message that publishes goods that came in by the second schema.
pub fn publish_avro_v2(
    schema_id: Option<u32>,
    schema: &Schema,
    event_id: &str,
    now: Timestamp,
    req: AvroV2Request,
) -> (r: Result<Vec<u8>, PublishError>)
    requires
        schema_id is Some ==> avro::schema_is_writable(*schema),
        now.is_time(),
    ensures
        match schema_id {
            None => r matches Err(e) && is_unavailable(e),
            Some(id) => publication(
                id,
                *schema,
                v2_written(event_id@, time::rfc3339_text(now), req).v2_record(),
                r,
            ),
        },
        schema_id is Some && now.is_plain() ==> time::reads_as(time::rfc3339_text(now), now),
        schema_id is None ==> r is Err && r->Err_0.status == 503 && r->Err_0.error@
            == "schema registry unavailable"@,
        schema_id is Some && r is Err ==> r->Err_0.status == 500,
        schema_id is Some && has_fields(avro::avro_tree(*schema), 7) && now.is_plain() && is_short(
            event_id@,
        ) && is_short(time::rfc3339_text(now)) && is_short(req.product_id@) && is_short(
            req.zone_id@,
        )
            && (req.supplier_id matches Some(s) ==> is_short(s@)) ==> r is Ok && is_received_as(
            schema_id->0,
            *schema,
            r->Ok_0@,
            event_id@,
            now,
            req.product_id@,
            req.zone_id@,
            req.quantity as int,
            text::optional(req.supplier_id),
        ),
{
    let id: u32 = match schema_id {
        Some(id) => id,
        None => {
            return Err(unavailable());
        },
    };
    proof {
        records_are_shallow(v2_written(event_id@, time::rfc3339_text(now), req));
    }
    let ghost given = req;
    let value = avro_v2_value(event_id, to_rfc3339(now), req);
    let r = publish_value(id, schema, &value);
    proof {
        if has_fields(avro::avro_tree(*schema), 7) && now.is_plain() && is_short(event_id@) && is_short(
            time::rfc3339_text(now),
        ) && is_short(given.product_id@) && is_short(given.zone_id@)
            && (given.supplier_id matches Some(s) ==> is_short(s@)) {
            v2_request_is_received(id, *schema, event_id@, now, given, r);
        }
    }
    r
}

/// The names of the fields of the second schema, of which the first has all but the last,
/// and their types.
pub open spec fn v2_types() -> Seq<(Seq<char>, SchemaView)> {
    seq![
        ("event_id"@, SchemaView::String),
        ("event_type"@, SchemaView::String),
        ("timestamp"@, SchemaView::String),
        ("product_id"@, SchemaView::String),
        ("zone_id"@, SchemaView::String),
        ("quantity"@, SchemaView::Long),
        ("supplier_id"@, SchemaView::Union(seq![SchemaView::Null, SchemaView::String])),
    ]
}

/// Whether a schema is a record of that many of these fields, each under a name that means
/// it.
pub open spec fn has_fields(schema: SchemaView, count: int) -> bool {
    schema matches SchemaView::Record { fields, lookup, .. } && {
        &&& fields.len() == count
        &&& forall|i: int|
            0 <= i < count ==> {
                &&& (#[trigger] fields[i]).0 == v2_types()[i].0
                &&& fields[i].2 == v2_types()[i].1
                &&& avro::meant_by(lookup, fields[i].0) == Some(i)
            }
    }
}

/// Whatever is written of an event goes with the first schema.
pub proof fn v1_schema_takes_v1_records(schema: SchemaView, w: Written)
    requires
        has_fields(schema, 6),
    ensures
        schema.takes(w.v1_record()),
{
}

/// Whatever is written of an event, with or without a supplier, goes with the second
/// schema.
pub proof fn v2_schema_takes_v2_records(schema: SchemaView, w: Written)
    requires
        has_fields(schema, 7),
    ensures
        schema.takes(w.v2_record()),
{
    let fields = schema->Record_fields;
    let values = w.v2_record()->Record_0;
    assert forall|i: int| 0 <= i < fields.len() implies {
        &&& values[i].0 == (#[trigger] fields[i]).0
        &&& fields[i].2.takes_field(values[i].1)
    } by {
        if i == 6 {
            assert(fields[i].2.takes_field(supplier_choice(w.supplier_id)));
        }
    }
}

/// The names of the fields are all different.
proof fn names_are_distinct()
    ensures
        "event_id"@ != "event_type"@,
        "event_id"@ != "timestamp"@,
        "event_id"@ != "product_id"@,
        "event_id"@ != "zone_id"@,
        "event_id"@ != "quantity"@,
        "event_id"@ != "supplier_id"@,
        "event_type"@ != "timestamp"@,
        "event_type"@ != "product_id"@,
        "event_type"@ != "zone_id"@,
        "event_type"@ != "quantity"@,
        "event_type"@ != "supplier_id"@,
        "timestamp"@ != "product_id"@,
        "timestamp"@ != "zone_id"@,
        "timestamp"@ != "quantity"@,
        "timestamp"@ != "supplier_id"@,
        "product_id"@ != "zone_id"@,
        "product_id"@ != "quantity"@,
        "product_id"@ != "supplier_id"@,
        "zone_id"@ != "quantity"@,
        "zone_id"@ != "supplier_id"@,
        "quantity"@ != "supplier_id"@,
{
    reveal_strlit("event_id");
    reveal_strlit("event_type");
    reveal_strlit("timestamp");
    reveal_strlit("product_id");
    reveal_strlit("zone_id");
    reveal_strlit("quantity");
    reveal_strlit("supplier_id");
    assert("event_id"@.len() == 8 && "event_type"@.len() == 10 && "timestamp"@.len() == 9
        && "product_id"@.len() == 10 && "zone_id"@.len() == 7 && "quantity"@.len() == 8
        && "supplier_id"@.len() == 11);
    assert("event_id"@[0] == 'e' && "quantity"@[0] == 'q');
    assert("event_type"@[0] == 'e' && "product_id"@[0] == 'p');
}

/// The first six fields of a record of either schema are read as they were written.
proof fn common_fields_are_read(fields: Seq<AvroField>, w: Written)
    requires
        fields.len() == 6 || fields.len() == 7 && fields[6].name@ == "supplier_id"@,
        forall|i: int|
            0 <= i < 6 ==> (#[trigger] fields[i]).name@ == w.v1_record()->Record_0[i].0
                && fields[i].value@ == w.v1_record()->Record_0[i].1,
    ensures
        events::string_in(fields, "event_id"@) == Ok::<Seq<char>, EventFault>(w.event_id),
        events::string_in(fields, "event_type"@) == Ok::<Seq<char>, EventFault>(w.event_type),
        events::string_in(fields, "timestamp"@) == Ok::<Seq<char>, EventFault>(w.timestamp),
        events::string_in(fields, "product_id"@) == Ok::<Seq<char>, EventFault>(w.product_id),
        events::string_in(fields, "zone_id"@) == Ok::<Seq<char>, EventFault>(w.zone_id),
        events::long_in(fields, "quantity"@) == Ok::<int, EventFault>(w.quantity),
{
    names_are_distinct();
    let record = w.v1_record()->Record_0;
    assert(fields[0].name@ == record[0].0 && fields[0].value@ == record[0].1);
    assert(fields[1].name@ == record[1].0 && fields[1].value@ == record[1].1);
    assert(fields[2].name@ == record[2].0 && fields[2].value@ == record[2].1);
    assert(fields[3].name@ == record[3].0 && fields[3].value@ == record[3].1);
    assert(fields[4].name@ == record[4].0 && fields[4].value@ == record[4].1);
    assert(fields[5].name@ == record[5].0 && fields[5].value@ == record[5].1);
    events::field_is_last(fields, "event_id"@, 0);
    events::field_is_last(fields, "event_type"@, 1);
    events::field_is_last(fields, "timestamp"@, 2);
    events::field_is_last(fields, "product_id"@, 3);
    events::field_is_last(fields, "zone_id"@, 4);
    events::field_is_last(fields, "quantity"@, 5);
}

/// What a record of the first schema says of an event is what was written into it.
pub proof fn v1_record_says_what_was_written(
    record: Option<Vec<AvroField>>,
    w: Written,
    time: Timestamp,
)
    requires
        avro::are_fields(record, w.v1_record()),
        time::reads_as(w.timestamp, time),
    ensures
        events::parts_of(record) == Ok::<EventParts, EventFault>(w.parts(time, None)),
{
    names_are_distinct();
    let fields = record->0@;
    let written = w.v1_record()->Record_0;
    common_fields_are_read(fields, w);
    assert forall|j: int| 0 <= j < fields.len() implies (#[trigger] fields[j]).name@
        != "supplier_id"@ by {
        assert(fields[j].name@ == written[j].0);
    }
    events::field_is_absent(fields, "supplier_id"@);
}

/// What a record of the second schema says of an event is what was written into it.
pub proof fn v2_record_says_what_was_written(
    record: Option<Vec<AvroField>>,
    w: Written,
    time: Timestamp,
)
    requires
        avro::are_fields(record, w.v2_record()),
        time::reads_as(w.timestamp, time),
    ensures
        events::parts_of(record) == Ok::<EventParts, EventFault>(w.parts(time, w.supplier_id)),
{
    let fields = record->0@;
    let first = w.v1_record()->Record_0;
    let written = w.v2_record()->Record_0;
    assert(fields[6].name@ == written[6].0);
    assert(fields[6].value@ == supplier_choice(w.supplier_id));
    assert forall|i: int| 0 <= i < 6 implies (#[trigger] fields[i]).name@ == first[i].0
        && fields[i].value@ == first[i].1 by {
        assert(written[i] == first[i]);
    }
    common_fields_are_read(fields, w);
    events::field_is_last(fields, "supplier_id"@, 6);
    reveal_with_fuel(AvroValue::view, 2);
}

/// Whatever is written of an event of any type by the first schema comes out as it was
/// written: its message has the schema's id, and its body reads as an event of the same id,
/// type, time, product, zone and quantity, unless a text is too long to be read.
pub proof fn v1_event_comes_out_as_written(
    schema_id: u32,
    schema: Schema,
    w: Written,
    time: Timestamp,
    sent: Result<Vec<u8>, String>,
    r: Result<WarehouseEvent, EventError>,
)
    requires
        has_fields(avro::avro_tree(schema), 6),
        time::reads_as(w.timestamp, time),
        wire::encoded(schema_id, schema, w.v1_record(), sent),
        w.v1_record().is_readable(),
        sent matches Ok(message) ==> events::avro_event_read(schema, message@.skip(5), r),
    ensures
        sent is Ok,
        sent->Ok_0@ == wire::framed(schema_id, sent->Ok_0@.skip(5)),
        r is Ok,
        w.parts(time, None).make_up(r->Ok_0),
{
    v1_schema_takes_v1_records(avro::avro_tree(schema), w);
    let body = avro::avro_bytes(schema, w.v1_record())->0;
    assert(wire::framed(schema_id, body).skip(5) =~= body);
    let v = avro::avro_datum(schema, sent->Ok_0@.skip(5))->Ok_0;
    let record = choose|record: Option<Vec<AvroField>>| #[trigger]
        avro::are_fields(record, avro::avro_view(v)) && avro::print_well(record)
            && events::event_read(events::parts_of(record), r);
    v1_record_says_what_was_written(record, w, time);
}

/// Whatever is written of an event of any type by the second schema comes out as it was
/// written, with its supplier where it has one.
pub proof fn v2_event_comes_out_as_written(
    schema_id: u32,
    schema: Schema,
    w: Written,
    time: Timestamp,
    sent: Result<Vec<u8>, String>,
    r: Result<WarehouseEvent, EventError>,
)
    requires
        has_fields(avro::avro_tree(schema), 7),
        time::reads_as(w.timestamp, time),
        wire::encoded(schema_id, schema, w.v2_record(), sent),
        w.v2_record().is_readable(),
        sent matches Ok(message) ==> events::avro_event_read(schema, message@.skip(5), r),
    ensures
        sent is Ok,
        sent->Ok_0@ == wire::framed(schema_id, sent->Ok_0@.skip(5)),
        r is Ok,
        w.parts(time, w.supplier_id).make_up(r->Ok_0),
{
    v2_schema_takes_v2_records(avro::avro_tree(schema), w);
    let body = avro::avro_bytes(schema, w.v2_record())->0;
    assert(wire::framed(schema_id, body).skip(5) =~= body);
    let v = avro::avro_datum(schema, sent->Ok_0@.skip(5))->Ok_0;
    let record = choose|record: Option<Vec<AvroField>>| #[trigger]
        avro::are_fields(record, avro::avro_view(v)) && avro::print_well(record)
            && events::event_read(events::parts_of(record), r);
    v2_record_says_what_was_written(record, w, time);
}

/// Whether a text can be read, however long a message it is in.
pub open spec fn is_short(text: Seq<char>) -> bool {
    encode_utf8(text).len() <= avro::LONGEST_TEXT
}

/// A text has at most four bytes for each of its characters.
proof fn bytes_of_text(text: Seq<char>)
    ensures
        encode_utf8(text).len() <= 4 * text.len(),
    decreases text.len(),
{
    if text.len() > 0 {
        bytes_of_text(text.drop_first());
    }
}

/// Whether an event, and the payload that it is read to have, say that goods came in: of
/// which product, into which zone, how many, and from whom.
pub open spec fn says_received(
    event: WarehouseEvent,
    payload: Result<EventPayload, PayloadError>,
    event_id: Seq<char>,
    time: Timestamp,
    product_id: Seq<char>,
    zone_id: Seq<char>,
    quantity: int,
    supplier_id: Option<Seq<char>>,
) -> bool {
    &&& event.event_id@ == event_id
    &&& event.event_type@ == "PRODUCT_RECEIVED"@
    &&& event.timestamp == time
    &&& payload matches Ok(EventPayload::ProductReceived(p))
    &&& p.product_id@ == product_id
    &&& p.zone_id@ == zone_id
    &&& p.quantity == quantity
    &&& text::optional(p.supplier_id) == supplier_id
}

/// Whether a message that is published is one with that schema, from whose body the consumer
/// reads an event that says that those goods came in.
pub open spec fn is_received_as(
    schema_id: u32,
    schema: Schema,
    message: Seq<u8>,
    event_id: Seq<char>,
    time: Timestamp,
    product_id: Seq<char>,
    zone_id: Seq<char>,
    quantity: int,
    supplier_id: Option<Seq<char>>,
) -> bool {
    &&& message == wire::framed(schema_id, message.skip(5))
    &&& forall|r: Result<WarehouseEvent, EventError>| #[trigger]
        events::avro_event_read(schema, message.skip(5), r) ==> r is Ok && forall|
            payload: Result<EventPayload, PayloadError>,
        | #[trigger]
            payload::payload_read(r->Ok_0.event_type@, r->Ok_0.payload@, payload) ==> says_received(
                r->Ok_0,
                payload,
                event_id,
                time,
                product_id,
                zone_id,
                quantity,
                supplier_id,
            )
}

/// An event that is made of the parts of goods that came in says that they did.
proof fn parts_say_received(
    parts: EventParts,
    event: WarehouseEvent,
    payload: Result<EventPayload, PayloadError>,
)
    requires
        parts.make_up(event),
        parts.event_type == "PRODUCT_RECEIVED"@,
        i64::MIN <= parts.quantity <= i64::MAX,
        payload::payload_read(event.event_type@, event.payload@, payload),
    ensures
        says_received(
            event,
            payload,
            parts.event_id,
            parts.timestamp,
            parts.product_id,
            parts.zone_id,
            parts.quantity,
            parts.supplier_id,
        ),
{
    events::avro_payload_is_received(parts);
}

/// Goods that are published by the first schema are received as the request says: the
/// consumer reads an event of the given id and time that says that as many of the product
/// came into the zone, from nobody in particular.
pub proof fn v1_request_is_received(
    schema_id: u32,
    schema: Schema,
    event_id: Seq<char>,
    now: Timestamp,
    req: AvroV1Request,
    sent: Result<Vec<u8>, PublishError>,
)
    requires
        has_fields(avro::avro_tree(schema), 6),
        time::reads_as(time::rfc3339_text(now), now),
        is_short(event_id),
        is_short(time::rfc3339_text(now)),
        is_short(req.product_id@),
        is_short(req.zone_id@),
        publication(
            schema_id,
            schema,
            v1_written(event_id, time::rfc3339_text(now), req).v1_record(),
            sent,
        ),
    ensures
        sent is Ok,
        is_received_as(
            schema_id,
            schema,
            sent->Ok_0@,
            event_id,
            now,
            req.product_id@,
            req.zone_id@,
            req.quantity as int,
            None,
        ),
{
    let w = v1_written(event_id, time::rfc3339_text(now), req);
    let record = w.v1_record();
    reveal_strlit("PRODUCT_RECEIVED");
    bytes_of_text("PRODUCT_RECEIVED"@);
    reveal_with_fuel(AvroView::is_readable, 3);
    assert(record.is_readable());
    v1_schema_takes_v1_records(avro::avro_tree(schema), w);
    let body = avro::avro_bytes(schema, record)->0;
    let message = sent->Ok_0@;
    assert(wire::framed(schema_id, body).skip(5) =~= body);
    assert forall|r: Result<WarehouseEvent, EventError>| #[trigger]
        events::avro_event_read(schema, message.skip(5), r) implies r is Ok && forall|
        payload: Result<EventPayload, PayloadError>,
    | #[trigger]
        payload::payload_read(r->Ok_0.event_type@, r->Ok_0.payload@, payload) ==> says_received(
            r->Ok_0,
            payload,
            event_id,
            now,
            req.product_id@,
            req.zone_id@,
            req.quantity as int,
            None,
        ) by {
        let v = avro::avro_datum(schema, message.skip(5))->Ok_0;
        let fields = choose|fields: Option<Vec<AvroField>>| #[trigger]
            avro::are_fields(fields, avro::avro_view(v)) && avro::print_well(fields)
                && events::event_read(events::parts_of(fields), r);
        v1_record_says_what_was_written(fields, w, now);
        assert forall|payload: Result<EventPayload, PayloadError>| #[trigger]
            payload::payload_read(
                r->Ok_0.event_type@,
                r->Ok_0.payload@,
                payload,
            ) implies says_received(
            r->Ok_0,
            payload,
            event_id,
            now,
            req.product_id@,
            req.zone_id@,
            req.quantity as int,
            None,
        ) by {
            parts_say_received(w.parts(now, None), r->Ok_0, payload);
        }
    }
}

/// Goods that are published by the second schema are received as the request says, with the
/// supplier that it names, or none where it names none.
pub proof fn v2_request_is_received(
    schema_id: u32,
    schema: Schema,
    event_id: Seq<char>,
    now: Timestamp,
    req: AvroV2Request,
    sent: Result<Vec<u8>, PublishError>,
)
    requires
        has_fields(avro::avro_tree(schema), 7),
        time::reads_as(time::rfc3339_text(now), now),
        is_short(event_id),
        is_short(time::rfc3339_text(now)),
        is_short(req.product_id@),
        is_short(req.zone_id@),
        req.supplier_id matches Some(s) ==> is_short(s@),
        publication(
            schema_id,
            schema,
            v2_written(event_id, time::rfc3339_text(now), req).v2_record(),
            sent,
        ),
    ensures
        sent is Ok,
        is_received_as(
            schema_id,
            schema,
            sent->Ok_0@,
            event_id,
            now,
            req.product_id@,
            req.zone_id@,
            req.quantity as int,
            match req.supplier_id {
                Some(s) => Some(s@),
                None => None,
            },
        ),
{
    let w = v2_written(event_id, time::rfc3339_text(now), req);
    let record = w.v2_record();
    let supplier_id = text::optional(req.supplier_id);
    reveal_strlit("PRODUCT_RECEIVED");
    bytes_of_text("PRODUCT_RECEIVED"@);
    reveal_with_fuel(AvroView::is_readable, 3);
    assert forall|i: int| 0 <= i < record->Record_0.len() implies (
    #[trigger] record->Record_0[i]).1.is_readable() by {
        if i < 6 {
            assert(record->Record_0[i] == w.v1_record()->Record_0[i]);
        }
    }
    assert(record.is_readable());
    v2_schema_takes_v2_records(avro::avro_tree(schema), w);
    let body = avro::avro_bytes(schema, record)->0;
    let message = sent->Ok_0@;
    assert(wire::framed(schema_id, body).skip(5) =~= body);
    assert forall|r: Result<WarehouseEvent, EventError>| #[trigger]
        events::avro_event_read(schema, message.skip(5), r) implies r is Ok && forall|
        payload: Result<EventPayload, PayloadError>,
    | #[trigger]
        payload::payload_read(r->Ok_0.event_type@, r->Ok_0.payload@, payload) ==> says_received(
            r->Ok_0,
            payload,
            event_id,
            now,
            req.product_id@,
            req.zone_id@,
            req.quantity as int,
            supplier_id,
        ) by {
        let v = avro::avro_datum(schema, message.skip(5))->Ok_0;
        let fields = choose|fields: Option<Vec<AvroField>>| #[trigger]
            avro::are_fields(fields, avro::avro_view(v)) && avro::print_well(fields)
                && events::event_read(events::parts_of(fields), r);
        v2_record_says_what_was_written(fields, w, now);
        assert forall|payload: Result<EventPayload, PayloadError>| #[trigger]
            payload::payload_read(
                r->Ok_0.event_type@,
                r->Ok_0.payload@,
                payload,
            ) implies says_received(
            r->Ok_0,
            payload,
            event_id,
            now,
            req.product_id@,
            req.zone_id@,
            req.quantity as int,
            supplier_id,
        ) by {
            parts_say_received(w.parts(now, supplier_id), r->Ok_0, payload);
        }
    }
}

} // verus!

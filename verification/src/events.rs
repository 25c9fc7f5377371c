//! Warehouse events.
use crate::avro;
use crate::avro::{decode_datum, read_fields, AvroField, AvroValue};
use crate::json;
use crate::json::{Json, JsonView};
use crate::payload;
use crate::payload::{decode_payload, EventPayload, PayloadError};
use crate::text;
use crate::text::{join2, join3, same_text};
use crate::time;
use crate::time::{parse_utc, Timestamp};
use apache_avro::types::Value;
use apache_avro::Schema;
use vstd::prelude::*;

verus! {

/// Something that happened in the warehouse.
#[derive(Debug)]
pub struct WarehouseEvent {
    pub event_id: String,
    pub event_type: String,
    pub timestamp: Timestamp,
    pub sequence_number: Option<i64>,
    pub payload: Json,
}

impl WarehouseEvent {
    /// Reads the payload by the event's type.
    pub fn parse_payload(&self) -> (r: Result<EventPayload, PayloadError>)
        ensures
            payload::payload_read(self.event_type@, self.payload@, r),
    {
        decode_payload(self.event_type.as_str(), &self.payload)
    }
}

/// Why an Avro value is no event.
#[derive(Debug)]
pub enum EventError {
    /// What the reading of the bytes reported.
    Avro(String),
    NotARecord,
    /// A field is not a string: its name, and what is there, as it prints.
    NotAString(String, String),
    /// A field is not a number.
    NotALong(String, String),
    Timestamp(String),
}

/// What an [`EventError`] holds.
pub enum EventFault {
    Avro(Seq<char>),
    NotARecord,
    NotAString(Seq<char>, Seq<char>),
    NotALong(Seq<char>, Seq<char>),
    Timestamp(Seq<char>),
}

impl View for EventError {
    type V = EventFault;

    open spec fn view(&self) -> EventFault {
        match self {
            EventError::Avro(m) => EventFault::Avro(m@),
            EventError::NotARecord => EventFault::NotARecord,
            EventError::NotAString(field, got) => EventFault::NotAString(field@, got@),
            EventError::NotALong(field, got) => EventFault::NotALong(field@, got@),
            EventError::Timestamp(m) => EventFault::Timestamp(m@),
        }
    }
}

impl EventFault {
    /// The error's message.
    pub open spec fn text(self) -> Seq<char> {
        match self {
            EventFault::Avro(m) => m,
            EventFault::NotARecord => "expected Avro record"@,
            EventFault::NotAString(field, got) => "field '"@ + field + "': expected string, got "@
                + got,
            EventFault::NotALong(field, got) => "field '"@ + field + "': expected long, got "@
                + got,
            EventFault::Timestamp(m) => "invalid timestamp in avro: "@ + m,
        }
    }
}

impl EventError {
    /// The error's message.
    pub fn message(&self) -> (r: String)
        ensures
            r@ == self@.text(),
    {
        match self {
            EventError::Avro(m) => m.clone(),
            EventError::NotARecord => "expected Avro record".to_string(),
            EventError::NotAString(field, got) => {
                let mut out = join3("field '", field.as_str(), "': expected string, got ");
                out.append(got.as_str());
                out
            },
            EventError::NotALong(field, got) => {
                let mut out = join3("field '", field.as_str(), "': expected long, got ");
                out.append(got.as_str());
                out
            },
            EventError::Timestamp(m) => join2("invalid timestamp in avro: ", m.as_str()),
        }
    }
}

/// The place of the last field of that name.
pub open spec fn last_place(fields: Seq<AvroField>, name: Seq<char>) -> Option<int>
    decreases fields.len(),
{
    if fields.len() == 0 {
        None
    } else if fields.last().name@ == name {
        Some(fields.len() - 1)
    } else {
        last_place(fields.drop_last(), name)
    }
}

/// The last field of that name.
pub open spec fn field_named(fields: Seq<AvroField>, name: Seq<char>) -> Option<
    AvroField,
> {
    match last_place(fields, name) {
        Some(i) => Some(fields[i]),
        None => None,
    }
}

/// The last field of a name is the one after which there is no other.
pub proof fn field_is_last(fields: Seq<AvroField>, name: Seq<char>, i: int)
    requires
        0 <= i < fields.len(),
        fields[i].name@ == name,
        forall|j: int| i < j < fields.len() ==> (#[trigger] fields[j]).name@ != name,
    ensures
        field_named(fields, name) == Some(fields[i]),
    decreases fields.len(),
{
    if i < fields.len() - 1 {
        assert(fields[fields.len() - 1].name@ != name);
        assert forall|j: int| i < j < fields.len() - 1 implies (
        #[trigger] fields.drop_last()[j]).name@ != name by {
            assert(fields.drop_last()[j] == fields[j]);
        }
        field_is_last(fields.drop_last(), name, i);
        last_place_is_within(fields.drop_last(), name);
    }
}

proof fn last_place_is_within(fields: Seq<AvroField>, name: Seq<char>)
    ensures
        match last_place(fields, name) {
            Some(i) => 0 <= i < fields.len(),
            None => true,
        },
    decreases fields.len(),
{
    if fields.len() > 0 {
        last_place_is_within(fields.drop_last(), name);
    }
}

/// Where no field has a name, none is found by it.
pub proof fn field_is_absent(fields: Seq<AvroField>, name: Seq<char>)
    requires
        forall|j: int| 0 <= j < fields.len() ==> (#[trigger] fields[j]).name@ != name,
    ensures
        field_named(fields, name) is None,
    decreases fields.len(),
{
    if fields.len() > 0 {
        assert(fields[fields.len() - 1].name@ != name);
        assert forall|j: int| 0 <= j < fields.len() - 1 implies (
        #[trigger] fields.drop_last()[j]).name@ != name by {
            assert(fields.drop_last()[j] == fields[j]);
        }
        field_is_absent(fields.drop_last(), name);
    }
}

fn find_field<'a>(fields: &'a Vec<AvroField>, name: &str) -> (r: Option<&'a AvroField>)
    ensures
        match r {
            Some(v) => field_named(fields@, name@) == Some(*v),
            None => field_named(fields@, name@) is None,
        },
{
    let mut n: usize = fields.len();
    assert(fields@.take(n as int) =~= fields@);
    while n > 0
        invariant
            n <= fields.len(),
            last_place(fields@, name@) == last_place(fields@.take(n as int), name@),
        decreases n,
    {
        assert(fields@.take(n as int).last() == fields@[n - 1]);
        assert(fields@.take(n as int).drop_last() =~= fields@.take(n - 1));
        if same_text(fields[n - 1].name.as_str(), name) {
            return Some(&fields[n - 1]);
        }
        n -= 1;
    }
    None
}

/// How a field, or its absence, prints.
pub open spec fn printed_field(field: Option<AvroField>) -> Seq<char> {
    match field {
        Some(f) => "Some("@ + f.printed@ + ")"@,
        None => "None"@,
    }
}

fn print_field(fields: &Vec<AvroField>, name: &str) -> (r: String)
    ensures
        r@ == printed_field(field_named(fields@, name@)),
{
    match find_field(fields, name) {
        Some(f) => join3("Some(", f.printed.as_str(), ")"),
        None => "None".to_string(),
    }
}

/// The value of the last field of that name.
pub open spec fn value_named(fields: Seq<AvroField>, name: Seq<char>) -> Option<AvroValue> {
    match field_named(fields, name) {
        Some(f) => Some(f.value),
        None => None,
    }
}

fn find_value<'a>(fields: &'a Vec<AvroField>, name: &str) -> (r: Option<&'a AvroValue>)
    ensures
        match r {
            Some(v) => value_named(fields@, name@) == Some(*v),
            None => value_named(fields@, name@) is None,
        },
{
    match find_field(fields, name) {
        Some(f) => Some(&f.value),
        None => None,
    }
}

/// The text in a field.
pub open spec fn string_in(fields: Seq<AvroField>, name: Seq<char>) -> Result<
    Seq<char>,
    EventFault,
> {
    match value_named(fields, name) {
        Some(AvroValue::String(s)) => Ok(s@),
        _ => Err(EventFault::NotAString(name, printed_field(field_named(fields, name)))),
    }
}

/// The number in a field.
pub open spec fn long_in(fields: Seq<AvroField>, name: Seq<char>) -> Result<int, EventFault> {
    match value_named(fields, name) {
        Some(AvroValue::Long(n)) => Ok(n as int),
        Some(AvroValue::Int(n)) => Ok(n as int),
        _ => Err(EventFault::NotALong(name, printed_field(field_named(fields, name)))),
    }
}

/// The text in a field, or in a choice, where there is one.
pub open spec fn optional_string_in(fields: Seq<AvroField>, name: Seq<char>) -> Option<
    Seq<char>,
> {
    match value_named(fields, name) {
        Some(AvroValue::Union(_, v)) => match *v {
            AvroValue::String(s) => Some(s@),
            _ => None,
        },
        Some(AvroValue::String(s)) => Some(s@),
        _ => None,
    }
}

fn avro_str(fields: &Vec<AvroField>, key: &str) -> (r: Result<String, EventError>)
    ensures
        match r {
            Ok(s) => string_in(fields@, key@) == Ok::<Seq<char>, EventFault>(s@),
            Err(e) => string_in(fields@, key@) == Err::<Seq<char>, EventFault>(e@),
        },
{
    match find_value(fields, key) {
        Some(AvroValue::String(s)) => Ok(s.clone()),
        _ => Err(EventError::NotAString(key.to_string(), print_field(fields, key))),
    }
}

fn avro_long(fields: &Vec<AvroField>, key: &str) -> (r: Result<i64, EventError>)
    ensures
        match r {
            Ok(n) => long_in(fields@, key@) == Ok::<int, EventFault>(n as int),
            Err(e) => long_in(fields@, key@) == Err::<int, EventFault>(e@),
        },
{
    match find_value(fields, key) {
        Some(AvroValue::Long(n)) => Ok(*n),
        Some(AvroValue::Int(n)) => Ok(*n as i64),
        _ => Err(EventError::NotALong(key.to_string(), print_field(fields, key))),
    }
}

fn avro_optional_str(fields: &Vec<AvroField>, key: &str) -> (r: Option<String>)
    ensures
        text::optional(r) == optional_string_in(fields@, key@),
{
    match find_value(fields, key) {
        Some(AvroValue::Union(_, v)) => match &**v {
            AvroValue::String(s) => Some(s.clone()),
            _ => None,
        },
        Some(AvroValue::String(s)) => Some(s.clone()),
        _ => None,
    }
}

/// What an Avro record says of an event.
pub struct EventParts {
    pub event_id: Seq<char>,
    pub event_type: Seq<char>,
    pub timestamp: Timestamp,
    pub product_id: Seq<char>,
    pub zone_id: Seq<char>,
    pub quantity: int,
    pub supplier_id: Option<Seq<char>>,
}

/// What the fields of an Avro record say of an event: the first one that cannot be read
/// is what is wrong with it.
pub open spec fn parts_in(fields: Seq<AvroField>) -> Result<EventParts, EventFault> {
    match string_in(fields, "event_id"@) {
        Err(e) => Err(e),
        Ok(event_id) => match string_in(fields, "event_type"@) {
            Err(e) => Err(e),
            Ok(event_type) => match string_in(fields, "timestamp"@) {
                Err(e) => Err(e),
                Ok(written) => match time::utc_instant(written) {
                    Err(m) => Err(EventFault::Timestamp(m)),
                    Ok(timestamp) => match string_in(fields, "product_id"@) {
                        Err(e) => Err(e),
                        Ok(product_id) => match string_in(fields, "zone_id"@) {
                            Err(e) => Err(e),
                            Ok(zone_id) => match long_in(fields, "quantity"@) {
                                Err(e) => Err(e),
                                Ok(quantity) => Ok(
                                    EventParts {
                                        event_id,
                                        event_type,
                                        timestamp,
                                        product_id,
                                        zone_id,
                                        quantity,
                                        supplier_id: optional_string_in(
                                            fields,
                                            "supplier_id"@,
                                        ),
                                    },
                                ),
                            },
                        },
                    },
                },
            },
        },
    }
}

/// What an Avro value says of an event, where it is a record with those fields.
pub open spec fn parts_of(record: Option<Vec<AvroField>>) -> Result<EventParts, EventFault> {
    match record {
        Some(fields) => parts_in(fields@),
        None => Err(EventFault::NotARecord),
    }
}

impl EventParts {
    /// The payload of the event.
    pub open spec fn payload(self) -> JsonView {
        JsonView::Object(
            seq![
                ("product_id"@, JsonView::String(self.product_id)),
                ("quantity"@, JsonView::Integer(self.quantity)),
                (
                    "supplier_id"@,
                    match self.supplier_id {
                        Some(s) => JsonView::String(s),
                        None => JsonView::Null,
                    },
                ),
                ("zone_id"@, JsonView::String(self.zone_id)),
            ],
        )
    }

    /// Whether an event is the one that those parts make up.
    pub open spec fn make_up(self, event: WarehouseEvent) -> bool {
        &&& event.event_id@ == self.event_id
        &&& event.event_type@ == self.event_type
        &&& event.timestamp == self.timestamp
        &&& event.sequence_number is None
        &&& event.payload@ == self.payload()
    }
}

/// Whether that is what comes of a value that says so of an event.
pub open spec fn event_read(
    parts: Result<EventParts, EventFault>,
    r: Result<WarehouseEvent, EventError>,
) -> bool {
    match parts {
        Ok(parts) => r matches Ok(event) && parts.make_up(event),
        Err(fault) => r matches Err(e) && e@ == fault,
    }
}

/// Reads an event from the fields of an Avro record, where there is one.
pub fn event_from_avro(record: &Option<Vec<AvroField>>) -> (r: Result<WarehouseEvent, EventError>)
    ensures
        event_read(parts_of(*record), r),
{
    let fields = match record {
        Some(fields) => fields,
        None => {
            return Err(EventError::NotARecord);
        },
    };
    let event_id = match avro_str(fields, "event_id") {
        Ok(s) => s,
        Err(e) => {
            return Err(e);
        },
    };
    let event_type = match avro_str(fields, "event_type") {
        Ok(s) => s,
        Err(e) => {
            return Err(e);
        },
    };
    let written = match avro_str(fields, "timestamp") {
        Ok(s) => s,
        Err(e) => {
            return Err(e);
        },
    };
    let timestamp = match parse_utc(written.as_str()) {
        Ok(t) => t,
        Err(m) => {
            return Err(EventError::Timestamp(m));
        },
    };
    let product_id = match avro_str(fields, "product_id") {
        Ok(s) => s,
        Err(e) => {
            return Err(e);
        },
    };
    let zone_id = match avro_str(fields, "zone_id") {
        Ok(s) => s,
        Err(e) => {
            return Err(e);
        },
    };
    let quantity: i64 = match avro_long(fields, "quantity") {
        Ok(n) => n,
        Err(e) => {
            return Err(e);
        },
    };
    let supplier_id = avro_optional_str(fields, "supplier_id");
    let ghost parts = parts_of(*record)->Ok_0;
    let supplier = match supplier_id {
        Some(s) => Json::String(s),
        None => Json::Null,
    };
    let ghost supplier_view = supplier@;
    let members = vec![
        ("product_id".to_string(), Json::String(product_id)),
        ("quantity".to_string(), Json::Integer(quantity as i128)),
        ("supplier_id".to_string(), supplier),
        ("zone_id".to_string(), Json::String(zone_id)),
    ];
    assert(members@[0].1@ == JsonView::String(parts.product_id));
    assert(members@[1].1@ == JsonView::Integer(parts.quantity));
    assert(members@[2].1@ == supplier_view);
    assert(members@[3].1@ == JsonView::String(parts.zone_id));
    let payload = Json::Object(members);
    assert(payload@->Object_0 =~= parts.payload()->Object_0);
    Ok(WarehouseEvent { event_id, event_type, timestamp, sequence_number: None, payload })
}

/// Whether that is what comes of an attempt to read an Avro value.
pub open spec fn datum_event_read(
    datum: Result<Value, Seq<char>>,
    r: Result<WarehouseEvent, EventError>,
) -> bool {
    match datum {
        Ok(v) => exists|record: Option<Vec<AvroField>>| #[trigger]
            avro::are_fields(record, avro::avro_view(v)) && avro::print_well(record)
                && event_read(parts_of(record), r),
        Err(m) => event_read(Err(EventFault::Avro(m)), r),
    }
}

/// Reads an event from an Avro value, where there is one.
pub fn event_from_datum(datum: Result<Value, String>) -> (r: Result<WarehouseEvent, EventError>)
    ensures
        datum_event_read(text::fallible(datum), r),
{
    match datum {
        Ok(v) => {
            let record = read_fields(v);
            assert(avro::are_fields(record, avro::avro_view(v)));
            event_from_avro(&record)
        },
        Err(m) => Err(EventError::Avro(m)),
    }
}

/// Whether that is what comes of Avro bytes, read by their schema.
pub open spec fn avro_event_read(
    schema: Schema,
    data: Seq<u8>,
    r: Result<WarehouseEvent, EventError>,
) -> bool {
    datum_event_read(avro::avro_datum(schema, data), r)
}

/// Reads an event from Avro bytes, by their schema.
pub fn decode_avro_event(data: &[u8], schema: &Schema) -> (r: Result<WarehouseEvent, EventError>)
    requires
        !avro::schema_is_endless(*schema),
    ensures
        avro_event_read(*schema, data@, r),
{
    event_from_datum(decode_datum(schema, data))
}

/// The payload of an event that came as Avro reads as goods that came in, with the
/// product, the zone, the quantity and the supplier of the record.
pub proof fn avro_payload_is_received(parts: EventParts)
    requires
        i64::MIN <= parts.quantity <= i64::MAX,
    ensures
        payload::struct_problem(payload::Shape::ProductReceived, parts.payload()) is None,
        payload::text_at(payload::Shape::ProductReceived, parts.payload(), 0) == parts.product_id,
        payload::text_at(payload::Shape::ProductReceived, parts.payload(), 1) == parts.zone_id,
        payload::integer_at(payload::Shape::ProductReceived, parts.payload(), 2) == parts.quantity,
        payload::optional_text_at(payload::Shape::ProductReceived, parts.payload(), 3)
            == parts.supplier_id,
{
    let shape = payload::Shape::ProductReceived;
    let fields = shape.fields();
    let members = parts.payload()->Object_0;
    reveal_strlit("product_id");
    reveal_strlit("zone_id");
    reveal_strlit("quantity");
    reveal_strlit("supplier_id");
    assert("product_id"@.len() == 10 && "zone_id"@.len() == 7 && "quantity"@.len() == 8
        && "supplier_id"@.len() == 11);
    payload::field_is_found(shape, 0);
    payload::field_is_found(shape, 1);
    payload::field_is_found(shape, 2);
    payload::field_is_found(shape, 3);
    reveal_with_fuel(json::find_member, 5);
    assert(members.drop_first() =~= seq![members[1], members[2], members[3]]);
    assert(members.drop_first().drop_first() =~= seq![members[2], members[3]]);
    assert(members.drop_first().drop_first().drop_first() =~= seq![members[3]]);
    assert(payload::value_problem(payload::FieldType::Text, members[0].1) is None);
    assert(payload::value_problem(payload::FieldType::Integer, members[1].1) is None);
    assert(payload::value_problem(payload::FieldType::OptionalText, members[2].1) is None);
    assert(payload::value_problem(payload::FieldType::Text, members[3].1) is None);
    assert(payload::members_problem(shape, members, 4) is None);
    assert(payload::members_problem(shape, members, 3) is None);
    assert(payload::members_problem(shape, members, 2) is None);
    assert(payload::members_problem(shape, members, 1) is None);
    assert(payload::members_problem(shape, members, 0) is None);
    assert(payload::missing_problem(fields, members, 4) is None);
    assert(payload::missing_problem(fields, members, 3) is None);
    assert(payload::missing_problem(fields, members, 2) is None);
    assert(payload::missing_problem(fields, members, 1) is None);
}

/// Whether the last field of a name has a text.
pub open spec fn has_text(fields: Seq<AvroField>, name: Seq<char>) -> bool {
    exists|i: int|
        {
            &&& 0 <= i < fields.len()
            &&& (#[trigger] fields[i]).name@ == name
            &&& fields[i].value is String
            &&& forall|j: int| i < j < fields.len() ==> (#[trigger] fields[j]).name@ != name
        }
}

/// Whether the last field of a name has a number.
pub open spec fn has_number(fields: Seq<AvroField>, name: Seq<char>) -> bool {
    exists|i: int|
        {
            &&& 0 <= i < fields.len()
            &&& (#[trigger] fields[i]).name@ == name
            &&& fields[i].value is Long || fields[i].value is Int
            &&& forall|j: int| i < j < fields.len() ==> (#[trigger] fields[j]).name@ != name
        }
}

/// The field of a name that counts is the last one.
proof fn named_field_is_the_last(fields: Seq<AvroField>, name: Seq<char>)
    ensures
        match last_place(fields, name) {
            Some(i) => 0 <= i < fields.len() && fields[i].name@ == name && forall|j: int|
                i < j < fields.len() ==> (#[trigger] fields[j]).name@ != name,
            None => forall|j: int| 0 <= j < fields.len() ==> (#[trigger] fields[j]).name@ != name,
        },
    decreases fields.len(),
{
    if fields.len() > 0 && fields.last().name@ != name {
        let rest = fields.drop_last();
        named_field_is_the_last(rest, name);
        assert forall|j: int|
            0 <= j < fields.len() - 1 && (last_place(fields, name) matches Some(i) ==> i
                < j) implies (#[trigger] fields[j]).name@ != name by {
            assert(rest[j].name@ != name);
        }
    }
}

proof fn text_is_read_exactly_if(fields: Seq<AvroField>, name: Seq<char>)
    ensures
        string_in(fields, name) is Ok <==> has_text(fields, name),
        string_in(fields, name) is Err ==> string_in(fields, name)->Err_0
            == EventFault::NotAString(name, printed_field(field_named(fields, name))),
{
    named_field_is_the_last(fields, name);
    if string_in(fields, name) is Ok {
        let i = last_place(fields, name)->0;
        assert(fields[i].value is String);
    }
    if has_text(fields, name) {
        let i = choose|i: int|
            {
                &&& 0 <= i < fields.len()
                &&& (#[trigger] fields[i]).name@ == name
                &&& fields[i].value is String
                &&& forall|j: int| i < j < fields.len() ==> (#[trigger] fields[j]).name@ != name
            };
        assert(last_place(fields, name) == Some(i));
    }
}

proof fn number_is_read_exactly_if(fields: Seq<AvroField>, name: Seq<char>)
    ensures
        long_in(fields, name) is Ok <==> has_number(fields, name),
{
    named_field_is_the_last(fields, name);
    if long_in(fields, name) is Ok {
        let i = last_place(fields, name)->0;
        assert(fields[i].value is Long || fields[i].value is Int);
    }
    if has_number(fields, name) {
        let i = choose|i: int|
            {
                &&& 0 <= i < fields.len()
                &&& (#[trigger] fields[i]).name@ == name
                &&& fields[i].value is Long || fields[i].value is Int
                &&& forall|j: int| i < j < fields.len() ==> (#[trigger] fields[j]).name@ != name
            };
        assert(last_place(fields, name) == Some(i));
    }
}

/// An Avro record is an event exactly if it has a text for the id, the type, the time, the
/// product and the zone, a number for the quantity, and the time reads as one; what it has
/// besides, and whether it has a supplier, does not matter.
pub proof fn record_is_an_event_exactly_if(fields: Seq<AvroField>)
    ensures
        parts_in(fields) is Ok <==> {
            &&& has_text(fields, "event_id"@)
            &&& has_text(fields, "event_type"@)
            &&& has_text(fields, "timestamp"@)
            &&& has_text(fields, "product_id"@)
            &&& has_text(fields, "zone_id"@)
            &&& has_number(fields, "quantity"@)
            &&& time::utc_instant(string_in(fields, "timestamp"@)->Ok_0) is Ok
        },
{
    text_is_read_exactly_if(fields, "event_id"@);
    text_is_read_exactly_if(fields, "event_type"@);
    text_is_read_exactly_if(fields, "timestamp"@);
    text_is_read_exactly_if(fields, "product_id"@);
    text_is_read_exactly_if(fields, "zone_id"@);
    number_is_read_exactly_if(fields, "quantity"@);
}

/// Whether the last field of a name is that value.
pub open spec fn last_is(fields: Seq<AvroField>, name: Seq<char>, value: AvroValue) -> bool {
    exists|i: int|
        {
            &&& 0 <= i < fields.len()
            &&& (#[trigger] fields[i]).name@ == name
            &&& fields[i].value == value
            &&& forall|j: int| i < j < fields.len() ==> (#[trigger] fields[j]).name@ != name
        }
}

/// What is read from a record is what its fields say, each by its name: the last field of a
/// name counts, a number of 32 bits as well as one of 64, and a supplier as a text or in a
/// choice.
pub proof fn record_is_read_by_names(fields: Seq<AvroField>, name: Seq<char>, value: AvroValue)
    requires
        last_is(fields, name, value),
        parts_in(fields) is Ok,
    ensures
        ({
            let parts = parts_in(fields)->Ok_0;
            &&& name == "event_id"@ ==> value is String && parts.event_id == value->String_0@
            &&& name == "event_type"@ ==> value is String && parts.event_type == value->String_0@
            &&& name == "timestamp"@ ==> value is String && time::utc_instant(value->String_0@)
                == Ok::<Timestamp, Seq<char>>(parts.timestamp)
            &&& name == "product_id"@ ==> value is String && parts.product_id == value->String_0@
            &&& name == "zone_id"@ ==> value is String && parts.zone_id == value->String_0@
            &&& name == "quantity"@ ==> match value {
                AvroValue::Long(n) => parts.quantity == n,
                AvroValue::Int(n) => parts.quantity == n,
                _ => false,
            }
            &&& name == "supplier_id"@ ==> match value {
                AvroValue::String(s) => parts.supplier_id == Some(s@),
                AvroValue::Union(_, v) => match *v {
                    AvroValue::String(s) => parts.supplier_id == Some(s@),
                    _ => parts.supplier_id is None,
                },
                _ => parts.supplier_id is None,
            }
        }),
{
    named_field_is_the_last(fields, name);
    let i = choose|i: int|
        {
            &&& 0 <= i < fields.len()
            &&& (#[trigger] fields[i]).name@ == name
            &&& fields[i].value == value
            &&& forall|j: int| i < j < fields.len() ==> (#[trigger] fields[j]).name@ != name
        };
    assert(last_place(fields, name) == Some(i));
}

/// A record without a field for the supplier has none.
pub proof fn record_without_supplier_has_none(fields: Seq<AvroField>)
    requires
        parts_in(fields) is Ok,
        forall|j: int| 0 <= j < fields.len() ==> (#[trigger] fields[j]).name@ != "supplier_id"@,
    ensures
        (parts_in(fields)->Ok_0).supplier_id is None,
{
    field_is_absent(fields, "supplier_id"@);
}

/// What is wrong with a value is told with the field and what is there.
pub proof fn faults_are_told_like_this(m: Seq<char>, field: Seq<char>, got: Seq<char>)
    ensures
        EventFault::Avro(m).text() == m,
        EventFault::NotARecord.text() == "expected Avro record"@,
        EventFault::NotAString(field, got).text() == "field '"@ + field
            + "': expected string, got "@ + got,
        EventFault::NotALong(field, got).text() == "field '"@ + field + "': expected long, got "@
            + got,
        EventFault::Timestamp(m).text() == "invalid timestamp in avro: "@ + m,
        printed_field(None) == "None"@,
        parts_of(None) == Err::<EventParts, EventFault>(EventFault::NotARecord),
        forall|f: AvroField| #[trigger] printed_field(Some(f)) == "Some("@ + f.printed@ + ")"@,
{
}

/// The first field that is not what it should be is what is wrong with a record: the id, the
/// type, the time, the product, the zone and the quantity are looked at in this order.
pub proof fn first_fault_is_told(fields: Seq<AvroField>)
    ensures
        ({
            let is_fault = |name: Seq<char>|
                parts_in(fields) == Err::<EventParts, EventFault>(
                    EventFault::NotAString(name, printed_field(field_named(fields, name))),
                );
            let id = has_text(fields, "event_id"@);
            let kind = id && has_text(fields, "event_type"@);
            let written = kind && has_text(fields, "timestamp"@);
            let time = time::utc_instant(string_in(fields, "timestamp"@)->Ok_0);
            let product = written && time is Ok && has_text(fields, "product_id"@);
            let zone = product && has_text(fields, "zone_id"@);
            &&& !id ==> is_fault("event_id"@)
            &&& id && !kind ==> is_fault("event_type"@)
            &&& kind && !written ==> is_fault("timestamp"@)
            &&& written && time is Err ==> parts_in(fields) == Err::<EventParts, EventFault>(
                EventFault::Timestamp(time->Err_0),
            )
            &&& written && time is Ok && !product ==> is_fault("product_id"@)
            &&& product && !zone ==> is_fault("zone_id"@)
            &&& zone && !has_number(fields, "quantity"@) ==> parts_in(fields) == Err::<
                EventParts,
                EventFault,
            >(
                EventFault::NotALong(
                    "quantity"@,
                    printed_field(field_named(fields, "quantity"@)),
                ),
            )
        }),
{
    text_is_read_exactly_if(fields, "event_id"@);
    text_is_read_exactly_if(fields, "event_type"@);
    text_is_read_exactly_if(fields, "timestamp"@);
    text_is_read_exactly_if(fields, "product_id"@);
    text_is_read_exactly_if(fields, "zone_id"@);
    number_is_read_exactly_if(fields, "quantity"@);
}

/// Bytes that cannot be read are no event, and what was reported of them is passed on; a
/// value that is no record is no event either.
pub proof fn unreadable_bytes_are_no_event(
    schema: Schema,
    data: Seq<u8>,
    r: Result<WarehouseEvent, EventError>,
)
    requires
        avro_event_read(schema, data, r),
    ensures
        avro::avro_datum(schema, data) matches Err(m) ==> r is Err && (r->Err_0)@.text() == m,
        avro::avro_datum(schema, data) matches Ok(v) ==> !(avro::avro_view(v) is Record) ==> r
            is Err && (r->Err_0)@.text() == "expected Avro record"@,
{
}

/// The payload of an event that came as Avro has the product, the zone, the quantity and the
/// supplier under these names, and null where there is no supplier.
pub proof fn avro_payload_has_its_members(parts: EventParts)
    ensures
        json::member_of(parts.payload(), "product_id"@) == Some(
            JsonView::String(parts.product_id),
        ),
        json::member_of(parts.payload(), "zone_id"@) == Some(JsonView::String(parts.zone_id)),
        json::member_of(parts.payload(), "quantity"@) == Some(JsonView::Integer(parts.quantity)),
        json::member_of(parts.payload(), "supplier_id"@) == Some(
            match parts.supplier_id {
                Some(s) => JsonView::String(s),
                None => JsonView::Null,
            },
        ),
{
    let members = parts.payload()->Object_0;
    reveal_strlit("product_id");
    reveal_strlit("zone_id");
    reveal_strlit("quantity");
    reveal_strlit("supplier_id");
    assert("product_id"@.len() == 10 && "zone_id"@.len() == 7 && "quantity"@.len() == 8
        && "supplier_id"@.len() == 11);
    reveal_with_fuel(json::find_member, 5);
    assert(members.drop_first() =~= seq![members[1], members[2], members[3]]);
    assert(members.drop_first().drop_first() =~= seq![members[2], members[3]]);
    assert(members.drop_first().drop_first().drop_first() =~= seq![members[3]]);
}

} // verus!

//! Messages as they go over the wire: a zero byte, the id of the schema, the Avro bytes.
use crate::avro;
use crate::avro::{encode_datum, make_value, AvroValue, AvroView};
use apache_avro::Schema;
use vstd::prelude::*;
use vstd::slice::slice_subrange;

verus! {

/// A number in four bytes, the highest first.
pub open spec fn be_bytes(n: u32) -> Seq<u8> {
    seq![
        (n / 0x100_0000) as u8,
        (n / 0x1_0000 % 0x100) as u8,
        (n / 0x100 % 0x100) as u8,
        (n % 0x100) as u8,
    ]
}

/// The number that four bytes make, the highest first.
pub open spec fn be_number(a: u8, b: u8, c: u8, d: u8) -> int {
    a * 0x100_0000 + b * 0x1_0000 + c * 0x100 + d
}

/// A message with a schema.
pub open spec fn framed(schema_id: u32, body: Seq<u8>) -> Seq<u8> {
    seq![0u8] + be_bytes(schema_id) + body
}

/// The schema and the body of a message that has them: it begins with a zero byte, and
/// has more than the id after it.
pub open spec fn unframed(message: Seq<u8>) -> Option<(int, Seq<u8>)> {
    if message.len() > 5 && message[0] == 0 {
        Some((be_number(message[1], message[2], message[3], message[4]), message.skip(5)))
    } else {
        None
    }
}

/// A message with a schema and a body reads as that schema and that body.
pub proof fn framed_reads_back(schema_id: u32, body: Seq<u8>)
    requires
        body.len() > 0,
    ensures
        unframed(framed(schema_id, body)) == Some((schema_id as int, body)),
{
    let message = framed(schema_id, body);
    assert(message.skip(5) =~= body);
    let n = schema_id;
    assert(n / 0x100_0000 < 0x100);
    assert(message[1] == n / 0x100_0000 && message[2] == n / 0x1_0000 % 0x100 && message[3] == n
        / 0x100 % 0x100 && message[4] == n % 0x100);
}

/// Two messages are the same only if their schemas and their bodies are.
pub proof fn framed_is_injective(id_a: u32, body_a: Seq<u8>, id_b: u32, body_b: Seq<u8>)
    requires
        framed(id_a, body_a) == framed(id_b, body_b),
    ensures
        id_a == id_b,
        body_a == body_b,
{
    let more_a = body_a.push(0);
    let more_b = body_b.push(0);
    assert(framed(id_a, more_a) =~= framed(id_a, body_a).push(0));
    assert(framed(id_b, more_b) =~= framed(id_b, body_b).push(0));
    framed_reads_back(id_a, more_a);
    framed_reads_back(id_b, more_b);
    assert(body_a =~= more_a.drop_last());
    assert(body_b =~= more_b.drop_last());
}

/// The id of a message's schema, where it has one.
pub fn schema_id_of(message: &[u8]) -> (r: Option<u32>)
    ensures
        match r {
            Some(id) => unframed(message@) is Some && (unframed(message@)->0).0 == id,
            None => unframed(message@) is None,
        },
{
    if message.len() > 5 && message[0] == 0 {
        Some(
            message[1] as u32 * 0x100_0000 + message[2] as u32 * 0x1_0000 + message[3] as u32
                * 0x100 + message[4] as u32,
        )
    } else {
        None
    }
}

/// The body of a message that has a schema.
pub fn body_of(message: &[u8]) -> (r: &[u8])
    requires
        unframed(message@) is Some,
    ensures
        r@ == (unframed(message@)->0).1,
{
    let r = slice_subrange(message, 5, message.len());
    assert(r@ =~= message@.skip(5));
    r
}

/// Puts the zero byte and the id of the schema before a body.
fn frame(schema_id: u32, body: Vec<u8>) -> (r: Vec<u8>)
    ensures
        r@ == framed(schema_id, body@),
{
    let mut out: Vec<u8> = Vec::new();
    out.push(0);
    out.push((schema_id / 0x100_0000) as u8);
    out.push((schema_id / 0x1_0000 % 0x100) as u8);
    out.push((schema_id / 0x100 % 0x100) as u8);
    out.push((schema_id % 0x100) as u8);
    let mut body = body;
    let ghost given = body@;
    out.append(&mut body);
    assert(out@ =~= framed(schema_id, given));
    out
}

/// Whether that is what comes of writing a value by a schema, as the body of a message with
/// that schema. A record with exactly the fields of the schema is written, and its body
/// reads as the same record, unless a text in it is too long to be read.
pub open spec fn encoded(
    schema_id: u32,
    schema: Schema,
    value: AvroView,
    r: Result<Vec<u8>, String>,
) -> bool {
    &&& match avro::avro_bytes(schema, value) {
        Some(body) => r matches Ok(message) && message@ == framed(schema_id, body),
        None => r is Err,
    }
    &&& avro::avro_tree(schema).takes(value) ==> r is Ok && (value.is_readable()
        ==> avro::reads_as(schema, r->Ok_0@.skip(5), value))
}

/// Writes a value by a schema, as the body of a message with that schema.
pub fn confluent_encode(schema_id: u32, schema: &Schema, value: &AvroValue) -> (r: Result<
    Vec<u8>,
    String,
>)
    requires
        avro::avro_resolves(*schema),
        avro::avro_tree(*schema).can_write(value@),
        value@.is_known(),
    ensures
        encoded(schema_id, *schema, value@, r),
{
    let outside = make_value(value);
    match encode_datum(schema, outside) {
        Ok(body) => {
            let ghost given = body@;
            let message = frame(schema_id, body);
            assert(message@.skip(5) =~= given);
            Ok(message)
        },
        Err(e) => Err(e),
    }
}

/// A message with a schema begins with a zero byte, then has the id of the schema with its
/// highest byte first, and then the body as it is.
pub proof fn header_is_in_network_order(schema_id: u32, body: Seq<u8>)
    ensures
        framed(schema_id, body).len() == 5 + body.len(),
        framed(schema_id, body)[0] == 0,
        framed(schema_id, body)[1] * 0x100_0000 + framed(schema_id, body)[2] * 0x1_0000 + framed(
            schema_id,
            body,
        )[3] * 0x100 + framed(schema_id, body)[4] == schema_id,
        forall|i: int| 0 <= i < body.len() ==> framed(schema_id, body)[5 + i] == #[trigger] body[i],
{
    let n = schema_id;
    assert(n / 0x100_0000 < 0x100);
}

/// A message has a schema exactly if it begins with a zero byte and there is something after
/// the id, which stands with its highest byte first.
pub proof fn message_with_a_schema(message: Seq<u8>)
    ensures
        unframed(message) is Some <==> message.len() >= 6 && message[0] == 0,
        unframed(message) matches Some((id, body)) ==> {
            &&& id == message[1] * 16777216 + message[2] * 65536 + message[3] * 256 + message[4]
            &&& body.len() == message.len() - 5
            &&& forall|i: int| 0 <= i < body.len() ==> #[trigger] body[i] == message[5 + i]
        },
{
}

} // verus!

//! What is put aside, with why and where it came from.
use crate::cassandra::Position;
use crate::events::WarehouseEvent;
use crate::json;
use crate::json::{json_string, Json, JsonView};
use crate::time;
use crate::time::{to_rfc3339, Timestamp};
use vstd::prelude::*;

verus! {

/// The code of a message that could not be read.
pub open spec fn unreadable() -> Seq<char> {
    "DESERIALIZE_ERROR"@
}

/// The code of a message that could not be read.
pub fn unreadable_code() -> (r: &'static str)
    ensures
        r@ == unreadable(),
{
    "DESERIALIZE_ERROR"
}

/// The text that bytes hold, with a replacement character for what is no UTF-8.
pub uninterp spec fn lossy_text(bytes: Seq<u8>) -> Seq<char>;

/// Whether a text is those bytes, each a character of its own.
pub open spec fn spells(text: Seq<char>, bytes: Seq<u8>) -> bool {
    &&& text.len() == bytes.len()
    &&& forall|i: int| 0 <= i < bytes.len() ==> #[trigger] text[i] as int == bytes[i]
}

/// Whether bytes are all ASCII.
pub open spec fn all_ascii(bytes: Seq<u8>) -> bool {
    forall|i: int| 0 <= i < bytes.len() ==> #[trigger] bytes[i] < 128
}

/// Reads bytes as text, with `String::from_utf8_lossy`: ASCII as it is. What it makes of
/// other bytes is left to [`lossy_text`].
#[verifier::external_body]
fn from_utf8_lossy(bytes: &[u8]) -> (r: String)
    ensures
        r@ == lossy_text(bytes@),
        all_ascii(bytes@) ==> spells(r@, bytes@),
{
    String::from_utf8_lossy(bytes).into_owned()
}

/// A message as it came, with the reason why it is put aside, the code of it, and when.
pub open spec fn raw_letter(
    message: Seq<u8>,
    reason: Seq<char>,
    code: Seq<char>,
    failed_at: Seq<char>,
    at: Position,
) -> JsonView {
    JsonView::Object(
        seq![
            ("error_code"@, JsonView::String(code)),
            ("error_reason"@, JsonView::String(reason)),
            ("failed_at"@, JsonView::String(failed_at)),
            (
                "kafka_metadata"@,
                JsonView::Object(
                    seq![
                        ("offset"@, JsonView::Integer(at.offset as int)),
                        ("partition"@, JsonView::Integer(at.partition as int)),
                    ],
                ),
            ),
            ("original_event"@, JsonView::String(lossy_text(message))),
        ],
    )
}

/// Whether a text is JSON that tells of a message, under the names of its members: what it
/// was, why and with which code it is put aside, when, and where it stood.
pub open spec fn tells_of_message(
    text: Seq<char>,
    message: Seq<u8>,
    reason: Seq<char>,
    code: Seq<char>,
    failed_at: Seq<char>,
    at: Position,
) -> bool {
    exists|letter: JsonView|
        {
            &&& text == #[trigger] json::json_text(letter)
            &&& json::member_of(letter, "original_event"@) == Some(
                JsonView::String(lossy_text(message)),
            )
            &&& json::member_of(letter, "error_reason"@) == Some(JsonView::String(reason))
            &&& json::member_of(letter, "error_code"@) == Some(JsonView::String(code))
            &&& json::member_of(letter, "failed_at"@) == Some(JsonView::String(failed_at))
            &&& json::member_of(letter, "kafka_metadata"@) matches Some(place)
            &&& json::member_of(place, "partition"@) == Some(JsonView::Integer(at.partition as int))
            &&& json::member_of(place, "offset"@) == Some(JsonView::Integer(at.offset as int))
        }
}

/// What is put aside of a message tells of it, whatever the message and the reason are.
pub proof fn letter_tells_of_its_message(
    message: Seq<u8>,
    reason: Seq<char>,
    code: Seq<char>,
    failed_at: Seq<char>,
    at: Position,
)
    ensures
        tells_of_message(
            json::json_text(raw_letter(message, reason, code, failed_at, at)),
            message,
            reason,
            code,
            failed_at,
            at,
        ),
{
    let letter = raw_letter(message, reason, code, failed_at, at);
    let members = letter->Object_0;
    reveal_strlit("original_event");
    reveal_strlit("error_reason");
    reveal_strlit("error_code");
    reveal_strlit("failed_at");
    reveal_strlit("kafka_metadata");
    reveal_strlit("partition");
    reveal_strlit("offset");
    assert("original_event"@.len() == 14 && "error_reason"@.len() == 12 && "error_code"@.len() == 10
        && "failed_at"@.len() == 9 && "kafka_metadata"@.len() == 14 && "partition"@.len() == 9
        && "offset"@.len() == 6);
    assert("original_event"@[0] == 'o' && "kafka_metadata"@[0] == 'k');
    reveal_with_fuel(json::find_member, 6);
    assert(members.drop_first() =~= seq![members[1], members[2], members[3], members[4]]);
    assert(members.drop_first().drop_first() =~= seq![members[2], members[3], members[4]]);
    assert(members.drop_first().drop_first().drop_first() =~= seq![members[3], members[4]]);
    assert(members.drop_first().drop_first().drop_first().drop_first() =~= seq![members[4]]);
    let place = members[3].1->Object_0;
    assert(place.drop_first() =~= seq![place[1]]);
}

/// Writes what is put aside of a message as it came.
pub fn raw_dead_letter(
    message: &[u8],
    reason: &str,
    code: &str,
    now: Timestamp,
    at: Position,
) -> (r: String)
    requires
        now.is_time(),
    ensures
        r@ == json::json_text(
            raw_letter(message@, reason@, code@, time::rfc3339_text(now), at),
        ),
        tells_of_message(r@, message@, reason@, code@, time::rfc3339_text(now), at),
{
    proof {
        letter_tells_of_its_message(message@, reason@, code@, time::rfc3339_text(now), at);
    }
    let failed_at = to_rfc3339(now);
    let ghost view = raw_letter(message@, reason@, code@, failed_at@, at);
    let place = vec![
        ("offset".to_string(), Json::Integer(at.offset as i128)),
        ("partition".to_string(), Json::Integer(at.partition as i128)),
    ];
    assert(place@[0].1@ == JsonView::Integer(at.offset as int));
    assert(place@[1].1@ == JsonView::Integer(at.partition as int));
    let metadata = Json::Object(place);
    assert(metadata@->Object_0 =~= view->Object_0[3].1->Object_0);
    let original = from_utf8_lossy(message);
    let members = vec![
        ("error_code".to_string(), Json::String(code.to_string())),
        ("error_reason".to_string(), Json::String(reason.to_string())),
        ("failed_at".to_string(), Json::String(failed_at)),
        ("kafka_metadata".to_string(), metadata),
        ("original_event".to_string(), Json::String(original)),
    ];
    assert(members@[0].1@ == JsonView::String(code@));
    assert(members@[1].1@ == JsonView::String(reason@));
    assert(members@[2].1@ == view->Object_0[2].1);
    assert(members@[3].1@ == view->Object_0[3].1);
    assert(members@[4].1@ == view->Object_0[4].1);
    let letter = Json::Object(members);
    assert(letter@->Object_0 =~= view->Object_0);
    json_string(&letter)
}

/// Where a message stood.
#[derive(Debug, Clone, Copy, PartialEq, Eq, Structural)]
pub struct DlqMetadata {
    pub partition: i32,
    pub offset: i64,
}

/// An event that is put aside.
pub struct DlqMessage<'a> {
    pub original_event: &'a WarehouseEvent,
    pub error_reason: String,
    pub error_code: &'static str,
    pub failed_at: String,
    pub kafka_metadata: DlqMetadata,
}

/// What is put aside.
pub enum Letter<'a> {
    /// A message as it came, written out.
    Message(String),
    /// An event.
    Event(DlqMessage<'a>),
}

/// What is put aside, and the key that it goes by.
pub struct DeadLetter<'a> {
    pub key: &'a str,
    pub letter: Letter<'a>,
}

impl<'a> DlqMessage<'a> {
    /// Whether this puts an event aside, with why, when and where it came from.
    pub open spec fn puts_aside(
        self,
        event: WarehouseEvent,
        reason: Seq<char>,
        code: Seq<char>,
        now: Timestamp,
        at: Position,
    ) -> bool {
        &&& *self.original_event == event
        &&& self.error_reason@ == reason
        &&& self.error_code@ == code
        &&& self.failed_at@ == time::rfc3339_text(now)
        &&& self.kafka_metadata.partition == at.partition
        &&& self.kafka_metadata.offset == at.offset
    }
}

/// Makes what is put aside of an event.
pub fn event_dead_letter<'a>(
    event: &'a WarehouseEvent,
    reason: &str,
    code: &'static str,
    now: Timestamp,
    at: Position,
) -> (r: DlqMessage<'a>)
    requires
        now.is_time(),
    ensures
        r.puts_aside(*event, reason@, code@, now, at),
        *r.original_event == *event,
        r.error_reason@ == reason@,
        r.error_code@ == code@,
        r.failed_at@ == time::rfc3339_text(now),
        r.kafka_metadata.partition == at.partition,
        r.kafka_metadata.offset == at.offset,
{
    DlqMessage {
        original_event: event,
        error_reason: reason.to_string(),
        error_code: code,
        failed_at: to_rfc3339(now),
        kafka_metadata: DlqMetadata { partition: at.partition, offset: at.offset },
    }
}

} // verus!

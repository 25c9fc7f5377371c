//! What becomes of a message from the topic.
use crate::avro;
use crate::avro::is_endless;
use crate::cassandra::Position;
use crate::dead_letter;
use crate::dead_letter::{event_dead_letter, raw_dead_letter, unreadable_code, DeadLetter, Letter};
use crate::events;
use crate::events::{decode_avro_event, event_from_datum, EventError, WarehouseEvent};
use crate::handlers::HandlerError;
use crate::json;
use crate::laws;
use crate::run;
use crate::run::{process_event, EventRun, Outcome, Reply, ReplyView, RunView, Stage};
use crate::text;
use crate::text::{contains_text, decimal_unsigned, join2, join3};
use crate::time;
use crate::time::Timestamp;
use crate::wire;
use crate::wire::{body_of, schema_id_of};
use apache_avro::types::Value;
use apache_avro::Schema;
use vstd::prelude::*;

verus! {

/// The code that an error's message calls for.
pub open spec fn error_code(message: Seq<char>) -> Seq<char> {
    if text::occurs_in("VALIDATION_ERROR"@, message) {
        "VALIDATION_ERROR"@
    } else if text::occurs_in("BUSINESS_ERROR"@, message) {
        "BUSINESS_ERROR"@
    } else {
        "PROCESSING_ERROR"@
    }
}

/// Finds the code that an error's message calls for.
pub fn classify_error(msg: &str) -> (r: &'static str)
    ensures
        r@ == error_code(msg@),
{
    if contains_text(msg, "VALIDATION_ERROR") {
        "VALIDATION_ERROR"
    } else if contains_text(msg, "BUSINESS_ERROR") {
        "BUSINESS_ERROR"
    } else {
        "PROCESSING_ERROR"
    }
}

proof fn prefix_occurs(part: Seq<char>, whole: Seq<char>)
    requires
        part.len() <= whole.len(),
        whole.take(part.len() as int) == part,
    ensures
        text::occurs_in(part, whole),
{
    assert(whole.subrange(0, part.len() as int) =~= part);
    assert(text::occurs_at(part, whole, 0));
}

/// An event with an amount that makes no sense is a validation error.
pub proof fn validation_errors_are_told(e: HandlerError)
    requires
        e is QuantityNotPositive || e is CountNegative || e is OrderEmpty || e
            is ItemQuantityNotPositive,
    ensures
        error_code(e.text()) == "VALIDATION_ERROR"@,
{
    reveal_strlit("VALIDATION_ERROR");
    reveal_strlit("VALIDATION_ERROR: quantity must be positive, got ");
    reveal_strlit("VALIDATION_ERROR: counted_quantity cannot be negative");
    reveal_strlit("VALIDATION_ERROR: order must have at least one item");
    reveal_strlit("VALIDATION_ERROR: item quantity must be positive, got ");
    let part = "VALIDATION_ERROR"@;
    assert(e.text().take(part.len() as int) =~= part);
    prefix_occurs(part, e.text());
}

/// An event that asks for more than there is, or completes no order, is a business error,
/// unless a name in it says otherwise.
pub proof fn business_errors_are_told(e: HandlerError)
    requires
        e is Insufficient || e is OrderNotFound,
        !text::occurs_in("VALIDATION_ERROR"@, e.text()),
    ensures
        error_code(e.text()) == "BUSINESS_ERROR"@,
{
    reveal_strlit("BUSINESS_ERROR");
    reveal_strlit("BUSINESS_ERROR: insufficient available qty for ");
    reveal_strlit("BUSINESS_ERROR: insufficient available qty for reservation: ");
    reveal_strlit("BUSINESS_ERROR: insufficient reserved qty for release: ");
    reveal_strlit("BUSINESS_ERROR: insufficient qty for order item ");
    reveal_strlit("BUSINESS_ERROR: order ");
    let part = "BUSINESS_ERROR"@;
    assert(e.text().take(part.len() as int) =~= part);
    prefix_occurs(part, e.text());
}

/// How many messages wait: those behind the last one that was dealt with, or all of them
/// where none was.
pub open spec fn lag(high: i64, committed: Option<i64>) -> int {
    let waiting = match committed {
        Some(offset) => high - offset - 1,
        None => high as int,
    };
    if waiting > 0 {
        waiting
    } else {
        0
    }
}

/// How many messages of a partition wait, from its high watermark and the last offset
/// that was dealt with.
pub fn consumer_lag(high: i64, committed: Option<i64>) -> (r: i128)
    ensures
        r == lag(high, committed),
{
    let waiting: i128 = match committed {
        Some(offset) => high as i128 - offset as i128 - 1,
        None => high as i128,
    };
    if waiting > 0 {
        waiting
    } else {
        0
    }
}

/// Why a message is put aside.
#[derive(Debug)]
pub enum Rejection {
    SchemaNotFound(u32, String),
    AvroDecode(EventError),
    JsonDecode(String),
}

/// What a [`Rejection`] holds.
pub enum RejectionView {
    SchemaNotFound(int, Seq<char>),
    AvroDecode(events::EventFault),
    JsonDecode(Seq<char>),
}

impl View for Rejection {
    type V = RejectionView;

    open spec fn view(&self) -> RejectionView {
        match self {
            Rejection::SchemaNotFound(id, m) => RejectionView::SchemaNotFound(*id as int, m@),
            Rejection::AvroDecode(e) => RejectionView::AvroDecode(e@),
            Rejection::JsonDecode(m) => RejectionView::JsonDecode(m@),
        }
    }
}

impl RejectionView {
    /// The reason that goes with the message.
    pub open spec fn text(self) -> Seq<char> {
        match self {
            RejectionView::SchemaNotFound(id, m) => "schema not found "@ + text::decimal_text(id)
                + ": "@ + m,
            RejectionView::AvroDecode(e) => "avro decode error: "@ + e.text(),
            RejectionView::JsonDecode(m) => "deserialize error: "@ + m,
        }
    }
}

impl Rejection {
    /// The reason that goes with the message.
    pub fn reason(&self) -> (r: String)
        ensures
            r@ == self@.text(),
    {
        match self {
            Rejection::SchemaNotFound(id, m) => {
                let mut out = join3(
                    "schema not found ",
                    decimal_unsigned(*id as u128).as_str(),
                    ": ",
                );
                out.append(m.as_str());
                out
            },
            Rejection::AvroDecode(e) => join2("avro decode error: ", e.message().as_str()),
            Rejection::JsonDecode(m) => join2("deserialize error: ", m.as_str()),
        }
    }
}

/// How far a message has come.
pub enum Phase {
    /// Its schema is wanted.
    Schema(u32),
    /// It is to be read by this schema, to which there may be no end.
    Datum(Schema),
    /// It is to be read as JSON.
    Json,
    Event(EventRun),
    /// It is put aside as it came.
    Rejected(Rejection),
    /// Its event is put aside, with a message and a code.
    Failed { run: EventRun, reason: String, code: &'static str },
    /// It is dealt with: whether its event was processed.
    Settled(bool),
    Committed,
}

/// What a [`Phase`] holds.
pub enum PhaseView {
    Schema(u32),
    Datum(Schema),
    Json,
    Event(RunView),
    Rejected(RejectionView),
    Failed { run: RunView, reason: Seq<char>, code: Seq<char> },
    Settled(bool),
    Committed,
}

impl Phase {
    pub open spec fn view(&self) -> PhaseView {
        match self {
            Phase::Schema(id) => PhaseView::Schema(*id),
            Phase::Datum(schema) => PhaseView::Datum(*schema),
            Phase::Json => PhaseView::Json,
            Phase::Event(run) => PhaseView::Event(run@),
            Phase::Rejected(why) => PhaseView::Rejected(why@),
            Phase::Failed { run, reason, code } => PhaseView::Failed {
                run: run@,
                reason: reason@,
                code: code@,
            },
            Phase::Settled(b) => PhaseView::Settled(*b),
            Phase::Committed => PhaseView::Committed,
        }
    }
}

/// A message from the topic.
pub struct Delivery {
    message: Vec<u8>,
    at: Position,
    phase: Phase,
}

impl Delivery {
    /// The bytes of the message: none where it had no payload.
    pub closed spec fn bytes(&self) -> Seq<u8> {
        self.message@
    }

    /// Where the message stood.
    pub closed spec fn position(&self) -> Position {
        self.at
    }

    /// How far it has come.
    pub closed spec fn phase(&self) -> PhaseView {
        self.phase@
    }

    /// Whether its bytes go with how far it has come.
    pub open spec fn wf(&self) -> bool {
        match self.phase() {
            PhaseView::Schema(id) => wire::unframed(self.bytes()) matches Some((n, _)) && n == id,
            PhaseView::Datum(_) => wire::unframed(self.bytes()) is Some,
            _ => is_sound(self.phase()),
        }
    }
}

/// Whether the processing of an event, where there is one, has not ended before it is
/// concluded.
pub open spec fn is_sound(phase: PhaseView) -> bool {
    match phase {
        PhaseView::Event(run) => run.wf() && !(run.stage is Done),
        PhaseView::Failed { run, .. } => run.wf(),
        _ => true,
    }
}

/// How a message begins: without payload it is dealt with, with a schema it wants that
/// schema, and else it is JSON.
pub open spec fn opened(payload: Option<Seq<u8>>) -> PhaseView {
    match payload {
        None => PhaseView::Settled(false),
        Some(bytes) => match wire::unframed(bytes) {
            Some((id, _)) => PhaseView::Schema(id as u32),
            None => PhaseView::Json,
        },
    }
}

/// What became of an event: it was processed, or it is put aside with its error.
pub open spec fn concluded(run: RunView) -> PhaseView {
    match run.stage {
        Stage::Done(Outcome::Failed(e)) => PhaseView::Failed {
            run,
            reason: e.text(),
            code: error_code(e.text()),
        },
        Stage::Done(_) => PhaseView::Settled(true),
        _ => PhaseView::Event(run),
    }
}

/// Whether a message can go from one phase to another.
pub open spec fn leads_to(a: PhaseView, b: PhaseView) -> bool {
    match a {
        PhaseView::Schema(_) | PhaseView::Datum(_) | PhaseView::Json => match b {
            PhaseView::Datum(_) => a is Schema,
            PhaseView::Event(run) => run.wf() && run.stage is Checking,
            PhaseView::Rejected(_) => true,
            _ => false,
        },
        PhaseView::Event(run) => exists|reply: ReplyView| #[trigger]
            run.accepts(reply) && b == concluded(run.after(reply)),
        PhaseView::Rejected(_) | PhaseView::Failed { .. } => b == PhaseView::Settled(false),
        PhaseView::Settled(_) => b is Committed,
        PhaseView::Committed => false,
    }
}

/// Whether a message can go through those phases, one after another.
pub open spec fn journey(phases: Seq<PhaseView>) -> bool {
    forall|i: int| 0 <= i < phases.len() - 1 ==> leads_to(#[trigger] phases[i], phases[i + 1])
}

/// How far a message is from being committed: the phases that are left, and how far the
/// processing of its event is from its end.
pub open spec fn distance(phase: PhaseView) -> (int, int, int) {
    match phase {
        PhaseView::Schema(_) => (6, 0, 0),
        PhaseView::Datum(_) | PhaseView::Json => (5, 0, 0),
        PhaseView::Event(run) => (4, laws::distance(run).0, laws::distance(run).1),
        PhaseView::Rejected(_) | PhaseView::Failed { .. } => (3, 0, 0),
        PhaseView::Settled(_) => (2, 0, 0),
        PhaseView::Committed => (1, 0, 0),
    }
}

/// Every step brings a message nearer to being committed.
proof fn comes_nearer(a: PhaseView, b: PhaseView)
    requires
        is_sound(a),
        leads_to(a, b),
    ensures
        is_sound(b),
        ({
            let (x, y) = (distance(a), distance(b));
            ||| y.0 < x.0
            ||| y.0 == x.0 && 0 <= y.1 < x.1
            ||| y.0 == x.0 && y.1 == x.1 && 0 <= y.2 < x.2
        }),
{
    match a {
        PhaseView::Event(run) => {
            let reply = choose|reply: ReplyView| #[trigger]
                run.accepts(reply) && b == concluded(run.after(reply));
            laws::processing_ends(run, reply);
            laws::processing_stays_sound(run, reply);
        },
        _ => {},
    }
}

proof fn is_committed_from(phases: spec_fn(nat) -> PhaseView, n: nat) -> (m: nat)
    requires
        is_sound(phases(n)),
        forall|k: nat|
            #![trigger phases(k)]
            phases(k) is Committed || leads_to(phases(k), phases(k + 1)),
    ensures
        phases(m) is Committed,
    decreases distance(phases(n)).0, distance(phases(n)).1, distance(phases(n)).2,
{
    if phases(n) is Committed {
        n
    } else {
        comes_nearer(phases(n), phases(n + 1));
        is_committed_from(phases, n + 1)
    }
}

/// Every message comes to be committed, however it ends: whether it has a payload or not,
/// can be read or not, is processed or put aside.
pub proof fn every_message_is_committed(
    payload: Option<Seq<u8>>,
    phases: spec_fn(nat) -> PhaseView,
)
    requires
        phases(0) == opened(payload),
        forall|k: nat|
            #![trigger phases(k)]
            phases(k) is Committed || leads_to(phases(k), phases(k + 1)),
    ensures
        exists|m: nat| #[trigger] phases(m) is Committed,
{
    let m = is_committed_from(phases, 0);
    assert(phases(m) is Committed);
}

/// As long as a message is not committed, there is a next step for it.
pub proof fn no_message_is_stuck(a: PhaseView)
    requires
        is_sound(a),
        !(a is Committed),
    ensures
        exists|b: PhaseView| leads_to(a, b),
{
    match a {
        PhaseView::Event(run) => {
            let reply = ReplyView::Failed(arbitrary());
            assert(run.accepts(reply));
            assert(leads_to(a, concluded(run.after(reply))));
        },
        PhaseView::Rejected(_) | PhaseView::Failed { .. } => {
            assert(leads_to(a, PhaseView::Settled(false)));
        },
        PhaseView::Settled(_) => {
            assert(leads_to(a, PhaseView::Committed));
        },
        _ => {
            assert(leads_to(a, PhaseView::Rejected(arbitrary())));
        },
    }
}

/// Nothing happens to a message once it is committed: it is committed once.
pub proof fn committed_is_last(phases: Seq<PhaseView>, i: int)
    requires
        journey(phases),
        0 <= i < phases.len(),
        phases[i] is Committed,
    ensures
        i == phases.len() - 1,
{
    if i < phases.len() - 1 {
        assert(leads_to(phases[i], phases[i + 1]));
    }
}

/// A message is dealt with before it is committed.
pub proof fn committed_once_settled(phases: Seq<PhaseView>, i: int)
    requires
        journey(phases),
        0 < i < phases.len(),
        phases[i] is Committed,
    ensures
        phases[i - 1] is Settled,
{
    assert(leads_to(phases[i - 1], phases[i - 1 + 1]));
}

/// What is put aside does not count as processed.
pub proof fn put_aside_is_not_processed(phases: Seq<PhaseView>, i: int, j: int)
    requires
        journey(phases),
        0 <= i < j < phases.len(),
        phases[i] is Rejected || phases[i] is Failed,
    ensures
        phases[j] == PhaseView::Settled(false) || phases[j] is Committed,
    decreases j - i,
{
    assert(leads_to(phases[j - 1], phases[j - 1 + 1]));
    if i < j - 1 {
        put_aside_is_not_processed(phases, i, j - 1);
    }
}

/// An event counts as processed exactly if its processing did not fail; else it is put
/// aside, with its error's message and code.
pub proof fn processed_or_put_aside(run: RunView)
    requires
        run.stage is Done,
    ensures
        run.stage->Done_0 is Failed <==> concluded(run) is Failed,
        !(run.stage->Done_0 is Failed) <==> concluded(run) == PhaseView::Settled(true),
        concluded(run) matches PhaseView::Failed { reason, code, .. } ==> code == error_code(reason),
{
}

impl Delivery {
    /// Takes a message.
    pub fn open(payload: Option<Vec<u8>>, partition: i32, offset: i64) -> (r: Delivery)
        ensures
            r.wf(),
            r.position() == (Position { partition, offset }),
            r.phase() == opened(
                match payload {
                    Some(v) => Some(v@),
                    None => None,
                },
            ),
            match payload {
                Some(v) => r.bytes() == v@,
                None => r.bytes().len() == 0,
            },
    {
        let at = Position { partition, offset };
        match payload {
            None => Delivery { message: Vec::new(), at, phase: Phase::Settled(false) },
            Some(message) => {
                let phase = match schema_id_of(message.as_slice()) {
                    Some(id) => Phase::Schema(id),
                    None => Phase::Json,
                };
                Delivery { message, at, phase }
            },
        }
    }

    /// How far the message has come.
    pub fn progress(&self) -> (r: &Phase)
        ensures
            r@ == self.phase(),
    {
        &self.phase
    }

    /// The bytes of the message.
    pub fn message(&self) -> (r: &Vec<u8>)
        ensures
            r@ == self.bytes(),
    {
        &self.message
    }

    /// Where the message stood.
    pub fn at(&self) -> (r: Position)
        ensures
            r == self.position(),
    {
        self.at
    }

    /// Whether a phase is the one in which an event begins.
    pub open spec fn begins(&self, event: WarehouseEvent, phase: PhaseView) -> bool {
        phase matches PhaseView::Event(run) && run::starts(event, self.position(), run)
    }

    /// Reads the message by the schema that it wants, or puts it aside where there is none.
    /// By a schema to which there may be no end it is left to be read.
    pub fn with_schema(&mut self, schema: Result<Schema, String>)
        requires
            old(self).wf(),
            old(self).phase() is Schema,
        ensures
            final(self).wf(),
            leads_to(old(self).phase(), final(self).phase()),
            final(self).bytes() == old(self).bytes(),
            final(self).position() == old(self).position(),
            match schema {
                Err(m) => final(self).phase() == PhaseView::Rejected(
                    RejectionView::SchemaNotFound(old(self).phase()->Schema_0 as int, m@),
                ),
                Ok(s) => if avro::schema_is_endless(s) {
                    final(self).phase() == PhaseView::Datum(s)
                } else {
                    old(self).reads(s, final(self).phase())
                },
            },
            schema is Ok && !avro::schema_is_endless(schema->Ok_0) ==> exists|
                decoded: Result<WarehouseEvent, EventError>,
            | #[trigger]
                events::avro_event_read(schema->Ok_0, old(self).bytes().skip(5), decoded)
                    && match decoded {
                    Ok(event) => final(self).phase() matches PhaseView::Event(run) && run::starts(
                        event,
                        old(self).position(),
                        run,
                    ),
                    Err(e) => final(self).phase() == PhaseView::Rejected(
                        RejectionView::AvroDecode(e@),
                    ),
                },
    {
        let id: u32 = match &self.phase {
            Phase::Schema(id) => *id,
            _ => 0,
        };
        match schema {
            Err(m) => {
                self.phase = Phase::Rejected(Rejection::SchemaNotFound(id, m));
            },
            Ok(schema) => {
                if is_endless(&schema) {
                    self.phase = Phase::Datum(schema);
                    return;
                }
                let decoded = decode_avro_event(body_of(self.message.as_slice()), &schema);
                let ghost given = decoded;
                self.take(decoded);
                assert(old(self).taken(given, self.phase()));
                assert(events::avro_event_read(schema, old(self).bytes().skip(5), given));
            },
        }
    }

    /// Takes the message read by its schema, or puts it aside where it could not be.
    pub fn with_datum(&mut self, datum: Result<Value, String>)
        requires
            old(self).wf(),
            old(self).phase() is Datum,
        ensures
            final(self).wf(),
            leads_to(old(self).phase(), final(self).phase()),
            final(self).bytes() == old(self).bytes(),
            final(self).position() == old(self).position(),
            old(self).takes(text::fallible(datum), final(self).phase()),
            exists|decoded: Result<WarehouseEvent, EventError>| #[trigger]
                events::datum_event_read(text::fallible(datum), decoded) && match decoded {
                    Ok(event) => final(self).phase() matches PhaseView::Event(run) && run::starts(
                        event,
                        old(self).position(),
                        run,
                    ),
                    Err(e) => final(self).phase() == PhaseView::Rejected(
                        RejectionView::AvroDecode(e@),
                    ),
                },
    {
        let decoded = event_from_datum(datum);
        let ghost given = decoded;
        self.take(decoded);
        assert(old(self).taken(given, self.phase()));
    }

    /// Takes the event of the message, or puts it aside where there is none.
    fn take(&mut self, decoded: Result<WarehouseEvent, EventError>)
        ensures
            final(self).wf(),
            final(self).phase() is Event ==> final(self).phase()->Event_0.stage is Checking,
            final(self).bytes() == old(self).bytes(),
            final(self).position() == old(self).position(),
            old(self).taken(decoded, final(self).phase()),
    {
        match decoded {
            Ok(event) => {
                let run = process_event(event, self.at.partition, self.at.offset);
                self.phase = Phase::Event(run);
                assert(old(self).begins(event, self.phase@));
            },
            Err(e) => {
                self.phase = Phase::Rejected(Rejection::AvroDecode(e));
            },
        }
        assert(self.phase@ == self.phase());
    }

    /// Whether that is the phase that an attempt to read the message leads to.
    pub open spec fn taken(
        &self,
        decoded: Result<WarehouseEvent, EventError>,
        phase: PhaseView,
    ) -> bool {
        match decoded {
            Ok(event) => self.begins(event, phase),
            Err(e) => phase == PhaseView::Rejected(RejectionView::AvroDecode(e@)),
        }
    }

    /// Whether that is the phase that the reading of the message by a schema leads to.
    pub open spec fn reads(&self, schema: Schema, phase: PhaseView) -> bool {
        let body = (wire::unframed(self.bytes())->0).1;
        self.takes(avro::avro_datum(schema, body), phase)
    }

    /// Whether that is the phase that an attempt to read an Avro value leads to.
    pub open spec fn takes(&self, datum: Result<Value, Seq<char>>, phase: PhaseView) -> bool {
        exists|decoded: Result<WarehouseEvent, EventError>| #[trigger]
            self.taken(decoded, phase) && events::datum_event_read(datum, decoded)
    }

    /// Takes the message read as JSON, or puts it aside where it could not be.
    pub fn with_event(&mut self, event: Result<WarehouseEvent, String>)
        requires
            old(self).wf(),
            old(self).phase() is Json,
        ensures
            final(self).wf(),
            leads_to(old(self).phase(), final(self).phase()),
            final(self).bytes() == old(self).bytes(),
            final(self).position() == old(self).position(),
            match event {
                Ok(e) => old(self).begins(e, final(self).phase()),
                Err(m) => final(self).phase() == PhaseView::Rejected(
                    RejectionView::JsonDecode(m@),
                ),
            },
            event matches Ok(e) ==> (final(self).phase() matches PhaseView::Event(run)
                && run::starts(e, old(self).position(), run)),
    {
        match event {
            Ok(event) => {
                let run = process_event(event, self.at.partition, self.at.offset);
                self.phase = Phase::Event(run);
                assert(self.phase@ == self.phase());
            },
            Err(m) => {
                self.phase = Phase::Rejected(Rejection::JsonDecode(m));
            },
        }
    }

    /// Takes the reply to what the processing of the event asked for.
    pub fn advance(&mut self, reply: Reply)
        requires
            old(self).wf(),
            old(self).phase() is Event,
            old(self).phase()->Event_0.accepts(reply@),
        ensures
            final(self).wf(),
            leads_to(old(self).phase(), final(self).phase()),
            final(self).bytes() == old(self).bytes(),
            final(self).position() == old(self).position(),
            final(self).phase() == concluded(old(self).phase()->Event_0.after(reply@)),
    {
        let mut phase = Phase::Committed;
        std::mem::swap(&mut phase, &mut self.phase);
        match phase {
            Phase::Event(run) => {
                let mut run = run;
                run.advance(reply);
                let verdict = match run.outcome() {
                    None => None,
                    Some(Outcome::Failed(e)) => Some(Some(e.message())),
                    Some(_) => Some(None),
                };
                self.phase = match verdict {
                    None => Phase::Event(run),
                    Some(None) => Phase::Settled(true),
                    Some(Some(reason)) => {
                        let code = classify_error(reason.as_str());
                        Phase::Failed { run, reason, code }
                    },
                };
            },
            other => {
                self.phase = other;
            },
        }
    }

    /// Whether that is what is put aside of the message: as it came where it could not be
    /// read, with the reason and the code of that; its event where the processing failed,
    /// with the error's message and code; and nothing else.
    pub open spec fn is_put_aside_as(&self, now: Timestamp, r: Option<DeadLetter<'_>>) -> bool {
        match self.phase() {
            PhaseView::Rejected(why) => r matches Some(d) && d.key@ == "unknown"@ && (d.letter
                matches Letter::Message(body) && body@ == json::json_text(
                dead_letter::raw_letter(
                    self.bytes(),
                    why.text(),
                    dead_letter::unreadable(),
                    time::rfc3339_text(now),
                    self.position(),
                ),
            )),
            PhaseView::Failed { run, reason, code } => r matches Some(d) && d.key@
                == run.event.event_id@ && (d.letter matches Letter::Event(m) && m.puts_aside(
                run.event,
                reason,
                code,
                now,
                self.position(),
            )),
            _ => r is None,
        }
    }

    /// Makes what is put aside of the message, if anything is. No message is lost: whatever
    /// is the reason why it could not be read, or why its event could not be processed,
    /// something is put aside of it.
    pub fn dead_letter(&self, now: Timestamp) -> (r: Option<DeadLetter<'_>>)
        requires
            now.is_time(),
        ensures
            self.is_put_aside_as(now, r),
            r is Some <==> self.phase() is Rejected || self.phase() is Failed,
            self.phase() is Rejected ==> (r->0).key@ == "unknown"@ && (r->0).letter
                is Message,
            self.phase() is Rejected ==> dead_letter::tells_of_message(
                (r->0).letter->Message_0@,
                self.bytes(),
                (self.phase()->Rejected_0).text(),
                "DESERIALIZE_ERROR"@,
                time::rfc3339_text(now),
                self.position(),
            ),
            self.phase() is Failed ==> (r->0).key@
                == self.phase()->Failed_run.event.event_id@ && (r->0).letter is Event,
            self.phase() is Failed ==> {
                let m = (r->0).letter->Event_0;
                &&& *m.original_event == self.phase()->Failed_run.event
                &&& m.error_reason@ == self.phase()->Failed_reason
                &&& m.error_code@ == self.phase()->Failed_code
                &&& m.failed_at@ == time::rfc3339_text(now)
                &&& m.kafka_metadata.partition == self.position().partition
                &&& m.kafka_metadata.offset == self.position().offset
            },
    {
        match &self.phase {
            Phase::Rejected(why) => {
                let body = raw_dead_letter(
                    self.message.as_slice(),
                    why.reason().as_str(),
                    unreadable_code(),
                    now,
                    self.at,
                );
                Some(DeadLetter { key: "unknown", letter: Letter::Message(body) })
            },
            Phase::Failed { run, reason, code } => {
                let event = run.event();
                let letter = event_dead_letter(event, reason.as_str(), *code, now, self.at);
                Some(DeadLetter { key: event.event_id.as_str(), letter: Letter::Event(letter) })
            },
            _ => None,
        }
    }

    /// Notes that the message, or its event, was put aside, or that this failed.
    pub fn put_aside(&mut self)
        requires
            old(self).phase() is Rejected || old(self).phase() is Failed,
        ensures
            final(self).wf(),
            leads_to(old(self).phase(), final(self).phase()),
            final(self).bytes() == old(self).bytes(),
            final(self).position() == old(self).position(),
            final(self).phase() == PhaseView::Settled(false),
    {
        self.phase = Phase::Settled(false);
    }

    /// Notes that the message was committed.
    pub fn commit(&mut self)
        requires
            old(self).phase() is Settled,
        ensures
            final(self).wf(),
            leads_to(old(self).phase(), final(self).phase()),
            final(self).bytes() == old(self).bytes(),
            final(self).position() == old(self).position(),
            final(self).phase() is Committed,
    {
        self.phase = Phase::Committed;
    }
}

/// How many messages wait goes with what is there and what was dealt with: nothing waits once
/// the last one was dealt with, one more waits for each that comes, and one less for each that
/// is dealt with.
pub proof fn lag_goes_with_messages(high: i64, committed: i64)
    ensures
        lag(high, Some(committed)) >= 0 && lag(high, None) >= 0,
        committed >= high - 1 ==> lag(high, Some(committed)) == 0,
        0 <= committed < high ==> lag(high, Some(committed)) == high - 1 - committed,
        high >= 0 ==> lag(high, None) == high,
        high <= 0 ==> lag(high, None) == 0,
        -1 <= committed < high < i64::MAX ==> lag((high + 1) as i64, Some(committed)) == lag(
            high,
            Some(committed),
        ) + 1,
        -1 <= committed < high - 1 ==> lag(high, Some((committed + 1) as i64)) == lag(
            high,
            Some(committed),
        ) - 1,
{
}

/// A message speaks of a validation error if it says so anywhere; else of a business error if
/// it says so; and else it is one of processing.
pub proof fn code_is_told_by_the_message(message: Seq<char>)
    ensures
        (exists|a: Seq<char>, b: Seq<char>| message == #[trigger] (a + "VALIDATION_ERROR"@ + b))
            ==> error_code(message) == "VALIDATION_ERROR"@,
        !(exists|a: Seq<char>, b: Seq<char>| message == #[trigger] (a + "VALIDATION_ERROR"@ + b))
            && (exists|a: Seq<char>, b: Seq<char>|
            message == #[trigger] (a + "BUSINESS_ERROR"@ + b)) ==> error_code(message)
            == "BUSINESS_ERROR"@,
        !(exists|a: Seq<char>, b: Seq<char>| message == #[trigger] (a + "VALIDATION_ERROR"@ + b))
            && !(exists|a: Seq<char>, b: Seq<char>|
            message == #[trigger] (a + "BUSINESS_ERROR"@ + b)) ==> error_code(message)
            == "PROCESSING_ERROR"@,
{
    text::occurring_is_being_part("VALIDATION_ERROR"@, message);
    text::occurring_is_being_part("BUSINESS_ERROR"@, message);
}

/// A message begins by its bytes: it wants a schema exactly if it begins with a zero byte and
/// there is more than the four bytes of an id after it, and then the schema of that id; any
/// other with a payload is JSON, and one without is dealt with.
pub proof fn message_begins_by_its_bytes(bytes: Seq<u8>)
    ensures
        opened(None) == PhaseView::Settled(false),
        bytes.len() >= 6 && bytes[0] == 0 ==> (opened(Some(bytes)) matches PhaseView::Schema(id)
            && id == bytes[1] * 16777216 + bytes[2] * 65536 + bytes[3] * 256 + bytes[4]),
        !(bytes.len() >= 6 && bytes[0] == 0) ==> opened(Some(bytes)) == PhaseView::Json,
{
    if bytes.len() >= 6 {
        let id = bytes[1] * 16777216 + bytes[2] * 65536 + bytes[3] * 256 + bytes[4];
        assert(0 <= id <= u32::MAX);
    }
}

/// What is put aside of an event has the error's message, and the code that the message calls
/// for; an event whose processing goes on is not concluded.
pub proof fn failure_is_put_aside_with_its_message(run: RunView)
    ensures
        run.stage matches Stage::Done(Outcome::Failed(e)) ==> concluded(run)
            == (PhaseView::Failed { run, reason: e.text(), code: error_code(e.text()) }),
        run.stage matches Stage::Done(Outcome::Applied) ==> concluded(run) == PhaseView::Settled(
            true,
        ),
        run.stage matches Stage::Done(Outcome::Duplicate) ==> concluded(run) == PhaseView::Settled(
            true,
        ),
        run.stage matches Stage::Done(Outcome::OutOfOrder) ==> concluded(run)
            == PhaseView::Settled(true),
        !(run.stage is Done) ==> concluded(run) == PhaseView::Event(run),
{
}

/// Why a message is put aside is told with what was reported, and with the schema's id where
/// it was not found.
pub proof fn rejection_tells_its_reason(id: int, m: Seq<char>, e: events::EventFault)
    ensures
        RejectionView::SchemaNotFound(id, m).text() == "schema not found "@ + text::decimal_text(id)
            + ": "@ + m,
        RejectionView::AvroDecode(e).text() == "avro decode error: "@ + e.text(),
        RejectionView::JsonDecode(m).text() == "deserialize error: "@ + m,
{
}

} // verus!

//! The processing of one event, as a conversation with the database: each request
//! follows from the replies so far.
use crate::cassandra;
use crate::cassandra::{
    apply_delta, apply_move_delta, entity_key, fits_quantity, inventory_of, mark_processed,
    set_inventory_count, update_entity_timestamp, update_supplier, upsert_order, BoundStatement,
    BoundView, Delta, InventoryRecord, Position,
};
use crate::events::WarehouseEvent;
use crate::handlers;
use crate::handlers::{handle, push_completion, HandlerError, Purpose, Step};
use crate::payload;
use crate::payload::{EventPayload, OrderItem, PayloadError};
use crate::time::Timestamp;
use vstd::prelude::*;

verus! {

/// What is asked of the database.
#[derive(Debug)]
pub enum Query {
    Processed { event_id: String },
    EntityTimestamp { entity_id: String },
    Zone { product_id: String, zone_id: String },
    Product { product_id: String },
    Order { order_id: String },
}

/// What a [`Query`] holds.
pub enum QueryView {
    Processed { event_id: Seq<char> },
    EntityTimestamp { entity_id: Seq<char> },
    Zone { product_id: Seq<char>, zone_id: Seq<char> },
    Product { product_id: Seq<char> },
    Order { order_id: Seq<char> },
}

impl View for Query {
    type V = QueryView;

    open spec fn view(&self) -> QueryView {
        match self {
            Query::Processed { event_id } => QueryView::Processed { event_id: event_id@ },
            Query::EntityTimestamp { entity_id } => QueryView::EntityTimestamp {
                entity_id: entity_id@,
            },
            Query::Zone { product_id, zone_id } => QueryView::Zone {
                product_id: product_id@,
                zone_id: zone_id@,
            },
            Query::Product { product_id } => QueryView::Product { product_id: product_id@ },
            Query::Order { order_id } => QueryView::Order { order_id: order_id@ },
        }
    }
}

/// What is to be done next.
#[derive(Debug)]
pub enum Request {
    Read(Query),
    /// All of these statements together, or none.
    Batch(Vec<BoundStatement>),
    Execute(BoundStatement),
    /// Nothing more.
    Finished,
}

/// What a [`Request`] holds.
pub enum RequestView {
    Read(QueryView),
    Batch(Seq<BoundView>),
    Execute(BoundView),
    Finished,
}

impl View for Request {
    type V = RequestView;

    open spec fn view(&self) -> RequestView {
        match self {
            Request::Read(q) => RequestView::Read(q@),
            Request::Batch(b) => RequestView::Batch(cassandra::bounds(b@)),
            Request::Execute(s) => RequestView::Execute(s@),
            Request::Finished => RequestView::Finished,
        }
    }
}

/// An order as it was saved: the text of its items, and what that text reads as.
#[derive(Debug)]
pub struct StoredOrder {
    pub items_json: String,
    pub items: Result<Vec<OrderItem>, String>,
}

/// What came of a request.
#[derive(Debug)]
pub enum Reply {
    Processed(bool),
    Timestamp(Option<Timestamp>),
    /// A row of quantities, available and reserved.
    Stock(Option<(i64, i64)>),
    Order(Option<StoredOrder>),
    Written,
    /// It could not be done, or not be read.
    Failed(String),
}

/// What a [`Reply`] holds.
pub enum ReplyView {
    Processed(bool),
    Timestamp(Option<Timestamp>),
    Stock(Option<(i64, i64)>),
    Order(Option<(String, Result<Seq<OrderItem>, String>)>),
    Written,
    Failed(String),
}

impl View for Reply {
    type V = ReplyView;

    open spec fn view(&self) -> ReplyView {
        match self {
            Reply::Processed(b) => ReplyView::Processed(*b),
            Reply::Timestamp(t) => ReplyView::Timestamp(*t),
            Reply::Stock(row) => ReplyView::Stock(*row),
            Reply::Order(None) => ReplyView::Order(None),
            Reply::Order(Some(order)) => ReplyView::Order(
                Some(
                    (
                        order.items_json,
                        match order.items {
                            Ok(items) => Ok(items@),
                            Err(e) => Err(e),
                        },
                    ),
                ),
            ),
            Reply::Written => ReplyView::Written,
            Reply::Failed(e) => ReplyView::Failed(*e),
        }
    }
}

/// What became of an event.
#[derive(Debug)]
pub enum Outcome {
    Applied,
    /// It had been processed before.
    Duplicate,
    /// A newer event had been processed before.
    OutOfOrder,
    Failed(HandlerError),
}

/// How far the processing has come.
#[derive(Debug)]
pub enum Stage {
    /// Asking whether the event has been processed before.
    Checking,
    Working,
    Done(Outcome),
}

/// The processing of one event.
pub struct EventRun {
    event: WarehouseEvent,
    at: Position,
    /// Why there are no steps.
    refusal: Option<HandlerError>,
    steps: Vec<Step>,
    next: usize,
    /// What the zone was read to have.
    zone: InventoryRecord,
    /// What the product, or the target zone, was read to have.
    other: InventoryRecord,
    stage: Stage,
}

/// What an [`EventRun`] holds.
pub struct RunView {
    pub event: WarehouseEvent,
    pub at: Position,
    pub refusal: Option<HandlerError>,
    pub steps: Seq<Step>,
    pub next: int,
    pub zone: InventoryRecord,
    pub other: InventoryRecord,
    pub stage: Stage,
}

impl RunView {
    /// Whether the next step, where there is one, is one of its steps, and no write failed
    /// before there was any.
    pub open spec fn wf(self) -> bool {
        &&& self.stage is Working ==> {
            &&& 0 <= self.next < self.steps.len()
            &&& !(self.steps[self.next] is RefuseItem)
        }
        &&& self.stage is Checking && self.refusal is Some ==> !(self.refusal->0 is Unwritten)
    }

    /// The processing, done.
    pub open spec fn ended(self, outcome: Outcome) -> RunView {
        RunView { stage: Stage::Done(outcome), ..self }
    }

    /// The processing at that step, which ends it where there is none.
    pub open spec fn at_step(self, next: int) -> RunView {
        if next >= self.steps.len() {
            RunView { next, stage: Stage::Done(Outcome::Applied), ..self }
        } else {
            match self.steps[next] {
                Step::RefuseItem { quantity } => RunView {
                    next,
                    stage: Stage::Done(
                        Outcome::Failed(HandlerError::ItemQuantityNotPositive(quantity)),
                    ),
                    ..self
                },
                _ => RunView { next, stage: Stage::Working, ..self },
            }
        }
    }

    /// What a settlement changes.
    pub open spec fn settled(quantity: i64) -> Delta {
        Delta { available: 0, reserved: (-quantity) as i128 }
    }

    /// What the next step asks for.
    pub open spec fn step_request(self, now: Timestamp) -> RequestView {
        match self.steps[self.next] {
            Step::CheckOrder { product_id, zone_id } => RequestView::Read(
                QueryView::EntityTimestamp {
                    entity_id: cassandra::entity_id(product_id@, zone_id@),
                },
            ),
            Step::CheckStock { product_id, zone_id, .. } => RequestView::Read(
                QueryView::Zone { product_id: product_id@, zone_id: zone_id@ },
            ),
            Step::RefuseItem { .. } => RequestView::Finished,
            Step::ReadZone { product_id, zone_id } => RequestView::Read(
                QueryView::Zone { product_id: product_id@, zone_id: zone_id@ },
            ),
            Step::ReadProduct { product_id } => RequestView::Read(
                QueryView::Product { product_id: product_id@ },
            ),
            Step::ReadTarget { product_id, zone_id } => RequestView::Read(
                QueryView::Zone { product_id: product_id@, zone_id: zone_id@ },
            ),
            Step::WriteDelta { product_id, zone_id, delta } => RequestView::Batch(
                cassandra::delta_batch(
                    self.event,
                    self.at,
                    now,
                    product_id@,
                    zone_id@,
                    delta,
                    self.zone,
                    self.other,
                ),
            ),
            Step::WriteMove { product_id, from_zone, to_zone, quantity } => RequestView::Batch(
                cassandra::move_batch(
                    self.event,
                    self.at,
                    now,
                    product_id@,
                    from_zone@,
                    to_zone@,
                    quantity as int,
                    self.zone,
                    self.other,
                ),
            ),
            Step::WriteCount { product_id, zone_id, counted } => RequestView::Batch(
                cassandra::count_batch(
                    self.event,
                    self.at,
                    now,
                    product_id@,
                    zone_id@,
                    counted as int,
                    self.zone,
                    self.other,
                ),
            ),
            Step::WriteSupplier { product_id, zone_id, supplier_id } => RequestView::Execute(
                cassandra::note_supplier(supplier_id@, product_id@, zone_id@),
            ),
            Step::CheckReserved { product_id, zone_id, .. } => RequestView::Read(
                QueryView::Zone { product_id: product_id@, zone_id: zone_id@ },
            ),
            Step::WriteSettled { product_id, zone_id, quantity } => RequestView::Batch(
                cassandra::delta_batch(
                    self.event,
                    self.at,
                    now,
                    product_id@,
                    zone_id@,
                    Self::settled(quantity),
                    self.zone,
                    self.other,
                ),
            ),
            Step::LoadOrder { order_id } => RequestView::Read(
                QueryView::Order { order_id: order_id@ },
            ),
            Step::SaveOrder { order_id, status, lines } => RequestView::Execute(
                cassandra::save_order(
                    order_id@,
                    status.text(),
                    lines.text(),
                    self.event.timestamp,
                    now,
                ),
            ),
            Step::Touch { product_id, zone_id } => RequestView::Execute(
                cassandra::note_touched(
                    self.event,
                    cassandra::entity_id(product_id@, zone_id@),
                ),
            ),
            Step::MarkProcessed => RequestView::Execute(
                cassandra::note_processed(self.event, now, self.at),
            ),
        }
    }

    /// What is to be done next, at that time.
    pub open spec fn expected(self, now: Timestamp) -> RequestView {
        match self.stage {
            Stage::Checking => RequestView::Read(
                QueryView::Processed { event_id: self.event.event_id@ },
            ),
            Stage::Working => self.step_request(now),
            Stage::Done(_) => RequestView::Finished,
        }
    }

    /// Whether the quantities that the next step writes can be kept.
    pub open spec fn in_range(self) -> bool {
        self.stage is Working ==> match self.steps[self.next] {
            Step::WriteDelta { delta, .. } => delta.fits(self.zone) && delta.fits(self.other),
            Step::WriteSettled { quantity, .. } => Self::settled(quantity).fits(self.zone)
                && Self::settled(quantity).fits(self.other),
            Step::WriteMove { quantity, .. } => cassandra::is_quantity(
                self.zone.available - quantity,
            ) && cassandra::is_quantity(self.other.available + quantity),
            Step::WriteCount { counted, .. } => cassandra::is_quantity(
                counted - self.zone.available,
            ) && cassandra::is_quantity(
                self.other.available + (counted - self.zone.available),
            ),
            _ => true,
        }
    }

    /// Whether a reply is one to what is to be done next.
    pub open spec fn accepts(self, reply: ReplyView) -> bool {
        match self.stage {
            Stage::Checking => reply is Processed || reply is Failed,
            Stage::Working => reply is Failed || match self.steps[self.next] {
                Step::CheckOrder { .. } => reply is Timestamp,
                Step::CheckStock { .. }
                | Step::ReadZone { .. }
                | Step::ReadProduct { .. }
                | Step::ReadTarget { .. }
                | Step::CheckReserved { .. } => reply is Stock,
                Step::LoadOrder { .. } => reply is Order,
                _ => reply is Written,
            },
            Stage::Done(_) => false,
        }
    }

    /// That many steps on, or the end.
    pub open spec fn past(self, count: int) -> int {
        if self.next + count < self.steps.len() {
            self.next + count
        } else {
            self.steps.len() as int
        }
    }

    /// The stock that a purpose draws on.
    pub open spec fn drawn(purpose: Purpose, stock: InventoryRecord) -> i64 {
        if purpose == Purpose::Release {
            stock.reserved
        } else {
            stock.available
        }
    }

    /// The processing after a step and its reply.
    pub open spec fn after_step(self, reply: ReplyView) -> RunView {
        match self.steps[self.next] {
            Step::CheckOrder { .. } => match reply->Timestamp_0 {
                Some(last) if self.event.timestamp.not_after(last) => self.ended(
                    Outcome::OutOfOrder,
                ),
                _ => self.at_step(self.next + 1),
            },
            Step::CheckStock { product_id, zone_id, quantity, purpose } => {
                let have = Self::drawn(purpose, cassandra::stock_in(reply->Stock_0));
                if have < quantity {
                    self.ended(
                        Outcome::Failed(
                            HandlerError::Insufficient {
                                purpose,
                                product_id,
                                zone_id,
                                have,
                                need: quantity,
                            },
                        ),
                    )
                } else {
                    self.at_step(self.next + 1)
                }
            },
            Step::ReadZone { .. } => RunView {
                zone: cassandra::stock_in(reply->Stock_0),
                ..self
            }.at_step(self.next + 1),
            Step::ReadProduct { .. } | Step::ReadTarget { .. } => RunView {
                other: cassandra::stock_in(reply->Stock_0),
                ..self
            }.at_step(self.next + 1),
            Step::CheckReserved { quantity, .. } => if cassandra::stock_in(reply->Stock_0).reserved
                >= quantity {
                self.at_step(self.next + 1)
            } else {
                self.at_step(self.past(4))
            },
            Step::LoadOrder { order_id } => match reply->Order_0 {
                None => self.ended(Outcome::Failed(HandlerError::OrderNotFound(order_id))),
                Some((_, Err(e))) => self.ended(Outcome::Failed(HandlerError::Storage(e))),
                Some((items_json, Ok(items))) => RunView {
                    steps: self.steps.take(self.next + 1) + handlers::completion(
                        order_id,
                        items_json,
                        items,
                    ),
                    ..self
                }.at_step(self.next + 1),
            },
            _ => self.at_step(self.next + 1),
        }
    }

    /// Whether the next step writes.
    pub open spec fn is_writing(self) -> bool {
        self.stage is Working && handlers::is_write(self.steps[self.next])
    }

    /// Whether a write failed.
    pub open spec fn failed_to_write(self) -> bool {
        self.stage is Done && self.stage->Done_0 is Failed && self.stage->Done_0->Failed_0
            is Unwritten
    }

    /// The processing after a reply.
    pub open spec fn after(self, reply: ReplyView) -> RunView {
        match reply {
            ReplyView::Failed(e) => self.ended(
                Outcome::Failed(
                    if self.is_writing() {
                        HandlerError::Unwritten(e)
                    } else {
                        HandlerError::Storage(e)
                    },
                ),
            ),
            _ => match self.stage {
                Stage::Checking => if reply == ReplyView::Processed(true) {
                    self.ended(Outcome::Duplicate)
                } else {
                    match self.refusal {
                        Some(e) => RunView { refusal: None, ..self }.ended(Outcome::Failed(e)),
                        None => self.at_step(0),
                    }
                },
                Stage::Working => self.after_step(reply),
                Stage::Done(_) => self,
            },
        }
    }
}

/// The start of the processing of an event whose payload reads like that.
pub open spec fn begun(
    event: WarehouseEvent,
    at: Position,
    payload: Result<EventPayload, PayloadError>,
) -> RunView {
    let idle = RunView {
        event,
        at,
        refusal: None,
        steps: Seq::empty(),
        next: 0,
        zone: cassandra::nothing(),
        other: cassandra::nothing(),
        stage: Stage::Checking,
    };
    match payload {
        Err(e) => RunView { refusal: Some(HandlerError::Payload(e)), ..idle },
        Ok(p) => match handlers::steps_for(p) {
            Err(e) => RunView { refusal: Some(e), ..idle },
            Ok(steps) => RunView { steps, ..idle },
        },
    }
}

/// Whether this is the start of the processing of an event.
pub open spec fn starts(event: WarehouseEvent, at: Position, run: RunView) -> bool {
    exists|p: Result<EventPayload, PayloadError>| #[trigger]
        payload::payload_read(event.event_type@, event.payload@, p) && run == begun(event, at, p)
}

/// Begins the processing of an event.
pub fn process_event(event: WarehouseEvent, partition: i32, offset: i64) -> (r: EventRun)
    ensures
        r@.wf(),
        starts(event, Position { partition, offset }, r@),
{
    let payload = event.parse_payload();
    let ghost given = payload;
    let at = Position { partition, offset };
    let zone = InventoryRecord::default();
    let other = InventoryRecord::default();
    let plan = match payload {
        Ok(p) => handle(p),
        Err(e) => Err(HandlerError::Payload(e)),
    };
    let (refusal, steps) = match plan {
        Ok(steps) => (None, steps),
        Err(e) => (Some(e), Vec::new()),
    };
    let r = EventRun { event, at, refusal, steps, next: 0, zone, other, stage: Stage::Checking };
    assert(r@ == begun(event, at, given)) by {
        assert(r@.steps =~= begun(event, at, given).steps);
    }
    r
}

impl EventRun {
    pub closed spec fn view(&self) -> RunView {
        RunView {
            event: self.event,
            at: self.at,
            refusal: self.refusal,
            steps: self.steps@,
            next: self.next as int,
            zone: self.zone,
            other: self.other,
            stage: self.stage,
        }
    }

    /// The event that is processed.
    pub fn event(&self) -> (r: &WarehouseEvent)
        ensures
            *r == self@.event,
    {
        &self.event
    }

    /// What became of the event, once that is known.
    pub fn outcome(&self) -> (r: Option<&Outcome>)
        ensures
            match r {
                Some(outcome) => self@.stage == Stage::Done(*outcome),
                None => !(self@.stage is Done),
            },
    {
        match &self.stage {
            Stage::Done(outcome) => Some(outcome),
            _ => None,
        }
    }

    /// Whether the quantities that the next step writes can be kept.
    pub fn is_in_range(&self) -> (r: bool)
        requires
            self@.wf(),
        ensures
            r == self@.in_range(),
    {
        match &self.stage {
            Stage::Working => match &self.steps[self.next] {
                Step::WriteDelta { delta, .. } => delta.can_apply(self.zone) && delta.can_apply(
                    self.other,
                ),
                Step::WriteSettled { quantity, .. } => {
                    let delta = Delta { available: 0, reserved: -(*quantity as i128) };
                    delta.can_apply(self.zone) && delta.can_apply(self.other)
                },
                Step::WriteMove { quantity, .. } => fits_quantity(
                    self.zone.available as i128 - *quantity as i128,
                ) && fits_quantity(self.other.available as i128 + *quantity as i128),
                Step::WriteCount { counted, .. } => {
                    let change: i128 = *counted as i128 - self.zone.available as i128;
                    fits_quantity(change) && fits_quantity(self.other.available as i128 + change)
                },
                _ => true,
            },
            _ => true,
        }
    }

    /// Whether a write failed.
    pub fn is_write_error(&self) -> (r: bool)
        ensures
            r == self@.failed_to_write(),
    {
        matches!(self.stage, Stage::Done(Outcome::Failed(HandlerError::Unwritten(_))))
    }

    /// What is to be done next, at that time.
    pub fn request(&self, now: Timestamp) -> (r: Request)
        requires
            self@.wf(),
            self@.in_range(),
        ensures
            r@ == self@.expected(now),
    {
        match &self.stage {
            Stage::Checking => Request::Read(
                Query::Processed { event_id: self.event.event_id.clone() },
            ),
            Stage::Working => self.next_request(now),
            Stage::Done(_) => Request::Finished,
        }
    }

    fn next_request(&self, now: Timestamp) -> (r: Request)
        requires
            self@.wf(),
            self@.in_range(),
            self@.stage is Working,
        ensures
            r@ == self@.step_request(now),
    {
        match &self.steps[self.next] {
            Step::CheckOrder { product_id, zone_id } => Request::Read(
                Query::EntityTimestamp {
                    entity_id: entity_key(product_id.as_str(), zone_id.as_str()),
                },
            ),
            Step::CheckStock { product_id, zone_id, .. } => Request::Read(
                Query::Zone { product_id: product_id.clone(), zone_id: zone_id.clone() },
            ),
            Step::RefuseItem { .. } => Request::Finished,
            Step::ReadZone { product_id, zone_id } => Request::Read(
                Query::Zone { product_id: product_id.clone(), zone_id: zone_id.clone() },
            ),
            Step::ReadProduct { product_id } => Request::Read(
                Query::Product { product_id: product_id.clone() },
            ),
            Step::ReadTarget { product_id, zone_id } => Request::Read(
                Query::Zone { product_id: product_id.clone(), zone_id: zone_id.clone() },
            ),
            Step::WriteDelta { product_id, zone_id, delta } => Request::Batch(
                apply_delta(
                    &self.event,
                    self.at,
                    now,
                    product_id.as_str(),
                    zone_id.as_str(),
                    *delta,
                    self.zone,
                    self.other,
                ),
            ),
            Step::WriteMove { product_id, from_zone, to_zone, quantity } => Request::Batch(
                apply_move_delta(
                    &self.event,
                    self.at,
                    now,
                    product_id.as_str(),
                    from_zone.as_str(),
                    to_zone.as_str(),
                    *quantity,
                    self.zone,
                    self.other,
                ),
            ),
            Step::WriteCount { product_id, zone_id, counted } => Request::Batch(
                set_inventory_count(
                    &self.event,
                    self.at,
                    now,
                    product_id.as_str(),
                    zone_id.as_str(),
                    *counted,
                    self.zone,
                    self.other,
                ),
            ),
            Step::WriteSupplier { product_id, zone_id, supplier_id } => Request::Execute(
                update_supplier(supplier_id.as_str(), product_id.as_str(), zone_id.as_str()),
            ),
            Step::CheckReserved { product_id, zone_id, .. } => Request::Read(
                Query::Zone { product_id: product_id.clone(), zone_id: zone_id.clone() },
            ),
            Step::WriteSettled { product_id, zone_id, quantity } => Request::Batch(
                apply_delta(
                    &self.event,
                    self.at,
                    now,
                    product_id.as_str(),
                    zone_id.as_str(),
                    Delta { available: 0, reserved: -(*quantity as i128) },
                    self.zone,
                    self.other,
                ),
            ),
            Step::LoadOrder { order_id } => Request::Read(
                Query::Order { order_id: order_id.clone() },
            ),
            Step::SaveOrder { order_id, status, lines } => {
                let items_json = lines.to_json();
                Request::Execute(
                    upsert_order(
                        order_id.as_str(),
                        status.as_str(),
                        items_json.as_str(),
                        self.event.timestamp,
                        now,
                    ),
                )
            },
            Step::Touch { product_id, zone_id } => Request::Execute(
                update_entity_timestamp(&self.event, product_id.as_str(), zone_id.as_str()),
            ),
            Step::MarkProcessed => Request::Execute(mark_processed(&self.event, self.at, now)),
        }
    }

    /// Whether a reply is one to what is to be done next.
    pub fn is_answered_by(&self, reply: &Reply) -> (r: bool)
        requires
            self@.wf(),
        ensures
            r == self@.accepts(reply@),
    {
        match &self.stage {
            Stage::Checking => matches!(reply, Reply::Processed(_) | Reply::Failed(_)),
            Stage::Working => matches!(reply, Reply::Failed(_)) || match &self.steps[self.next] {
                Step::CheckOrder { .. } => matches!(reply, Reply::Timestamp(_)),
                Step::CheckStock { .. }
                | Step::ReadZone { .. }
                | Step::ReadProduct { .. }
                | Step::ReadTarget { .. }
                | Step::CheckReserved { .. } => matches!(reply, Reply::Stock(_)),
                Step::LoadOrder { .. } => matches!(reply, Reply::Order(_)),
                _ => matches!(reply, Reply::Written),
            },
            Stage::Done(_) => false,
        }
    }

    fn go_to(&mut self, next: usize)
        ensures
            final(self)@ == old(self)@.at_step(next as int),
            final(self)@.wf(),
    {
        self.next = next;
        if next >= self.steps.len() {
            self.stage = Stage::Done(Outcome::Applied);
        } else {
            match &self.steps[next] {
                Step::RefuseItem { quantity } => {
                    let error = HandlerError::ItemQuantityNotPositive(*quantity);
                    self.stage = Stage::Done(Outcome::Failed(error));
                },
                _ => {
                    self.stage = Stage::Working;
                },
            }
        }
    }

    /// Takes the reply to what was to be done next.
    pub fn advance(&mut self, reply: Reply)
        requires
            old(self)@.wf(),
            old(self)@.accepts(reply@),
        ensures
            final(self)@ == old(self)@.after(reply@),
            final(self)@.wf(),
    {
        match reply {
            Reply::Failed(e) => {
                let writing = match &self.stage {
                    Stage::Working => self.steps[self.next].writes(),
                    _ => false,
                };
                let error = if writing {
                    HandlerError::Unwritten(e)
                } else {
                    HandlerError::Storage(e)
                };
                self.stage = Stage::Done(Outcome::Failed(error));
                return;
            },
            _ => {},
        }
        match &self.stage {
            Stage::Checking => {
                if matches!(reply, Reply::Processed(true)) {
                    self.stage = Stage::Done(Outcome::Duplicate);
                } else {
                    match self.refusal.take() {
                        Some(e) => {
                            self.stage = Stage::Done(Outcome::Failed(e));
                        },
                        None => {
                            self.go_to(0);
                        },
                    }
                }
            },
            Stage::Working => {
                self.take_step(reply);
            },
            Stage::Done(_) => {},
        }
    }

    fn take_step(&mut self, reply: Reply)
        requires
            old(self)@.wf(),
            old(self)@.stage is Working,
            old(self)@.accepts(reply@),
            !(reply is Failed),
        ensures
            final(self)@ == old(self)@.after_step(reply@),
            final(self)@.wf(),
    {
        let next: usize = self.next;
        let len: usize = self.steps.len();
        match &self.steps[next] {
            Step::CheckOrder { .. } => {
                let stale = match reply {
                    Reply::Timestamp(Some(last)) => self.event.timestamp.is_not_after(last),
                    _ => false,
                };
                if stale {
                    self.stage = Stage::Done(Outcome::OutOfOrder);
                } else {
                    self.go_to(next + 1);
                }
            },
            Step::CheckStock { product_id, zone_id, quantity, purpose } => {
                let stock = match reply {
                    Reply::Stock(row) => inventory_of(row),
                    _ => InventoryRecord::default(),
                };
                let have: i64 = if *purpose == Purpose::Release {
                    stock.reserved
                } else {
                    stock.available
                };
                if have < *quantity {
                    let error = HandlerError::Insufficient {
                        purpose: *purpose,
                        product_id: product_id.clone(),
                        zone_id: zone_id.clone(),
                        have,
                        need: *quantity,
                    };
                    self.stage = Stage::Done(Outcome::Failed(error));
                } else {
                    self.go_to(next + 1);
                }
            },
            Step::ReadZone { .. } => {
                match reply {
                    Reply::Stock(row) => {
                        self.zone = inventory_of(row);
                    },
                    _ => {},
                }
                self.go_to(next + 1);
            },
            Step::ReadProduct { .. } | Step::ReadTarget { .. } => {
                match reply {
                    Reply::Stock(row) => {
                        self.other = inventory_of(row);
                    },
                    _ => {},
                }
                self.go_to(next + 1);
            },
            Step::CheckReserved { quantity, .. } => {
                let stock = match reply {
                    Reply::Stock(row) => inventory_of(row),
                    _ => InventoryRecord::default(),
                };
                if stock.reserved >= *quantity {
                    self.go_to(next + 1);
                } else {
                    self.go_to(
                        if len - next > 4 {
                            next + 4
                        } else {
                            len
                        },
                    );
                }
            },
            Step::LoadOrder { order_id } => {
                match reply {
                    Reply::Order(Some(order)) => match order.items {
                        Ok(items) => {
                            let order_id = order_id.clone();
                            self.steps.truncate(next + 1);
                            push_completion(&mut self.steps, order_id, order.items_json, &items);
                            self.go_to(next + 1);
                        },
                        Err(e) => {
                            self.stage = Stage::Done(Outcome::Failed(HandlerError::Storage(e)));
                        },
                    },
                    _ => {
                        let error = HandlerError::OrderNotFound(order_id.clone());
                        self.stage = Stage::Done(Outcome::Failed(error));
                    },
                }
            },
            _ => {
                self.go_to(next + 1);
            },
        }
    }
}

/// The processing begins with the event, at the place of its message, with nothing done.
pub proof fn processing_begins_with_its_event(event: WarehouseEvent, at: Position, run: RunView)
    requires
        starts(event, at, run),
    ensures
        run.event == event,
        run.at == at,
        run.next == 0,
        run.stage is Checking,
{
}

/// A reply is one to what was asked: to a read what it asks for, to a write that it was done,
/// and to either that it failed. Once the processing is done nothing is replied to.
pub proof fn replies_go_with_requests(run: RunView, now: Timestamp, reply: ReplyView)
    requires
        run.wf(),
    ensures
        run.accepts(reply) <==> match run.expected(now) {
            RequestView::Read(QueryView::Processed { .. }) => reply is Processed || reply is Failed,
            RequestView::Read(QueryView::EntityTimestamp { .. }) => reply is Timestamp || reply
                is Failed,
            RequestView::Read(QueryView::Zone { .. }) => reply is Stock || reply is Failed,
            RequestView::Read(QueryView::Product { .. }) => reply is Stock || reply is Failed,
            RequestView::Read(QueryView::Order { .. }) => reply is Order || reply is Failed,
            RequestView::Batch(_) => reply is Written || reply is Failed,
            RequestView::Execute(_) => reply is Written || reply is Failed,
            RequestView::Finished => false,
        },
{
}

/// What the database reports when something fails ends the processing, and is its message,
/// whatever was asked for; so is what is wrong with the items of an order.
pub proof fn failures_end_with_their_message(run: RunView, error: String, items_json: String)
    requires
        run.wf(),
        !(run.stage is Done),
    ensures
        run.after(ReplyView::Failed(error)).stage matches Stage::Done(Outcome::Failed(e))
            && e.text() == error@,
        run.stage is Working && run.steps[run.next] is LoadOrder ==> (run.after(
            ReplyView::Order(Some((items_json, Err(error)))),
        ).stage matches Stage::Done(Outcome::Failed(e)) && e.text() == error@),
{
}

/// Whether every number of a statement can be kept.
pub open spec fn can_be_kept(b: BoundView) -> bool {
    forall|i: int|
        0 <= i < b.values.len() ==> match #[trigger] b.values[i] {
            cassandra::BindView::BigInt(n) => -0x8000_0000_0000_0000 <= n < 0x8000_0000_0000_0000,
            _ => true,
        }
}

/// Amounts can be written exactly if every number in the batch can be kept, and for a count
/// also the difference to what was there. Nothing else is ever out of range.
pub proof fn amounts_are_in_range_exactly_if(run: RunView, now: Timestamp)
    requires
        run.wf(),
    ensures
        run.in_range() <==> match run.expected(now) {
            RequestView::Batch(batch) => (forall|i: int|
                0 <= i < batch.len() ==> can_be_kept(#[trigger] batch[i])) && (
            run.steps[run.next] matches Step::WriteCount { counted, .. } ==> cassandra::is_quantity(
                counted - run.zone.available,
            )),
            _ => true,
        },
{
    match run.expected(now) {
        RequestView::Batch(batch) => {
            assert(run.stage is Working);
            let step = run.steps[run.next];
            if run.in_range() {
                assert forall|i: int| 0 <= i < batch.len() implies can_be_kept(
                    #[trigger] batch[i],
                ) by {
                    assert(i == 0 || i == 1 || i == 2 || i == 3 || i == 4 || i == 5);
                }
            }
            if forall|i: int| 0 <= i < batch.len() ==> can_be_kept(#[trigger] batch[i]) {
                assert(can_be_kept(batch[0]) && can_be_kept(batch[2]));
                let (a, b) = (batch[0].values, batch[2].values);
                assert(a[0] is BigInt && a[1] is BigInt && b[0] is BigInt && b[1] is BigInt);
            }
        },
        _ => {},
    }
}

} // verus!

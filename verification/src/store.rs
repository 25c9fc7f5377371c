//! What the database holds, and what the processing of an event makes of it.
use crate::cassandra;
use crate::cassandra::{BoundView, InventoryRecord, Position, Statement};
use crate::events::WarehouseEvent;
use crate::handlers;
use crate::handlers::{HandlerError, Purpose, Step};
use crate::json;
use crate::run;
use crate::run::{Outcome, QueryView, ReplyView, RequestView, RunView};
use crate::time::Timestamp;
use vstd::prelude::*;

verus! {

/// A quantity that is available and one that is reserved.
pub struct Amount {
    pub available: int,
    pub reserved: int,
}

/// An event as the history has it.
pub struct HistoryRow {
    pub event_type: Seq<char>,
    pub event_id: Seq<char>,
    pub timestamp: Timestamp,
    pub product_id: Seq<char>,
    pub zone_id: Seq<char>,
    pub payload_json: Seq<char>,
}

/// An order as its row has it.
pub struct OrderRow {
    pub status: Seq<char>,
    pub items_json: Seq<char>,
    pub created_at: Timestamp,
}

/// A time as the database keeps it: to the millisecond.
pub open spec fn kept(time: Timestamp) -> Timestamp {
    let millis = time.nanos as int / 1_000_000;
    Timestamp {
        secs: (time.secs + millis / 1000) as i64,
        nanos: (millis % 1000 * 1_000_000) as u32,
    }
}

/// The rows of the database, without the times at which they were written.
#[verifier::ext_equal]
pub struct Store {
    /// The ids of the events that have been processed.
    pub processed: Set<Seq<char>>,
    /// By product and zone.
    pub zones: Map<(Seq<char>, Seq<char>), Amount>,
    /// The same by zone and product.
    pub by_zone: Map<(Seq<char>, Seq<char>), Amount>,
    /// By product, over all zones.
    pub products: Map<Seq<char>, Amount>,
    pub history: Set<HistoryRow>,
    pub orders: Map<Seq<char>, OrderRow>,
    /// The time of the last event for each product in a zone.
    pub entities: Map<Seq<char>, Timestamp>,
    /// By product and zone.
    pub suppliers: Map<(Seq<char>, Seq<char>), Seq<char>>,
}

impl Store {
    /// What a zone has of a product.
    pub open spec fn zone(self, product_id: Seq<char>, zone_id: Seq<char>) -> Amount {
        if self.zones.contains_key((product_id, zone_id)) {
            self.zones[(product_id, zone_id)]
        } else {
            Amount { available: 0, reserved: 0 }
        }
    }

    /// What there is of a product.
    pub open spec fn product(self, product_id: Seq<char>) -> Amount {
        if self.products.contains_key(product_id) {
            self.products[product_id]
        } else {
            Amount { available: 0, reserved: 0 }
        }
    }

    /// The time of the last event for a product in a zone.
    pub open spec fn last_event(self, product_id: Seq<char>, zone_id: Seq<char>) -> Option<
        Timestamp,
    > {
        self.entity(cassandra::entity_id(product_id, zone_id))
    }

    pub open spec fn entity(self, entity_id: Seq<char>) -> Option<Timestamp> {
        if self.entities.contains_key(entity_id) {
            Some(self.entities[entity_id])
        } else {
            None
        }
    }

    /// The rows after a statement.
    pub open spec fn write(self, s: BoundView) -> Store {
        match s.statement {
            Statement::InsertProcessed => Store {
                processed: self.processed.insert(s.values[0]->Text_0),
                ..self
            },
            Statement::UpsertInventoryPz => Store {
                zones: self.zones.insert(
                    (s.values[5]->Text_0, s.values[6]->Text_0),
                    Amount { available: s.values[0]->BigInt_0, reserved: s.values[1]->BigInt_0 },
                ),
                ..self
            },
            Statement::UpsertInventoryZone => Store {
                by_zone: self.by_zone.insert(
                    (s.values[3]->Text_0, s.values[4]->Text_0),
                    Amount { available: s.values[0]->BigInt_0, reserved: s.values[1]->BigInt_0 },
                ),
                ..self
            },
            Statement::UpsertInventoryProduct => Store {
                products: self.products.insert(
                    s.values[3]->Text_0,
                    Amount { available: s.values[0]->BigInt_0, reserved: s.values[1]->BigInt_0 },
                ),
                ..self
            },
            Statement::InsertHistory => Store {
                history: self.history.insert(
                    HistoryRow {
                        event_type: s.values[0]->Text_0,
                        event_id: s.values[1]->Text_0,
                        timestamp: kept(s.values[2]->Timestamp_0),
                        product_id: s.values[3]->Text_0,
                        zone_id: s.values[4]->Text_0,
                        payload_json: s.values[5]->Text_0,
                    },
                ),
                ..self
            },
            Statement::UpsertOrder => Store {
                orders: self.orders.insert(
                    s.values[0]->Text_0,
                    OrderRow {
                        status: s.values[1]->Text_0,
                        items_json: s.values[2]->Text_0,
                        created_at: kept(s.values[3]->Timestamp_0),
                    },
                ),
                ..self
            },
            Statement::UpsertEntityTs => Store {
                entities: self.entities.insert(
                    s.values[2]->Text_0,
                    kept(s.values[0]->Timestamp_0),
                ),
                ..self
            },
            Statement::UpdateSupplierId => Store {
                suppliers: self.suppliers.insert(
                    (s.values[1]->Text_0, s.values[2]->Text_0),
                    s.values[0]->Text_0,
                ),
                ..self
            },
            _ => self,
        }
    }

    /// The rows after a batch.
    pub open spec fn write_all(self, batch: Seq<BoundView>) -> Store
        decreases batch.len(),
    {
        if batch.len() == 0 {
            self
        } else {
            self.write_all(batch.drop_last()).write(batch.last())
        }
    }

    /// Whether that is what the database replies to a query.
    pub open spec fn replies(self, query: QueryView, reply: ReplyView) -> bool {
        match query {
            QueryView::Processed { event_id } => reply == ReplyView::Processed(
                self.processed.contains(event_id),
            ),
            QueryView::EntityTimestamp { entity_id } => reply == ReplyView::Timestamp(
                self.entity(entity_id),
            ),
            QueryView::Zone { product_id, zone_id } => {
                &&& reply is Stock
                &&& amount(cassandra::stock_in(reply->Stock_0)) == self.zone(product_id, zone_id)
            },
            QueryView::Product { product_id } => {
                &&& reply is Stock
                &&& amount(cassandra::stock_in(reply->Stock_0)) == self.product(product_id)
            },
            QueryView::Order { order_id } => {
                &&& reply is Order
                &&& match reply->Order_0 {
                    Some((items_json, _)) => self.orders.contains_key(order_id)
                        && self.orders[order_id].items_json == items_json@,
                    None => !self.orders.contains_key(order_id),
                }
            },
        }
    }
}

/// The quantities of a row.
pub open spec fn amount(record: InventoryRecord) -> Amount {
    Amount { available: record.available as int, reserved: record.reserved as int }
}

/// Whether the processing goes on from one state to another: the request is carried
/// out, and the reply is what the database says.
pub open spec fn goes(
    run: RunView,
    store: Store,
    reply: ReplyView,
    now: Timestamp,
    run2: RunView,
    store2: Store,
) -> bool {
    &&& run.wf()
    &&& run.in_range()
    &&& run.accepts(reply)
    &&& !(reply is Failed)
    &&& run2 == run.after(reply)
    &&& match run.expected(now) {
        RequestView::Read(query) => store.replies(query, reply) && store2 == store,
        RequestView::Batch(batch) => store2 == store.write_all(batch),
        RequestView::Execute(statement) => store2 == store.write(statement),
        RequestView::Finished => false,
    }
}

/// Whether the processing can go on from one state to another.
pub open spec fn can_go(a: (RunView, Store), b: (RunView, Store)) -> bool {
    exists|reply: ReplyView, now: Timestamp| goes(a.0, a.1, reply, now, b.0, b.1)
}

/// Whether those are the states that the processing of an event goes through, as long
/// as the database fails at nothing and nobody else writes to it.
#[verifier::opaque]
pub open spec fn processing(
    event: WarehouseEvent,
    at: Position,
    trace: Seq<(RunView, Store)>,
) -> bool {
    &&& trace.len() > 0
    &&& run::starts(event, at, trace[0].0)
    &&& forall|i: int| 0 <= i < trace.len() - 1 ==> can_go(#[trigger] trace[i], trace[i + 1])
}

impl Store {
    /// With the event among those that have been processed, and in the history.
    pub open spec fn recorded(
        self,
        event: WarehouseEvent,
        product_id: Seq<char>,
        zone_id: Seq<char>,
    ) -> Store {
        Store {
            processed: self.processed.insert(event.event_id@),
            history: self.history.insert(
                HistoryRow {
                    event_type: event.event_type@,
                    event_id: event.event_id@,
                    timestamp: kept(event.timestamp),
                    product_id,
                    zone_id,
                    payload_json: json::json_text(event.payload@),
                },
            ),
            ..self
        }
    }

    /// With another amount of a product in a zone.
    pub open spec fn with_zone(
        self,
        product_id: Seq<char>,
        zone_id: Seq<char>,
        amount: Amount,
    ) -> Store {
        Store {
            zones: self.zones.insert((product_id, zone_id), amount),
            by_zone: self.by_zone.insert((zone_id, product_id), amount),
            ..self
        }
    }

    /// With that much more of a product in a zone, and in all.
    pub open spec fn shifted(
        self,
        product_id: Seq<char>,
        zone_id: Seq<char>,
        available: int,
        reserved: int,
    ) -> Store {
        let zone = self.zone(product_id, zone_id);
        let product = self.product(product_id);
        Store {
            products: self.products.insert(
                product_id,
                Amount {
                    available: product.available + available,
                    reserved: product.reserved + reserved,
                },
            ),
            ..self.with_zone(
                product_id,
                zone_id,
                Amount {
                    available: zone.available + available,
                    reserved: zone.reserved + reserved,
                },
            )
        }
    }

    /// The rows after a step of the processing of an event.
    pub open spec fn perform(self, event: WarehouseEvent, step: Step) -> Store {
        match step {
            Step::WriteDelta { product_id, zone_id, delta } => self.shifted(
                product_id@,
                zone_id@,
                delta.available as int,
                delta.reserved as int,
            ).recorded(event, product_id@, zone_id@),
            Step::WriteMove { product_id, from_zone, to_zone, quantity } => {
                let from = self.zone(product_id@, from_zone@);
                let to = self.zone(product_id@, to_zone@);
                self.with_zone(
                    product_id@,
                    from_zone@,
                    Amount { available: from.available - quantity, ..from },
                ).with_zone(
                    product_id@,
                    to_zone@,
                    Amount { available: to.available + quantity, ..to },
                ).recorded(event, product_id@, from_zone@)
            },
            Step::WriteCount { product_id, zone_id, counted } => self.shifted(
                product_id@,
                zone_id@,
                counted - self.zone(product_id@, zone_id@).available,
                0,
            ).recorded(event, product_id@, zone_id@),
            Step::WriteSupplier { product_id, zone_id, supplier_id } => Store {
                suppliers: self.suppliers.insert((product_id@, zone_id@), supplier_id@),
                ..self
            },
            Step::WriteSettled { product_id, zone_id, quantity } => if self.zone(
                product_id@,
                zone_id@,
            ).reserved >= quantity {
                self.shifted(product_id@, zone_id@, 0, -quantity).recorded(
                    event,
                    product_id@,
                    zone_id@,
                )
            } else {
                self
            },
            Step::SaveOrder { order_id, status, lines } => Store {
                orders: self.orders.insert(
                    order_id@,
                    OrderRow {
                        status: status.text(),
                        items_json: lines.text(),
                        created_at: kept(event.timestamp),
                    },
                ),
                ..self
            },
            Step::Touch { product_id, zone_id } => Store {
                entities: self.entities.insert(
                    cassandra::entity_id(product_id@, zone_id@),
                    kept(event.timestamp),
                ),
                ..self
            },
            Step::MarkProcessed => Store {
                processed: self.processed.insert(event.event_id@),
                ..self
            },
            _ => self,
        }
    }

    /// The rows after steps of the processing of an event, one after another.
    pub open spec fn perform_all(self, event: WarehouseEvent, steps: Seq<Step>) -> Store
        decreases steps.len(),
    {
        if steps.len() == 0 {
            self
        } else {
            self.perform_all(event, steps.drop_last()).perform(event, steps.last())
        }
    }

    /// How a check comes out, where it ends the processing.
    pub open spec fn objects(self, event: WarehouseEvent, step: Step) -> Option<Outcome> {
        match step {
            Step::CheckOrder { product_id, zone_id } => match self.last_event(
                product_id@,
                zone_id@,
            ) {
                Some(last) if event.timestamp.not_after(last) => Some(Outcome::OutOfOrder),
                _ => None,
            },
            Step::CheckStock { product_id, zone_id, quantity, purpose } => {
                let stock = self.zone(product_id@, zone_id@);
                let have = if purpose == Purpose::Release {
                    stock.reserved
                } else {
                    stock.available
                };
                if have < quantity {
                    Some(
                        Outcome::Failed(
                            HandlerError::Insufficient {
                                purpose,
                                product_id,
                                zone_id,
                                have: have as i64,
                                need: quantity,
                            },
                        ),
                    )
                } else {
                    None
                }
            },
            Step::RefuseItem { quantity } => Some(
                Outcome::Failed(HandlerError::ItemQuantityNotPositive(quantity)),
            ),
            _ => None,
        }
    }

    /// What comes of the checks from the `k`th step on: the first one that ends the
    /// processing decides.
    pub open spec fn decides(self, event: WarehouseEvent, steps: Seq<Step>, k: int) -> Outcome
        decreases steps.len() - k,
    {
        if k < 0 || k >= steps.len() {
            Outcome::Applied
        } else {
            match self.objects(event, steps[k]) {
                Some(outcome) => outcome,
                None => self.decides(event, steps, k + 1),
            }
        }
    }
}

/// Whether a step can end the processing.
pub open spec fn is_check(step: Step) -> bool {
    step is CheckOrder || step is CheckStock || step is RefuseItem || step is LoadOrder
}

/// Whether no check comes after a write.
pub open spec fn checks_first(steps: Seq<Step>) -> bool {
    forall|i: int, j: int|
        0 <= i < j < steps.len() && handlers::is_write(#[trigger] steps[i]) ==> !is_check(#[trigger] steps[j])
}

/// Whether what a write goes by is read just before it.
pub open spec fn reads_first(steps: Seq<Step>) -> bool {
    forall|j: int| 0 <= j < steps.len() ==> read_before(steps, #[trigger] steps[j], j)
}

/// Whether what a write at that place goes by is read just before it.
pub open spec fn read_before(steps: Seq<Step>, step: Step, j: int) -> bool {
    match step {
        Step::WriteDelta { product_id, zone_id, .. } | Step::WriteCount { product_id, zone_id, .. } => {
            &&& j >= 2
            &&& steps[j - 2] == Step::ReadZone { product_id, zone_id }
            &&& steps[j - 1] == Step::ReadProduct { product_id }
        },
        Step::WriteMove { product_id, from_zone, to_zone, .. } => {
            &&& j >= 2
            &&& steps[j - 2] == Step::ReadZone { product_id, zone_id: from_zone }
            &&& steps[j - 1] == Step::ReadTarget { product_id, zone_id: to_zone }
        },
        Step::WriteSettled { product_id, zone_id, quantity } => {
            &&& j >= 3
            &&& steps[j - 3] == Step::CheckReserved { product_id, zone_id, quantity }
            &&& steps[j - 2] == Step::ReadZone { product_id, zone_id }
            &&& steps[j - 1] == Step::ReadProduct { product_id }
        },
        _ => true,
    }
}

/// Whether a check of what is reserved comes just before the steps that it guards.
pub open spec fn settles(steps: Seq<Step>) -> bool {
    forall|j: int|
        0 <= j < steps.len() && (#[trigger] steps[j]) is CheckReserved ==> {
            &&& j + 4 < steps.len()
            &&& steps[j + 1] is ReadZone
            &&& steps[j + 2] is ReadProduct
            &&& steps[j + 3] is WriteSettled
        }
}

/// Whether steps are in the order that the processing relies on.
#[verifier::opaque]
pub open spec fn orderly(steps: Seq<Step>) -> bool {
    checks_first(steps) && reads_first(steps) && settles(steps)
}

} // verus!

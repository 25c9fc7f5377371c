//! What can be relied on when events are processed.
use crate::cassandra;
use crate::cassandra::{Delta, Position};
use crate::events::WarehouseEvent;
use crate::handlers;
use crate::handlers::Step;
use crate::payload;
use crate::payload::{
    EventPayload, InventoryCountedPayload, OrderCompletedPayload, OrderCreatedPayload, OrderItem,
    ProductMovedPayload, ProductReleasedPayload, ProductReservedPayload,
};
use crate::processing;
use crate::run;
use crate::run::{Outcome, RunView, Stage};
use crate::store;
use crate::store::{Amount, OrderRow, Store};
use crate::time::Timestamp;
use vstd::prelude::*;

verus! {

/// Whether those are the states that the processing of an event with that payload goes
/// through, to its end.
pub open spec fn processed_with(
    event: WarehouseEvent,
    at: Position,
    p: EventPayload,
    trace: Seq<(RunView, Store)>,
) -> bool {
    &&& store::processing(event, at, trace)
    &&& trace[0].0 == run::begun(event, at, Ok(p))
    &&& trace.last().0.stage is Done
}

/// What became of the event at the end.
pub open spec fn outcome(trace: Seq<(RunView, Store)>) -> Outcome {
    trace.last().0.stage->Done_0
}

/// What the database held before.
pub open spec fn before(trace: Seq<(RunView, Store)>) -> Store {
    trace[0].1
}

/// What the database holds at the end.
pub open spec fn after(trace: Seq<(RunView, Store)>) -> Store {
    trace.last().1
}

/// An event that has been processed is a duplicate. For another one the checks on what
/// the database holds decide what becomes of it, and what it leads to is all done if it
/// is applied, and none of it if it is not.
pub proof fn result_of_processing(
    event: WarehouseEvent,
    at: Position,
    trace: Seq<(RunView, Store)>,
)
    requires
        store::processing(event, at, trace),
        trace.last().0.stage is Done,
    ensures
        if before(trace).processed.contains(event.event_id@) {
            outcome(trace) is Duplicate && after(trace) == before(trace)
        } else {
            processing::ended(
                trace[0].0,
                before(trace),
                outcome(trace),
                trace.last().0.steps,
                after(trace),
            )
        },
{
    processing::along(event, at, trace, 0);
    processing::along(event, at, trace, trace.len() - 1);
}

/// An event that is not applied changes nothing.
pub proof fn only_applied_events_change_anything(
    event: WarehouseEvent,
    at: Position,
    trace: Seq<(RunView, Store)>,
)
    requires
        store::processing(event, at, trace),
        trace.last().0.stage is Done,
        !(outcome(trace) is Applied),
    ensures
        after(trace) == before(trace),
{
    result_of_processing(event, at, trace);
}

/// Whether a step marks the event as processed.
pub open spec fn marks(step: Step) -> bool {
    step is WriteDelta || step is WriteMove || step is WriteCount || step is MarkProcessed
}

proof fn marked(s0: Store, event: WarehouseEvent, steps: Seq<Step>, j: int)
    requires
        0 <= j < steps.len(),
        marks(steps[j]),
    ensures
        s0.perform_all(event, steps).processed.contains(event.event_id@),
    decreases steps.len(),
{
    if j < steps.len() - 1 {
        marked(s0, event, steps.drop_last(), j);
    }
}

proof fn plan_marks(p: EventPayload) -> (j: int)
    requires
        handlers::steps_for(p) is Ok,
        !(p is OrderCompleted),
    ensures
        0 <= j < handlers::steps_for(p)->Ok_0.len(),
        marks(handlers::steps_for(p)->Ok_0[j]),
{
    let steps = handlers::steps_for(p)->Ok_0;
    match p {
        EventPayload::ProductReceived(_) => {
            assert(steps[3] is WriteDelta);
            3
        },
        EventPayload::InventoryCounted(_) => {
            assert(steps[3] is WriteCount);
            3
        },
        EventPayload::OrderCreated(_) => {
            assert(steps.last() is MarkProcessed);
            steps.len() - 1
        },
        EventPayload::ProductMoved(_) => {
            assert(steps[4] is WriteMove);
            4
        },
        _ => {
            assert(steps[4] is WriteDelta);
            4
        },
    }
}

/// An event that is applied is noted as processed.
pub proof fn applied_is_noted(event: WarehouseEvent, at: Position, trace: Seq<(RunView, Store)>)
    requires
        store::processing(event, at, trace),
        trace.last().0.stage is Done,
        outcome(trace) is Applied,
    ensures
        after(trace).processed.contains(event.event_id@),
{
    result_of_processing(event, at, trace);
    processing::along(event, at, trace, 0);
    reveal(store::processing);
    let run0 = trace[0].0;
    let s0 = before(trace);
    let p = choose|p: Result<EventPayload, payload::PayloadError>| #[trigger]
        payload::payload_read(event.event_type@, event.payload@, p) && run0 == run::begun(
            event,
            at,
            p,
        );
    if processing::loads(run0.steps) {
        let order_id = run0.steps[0]->LoadOrder_order_id;
        let (items_json, items) = choose|items_json: String, items: Seq<OrderItem>|
            #![trigger processing::completing(order_id, items_json, items)]
            items_json@ == s0.orders[order_id@].items_json && trace.last().0.steps
                == processing::completing(order_id, items_json, items);
        let steps = processing::completing(order_id, items_json, items);
        processing::completing_at(order_id, items_json, items, (4 * items.len() + 2) as int);
        marked(s0, event, steps, (4 * items.len() + 2) as int);
    } else {
        let q = p->Ok_0;
        if q is OrderCompleted {
            assert(run0.steps[0] is LoadOrder);
        }
        let j = plan_marks(q);
        marked(s0, event, run0.steps, j);
    }
}

/// An event with the id of one that was applied is a duplicate, and changes nothing.
pub proof fn applied_event_comes_once(
    event: WarehouseEvent,
    at: Position,
    trace: Seq<(RunView, Store)>,
    again: WarehouseEvent,
    at_again: Position,
    trace_again: Seq<(RunView, Store)>,
)
    requires
        store::processing(event, at, trace),
        trace.last().0.stage is Done,
        outcome(trace) is Applied,
        again.event_id@ == event.event_id@,
        store::processing(again, at_again, trace_again),
        before(trace_again) == after(trace),
        trace_again.last().0.stage is Done,
    ensures
        outcome(trace_again) is Duplicate,
        after(trace_again) == after(trace),
{
    applied_is_noted(event, at, trace);
    result_of_processing(again, at_again, trace_again);
}

/// The product and the zone whose last event must be older.
pub open spec fn source(p: EventPayload) -> Option<(Seq<char>, Seq<char>)> {
    match p {
        EventPayload::ProductReceived(q) => Some((q.product_id@, q.zone_id@)),
        EventPayload::ProductShipped(q) => Some((q.product_id@, q.zone_id@)),
        EventPayload::ProductMoved(q) => Some((q.product_id@, q.from_zone_id@)),
        EventPayload::ProductReserved(q) => Some((q.product_id@, q.zone_id@)),
        EventPayload::ProductReleased(q) => Some((q.product_id@, q.zone_id@)),
        EventPayload::InventoryCounted(q) => Some((q.product_id@, q.zone_id@)),
        _ => None,
    }
}

/// A stock event that is not newer than the last one for its product and zone is
/// ignored, whatever it asks for.
pub proof fn stale_event_is_ignored(
    event: WarehouseEvent,
    at: Position,
    p: EventPayload,
    trace: Seq<(RunView, Store)>,
)
    requires
        processed_with(event, at, p, trace),
        handlers::steps_for(p) is Ok,
        !before(trace).processed.contains(event.event_id@),
        source(p) is Some,
        before(trace).last_event((source(p)->0).0, (source(p)->0).1) is Some,
        event.timestamp.not_after(
            before(trace).last_event((source(p)->0).0, (source(p)->0).1)->0,
        ),
    ensures
        outcome(trace) is OutOfOrder,
        after(trace) == before(trace),
{
    result_of_processing(event, at, trace);
    let steps = handlers::steps_for(p)->Ok_0;
    assert(steps[0] is CheckOrder);
    if processing::loads(steps) {
        processing::along(event, at, trace, 0);
    }
}

/// The payload that an event begins with, where nothing is wrong with it.
proof fn payload_of(event: WarehouseEvent, at: Position, trace: Seq<(RunView, Store)>) -> (p:
    EventPayload)
    requires
        store::processing(event, at, trace),
        trace[0].0.refusal is None,
    ensures
        payload::payload_read(event.event_type@, event.payload@, Ok(p)),
        trace[0].0 == run::begun(event, at, Ok(p)),
        handlers::steps_for(p) is Ok,
{
    reveal(store::processing);
    let p = choose|p: Result<EventPayload, payload::PayloadError>| #[trigger]
        payload::payload_read(event.event_type@, event.payload@, p) && trace[0].0 == run::begun(
            event,
            at,
            p,
        );
    p->Ok_0
}

/// Where an event is too late, one of the checks says so.
proof fn late_by_a_check(s: Store, event: WarehouseEvent, steps: Seq<Step>, k: int) -> (j: int)
    requires
        s.decides(event, steps, k) is OutOfOrder,
        0 <= k,
    ensures
        k <= j < steps.len(),
        steps[j] is CheckOrder,
        s.objects(event, steps[j]) is Some,
    decreases steps.len() - k,
{
    if s.objects(event, steps[k]) is Some {
        k
    } else {
        late_by_a_check(s, event, steps, k + 1)
    }
}

/// No check makes an event a duplicate.
pub(crate) proof fn duplicates_are_not_checked(s: Store, event: WarehouseEvent, steps: Seq<Step>, k: int)
    requires
        0 <= k,
    ensures
        !(s.decides(event, steps, k) is Duplicate),
    decreases steps.len() - k,
{
    if k < steps.len() {
        duplicates_are_not_checked(s, event, steps, k + 1);
    }
}

/// An order that is placed is never too late.
proof fn orders_are_not_checked(p: OrderCreatedPayload, j: int)
    requires
        handlers::created(p) is Ok,
        0 <= j < handlers::created(p)->Ok_0.len(),
    ensures
        !(handlers::created(p)->Ok_0[j] is CheckOrder),
{
    let items = p.items@;
    let n = items.len() as int;
    let steps = handlers::created(p)->Ok_0;
    processing::items_steps_at(items, n, j - n - 1);
    if j < n {
        assert(steps[j] == handlers::item_check(items[j]));
    } else if n < j < 5 * n + 1 {
        assert(steps[j] == handlers::items_steps(items, n)[j - n - 1]);
        let m = (j - n - 1) % 4;
        assert(m == 0 || m == 1 || m == 2 || m == 3);
    }
}

/// An event that is ignored as out of order is not newer than the last one for its product
/// and zone.
proof fn ignored_is_stale(
    event: WarehouseEvent,
    at: Position,
    p: EventPayload,
    trace: Seq<(RunView, Store)>,
)
    requires
        processed_with(event, at, p, trace),
        outcome(trace) is OutOfOrder,
    ensures
        handlers::steps_for(p) is Ok,
        source(p) is Some,
        ({
            let last = before(trace).last_event((source(p)->0).0, (source(p)->0).1);
            last is Some && event.timestamp.not_after(last->0)
        }),
{
    result_of_processing(event, at, trace);
    processing::along(event, at, trace, 0);
    let j = late_by_a_check(before(trace), event, handlers::steps_for(p)->Ok_0, 0);
    match p {
        EventPayload::OrderCreated(q) => {
            orders_are_not_checked(q, j);
        },
        _ => {
            assert(j == 0);
        },
    }
}

/// Whether two events say the same.
pub open spec fn same_event(a: WarehouseEvent, b: WarehouseEvent) -> bool {
    &&& a.event_id@ == b.event_id@
    &&& a.event_type@ == b.event_type@
    &&& a.timestamp == b.timestamp
    &&& a.payload@ == b.payload@
}

/// An event of any type whose processing did not fail, be it that it was applied, had been
/// before, or was ignored as out of order, and that comes again: its processing does not
/// fail then either, and leaves everything as it was. It is a duplicate, or out of order
/// once more.
pub proof fn redelivery_changes_nothing(
    event: WarehouseEvent,
    at: Position,
    trace: Seq<(RunView, Store)>,
    again: WarehouseEvent,
    at_again: Position,
    trace_again: Seq<(RunView, Store)>,
)
    requires
        store::processing(event, at, trace),
        trace.last().0.stage is Done,
        !(outcome(trace) is Failed),
        same_event(again, event),
        store::processing(again, at_again, trace_again),
        before(trace_again) == after(trace),
        trace_again.last().0.stage is Done,
    ensures
        !(outcome(trace_again) is Failed),
        outcome(trace) is OutOfOrder ==> outcome(trace_again) is OutOfOrder,
        !(outcome(trace) is OutOfOrder) ==> outcome(trace_again) is Duplicate,
        after(trace_again) == after(trace),
{
    result_of_processing(event, at, trace);
    match outcome(trace) {
        Outcome::Applied => {
            applied_event_comes_once(event, at, trace, again, at_again, trace_again);
        },
        Outcome::OutOfOrder => {
            let p = payload_of(event, at, trace);
            ignored_is_stale(event, at, p, trace);
            reveal(store::processing);
            let read = choose|r: Result<EventPayload, payload::PayloadError>| #[trigger]
                payload::payload_read(again.event_type@, again.payload@, r) && trace_again[0].0
                    == run::begun(again, at_again, r);
            stale_event_is_ignored(again, at_again, read->Ok_0, trace_again);
        },
        _ => {
            duplicates_are_not_checked(before(trace), trace[0].0.event, trace[0].0.steps, 0);
            result_of_processing(again, at_again, trace_again);
        },
    }
}

/// Steps one after another are the first ones, then the others.
pub(crate) proof fn perform_in_parts(s: Store, event: WarehouseEvent, a: Seq<Step>, b: Seq<Step>)
    ensures
        s.perform_all(event, a + b) == s.perform_all(event, a).perform_all(event, b),
    decreases b.len(),
{
    if b.len() == 0 {
        assert(a + b =~= a);
    } else {
        assert((a + b).drop_last() =~= a + b.drop_last());
        perform_in_parts(s, event, a, b.drop_last());
    }
}

pub(crate) proof fn perform_one(s: Store, event: WarehouseEvent, step: Step)
    ensures
        s.perform_all(event, seq![step]) == s.perform(event, step),
{
    assert(seq![step].drop_last() =~= Seq::empty());
    assert(s.perform_all(event, Seq::empty()) == s);
}

pub(crate) proof fn perform_delta(
    s: Store,
    event: WarehouseEvent,
    product_id: String,
    zone_id: String,
    delta: Delta,
)
    ensures
        s.perform_all(event, handlers::delta_steps(product_id, zone_id, delta)) == s.perform(
            event,
            Step::WriteDelta { product_id, zone_id, delta },
        ),
{
    let steps = handlers::delta_steps(product_id, zone_id, delta);
    assert(steps.drop_last() =~= seq![steps[0], steps[1]]);
    processing::idle(s, event, steps.drop_last());
}

/// That much more.
pub open spec fn plus(a: Amount, available: int, reserved: int) -> Amount {
    Amount { available: a.available + available, reserved: a.reserved + reserved }
}

/// Whether nothing differs but what there is of one product in one zone.
pub open spec fn elsewhere_the_same(
    a: Store,
    b: Store,
    product_id: Seq<char>,
    zone_id: Seq<char>,
) -> bool {
    &&& forall|p: Seq<char>, z: Seq<char>|
        (p, z) != (product_id, zone_id) ==> #[trigger] b.zone(p, z) == a.zone(p, z)
    &&& forall|p: Seq<char>| p != product_id ==> #[trigger] b.product(p) == a.product(p)
}

/// Who supplied what, after an event that may say so of its product and zone.
pub open spec fn suppliers_after(
    suppliers: Map<(Seq<char>, Seq<char>), Seq<char>>,
    p: EventPayload,
) -> Map<(Seq<char>, Seq<char>), Seq<char>> {
    match p {
        EventPayload::ProductReceived(q) => match q.supplier_id {
            Some(supplier_id) => suppliers.insert((q.product_id@, q.zone_id@), supplier_id@),
            None => suppliers,
        },
        _ => suppliers,
    }
}

/// By how much an event changes what its zone has of its product.
pub open spec fn change_of(p: EventPayload) -> Option<(int, int)> {
    match p {
        EventPayload::ProductReceived(q) => Some((q.quantity as int, 0int)),
        EventPayload::ProductShipped(q) => Some((-q.quantity, 0int)),
        EventPayload::ProductReserved(q) => Some((-q.quantity, q.quantity as int)),
        EventPayload::ProductReleased(q) => Some((q.quantity as int, -q.quantity)),
        _ => None,
    }
}

pub(crate) proof fn perform_plain(
    s: Store,
    event: WarehouseEvent,
    p: EventPayload,
    product_id: String,
    zone_id: String,
    delta: Delta,
) -> (t: Store)
    requires
        handlers::steps_for(p) is Ok,
        match p {
            EventPayload::ProductReceived(q) => q.product_id == product_id && q.zone_id == zone_id
                && delta == (Delta { available: q.quantity as i128, reserved: 0 }),
            EventPayload::ProductShipped(q) => q.product_id == product_id && q.zone_id == zone_id
                && delta == (Delta { available: (-q.quantity) as i128, reserved: 0 }),
            EventPayload::ProductReserved(q) => q.product_id == product_id && q.zone_id == zone_id
                && delta == (Delta {
                available: (-q.quantity) as i128,
                reserved: q.quantity as i128,
            }),
            EventPayload::ProductReleased(q) => q.product_id == product_id && q.zone_id == zone_id
                && delta == (Delta {
                available: q.quantity as i128,
                reserved: (-q.quantity) as i128,
            }),
            _ => false,
        },
    ensures
        t == s.perform_all(event, handlers::steps_for(p)->Ok_0),
        ({
            let u = s.perform(event, Step::WriteDelta { product_id, zone_id, delta });
            t == Store {
                suppliers: suppliers_after(s.suppliers, p),
                ..u.perform(event, Step::Touch { product_id, zone_id })
            }
        }),
{
    let steps = handlers::steps_for(p)->Ok_0;
    let write = handlers::delta_steps(product_id, zone_id, delta);
    let touch = seq![Step::Touch { product_id, zone_id }];
    let u = s.perform(event, Step::WriteDelta { product_id, zone_id, delta });
    match p {
        EventPayload::ProductReceived(q) => {
            let check = seq![Step::CheckOrder { product_id, zone_id }];
            let supply = match q.supplier_id {
                Some(supplier_id) => seq![Step::WriteSupplier { product_id, zone_id, supplier_id }],
                None => Seq::empty(),
            };
            assert(steps == check + write + supply + touch);
            perform_in_parts(s, event, check + write + supply, touch);
            perform_in_parts(s, event, check + write, supply);
            perform_in_parts(s, event, check, write);
            processing::idle(s, event, check);
            perform_delta(s, event, product_id, zone_id, delta);
            match q.supplier_id {
                Some(supplier_id) => {
                    let supplied = Step::WriteSupplier { product_id, zone_id, supplier_id };
                    perform_one(u, event, supplied);
                    perform_one(
                        u.perform(event, supplied),
                        event,
                        Step::Touch { product_id, zone_id },
                    );
                },
                None => {
                    perform_one(u, event, Step::Touch { product_id, zone_id });
                },
            }
        },
        _ => {
            let checks = seq![steps[0], steps[1]];
            assert(steps =~= checks + write + touch);
            perform_in_parts(s, event, checks + write, touch);
            perform_in_parts(s, event, checks, write);
            processing::idle(s, event, checks);
            perform_delta(s, event, product_id, zone_id, delta);
            perform_one(u, event, Step::Touch { product_id, zone_id });
        },
    }
    s.perform_all(event, steps)
}

pub(crate) proof fn begun_without_order(
    event: WarehouseEvent,
    at: Position,
    p: EventPayload,
    trace: Seq<(RunView, Store)>,
)
    requires
        processed_with(event, at, p, trace),
        outcome(trace) is Applied,
        !(p is OrderCompleted),
    ensures
        handlers::steps_for(p) is Ok,
        after(trace) == before(trace).perform_all(event, handlers::steps_for(p)->Ok_0),
        before(trace).decides(event, handlers::steps_for(p)->Ok_0, 0) is Applied,
{
    result_of_processing(event, at, trace);
    processing::along(event, at, trace, 0);
    let run0 = trace[0].0;
    assert(handlers::steps_for(p) is Ok);
    let j = plan_marks(p);
    if processing::loads(run0.steps) {
        assert(run0.steps[j] is LoadOrder);
    }
}

/// Goods that come in, go out, are set aside or no longer set aside change what their
/// zone has of them, and the product's total, by their quantity, and nothing elsewhere.
/// Who supplied goods that came in is noted, where they say so.
/// The event is then the last one for its product and zone, to the millisecond.
pub proof fn applied_event_changes_stock(
    event: WarehouseEvent,
    at: Position,
    p: EventPayload,
    trace: Seq<(RunView, Store)>,
)
    requires
        processed_with(event, at, p, trace),
        outcome(trace) is Applied,
        change_of(p) is Some,
    ensures
        ({
            let (product_id, zone_id) = source(p)->0;
            let (available, reserved) = change_of(p)->0;
            let (a, b) = (before(trace), after(trace));
            &&& b.zone(product_id, zone_id) == plus(
                a.zone(product_id, zone_id),
                available,
                reserved,
            )
            &&& b.product(product_id) == plus(a.product(product_id), available, reserved)
            &&& elsewhere_the_same(a, b, product_id, zone_id)
            &&& b.orders == a.orders
            &&& b.suppliers == suppliers_after(a.suppliers, p)
            &&& b.last_event(product_id, zone_id) == Some(store::kept(event.timestamp))
        }),
{
    begun_without_order(event, at, p, trace);
    let s = before(trace);
    match p {
        EventPayload::ProductReceived(q) => {
            let delta = Delta { available: q.quantity as i128, reserved: 0 };
            let t = perform_plain(s, event, p, q.product_id, q.zone_id, delta);
        },
        EventPayload::ProductShipped(q) => {
            let delta = Delta { available: (-q.quantity) as i128, reserved: 0 };
            let t = perform_plain(s, event, p, q.product_id, q.zone_id, delta);
        },
        EventPayload::ProductReserved(q) => {
            let delta = Delta {
                available: (-q.quantity) as i128,
                reserved: q.quantity as i128,
            };
            let t = perform_plain(s, event, p, q.product_id, q.zone_id, delta);
        },
        EventPayload::ProductReleased(q) => {
            let delta = Delta {
                available: q.quantity as i128,
                reserved: (-q.quantity) as i128,
            };
            let t = perform_plain(s, event, p, q.product_id, q.zone_id, delta);
        },
        _ => {},
    }
}

/// Whether an event, once applied, is the last one for a product in a zone.
pub open spec fn touches(p: EventPayload, product_id: Seq<char>, zone_id: Seq<char>) -> bool {
    match p {
        EventPayload::ProductMoved(q) => product_id == q.product_id@ && (zone_id == q.from_zone_id@
            || zone_id == q.to_zone_id@),
        EventPayload::OrderCreated(q) => exists|i: int|
            0 <= i < q.items@.len() && (#[trigger] q.items@[i]).product_id@ == product_id
                && q.items@[i].zone_id@ == zone_id,
        _ => source(p) == Some((product_id, zone_id)),
    }
}

proof fn touched(s0: Store, event: WarehouseEvent, steps: Seq<Step>, j: int)
    requires
        0 <= j < steps.len(),
        steps[j] is Touch,
    ensures
        s0.perform_all(event, steps).last_event(
            steps[j]->Touch_product_id@,
            steps[j]->Touch_zone_id@,
        ) == Some(store::kept(event.timestamp)),
    decreases steps.len(),
{
    if j < steps.len() - 1 {
        touched(s0, event, steps.drop_last(), j);
    }
}

proof fn plan_touches(p: EventPayload, product_id: Seq<char>, zone_id: Seq<char>) -> (j: int)
    requires
        handlers::steps_for(p) is Ok,
        touches(p, product_id, zone_id),
    ensures
        ({
            let steps = handlers::steps_for(p)->Ok_0;
            &&& 0 <= j < steps.len()
            &&& steps[j] is Touch
            &&& steps[j]->Touch_product_id@ == product_id
            &&& steps[j]->Touch_zone_id@ == zone_id
        }),
{
    let steps = handlers::steps_for(p)->Ok_0;
    match p {
        EventPayload::ProductMoved(q) => {
            assert(steps[5] == Step::Touch { product_id: q.product_id, zone_id: q.from_zone_id });
            assert(steps[6] == Step::Touch { product_id: q.product_id, zone_id: q.to_zone_id });
            if zone_id == q.from_zone_id@ {
                5
            } else {
                6
            }
        },
        EventPayload::OrderCreated(q) => {
            let items = q.items@;
            let n = items.len() as int;
            let i = choose|i: int|
                0 <= i < n && (#[trigger] items[i]).product_id@ == product_id && items[i].zone_id@
                    == zone_id;
            processing::items_steps_at(items, n, 4 * i + 3);
            assert(handlers::items_steps(items, n)[4 * i + 3] == handlers::item_steps(items[i])[3]);
            assert(steps[n + 1 + 4 * i + 3] == handlers::items_steps(items, n)[4 * i + 3]);
            n + 1 + 4 * i + 3
        },
        _ => {
            assert(steps.last() is Touch);
            steps.len() - 1
        },
    }
}

/// An event that is applied is the last one for each product in a zone that it changes,
/// to the millisecond.
pub proof fn applied_event_is_the_last(
    event: WarehouseEvent,
    at: Position,
    p: EventPayload,
    trace: Seq<(RunView, Store)>,
    product_id: Seq<char>,
    zone_id: Seq<char>,
)
    requires
        processed_with(event, at, p, trace),
        outcome(trace) is Applied,
        touches(p, product_id, zone_id),
    ensures
        after(trace).last_event(product_id, zone_id) == Some(store::kept(event.timestamp)),
{
    begun_without_order(event, at, p, trace);
    let j = plan_touches(p, product_id, zone_id);
    touched(before(trace), event, handlers::steps_for(p)->Ok_0, j);
}

/// Once an event has been applied, a stock event for a product and a zone that it changed
/// and that is not newer, to the millisecond, is ignored.
pub proof fn older_event_after_newer_is_ignored(
    event: WarehouseEvent,
    at: Position,
    p: EventPayload,
    trace: Seq<(RunView, Store)>,
    event2: WarehouseEvent,
    at2: Position,
    p2: EventPayload,
    trace2: Seq<(RunView, Store)>,
)
    requires
        processed_with(event, at, p, trace),
        outcome(trace) is Applied,
        processed_with(event2, at2, p2, trace2),
        before(trace2) == after(trace),
        handlers::steps_for(p2) is Ok,
        !before(trace2).processed.contains(event2.event_id@),
        source(p2) is Some,
        touches(p, (source(p2)->0).0, (source(p2)->0).1),
        event2.timestamp.not_after(store::kept(event.timestamp)),
    ensures
        outcome(trace2) is OutOfOrder,
        after(trace2) == after(trace),
{
    let (product_id, zone_id) = source(p2)->0;
    applied_event_is_the_last(event, at, p, trace, product_id, zone_id);
    stale_event_is_ignored(event2, at2, p2, trace2);
}

/// Goods that were counted are available in that number; what is reserved stays, and the
/// product's total changes by as much as the zone.
pub proof fn applied_count_sets_stock(
    event: WarehouseEvent,
    at: Position,
    p: InventoryCountedPayload,
    trace: Seq<(RunView, Store)>,
)
    requires
        processed_with(event, at, EventPayload::InventoryCounted(p), trace),
        outcome(trace) is Applied,
    ensures
        ({
            let (product_id, zone_id) = (p.product_id@, p.zone_id@);
            let (a, b) = (before(trace), after(trace));
            &&& b.zone(product_id, zone_id) == Amount {
                available: p.counted_quantity as int,
                reserved: a.zone(product_id, zone_id).reserved,
            }
            &&& b.product(product_id) == plus(
                a.product(product_id),
                p.counted_quantity - a.zone(product_id, zone_id).available,
                0,
            )
            &&& elsewhere_the_same(a, b, product_id, zone_id)
            &&& b.last_event(product_id, zone_id) == Some(store::kept(event.timestamp))
        }),
{
    begun_without_order(event, at, EventPayload::InventoryCounted(p), trace);
    perform_count(before(trace), event, p);
}

pub(crate) proof fn perform_count(s: Store, event: WarehouseEvent, p: InventoryCountedPayload)
    requires
        handlers::counted(p) is Ok,
    ensures
        s.perform_all(event, handlers::counted(p)->Ok_0) == s.perform(
            event,
            Step::WriteCount {
                product_id: p.product_id,
                zone_id: p.zone_id,
                counted: p.counted_quantity,
            },
        ).perform(event, Step::Touch { product_id: p.product_id, zone_id: p.zone_id }),
{
    let steps = handlers::counted(p)->Ok_0;
    let reads = seq![steps[0], steps[1], steps[2]];
    assert(steps =~= reads + seq![steps[3]] + seq![steps[4]]);
    perform_in_parts(s, event, reads + seq![steps[3]], seq![steps[4]]);
    perform_in_parts(s, event, reads, seq![steps[3]]);
    processing::idle(s, event, reads);
    perform_one(s, event, steps[3]);
    perform_one(s.perform(event, steps[3]), event, steps[4]);
}

pub(crate) proof fn perform_move(s: Store, event: WarehouseEvent, p: ProductMovedPayload) -> (t: Store)
    requires
        handlers::moved(p) is Ok,
    ensures
        t == s.perform_all(event, handlers::moved(p)->Ok_0),
        t == s.perform(event, handlers::moved(p)->Ok_0[4]).perform(
            event,
            handlers::moved(p)->Ok_0[5],
        ).perform(event, handlers::moved(p)->Ok_0[6]),
{
    let steps = handlers::moved(p)->Ok_0;
    let reads = seq![steps[0], steps[1], steps[2], steps[3]];
    let t1 = s.perform(event, steps[4]);
    let t2 = t1.perform(event, steps[5]);
    assert(steps =~= reads + seq![steps[4]] + seq![steps[5]] + seq![steps[6]]);
    perform_in_parts(s, event, reads + seq![steps[4]] + seq![steps[5]], seq![steps[6]]);
    perform_in_parts(s, event, reads + seq![steps[4]], seq![steps[5]]);
    perform_in_parts(s, event, reads, seq![steps[4]]);
    processing::idle(s, event, reads);
    perform_one(s, event, steps[4]);
    perform_one(t1, event, steps[5]);
    perform_one(t2, event, steps[6]);
    s.perform_all(event, steps)
}

/// Goods that move from one zone to another are gone from the first and are available in
/// the second; no product's total changes, and nothing in any other zone.
pub proof fn applied_move_keeps_totals(
    event: WarehouseEvent,
    at: Position,
    p: ProductMovedPayload,
    trace: Seq<(RunView, Store)>,
)
    requires
        processed_with(event, at, EventPayload::ProductMoved(p), trace),
        outcome(trace) is Applied,
        p.from_zone_id@ != p.to_zone_id@,
    ensures
        ({
            let (product_id, from, to) = (p.product_id@, p.from_zone_id@, p.to_zone_id@);
            let (a, b) = (before(trace), after(trace));
            &&& b.zone(product_id, from) == plus(a.zone(product_id, from), -p.quantity, 0)
            &&& b.zone(product_id, to) == plus(a.zone(product_id, to), p.quantity as int, 0)
            &&& b.products == a.products
            &&& forall|q: Seq<char>, z: Seq<char>|
                (q, z) != (product_id, from) && (q, z) != (product_id, to) ==> #[trigger] b.zone(
                    q,
                    z,
                ) == a.zone(q, z)
            &&& b.last_event(product_id, from) == Some(store::kept(event.timestamp))
            &&& b.last_event(product_id, to) == Some(store::kept(event.timestamp))
        }),
{
    begun_without_order(event, at, EventPayload::ProductMoved(p), trace);
    let t = perform_move(before(trace), event, p);
}

/// A time that is later than another is later than what is kept of it, unless the other is
/// in a leap second.
pub proof fn later_than_kept(a: Timestamp, b: Timestamp)
    requires
        b.nanos < 1_000_000_000,
        !a.not_after(b),
    ensures
        !a.not_after(store::kept(b)),
{
}

/// What is set aside and then no longer set aside is where it was. It is no longer set
/// aside exactly if the second event has an id of its own, is later than the first is kept,
/// and no less than nothing was reserved before; so it is whenever the second event is
/// later and the first is not in a leap second.
pub proof fn release_undoes_reservation(
    event: WarehouseEvent,
    at: Position,
    p: ProductReservedPayload,
    trace: Seq<(RunView, Store)>,
    event2: WarehouseEvent,
    at2: Position,
    p2: ProductReleasedPayload,
    trace2: Seq<(RunView, Store)>,
)
    requires
        processed_with(event, at, EventPayload::ProductReserved(p), trace),
        outcome(trace) is Applied,
        processed_with(event2, at2, EventPayload::ProductReleased(p2), trace2),
        before(trace2) == after(trace),
        p2.product_id@ == p.product_id@,
        p2.zone_id@ == p.zone_id@,
        p2.quantity == p.quantity,
    ensures
        outcome(trace2) is Applied <==> {
            &&& !after(trace).processed.contains(event2.event_id@)
            &&& !event2.timestamp.not_after(store::kept(event.timestamp))
            &&& before(trace).zone(p.product_id@, p.zone_id@).reserved >= 0
        },
        event.timestamp.nanos < 1_000_000_000 && !event2.timestamp.not_after(event.timestamp)
            ==> !event2.timestamp.not_after(store::kept(event.timestamp)),
        outcome(trace2) is Applied ==> {
            &&& forall|q: Seq<char>, z: Seq<char>| #[trigger]
                after(trace2).zone(q, z) == before(trace).zone(q, z)
            &&& forall|q: Seq<char>| #[trigger]
                after(trace2).product(q) == before(trace).product(q)
        },
        !(outcome(trace2) is Applied) ==> after(trace2) == after(trace),
{
    applied_event_changes_stock(event, at, EventPayload::ProductReserved(p), trace);
    begun_without_order(event, at, EventPayload::ProductReserved(p), trace);
    result_of_processing(event2, at2, trace2);
    processing::along(event2, at2, trace2, 0);
    let (a, m, b) = (before(trace), after(trace), after(trace2));
    reveal_with_fuel(Store::decides, 8);
    if event.timestamp.nanos < 1_000_000_000 && !event2.timestamp.not_after(event.timestamp) {
        later_than_kept(event2.timestamp, event.timestamp);
    }
    if outcome(trace2) is Applied {
        applied_event_changes_stock(event2, at2, EventPayload::ProductReleased(p2), trace2);
        assert forall|q: Seq<char>, z: Seq<char>| #[trigger] b.zone(q, z) == a.zone(q, z) by {
            if (q, z) != (p.product_id@, p.zone_id@) {
                assert(m.zone(q, z) == a.zone(q, z));
            }
        }
        assert forall|q: Seq<char>| #[trigger] b.product(q) == a.product(q) by {
            if q != p.product_id@ {
                assert(m.product(q) == a.product(q));
            }
        }
    }
}

/// The steps that lead from what the database held before to what it holds at the end.
proof fn change_is_by_steps(
    event: WarehouseEvent,
    at: Position,
    trace: Seq<(RunView, Store)>,
) -> (steps: Seq<Step>)
    requires
        store::processing(event, at, trace),
        trace.last().0.stage is Done,
    ensures
        after(trace) == before(trace).perform_all(event, steps),
        ({
            ||| steps.len() == 0
            ||| steps == trace[0].0.steps
            ||| exists|order_id: String, items_json: String, items: Seq<OrderItem>|
                steps == #[trigger] processing::completing(order_id, items_json, items)
        }),
{
    result_of_processing(event, at, trace);
    processing::along(event, at, trace, 0);
    let run0 = trace[0].0;
    if !(outcome(trace) is Applied) {
        Seq::empty()
    } else if processing::loads(run0.steps) {
        trace.last().0.steps
    } else {
        run0.steps
    }
}

/// The row of that key.
pub open spec fn row(table: Map<(Seq<char>, Seq<char>), Amount>, key: (Seq<char>, Seq<char>)) -> Option<
    Amount,
> {
    if table.contains_key(key) {
        Some(table[key])
    } else {
        None
    }
}

/// Whether the two tables of stock agree.
pub open spec fn tables_agree(s: Store) -> bool {
    forall|p: Seq<char>, z: Seq<char>| #[trigger] row(s.zones, (p, z)) == row(s.by_zone, (z, p))
}

proof fn steps_keep_agreement(s: Store, event: WarehouseEvent, steps: Seq<Step>)
    requires
        tables_agree(s),
    ensures
        tables_agree(s.perform_all(event, steps)),
    decreases steps.len(),
{
    if steps.len() > 0 {
        steps_keep_agreement(s, event, steps.drop_last());
        let m = s.perform_all(event, steps.drop_last());
        let t = m.perform(event, steps.last());
        assert forall|p: Seq<char>, z: Seq<char>| #[trigger]
            row(t.zones, (p, z)) == row(t.by_zone, (z, p)) by {
            assert(row(m.zones, (p, z)) == row(m.by_zone, (z, p)));
        }
    }
}

/// The stock by product and zone and the stock by zone and product always agree.
pub proof fn tables_stay_in_agreement(
    event: WarehouseEvent,
    at: Position,
    trace: Seq<(RunView, Store)>,
)
    requires
        store::processing(event, at, trace),
        trace.last().0.stage is Done,
        tables_agree(before(trace)),
    ensures
        tables_agree(after(trace)),
{
    let steps = change_is_by_steps(event, at, trace);
    steps_keep_agreement(before(trace), event, steps);
}

/// What those zones have of a product, together.
pub open spec fn sum_over(s: Store, product_id: Seq<char>, zones: Seq<Seq<char>>) -> Amount
    decreases zones.len(),
{
    if zones.len() == 0 {
        Amount { available: 0, reserved: 0 }
    } else {
        plus(
            sum_over(s, product_id, zones.drop_last()),
            s.zone(product_id, zones.last()).available,
            s.zone(product_id, zones.last()).reserved,
        )
    }
}

/// Whether those are all the zones that have a row for a product, each once.
pub open spec fn lists_zones(s: Store, product_id: Seq<char>, zones: Seq<Seq<char>>) -> bool {
    &&& zones.no_duplicates()
    &&& forall|z: Seq<char>| #[trigger]
        s.zones.contains_key((product_id, z)) ==> zones.contains(z)
}

/// By how much a product's total exceeds what those zones have of it.
pub open spec fn excess(s: Store, product_id: Seq<char>, zones: Seq<Seq<char>>) -> Amount {
    let sum = sum_over(s, product_id, zones);
    plus(s.product(product_id), -sum.available, -sum.reserved)
}

/// Where one zone changes, the sum changes by as much.
proof fn sum_changes(
    s: Store,
    t: Store,
    product_id: Seq<char>,
    zones: Seq<Seq<char>>,
    zone_id: Seq<char>,
    available: int,
    reserved: int,
)
    requires
        zones.no_duplicates(),
        t.zone(product_id, zone_id) == plus(s.zone(product_id, zone_id), available, reserved),
        forall|z: Seq<char>|
            z != zone_id ==> #[trigger] t.zone(product_id, z) == s.zone(product_id, z),
    ensures
        sum_over(t, product_id, zones) == if zones.contains(zone_id) {
            plus(sum_over(s, product_id, zones), available, reserved)
        } else {
            sum_over(s, product_id, zones)
        },
    decreases zones.len(),
{
    if zones.len() > 0 {
        let rest = zones.drop_last();
        sum_changes(s, t, product_id, rest, zone_id, available, reserved);
        if zones.last() == zone_id {
            if rest.contains(zone_id) {
                let i = choose|i: int| 0 <= i < rest.len() && rest[i] == zone_id;
                assert(zones[i] == zones[zones.len() - 1]);
            }
            assert(zones.contains(zones[zones.len() - 1]));
        } else if zones.contains(zone_id) {
            let i = choose|i: int| 0 <= i < zones.len() && zones[i] == zone_id;
            assert(rest[i] == zone_id);
        } else if rest.contains(zone_id) {
            let i = choose|i: int| 0 <= i < rest.len() && rest[i] == zone_id;
            assert(zones[i] == zone_id);
        }
    }
}

/// Where no zone changes, the sum does not.
proof fn sum_stays(s: Store, t: Store, product_id: Seq<char>, zones: Seq<Seq<char>>)
    requires
        forall|z: Seq<char>| #[trigger] t.zone(product_id, z) == s.zone(product_id, z),
    ensures
        sum_over(t, product_id, zones) == sum_over(s, product_id, zones),
    decreases zones.len(),
{
    if zones.len() > 0 {
        sum_stays(s, t, product_id, zones.drop_last());
    }
}

/// Whether no step moves stock from a zone to itself.
pub open spec fn moves_apart(steps: Seq<Step>) -> bool {
    forall|i: int|
        0 <= i < steps.len() && (#[trigger] steps[i]) is WriteMove
            ==> steps[i]->WriteMove_from_zone@ != steps[i]->WriteMove_to_zone@
}

proof fn step_keeps_excess(
    s: Store,
    event: WarehouseEvent,
    step: Step,
    product_id: Seq<char>,
    zones: Seq<Seq<char>>,
)
    requires
        lists_zones(s.perform(event, step), product_id, zones),
        step is WriteMove ==> step->WriteMove_from_zone@ != step->WriteMove_to_zone@,
    ensures
        excess(s.perform(event, step), product_id, zones) == excess(s, product_id, zones),
{
    let t = s.perform(event, step);
    match step {
        Step::WriteDelta { product_id: p, zone_id, delta } => {
            if p@ == product_id {
                assert(t.zones.contains_key((product_id, zone_id@)));
                sum_changes(
                    s,
                    t,
                    product_id,
                    zones,
                    zone_id@,
                    delta.available as int,
                    delta.reserved as int,
                );
            } else {
                sum_stays(s, t, product_id, zones);
            }
        },
        Step::WriteCount { product_id: p, zone_id, counted } => {
            if p@ == product_id {
                assert(t.zones.contains_key((product_id, zone_id@)));
                sum_changes(
                    s,
                    t,
                    product_id,
                    zones,
                    zone_id@,
                    counted - s.zone(product_id, zone_id@).available,
                    0,
                );
            } else {
                sum_stays(s, t, product_id, zones);
            }
        },
        Step::WriteSettled { product_id: p, zone_id, quantity } => {
            if p@ == product_id && s.zone(product_id, zone_id@).reserved >= quantity {
                assert(t.zones.contains_key((product_id, zone_id@)));
                sum_changes(s, t, product_id, zones, zone_id@, 0, -quantity);
            } else {
                sum_stays(s, t, product_id, zones);
            }
        },
        Step::WriteMove { product_id: p, from_zone, to_zone, quantity } => {
            if p@ == product_id {
                let from = s.zone(product_id, from_zone@);
                let m = s.with_zone(
                    product_id,
                    from_zone@,
                    Amount { available: from.available - quantity, ..from },
                );
                assert(t.zones.contains_key((product_id, from_zone@)));
                assert(t.zones.contains_key((product_id, to_zone@)));
                sum_changes(s, m, product_id, zones, from_zone@, -quantity, 0);
                sum_changes(m, t, product_id, zones, to_zone@, quantity as int, 0);
            } else {
                sum_stays(s, t, product_id, zones);
            }
        },
        _ => {
            sum_stays(s, t, product_id, zones);
        },
    }
}

proof fn steps_keep_excess(
    s: Store,
    event: WarehouseEvent,
    steps: Seq<Step>,
    product_id: Seq<char>,
    zones: Seq<Seq<char>>,
)
    requires
        lists_zones(s.perform_all(event, steps), product_id, zones),
        moves_apart(steps),
    ensures
        excess(s.perform_all(event, steps), product_id, zones) == excess(s, product_id, zones),
    decreases steps.len(),
{
    if steps.len() > 0 {
        let m = s.perform_all(event, steps.drop_last());
        let t = m.perform(event, steps.last());
        assert forall|z: Seq<char>| #[trigger]
            m.zones.contains_key((product_id, z)) implies zones.contains(z) by {
            assert(t.zones.contains_key((product_id, z)));
        }
        assert forall|i: int|
            0 <= i < steps.len() - 1 && (#[trigger] steps.drop_last()[i])
                is WriteMove implies steps.drop_last()[i]->WriteMove_from_zone@
            != steps.drop_last()[i]->WriteMove_to_zone@ by {
            assert(steps.drop_last()[i] == steps[i]);
        }
        steps_keep_excess(s, event, steps.drop_last(), product_id, zones);
        assert(steps[steps.len() - 1] == steps.last());
        step_keeps_excess(m, event, steps.last(), product_id, zones);
    }
}

/// A product's total and what all zones have of it change by the same: if they were the
/// same before, they are the same after. A move from a zone to itself, which adds to the
/// zone and not to the total, is left out.
pub proof fn totals_follow_zones(
    event: WarehouseEvent,
    at: Position,
    trace: Seq<(RunView, Store)>,
    product_id: Seq<char>,
    zones: Seq<Seq<char>>,
)
    requires
        store::processing(event, at, trace),
        trace.last().0.stage is Done,
        moves_apart(trace[0].0.steps),
        lists_zones(after(trace), product_id, zones),
    ensures
        excess(after(trace), product_id, zones) == excess(before(trace), product_id, zones),
{
    let steps = change_is_by_steps(event, at, trace);
    assert(moves_apart(steps)) by {
        if steps.len() > 0 && steps != trace[0].0.steps {
            let (order_id, items_json, items) = choose|
                order_id: String,
                items_json: String,
                items: Seq<OrderItem>,
            |
                steps == #[trigger] processing::completing(order_id, items_json, items);
            processing::completing_at(order_id, items_json, items, 0);
            assert forall|i: int| 0 <= i < steps.len() implies !((#[trigger] steps[i])
                is WriteMove) by {
                processing::completing_at(order_id, items_json, items, i);
                let m = (i - 2) % 4;
                assert(m == 0 || m == 1 || m == 2 || m == 3);
            }
        }
    }
    steps_keep_excess(before(trace), event, steps, product_id, zones);
}

/// How much of a product in a zone the order items before the `k`th ask for.
pub open spec fn ordered_at(
    items: Seq<OrderItem>,
    k: int,
    product_id: Seq<char>,
    zone_id: Seq<char>,
) -> int
    decreases k,
{
    if k <= 0 {
        0
    } else {
        ordered_at(items, k - 1, product_id, zone_id) + if items[k - 1].product_id@ == product_id
            && items[k - 1].zone_id@ == zone_id {
            items[k - 1].quantity as int
        } else {
            0
        }
    }
}

/// How much of a product the order items before the `k`th ask for.
pub open spec fn ordered(items: Seq<OrderItem>, k: int, product_id: Seq<char>) -> int
    decreases k,
{
    if k <= 0 {
        0
    } else {
        ordered(items, k - 1, product_id) + if items[k - 1].product_id@ == product_id {
            items[k - 1].quantity as int
        } else {
            0
        }
    }
}

/// How much of a product in a zone an order asks for.
pub open spec fn asked_at(
    items: Seq<OrderItem>,
    product_id: Seq<char>,
    zone_id: Seq<char>,
) -> int {
    ordered_at(items, items.len() as int, product_id, zone_id)
}

/// How much of a product an order asks for.
pub open spec fn asked(items: Seq<OrderItem>, product_id: Seq<char>) -> int {
    ordered(items, items.len() as int, product_id)
}

proof fn perform_items(s: Store, event: WarehouseEvent, items: Seq<OrderItem>, k: int)
    requires
        0 <= k <= items.len(),
    ensures
        ({
            let t = s.perform_all(event, handlers::items_steps(items, k));
            &&& t.orders == s.orders
            &&& forall|p: Seq<char>, z: Seq<char>| #[trigger]
                t.zone(p, z) == plus(
                    s.zone(p, z),
                    -ordered_at(items, k, p, z),
                    ordered_at(items, k, p, z),
                )
            &&& forall|p: Seq<char>| #[trigger]
                t.product(p) == plus(s.product(p), -ordered(items, k, p), ordered(items, k, p))
        }),
    decreases k,
{
    if k > 0 {
        perform_items(s, event, items, k - 1);
        let m = s.perform_all(event, handlers::items_steps(items, k - 1));
        let item = items[k - 1];
        let delta = Delta {
            available: (-item.quantity) as i128,
            reserved: item.quantity as i128,
        };
        let touch = Step::Touch { product_id: item.product_id, zone_id: item.zone_id };
        let u = m.perform(
            event,
            Step::WriteDelta { product_id: item.product_id, zone_id: item.zone_id, delta },
        );
        perform_in_parts(
            s,
            event,
            handlers::items_steps(items, k - 1),
            handlers::item_steps(item),
        );
        perform_in_parts(
            m,
            event,
            handlers::delta_steps(item.product_id, item.zone_id, delta),
            seq![touch],
        );
        perform_delta(m, event, item.product_id, item.zone_id, delta);
        perform_one(u, event, touch);
        let t = u.perform(event, touch);
        assert forall|p: Seq<char>, z: Seq<char>| #[trigger]
            t.zone(p, z) == plus(
                s.zone(p, z),
                -ordered_at(items, k, p, z),
                ordered_at(items, k, p, z),
            ) by {
            assert(m.zone(p, z) == plus(
                s.zone(p, z),
                -ordered_at(items, k - 1, p, z),
                ordered_at(items, k - 1, p, z),
            ));
        }
        assert forall|p: Seq<char>| #[trigger]
            t.product(p) == plus(s.product(p), -ordered(items, k, p), ordered(items, k, p)) by {
            assert(m.product(p) == plus(
                s.product(p),
                -ordered(items, k - 1, p),
                ordered(items, k - 1, p),
            ));
        }
    } else {
        assert(handlers::items_steps(items, 0) =~= Seq::empty());
    }
}

/// The row of an order that is placed.
pub open spec fn placed(event: WarehouseEvent, p: OrderCreatedPayload) -> OrderRow {
    OrderRow {
        status: "CREATED"@,
        items_json: handlers::OrderLines::Fresh(p.items).text(),
        created_at: store::kept(event.timestamp),
    }
}

proof fn perform_created(s: Store, event: WarehouseEvent, p: OrderCreatedPayload) -> (t: Store)
    requires
        handlers::created(p) is Ok,
    ensures
        t == s.perform_all(event, handlers::created(p)->Ok_0),
        forall|q: Seq<char>, z: Seq<char>| #[trigger]
            t.zone(q, z) == plus(
                s.zone(q, z),
                -asked_at(p.items@, q, z),
                asked_at(p.items@, q, z),
            ),
        forall|q: Seq<char>| #[trigger]
            t.product(q) == plus(s.product(q), -asked(p.items@, q), asked(p.items@, q)),
        t.orders == s.orders.insert(p.order_id@, placed(event, p)),
{
    let items = p.items@;
    let n = items.len() as int;
    let checks = items.map_values(|item: OrderItem| handlers::item_check(item));
    let save = Step::SaveOrder {
        order_id: p.order_id,
        status: handlers::OrderStatus::Created,
        lines: handlers::OrderLines::Fresh(p.items),
    };
    let writes = handlers::items_steps(items, n);
    assert forall|i: int| 0 <= i < checks.len() implies !handlers::is_write(#[trigger] checks[i]) by {
        assert(checks[i] == handlers::item_check(items[i]));
    }
    perform_in_parts(s, event, checks + seq![save] + writes, seq![Step::MarkProcessed]);
    perform_in_parts(s, event, checks + seq![save], writes);
    perform_in_parts(s, event, checks, seq![save]);
    processing::idle(s, event, checks);
    perform_one(s, event, save);
    let m = s.perform(event, save);
    assert forall|q: Seq<char>, z: Seq<char>| #[trigger] m.zone(q, z) == s.zone(q, z) by {}
    assert forall|q: Seq<char>| #[trigger] m.product(q) == s.product(q) by {}
    perform_items(m, event, items, n);
    let u = m.perform_all(event, writes);
    perform_one(u, event, Step::MarkProcessed);
    let t = u.perform(event, Step::MarkProcessed);
    assert forall|q: Seq<char>, z: Seq<char>| #[trigger]
        t.zone(q, z) == plus(
            s.zone(q, z),
            -asked_at(p.items@, q, z),
            asked_at(p.items@, q, z),
        ) by {
        assert(t.zone(q, z) == u.zone(q, z));
    }
    assert forall|q: Seq<char>| #[trigger]
        t.product(q) == plus(s.product(q), -asked(p.items@, q), asked(p.items@, q)) by {
        assert(t.product(q) == u.product(q));
    }
    t
}

/// An order that is placed sets aside what its items ask for, and is saved with them and
/// with its time, to the millisecond; no other order changes.
pub proof fn applied_order_reserves_its_items(
    event: WarehouseEvent,
    at: Position,
    p: OrderCreatedPayload,
    trace: Seq<(RunView, Store)>,
)
    requires
        processed_with(event, at, EventPayload::OrderCreated(p), trace),
        outcome(trace) is Applied,
    ensures
        forall|q: Seq<char>, z: Seq<char>| #[trigger]
            after(trace).zone(q, z) == plus(
                before(trace).zone(q, z),
                -asked_at(p.items@, q, z),
                asked_at(p.items@, q, z),
            ),
        forall|q: Seq<char>| #[trigger]
            after(trace).product(q) == plus(
                before(trace).product(q),
                -asked(p.items@, q),
                asked(p.items@, q),
            ),
        after(trace).orders == before(trace).orders.insert(p.order_id@, placed(event, p)),
{
    begun_without_order(event, at, EventPayload::OrderCreated(p), trace);
    let t = perform_created(before(trace), event, p);
}

/// No objection is raised where the event is applied.
proof fn applied_without_objection(s: Store, event: WarehouseEvent, steps: Seq<Step>, k: int, j: int)
    requires
        s.decides(event, steps, k) is Applied,
        0 <= k <= j < steps.len(),
    ensures
        s.objects(event, steps[j]) is None,
    decreases j - k,
{
    assert(s.objects(event, steps[k]) is None);
    if k < j {
        applied_without_objection(s, event, steps, k + 1, j);
    }
}

/// The items of an order that is placed are positive, and there is enough of each.
proof fn applied_items(
    event: WarehouseEvent,
    at: Position,
    p: OrderCreatedPayload,
    trace: Seq<(RunView, Store)>,
    i: int,
)
    requires
        processed_with(event, at, EventPayload::OrderCreated(p), trace),
        outcome(trace) is Applied,
        0 <= i < p.items@.len(),
    ensures
        0 < p.items@[i].quantity,
        p.items@[i].quantity <= before(trace).zone(
            p.items@[i].product_id@,
            p.items@[i].zone_id@,
        ).available,
{
    begun_without_order(event, at, EventPayload::OrderCreated(p), trace);
    let steps = handlers::created(p)->Ok_0;
    processing::items_steps_at(p.items@, p.items@.len() as int, 0);
    assert(steps[i] == handlers::item_check(p.items@[i]));
    applied_without_objection(before(trace), event, steps, 0, i);
}

/// Whether no two items of an order are of the same product in the same zone.
pub open spec fn distinct_lines(items: Seq<OrderItem>) -> bool {
    forall|i: int, j: int|
        0 <= i < j < items.len() ==> !((#[trigger] items[i]).product_id@ == (#[trigger] items[j]).product_id@
            && items[i].zone_id@ == items[j].zone_id@)
}

/// Whether no zone is asked for more than is available there.
pub open spec fn lines_fit(s: Store, items: Seq<OrderItem>) -> bool {
    forall|q: Seq<char>, z: Seq<char>| #[trigger]
        asked_at(items, q, z) <= s.zone(q, z).available
}

proof fn ordered_once(
    items: Seq<OrderItem>,
    k: int,
    product_id: Seq<char>,
    zone_id: Seq<char>,
) -> (i: Option<int>)
    requires
        distinct_lines(items),
        0 <= k <= items.len(),
    ensures
        match i {
            Some(i) => {
                &&& 0 <= i < k
                &&& items[i].product_id@ == product_id
                &&& items[i].zone_id@ == zone_id
                &&& ordered_at(items, k, product_id, zone_id) == items[i].quantity
            },
            None => {
                &&& ordered_at(items, k, product_id, zone_id) == 0
                &&& forall|j: int|
                    0 <= j < k ==> !((#[trigger] items[j]).product_id@ == product_id
                        && items[j].zone_id@ == zone_id)
            },
        },
    decreases k,
{
    if k == 0 {
        None
    } else {
        let earlier = ordered_once(items, k - 1, product_id, zone_id);
        if items[k - 1].product_id@ == product_id && items[k - 1].zone_id@ == zone_id {
            match earlier {
                Some(i) => {
                    assert(!(items[i].product_id@ == items[k - 1].product_id@ && items[i].zone_id@
                        == items[k - 1].zone_id@));
                },
                None => {},
            }
            Some(k - 1)
        } else {
            earlier
        }
    }
}

/// Where no two items of an order are of the same product in the same zone, an order
/// that is placed asks no zone for more than is available there.
pub proof fn distinct_lines_fit(
    event: WarehouseEvent,
    at: Position,
    p: OrderCreatedPayload,
    trace: Seq<(RunView, Store)>,
)
    requires
        processed_with(event, at, EventPayload::OrderCreated(p), trace),
        outcome(trace) is Applied,
        distinct_lines(p.items@),
        in_stock(before(trace)),
    ensures
        lines_fit(before(trace), p.items@),
{
    assert forall|q: Seq<char>, z: Seq<char>| #[trigger]
        asked_at(p.items@, q, z) <= before(trace).zone(q, z).available by {
        match ordered_once(p.items@, p.items@.len() as int, q, z) {
            Some(i) => {
                applied_items(event, at, p, trace, i);
            },
            None => {
                assert(before(trace).zone(q, z).available >= 0);
            },
        }
    }
}

/// Whether no zone has less than nothing.
pub open spec fn in_stock(s: Store) -> bool {
    forall|q: Seq<char>, z: Seq<char>|
        (#[trigger] s.zone(q, z)).available >= 0 && s.zone(q, z).reserved >= 0
}

proof fn ordered_is_positive(
    items: Seq<OrderItem>,
    j: int,
    k: int,
    product_id: Seq<char>,
    zone_id: Seq<char>,
)
    requires
        0 <= j <= k <= items.len(),
        forall|i: int| 0 <= i < items.len() ==> (#[trigger] items[i]).quantity > 0,
    ensures
        0 <= ordered_at(items, j, product_id, zone_id) <= ordered_at(items, k, product_id, zone_id),
    decreases k,
{
    if j < k {
        ordered_is_positive(items, j, k - 1, product_id, zone_id);
    } else if k > 0 {
        ordered_is_positive(items, j - 1, k - 1, product_id, zone_id);
    }
}

proof fn settling_keeps_stock(s: Store, event: WarehouseEvent, steps: Seq<Step>)
    requires
        in_stock(s),
        forall|i: int|
            0 <= i < steps.len() ==> !((#[trigger] steps[i]) is WriteDelta || steps[i] is WriteMove
                || steps[i] is WriteCount),
    ensures
        in_stock(s.perform_all(event, steps)),
    decreases steps.len(),
{
    if steps.len() > 0 {
        assert forall|i: int| 0 <= i < steps.len() - 1 implies !((#[trigger] steps.drop_last()[i])
            is WriteDelta || steps.drop_last()[i] is WriteMove || steps.drop_last()[i]
            is WriteCount) by {
            assert(steps.drop_last()[i] == steps[i]);
        }
        settling_keeps_stock(s, event, steps.drop_last());
        let m = s.perform_all(event, steps.drop_last());
        let t = m.perform(event, steps.last());
        assert(steps[steps.len() - 1] == steps.last());
        assert forall|q: Seq<char>, z: Seq<char>|
            (#[trigger] t.zone(q, z)).available >= 0 && t.zone(q, z).reserved >= 0 by {
            assert(m.zone(q, z).available >= 0 && m.zone(q, z).reserved >= 0);
        }
    }
}

/// No event takes more out of a zone than it has, be it available or reserved. An order
/// whose items together ask a zone for more than is available there, each for less, is
/// left out.
pub proof fn stock_never_negative(
    event: WarehouseEvent,
    at: Position,
    p: EventPayload,
    trace: Seq<(RunView, Store)>,
)
    requires
        processed_with(event, at, p, trace),
        in_stock(before(trace)),
        p matches EventPayload::OrderCreated(q) ==> lines_fit(before(trace), q.items@),
    ensures
        in_stock(after(trace)),
{
    if !(outcome(trace) is Applied) {
        only_applied_events_change_anything(event, at, trace);
    } else {
        let (a, b) = (before(trace), after(trace));
        match p {
            EventPayload::OrderCompleted(_) => {
                completion_keeps_stock(event, at, p, trace);
            },
            EventPayload::OrderCreated(q) => {
                applied_order_reserves_its_items(event, at, q, trace);
                assert forall|i: int| 0 <= i < q.items@.len() implies (
                #[trigger] q.items@[i]).quantity > 0 by {
                    applied_items(event, at, q, trace, i);
                }
                assert forall|r: Seq<char>, z: Seq<char>|
                    (#[trigger] b.zone(r, z)).available >= 0 && b.zone(r, z).reserved >= 0 by {
                    ordered_is_positive(q.items@, 0, q.items@.len() as int, r, z);
                    assert(asked_at(q.items@, r, z) <= a.zone(r, z).available);
                }
            },
            EventPayload::ProductMoved(q) => {
                begun_without_order(event, at, p, trace);
                let steps = handlers::moved(q)->Ok_0;
                applied_without_objection(a, event, steps, 0, 1);
                let t = perform_move(a, event, q);
                assert forall|r: Seq<char>, z: Seq<char>|
                    (#[trigger] b.zone(r, z)).available >= 0 && b.zone(r, z).reserved >= 0 by {
                    assert(a.zone(r, z).available >= 0 && a.zone(r, z).reserved >= 0);
                    assert(a.zone(q.product_id@, q.from_zone_id@).reserved >= 0);
                    assert(a.zone(q.product_id@, q.to_zone_id@).reserved >= 0);
                }
            },
            EventPayload::InventoryCounted(q) => {
                begun_without_order(event, at, p, trace);
                applied_count_sets_stock(event, at, q, trace);
                assert forall|r: Seq<char>, z: Seq<char>|
                    (#[trigger] b.zone(r, z)).available >= 0 && b.zone(r, z).reserved >= 0 by {
                    assert(a.zone(r, z).available >= 0 && a.zone(r, z).reserved >= 0);
                }
            },
            _ => {
                begun_without_order(event, at, p, trace);
                applied_event_changes_stock(event, at, p, trace);
                let steps = handlers::steps_for(p)->Ok_0;
                applied_without_objection(a, event, steps, 0, 1);
                assert forall|r: Seq<char>, z: Seq<char>|
                    (#[trigger] b.zone(r, z)).available >= 0 && b.zone(r, z).reserved >= 0 by {
                    assert(a.zone(r, z).available >= 0 && a.zone(r, z).reserved >= 0);
                }
            },
        }
    }
}

proof fn completion_keeps_stock(
    event: WarehouseEvent,
    at: Position,
    p: EventPayload,
    trace: Seq<(RunView, Store)>,
)
    requires
        processed_with(event, at, p, trace),
        p is OrderCompleted,
        in_stock(before(trace)),
    ensures
        in_stock(after(trace)),
{
    let steps = change_is_by_steps(event, at, trace);
    assert forall|i: int| 0 <= i < steps.len() implies !((#[trigger] steps[i]) is WriteDelta
        || steps[i] is WriteMove || steps[i] is WriteCount) by {
        if steps != trace[0].0.steps {
            let (order_id, items_json, items) = choose|
                order_id: String,
                items_json: String,
                items: Seq<OrderItem>,
            |
                steps == #[trigger] processing::completing(order_id, items_json, items);
            processing::completing_at(order_id, items_json, items, 0);
            processing::completing_at(order_id, items_json, items, i);
            let m = (i - 2) % 4;
            assert(m == 0 || m == 1 || m == 2 || m == 3);
        }
    }
    settling_keeps_stock(before(trace), event, steps);
}

proof fn perform_settlement(s: Store, event: WarehouseEvent, items: Seq<OrderItem>, k: int)
    requires
        0 <= k <= items.len(),
        forall|i: int| 0 <= i < items.len() ==> (#[trigger] items[i]).quantity > 0,
        forall|q: Seq<char>, z: Seq<char>| #[trigger]
            s.zone(q, z).reserved >= asked_at(items, q, z),
    ensures
        ({
            let t = s.perform_all(event, handlers::settle_items(items, k));
            &&& t.orders == s.orders
            &&& forall|p: Seq<char>, z: Seq<char>| #[trigger]
                t.zone(p, z) == plus(s.zone(p, z), 0, -ordered_at(items, k, p, z))
            &&& forall|p: Seq<char>| #[trigger]
                t.product(p) == plus(s.product(p), 0, -ordered(items, k, p))
        }),
    decreases k,
{
    if k > 0 {
        perform_settlement(s, event, items, k - 1);
        let m = s.perform_all(event, handlers::settle_items(items, k - 1));
        let item = items[k - 1];
        let steps = handlers::settle_item(item);
        let (product_id, zone_id) = (item.product_id@, item.zone_id@);
        perform_in_parts(s, event, handlers::settle_items(items, k - 1), steps);
        assert(steps.drop_last() =~= seq![steps[0], steps[1], steps[2]]);
        processing::idle(m, event, steps.drop_last());
        let t = m.perform(event, steps[3]);
        assert(m.perform_all(event, steps) == t);
        ordered_is_positive(items, k, items.len() as int, product_id, zone_id);
        assert(m.zone(product_id, zone_id) == plus(
            s.zone(product_id, zone_id),
            0,
            -ordered_at(items, k - 1, product_id, zone_id),
        ));
        assert(s.zone(product_id, zone_id).reserved >= asked_at(items, product_id, zone_id));
        assert(m.zone(product_id, zone_id).reserved >= item.quantity);
        assert forall|p: Seq<char>, z: Seq<char>| #[trigger]
            t.zone(p, z) == plus(s.zone(p, z), 0, -ordered_at(items, k, p, z)) by {
            assert(m.zone(p, z) == plus(s.zone(p, z), 0, -ordered_at(items, k - 1, p, z)));
        }
        assert forall|p: Seq<char>| #[trigger]
            t.product(p) == plus(s.product(p), 0, -ordered(items, k, p)) by {
            assert(m.product(p) == plus(s.product(p), 0, -ordered(items, k - 1, p)));
        }
    } else {
        assert(handlers::settle_items(items, 0) =~= Seq::empty());
    }
}

/// The row of an order that is completed: its items stay as they were saved.
pub open spec fn settled(event: WarehouseEvent, row: OrderRow) -> OrderRow {
    OrderRow {
        status: "COMPLETED"@,
        items_json: row.items_json,
        created_at: store::kept(event.timestamp),
    }
}

/// The text of the items that is loaded is the one in the order's row.
pub(crate) proof fn loaded_text_is_saved_text(
    event: WarehouseEvent,
    at: Position,
    p: OrderCompletedPayload,
    items_json: String,
    items: Seq<OrderItem>,
    trace: Seq<(RunView, Store)>,
)
    requires
        processed_with(event, at, EventPayload::OrderCompleted(p), trace),
        trace.last().0.steps == processing::completing(p.order_id, items_json, items),
    ensures
        outcome(trace) is Applied,
        before(trace).orders.contains_key(p.order_id@),
        items_json@ == before(trace).orders[p.order_id@].items_json,
        after(trace) == before(trace).perform_all(event, trace.last().0.steps),
{
    result_of_processing(event, at, trace);
    processing::along(event, at, trace, 0);
    processing::along(event, at, trace, trace.len() - 1);
    let s = before(trace);
    let steps = trace.last().0.steps;
    processing::completing_at(p.order_id, items_json, items, 1);
    assert(trace[0].0.steps[0] is LoadOrder);
    let (saved_json, saved) = choose|saved_json: String, saved: Seq<OrderItem>|
        #![trigger processing::completing(p.order_id, saved_json, saved)]
        saved_json@ == s.orders[p.order_id@].items_json && steps == processing::completing(
            p.order_id,
            saved_json,
            saved,
        );
    assert(steps[1] == processing::completing(p.order_id, saved_json, saved)[1]);
    assert(saved_json == items_json);
}

proof fn order_settles(
    event: WarehouseEvent,
    at: Position,
    p: OrderCreatedPayload,
    trace: Seq<(RunView, Store)>,
    event2: WarehouseEvent,
    at2: Position,
    p2: OrderCompletedPayload,
    items_json: String,
    items: Seq<OrderItem>,
    trace2: Seq<(RunView, Store)>,
)
    requires
        processed_with(event, at, EventPayload::OrderCreated(p), trace),
        outcome(trace) is Applied,
        in_stock(before(trace)),
        processed_with(event2, at2, EventPayload::OrderCompleted(p2), trace2),
        before(trace2) == after(trace),
        p2.order_id@ == p.order_id@,
        trace2.last().0.steps == processing::completing(p2.order_id, items_json, items),
        contents(items) == contents(p.items@),
    ensures
        outcome(trace2) is Applied,
        forall|q: Seq<char>, z: Seq<char>| #[trigger]
            after(trace2).zone(q, z) == plus(
                before(trace).zone(q, z),
                -asked_at(p.items@, q, z),
                0,
            ),
        forall|q: Seq<char>| #[trigger]
            after(trace2).product(q) == plus(before(trace).product(q), -asked(p.items@, q), 0),
        after(trace2).orders == before(trace).orders.insert(
            p.order_id@,
            settled(event2, placed(event, p)),
        ),
{
    let n = items.len() as int;
    same_contents_ask_the_same(items, p.items@, n);
    let (a, s) = (before(trace), after(trace));
    applied_order_reserves_its_items(event, at, p, trace);
    assert forall|i: int| 0 <= i < n implies (#[trigger] items[i]).quantity > 0 by {
        applied_items(event, at, p, trace, i);
        assert(contents(items)[i] == contents(p.items@)[i]);
    }
    assert forall|q: Seq<char>, z: Seq<char>| #[trigger] s.zone(q, z).reserved >= asked_at(
        items,
        q,
        z,
    ) by {
        assert(a.zone(q, z).reserved >= 0);
    }
    loaded_text_is_saved_text(event2, at2, p2, items_json, items, trace2);
    let steps = trace2.last().0.steps;
    let load = seq![Step::LoadOrder { order_id: p2.order_id }];
    let save = seq![
        Step::SaveOrder {
            order_id: p2.order_id,
            status: handlers::OrderStatus::Completed,
            lines: handlers::OrderLines::Stored(items_json),
        },
    ];
    let settle = handlers::settle_items(items, n);
    assert(steps =~= load + save + settle + seq![Step::MarkProcessed]);
    perform_in_parts(s, event2, load + save + settle, seq![Step::MarkProcessed]);
    perform_in_parts(s, event2, load + save, settle);
    perform_in_parts(s, event2, load, save);
    processing::idle(s, event2, load);
    perform_one(s, event2, save[0]);
    let m = s.perform(event2, save[0]);
    assert forall|q: Seq<char>, z: Seq<char>| #[trigger] m.zone(q, z) == s.zone(q, z) by {}
    assert forall|q: Seq<char>| #[trigger] m.product(q) == s.product(q) by {}
    assert forall|q: Seq<char>, z: Seq<char>| #[trigger] m.zone(q, z).reserved >= asked_at(
        items,
        q,
        z,
    ) by {
        assert(s.zone(q, z).reserved >= asked_at(items, q, z));
    }
    perform_settlement(m, event2, items, n);
    let u = m.perform_all(event2, settle);
    perform_one(u, event2, Step::MarkProcessed);
    let t = after(trace2);
    assert(t == u.perform(event2, Step::MarkProcessed));
    assert(t.orders =~= a.orders.insert(p.order_id@, settled(event2, placed(event, p))));
    assert forall|q: Seq<char>, z: Seq<char>| #[trigger]
        t.zone(q, z) == plus(a.zone(q, z), -asked_at(items, q, z), 0) by {
        assert(t.zone(q, z) == u.zone(q, z));
        assert(m.zone(q, z) == s.zone(q, z));
    }
    assert forall|q: Seq<char>| #[trigger]
        t.product(q) == plus(a.product(q), -asked(items, q), 0) by {
        assert(t.product(q) == u.product(q));
        assert(m.product(q) == s.product(q));
    }
}

/// An order that was placed and is then completed, with its items loaded as they were
/// saved, leaves each zone with what it asked for less available, and nothing more
/// reserved than before. The order is saved as completed, with the same items.
pub proof fn order_loaded_as_saved_is_gone(
    event: WarehouseEvent,
    at: Position,
    p: OrderCreatedPayload,
    trace: Seq<(RunView, Store)>,
    event2: WarehouseEvent,
    at2: Position,
    p2: OrderCompletedPayload,
    items_json: String,
    trace2: Seq<(RunView, Store)>,
)
    requires
        processed_with(event, at, EventPayload::OrderCreated(p), trace),
        outcome(trace) is Applied,
        in_stock(before(trace)),
        processed_with(event2, at2, EventPayload::OrderCompleted(p2), trace2),
        before(trace2) == after(trace),
        p2.order_id@ == p.order_id@,
        trace2.last().0.steps == processing::completing(p2.order_id, items_json, p.items@),
    ensures
        outcome(trace2) is Applied,
        forall|q: Seq<char>, z: Seq<char>| #[trigger]
            after(trace2).zone(q, z) == plus(
                before(trace).zone(q, z),
                -asked_at(p.items@, q, z),
                0,
            ),
        forall|q: Seq<char>| #[trigger]
            after(trace2).product(q) == plus(before(trace).product(q), -asked(p.items@, q), 0),
        after(trace2).orders == before(trace).orders.insert(
            p.order_id@,
            settled(event2, placed(event, p)),
        ),
{
    order_settles(event, at, p, trace, event2, at2, p2, items_json, p.items@, trace2);
}

/// What order items hold.
pub open spec fn contents(items: Seq<OrderItem>) -> Seq<(Seq<char>, Seq<char>, int)> {
    items.map_values(
        |item: OrderItem| (item.product_id@, item.zone_id@, item.quantity as int),
    )
}

/// Whether a way to read order items from a text is one for JSON: a JSON list that reads as
/// items is read as those.
pub open spec fn is_reader(
    reader: spec_fn(Seq<char>) -> Option<Seq<(Seq<char>, Seq<char>, int)>>,
) -> bool {
    forall|text: Seq<char>, items: Seq<OrderItem>| #[trigger]
        handlers::reads_as_items(text, items) ==> reader(text) == Some(contents(items))
}

proof fn same_contents_ask_the_same(a: Seq<OrderItem>, b: Seq<OrderItem>, k: int)
    requires
        contents(a) == contents(b),
        0 <= k <= a.len(),
    ensures
        a.len() == b.len(),
        forall|q: Seq<char>, z: Seq<char>| #[trigger]
            ordered_at(a, k, q, z) == ordered_at(b, k, q, z),
        forall|q: Seq<char>| #[trigger] ordered(a, k, q) == ordered(b, k, q),
    decreases k,
{
    assert(contents(a).len() == a.len() && contents(b).len() == b.len());
    if k > 0 {
        same_contents_ask_the_same(a, b, k - 1);
        assert(contents(a)[k - 1] == contents(b)[k - 1]);
        assert forall|q: Seq<char>, z: Seq<char>| #[trigger]
            ordered_at(a, k, q, z) == ordered_at(b, k, q, z) by {
            assert(ordered_at(a, k - 1, q, z) == ordered_at(b, k - 1, q, z));
        }
        assert forall|q: Seq<char>| #[trigger] ordered(a, k, q) == ordered(b, k, q) by {
            assert(ordered(a, k - 1, q) == ordered(b, k - 1, q));
        }
    }
}

/// An order that was placed and is then completed leaves each zone with what it asked for
/// less available, and nothing more reserved than before, in whatever way the text of its
/// items is read, as long as it is one for JSON. The order is saved as completed, with the
/// same items.
pub proof fn completed_order_is_gone(
    event: WarehouseEvent,
    at: Position,
    p: OrderCreatedPayload,
    trace: Seq<(RunView, Store)>,
    event2: WarehouseEvent,
    at2: Position,
    p2: OrderCompletedPayload,
    reader: spec_fn(Seq<char>) -> Option<Seq<(Seq<char>, Seq<char>, int)>>,
    items_json: String,
    items: Seq<OrderItem>,
    trace2: Seq<(RunView, Store)>,
)
    requires
        processed_with(event, at, EventPayload::OrderCreated(p), trace),
        outcome(trace) is Applied,
        in_stock(before(trace)),
        processed_with(event2, at2, EventPayload::OrderCompleted(p2), trace2),
        before(trace2) == after(trace),
        p2.order_id@ == p.order_id@,
        trace2.last().0.steps == processing::completing(p2.order_id, items_json, items),
        is_reader(reader),
        reader(items_json@) == Some(contents(items)),
    ensures
        contents(items) == contents(p.items@),
        outcome(trace2) is Applied,
        forall|q: Seq<char>, z: Seq<char>| #[trigger]
            after(trace2).zone(q, z) == plus(
                before(trace).zone(q, z),
                -asked_at(p.items@, q, z),
                0,
            ),
        forall|q: Seq<char>| #[trigger]
            after(trace2).product(q) == plus(before(trace).product(q), -asked(p.items@, q), 0),
        after(trace2).orders == before(trace).orders.insert(
            p.order_id@,
            settled(event2, placed(event, p)),
        ),
{
    applied_order_reserves_its_items(event, at, p, trace);
    loaded_text_is_saved_text(event2, at2, p2, items_json, items, trace2);
    handlers::saved_items_read_back(p.items);
    assert(contents(items) == contents(p.items@));
    order_settles(event, at, p, trace, event2, at2, p2, items_json, items, trace2);
}

/// Products and zones have keys of their own, as long as no product's name has a colon.
pub proof fn entities_are_distinct(
    product_a: Seq<char>,
    zone_a: Seq<char>,
    product_b: Seq<char>,
    zone_b: Seq<char>,
)
    requires
        !product_a.contains(':'),
        !product_b.contains(':'),
        cassandra::entity_id(product_a, zone_a) == cassandra::entity_id(product_b, zone_b),
    ensures
        product_a == product_b,
        zone_a == zone_b,
{
    reveal_strlit(":");
    let a = cassandra::entity_id(product_a, zone_a);
    let b = cassandra::entity_id(product_b, zone_b);
    let (m, n) = (product_a.len() as int, product_b.len() as int);
    assert(a[m] == ':' && b[n] == ':');
    if m < n {
        assert(product_b[m] == ':');
    } else if n < m {
        assert(product_a[n] == ':');
    }
    assert(product_a =~= product_b) by {
        assert forall|i: int| 0 <= i < m implies product_a[i] == product_b[i] by {
            assert(a[i] == b[i]);
        }
    }
    assert(zone_a =~= zone_b) by {
        assert(a.len() == b.len());
        assert forall|i: int| 0 <= i < zone_a.len() implies zone_a[i] == zone_b[i] by {
            assert(a[m + 1 + i] == b[m + 1 + i]);
        }
    }
}

/// The processing fails for a write exactly if the database was asked to write and did
/// not: an event that makes no sense, or a read that fails, is no such failure.
pub proof fn write_errors_are_failed_writes(
    run: RunView,
    now: Timestamp,
    reply: run::ReplyView,
)
    requires
        run.wf(),
        run.accepts(reply),
    ensures
        run.after(reply).failed_to_write() <==> reply is Failed && (run.expected(now) is Batch
            || run.expected(now) is Execute),
{
}

/// Whatever is replied, the processing goes on with one of its steps, or ends.
pub proof fn processing_stays_sound(run: RunView, reply: run::ReplyView)
    requires
        run.wf(),
        run.accepts(reply),
    ensures
        run.after(reply).wf(),
        !(run.after(reply).stage is Checking),
{
}

/// How far the processing is from its end: the stages before the last, and the steps
/// that are left.
pub open spec fn distance(run: RunView) -> (int, int) {
    match run.stage {
        Stage::Checking => (3, 0),
        Stage::Working => if exists|i: int|
            run.next <= i < run.steps.len() && (#[trigger] run.steps[i]) is LoadOrder {
            (2, run.steps.len() - run.next)
        } else {
            (1, run.steps.len() - run.next)
        },
        Stage::Done(_) => (0, 0),
    }
}

/// Every reply brings the processing nearer to its end.
pub proof fn processing_ends(run: RunView, reply: run::ReplyView)
    requires
        run.wf(),
        run.accepts(reply),
    ensures
        ({
            let (a, b) = (distance(run), distance(run.after(reply)));
            b.0 < a.0 || b.0 == a.0 && 0 <= b.1 < a.1
        }),
{
    let run2 = run.after(reply);
    if run.stage is Working && run2.stage is Working {
        if run.steps[run.next] is LoadOrder {
            match reply->Order_0 {
                Some((items_json, Ok(items))) => {
                    let order_id = run.steps[run.next]->LoadOrder_order_id;
                    let steps = processing::completing(order_id, items_json, items);
                    processing::completing_at(order_id, items_json, items, 0);
                    assert forall|i: int| run2.next <= i < run2.steps.len() implies !((
                    #[trigger] run2.steps[i]) is LoadOrder) by {
                        let j = i - run.next;
                        assert(run2.steps[i] == steps[j]);
                        processing::completing_at(order_id, items_json, items, j);
                        let m = (j - 2) % 4;
                        assert(m == 0 || m == 1 || m == 2 || m == 3);
                    }
                    assert(distance(run).0 == 2);
                },
                _ => {},
            }
        } else {
            assert(run2.steps == run.steps);
        }
    }
}

} // verus!

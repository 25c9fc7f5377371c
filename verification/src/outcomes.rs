//! When an event is applied, why else it is not, and what is noted of it.
use crate::cassandra::{Delta, Position};
use crate::events::WarehouseEvent;
use crate::handlers;
use crate::handlers::{HandlerError, Purpose, Step};
use crate::json;
use crate::laws;
use crate::payload;
use crate::payload::{EventPayload, OrderCreatedPayload, OrderItem};
use crate::processing;
use crate::run::{Outcome, RunView};
use crate::store;
use crate::store::{Amount, HistoryRow, Store};
use vstd::prelude::*;

verus! {

/// Whether nothing as late as the event, or later, has been noted of a product in a zone.
pub open spec fn is_newer(
    event: WarehouseEvent,
    s: Store,
    product_id: Seq<char>,
    zone_id: Seq<char>,
) -> bool {
    match s.last_event(product_id, zone_id) {
        Some(last) => last.secs < event.timestamp.secs || last.secs == event.timestamp.secs
            && last.nanos < event.timestamp.nanos,
        None => true,
    }
}

/// Whether that many of a product are there to leave a zone.
pub open spec fn are_available(
    s: Store,
    product_id: Seq<char>,
    zone_id: Seq<char>,
    quantity: int,
) -> bool {
    0 < quantity <= s.zone(product_id, zone_id).available
}

/// The checks pass exactly if none of them objects.
proof fn passed_by_all(s: Store, event: WarehouseEvent, steps: Seq<Step>, k: int)
    requires
        0 <= k,
    ensures
        s.decides(event, steps, k) is Applied <==> forall|j: int|
            k <= j < steps.len() ==> s.objects(event, #[trigger] steps[j]) is None,
    decreases steps.len() - k,
{
    if k < steps.len() {
        passed_by_all(s, event, steps, k + 1);
        if s.objects(event, steps[k]) is None {
            if s.decides(event, steps, k + 1) is Applied {
                assert forall|j: int| k <= j < steps.len() implies s.objects(
                    event,
                    #[trigger] steps[j],
                ) is None by {}
            }
        }
    }
}

/// A stock event is applied exactly if it has not been processed before, its quantity makes
/// sense, it is newer than the last one for its product and zone, and there is enough:
/// goods that come in and goods that are counted ask for nothing, goods that go out, move
/// or are set aside have to be available, and those that are no longer set aside have to be
/// reserved.
pub proof fn stock_event_is_applied_exactly_if(
    event: WarehouseEvent,
    at: Position,
    p: EventPayload,
    trace: Seq<(RunView, Store)>,
)
    requires
        laws::processed_with(event, at, p, trace),
    ensures
        ({
            let s = laws::before(trace);
            let fresh = !s.processed.contains(event.event_id@);
            let applied = laws::outcome(trace) is Applied;
            match p {
                EventPayload::ProductReceived(q) => applied <==> fresh && q.quantity > 0
                    && is_newer(event, s, q.product_id@, q.zone_id@),
                EventPayload::ProductShipped(q) => applied <==> fresh && is_newer(
                    event,
                    s,
                    q.product_id@,
                    q.zone_id@,
                ) && are_available(s, q.product_id@, q.zone_id@, q.quantity as int),
                EventPayload::ProductMoved(q) => applied <==> fresh && is_newer(
                    event,
                    s,
                    q.product_id@,
                    q.from_zone_id@,
                ) && are_available(s, q.product_id@, q.from_zone_id@, q.quantity as int),
                EventPayload::ProductReserved(q) => applied <==> fresh && is_newer(
                    event,
                    s,
                    q.product_id@,
                    q.zone_id@,
                ) && are_available(s, q.product_id@, q.zone_id@, q.quantity as int),
                EventPayload::ProductReleased(q) => applied <==> fresh && is_newer(
                    event,
                    s,
                    q.product_id@,
                    q.zone_id@,
                ) && 0 < q.quantity <= s.zone(q.product_id@, q.zone_id@).reserved,
                EventPayload::InventoryCounted(q) => applied <==> fresh && q.counted_quantity >= 0
                    && is_newer(event, s, q.product_id@, q.zone_id@),
                _ => true,
            }
        }),
{
    laws::result_of_processing(event, at, trace);
    processing::along(event, at, trace, 0);
    reveal_with_fuel(Store::decides, 8);
}

/// Whether an order's item can be set aside.
pub open spec fn can_be_reserved(s: Store, item: OrderItem) -> bool {
    are_available(s, item.product_id@, item.zone_id@, item.quantity as int)
}

/// An order is placed exactly if it has not been processed before, it has items, and each of
/// them asks for something, and for no more than is available. When it was made does not
/// matter.
pub proof fn order_is_placed_exactly_if(
    event: WarehouseEvent,
    at: Position,
    p: OrderCreatedPayload,
    trace: Seq<(RunView, Store)>,
)
    requires
        laws::processed_with(event, at, EventPayload::OrderCreated(p), trace),
    ensures
        laws::outcome(trace) is Applied <==> {
            &&& !laws::before(trace).processed.contains(event.event_id@)
            &&& p.items@.len() > 0
            &&& forall|i: int|
                0 <= i < p.items@.len() ==> can_be_reserved(
                    laws::before(trace),
                    #[trigger] p.items@[i],
                )
        },
{
    laws::result_of_processing(event, at, trace);
    processing::along(event, at, trace, 0);
    let s = laws::before(trace);
    if p.items@.len() > 0 {
        let items = p.items@;
        let n = items.len() as int;
        let steps = handlers::created(p)->Ok_0;
        created_at(p, 0);
        assert(!processing::loads(steps)) by {
            assert forall|j: int| 0 <= j < steps.len() implies !((#[trigger] steps[j])
                is LoadOrder) by {
                created_at(p, j);
            }
        }
        passed_by_all(s, event, steps, 0);
        assert forall|j: int| 0 <= j < steps.len() implies (s.objects(event, #[trigger] steps[j])
            is None <==> (j < n ==> can_be_reserved(s, items[j]))) by {
            created_at(p, j);
        }
        if s.decides(event, steps, 0) is Applied {
            assert forall|i: int| 0 <= i < n implies can_be_reserved(s, #[trigger] items[i]) by {
                assert(s.objects(event, steps[i]) is None);
            }
        } else if forall|i: int| 0 <= i < n ==> can_be_reserved(s, #[trigger] items[i]) {
            assert forall|j: int| 0 <= j < steps.len() implies s.objects(event, #[trigger] steps[j])
                is None by {
                if j < n {
                    assert(can_be_reserved(s, items[j]));
                }
            }
        }
    }
}

/// The steps of an order that is placed: the checks of its items come first, and no others
/// follow.
proof fn created_at(p: OrderCreatedPayload, j: int)
    requires
        handlers::created(p) is Ok,
        0 <= j < handlers::created(p)->Ok_0.len() || j == 0,
    ensures
        handlers::created(p)->Ok_0.len() == 5 * p.items@.len() + 2,
        j < p.items@.len() ==> handlers::created(p)->Ok_0[j] == handlers::item_check(p.items@[j]),
        j >= p.items@.len() ==> !store::is_check(handlers::created(p)->Ok_0[j]),
        !(handlers::created(p)->Ok_0[j] is LoadOrder),
{
    let items = p.items@;
    let n = items.len() as int;
    let steps = handlers::created(p)->Ok_0;
    processing::items_steps_at(items, n, j - n - 1);
    if n < j < 5 * n + 1 {
        assert(steps[j] == handlers::items_steps(items, n)[j - n - 1]);
        let m = (j - n - 1) % 4;
        assert(m == 0 || m == 1 || m == 2 || m == 3);
    }
}

/// An order is completed only if it was not processed before and there is such an order; and
/// where there is none, that is the error.
pub proof fn order_is_completed_only_if(
    event: WarehouseEvent,
    at: Position,
    p: payload::OrderCompletedPayload,
    trace: Seq<(RunView, Store)>,
)
    requires
        laws::processed_with(event, at, EventPayload::OrderCompleted(p), trace),
    ensures
        ({
            let s = laws::before(trace);
            let fresh = !s.processed.contains(event.event_id@);
            let outcome = laws::outcome(trace);
            &&& outcome is Applied ==> fresh && s.orders.contains_key(p.order_id@)
            &&& fresh && s.orders.contains_key(p.order_id@) ==> outcome is Applied
                || outcome is Failed && outcome->Failed_0 is Storage
            &&& fresh && !s.orders.contains_key(p.order_id@) ==> outcome == Outcome::Failed(
                HandlerError::OrderNotFound(p.order_id),
            )
        }),
{
    laws::result_of_processing(event, at, trace);
    processing::along(event, at, trace, 0);
    assert(trace[0].0.steps[0] is LoadOrder);
}

/// Whether an error says that there is not enough of a product in a zone.
pub open spec fn is_short_of(
    outcome: Outcome,
    purpose: Purpose,
    product_id: Seq<char>,
    zone_id: Seq<char>,
    have: int,
    need: int,
) -> bool {
    match outcome {
        Outcome::Failed(
            HandlerError::Insufficient { purpose: u, product_id: p, zone_id: z, have: h, need: n },
        ) => u == purpose && p@ == product_id && z@ == zone_id && h == have && n == need,
        _ => false,
    }
}

/// Why a stock event is not applied. One that has been processed before is a duplicate,
/// whatever it says; a senseless quantity is refused next, then an event that is not newer
/// is ignored, and at last it may be that there is not enough.
pub proof fn stock_event_is_not_applied_because(
    event: WarehouseEvent,
    at: Position,
    p: EventPayload,
    trace: Seq<(RunView, Store)>,
)
    requires
        laws::processed_with(event, at, p, trace),
    ensures
        ({
            let s = laws::before(trace);
            let outcome = laws::outcome(trace);
            let fresh = !s.processed.contains(event.event_id@);
            let senseless = |quantity: i64|
                outcome == Outcome::Failed(HandlerError::QuantityNotPositive(quantity));
            &&& outcome is Duplicate <==> !fresh
            &&& fresh ==> match p {
                EventPayload::ProductReceived(q) => {
                    &&& q.quantity <= 0 ==> senseless(q.quantity)
                    &&& q.quantity > 0 && !is_newer(event, s, q.product_id@, q.zone_id@)
                        ==> outcome is OutOfOrder
                },
                EventPayload::ProductShipped(q) => {
                    let have = s.zone(q.product_id@, q.zone_id@).available;
                    let late = !is_newer(event, s, q.product_id@, q.zone_id@);
                    &&& q.quantity <= 0 ==> senseless(q.quantity)
                    &&& q.quantity > 0 && late ==> outcome is OutOfOrder
                    &&& q.quantity > 0 && !late && have < q.quantity ==> is_short_of(
                        outcome,
                        Purpose::Removal,
                        q.product_id@,
                        q.zone_id@,
                        have,
                        q.quantity as int,
                    )
                },
                EventPayload::ProductMoved(q) => {
                    let have = s.zone(q.product_id@, q.from_zone_id@).available;
                    let late = !is_newer(event, s, q.product_id@, q.from_zone_id@);
                    &&& q.quantity <= 0 ==> senseless(q.quantity)
                    &&& q.quantity > 0 && late ==> outcome is OutOfOrder
                    &&& q.quantity > 0 && !late && have < q.quantity ==> is_short_of(
                        outcome,
                        Purpose::Removal,
                        q.product_id@,
                        q.from_zone_id@,
                        have,
                        q.quantity as int,
                    )
                },
                EventPayload::ProductReserved(q) => {
                    let have = s.zone(q.product_id@, q.zone_id@).available;
                    let late = !is_newer(event, s, q.product_id@, q.zone_id@);
                    &&& q.quantity <= 0 ==> senseless(q.quantity)
                    &&& q.quantity > 0 && late ==> outcome is OutOfOrder
                    &&& q.quantity > 0 && !late && have < q.quantity ==> is_short_of(
                        outcome,
                        Purpose::Reservation,
                        q.product_id@,
                        q.zone_id@,
                        have,
                        q.quantity as int,
                    )
                },
                EventPayload::ProductReleased(q) => {
                    let have = s.zone(q.product_id@, q.zone_id@).reserved;
                    let late = !is_newer(event, s, q.product_id@, q.zone_id@);
                    &&& q.quantity <= 0 ==> senseless(q.quantity)
                    &&& q.quantity > 0 && late ==> outcome is OutOfOrder
                    &&& q.quantity > 0 && !late && have < q.quantity ==> is_short_of(
                        outcome,
                        Purpose::Release,
                        q.product_id@,
                        q.zone_id@,
                        have,
                        q.quantity as int,
                    )
                },
                EventPayload::InventoryCounted(q) => {
                    &&& q.counted_quantity < 0 ==> outcome == Outcome::Failed(
                        HandlerError::CountNegative,
                    )
                    &&& q.counted_quantity >= 0 && !is_newer(event, s, q.product_id@, q.zone_id@)
                        ==> outcome is OutOfOrder
                },
                EventPayload::OrderCreated(q) => q.items@.len() == 0 ==> outcome == Outcome::Failed(
                    HandlerError::OrderEmpty,
                ),
                EventPayload::OrderCompleted(_) => true,
            }
        }),
{
    laws::result_of_processing(event, at, trace);
    processing::along(event, at, trace, 0);
    processing::along(event, at, trace, trace.len() - 1);
    laws::duplicates_are_not_checked(laws::before(trace), event, trace[0].0.steps, 0);
    reveal_with_fuel(Store::decides, 8);
}

/// The first check that objects decides.
proof fn first_objection(s: Store, event: WarehouseEvent, steps: Seq<Step>, k: int, j: int)
    requires
        0 <= k <= j < steps.len(),
        forall|i: int| k <= i < j ==> s.objects(event, #[trigger] steps[i]) is None,
        s.objects(event, steps[j]) is Some,
    ensures
        s.decides(event, steps, k) == s.objects(event, steps[j])->0,
    decreases j - k,
{
    if k < j {
        assert(s.objects(event, steps[k]) is None);
        first_objection(s, event, steps, k + 1, j);
    }
}

/// Why an order is not placed: the first item that cannot be set aside is what is wrong with
/// it, be it that it asks for nothing, or for more than there is.
pub proof fn order_is_not_placed_because(
    event: WarehouseEvent,
    at: Position,
    p: OrderCreatedPayload,
    trace: Seq<(RunView, Store)>,
    i: int,
)
    requires
        laws::processed_with(event, at, EventPayload::OrderCreated(p), trace),
        !laws::before(trace).processed.contains(event.event_id@),
        0 <= i < p.items@.len(),
        forall|j: int| 0 <= j < i ==> can_be_reserved(laws::before(trace), #[trigger] p.items@[j]),
        !can_be_reserved(laws::before(trace), p.items@[i]),
    ensures
        ({
            let item = p.items@[i];
            let have = laws::before(trace).zone(item.product_id@, item.zone_id@).available;
            if item.quantity <= 0 {
                laws::outcome(trace) == Outcome::Failed(
                    HandlerError::ItemQuantityNotPositive(item.quantity),
                )
            } else {
                is_short_of(
                    laws::outcome(trace),
                    Purpose::OrderItem,
                    item.product_id@,
                    item.zone_id@,
                    have,
                    item.quantity as int,
                )
            }
        }),
{
    laws::result_of_processing(event, at, trace);
    processing::along(event, at, trace, 0);
    processing::along(event, at, trace, trace.len() - 1);
    let s = laws::before(trace);
    let items = p.items@;
    let steps = handlers::created(p)->Ok_0;
    created_at(p, i);
    assert(!processing::loads(steps)) by {
        assert forall|j: int| 0 <= j < steps.len() implies !((#[trigger] steps[j]) is LoadOrder) by {
            created_at(p, j);
        }
    }
    assert forall|j: int| 0 <= j < i implies s.objects(event, #[trigger] steps[j]) is None by {
        created_at(p, j);
        assert(can_be_reserved(s, items[j]));
    }
    first_objection(s, event, steps, 0, i);
}

/// What the history has of an event, for a product in a zone.
pub open spec fn entry_of(
    event: WarehouseEvent,
    product_id: Seq<char>,
    zone_id: Seq<char>,
) -> HistoryRow {
    HistoryRow {
        event_type: event.event_type@,
        event_id: event.event_id@,
        timestamp: store::kept(event.timestamp),
        product_id,
        zone_id,
        payload_json: json::json_text(event.payload@),
    }
}

/// A stock event that is applied is among those that have been processed, with no other that
/// was not before, and has one more entry in the history: for its product and its zone, or
/// the zone that goods were moved from. Both tables of stock have a row for the zone, with
/// the same amounts, and no other row of theirs changes, but for the zone that goods were
/// moved to.
pub proof fn applied_stock_event_is_recorded(
    event: WarehouseEvent,
    at: Position,
    p: EventPayload,
    trace: Seq<(RunView, Store)>,
)
    requires
        laws::processed_with(event, at, p, trace),
        laws::outcome(trace) is Applied,
        laws::source(p) is Some,
    ensures
        ({
            let (a, b) = (laws::before(trace), laws::after(trace));
            let (product_id, zone_id) = laws::source(p)->0;
            let now = store::kept(event.timestamp);
            let key = product_id + seq![':'] + zone_id;
            let here = b.zone(product_id, zone_id);
            &&& b.processed == a.processed.insert(event.event_id@)
            &&& b.history == a.history.insert(entry_of(event, product_id, zone_id))
            &&& b.orders == a.orders
            &&& match p {
                EventPayload::ProductMoved(q) => {
                    let to = (product_id, q.to_zone_id@);
                    let there = b.zone(product_id, q.to_zone_id@);
                    &&& b.zones == a.zones.insert((product_id, zone_id), here).insert(to, there)
                    &&& b.by_zone == a.by_zone.insert((zone_id, product_id), here).insert(
                        (q.to_zone_id@, product_id),
                        there,
                    )
                    &&& b.products == a.products
                    &&& b.suppliers == a.suppliers
                    &&& b.entities == a.entities.insert(key, now).insert(
                        product_id + seq![':'] + q.to_zone_id@,
                        now,
                    )
                },
                _ => {
                    &&& b.zones == a.zones.insert((product_id, zone_id), here)
                    &&& b.by_zone == a.by_zone.insert((zone_id, product_id), here)
                    &&& b.products == a.products.insert(product_id, b.product(product_id))
                    &&& b.suppliers == laws::suppliers_after(a.suppliers, p)
                    &&& b.entities == a.entities.insert(key, now)
                },
            }
        }),
{
    laws::begun_without_order(event, at, p, trace);
    reveal_strlit(":");
    assert(":"@ =~= seq![':']);
    let (a, b) = (laws::before(trace), laws::after(trace));
    match p {
        EventPayload::ProductReceived(q) => {
            let delta = Delta { available: q.quantity as i128, reserved: 0 };
            let t = laws::perform_plain(a, event, p, q.product_id, q.zone_id, delta);
        },
        EventPayload::ProductShipped(q) => {
            let delta = Delta { available: (-q.quantity) as i128, reserved: 0 };
            let t = laws::perform_plain(a, event, p, q.product_id, q.zone_id, delta);
        },
        EventPayload::ProductReserved(q) => {
            let delta = Delta { available: (-q.quantity) as i128, reserved: q.quantity as i128 };
            let t = laws::perform_plain(a, event, p, q.product_id, q.zone_id, delta);
        },
        EventPayload::ProductReleased(q) => {
            let delta = Delta { available: q.quantity as i128, reserved: (-q.quantity) as i128 };
            let t = laws::perform_plain(a, event, p, q.product_id, q.zone_id, delta);
        },
        EventPayload::ProductMoved(q) => {
            let t = laws::perform_move(a, event, q);
            let from = (q.product_id@, q.from_zone_id@);
            let to = (q.product_id@, q.to_zone_id@);
            assert(b.zones =~= a.zones.insert(from, b.zone(from.0, from.1)).insert(
                to,
                b.zone(to.0, to.1),
            ));
            assert(b.by_zone =~= a.by_zone.insert((from.1, from.0), b.zone(from.0, from.1)).insert(
                (to.1, to.0),
                b.zone(to.0, to.1),
            ));
        },
        EventPayload::InventoryCounted(q) => {
            laws::perform_count(a, event, q);
        },
        _ => {},
    }
}

/// Goods that are moved within a zone add to what it has of them, and to nothing else.
pub proof fn move_within_a_zone_adds(
    event: WarehouseEvent,
    at: Position,
    p: payload::ProductMovedPayload,
    trace: Seq<(RunView, Store)>,
)
    requires
        laws::processed_with(event, at, EventPayload::ProductMoved(p), trace),
        laws::outcome(trace) is Applied,
        p.from_zone_id@ == p.to_zone_id@,
    ensures
        laws::after(trace).zone(p.product_id@, p.to_zone_id@) == laws::plus(
            laws::before(trace).zone(p.product_id@, p.to_zone_id@),
            p.quantity as int,
            0,
        ),
        forall|q: Seq<char>, z: Seq<char>|
            (q, z) != (p.product_id@, p.to_zone_id@) ==> #[trigger] laws::after(trace).zone(q, z)
                == laws::before(trace).zone(q, z),
        laws::after(trace).products == laws::before(trace).products,
{
    laws::begun_without_order(event, at, EventPayload::ProductMoved(p), trace);
    let t = laws::perform_move(laws::before(trace), event, p);
}

proof fn items_are_recorded(s: Store, event: WarehouseEvent, items: Seq<OrderItem>, k: int)
    requires
        0 <= k <= items.len(),
    ensures
        ({
            let t = s.perform_all(event, handlers::items_steps(items, k));
            &&& t.processed == if k > 0 {
                s.processed.insert(event.event_id@)
            } else {
                s.processed
            }
            &&& t.suppliers == s.suppliers
            &&& forall|row: HistoryRow| #[trigger]
                t.history.contains(row) <==> s.history.contains(row) || exists|i: int|
                    0 <= i < k && row == entry_of(
                        event,
                        (#[trigger] items[i]).product_id@,
                        items[i].zone_id@,
                    )
        }),
    decreases k,
{
    if k > 0 {
        items_are_recorded(s, event, items, k - 1);
        let m = s.perform_all(event, handlers::items_steps(items, k - 1));
        let item = items[k - 1];
        let delta = Delta { available: (-item.quantity) as i128, reserved: item.quantity as i128 };
        let touch = Step::Touch { product_id: item.product_id, zone_id: item.zone_id };
        let write = Step::WriteDelta {
            product_id: item.product_id,
            zone_id: item.zone_id,
            delta,
        };
        let u = m.perform(event, write);
        laws::perform_in_parts(
            s,
            event,
            handlers::items_steps(items, k - 1),
            handlers::item_steps(item),
        );
        laws::perform_in_parts(
            m,
            event,
            handlers::delta_steps(item.product_id, item.zone_id, delta),
            seq![touch],
        );
        laws::perform_delta(m, event, item.product_id, item.zone_id, delta);
        laws::perform_one(u, event, touch);
        let t = u.perform(event, touch);
        assert(t == s.perform_all(event, handlers::items_steps(items, k)));
        assert(t.processed =~= s.processed.insert(event.event_id@));
        assert forall|row: HistoryRow| #[trigger]
            t.history.contains(row) <==> s.history.contains(row) || exists|i: int|
                0 <= i < k && row == entry_of(
                    event,
                    (#[trigger] items[i]).product_id@,
                    items[i].zone_id@,
                ) by {
            assert(m.history.contains(row) <==> s.history.contains(row) || exists|i: int|
                0 <= i < k - 1 && row == entry_of(
                    event,
                    (#[trigger] items[i]).product_id@,
                    items[i].zone_id@,
                ));
            if row == entry_of(event, item.product_id@, item.zone_id@) {
                assert(items[k - 1] == item);
            }
        }
    } else {
        assert(handlers::items_steps(items, 0) =~= Seq::empty());
    }
}

/// An order that is placed is among the events that have been processed, and has one entry
/// in the history for each of its items.
pub proof fn placed_order_is_recorded(
    event: WarehouseEvent,
    at: Position,
    p: OrderCreatedPayload,
    trace: Seq<(RunView, Store)>,
)
    requires
        laws::processed_with(event, at, EventPayload::OrderCreated(p), trace),
        laws::outcome(trace) is Applied,
    ensures
        laws::after(trace).processed == laws::before(trace).processed.insert(event.event_id@),
        laws::after(trace).suppliers == laws::before(trace).suppliers,
        forall|row: HistoryRow| #[trigger]
            laws::after(trace).history.contains(row) <==> laws::before(trace).history.contains(row)
                || exists|i: int|
                0 <= i < p.items@.len() && row == entry_of(
                    event,
                    (#[trigger] p.items@[i]).product_id@,
                    p.items@[i].zone_id@,
                ),
{
    laws::begun_without_order(event, at, EventPayload::OrderCreated(p), trace);
    let s = laws::before(trace);
    let items = p.items@;
    let n = items.len() as int;
    let checks = items.map_values(|item: OrderItem| handlers::item_check(item));
    let save = Step::SaveOrder {
        order_id: p.order_id,
        status: handlers::OrderStatus::Created,
        lines: handlers::OrderLines::Fresh(p.items),
    };
    let writes = handlers::items_steps(items, n);
    assert forall|i: int| 0 <= i < checks.len() implies !handlers::is_write(#[trigger] checks[i]) by {
        assert(checks[i] == handlers::item_check(items[i]));
    }
    laws::perform_in_parts(s, event, checks + seq![save] + writes, seq![Step::MarkProcessed]);
    laws::perform_in_parts(s, event, checks + seq![save], writes);
    laws::perform_in_parts(s, event, checks, seq![save]);
    processing::idle(s, event, checks);
    laws::perform_one(s, event, save);
    let m = s.perform(event, save);
    items_are_recorded(m, event, items, n);
    let u = m.perform_all(event, writes);
    laws::perform_one(u, event, Step::MarkProcessed);
    let t = u.perform(event, Step::MarkProcessed);
    assert(t == laws::after(trace));
    assert(t.processed =~= s.processed.insert(event.event_id@));
    assert forall|row: HistoryRow| #[trigger]
        t.history.contains(row) <==> s.history.contains(row) || exists|i: int|
            0 <= i < n && row == entry_of(
                event,
                (#[trigger] items[i]).product_id@,
                items[i].zone_id@,
            ) by {
        assert(t.history.contains(row) <==> u.history.contains(row));
    }
}

/// What a zone has of a product once the first `k` items of an order have been sent: each
/// takes what it asks for out of what is reserved, or nothing where less is.
pub open spec fn left_after(
    amount: Amount,
    items: Seq<OrderItem>,
    k: int,
    product_id: Seq<char>,
    zone_id: Seq<char>,
) -> Amount
    decreases k,
{
    if k <= 0 {
        amount
    } else {
        let left = left_after(amount, items, k - 1, product_id, zone_id);
        let item = items[k - 1];
        if item.product_id@ == product_id && item.zone_id@ == zone_id && item.quantity
            <= left.reserved {
            Amount { available: left.available, reserved: left.reserved - item.quantity }
        } else {
            left
        }
    }
}

proof fn items_are_settled(s: Store, event: WarehouseEvent, items: Seq<OrderItem>, k: int)
    requires
        0 <= k <= items.len(),
    ensures
        ({
            let t = s.perform_all(event, handlers::settle_items(items, k));
            &&& t.orders == s.orders
            &&& t.entities == s.entities
            &&& t.suppliers == s.suppliers
            &&& t.processed.insert(event.event_id@) == s.processed.insert(event.event_id@)
            &&& forall|p: Seq<char>, z: Seq<char>| #[trigger]
                t.zone(p, z) == left_after(s.zone(p, z), items, k, p, z)
            &&& forall|p: Seq<char>|
                (#[trigger] t.product(p)).available == s.product(p).available
        }),
    decreases k,
{
    if k > 0 {
        items_are_settled(s, event, items, k - 1);
        let m = s.perform_all(event, handlers::settle_items(items, k - 1));
        let item = items[k - 1];
        let steps = handlers::settle_item(item);
        laws::perform_in_parts(s, event, handlers::settle_items(items, k - 1), steps);
        assert(steps.drop_last() =~= seq![steps[0], steps[1], steps[2]]);
        processing::idle(m, event, steps.drop_last());
        let t = m.perform(event, steps[3]);
        assert(m.perform_all(event, steps) == t);
        assert(t.processed.insert(event.event_id@) =~= m.processed.insert(event.event_id@));
        assert forall|p: Seq<char>, z: Seq<char>| #[trigger]
            t.zone(p, z) == left_after(s.zone(p, z), items, k, p, z) by {
            assert(m.zone(p, z) == left_after(s.zone(p, z), items, k - 1, p, z));
        }
        assert forall|p: Seq<char>| (#[trigger] t.product(p)).available == s.product(p).available by {
            assert(m.product(p).available == s.product(p).available);
        }
    } else {
        assert(handlers::settle_items(items, 0) =~= Seq::empty());
        assert forall|p: Seq<char>, z: Seq<char>| #[trigger]
            s.zone(p, z) == left_after(s.zone(p, z), items, 0, p, z) by {}
    }
}

/// An order that is completed takes the items that were loaded for it out of what is
/// reserved, one after another; an item that asks for more than is reserved is passed over.
/// Nothing changes in what is available. The order is saved as completed, under its id, with
/// the text of its items as it was.
pub proof fn completed_order_settles_its_items(
    event: WarehouseEvent,
    at: Position,
    p: payload::OrderCompletedPayload,
    items_json: String,
    items: Seq<OrderItem>,
    trace: Seq<(RunView, Store)>,
)
    requires
        laws::processed_with(event, at, EventPayload::OrderCompleted(p), trace),
        trace.last().0.steps == processing::completing(p.order_id, items_json, items),
    ensures
        ({
            let (a, b) = (laws::before(trace), laws::after(trace));
            &&& laws::outcome(trace) is Applied
            &&& a.orders.contains_key(p.order_id@)
            &&& items_json@ == a.orders[p.order_id@].items_json
            &&& b.orders == a.orders.insert(
                p.order_id@,
                laws::settled(event, a.orders[p.order_id@]),
            )
            &&& b.processed == a.processed.insert(event.event_id@)
            &&& b.entities == a.entities
            &&& b.suppliers == a.suppliers
            &&& forall|q: Seq<char>, z: Seq<char>| #[trigger]
                b.zone(q, z) == left_after(a.zone(q, z), items, items.len() as int, q, z)
            &&& forall|q: Seq<char>|
                (#[trigger] b.product(q)).available == a.product(q).available
        }),
{
    laws::loaded_text_is_saved_text(event, at, p, items_json, items, trace);
    let n = items.len() as int;
    let s = laws::before(trace);
    let steps = trace.last().0.steps;
    let load = seq![Step::LoadOrder { order_id: p.order_id }];
    let save = seq![
        Step::SaveOrder {
            order_id: p.order_id,
            status: handlers::OrderStatus::Completed,
            lines: handlers::OrderLines::Stored(items_json),
        },
    ];
    let settle = handlers::settle_items(items, n);
    assert(steps =~= load + save + settle + seq![Step::MarkProcessed]);
    laws::perform_in_parts(s, event, load + save + settle, seq![Step::MarkProcessed]);
    laws::perform_in_parts(s, event, load + save, settle);
    laws::perform_in_parts(s, event, load, save);
    processing::idle(s, event, load);
    laws::perform_one(s, event, save[0]);
    let m = s.perform(event, save[0]);
    items_are_settled(m, event, items, n);
    let u = m.perform_all(event, settle);
    laws::perform_one(u, event, Step::MarkProcessed);
    let t = laws::after(trace);
    assert(t == u.perform(event, Step::MarkProcessed));
    assert forall|q: Seq<char>, z: Seq<char>| #[trigger]
        t.zone(q, z) == left_after(s.zone(q, z), items, n, q, z) by {
        assert(t.zone(q, z) == u.zone(q, z));
        assert(m.zone(q, z) == s.zone(q, z));
    }
    assert forall|q: Seq<char>| (#[trigger] t.product(q)).available == s.product(q).available by {
        assert(t.product(q) == u.product(q));
        assert(m.product(q) == s.product(q));
    }
}

/// An event whose payload cannot be read fails, with what is wrong with it, and changes
/// nothing, unless it has been processed before.
pub proof fn unreadable_payload_fails(
    event: WarehouseEvent,
    at: Position,
    trace: Seq<(RunView, Store)>,
)
    requires
        store::processing(event, at, trace),
        trace.last().0.stage is Done,
        !laws::before(trace).processed.contains(event.event_id@),
    ensures
        match payload::shape_of(event.event_type@) {
            None => {
                &&& laws::outcome(trace) is Failed
                &&& laws::outcome(trace)->Failed_0.text() == "Unknown event type: "@
                    + event.event_type@
                &&& laws::after(trace) == laws::before(trace)
            },
            Some(shape) => payload::struct_problem(shape, event.payload@) matches Some(problem)
                ==> {
                &&& laws::outcome(trace) is Failed
                &&& laws::outcome(trace)->Failed_0.text() == problem
                &&& laws::after(trace) == laws::before(trace)
            },
        },
{
    laws::result_of_processing(event, at, trace);
    reveal(store::processing);
}

} // verus!

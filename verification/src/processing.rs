//! What comes of the processing of an event: the proofs.
use crate::cassandra;
use crate::cassandra::{BoundView, InventoryRecord, Position};
use crate::events::WarehouseEvent;
use crate::handlers;
use crate::handlers::{HandlerError, Step};
use crate::payload;
use crate::payload::{EventPayload, OrderItem, PayloadError};
use crate::run;
use crate::run::{Outcome, ReplyView, RequestView, RunView, Stage};
use crate::store;
use crate::store::Store;
use crate::time::Timestamp;
use vstd::prelude::*;

verus! {

proof fn write_five(
    s: Store,
    a: BoundView,
    b: BoundView,
    c: BoundView,
    d: BoundView,
    e: BoundView,
)
    ensures
        s.write_all(seq![a, b, c, d, e]) == s.write(a).write(b).write(c).write(d).write(e),
{
    reveal_with_fuel(Store::write_all, 6);
    assert(seq![a, b, c, d, e].drop_last() =~= seq![a, b, c, d]);
    assert(seq![a, b, c, d].drop_last() =~= seq![a, b, c]);
    assert(seq![a, b, c].drop_last() =~= seq![a, b]);
    assert(seq![a, b].drop_last() =~= seq![a]);
    assert(seq![a].drop_last() =~= Seq::empty());
}

proof fn write_six(
    s: Store,
    a: BoundView,
    b: BoundView,
    c: BoundView,
    d: BoundView,
    e: BoundView,
    f: BoundView,
)
    ensures
        s.write_all(seq![a, b, c, d, e, f]) == s.write(a).write(b).write(c).write(d).write(e).write(
            f,
        ),
{
    assert(seq![a, b, c, d, e, f].drop_last() =~= seq![a, b, c, d, e]);
    write_five(s, a, b, c, d, e);
}

/// Whether what the next writes go by is what the database holds.
#[verifier::opaque]
pub open spec fn fresh(
    steps: Seq<Step>,
    next: int,
    zone: InventoryRecord,
    other: InventoryRecord,
    s: Store,
) -> bool {
    forall|j: int|
        next <= j <= next + 2 && j < steps.len() ==> fresh_for(
            #[trigger] steps[j],
            j - next,
            zone,
            other,
            s,
        )
}

/// Whether what a write that many steps ahead goes by is what the database holds.
pub open spec fn fresh_for(
    step: Step,
    ahead: int,
    zone: InventoryRecord,
    other: InventoryRecord,
    s: Store,
) -> bool {
    match step {
        Step::WriteDelta { product_id, zone_id, .. } | Step::WriteCount { product_id, zone_id, .. } => {
            &&& ahead <= 1 ==> store::amount(zone) == s.zone(product_id@, zone_id@)
            &&& ahead == 0 ==> store::amount(other) == s.product(product_id@)
        },
        Step::WriteMove { product_id, from_zone, to_zone, .. } => {
            &&& ahead <= 1 ==> store::amount(zone) == s.zone(product_id@, from_zone@)
            &&& ahead == 0 ==> store::amount(other) == s.zone(product_id@, to_zone@)
        },
        Step::WriteSettled { product_id, zone_id, quantity } => {
            &&& ahead <= 2 ==> s.zone(product_id@, zone_id@).reserved >= quantity
            &&& ahead <= 1 ==> store::amount(zone) == s.zone(product_id@, zone_id@)
            &&& ahead == 0 ==> store::amount(other) == s.product(product_id@)
        },
        _ => true,
    }
}

/// What the statements of a write do is what the write means.
proof fn write_is_meant(run: RunView, s: Store, now: Timestamp)
    requires
        run.stage is Working,
        0 <= run.next < run.steps.len(),
        handlers::is_write(run.steps[run.next]),
        fresh_for(run.steps[run.next], 0, run.zone, run.other, s),
    ensures
        match run.expected(now) {
            RequestView::Batch(batch) => s.write_all(batch) == s.perform(
                run.event,
                run.steps[run.next],
            ),
            RequestView::Execute(statement) => s.write(statement) == s.perform(
                run.event,
                run.steps[run.next],
            ),
            _ => false,
        },
{
    let step = run.steps[run.next];
    let done = s.perform(run.event, step);
    match step {
        Step::WriteDelta { .. } | Step::WriteCount { .. } | Step::WriteSettled { .. } => {
            let b = run.expected(now)->Batch_0;
            assert(b =~= seq![b[0], b[1], b[2], b[3], b[4]]);
            write_five(s, b[0], b[1], b[2], b[3], b[4]);
            assert(s.write_all(b) =~= done);
        },
        Step::WriteMove { .. } => {
            let b = run.expected(now)->Batch_0;
            assert(b =~= seq![b[0], b[1], b[2], b[3], b[4], b[5]]);
            write_six(s, b[0], b[1], b[2], b[3], b[4], b[5]);
            assert(s.write_all(b) =~= done);
        },
        _ => {
            let w = run.expected(now)->Execute_0;
            assert(s.write(w) =~= done);
        },
    }
}

/// The steps that reserve order items stand in fours.
pub proof fn items_steps_at(items: Seq<OrderItem>, k: int, i: int)
    requires
        0 <= k <= items.len(),
    ensures
        handlers::items_steps(items, k).len() == 4 * k,
        0 <= i < 4 * k ==> handlers::items_steps(items, k)[i] == handlers::item_steps(
            items[i / 4],
        )[i % 4],
    decreases k,
{
    if k > 0 {
        items_steps_at(items, k - 1, i);
        assert(handlers::item_steps(items[k - 1]).len() == 4);
        if 4 * (k - 1) <= i < 4 * k {
            assert(i / 4 == k - 1);
        }
    }
}

/// The steps that settle order items stand in fours.
proof fn settle_items_at(items: Seq<OrderItem>, k: int, i: int)
    requires
        0 <= k <= items.len(),
    ensures
        handlers::settle_items(items, k).len() == 4 * k,
        0 <= i < 4 * k ==> handlers::settle_items(items, k)[i] == handlers::settle_item(
            items[i / 4],
        )[i % 4],
    decreases k,
{
    if k > 0 {
        settle_items_at(items, k - 1, i);
        if 4 * (k - 1) <= i < 4 * k {
            assert(i / 4 == k - 1);
        }
    }
}

/// Whether steps read an order.
pub open spec fn loads(steps: Seq<Step>) -> bool {
    exists|i: int| 0 <= i < steps.len() && (#[trigger] steps[i]) is LoadOrder
}

/// The steps of an order that was placed are in order.
proof fn created_is_orderly(p: payload::OrderCreatedPayload)
    requires
        handlers::created(p) is Ok,
    ensures
        store::orderly(handlers::created(p)->Ok_0),
        !loads(handlers::created(p)->Ok_0),
{
    reveal(store::orderly);
    let items = p.items@;
    let n = items.len() as int;
    let steps = handlers::created(p)->Ok_0;
    items_steps_at(items, n, 0);
    let writes = handlers::items_steps(items, n);
    assert(steps.len() == n + 1 + 4 * n + 1);
    assert forall|j: int| 0 <= j < n implies #[trigger] steps[j] == handlers::item_check(
        items[j],
    ) by {}
    assert(steps[n] is SaveOrder);
    assert(steps[5 * n + 1] == Step::MarkProcessed);
    assert forall|j: int| n < j < 5 * n + 1 implies #[trigger] steps[j] == handlers::item_steps(
        items[(j - n - 1) / 4],
    )[(j - n - 1) % 4] by {
        items_steps_at(items, n, j - n - 1);
    }
    assert forall|j: int| 0 <= j < steps.len() implies {
        &&& store::is_check(#[trigger] steps[j]) <==> j < n
        &&& handlers::is_write(steps[j]) ==> j >= n
        &&& !(steps[j] is LoadOrder)
        &&& !(steps[j] is CheckReserved)
    } by {
        if j > n && j < 5 * n + 1 {
            let m = (j - n - 1) % 4;
            assert(m == 0 || m == 1 || m == 2 || m == 3);
        }
    }
    assert forall|j: int| 0 <= j < steps.len() implies store::read_before(
        steps,
        #[trigger] steps[j],
        j,
    ) by {
        if j > n && j < 5 * n + 1 {
            let i = j - n - 1;
            let m = i % 4;
            assert(m == 0 || m == 1 || m == 2 || m == 3);
            if m == 2 {
                assert((i - 1) / 4 == i / 4 && (i - 2) / 4 == i / 4);
                assert((i - 1) % 4 == 1 && (i - 2) % 4 == 0);
                assert(steps[j - 1] == handlers::item_steps(items[i / 4])[1]);
                assert(steps[j - 2] == handlers::item_steps(items[i / 4])[0]);
            }
        }
    }
}

/// The steps of an order that is completed: the first reads it.
pub open spec fn completing(
    order_id: String,
    items_json: String,
    items: Seq<OrderItem>,
) -> Seq<Step> {
    seq![Step::LoadOrder { order_id }] + handlers::completion(order_id, items_json, items)
}

/// The step at that place among those that complete an order.
pub proof fn completing_at(order_id: String, items_json: String, items: Seq<OrderItem>, j: int)
    requires
        0 <= j < 4 * items.len() + 3,
    ensures
        completing(order_id, items_json, items).len() == 4 * items.len() + 3,
        ({
            let step = completing(order_id, items_json, items)[j];
            if j == 0 {
                step is LoadOrder
            } else if j == 1 {
                step is SaveOrder
            } else if j == 4 * items.len() + 2 {
                step == Step::MarkProcessed
            } else {
                let item = items[(j - 2) / 4];
                let m = (j - 2) % 4;
                &&& 0 <= (j - 2) / 4 < items.len()
                &&& m == 0 ==> step == Step::CheckReserved {
                    product_id: item.product_id,
                    zone_id: item.zone_id,
                    quantity: item.quantity,
                }
                &&& m == 1 ==> step == Step::ReadZone {
                    product_id: item.product_id,
                    zone_id: item.zone_id,
                }
                &&& m == 2 ==> step == Step::ReadProduct { product_id: item.product_id }
                &&& m == 3 ==> step == Step::WriteSettled {
                    product_id: item.product_id,
                    zone_id: item.zone_id,
                    quantity: item.quantity,
                }
            }
        }),
{
    settle_items_at(items, items.len() as int, j - 2);
}

/// The steps that complete an order are in order.
proof fn completing_is_orderly(order_id: String, items_json: String, items: Seq<OrderItem>)
    ensures
        store::orderly(completing(order_id, items_json, items)),
{
    reveal(store::orderly);
    let n = items.len() as int;
    let steps = completing(order_id, items_json, items);
    completing_at(order_id, items_json, items, 0);
    assert forall|i: int, j: int|
        0 <= i < j < steps.len() && handlers::is_write(
            #[trigger] steps[i],
        ) implies !store::is_check(#[trigger] steps[j]) by {
        completing_at(order_id, items_json, items, j);
        let m = (j - 2) % 4;
        assert(m == 0 || m == 1 || m == 2 || m == 3);
    }
    assert forall|j: int| 0 <= j < steps.len() implies store::read_before(
        steps,
        #[trigger] steps[j],
        j,
    ) by {
        completing_at(order_id, items_json, items, j);
        let m = (j - 2) % 4;
        assert(m == 0 || m == 1 || m == 2 || m == 3);
        if 2 <= j < 4 * n + 2 && m == 3 {
            completing_at(order_id, items_json, items, j - 1);
            completing_at(order_id, items_json, items, j - 2);
            completing_at(order_id, items_json, items, j - 3);
        }
    }
    assert forall|j: int| 0 <= j < steps.len() && (#[trigger] steps[j]) is CheckReserved implies {
        &&& j + 4 < steps.len()
        &&& steps[j + 1] is ReadZone
        &&& steps[j + 2] is ReadProduct
        &&& steps[j + 3] is WriteSettled
    } by {
        completing_at(order_id, items_json, items, j);
        let m = (j - 2) % 4;
        assert(m == 0 || m == 1 || m == 2 || m == 3);
        completing_at(order_id, items_json, items, j + 1);
        completing_at(order_id, items_json, items, j + 2);
        completing_at(order_id, items_json, items, j + 3);
    }
}

/// The steps that a payload leads to are in order, and read an order only where that is
/// all they do.
proof fn steps_are_orderly(p: EventPayload)
    requires
        handlers::steps_for(p) is Ok,
    ensures
        store::orderly(handlers::steps_for(p)->Ok_0),
        match p {
            EventPayload::OrderCompleted(c) => handlers::steps_for(p)->Ok_0 == seq![
                Step::LoadOrder { order_id: c.order_id },
            ],
            _ => !loads(handlers::steps_for(p)->Ok_0),
        },
{
    reveal(store::orderly);
    match p {
        EventPayload::OrderCreated(c) => {
            created_is_orderly(c);
        },
        _ => {},
    }
}

/// Whether no check before the `k`th step ends the processing.
pub open spec fn passed(event: WarehouseEvent, s0: Store, steps: Seq<Step>, k: int) -> bool {
    forall|j: int|
        0 <= j < k && j < steps.len() ==> s0.objects(event, #[trigger] steps[j]) is None
}

/// Whether the steps begin with the reading of an order whose items are that text.
pub open spec fn loaded(steps: Seq<Step>, s0: Store, items_json: String) -> bool {
    &&& steps.len() == 1
    &&& steps[0] is LoadOrder
    &&& s0.orders.contains_key(steps[0]->LoadOrder_order_id@)
    &&& s0.orders[steps[0]->LoadOrder_order_id@].items_json == items_json@
}

/// Whether those are the steps that go with what was begun.
pub open spec fn follows(run0: RunView, s0: Store, steps: Seq<Step>, next: int) -> bool {
    ||| steps == run0.steps
    ||| next >= 1 && exists|items_json: String, items: Seq<OrderItem>|
        #![trigger completing(run0.steps[0]->LoadOrder_order_id, items_json, items)]
        loaded(run0.steps, s0, items_json) && steps == completing(
            run0.steps[0]->LoadOrder_order_id,
            items_json,
            items,
        )
}

/// What may come of the completion of an order: its items are settled as its row reads,
/// unless there is no such row, or it cannot be read.
pub open spec fn order_ended(
    event: WarehouseEvent,
    order_id: String,
    s0: Store,
    outcome: Outcome,
    steps: Seq<Step>,
    s: Store,
) -> bool {
    if !s0.orders.contains_key(order_id@) {
        outcome == Outcome::Failed(HandlerError::OrderNotFound(order_id)) && s == s0
    } else {
        ||| s == s0 && outcome is Failed && outcome->Failed_0 is Storage
        ||| outcome is Applied && s == s0.perform_all(event, steps) && exists|
            items_json: String,
            items: Seq<OrderItem>,
        |
            #![trigger completing(order_id, items_json, items)]
            items_json@ == s0.orders[order_id@].items_json && steps == completing(
                order_id,
                items_json,
                items,
            )
    }
}

/// What comes of the processing of an event that had not been processed before, with
/// those steps at the end.
pub open spec fn ended(
    run0: RunView,
    s0: Store,
    outcome: Outcome,
    steps: Seq<Step>,
    s: Store,
) -> bool {
    match run0.refusal {
        Some(e) => outcome == Outcome::Failed(e) && s == s0,
        None => if loads(run0.steps) {
            order_ended(run0.event, run0.steps[0]->LoadOrder_order_id, s0, outcome, steps, s)
        } else {
            &&& outcome == s0.decides(run0.event, run0.steps, 0)
            &&& s == if outcome is Applied {
                s0.perform_all(run0.event, run0.steps)
            } else {
                s0
            }
        },
    }
}

/// Whether what a shortage says is there is what the database held.
pub open spec fn tells_stock(outcome: Outcome, s0: Store) -> bool {
    match outcome {
        Outcome::Failed(HandlerError::Insufficient { purpose, product_id, zone_id, have, .. }) => {
            let stock = s0.zone(product_id@, zone_id@);
            have == if purpose == handlers::Purpose::Release {
                stock.reserved
            } else {
                stock.available
            }
        },
        _ => true,
    }
}

/// What holds in every state that the processing goes through.
pub open spec fn reached(run0: RunView, s0: Store, run: RunView, s: Store) -> bool {
    &&& run.wf()
    &&& run.event == run0.event
    &&& match run.stage {
        Stage::Checking => run == run0 && s == s0,
        Stage::Working => {
            &&& !s0.processed.contains(run0.event.event_id@)
            &&& run0.refusal is None
            &&& store::orderly(run.steps)
            &&& follows(run0, s0, run.steps, run.next)
            &&& passed(run.event, s0, run.steps, run.next)
            &&& s == s0.perform_all(run.event, run.steps.take(run.next))
            &&& fresh(run.steps, run.next, run.zone, run.other, s)
        },
        Stage::Done(outcome) => {
            &&& outcome is Applied || run.steps == run0.steps
            &&& tells_stock(outcome, s0)
            &&& if s0.processed.contains(run0.event.event_id@) {
                outcome is Duplicate && s == s0
            } else {
                ended(run0, s0, outcome, run.steps, s)
            }
        },
    }
}

/// Whether what was begun is orderly, and reads an order only where that is all.
pub open spec fn well_begun(run0: RunView) -> bool {
    &&& run0.stage is Checking
    &&& run0.next == 0
    &&& run0.refusal is Some ==> !(run0.refusal->0 is Insufficient)
    &&& store::orderly(run0.steps)
    &&& loads(run0.steps) ==> run0.steps.len() == 1 && run0.steps[0] is LoadOrder
}

proof fn start_is_well_begun(event: WarehouseEvent, at: Position, run0: RunView)
    requires
        run::starts(event, at, run0),
    ensures
        well_begun(run0),
        run0.event == event,
        run0.wf(),
{
    reveal(store::orderly);
    let p = choose|p: Result<EventPayload, PayloadError>| #[trigger]
        payload::payload_read(event.event_type@, event.payload@, p) && run0 == run::begun(
            event,
            at,
            p,
        );
    match p {
        Ok(q) => {
            if handlers::steps_for(q) is Ok {
                steps_are_orderly(q);
            }
        },
        Err(_) => {},
    }
}

/// Steps that do not write change nothing.
pub proof fn idle(s0: Store, event: WarehouseEvent, steps: Seq<Step>)
    requires
        forall|i: int| 0 <= i < steps.len() ==> !handlers::is_write(#[trigger] steps[i]),
    ensures
        s0.perform_all(event, steps) == s0,
    decreases steps.len(),
{
    if steps.len() > 0 {
        assert forall|i: int| 0 <= i < steps.len() - 1 implies !handlers::is_write(
            #[trigger] steps.drop_last()[i],
        ) by {
            assert(steps.drop_last()[i] == steps[i]);
        }
        idle(s0, event, steps.drop_last());
        assert(!handlers::is_write(steps[steps.len() - 1]));
    }
}

/// Up to a check nothing is written.
proof fn nothing_written(s0: Store, event: WarehouseEvent, steps: Seq<Step>, k: int)
    requires
        store::orderly(steps),
        0 <= k < steps.len(),
        store::is_check(steps[k]),
    ensures
        s0.perform_all(event, steps.take(k)) == s0,
{
    reveal(store::orderly);
    assert forall|i: int| 0 <= i < k implies !handlers::is_write(#[trigger] steps.take(k)[i]) by {
        assert(steps.take(k)[i] == steps[i]);
    }
    idle(s0, event, steps.take(k));
}

/// What the checks say does not depend on those that raise no objection.
proof fn decides_later(s0: Store, event: WarehouseEvent, steps: Seq<Step>, from: int, k: int)
    requires
        passed(event, s0, steps, k),
        0 <= from <= k <= steps.len(),
    ensures
        s0.decides(event, steps, from) == s0.decides(event, steps, k),
    decreases k - from,
{
    if from < k {
        assert(s0.objects(event, steps[from]) is None);
        decides_later(s0, event, steps, from + 1, k);
    }
}

/// No check but the reading of the order is among the steps that complete it.
proof fn completing_has_no_checks(
    order_id: String,
    items_json: String,
    items: Seq<OrderItem>,
    j: int,
)
    requires
        1 <= j < completing(order_id, items_json, items).len(),
    ensures
        !store::is_check(completing(order_id, items_json, items)[j]),
{
    completing_at(order_id, items_json, items, 0);
    completing_at(order_id, items_json, items, j);
    let m = (j - 2) % 4;
    assert(m == 0 || m == 1 || m == 2 || m == 3);
}

/// The end of the processing at a check that objects.
proof fn objection_ends(
    run0: RunView,
    s0: Store,
    steps: Seq<Step>,
    k: int,
    outcome: Outcome,
    s: Store,
)
    requires
        well_begun(run0),
        run0.refusal is None,
        !s0.processed.contains(run0.event.event_id@),
        store::orderly(steps),
        follows(run0, s0, steps, k),
        passed(run0.event, s0, steps, k),
        0 <= k < steps.len(),
        s0.objects(run0.event, steps[k]) == Some(outcome),
        store::is_check(steps[k]),
        !(outcome is Applied),
        s == s0,
    ensures
        ended(run0, s0, outcome, steps, s),
        steps == run0.steps,
{
    if steps != run0.steps {
        let (items_json, items) = choose|items_json: String, items: Seq<OrderItem>|
            #![trigger completing(run0.steps[0]->LoadOrder_order_id, items_json, items)]
            loaded(run0.steps, s0, items_json) && steps == completing(
                run0.steps[0]->LoadOrder_order_id,
                items_json,
                items,
            );
        completing_has_no_checks(run0.steps[0]->LoadOrder_order_id, items_json, items, k);
    } else {
        decides_later(s0, run0.event, steps, 0, k);
        if loads(run0.steps) {
            assert(steps[k] is LoadOrder);
        }
    }
}

/// Arriving past the last step.
proof fn arrive_at_end(run0: RunView, s0: Store, steps: Seq<Step>, s: Store)
    requires
        well_begun(run0),
        run0.refusal is None,
        follows(run0, s0, steps, steps.len() as int),
        steps != run0.steps || !loads(run0.steps),
        passed(run0.event, s0, steps, steps.len() as int),
        s == s0.perform_all(run0.event, steps),
    ensures
        ended(run0, s0, Outcome::Applied, steps, s),
{
    if steps == run0.steps {
        decides_later(s0, run0.event, steps, 0, steps.len() as int);
    } else {
        let (items_json, items) = choose|items_json: String, items: Seq<OrderItem>|
            #![trigger completing(run0.steps[0]->LoadOrder_order_id, items_json, items)]
            loaded(run0.steps, s0, items_json) && steps == completing(
                run0.steps[0]->LoadOrder_order_id,
                items_json,
                items,
            );
        assert(run0.steps[0] is LoadOrder);
        assert(loads(run0.steps));
    }
}

/// Arriving at a step.
proof fn arrive(run0: RunView, s0: Store, run: RunView, s: Store, next: int)
    requires
        well_begun(run0),
        run.event == run0.event,
        !s0.processed.contains(run0.event.event_id@),
        run0.refusal is None,
        store::orderly(run.steps),
        0 <= next <= run.steps.len(),
        follows(run0, s0, run.steps, next),
        next == 0 && run.steps.len() > 0 || run.steps != run0.steps || !loads(run0.steps),
        passed(run.event, s0, run.steps, next),
        s == s0.perform_all(run.event, run.steps.take(next)),
        fresh(run.steps, next, run.zone, run.other, s),
    ensures
        reached(run0, s0, run.at_step(next), s),
{
    let steps = run.steps;
    if next >= steps.len() {
        assert(steps.take(next) =~= steps);
        arrive_at_end(run0, s0, steps, s);
    } else {
        match steps[next] {
            Step::RefuseItem { quantity } => {
                nothing_written(s0, run.event, steps, next);
                objection_ends(
                    run0,
                    s0,
                    steps,
                    next,
                    Outcome::Failed(HandlerError::ItemQuantityNotPositive(quantity)),
                    s,
                );
            },
            _ => {},
        }
    }
}

/// Whether a write goes by what that step reads.
pub open spec fn is_read(step: Step) -> bool {
    step is ReadZone || step is ReadProduct || step is ReadTarget || step is CheckReserved
}

/// Where no read comes before, no write goes by one.
proof fn fresh_unread(
    steps: Seq<Step>,
    next: int,
    zone: InventoryRecord,
    other: InventoryRecord,
    s: Store,
)
    requires
        store::orderly(steps),
        0 <= next <= steps.len(),
        next == 0 || !is_read(steps[next - 1]),
    ensures
        fresh(steps, next, zone, other, s),
{
    reveal(store::orderly);
    reveal(fresh);
    assert forall|j: int| next <= j <= next + 2 && j < steps.len() implies fresh_for(
        #[trigger] steps[j],
        j - next,
        zone,
        other,
        s,
    ) by {
        assert(store::read_before(steps, steps[j], j));
    }
}

/// What a step read is what the writes after it go by.
proof fn stays_fresh(
    steps: Seq<Step>,
    next: int,
    zone: InventoryRecord,
    other: InventoryRecord,
    s: Store,
    zone2: InventoryRecord,
    other2: InventoryRecord,
)
    requires
        store::orderly(steps),
        0 <= next < steps.len(),
        fresh(steps, next, zone, other, s),
        match steps[next] {
            Step::ReadZone { product_id, zone_id } => {
                &&& store::amount(zone2) == s.zone(product_id@, zone_id@)
                &&& other2 == other
            },
            Step::ReadProduct { product_id } => {
                &&& zone2 == zone
                &&& store::amount(other2) == s.product(product_id@)
            },
            Step::ReadTarget { product_id, zone_id } => {
                &&& zone2 == zone
                &&& store::amount(other2) == s.zone(product_id@, zone_id@)
            },
            Step::CheckReserved { product_id, zone_id, quantity } => {
                &&& zone2 == zone
                &&& other2 == other
                &&& s.zone(product_id@, zone_id@).reserved >= quantity
            },
            _ => true,
        },
    ensures
        fresh(steps, next + 1, zone2, other2, s),
{
    reveal(store::orderly);
    reveal(fresh);
    assert forall|j: int| next + 1 <= j <= next + 3 && j < steps.len() implies fresh_for(
        #[trigger] steps[j],
        j - next - 1,
        zone2,
        other2,
        s,
    ) by {
        assert(store::read_before(steps, steps[j], j));
        if j <= next + 2 {
            assert(fresh_for(steps[j], j - next, zone, other, s));
        }
    }
}

proof fn one_more(s0: Store, event: WarehouseEvent, steps: Seq<Step>, next: int)
    requires
        0 <= next < steps.len(),
    ensures
        s0.perform_all(event, steps.take(next + 1)) == s0.perform_all(
            event,
            steps.take(next),
        ).perform(event, steps[next]),
{
    assert(steps.take(next + 1).drop_last() =~= steps.take(next));
}

/// The steps begun with an order to read are no others.
proof fn load_is_first(run0: RunView, s0: Store, steps: Seq<Step>, next: int)
    requires
        well_begun(run0),
        follows(run0, s0, steps, next),
        0 <= next < steps.len(),
        steps[next] is LoadOrder,
    ensures
        next == 0,
        steps == run0.steps,
        steps =~= seq![steps[0]],
{
    if steps != run0.steps {
        let (items_json, items) = choose|items_json: String, items: Seq<OrderItem>|
            #![trigger completing(run0.steps[0]->LoadOrder_order_id, items_json, items)]
            loaded(run0.steps, s0, items_json) && steps == completing(
                run0.steps[0]->LoadOrder_order_id,
                items_json,
                items,
            );
        completing_has_no_checks(run0.steps[0]->LoadOrder_order_id, items_json, items, next);
    } else {
        assert(loads(run0.steps));
    }
}

/// Going on to the next step.
proof fn go_on(
    run0: RunView,
    s0: Store,
    run: RunView,
    s: Store,
    run2: RunView,
    s2: Store,
)
    requires
        well_begun(run0),
        reached(run0, s0, run, s),
        run.stage is Working,
        !(run.steps[run.next] is LoadOrder),
        s0.objects(run.event, run.steps[run.next]) is None,
        s2 == s.perform(run.event, run.steps[run.next]),
        fresh(run.steps, run.next + 1, run2.zone, run2.other, s2),
        run2 == (RunView { zone: run2.zone, other: run2.other, ..run }),
    ensures
        reached(run0, s0, run2.at_step(run.next + 1), s2),
{
    one_more(s0, run.event, run.steps, run.next);
    if run.steps == run0.steps && loads(run0.steps) {
        assert(run.next == 0);
        assert(false);
    }
    arrive(run0, s0, run2, s2, run.next + 1);
}

/// A write keeps to what holds in every state.
proof fn write_keeps(
    run0: RunView,
    s0: Store,
    run: RunView,
    s: Store,
    reply: ReplyView,
    now: Timestamp,
    run2: RunView,
    s2: Store,
)
    requires
        well_begun(run0),
        reached(run0, s0, run, s),
        store::goes(run, s, reply, now, run2, s2),
        run.stage is Working,
        handlers::is_write(run.steps[run.next]),
    ensures
        reached(run0, s0, run2, s2),
{
    assert(fresh_for(run.steps[run.next], 0, run.zone, run.other, s)) by {
        reveal(fresh);
    }
    write_is_meant(run, s, now);
    fresh_unread(run.steps, run.next + 1, run.zone, run.other, s2);
    go_on(run0, s0, run, s, run, s2);
}

/// A check keeps to what holds in every state.
proof fn check_keeps(
    run0: RunView,
    s0: Store,
    run: RunView,
    s: Store,
    reply: ReplyView,
    now: Timestamp,
    run2: RunView,
    s2: Store,
)
    requires
        well_begun(run0),
        reached(run0, s0, run, s),
        store::goes(run, s, reply, now, run2, s2),
        run.stage is Working,
        run.steps[run.next] is CheckOrder || run.steps[run.next] is CheckStock,
    ensures
        reached(run0, s0, run2, s2),
{
    nothing_written(s0, run.event, run.steps, run.next);
    match s0.objects(run.event, run.steps[run.next]) {
        Some(outcome) => {
            objection_ends(run0, s0, run.steps, run.next, outcome, s2);
        },
        None => {
            fresh_unread(run.steps, run.next + 1, run.zone, run.other, s2);
            go_on(run0, s0, run, s, run, s2);
        },
    }
}

/// A read keeps to what holds in every state.
proof fn read_keeps(
    run0: RunView,
    s0: Store,
    run: RunView,
    s: Store,
    reply: ReplyView,
    now: Timestamp,
    run2: RunView,
    s2: Store,
)
    requires
        well_begun(run0),
        reached(run0, s0, run, s),
        store::goes(run, s, reply, now, run2, s2),
        run.stage is Working,
        run.steps[run.next] is ReadZone || run.steps[run.next] is ReadProduct
            || run.steps[run.next] is ReadTarget,
    ensures
        reached(run0, s0, run2, s2),
{
    let stock = cassandra::stock_in(reply->Stock_0);
    let read = if run.steps[run.next] is ReadZone {
        RunView { zone: stock, ..run }
    } else {
        RunView { other: stock, ..run }
    };
    stays_fresh(run.steps, run.next, run.zone, run.other, s, read.zone, read.other);
    go_on(run0, s0, run, s, read, s2);
}

/// The check of what is reserved keeps to what holds in every state.
proof fn settling_keeps(
    run0: RunView,
    s0: Store,
    run: RunView,
    s: Store,
    reply: ReplyView,
    now: Timestamp,
    run2: RunView,
    s2: Store,
)
    requires
        well_begun(run0),
        reached(run0, s0, run, s),
        store::goes(run, s, reply, now, run2, s2),
        run.stage is Working,
        run.steps[run.next] is CheckReserved,
    ensures
        reached(run0, s0, run2, s2),
{
    let steps = run.steps;
    let next = run.next;
    if cassandra::stock_in(reply->Stock_0).reserved
        >= steps[next]->CheckReserved_quantity {
        stays_fresh(steps, next, run.zone, run.other, s, run.zone, run.other);
        go_on(run0, s0, run, s, run, s2);
    } else {
        assert(next + 4 < steps.len() && steps[next + 1] is ReadZone && steps[next + 2]
            is ReadProduct && steps[next + 3] is WriteSettled && store::read_before(
            steps,
            steps[next + 3],
            next + 3,
        )) by {
            reveal(store::orderly);
        }
        one_more(s0, run.event, steps, next);
        one_more(s0, run.event, steps, next + 1);
        one_more(s0, run.event, steps, next + 2);
        one_more(s0, run.event, steps, next + 3);
        assert(s0.perform_all(run.event, steps.take(next + 4)) == s);
        assert(passed(run.event, s0, steps, next + 4)) by {
            assert forall|j: int| 0 <= j < next + 4 && j < steps.len() implies s0.objects(
                run.event,
                #[trigger] steps[j],
            ) is None by {
                if j >= next {
                    assert(j == next || j == next + 1 || j == next + 2 || j == next + 3);
                }
            }
        }
        fresh_unread(steps, next + 4, run.zone, run.other, s);
        if steps == run0.steps && loads(run0.steps) {
            assert(false);
        }
        arrive(run0, s0, run, s, next + 4);
    }
}

/// The reading of an order keeps to what holds in every state.
proof fn loading_keeps(
    run0: RunView,
    s0: Store,
    run: RunView,
    s: Store,
    reply: ReplyView,
    now: Timestamp,
    run2: RunView,
    s2: Store,
)
    requires
        well_begun(run0),
        reached(run0, s0, run, s),
        store::goes(run, s, reply, now, run2, s2),
        run.stage is Working,
        run.steps[run.next] is LoadOrder,
    ensures
        reached(run0, s0, run2, s2),
{
    nothing_written(s0, run.event, run.steps, run.next);
    load_is_first(run0, s0, run.steps, run.next);
    let order_id = run.steps[0]->LoadOrder_order_id;
    assert(loads(run0.steps));
    match reply->Order_0 {
        Some((items_json, Ok(items))) => {
            let more = RunView {
                steps: run.steps.take(run.next + 1) + handlers::completion(
                    order_id,
                    items_json,
                    items,
                ),
                ..run
            };
            let steps = completing(order_id, items_json, items);
            assert(more.steps =~= steps);
            assert(loaded(run0.steps, s0, items_json));
            completing_is_orderly(order_id, items_json, items);
            completing_at(order_id, items_json, items, 0);
            one_more(s0, run.event, steps, 0);
            assert(steps.take(0) =~= Seq::empty());
            assert(s0.perform_all(run.event, steps.take(0)) == s0);
            fresh_unread(steps, 1, run.zone, run.other, s);
            arrive(run0, s0, more, s, 1);
        },
        _ => {},
    }
}

/// Every request and reply keeps to what holds in every state.
proof fn keeps(
    run0: RunView,
    s0: Store,
    run: RunView,
    s: Store,
    reply: ReplyView,
    now: Timestamp,
    run2: RunView,
    s2: Store,
)
    requires
        well_begun(run0),
        reached(run0, s0, run, s),
        store::goes(run, s, reply, now, run2, s2),
    ensures
        reached(run0, s0, run2, s2),
{
    match run.stage {
        Stage::Checking => {
            if !s0.processed.contains(run0.event.event_id@) && run0.refusal is None {
                fresh_unread(run.steps, 0, run.zone, run.other, s);
                assert(run.steps.take(0) =~= Seq::empty());
                arrive(run0, s0, run, s, 0);
            }
        },
        Stage::Working => {
            let step = run.steps[run.next];
            if handlers::is_write(step) {
                write_keeps(run0, s0, run, s, reply, now, run2, s2);
            } else if step is LoadOrder {
                loading_keeps(run0, s0, run, s, reply, now, run2, s2);
            } else if step is CheckOrder || step is CheckStock {
                check_keeps(run0, s0, run, s, reply, now, run2, s2);
            } else if step is CheckReserved {
                settling_keeps(run0, s0, run, s, reply, now, run2, s2);
            } else {
                read_keeps(run0, s0, run, s, reply, now, run2, s2);
            }
        },
        Stage::Done(_) => {},
    }
}

/// What holds in every state, along the processing of an event.
pub proof fn along(event: WarehouseEvent, at: Position, trace: Seq<(RunView, Store)>, i: int)
    requires
        store::processing(event, at, trace),
        0 <= i < trace.len() || i == 0,
    ensures
        trace.len() > 0,
        well_begun(trace[0].0),
        trace[0].0.event == event,
        reached(trace[0].0, trace[0].1, trace[i].0, trace[i].1),
    decreases i,
{
    reveal(store::processing);
    start_is_well_begun(event, at, trace[0].0);
    if i > 0 {
        along(event, at, trace, i - 1);
        assert(store::can_go(trace[i - 1], trace[i - 1 + 1]));
        let (a, b) = (trace[i - 1], trace[i]);
        let (reply, now) = choose|reply: ReplyView, now: Timestamp|
            store::goes(a.0, a.1, reply, now, b.0, b.1);
        keeps(trace[0].0, trace[0].1, a.0, a.1, reply, now, b.0, b.1);
    }
}

} // verus!

//! Processing events against a database in memory.
use std::collections::{HashMap, HashSet};
use warehouse::cassandra::{entity_key, Bind, BoundStatement, Statement};
use warehouse::events::WarehouseEvent;
use warehouse::handlers::HandlerError;
use warehouse::json::Json;
use warehouse::payload::OrderItem;
use warehouse::run::{process_event, EventRun, Outcome, Query, Reply, Request, StoredOrder};
use warehouse::time::Timestamp;

const NOW: Timestamp = Timestamp { secs: 5_000, nanos: 1 };

#[derive(Default, Clone, PartialEq, Debug)]
struct Db {
    processed: HashSet<String>,
    zones: HashMap<(String, String), (i64, i64)>,
    by_zone: HashMap<(String, String), (i64, i64)>,
    products: HashMap<String, (i64, i64)>,
    history: Vec<(String, String, String, String, String)>,
    orders: HashMap<String, (String, String)>,
    entities: HashMap<String, (i64, u32)>,
    suppliers: HashMap<(String, String), String>,
}

fn text(b: &Bind) -> String {
    match b {
        Bind::Text(s) => s.clone(),
        other => panic!("no text: {:?}", other),
    }
}

fn number(b: &Bind) -> i64 {
    match b {
        Bind::BigInt(n) => *n,
        other => panic!("no number: {:?}", other),
    }
}

fn time(b: &Bind) -> Timestamp {
    match b {
        Bind::Timestamp(t) => *t,
        other => panic!("no time: {:?}", other),
    }
}

impl Db {
    fn write(&mut self, s: &BoundStatement) {
        let v = &s.values;
        assert_eq!(s.statement.cql().matches('?').count(), v.len());
        match s.statement {
            Statement::InsertProcessed => {
                assert_eq!(time(&v[2]), NOW);
                self.processed.insert(text(&v[0]));
            }
            Statement::UpsertInventoryPz => {
                assert_eq!(time(&v[2]), NOW);
                self.zones.insert((text(&v[5]), text(&v[6])), (number(&v[0]), number(&v[1])));
            }
            Statement::UpsertInventoryZone => {
                self.by_zone.insert((text(&v[3]), text(&v[4])), (number(&v[0]), number(&v[1])));
            }
            Statement::UpsertInventoryProduct => {
                self.products.insert(text(&v[3]), (number(&v[0]), number(&v[1])));
            }
            Statement::InsertHistory => {
                self.history.push((
                    text(&v[0]),
                    text(&v[1]),
                    text(&v[3]),
                    text(&v[4]),
                    text(&v[5]),
                ));
            }
            Statement::UpsertOrder => {
                self.orders.insert(text(&v[0]), (text(&v[1]), text(&v[2])));
            }
            Statement::UpsertEntityTs => {
                let t = time(&v[0]);
                self.entities.insert(text(&v[2]), (t.secs, t.nanos));
            }
            Statement::UpdateSupplierId => {
                self.suppliers.insert((text(&v[1]), text(&v[2])), text(&v[0]));
            }
            other => panic!("no write: {:?}", other),
        }
    }

    fn read(&self, q: &Query, items: &[(&str, &str, i64)]) -> Reply {
        match q {
            Query::Processed { event_id } => Reply::Processed(self.processed.contains(event_id)),
            Query::EntityTimestamp { entity_id } => Reply::Timestamp(
                self.entities.get(entity_id).map(|t| Timestamp { secs: t.0, nanos: t.1 }),
            ),
            Query::Zone { product_id, zone_id } => {
                Reply::Stock(self.zones.get(&(product_id.clone(), zone_id.clone())).copied())
            }
            Query::Product { product_id } => Reply::Stock(self.products.get(product_id).copied()),
            Query::Order { order_id } => {
                Reply::Order(self.orders.get(order_id).map(|(_, items_json)| StoredOrder {
                    items_json: items_json.clone(),
                    items: Ok(items
                        .iter()
                        .map(|(p, z, q)| OrderItem {
                            product_id: p.to_string(),
                            zone_id: z.to_string(),
                            quantity: *q,
                        })
                        .collect()),
                }))
            }
        }
    }
}

fn run_with(db: &mut Db, event: WarehouseEvent, items: &[(&str, &str, i64)]) -> EventRun {
    let mut run = process_event(event, 3, 77);
    loop {
        assert!(run.is_in_range());
        let reply = match run.request(NOW) {
            Request::Finished => return run,
            Request::Read(q) => db.read(&q, items),
            Request::Batch(batch) => {
                batch.iter().for_each(|s| db.write(s));
                Reply::Written
            }
            Request::Execute(s) => {
                db.write(&s);
                Reply::Written
            }
        };
        assert!(run.is_answered_by(&reply));
        run.advance(reply);
    }
}

fn process(db: &mut Db, event: WarehouseEvent) -> String {
    let run = run_with(db, event, &[]);
    match run.outcome().unwrap() {
        Outcome::Applied => "applied".to_string(),
        Outcome::Duplicate => "duplicate".to_string(),
        Outcome::OutOfOrder => "out of order".to_string(),
        Outcome::Failed(e) => e.message(),
    }
}

fn event(id: &str, event_type: &str, secs: i64, members: Vec<(&str, Json)>) -> WarehouseEvent {
    WarehouseEvent {
        event_id: id.to_string(),
        event_type: event_type.to_string(),
        timestamp: Timestamp { secs, nanos: 0 },
        sequence_number: None,
        payload: Json::Object(members.into_iter().map(|(k, v)| (k.to_string(), v)).collect()),
    }
}

fn stock(id: &str, event_type: &str, secs: i64, product: &str, zone: &str, n: i64) -> WarehouseEvent {
    event(
        id,
        event_type,
        secs,
        vec![
            ("product_id", Json::String(product.to_string())),
            ("zone_id", Json::String(zone.to_string())),
            ("quantity", Json::Integer(n as i128)),
        ],
    )
}

fn moved(id: &str, secs: i64, product: &str, from: &str, to: &str, n: i64) -> WarehouseEvent {
    event(
        id,
        "PRODUCT_MOVED",
        secs,
        vec![
            ("product_id", Json::String(product.to_string())),
            ("from_zone_id", Json::String(from.to_string())),
            ("to_zone_id", Json::String(to.to_string())),
            ("quantity", Json::Integer(n as i128)),
        ],
    )
}

fn counted(id: &str, secs: i64, product: &str, zone: &str, n: i64) -> WarehouseEvent {
    event(
        id,
        "INVENTORY_COUNTED",
        secs,
        vec![
            ("product_id", Json::String(product.to_string())),
            ("zone_id", Json::String(zone.to_string())),
            ("counted_quantity", Json::Integer(n as i128)),
        ],
    )
}

fn order(id: &str, secs: i64, order_id: &str, items: &[(&str, &str, i64)]) -> WarehouseEvent {
    let lines = items
        .iter()
        .map(|(p, z, q)| {
            Json::Object(vec![
                ("product_id".to_string(), Json::String(p.to_string())),
                ("zone_id".to_string(), Json::String(z.to_string())),
                ("quantity".to_string(), Json::Integer(*q as i128)),
            ])
        })
        .collect();
    event(
        id,
        "ORDER_CREATED",
        secs,
        vec![("order_id", Json::String(order_id.to_string())), ("items", Json::Array(lines))],
    )
}

fn completed(id: &str, secs: i64, order_id: &str) -> WarehouseEvent {
    event(id, "ORDER_COMPLETED", secs, vec![("order_id", Json::String(order_id.to_string()))])
}

fn zone(db: &Db, product: &str, zone: &str) -> (i64, i64) {
    let key = (product.to_string(), zone.to_string());
    let other = (zone.to_string(), product.to_string());
    assert_eq!(db.zones.get(&key), db.by_zone.get(&other));
    db.zones.get(&key).copied().unwrap_or((0, 0))
}

fn product(db: &Db, product: &str) -> (i64, i64) {
    db.products.get(product).copied().unwrap_or((0, 0))
}

fn stocked() -> Db {
    let mut db = Db::default();
    assert_eq!(process(&mut db, stock("r1", "PRODUCT_RECEIVED", 10, "P", "A", 10)), "applied");
    assert_eq!(process(&mut db, stock("r2", "PRODUCT_RECEIVED", 11, "P", "B", 4)), "applied");
    db
}

#[test]
fn received_goods_are_available() {
    let db = stocked();
    assert_eq!(zone(&db, "P", "A"), (10, 0));
    assert_eq!(zone(&db, "P", "B"), (4, 0));
    assert_eq!(product(&db, "P"), (14, 0));
    assert_eq!(db.entities["P:A"], (10, 0));
    assert!(db.processed.contains("r1"));
    assert_eq!(
        db.history[0],
        (
            "PRODUCT_RECEIVED".to_string(),
            "r1".to_string(),
            "P".to_string(),
            "A".to_string(),
            "{\"product_id\":\"P\",\"quantity\":10,\"zone_id\":\"A\"}".to_string(),
        )
    );
    assert!(db.suppliers.is_empty());
}

#[test]
fn supplier_is_noted() {
    let mut db = Db::default();
    let mut e = stock("r", "PRODUCT_RECEIVED", 1, "P", "A", 1);
    if let Json::Object(members) = &mut e.payload {
        members.push(("supplier_id".to_string(), Json::String("S".to_string())));
    }
    assert_eq!(process(&mut db, e), "applied");
    assert_eq!(db.suppliers[&("P".to_string(), "A".to_string())], "S");
}

#[test]
fn event_that_comes_again_changes_nothing() {
    let mut db = stocked();
    let before = db.clone();
    assert_eq!(process(&mut db, stock("r1", "PRODUCT_RECEIVED", 99, "P", "A", 10)), "duplicate");
    assert_eq!(process(&mut db, event("r2", "NO SUCH TYPE", 99, vec![])), "duplicate");
    assert_eq!(db, before);
}

#[test]
fn second_processing_changes_nothing() {
    let mut db = stocked();
    let made: [(&dyn Fn() -> WarehouseEvent, &str, &str); 5] = [
        (&|| stock("s", "PRODUCT_SHIPPED", 30, "P", "A", 1), "applied", "duplicate"),
        (&|| order("o", 31, "O", &[("P", "A", 2)]), "applied", "duplicate"),
        (&|| stock("r1", "PRODUCT_RECEIVED", 40, "P", "A", 1), "duplicate", "duplicate"),
        (&|| counted("c", 5, "P", "B", 1), "out of order", "out of order"),
        (&|| moved("m", 11, "P", "B", "A", 1), "out of order", "out of order"),
    ];
    for (make, first, second) in made {
        assert_eq!(process(&mut db, make()), first);
        let before = db.clone();
        assert_eq!(process(&mut db, make()), second);
        assert_eq!(db, before);
    }
}

#[test]
fn stale_event_changes_nothing() {
    let mut db = stocked();
    let before = db.clone();
    assert_eq!(process(&mut db, stock("x", "PRODUCT_SHIPPED", 10, "P", "A", 1)), "out of order");
    assert_eq!(process(&mut db, stock("x", "PRODUCT_SHIPPED", 9, "P", "A", 999)), "out of order");
    assert_eq!(process(&mut db, moved("x", 10, "P", "A", "B", 1)), "out of order");
    assert_eq!(process(&mut db, counted("x", 10, "P", "A", 1)), "out of order");
    assert_eq!(db, before);
    assert_eq!(process(&mut db, stock("x", "PRODUCT_SHIPPED", 11, "P", "A", 1)), "applied");
}

#[test]
fn event_is_the_last_for_all_that_it_changes() {
    let mut db = stocked();
    assert_eq!(process(&mut db, moved("m1", 20, "P", "A", "C", 2)), "applied");
    assert_eq!(process(&mut db, counted("c1", 21, "P", "B", 4)), "applied");
    assert_eq!(process(&mut db, order("o1", 30, "O", &[("P", "A", 1), ("P", "B", 1)])), "applied");
    assert_eq!(db.entities["P:A"], (30, 0));
    assert_eq!(db.entities["P:B"], (30, 0));
    assert_eq!(db.entities["P:C"], (20, 0));
    let before = db.clone();
    assert_eq!(
        process(&mut db, stock("r3", "PRODUCT_RECEIVED", 20, "P", "C", 1)),
        "out of order"
    );
    assert_eq!(process(&mut db, moved("m2", 30, "P", "A", "C", 1)), "out of order");
    assert_eq!(process(&mut db, counted("c2", 29, "P", "B", 9)), "out of order");
    assert_eq!(db, before);
    assert_eq!(process(&mut db, stock("r4", "PRODUCT_RECEIVED", 21, "P", "C", 1)), "applied");
    assert_eq!(zone(&db, "P", "C"), (3, 0));
}

#[test]
fn names_with_a_colon_can_share_a_key() {
    assert_eq!(entity_key("P", "A"), "P:A");
    assert_ne!(entity_key("P", "A:B"), entity_key("Q", "A:B"));
    assert_eq!(entity_key("P:A", "B"), entity_key("P", "A:B"));
}

#[test]
fn times_are_ordered() {
    let earlier = Timestamp { secs: 9, nanos: 999_999_999 };
    let later = Timestamp { secs: 10, nanos: 0 };
    assert!(earlier.is_not_after(later));
    assert!(!later.is_not_after(earlier));
    assert!(later.is_not_after(later));
}

#[test]
fn shipped_goods_are_gone() {
    let mut db = stocked();
    assert_eq!(process(&mut db, stock("s", "PRODUCT_SHIPPED", 20, "P", "A", 10)), "applied");
    assert_eq!(zone(&db, "P", "A"), (0, 0));
    assert_eq!(product(&db, "P"), (4, 0));
    let before = db.clone();
    assert_eq!(
        process(&mut db, stock("t", "PRODUCT_SHIPPED", 21, "P", "A", 1)),
        "BUSINESS_ERROR: insufficient available qty for P in A: have 0, need 1"
    );
    assert_eq!(db, before);
}

#[test]
fn moved_goods_are_elsewhere() {
    let mut db = stocked();
    assert_eq!(process(&mut db, moved("m", 20, "P", "A", "C", 3)), "applied");
    assert_eq!(zone(&db, "P", "A"), (7, 0));
    assert_eq!(zone(&db, "P", "C"), (3, 0));
    assert_eq!(zone(&db, "P", "B"), (4, 0));
    assert_eq!(product(&db, "P"), (14, 0));
    assert_eq!(db.entities["P:A"], (20, 0));
    assert_eq!(db.entities["P:C"], (20, 0));
    assert_eq!(
        process(&mut db, moved("n", 21, "P", "A", "C", 8)),
        "BUSINESS_ERROR: insufficient available qty for P in A: have 7, need 8"
    );
}

#[test]
fn move_within_a_zone_adds_to_it() {
    let mut db = stocked();
    assert_eq!(process(&mut db, moved("m", 20, "P", "A", "A", 3)), "applied");
    assert_eq!(zone(&db, "P", "A"), (13, 0));
    assert_eq!(product(&db, "P"), (14, 0));
}

#[test]
fn reserved_goods_are_released_again() {
    let mut db = stocked();
    assert_eq!(process(&mut db, stock("v", "PRODUCT_RESERVED", 20, "P", "A", 6)), "applied");
    assert_eq!(zone(&db, "P", "A"), (4, 6));
    assert_eq!(product(&db, "P"), (8, 6));
    assert_eq!(
        process(&mut db, stock("w", "PRODUCT_RESERVED", 21, "P", "A", 5)),
        "BUSINESS_ERROR: insufficient available qty for reservation: P in A: have 4, need 5"
    );
    assert_eq!(
        process(&mut db, stock("w", "PRODUCT_RELEASED", 21, "P", "A", 7)),
        "BUSINESS_ERROR: insufficient reserved qty for release: P in A: have 6, need 7"
    );
    let held = db.clone();
    assert_eq!(process(&mut db, stock("v", "PRODUCT_RELEASED", 21, "P", "A", 6)), "duplicate");
    assert_eq!(process(&mut db, stock("w", "PRODUCT_RELEASED", 20, "P", "A", 6)), "out of order");
    assert_eq!(db, held);
    assert_eq!(process(&mut db, stock("w", "PRODUCT_RELEASED", 21, "P", "A", 6)), "applied");
    assert_eq!(zone(&db, "P", "A"), (10, 0));
    assert_eq!(product(&db, "P"), (14, 0));
}

#[test]
fn counted_goods_are_available() {
    let mut db = stocked();
    assert_eq!(process(&mut db, stock("v", "PRODUCT_RESERVED", 20, "P", "A", 6)), "applied");
    assert_eq!(process(&mut db, counted("c", 21, "P", "A", 1)), "applied");
    assert_eq!(zone(&db, "P", "A"), (1, 6));
    assert_eq!(product(&db, "P"), (5, 6));
    assert_eq!(process(&mut db, counted("d", 22, "P", "A", 0)), "applied");
    assert_eq!(product(&db, "P"), (4, 6));
}

#[test]
fn senseless_quantities_are_refused() {
    let mut db = stocked();
    let before = db.clone();
    for kind in ["PRODUCT_RECEIVED", "PRODUCT_SHIPPED", "PRODUCT_RESERVED", "PRODUCT_RELEASED"] {
        assert_eq!(
            process(&mut db, stock("x", kind, 50, "P", "A", 0)),
            "VALIDATION_ERROR: quantity must be positive, got 0"
        );
        assert_eq!(
            process(&mut db, stock("x", kind, 50, "P", "A", i64::MIN)),
            "VALIDATION_ERROR: quantity must be positive, got -9223372036854775808"
        );
    }
    assert_eq!(
        process(&mut db, moved("x", 50, "P", "A", "B", -3)),
        "VALIDATION_ERROR: quantity must be positive, got -3"
    );
    assert_eq!(
        process(&mut db, counted("x", 50, "P", "A", -1)),
        "VALIDATION_ERROR: counted_quantity cannot be negative"
    );
    assert_eq!(
        process(&mut db, order("x", 50, "O", &[])),
        "VALIDATION_ERROR: order must have at least one item"
    );
    assert_eq!(
        process(&mut db, order("x", 50, "O", &[("P", "A", 1), ("P", "B", 0)])),
        "VALIDATION_ERROR: item quantity must be positive, got 0"
    );
    assert_eq!(db, before);
}

#[test]
fn first_order_item_that_is_wrong_decides() {
    let mut db = stocked();
    assert_eq!(
        process(&mut db, order("x", 50, "O", &[("P", "A", 11), ("P", "B", 0)])),
        "BUSINESS_ERROR: insufficient qty for order item P in A: have 10, need 11"
    );
    assert_eq!(
        process(&mut db, order("x", 50, "O", &[("P", "A", -2), ("P", "A", 11)])),
        "VALIDATION_ERROR: item quantity must be positive, got -2"
    );
}

#[test]
fn order_is_reserved_and_then_gone() {
    let mut db = stocked();
    let items = [("P", "A", 3), ("P", "B", 4)];
    assert_eq!(process(&mut db, order("o", 5, "O-1", &items)), "applied");
    assert_eq!(zone(&db, "P", "A"), (7, 3));
    assert_eq!(zone(&db, "P", "B"), (0, 4));
    assert_eq!(product(&db, "P"), (7, 7));
    assert_eq!(
        db.orders["O-1"],
        (
            "CREATED".to_string(),
            "[{\"product_id\":\"P\",\"zone_id\":\"A\",\"quantity\":3},\
             {\"product_id\":\"P\",\"zone_id\":\"B\",\"quantity\":4}]"
                .to_string()
        )
    );
    assert_eq!(db.entities["P:A"], (5, 0));
    let run = run_with(&mut db, completed("c", 1, "O-1"), &items);
    assert!(matches!(run.outcome(), Some(Outcome::Applied)));
    assert_eq!(zone(&db, "P", "A"), (7, 0));
    assert_eq!(zone(&db, "P", "B"), (0, 0));
    assert_eq!(product(&db, "P"), (7, 0));
    assert_eq!(db.orders["O-1"].0, "COMPLETED");
    assert!(db.orders["O-1"].1.starts_with("[{\"product_id\":\"P\""));
    assert!(db.processed.contains("c"));
}

#[test]
fn order_lines_of_one_zone_can_ask_for_more_than_it_has() {
    let mut db = stocked();
    assert_eq!(process(&mut db, order("o", 5, "O", &[("P", "A", 6), ("P", "A", 6)])), "applied");
    assert_eq!(zone(&db, "P", "A"), (-2, 12));
}

#[test]
fn items_that_are_not_reserved_are_passed_over() {
    let mut db = stocked();
    let items = [("P", "A", 3), ("P", "B", 4)];
    assert_eq!(process(&mut db, order("o", 5, "O", &items)), "applied");
    assert_eq!(process(&mut db, stock("f", "PRODUCT_RELEASED", 60, "P", "A", 1)), "applied");
    let run = run_with(&mut db, completed("c", 1, "O"), &items);
    assert!(matches!(run.outcome(), Some(Outcome::Applied)));
    assert_eq!(zone(&db, "P", "A"), (8, 2));
    assert_eq!(zone(&db, "P", "B"), (0, 0));
    assert!(db.processed.contains("c"));
}

#[test]
fn unknown_order_is_not_completed() {
    let mut db = stocked();
    assert_eq!(
        process(&mut db, completed("c", 1, "O-9")),
        "BUSINESS_ERROR: order O-9 not found"
    );
    assert!(!db.processed.contains("c"));
}

#[test]
fn order_that_cannot_be_read_is_not_completed() {
    let mut run = process_event(completed("c", 1, "O"), 0, 0);
    run.advance(Reply::Processed(false));
    assert!(matches!(run.request(NOW), Request::Read(Query::Order { .. })));
    run.advance(Reply::Order(Some(StoredOrder {
        items_json: "[".to_string(),
        items: Err("EOF while parsing a list".to_string()),
    })));
    assert!(!run.is_write_error());
    match run.outcome() {
        Some(Outcome::Failed(e)) => {
            assert!(matches!(e, HandlerError::Storage(_)));
            assert_eq!(e.message(), "EOF while parsing a list");
        }
        other => panic!("{:?}", other),
    }
}

#[test]
fn payload_error_is_the_outcome() {
    let mut db = Db::default();
    assert_eq!(
        process(&mut db, event("x", "PRODUCT_SHIPPED", 1, vec![])),
        "missing field `product_id`"
    );
    assert_eq!(process(&mut db, event("x", "OTHER", 1, vec![])), "Unknown event type: OTHER");
    assert_eq!(db, Db::default());
}

#[test]
fn failure_of_the_database_is_the_outcome() {
    let mut run = process_event(stock("x", "PRODUCT_RECEIVED", 1, "P", "A", 1), 0, 0);
    run.advance(Reply::Processed(false));
    run.advance(Reply::Timestamp(None));
    run.advance(Reply::Stock(None));
    run.advance(Reply::Stock(None));
    assert!(matches!(run.request(NOW), Request::Batch(b) if b.len() == 5));
    run.advance(Reply::Failed("timeout".to_string()));
    assert!(matches!(run.outcome(), Some(Outcome::Failed(HandlerError::Unwritten(m))) if m == "timeout"));
    assert!(run.is_write_error());
    assert!(matches!(run.request(NOW), Request::Finished));
    assert_eq!(run.event().event_id, "x");
}

#[test]
fn only_writes_fail_as_writes() {
    let mut run = process_event(event("x", "UNKNOWN_TYPE", 1, vec![]), 0, 0);
    run.advance(Reply::Processed(false));
    assert!(matches!(run.outcome(), Some(Outcome::Failed(HandlerError::Payload(_)))));
    assert!(!run.is_write_error());
    let mut run = process_event(stock("x", "PRODUCT_SHIPPED", 1, "P", "A", 1), 0, 0);
    assert!(!run.is_write_error());
    run.advance(Reply::Failed("timeout".to_string()));
    assert!(matches!(run.outcome(), Some(Outcome::Failed(HandlerError::Storage(_)))));
    assert!(!run.is_write_error());
    let mut run = process_event(order("x", 1, "O", &[("P", "A", 1)]), 0, 0);
    run.advance(Reply::Processed(false));
    run.advance(Reply::Stock(Some((5, 0))));
    assert!(matches!(run.request(NOW), Request::Execute(_)));
    run.advance(Reply::Failed("timeout".to_string()));
    assert!(run.is_write_error());
}

#[test]
fn amounts_that_cannot_be_kept_are_told() {
    let mut run = process_event(stock("x", "PRODUCT_RECEIVED", 1, "P", "A", 1), 0, 0);
    run.advance(Reply::Processed(false));
    run.advance(Reply::Timestamp(None));
    run.advance(Reply::Stock(Some((i64::MAX, 0))));
    assert!(run.is_in_range());
    run.advance(Reply::Stock(None));
    assert!(!run.is_in_range());
    let mut run = process_event(completed("c", 1, "O"), 0, 0);
    run.advance(Reply::Processed(false));
    run.advance(Reply::Order(Some(StoredOrder {
        items_json: String::new(),
        items: Ok(vec![OrderItem {
            product_id: "P".to_string(),
            zone_id: "A".to_string(),
            quantity: i64::MIN,
        }]),
    })));
    run.advance(Reply::Written);
    run.advance(Reply::Stock(None));
    run.advance(Reply::Stock(None));
    run.advance(Reply::Stock(None));
    assert!(!run.is_in_range());
    assert!(!run.is_answered_by(&Reply::Processed(true)));
}

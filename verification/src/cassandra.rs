//! The rows that the service keeps in Cassandra: the statements that read and write
//! them, and the values that go with each.
use crate::events::WarehouseEvent;
use crate::json;
use crate::json::json_string;
use crate::text;
use crate::text::{join3, same_text};
use crate::time::Timestamp;
use vstd::prelude::*;

verus! {

/// How many replicas have to answer.
#[derive(Debug, Clone, Copy, PartialEq, Eq, Structural)]
pub enum Consistency {
    All,
    Quorum,
    LocalQuorum,
    EachQuorum,
    One,
    Two,
    Three,
    LocalOne,
    Any,
}

/// The consistency of that name, in upper case; a quorum where there is none.
pub open spec fn consistency_of(name: Seq<char>) -> Consistency {
    if name == "ALL"@ {
        Consistency::All
    } else if name == "QUORUM"@ {
        Consistency::Quorum
    } else if name == "LOCAL_QUORUM"@ {
        Consistency::LocalQuorum
    } else if name == "EACH_QUORUM"@ {
        Consistency::EachQuorum
    } else if name == "ONE"@ {
        Consistency::One
    } else if name == "TWO"@ {
        Consistency::Two
    } else if name == "THREE"@ {
        Consistency::Three
    } else if name == "LOCAL_ONE"@ {
        Consistency::LocalOne
    } else if name == "ANY"@ {
        Consistency::Any
    } else {
        Consistency::Quorum
    }
}

/// Finds a consistency by its name in upper case.
pub fn consistency_named(name: &str) -> (r: Consistency)
    ensures
        r == consistency_of(name@),
{
    if same_text(name, "ALL") {
        Consistency::All
    } else if same_text(name, "QUORUM") {
        Consistency::Quorum
    } else if same_text(name, "LOCAL_QUORUM") {
        Consistency::LocalQuorum
    } else if same_text(name, "EACH_QUORUM") {
        Consistency::EachQuorum
    } else if same_text(name, "ONE") {
        Consistency::One
    } else if same_text(name, "TWO") {
        Consistency::Two
    } else if same_text(name, "THREE") {
        Consistency::Three
    } else if same_text(name, "LOCAL_ONE") {
        Consistency::LocalOne
    } else if same_text(name, "ANY") {
        Consistency::Any
    } else {
        Consistency::Quorum
    }
}

/// Finds a consistency by its name, in any case.
pub fn parse_consistency(s: &str) -> (r: Consistency)
    ensures
        r == consistency_of(text::upper_case(s@)),
{
    let upper = text::to_upper_case(s);
    consistency_named(upper.as_str())
}

/// What is in stock of a product: free to go, and set aside.
#[derive(Debug, Clone, Copy, PartialEq, Eq, Structural)]
pub struct InventoryRecord {
    pub available: i64,
    pub reserved: i64,
}

/// Nothing in stock.
pub open spec fn nothing() -> InventoryRecord {
    InventoryRecord { available: 0, reserved: 0 }
}

impl Default for InventoryRecord {
    fn default() -> (r: Self)
        ensures
            r == nothing(),
    {
        InventoryRecord { available: 0, reserved: 0 }
    }
}

/// What a row of quantities says: nothing in stock where there is no row.
pub open spec fn stock_in(row: Option<(i64, i64)>) -> InventoryRecord {
    match row {
        Some((available, reserved)) => InventoryRecord { available, reserved },
        None => nothing(),
    }
}

/// Reads a row of quantities.
pub fn inventory_of(row: Option<(i64, i64)>) -> (r: InventoryRecord)
    ensures
        r == stock_in(row),
{
    match row {
        Some((available, reserved)) => InventoryRecord { available, reserved },
        None => InventoryRecord::default(),
    }
}

/// The statements that the service prepares.
#[derive(Debug, Clone, Copy, PartialEq, Eq, Structural)]
pub enum Statement {
    CheckProcessed,
    InsertProcessed,
    GetInventoryPz,
    UpsertInventoryPz,
    UpsertInventoryZone,
    GetInventoryProduct,
    UpsertInventoryProduct,
    InsertHistory,
    GetOrder,
    UpsertOrder,
    GetEntityTs,
    UpsertEntityTs,
    UpdateSupplierId,
}

impl Statement {
    /// The statement in CQL.
    pub open spec fn cql_text(self) -> Seq<char> {
        match self {
            Statement::CheckProcessed =>
                "SELECT event_id FROM warehouse.processed_events WHERE event_id = ?"@,
            Statement::InsertProcessed =>
                "INSERT INTO warehouse.processed_events (event_id, event_type, processed_at, partition, kafka_offset) VALUES (?, ?, ?, ?, ?)"@,
            Statement::GetInventoryPz =>
                "SELECT available_quantity, reserved_quantity FROM warehouse.inventory_by_product_zone WHERE product_id = ? AND zone_id = ?"@,
            Statement::UpsertInventoryPz =>
                "UPDATE warehouse.inventory_by_product_zone SET available_quantity = ?, reserved_quantity = ?, last_updated = ?, last_event_id = ?, last_event_timestamp = ? WHERE product_id = ? AND zone_id = ?"@,
            Statement::UpsertInventoryZone =>
                "UPDATE warehouse.inventory_by_zone SET available_quantity = ?, reserved_quantity = ?, last_updated = ? WHERE zone_id = ? AND product_id = ?"@,
            Statement::GetInventoryProduct =>
                "SELECT total_available, total_reserved FROM warehouse.inventory_by_product WHERE product_id = ?"@,
            Statement::UpsertInventoryProduct =>
                "UPDATE warehouse.inventory_by_product SET total_available = ?, total_reserved = ?, last_updated = ? WHERE product_id = ?"@,
            Statement::InsertHistory =>
                "INSERT INTO warehouse.event_history (event_type, event_id, event_timestamp, product_id, zone_id, payload_json, processed_at) VALUES (?, ?, ?, ?, ?, ?, ?)"@,
            Statement::GetOrder =>
                "SELECT status, items_json FROM warehouse.orders WHERE order_id = ?"@,
            Statement::UpsertOrder =>
                "INSERT INTO warehouse.orders (order_id, status, items_json, created_at, updated_at) VALUES (?, ?, ?, ?, ?)"@,
            Statement::GetEntityTs =>
                "SELECT last_event_timestamp FROM warehouse.entity_last_timestamp WHERE entity_id = ?"@,
            Statement::UpsertEntityTs =>
                "UPDATE warehouse.entity_last_timestamp SET last_event_timestamp = ?, last_event_id = ? WHERE entity_id = ?"@,
            Statement::UpdateSupplierId =>
                "UPDATE warehouse.inventory_by_product_zone SET supplier_id = ? WHERE product_id = ? AND zone_id = ?"@,
        }
    }

    /// The statement in CQL.
    pub fn cql(self) -> (r: &'static str)
        ensures
            r@ == self.cql_text(),
    {
        match self {
            Statement::CheckProcessed =>
                "SELECT event_id FROM warehouse.processed_events WHERE event_id = ?",
            Statement::InsertProcessed =>
                "INSERT INTO warehouse.processed_events (event_id, event_type, processed_at, partition, kafka_offset) VALUES (?, ?, ?, ?, ?)",
            Statement::GetInventoryPz =>
                "SELECT available_quantity, reserved_quantity FROM warehouse.inventory_by_product_zone WHERE product_id = ? AND zone_id = ?",
            Statement::UpsertInventoryPz =>
                "UPDATE warehouse.inventory_by_product_zone SET available_quantity = ?, reserved_quantity = ?, last_updated = ?, last_event_id = ?, last_event_timestamp = ? WHERE product_id = ? AND zone_id = ?",
            Statement::UpsertInventoryZone =>
                "UPDATE warehouse.inventory_by_zone SET available_quantity = ?, reserved_quantity = ?, last_updated = ? WHERE zone_id = ? AND product_id = ?",
            Statement::GetInventoryProduct =>
                "SELECT total_available, total_reserved FROM warehouse.inventory_by_product WHERE product_id = ?",
            Statement::UpsertInventoryProduct =>
                "UPDATE warehouse.inventory_by_product SET total_available = ?, total_reserved = ?, last_updated = ? WHERE product_id = ?",
            Statement::InsertHistory =>
                "INSERT INTO warehouse.event_history (event_type, event_id, event_timestamp, product_id, zone_id, payload_json, processed_at) VALUES (?, ?, ?, ?, ?, ?, ?)",
            Statement::GetOrder =>
                "SELECT status, items_json FROM warehouse.orders WHERE order_id = ?",
            Statement::UpsertOrder =>
                "INSERT INTO warehouse.orders (order_id, status, items_json, created_at, updated_at) VALUES (?, ?, ?, ?, ?)",
            Statement::GetEntityTs =>
                "SELECT last_event_timestamp FROM warehouse.entity_last_timestamp WHERE entity_id = ?",
            Statement::UpsertEntityTs =>
                "UPDATE warehouse.entity_last_timestamp SET last_event_timestamp = ?, last_event_id = ? WHERE entity_id = ?",
            Statement::UpdateSupplierId =>
                "UPDATE warehouse.inventory_by_product_zone SET supplier_id = ? WHERE product_id = ? AND zone_id = ?",
        }
    }

    /// Whether the statement only reads.
    pub open spec fn reads(self) -> bool {
        self == Statement::CheckProcessed || self == Statement::GetInventoryPz || self
            == Statement::GetInventoryProduct || self == Statement::GetOrder || self
            == Statement::GetEntityTs
    }

    /// The consistency that the statement is prepared with.
    pub fn consistency(self, write: Consistency, read: Consistency) -> (r: Consistency)
        ensures
            r == if self.reads() {
                read
            } else {
                write
            },
    {
        match self {
            Statement::CheckProcessed
            | Statement::GetInventoryPz
            | Statement::GetInventoryProduct
            | Statement::GetOrder
            | Statement::GetEntityTs => read,
            _ => write,
        }
    }

    /// Every statement, in the order in which they are prepared.
    pub open spec fn every() -> Seq<Statement> {
        seq![
            Statement::CheckProcessed,
            Statement::InsertProcessed,
            Statement::GetInventoryPz,
            Statement::UpsertInventoryPz,
            Statement::UpsertInventoryZone,
            Statement::GetInventoryProduct,
            Statement::UpsertInventoryProduct,
            Statement::InsertHistory,
            Statement::GetOrder,
            Statement::UpsertOrder,
            Statement::GetEntityTs,
            Statement::UpsertEntityTs,
            Statement::UpdateSupplierId,
        ]
    }

    /// Every statement, in the order in which they are prepared.
    pub fn all() -> (r: Vec<Statement>)
        ensures
            r@ == Self::every(),
            forall|s: Statement| #[trigger] r@.contains(s),
    {
        let r = vec![
            Statement::CheckProcessed,
            Statement::InsertProcessed,
            Statement::GetInventoryPz,
            Statement::UpsertInventoryPz,
            Statement::UpsertInventoryZone,
            Statement::GetInventoryProduct,
            Statement::UpsertInventoryProduct,
            Statement::InsertHistory,
            Statement::GetOrder,
            Statement::UpsertOrder,
            Statement::GetEntityTs,
            Statement::UpsertEntityTs,
            Statement::UpdateSupplierId,
        ];
        assert(r@ =~= Self::every());
        assert forall|s: Statement| #[trigger] r@.contains(s) by {
            assert(r@[s.place()] == s);
        }
        r
    }

    /// The statement's place in that order.
    pub open spec fn place(self) -> int {
        match self {
            Statement::CheckProcessed => 0,
            Statement::InsertProcessed => 1,
            Statement::GetInventoryPz => 2,
            Statement::UpsertInventoryPz => 3,
            Statement::UpsertInventoryZone => 4,
            Statement::GetInventoryProduct => 5,
            Statement::UpsertInventoryProduct => 6,
            Statement::InsertHistory => 7,
            Statement::GetOrder => 8,
            Statement::UpsertOrder => 9,
            Statement::GetEntityTs => 10,
            Statement::UpsertEntityTs => 11,
            Statement::UpdateSupplierId => 12,
        }
    }
}

/// A value that is bound to a statement.
#[derive(Debug)]
pub enum Bind {
    Text(String),
    BigInt(i64),
    Int(i32),
    Timestamp(Timestamp),
}

/// What a [`Bind`] holds.
pub enum BindView {
    Text(Seq<char>),
    BigInt(int),
    Int(int),
    Timestamp(Timestamp),
}

impl View for Bind {
    type V = BindView;

    open spec fn view(&self) -> BindView {
        match self {
            Bind::Text(s) => BindView::Text(s@),
            Bind::BigInt(n) => BindView::BigInt(*n as int),
            Bind::Int(n) => BindView::Int(*n as int),
            Bind::Timestamp(t) => BindView::Timestamp(*t),
        }
    }
}

/// A statement with its values, in the order of its question marks.
#[derive(Debug)]
pub struct BoundStatement {
    pub statement: Statement,
    pub values: Vec<Bind>,
}

/// What a [`BoundStatement`] holds.
pub struct BoundView {
    pub statement: Statement,
    pub values: Seq<BindView>,
}

impl View for BoundStatement {
    type V = BoundView;

    open spec fn view(&self) -> BoundView {
        BoundView {
            statement: self.statement,
            values: Seq::new(self.values@.len(), |i: int| self.values@[i]@),
        }
    }
}

/// What a list of bound statements holds.
pub open spec fn bounds(statements: Seq<BoundStatement>) -> Seq<BoundView> {
    Seq::new(statements.len(), |i: int| statements[i]@)
}

/// The key of a product in a zone among the last timestamps.
pub open spec fn entity_id(product_id: Seq<char>, zone_id: Seq<char>) -> Seq<char> {
    product_id + ":"@ + zone_id
}

/// The key of a product in a zone among the last timestamps.
pub fn entity_key(product_id: &str, zone_id: &str) -> (r: String)
    ensures
        r@ == entity_id(product_id@, zone_id@),
{
    join3(product_id, ":", zone_id)
}

/// Where a message stood in the topic.
#[derive(Debug, Clone, Copy, PartialEq, Eq, Structural)]
pub struct Position {
    pub partition: i32,
    pub offset: i64,
}

/// Sets what a zone has of a product.
pub open spec fn set_zone_stock(
    available: int,
    reserved: int,
    now: Timestamp,
    event: WarehouseEvent,
    product_id: Seq<char>,
    zone_id: Seq<char>,
) -> BoundView {
    BoundView {
        statement: Statement::UpsertInventoryPz,
        values: seq![
            BindView::BigInt(available),
            BindView::BigInt(reserved),
            BindView::Timestamp(now),
            BindView::Text(event.event_id@),
            BindView::Timestamp(event.timestamp),
            BindView::Text(product_id),
            BindView::Text(zone_id),
        ],
    }
}

/// Sets the same in the table that is keyed by zone.
pub open spec fn set_stock_by_zone(
    available: int,
    reserved: int,
    now: Timestamp,
    zone_id: Seq<char>,
    product_id: Seq<char>,
) -> BoundView {
    BoundView {
        statement: Statement::UpsertInventoryZone,
        values: seq![
            BindView::BigInt(available),
            BindView::BigInt(reserved),
            BindView::Timestamp(now),
            BindView::Text(zone_id),
            BindView::Text(product_id),
        ],
    }
}

/// Sets what there is of a product in all zones.
pub open spec fn set_product_stock(
    available: int,
    reserved: int,
    now: Timestamp,
    product_id: Seq<char>,
) -> BoundView {
    BoundView {
        statement: Statement::UpsertInventoryProduct,
        values: seq![
            BindView::BigInt(available),
            BindView::BigInt(reserved),
            BindView::Timestamp(now),
            BindView::Text(product_id),
        ],
    }
}

/// Notes that an event has been processed.
pub open spec fn note_processed(
    event: WarehouseEvent,
    now: Timestamp,
    at: Position,
) -> BoundView {
    BoundView {
        statement: Statement::InsertProcessed,
        values: seq![
            BindView::Text(event.event_id@),
            BindView::Text(event.event_type@),
            BindView::Timestamp(now),
            BindView::Int(at.partition as int),
            BindView::BigInt(at.offset as int),
        ],
    }
}

/// Adds an event to the history.
pub open spec fn add_history(
    event: WarehouseEvent,
    product_id: Seq<char>,
    zone_id: Seq<char>,
    now: Timestamp,
) -> BoundView {
    BoundView {
        statement: Statement::InsertHistory,
        values: seq![
            BindView::Text(event.event_type@),
            BindView::Text(event.event_id@),
            BindView::Timestamp(event.timestamp),
            BindView::Text(product_id),
            BindView::Text(zone_id),
            BindView::Text(json::json_text(event.payload@)),
            BindView::Timestamp(now),
        ],
    }
}

/// Saves an order.
pub open spec fn save_order(
    order_id: Seq<char>,
    status: Seq<char>,
    items_json: Seq<char>,
    created_at: Timestamp,
    now: Timestamp,
) -> BoundView {
    BoundView {
        statement: Statement::UpsertOrder,
        values: seq![
            BindView::Text(order_id),
            BindView::Text(status),
            BindView::Text(items_json),
            BindView::Timestamp(created_at),
            BindView::Timestamp(now),
        ],
    }
}

/// Notes the event that touched an entity last.
pub open spec fn note_touched(event: WarehouseEvent, entity: Seq<char>) -> BoundView {
    BoundView {
        statement: Statement::UpsertEntityTs,
        values: seq![
            BindView::Timestamp(event.timestamp),
            BindView::Text(event.event_id@),
            BindView::Text(entity),
        ],
    }
}

/// Notes who supplied a product to a zone.
pub open spec fn note_supplier(
    supplier_id: Seq<char>,
    product_id: Seq<char>,
    zone_id: Seq<char>,
) -> BoundView {
    BoundView {
        statement: Statement::UpdateSupplierId,
        values: seq![
            BindView::Text(supplier_id),
            BindView::Text(product_id),
            BindView::Text(zone_id),
        ],
    }
}

fn bind(statement: Statement, values: Vec<Bind>, Ghost(view): Ghost<BoundView>) -> (r:
    BoundStatement)
    requires
        statement == view.statement,
        values@.len() == view.values.len(),
        forall|i: int| 0 <= i < values@.len() ==> (#[trigger] values@[i])@ == view.values[i],
    ensures
        r@ == view,
{
    let r = BoundStatement { statement, values };
    assert(r@.values =~= view.values);
    r
}

fn text_value(s: &str) -> (r: Bind)
    ensures
        r@ == BindView::Text(s@),
{
    Bind::Text(s.to_string())
}

fn bind_zone_stock(
    available: i64,
    reserved: i64,
    now: Timestamp,
    event: &WarehouseEvent,
    product_id: &str,
    zone_id: &str,
) -> (r: BoundStatement)
    ensures
        r@ == set_zone_stock(
            available as int,
            reserved as int,
            now,
            *event,
            product_id@,
            zone_id@,
        ),
{
    bind(
        Statement::UpsertInventoryPz,
        vec![
            Bind::BigInt(available),
            Bind::BigInt(reserved),
            Bind::Timestamp(now),
            text_value(event.event_id.as_str()),
            Bind::Timestamp(event.timestamp),
            text_value(product_id),
            text_value(zone_id),
        ],
        Ghost(
            set_zone_stock(
                available as int,
                reserved as int,
                now,
                *event,
                product_id@,
                zone_id@,
            ),
        ),
    )
}

fn bind_stock_by_zone(
    available: i64,
    reserved: i64,
    now: Timestamp,
    zone_id: &str,
    product_id: &str,
) -> (r: BoundStatement)
    ensures
        r@ == set_stock_by_zone(available as int, reserved as int, now, zone_id@, product_id@),
{
    bind(
        Statement::UpsertInventoryZone,
        vec![
            Bind::BigInt(available),
            Bind::BigInt(reserved),
            Bind::Timestamp(now),
            text_value(zone_id),
            text_value(product_id),
        ],
        Ghost(set_stock_by_zone(available as int, reserved as int, now, zone_id@, product_id@)),
    )
}

fn bind_product_stock(available: i64, reserved: i64, now: Timestamp, product_id: &str) -> (r:
    BoundStatement)
    ensures
        r@ == set_product_stock(available as int, reserved as int, now, product_id@),
{
    bind(
        Statement::UpsertInventoryProduct,
        vec![
            Bind::BigInt(available),
            Bind::BigInt(reserved),
            Bind::Timestamp(now),
            text_value(product_id),
        ],
        Ghost(set_product_stock(available as int, reserved as int, now, product_id@)),
    )
}

fn bind_history(
    event: &WarehouseEvent,
    product_id: &str,
    zone_id: &str,
    now: Timestamp,
) -> (r: BoundStatement)
    ensures
        r@ == add_history(*event, product_id@, zone_id@, now),
{
    let payload_json = json_string(&event.payload);
    bind(
        Statement::InsertHistory,
        vec![
            text_value(event.event_type.as_str()),
            text_value(event.event_id.as_str()),
            Bind::Timestamp(event.timestamp),
            text_value(product_id),
            text_value(zone_id),
            Bind::Text(payload_json),
            Bind::Timestamp(now),
        ],
        Ghost(add_history(*event, product_id@, zone_id@, now)),
    )
}

/// Notes that an event has been processed.
pub fn mark_processed(event: &WarehouseEvent, at: Position, now: Timestamp) -> (r: BoundStatement)
    ensures
        r@ == note_processed(*event, now, at),
{
    bind(
        Statement::InsertProcessed,
        vec![
            text_value(event.event_id.as_str()),
            text_value(event.event_type.as_str()),
            Bind::Timestamp(now),
            Bind::Int(at.partition),
            Bind::BigInt(at.offset),
        ],
        Ghost(note_processed(*event, now, at)),
    )
}

/// Saves an order.
pub fn upsert_order(
    order_id: &str,
    status: &str,
    items_json: &str,
    created_at: Timestamp,
    now: Timestamp,
) -> (r: BoundStatement)
    ensures
        r@ == save_order(order_id@, status@, items_json@, created_at, now),
{
    bind(
        Statement::UpsertOrder,
        vec![
            text_value(order_id),
            text_value(status),
            text_value(items_json),
            Bind::Timestamp(created_at),
            Bind::Timestamp(now),
        ],
        Ghost(save_order(order_id@, status@, items_json@, created_at, now)),
    )
}

/// Notes the event that touched a product in a zone last.
pub fn update_entity_timestamp(event: &WarehouseEvent, product_id: &str, zone_id: &str) -> (r:
    BoundStatement)
    ensures
        r@ == note_touched(*event, entity_id(product_id@, zone_id@)),
{
    bind(
        Statement::UpsertEntityTs,
        vec![
            Bind::Timestamp(event.timestamp),
            text_value(event.event_id.as_str()),
            Bind::Text(entity_key(product_id, zone_id)),
        ],
        Ghost(note_touched(*event, entity_id(product_id@, zone_id@))),
    )
}

/// Notes who supplied a product to a zone.
pub fn update_supplier(supplier_id: &str, product_id: &str, zone_id: &str) -> (r: BoundStatement)
    ensures
        r@ == note_supplier(supplier_id@, product_id@, zone_id@),
{
    bind(
        Statement::UpdateSupplierId,
        vec![text_value(supplier_id), text_value(product_id), text_value(zone_id)],
        Ghost(note_supplier(supplier_id@, product_id@, zone_id@)),
    )
}

/// Whether a number can be kept as a quantity.
pub open spec fn is_quantity(n: int) -> bool {
    i64::MIN <= n <= i64::MAX
}

/// Whether a number can be kept as a quantity.
pub fn fits_quantity(n: i128) -> (r: bool)
    ensures
        r == is_quantity(n as int),
{
    i64::MIN as i128 <= n && n <= i64::MAX as i128
}

/// By how much a batch changes what is available and what is reserved.
#[derive(Debug, Clone, Copy, PartialEq, Eq, Structural)]
pub struct Delta {
    pub available: i128,
    pub reserved: i128,
}

impl Delta {
    /// Whether the changed quantities can be kept.
    pub open spec fn fits(self, stock: InventoryRecord) -> bool {
        is_quantity(stock.available + self.available) && is_quantity(
            stock.reserved + self.reserved,
        )
    }

    /// Whether the changed quantities can be kept.
    pub fn can_apply(self, stock: InventoryRecord) -> (r: bool)
        ensures
            r == self.fits(stock),
    {
        match ((stock.available as i128).checked_add(self.available), (
            stock.reserved as i128).checked_add(self.reserved)) {
            (Some(available), Some(reserved)) => fits_quantity(available) && fits_quantity(
                reserved,
            ),
            _ => false,
        }
    }

    fn apply(self, stock: InventoryRecord) -> (r: InventoryRecord)
        requires
            self.fits(stock),
        ensures
            r.available == stock.available + self.available,
            r.reserved == stock.reserved + self.reserved,
    {
        InventoryRecord {
            available: (stock.available as i128 + self.available) as i64,
            reserved: (stock.reserved as i128 + self.reserved) as i64,
        }
    }
}

/// The batch that changes what a zone has of a product, and the product's total with it.
pub open spec fn delta_batch(
    event: WarehouseEvent,
    at: Position,
    now: Timestamp,
    product_id: Seq<char>,
    zone_id: Seq<char>,
    delta: Delta,
    zone: InventoryRecord,
    product: InventoryRecord,
) -> Seq<BoundView> {
    let available = zone.available + delta.available;
    let reserved = zone.reserved + delta.reserved;
    seq![
        set_zone_stock(available, reserved, now, event, product_id, zone_id),
        set_stock_by_zone(available, reserved, now, zone_id, product_id),
        set_product_stock(
            product.available + delta.available,
            product.reserved + delta.reserved,
            now,
            product_id,
        ),
        note_processed(event, now, at),
        add_history(event, product_id, zone_id, now),
    ]
}

/// Changes what a zone has of a product, and the product's total with it.
pub fn apply_delta(
    event: &WarehouseEvent,
    at: Position,
    now: Timestamp,
    product_id: &str,
    zone_id: &str,
    delta: Delta,
    zone: InventoryRecord,
    product: InventoryRecord,
) -> (r: Vec<BoundStatement>)
    requires
        delta.fits(zone),
        delta.fits(product),
    ensures
        bounds(r@) == delta_batch(
            *event,
            at,
            now,
            product_id@,
            zone_id@,
            delta,
            zone,
            product,
        ),
{
    let left = delta.apply(zone);
    let total = delta.apply(product);
    let r = vec![
        bind_zone_stock(left.available, left.reserved, now, event, product_id, zone_id),
        bind_stock_by_zone(left.available, left.reserved, now, zone_id, product_id),
        bind_product_stock(total.available, total.reserved, now, product_id),
        mark_processed(event, at, now),
        bind_history(event, product_id, zone_id, now),
    ];
    assert(bounds(r@) =~= delta_batch(
        *event,
        at,
        now,
        product_id@,
        zone_id@,
        delta,
        zone,
        product,
    ));
    r
}

/// The batch that moves stock of a product from one zone to another.
pub open spec fn move_batch(
    event: WarehouseEvent,
    at: Position,
    now: Timestamp,
    product_id: Seq<char>,
    from_zone: Seq<char>,
    to_zone: Seq<char>,
    quantity: int,
    from: InventoryRecord,
    to: InventoryRecord,
) -> Seq<BoundView> {
    let left = from.available - quantity;
    let gained = to.available + quantity;
    seq![
        set_zone_stock(left, from.reserved as int, now, event, product_id, from_zone),
        set_stock_by_zone(left, from.reserved as int, now, from_zone, product_id),
        set_zone_stock(gained, to.reserved as int, now, event, product_id, to_zone),
        set_stock_by_zone(gained, to.reserved as int, now, to_zone, product_id),
        note_processed(event, now, at),
        add_history(event, product_id, from_zone, now),
    ]
}

/// Moves stock of a product from one zone to another.
pub fn apply_move_delta(
    event: &WarehouseEvent,
    at: Position,
    now: Timestamp,
    product_id: &str,
    from_zone: &str,
    to_zone: &str,
    quantity: i64,
    from: InventoryRecord,
    to: InventoryRecord,
) -> (r: Vec<BoundStatement>)
    requires
        is_quantity(from.available - quantity),
        is_quantity(to.available + quantity),
    ensures
        bounds(r@) == move_batch(
            *event,
            at,
            now,
            product_id@,
            from_zone@,
            to_zone@,
            quantity as int,
            from,
            to,
        ),
{
    let left: i64 = from.available - quantity;
    let gained: i64 = to.available + quantity;
    let r = vec![
        bind_zone_stock(left, from.reserved, now, event, product_id, from_zone),
        bind_stock_by_zone(left, from.reserved, now, from_zone, product_id),
        bind_zone_stock(gained, to.reserved, now, event, product_id, to_zone),
        bind_stock_by_zone(gained, to.reserved, now, to_zone, product_id),
        mark_processed(event, at, now),
        bind_history(event, product_id, from_zone, now),
    ];
    assert(bounds(r@) =~= move_batch(
        *event,
        at,
        now,
        product_id@,
        from_zone@,
        to_zone@,
        quantity as int,
        from,
        to,
    ));
    r
}

/// The batch that sets what is available of a product in a zone to what was counted,
/// and changes the product's total by as much.
pub open spec fn count_batch(
    event: WarehouseEvent,
    at: Position,
    now: Timestamp,
    product_id: Seq<char>,
    zone_id: Seq<char>,
    counted: int,
    zone: InventoryRecord,
    product: InventoryRecord,
) -> Seq<BoundView> {
    seq![
        set_zone_stock(counted, zone.reserved as int, now, event, product_id, zone_id),
        set_stock_by_zone(counted, zone.reserved as int, now, zone_id, product_id),
        set_product_stock(
            product.available + (counted - zone.available),
            product.reserved as int,
            now,
            product_id,
        ),
        note_processed(event, now, at),
        add_history(event, product_id, zone_id, now),
    ]
}

/// Sets what is available of a product in a zone to what was counted.
pub fn set_inventory_count(
    event: &WarehouseEvent,
    at: Position,
    now: Timestamp,
    product_id: &str,
    zone_id: &str,
    counted: i64,
    zone: InventoryRecord,
    product: InventoryRecord,
) -> (r: Vec<BoundStatement>)
    requires
        is_quantity(counted - zone.available),
        is_quantity(product.available + (counted - zone.available)),
    ensures
        bounds(r@) == count_batch(
            *event,
            at,
            now,
            product_id@,
            zone_id@,
            counted as int,
            zone,
            product,
        ),
{
    let total: i64 = product.available + (counted - zone.available);
    let r = vec![
        bind_zone_stock(counted, zone.reserved, now, event, product_id, zone_id),
        bind_stock_by_zone(counted, zone.reserved, now, zone_id, product_id),
        bind_product_stock(total, product.reserved, now, product_id),
        mark_processed(event, at, now),
        bind_history(event, product_id, zone_id, now),
    ];
    assert(bounds(r@) =~= count_batch(
        *event,
        at,
        now,
        product_id@,
        zone_id@,
        counted as int,
        zone,
        product,
    ));
    r
}

/// The name of a consistency.
pub open spec fn name_of(consistency: Consistency) -> Seq<char> {
    match consistency {
        Consistency::All => "ALL"@,
        Consistency::Quorum => "QUORUM"@,
        Consistency::LocalQuorum => "LOCAL_QUORUM"@,
        Consistency::EachQuorum => "EACH_QUORUM"@,
        Consistency::One => "ONE"@,
        Consistency::Two => "TWO"@,
        Consistency::Three => "THREE"@,
        Consistency::LocalOne => "LOCAL_ONE"@,
        Consistency::Any => "ANY"@,
    }
}

/// Each consistency is found by its name, and a quorum by a text that is the name of none.
pub proof fn consistency_is_found_by_its_name(consistency: Consistency, text: Seq<char>)
    ensures
        consistency_of(name_of(consistency)) == consistency,
        (forall|c: Consistency| #[trigger] name_of(c) != text) ==> consistency_of(text)
            == Consistency::Quorum,
        consistency_of(text) != Consistency::Quorum ==> text == name_of(consistency_of(text)),
{
    reveal_strlit("ALL");
    reveal_strlit("QUORUM");
    reveal_strlit("LOCAL_QUORUM");
    reveal_strlit("EACH_QUORUM");
    reveal_strlit("ONE");
    reveal_strlit("TWO");
    reveal_strlit("THREE");
    reveal_strlit("LOCAL_ONE");
    reveal_strlit("ANY");
    assert("ALL"@.len() == 3 && "QUORUM"@.len() == 6 && "LOCAL_QUORUM"@.len() == 12
        && "EACH_QUORUM"@.len() == 11 && "ONE"@.len() == 3 && "TWO"@.len() == 3
        && "THREE"@.len() == 5 && "LOCAL_ONE"@.len() == 9 && "ANY"@.len() == 3);
    assert("ALL"@[1] == 'L' && "ANY"@[1] == 'N' && "ONE"@[0] == 'O' && "TWO"@[0] == 'T'
        && "ALL"@[0] == 'A' && "ANY"@[0] == 'A');
    assert(name_of(Consistency::All) == "ALL"@);
    assert(name_of(Consistency::LocalQuorum) == "LOCAL_QUORUM"@);
    assert(name_of(Consistency::EachQuorum) == "EACH_QUORUM"@);
    assert(name_of(Consistency::One) == "ONE"@);
    assert(name_of(Consistency::Two) == "TWO"@);
    assert(name_of(Consistency::Three) == "THREE"@);
    assert(name_of(Consistency::LocalOne) == "LOCAL_ONE"@);
    assert(name_of(Consistency::Any) == "ANY"@);
}

/// The key of a product in a zone is the product, a colon and the zone.
pub proof fn entity_is_product_and_zone(product_id: Seq<char>, zone_id: Seq<char>)
    ensures
        entity_id(product_id, zone_id) == product_id + seq![':'] + zone_id,
{
    reveal_strlit(":");
    assert(":"@ =~= seq![':']);
}

/// A quantity can be kept exactly if it is one of 64 bits, and a change can be made exactly
/// if both quantities can be kept then.
pub proof fn quantities_have_64_bits(n: int, delta: Delta, stock: InventoryRecord)
    ensures
        is_quantity(n) <==> -0x8000_0000_0000_0000 <= n < 0x8000_0000_0000_0000,
        delta.fits(stock) <==> -0x8000_0000_0000_0000 <= stock.available + delta.available
            < 0x8000_0000_0000_0000 && -0x8000_0000_0000_0000 <= stock.reserved + delta.reserved
            < 0x8000_0000_0000_0000,
{
}

} // verus!

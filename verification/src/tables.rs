//! The tables: which columns a statement names in which order, and what goes into them.
use crate::cassandra;
use crate::cassandra::{BindView, BoundView, Position, Statement};
use crate::events::WarehouseEvent;
use crate::json;
use crate::run::{RequestView, RunView};
use crate::store;
use crate::store::{Amount, HistoryRow, OrderRow, Store};
use crate::time::Timestamp;
use vstd::prelude::*;

verus! {

/// The columns of the tables.
#[derive(Clone, Copy, PartialEq, Eq, Structural)]
pub enum Column {
    EventId,
    EventType,
    ProcessedAt,
    Partition,
    KafkaOffset,
    AvailableQuantity,
    ReservedQuantity,
    ProductId,
    ZoneId,
    LastUpdated,
    LastEventId,
    LastEventTimestamp,
    TotalAvailable,
    TotalReserved,
    EventTimestamp,
    PayloadJson,
    Status,
    ItemsJson,
    OrderId,
    CreatedAt,
    UpdatedAt,
    EntityId,
    SupplierId,
}

impl Column {
    pub open spec fn text(self) -> Seq<char> {
        match self {
            Column::EventId => "event_id"@,
            Column::EventType => "event_type"@,
            Column::ProcessedAt => "processed_at"@,
            Column::Partition => "partition"@,
            Column::KafkaOffset => "kafka_offset"@,
            Column::AvailableQuantity => "available_quantity"@,
            Column::ReservedQuantity => "reserved_quantity"@,
            Column::ProductId => "product_id"@,
            Column::ZoneId => "zone_id"@,
            Column::LastUpdated => "last_updated"@,
            Column::LastEventId => "last_event_id"@,
            Column::LastEventTimestamp => "last_event_timestamp"@,
            Column::TotalAvailable => "total_available"@,
            Column::TotalReserved => "total_reserved"@,
            Column::EventTimestamp => "event_timestamp"@,
            Column::PayloadJson => "payload_json"@,
            Column::Status => "status"@,
            Column::ItemsJson => "items_json"@,
            Column::OrderId => "order_id"@,
            Column::CreatedAt => "created_at"@,
            Column::UpdatedAt => "updated_at"@,
            Column::EntityId => "entity_id"@,
            Column::SupplierId => "supplier_id"@,
        }
    }
}

/// What a statement does with a table: to which columns it writes, or which it reads, and by
/// which columns it finds its rows.
pub enum Layout {
    Select { table: Seq<char>, columns: Seq<Column>, key: Seq<Column> },
    Insert { table: Seq<char>, columns: Seq<Column> },
    Update { table: Seq<char>, columns: Seq<Column>, key: Seq<Column> },
}

/// Names of columns, with commas between them.
pub open spec fn listed(columns: Seq<Column>) -> Seq<char>
    decreases columns.len(),
{
    if columns.len() == 0 {
        Seq::empty()
    } else if columns.len() == 1 {
        columns[0].text()
    } else {
        listed(columns.drop_last()) + ", "@ + columns.last().text()
    }
}

/// A question mark for each of as many values, with commas between them.
pub open spec fn marks(count: int) -> Seq<char>
    decreases count,
{
    if count <= 0 {
        Seq::empty()
    } else if count == 1 {
        "?"@
    } else {
        marks(count - 1) + ", "@ + "?"@
    }
}

/// A question mark for each of these columns.
pub open spec fn matched(columns: Seq<Column>, between: Seq<char>) -> Seq<char>
    decreases columns.len(),
{
    if columns.len() == 0 {
        Seq::empty()
    } else if columns.len() == 1 {
        columns[0].text() + " = ?"@
    } else {
        matched(columns.drop_last(), between) + between + columns.last().text() + " = ?"@
    }
}

impl Layout {
    /// The statement in CQL.
    pub open spec fn text(self) -> Seq<char> {
        match self {
            Layout::Select { table, columns, key } => "SELECT "@ + listed(columns)
                + " FROM warehouse."@ + table + " WHERE "@ + matched(key, " AND "@),
            Layout::Insert { table, columns } => "INSERT INTO warehouse."@ + table + " ("@ + listed(
                columns,
            ) + ") VALUES ("@ + marks(columns.len() as int) + ")"@,
            Layout::Update { table, columns, key } => "UPDATE warehouse."@ + table + " SET "@
                + matched(columns, ", "@) + " WHERE "@ + matched(key, " AND "@),
        }
    }

    /// The columns that its values go to, or are held against: in the order of its question
    /// marks.
    pub open spec fn bound(self) -> Seq<Column> {
        match self {
            Layout::Select { key, .. } => key,
            Layout::Insert { columns, .. } => columns,
            Layout::Update { columns, key, .. } => columns + key,
        }
    }

    pub open spec fn table(self) -> Seq<char> {
        match self {
            Layout::Select { table, .. } => table,
            Layout::Insert { table, .. } => table,
            Layout::Update { table, .. } => table,
        }
    }
}

/// What each statement does with its table.
pub open spec fn layout(statement: Statement) -> Layout {
    match statement {
        Statement::CheckProcessed => Layout::Select {
            table: "processed_events"@,
            columns: seq![Column::EventId],
            key: seq![Column::EventId],
        },
        Statement::InsertProcessed => Layout::Insert {
            table: "processed_events"@,
            columns: seq![Column::EventId, Column::EventType, Column::ProcessedAt, Column::Partition, Column::KafkaOffset],
        },
        Statement::GetInventoryPz => Layout::Select {
            table: "inventory_by_product_zone"@,
            columns: seq![Column::AvailableQuantity, Column::ReservedQuantity],
            key: seq![Column::ProductId, Column::ZoneId],
        },
        Statement::UpsertInventoryPz => Layout::Update {
            table: "inventory_by_product_zone"@,
            columns: seq![Column::AvailableQuantity, Column::ReservedQuantity, Column::LastUpdated, Column::LastEventId, Column::LastEventTimestamp],
            key: seq![Column::ProductId, Column::ZoneId],
        },
        Statement::UpsertInventoryZone => Layout::Update {
            table: "inventory_by_zone"@,
            columns: seq![Column::AvailableQuantity, Column::ReservedQuantity, Column::LastUpdated],
            key: seq![Column::ZoneId, Column::ProductId],
        },
        Statement::GetInventoryProduct => Layout::Select {
            table: "inventory_by_product"@,
            columns: seq![Column::TotalAvailable, Column::TotalReserved],
            key: seq![Column::ProductId],
        },
        Statement::UpsertInventoryProduct => Layout::Update {
            table: "inventory_by_product"@,
            columns: seq![Column::TotalAvailable, Column::TotalReserved, Column::LastUpdated],
            key: seq![Column::ProductId],
        },
        Statement::InsertHistory => Layout::Insert {
            table: "event_history"@,
            columns: seq![Column::EventType, Column::EventId, Column::EventTimestamp, Column::ProductId, Column::ZoneId, Column::PayloadJson, Column::ProcessedAt],
        },
        Statement::GetOrder => Layout::Select {
            table: "orders"@,
            columns: seq![Column::Status, Column::ItemsJson],
            key: seq![Column::OrderId],
        },
        Statement::UpsertOrder => Layout::Insert {
            table: "orders"@,
            columns: seq![Column::OrderId, Column::Status, Column::ItemsJson, Column::CreatedAt, Column::UpdatedAt],
        },
        Statement::GetEntityTs => Layout::Select {
            table: "entity_last_timestamp"@,
            columns: seq![Column::LastEventTimestamp],
            key: seq![Column::EntityId],
        },
        Statement::UpsertEntityTs => Layout::Update {
            table: "entity_last_timestamp"@,
            columns: seq![Column::LastEventTimestamp, Column::LastEventId],
            key: seq![Column::EntityId],
        },
        Statement::UpdateSupplierId => Layout::Update {
            table: "inventory_by_product_zone"@,
            columns: seq![Column::SupplierId],
            key: seq![Column::ProductId, Column::ZoneId],
        },
    }
}

proof fn lists_1(a: Column, between: Seq<char>)
    ensures
        listed(seq![a]) == a.text(),
        matched(seq![a], between) == a.text() + " = ?"@,
{
    reveal_with_fuel(listed, 2);
    reveal_with_fuel(matched, 2);
}

proof fn lists_2(a: Column, b: Column, between: Seq<char>)
    ensures
        listed(seq![a, b]) == a.text() + ", "@ + b.text(),
        matched(seq![a, b], between) == a.text() + " = ?"@ + between + b.text() + " = ?"@,
{
    reveal_with_fuel(listed, 3);
    reveal_with_fuel(matched, 3);
    assert(seq![a, b].drop_last() =~= seq![a]);
}

proof fn lists_3(a: Column, b: Column, c: Column, between: Seq<char>)
    ensures
        listed(seq![a, b, c]) == a.text() + ", "@ + b.text() + ", "@ + c.text(),
        matched(seq![a, b, c], between) == a.text() + " = ?"@ + between + b.text() + " = ?"@ + between + c.text() + " = ?"@,
{
    reveal_with_fuel(listed, 4);
    reveal_with_fuel(matched, 4);
    assert(seq![a, b, c].drop_last() =~= seq![a, b]);
    assert(seq![a, b].drop_last() =~= seq![a]);
}

proof fn lists_5(a: Column, b: Column, c: Column, d: Column, e: Column, between: Seq<char>)
    ensures
        listed(seq![a, b, c, d, e]) == a.text() + ", "@ + b.text() + ", "@ + c.text() + ", "@ + d.text() + ", "@ + e.text(),
        matched(seq![a, b, c, d, e], between) == a.text() + " = ?"@ + between + b.text() + " = ?"@ + between + c.text() + " = ?"@ + between + d.text() + " = ?"@ + between + e.text() + " = ?"@,
{
    reveal_with_fuel(listed, 6);
    reveal_with_fuel(matched, 6);
    assert(seq![a, b, c, d, e].drop_last() =~= seq![a, b, c, d]);
    assert(seq![a, b, c, d].drop_last() =~= seq![a, b, c]);
    assert(seq![a, b, c].drop_last() =~= seq![a, b]);
    assert(seq![a, b].drop_last() =~= seq![a]);
}

proof fn lists_7(a: Column, b: Column, c: Column, d: Column, e: Column, f: Column, g: Column, between: Seq<char>)
    ensures
        listed(seq![a, b, c, d, e, f, g]) == a.text() + ", "@ + b.text() + ", "@ + c.text() + ", "@ + d.text() + ", "@ + e.text() + ", "@ + f.text() + ", "@ + g.text(),
        matched(seq![a, b, c, d, e, f, g], between) == a.text() + " = ?"@ + between + b.text() + " = ?"@ + between + c.text() + " = ?"@ + between + d.text() + " = ?"@ + between + e.text() + " = ?"@ + between + f.text() + " = ?"@ + between + g.text() + " = ?"@,
{
    reveal_with_fuel(listed, 8);
    reveal_with_fuel(matched, 8);
    assert(seq![a, b, c, d, e, f, g].drop_last() =~= seq![a, b, c, d, e, f]);
    assert(seq![a, b, c, d, e, f].drop_last() =~= seq![a, b, c, d, e]);
    assert(seq![a, b, c, d, e].drop_last() =~= seq![a, b, c, d]);
    assert(seq![a, b, c, d].drop_last() =~= seq![a, b, c]);
    assert(seq![a, b, c].drop_last() =~= seq![a, b]);
    assert(seq![a, b].drop_last() =~= seq![a]);
}

proof fn check_processed_is_built()
    ensures
        Statement::CheckProcessed.cql_text() == layout(Statement::CheckProcessed).text(),
{
    reveal_strlit("SELECT event_id FROM warehouse.processed_events WHERE event_id = ?");
    reveal_strlit("SELECT ");
    reveal_strlit(" FROM warehouse.");
    reveal_strlit(" WHERE ");
    reveal_strlit(" AND ");
    reveal_strlit(" = ?");
    reveal_strlit(", ");
    reveal_strlit("processed_events");
    reveal_strlit("event_id");
    lists_1(Column::EventId, ", "@);
    lists_1(Column::EventId, " AND "@);
    assert(Statement::CheckProcessed.cql_text() =~= layout(Statement::CheckProcessed).text());
}

proof fn insert_processed_is_built()
    ensures
        Statement::InsertProcessed.cql_text() == layout(Statement::InsertProcessed).text(),
{
    reveal_strlit("INSERT INTO warehouse.processed_events (event_id, event_type, processed_at, partition, kafka_offset) VALUES (?, ?, ?, ?, ?)");
    reveal_strlit("INSERT INTO warehouse.");
    reveal_strlit(" (");
    reveal_strlit(") VALUES (");
    reveal_strlit(")");
    reveal_strlit("?");
    reveal_strlit(", ");
    reveal_strlit("processed_events");
    reveal_strlit("event_id");
    reveal_strlit("event_type");
    reveal_strlit("processed_at");
    reveal_strlit("partition");
    reveal_strlit("kafka_offset");
    lists_5(Column::EventId, Column::EventType, Column::ProcessedAt, Column::Partition, Column::KafkaOffset, ", "@);
    reveal_with_fuel(marks, 6);
    assert(Statement::InsertProcessed.cql_text() =~= layout(Statement::InsertProcessed).text());
}

proof fn get_inventory_pz_is_built()
    ensures
        Statement::GetInventoryPz.cql_text() == layout(Statement::GetInventoryPz).text(),
{
    reveal_strlit("SELECT available_quantity, reserved_quantity FROM warehouse.inventory_by_product_zone WHERE product_id = ? AND zone_id = ?");
    reveal_strlit("SELECT ");
    reveal_strlit(" FROM warehouse.");
    reveal_strlit(" WHERE ");
    reveal_strlit(" AND ");
    reveal_strlit(" = ?");
    reveal_strlit(", ");
    reveal_strlit("inventory_by_product_zone");
    reveal_strlit("available_quantity");
    reveal_strlit("reserved_quantity");
    reveal_strlit("product_id");
    reveal_strlit("zone_id");
    lists_2(Column::AvailableQuantity, Column::ReservedQuantity, ", "@);
    lists_2(Column::ProductId, Column::ZoneId, " AND "@);
    assert(Statement::GetInventoryPz.cql_text() =~= layout(Statement::GetInventoryPz).text());
}

proof fn upsert_inventory_pz_is_built()
    ensures
        Statement::UpsertInventoryPz.cql_text() == layout(Statement::UpsertInventoryPz).text(),
{
    reveal_strlit("UPDATE warehouse.inventory_by_product_zone SET available_quantity = ?, reserved_quantity = ?, last_updated = ?, last_event_id = ?, last_event_timestamp = ? WHERE product_id = ? AND zone_id = ?");
    reveal_strlit("UPDATE warehouse.");
    reveal_strlit(" SET ");
    reveal_strlit(" WHERE ");
    reveal_strlit(" AND ");
    reveal_strlit(" = ?");
    reveal_strlit(", ");
    reveal_strlit("inventory_by_product_zone");
    reveal_strlit("available_quantity");
    reveal_strlit("reserved_quantity");
    reveal_strlit("last_updated");
    reveal_strlit("last_event_id");
    reveal_strlit("last_event_timestamp");
    reveal_strlit("product_id");
    reveal_strlit("zone_id");
    lists_5(Column::AvailableQuantity, Column::ReservedQuantity, Column::LastUpdated, Column::LastEventId, Column::LastEventTimestamp, ", "@);
    lists_2(Column::ProductId, Column::ZoneId, " AND "@);
    assert(Statement::UpsertInventoryPz.cql_text() =~= layout(Statement::UpsertInventoryPz).text());
}

proof fn upsert_inventory_zone_is_built()
    ensures
        Statement::UpsertInventoryZone.cql_text() == layout(Statement::UpsertInventoryZone).text(),
{
    reveal_strlit("UPDATE warehouse.inventory_by_zone SET available_quantity = ?, reserved_quantity = ?, last_updated = ? WHERE zone_id = ? AND product_id = ?");
    reveal_strlit("UPDATE warehouse.");
    reveal_strlit(" SET ");
    reveal_strlit(" WHERE ");
    reveal_strlit(" AND ");
    reveal_strlit(" = ?");
    reveal_strlit(", ");
    reveal_strlit("inventory_by_zone");
    reveal_strlit("available_quantity");
    reveal_strlit("reserved_quantity");
    reveal_strlit("last_updated");
    reveal_strlit("zone_id");
    reveal_strlit("product_id");
    lists_3(Column::AvailableQuantity, Column::ReservedQuantity, Column::LastUpdated, ", "@);
    lists_2(Column::ZoneId, Column::ProductId, " AND "@);
    assert(Statement::UpsertInventoryZone.cql_text() =~= layout(Statement::UpsertInventoryZone).text());
}

proof fn get_inventory_product_is_built()
    ensures
        Statement::GetInventoryProduct.cql_text() == layout(Statement::GetInventoryProduct).text(),
{
    reveal_strlit("SELECT total_available, total_reserved FROM warehouse.inventory_by_product WHERE product_id = ?");
    reveal_strlit("SELECT ");
    reveal_strlit(" FROM warehouse.");
    reveal_strlit(" WHERE ");
    reveal_strlit(" AND ");
    reveal_strlit(" = ?");
    reveal_strlit(", ");
    reveal_strlit("inventory_by_product");
    reveal_strlit("total_available");
    reveal_strlit("total_reserved");
    reveal_strlit("product_id");
    lists_2(Column::TotalAvailable, Column::TotalReserved, ", "@);
    lists_1(Column::ProductId, " AND "@);
    assert(Statement::GetInventoryProduct.cql_text() =~= layout(Statement::GetInventoryProduct).text());
}

proof fn upsert_inventory_product_is_built()
    ensures
        Statement::UpsertInventoryProduct.cql_text() == layout(Statement::UpsertInventoryProduct).text(),
{
    reveal_strlit("UPDATE warehouse.inventory_by_product SET total_available = ?, total_reserved = ?, last_updated = ? WHERE product_id = ?");
    reveal_strlit("UPDATE warehouse.");
    reveal_strlit(" SET ");
    reveal_strlit(" WHERE ");
    reveal_strlit(" AND ");
    reveal_strlit(" = ?");
    reveal_strlit(", ");
    reveal_strlit("inventory_by_product");
    reveal_strlit("total_available");
    reveal_strlit("total_reserved");
    reveal_strlit("last_updated");
    reveal_strlit("product_id");
    lists_3(Column::TotalAvailable, Column::TotalReserved, Column::LastUpdated, ", "@);
    lists_1(Column::ProductId, " AND "@);
    assert(Statement::UpsertInventoryProduct.cql_text() =~= layout(Statement::UpsertInventoryProduct).text());
}

proof fn insert_history_is_built()
    ensures
        Statement::InsertHistory.cql_text() == layout(Statement::InsertHistory).text(),
{
    reveal_strlit("INSERT INTO warehouse.event_history (event_type, event_id, event_timestamp, product_id, zone_id, payload_json, processed_at) VALUES (?, ?, ?, ?, ?, ?, ?)");
    reveal_strlit("INSERT INTO warehouse.");
    reveal_strlit(" (");
    reveal_strlit(") VALUES (");
    reveal_strlit(")");
    reveal_strlit("?");
    reveal_strlit(", ");
    reveal_strlit("event_history");
    reveal_strlit("event_type");
    reveal_strlit("event_id");
    reveal_strlit("event_timestamp");
    reveal_strlit("product_id");
    reveal_strlit("zone_id");
    reveal_strlit("payload_json");
    reveal_strlit("processed_at");
    lists_7(Column::EventType, Column::EventId, Column::EventTimestamp, Column::ProductId, Column::ZoneId, Column::PayloadJson, Column::ProcessedAt, ", "@);
    reveal_with_fuel(marks, 8);
    assert(Statement::InsertHistory.cql_text() =~= layout(Statement::InsertHistory).text());
}

proof fn get_order_is_built()
    ensures
        Statement::GetOrder.cql_text() == layout(Statement::GetOrder).text(),
{
    reveal_strlit("SELECT status, items_json FROM warehouse.orders WHERE order_id = ?");
    reveal_strlit("SELECT ");
    reveal_strlit(" FROM warehouse.");
    reveal_strlit(" WHERE ");
    reveal_strlit(" AND ");
    reveal_strlit(" = ?");
    reveal_strlit(", ");
    reveal_strlit("orders");
    reveal_strlit("status");
    reveal_strlit("items_json");
    reveal_strlit("order_id");
    lists_2(Column::Status, Column::ItemsJson, ", "@);
    lists_1(Column::OrderId, " AND "@);
    assert(Statement::GetOrder.cql_text() =~= layout(Statement::GetOrder).text());
}

proof fn upsert_order_is_built()
    ensures
        Statement::UpsertOrder.cql_text() == layout(Statement::UpsertOrder).text(),
{
    reveal_strlit("INSERT INTO warehouse.orders (order_id, status, items_json, created_at, updated_at) VALUES (?, ?, ?, ?, ?)");
    reveal_strlit("INSERT INTO warehouse.");
    reveal_strlit(" (");
    reveal_strlit(") VALUES (");
    reveal_strlit(")");
    reveal_strlit("?");
    reveal_strlit(", ");
    reveal_strlit("orders");
    reveal_strlit("order_id");
    reveal_strlit("status");
    reveal_strlit("items_json");
    reveal_strlit("created_at");
    reveal_strlit("updated_at");
    lists_5(Column::OrderId, Column::Status, Column::ItemsJson, Column::CreatedAt, Column::UpdatedAt, ", "@);
    reveal_with_fuel(marks, 6);
    assert(Statement::UpsertOrder.cql_text() =~= layout(Statement::UpsertOrder).text());
}

proof fn get_entity_ts_is_built()
    ensures
        Statement::GetEntityTs.cql_text() == layout(Statement::GetEntityTs).text(),
{
    reveal_strlit("SELECT last_event_timestamp FROM warehouse.entity_last_timestamp WHERE entity_id = ?");
    reveal_strlit("SELECT ");
    reveal_strlit(" FROM warehouse.");
    reveal_strlit(" WHERE ");
    reveal_strlit(" AND ");
    reveal_strlit(" = ?");
    reveal_strlit(", ");
    reveal_strlit("entity_last_timestamp");
    reveal_strlit("last_event_timestamp");
    reveal_strlit("entity_id");
    lists_1(Column::LastEventTimestamp, ", "@);
    lists_1(Column::EntityId, " AND "@);
    assert(Statement::GetEntityTs.cql_text() =~= layout(Statement::GetEntityTs).text());
}

proof fn upsert_entity_ts_is_built()
    ensures
        Statement::UpsertEntityTs.cql_text() == layout(Statement::UpsertEntityTs).text(),
{
    reveal_strlit("UPDATE warehouse.entity_last_timestamp SET last_event_timestamp = ?, last_event_id = ? WHERE entity_id = ?");
    reveal_strlit("UPDATE warehouse.");
    reveal_strlit(" SET ");
    reveal_strlit(" WHERE ");
    reveal_strlit(" AND ");
    reveal_strlit(" = ?");
    reveal_strlit(", ");
    reveal_strlit("entity_last_timestamp");
    reveal_strlit("last_event_timestamp");
    reveal_strlit("last_event_id");
    reveal_strlit("entity_id");
    lists_2(Column::LastEventTimestamp, Column::LastEventId, ", "@);
    lists_1(Column::EntityId, " AND "@);
    assert(Statement::UpsertEntityTs.cql_text() =~= layout(Statement::UpsertEntityTs).text());
}

proof fn update_supplier_id_is_built()
    ensures
        Statement::UpdateSupplierId.cql_text() == layout(Statement::UpdateSupplierId).text(),
{
    reveal_strlit("UPDATE warehouse.inventory_by_product_zone SET supplier_id = ? WHERE product_id = ? AND zone_id = ?");
    reveal_strlit("UPDATE warehouse.");
    reveal_strlit(" SET ");
    reveal_strlit(" WHERE ");
    reveal_strlit(" AND ");
    reveal_strlit(" = ?");
    reveal_strlit(", ");
    reveal_strlit("inventory_by_product_zone");
    reveal_strlit("supplier_id");
    reveal_strlit("product_id");
    reveal_strlit("zone_id");
    lists_1(Column::SupplierId, ", "@);
    lists_2(Column::ProductId, Column::ZoneId, " AND "@);
    assert(Statement::UpdateSupplierId.cql_text() =~= layout(Statement::UpdateSupplierId).text());
}

/// The text of each statement names its table and its columns, in the order of its values.
pub proof fn statements_are_built_from_columns(statement: Statement)
    ensures
        statement.cql_text() == layout(statement).text(),
{
    match statement {
        Statement::CheckProcessed => {
            check_processed_is_built();
        },
        Statement::InsertProcessed => {
            insert_processed_is_built();
        },
        Statement::GetInventoryPz => {
            get_inventory_pz_is_built();
        },
        Statement::UpsertInventoryPz => {
            upsert_inventory_pz_is_built();
        },
        Statement::UpsertInventoryZone => {
            upsert_inventory_zone_is_built();
        },
        Statement::GetInventoryProduct => {
            get_inventory_product_is_built();
        },
        Statement::UpsertInventoryProduct => {
            upsert_inventory_product_is_built();
        },
        Statement::InsertHistory => {
            insert_history_is_built();
        },
        Statement::GetOrder => {
            get_order_is_built();
        },
        Statement::UpsertOrder => {
            upsert_order_is_built();
        },
        Statement::GetEntityTs => {
            get_entity_ts_is_built();
        },
        Statement::UpsertEntityTs => {
            upsert_entity_ts_is_built();
        },
        Statement::UpdateSupplierId => {
            update_supplier_id_is_built();
        },
    }
}

/// The value that a statement has for a column.
pub open spec fn value_in(b: BoundView, column: Column) -> BindView {
    b.values[layout(b.statement).bound().index_of(column)]
}

pub open spec fn text_in(b: BoundView, column: Column) -> Seq<char> {
    value_in(b, column)->Text_0
}

pub open spec fn number_in(b: BoundView, column: Column) -> int {
    value_in(b, column)->BigInt_0
}

pub open spec fn time_in(b: BoundView, column: Column) -> Timestamp {
    store::kept(value_in(b, column)->Timestamp_0)
}

proof fn stands_at(columns: Seq<Column>, i: int)
    requires
        0 <= i < columns.len(),
        forall|j: int| 0 <= j < columns.len() && j != i ==> #[trigger] columns[j] != columns[i],
    ensures
        columns.index_of(columns[i]) == i,
{
    assert(columns.contains(columns[i]));
    let k = columns.index_of(columns[i]);
    assert(0 <= k < columns.len() && columns[k] == columns[i]);
}

/// No statement names a column twice.
proof fn columns_are_distinct(statement: Statement, i: int)
    requires
        0 <= i < layout(statement).bound().len(),
    ensures
        layout(statement).bound().index_of(layout(statement).bound()[i]) == i,
{
    stands_at(layout(statement).bound(), i);
}

/// What is written goes into the columns that the statement names: a statement changes the
/// row that its key columns pick, and the row has then what the statement has for each of its
/// columns.
pub proof fn writes_go_into_their_columns(s: Store, b: BoundView)
    ensures
        match b.statement {
            Statement::InsertProcessed => s.write(b) == (Store {
                processed: s.processed.insert(text_in(b, Column::EventId)),
                ..s
            }),
            Statement::UpsertInventoryPz => s.write(b) == (Store {
                zones: s.zones.insert(
                    (text_in(b, Column::ProductId), text_in(b, Column::ZoneId)),
                    Amount {
                        available: number_in(b, Column::AvailableQuantity),
                        reserved: number_in(b, Column::ReservedQuantity),
                    },
                ),
                ..s
            }),
            Statement::UpsertInventoryZone => s.write(b) == (Store {
                by_zone: s.by_zone.insert(
                    (text_in(b, Column::ZoneId), text_in(b, Column::ProductId)),
                    Amount {
                        available: number_in(b, Column::AvailableQuantity),
                        reserved: number_in(b, Column::ReservedQuantity),
                    },
                ),
                ..s
            }),
            Statement::UpsertInventoryProduct => s.write(b) == (Store {
                products: s.products.insert(
                    text_in(b, Column::ProductId),
                    Amount {
                        available: number_in(b, Column::TotalAvailable),
                        reserved: number_in(b, Column::TotalReserved),
                    },
                ),
                ..s
            }),
            Statement::InsertHistory => s.write(b) == (Store {
                history: s.history.insert(
                    HistoryRow {
                        event_type: text_in(b, Column::EventType),
                        event_id: text_in(b, Column::EventId),
                        timestamp: time_in(b, Column::EventTimestamp),
                        product_id: text_in(b, Column::ProductId),
                        zone_id: text_in(b, Column::ZoneId),
                        payload_json: text_in(b, Column::PayloadJson),
                    },
                ),
                ..s
            }),
            Statement::UpsertOrder => s.write(b) == (Store {
                orders: s.orders.insert(
                    text_in(b, Column::OrderId),
                    OrderRow {
                        status: text_in(b, Column::Status),
                        items_json: text_in(b, Column::ItemsJson),
                        created_at: time_in(b, Column::CreatedAt),
                    },
                ),
                ..s
            }),
            Statement::UpsertEntityTs => s.write(b) == (Store {
                entities: s.entities.insert(
                    text_in(b, Column::EntityId),
                    time_in(b, Column::LastEventTimestamp),
                ),
                ..s
            }),
            Statement::UpdateSupplierId => s.write(b) == (Store {
                suppliers: s.suppliers.insert(
                    (text_in(b, Column::ProductId), text_in(b, Column::ZoneId)),
                    text_in(b, Column::SupplierId),
                ),
                ..s
            }),
            _ => s.write(b) == s,
        },
{
    assert forall|i: int| 0 <= i < layout(b.statement).bound().len() implies layout(
        b.statement,
    ).bound().index_of(#[trigger] layout(b.statement).bound()[i]) == i by {
        columns_are_distinct(b.statement, i);
    }
    let bound = layout(b.statement).bound();
    match b.statement {
        Statement::InsertProcessed => {
            assert(bound[0] == Column::EventId);
            assert(bound[1] == Column::EventType);
            assert(bound[2] == Column::ProcessedAt);
            assert(bound[3] == Column::Partition);
            assert(bound[4] == Column::KafkaOffset);
        },
        Statement::UpsertInventoryPz => {
            assert(bound[0] == Column::AvailableQuantity);
            assert(bound[1] == Column::ReservedQuantity);
            assert(bound[2] == Column::LastUpdated);
            assert(bound[3] == Column::LastEventId);
            assert(bound[4] == Column::LastEventTimestamp);
            assert(bound[5] == Column::ProductId);
            assert(bound[6] == Column::ZoneId);
        },
        Statement::UpsertInventoryZone => {
            assert(bound[0] == Column::AvailableQuantity);
            assert(bound[1] == Column::ReservedQuantity);
            assert(bound[2] == Column::LastUpdated);
            assert(bound[3] == Column::ZoneId);
            assert(bound[4] == Column::ProductId);
        },
        Statement::UpsertInventoryProduct => {
            assert(bound[0] == Column::TotalAvailable);
            assert(bound[1] == Column::TotalReserved);
            assert(bound[2] == Column::LastUpdated);
            assert(bound[3] == Column::ProductId);
        },
        Statement::InsertHistory => {
            assert(bound[0] == Column::EventType);
            assert(bound[1] == Column::EventId);
            assert(bound[2] == Column::EventTimestamp);
            assert(bound[3] == Column::ProductId);
            assert(bound[4] == Column::ZoneId);
            assert(bound[5] == Column::PayloadJson);
            assert(bound[6] == Column::ProcessedAt);
        },
        Statement::UpsertOrder => {
            assert(bound[0] == Column::OrderId);
            assert(bound[1] == Column::Status);
            assert(bound[2] == Column::ItemsJson);
            assert(bound[3] == Column::CreatedAt);
            assert(bound[4] == Column::UpdatedAt);
        },
        Statement::UpsertEntityTs => {
            assert(bound[0] == Column::LastEventTimestamp);
            assert(bound[1] == Column::LastEventId);
            assert(bound[2] == Column::EntityId);
        },
        Statement::UpdateSupplierId => {
            assert(bound[0] == Column::SupplierId);
            assert(bound[1] == Column::ProductId);
            assert(bound[2] == Column::ZoneId);
        },
        _ => {},
    }
}

/// What is read is what was written: each statement that reads names the table and the key of
/// one that writes, and the columns that hold what is asked for, the available quantity
/// before the reserved one.
pub proof fn reads_name_what_was_written()
    ensures
        layout(Statement::GetInventoryPz) == (Layout::Select {
            table: layout(Statement::UpsertInventoryPz).table(),
            columns: seq![Column::AvailableQuantity, Column::ReservedQuantity],
            key: seq![Column::ProductId, Column::ZoneId],
        }),
        layout(Statement::GetInventoryProduct) == (Layout::Select {
            table: layout(Statement::UpsertInventoryProduct).table(),
            columns: seq![Column::TotalAvailable, Column::TotalReserved],
            key: seq![Column::ProductId],
        }),
        layout(Statement::GetEntityTs) == (Layout::Select {
            table: layout(Statement::UpsertEntityTs).table(),
            columns: seq![Column::LastEventTimestamp],
            key: seq![Column::EntityId],
        }),
        layout(Statement::CheckProcessed) == (Layout::Select {
            table: layout(Statement::InsertProcessed).table(),
            columns: seq![Column::EventId],
            key: seq![Column::EventId],
        }),
        layout(Statement::GetOrder) == (Layout::Select {
            table: layout(Statement::UpsertOrder).table(),
            columns: seq![Column::Status, Column::ItemsJson],
            key: seq![Column::OrderId],
        }),
        layout(Statement::UpdateSupplierId).table() == layout(
            Statement::UpsertInventoryPz,
        ).table(),
        forall|available: i64, reserved: i64|
            #![trigger cassandra::stock_in(Some((available, reserved)))]
            cassandra::stock_in(Some((available, reserved))).available == available
                && cassandra::stock_in(Some((available, reserved))).reserved == reserved,
        cassandra::stock_in(None).available == 0 && cassandra::stock_in(None).reserved == 0,
{
}

/// Whether a statement reads is told by its layout, and with it the consistency that it is
/// prepared with.
pub proof fn statements_that_select_read(statement: Statement)
    ensures
        statement.reads() <==> layout(statement) is Select,
{
}

/// What a column has to hold of the event that is written about, of the message that it came
/// in, or of the time at which it is written; nothing for the other columns.
pub open spec fn told_by(
    column: Column,
    event: WarehouseEvent,
    at: Position,
    now: Timestamp,
) -> Option<BindView> {
    match column {
        Column::EventId | Column::LastEventId => Some(BindView::Text(event.event_id@)),
        Column::EventType => Some(BindView::Text(event.event_type@)),
        Column::EventTimestamp | Column::LastEventTimestamp | Column::CreatedAt => Some(
            BindView::Timestamp(event.timestamp),
        ),
        Column::PayloadJson => Some(BindView::Text(json::json_text(event.payload@))),
        Column::ProcessedAt | Column::LastUpdated | Column::UpdatedAt => Some(
            BindView::Timestamp(now),
        ),
        Column::Partition => Some(BindView::Int(at.partition as int)),
        Column::KafkaOffset => Some(BindView::BigInt(at.offset as int)),
        _ => None,
    }
}

/// Whether a statement has a value for each of its columns, of the column's kind, and tells of
/// the event and of the message what the columns are for.
pub open spec fn tells_of(
    b: BoundView,
    event: WarehouseEvent,
    at: Position,
    now: Timestamp,
) -> bool {
    let bound = layout(b.statement).bound();
    &&& !(layout(b.statement) is Select)
    &&& b.values.len() == bound.len()
    &&& forall|i: int|
        0 <= i < bound.len() ==> {
            &&& told_by(#[trigger] bound[i], event, at, now) is Some ==> b.values[i] == told_by(
                bound[i],
                event,
                at,
                now,
            )->0
            &&& told_by(bound[i], event, at, now) is None ==> match bound[i] {
                Column::AvailableQuantity
                | Column::ReservedQuantity
                | Column::TotalAvailable
                | Column::TotalReserved => b.values[i] is BigInt,
                _ => b.values[i] is Text,
            }
        }
}

/// Every statement that the processing of an event asks for has a value for each of its
/// columns: the event's id, type, time and payload, the place of its message in the topic and
/// the time of writing go where the columns say.
pub proof fn statements_tell_of_their_event(run: RunView, now: Timestamp)
    requires
        run.wf(),
    ensures
        match run.expected(now) {
            RequestView::Batch(batch) => forall|i: int|
                0 <= i < batch.len() ==> tells_of(#[trigger] batch[i], run.event, run.at, now),
            RequestView::Execute(b) => tells_of(b, run.event, run.at, now),
            _ => true,
        },
{
    match run.expected(now) {
        RequestView::Batch(batch) => {
            assert forall|i: int| 0 <= i < batch.len() implies tells_of(
                #[trigger] batch[i],
                run.event,
                run.at,
                now,
            ) by {
                assert(batch.len() == 5 || batch.len() == 6);
                assert(i == 0 || i == 1 || i == 2 || i == 3 || i == 4 || i == 5);
            }
        },
        _ => {},
    }
}

/// Each statement is about the table of what it keeps.
pub proof fn statements_have_their_tables(statement: Statement)
    ensures
        layout(statement).table() == match statement {
            Statement::CheckProcessed | Statement::InsertProcessed => "processed_events"@,
            Statement::GetInventoryPz
            | Statement::UpsertInventoryPz
            | Statement::UpdateSupplierId => "inventory_by_product_zone"@,
            Statement::UpsertInventoryZone => "inventory_by_zone"@,
            Statement::GetInventoryProduct | Statement::UpsertInventoryProduct =>
                "inventory_by_product"@,
            Statement::InsertHistory => "event_history"@,
            Statement::GetOrder | Statement::UpsertOrder => "orders"@,
            Statement::GetEntityTs | Statement::UpsertEntityTs => "entity_last_timestamp"@,
        },
{
}

/// What a column is called.
pub proof fn columns_have_their_names()
    ensures
        Column::AvailableQuantity.text() == "available_quantity"@,
        Column::ReservedQuantity.text() == "reserved_quantity"@,
        Column::TotalAvailable.text() == "total_available"@,
        Column::TotalReserved.text() == "total_reserved"@,
        Column::ProductId.text() == "product_id"@,
        Column::ZoneId.text() == "zone_id"@,
        Column::OrderId.text() == "order_id"@,
        Column::EntityId.text() == "entity_id"@,
        Column::EventId.text() == "event_id"@,
        Column::EventType.text() == "event_type"@,
        Column::EventTimestamp.text() == "event_timestamp"@,
        Column::LastEventTimestamp.text() == "last_event_timestamp"@,
        Column::LastEventId.text() == "last_event_id"@,
        Column::SupplierId.text() == "supplier_id"@,
        Column::Status.text() == "status"@,
        Column::ItemsJson.text() == "items_json"@,
        Column::PayloadJson.text() == "payload_json"@,
        Column::CreatedAt.text() == "created_at"@,
        Column::UpdatedAt.text() == "updated_at"@,
        Column::LastUpdated.text() == "last_updated"@,
        Column::ProcessedAt.text() == "processed_at"@,
        Column::Partition.text() == "partition"@,
        Column::KafkaOffset.text() == "kafka_offset"@,
{
}

} // verus!

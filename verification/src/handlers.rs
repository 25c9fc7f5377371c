//! What each kind of event leads to: the checks and writes, one after another.
use crate::cassandra::Delta;
use crate::json;
use crate::json::{json_string, Json, JsonView};
use crate::payload;
use crate::payload::{
    EventPayload, InventoryCountedPayload, OrderCompletedPayload, OrderCreatedPayload, OrderItem,
    PayloadError, ProductMovedPayload, ProductReceivedPayload, ProductReleasedPayload,
    ProductReservedPayload, ProductShippedPayload,
};
use crate::text;
use crate::text::{decimal, join2, join3};
use vstd::prelude::*;

verus! {

/// What stock is needed for.
#[derive(Debug, Clone, Copy, PartialEq, Eq, Structural)]
pub enum Purpose {
    /// To leave a zone.
    Removal,
    Reservation,
    Release,
    OrderItem,
}

impl Purpose {
    /// What a message says is missing.
    pub open spec fn shortage(self) -> Seq<char> {
        match self {
            Purpose::Removal => "BUSINESS_ERROR: insufficient available qty for "@,
            Purpose::Reservation => "BUSINESS_ERROR: insufficient available qty for reservation: "@,
            Purpose::Release => "BUSINESS_ERROR: insufficient reserved qty for release: "@,
            Purpose::OrderItem => "BUSINESS_ERROR: insufficient qty for order item "@,
        }
    }

    fn shortage_str(self) -> (r: &'static str)
        ensures
            r@ == self.shortage(),
    {
        match self {
            Purpose::Removal => "BUSINESS_ERROR: insufficient available qty for ",
            Purpose::Reservation => "BUSINESS_ERROR: insufficient available qty for reservation: ",
            Purpose::Release => "BUSINESS_ERROR: insufficient reserved qty for release: ",
            Purpose::OrderItem => "BUSINESS_ERROR: insufficient qty for order item ",
        }
    }
}

/// Why an event could not be processed.
#[derive(Debug)]
pub enum HandlerError {
    QuantityNotPositive(i64),
    CountNegative,
    OrderEmpty,
    ItemQuantityNotPositive(i64),
    Insufficient { purpose: Purpose, product_id: String, zone_id: String, have: i64, need: i64 },
    OrderNotFound(String),
    Payload(PayloadError),
    /// What the database reported of a read, or the reading of what it holds.
    Storage(String),
    /// What the database reported of a write.
    Unwritten(String),
}

impl HandlerError {
    /// The error's message.
    pub open spec fn text(self) -> Seq<char> {
        match self {
            HandlerError::QuantityNotPositive(n) =>
                "VALIDATION_ERROR: quantity must be positive, got "@ + text::decimal_text(n as int),
            HandlerError::CountNegative =>
                "VALIDATION_ERROR: counted_quantity cannot be negative"@,
            HandlerError::OrderEmpty => "VALIDATION_ERROR: order must have at least one item"@,
            HandlerError::ItemQuantityNotPositive(n) =>
                "VALIDATION_ERROR: item quantity must be positive, got "@ + text::decimal_text(
                n as int,
            ),
            HandlerError::Insufficient { purpose, product_id, zone_id, have, need } =>
                purpose.shortage() + product_id@ + " in "@ + zone_id@ + ": have "@
                    + text::decimal_text(have as int) + ", need "@ + text::decimal_text(
                need as int,
            ),
            HandlerError::OrderNotFound(order_id) => "BUSINESS_ERROR: order "@ + order_id@
                + " not found"@,
            HandlerError::Payload(e) => e.text(),
            HandlerError::Storage(m) => m@,
            HandlerError::Unwritten(m) => m@,
        }
    }

    /// The error's message.
    pub fn message(&self) -> (r: String)
        ensures
            r@ == self.text(),
    {
        match self {
            HandlerError::QuantityNotPositive(n) => join2(
                "VALIDATION_ERROR: quantity must be positive, got ",
                decimal(*n as i128).as_str(),
            ),
            HandlerError::CountNegative =>
                "VALIDATION_ERROR: counted_quantity cannot be negative".to_string(),
            HandlerError::OrderEmpty =>
                "VALIDATION_ERROR: order must have at least one item".to_string(),
            HandlerError::ItemQuantityNotPositive(n) => join2(
                "VALIDATION_ERROR: item quantity must be positive, got ",
                decimal(*n as i128).as_str(),
            ),
            HandlerError::Insufficient { purpose, product_id, zone_id, have, need } => {
                let mut out = join3(purpose.shortage_str(), product_id.as_str(), " in ");
                out.append(zone_id.as_str());
                out.append(": have ");
                out.append(decimal(*have as i128).as_str());
                out.append(", need ");
                out.append(decimal(*need as i128).as_str());
                out
            },
            HandlerError::OrderNotFound(order_id) => join3(
                "BUSINESS_ERROR: order ",
                order_id.as_str(),
                " not found",
            ),
            HandlerError::Payload(e) => e.message(),
            HandlerError::Storage(m) => m.clone(),
            HandlerError::Unwritten(m) => m.clone(),
        }
    }
}

/// Where an order stands.
#[derive(Debug, Clone, Copy, PartialEq, Eq, Structural)]
pub enum OrderStatus {
    Created,
    Completed,
}

impl OrderStatus {
    pub open spec fn text(self) -> Seq<char> {
        match self {
            OrderStatus::Created => "CREATED"@,
            OrderStatus::Completed => "COMPLETED"@,
        }
    }

    /// The status as the order's row has it.
    pub fn as_str(self) -> (r: &'static str)
        ensures
            r@ == self.text(),
    {
        match self {
            OrderStatus::Created => "CREATED",
            OrderStatus::Completed => "COMPLETED",
        }
    }
}

/// The items of an order that is saved.
#[derive(Debug)]
pub enum OrderLines {
    /// As the event gives them.
    Fresh(Vec<OrderItem>),
    /// The text that was saved before.
    Stored(String),
}

/// An item as the order's row has it, in JSON.
pub open spec fn item_text(item: OrderItem) -> Seq<char> {
    "{\"product_id\":"@ + json::json_text(JsonView::String(item.product_id@)) + ",\"zone_id\":"@
        + json::json_text(JsonView::String(item.zone_id@)) + ",\"quantity\":"@
        + text::decimal_text(item.quantity as int) + "}"@
}

/// The items from the `k`th on, with commas between them.
pub open spec fn item_texts(items: Seq<OrderItem>, k: int) -> Seq<char>
    decreases items.len() - k,
{
    if k < 0 || k >= items.len() {
        Seq::empty()
    } else if k == items.len() - 1 {
        item_text(items[k])
    } else {
        item_text(items[k]) + ","@ + item_texts(items, k + 1)
    }
}

impl OrderLines {
    /// The items in JSON.
    pub open spec fn text(self) -> Seq<char> {
        match self {
            OrderLines::Fresh(items) => "["@ + item_texts(items@, 0) + "]"@,
            OrderLines::Stored(s) => s@,
        }
    }

    /// The items in JSON: a list that reads back as the items.
    pub fn to_json(&self) -> (r: String)
        ensures
            r@ == self.text(),
            self matches OrderLines::Fresh(items) ==> reads_as_items(r@, items@),
            self matches OrderLines::Stored(s) ==> r@ == s@,
    {
        match self {
            OrderLines::Fresh(items) => {
                proof {
                    saved_items_read_back(*items);
                }
                let mut out = "[".to_string();
                let mut k: usize = 0;
                assert("["@ + item_texts(items@, 0) == out@ + item_texts(items@, 0));
                while k < items.len()
                    invariant
                        k <= items.len(),
                        "["@ + item_texts(items@, 0) == out@ + item_texts(items@, k as int),
                    decreases items.len() - k,
                {
                    let one = item_json(&items[k]);
                    let ghost before = out@;
                    out.append(one.as_str());
                    if k + 1 < items.len() {
                        out.append(",");
                        assert(out@ + item_texts(items@, k + 1) =~= before + (item_text(
                            items@[k as int],
                        ) + ","@ + item_texts(items@, k + 1)));
                    } else {
                        assert(out@ + item_texts(items@, k + 1) =~= before + item_text(
                            items@[k as int],
                        ));
                    }
                    k += 1;
                }
                assert(out@ + item_texts(items@, k as int) =~= out@);
                out.append("]");
                out
            },
            OrderLines::Stored(s) => s.clone(),
        }
    }
}

/// An item as a JSON value.
pub open spec fn item_value(item: OrderItem) -> JsonView {
    JsonView::Object(
        seq![
            ("product_id"@, JsonView::String(item.product_id@)),
            ("zone_id"@, JsonView::String(item.zone_id@)),
            ("quantity"@, JsonView::Integer(item.quantity as int)),
        ],
    )
}

/// Whether values are objects of three members each, as an item has fields.
pub open spec fn are_item_objects(values: Seq<JsonView>) -> bool {
    forall|i: int|
        0 <= i < values.len() ==> (#[trigger] values[i]) is Object && values[i]->Object_0.len() == 3
}

/// Whether a text is a JSON list that reads as order items: read like the items of an event's
/// payload, it has nothing wrong with it, and gives those items, one for one.
pub open spec fn reads_as_items(text: Seq<char>, items: Seq<OrderItem>) -> bool {
    exists|values: Seq<JsonView>| #[trigger]
        json::spells(text, JsonView::Array(values)) && are_item_objects(
            values,
        ) && payload::value_problem(
            payload::FieldType::Items,
            JsonView::Array(values),
        ) is None && payload::items_say(items, values)
}

proof fn item_is_spelled(item: OrderItem)
    ensures
        json::spells(item_text(item), item_value(item)),
{
    reveal_strlit("{\"product_id\":");
    reveal_strlit(",\"zone_id\":");
    reveal_strlit(",\"quantity\":");
    reveal_strlit("}");
    reveal_strlit("product_id");
    reveal_strlit("zone_id");
    reveal_strlit("quantity");
    let members = item_value(item)->Object_0;
    let values = seq![
        json::json_text(JsonView::String(item.product_id@)),
        json::json_text(JsonView::String(item.zone_id@)),
        text::decimal_text(item.quantity as int),
    ];
    let pieces = Seq::new(3, |i: int| seq!['"'] + members[i].0 + seq!['"', ':'] + values[i]);
    assert(pieces =~= seq![pieces[0], pieces[1], pieces[2]]);
    assert(seq![pieces[0], pieces[1], pieces[2]].drop_last() =~= seq![pieces[0], pieces[1]]);
    assert(seq![pieces[0], pieces[1]].drop_last() =~= seq![pieces[0]]);
    reveal_with_fuel(text::join_text, 4);
    assert(text::join_text(pieces, ',') == pieces[0].push(',') + pieces[1] + seq![','] + pieces[2]) by {
        assert((pieces[0].push(',') + pieces[1]).push(',') + pieces[2] =~= pieces[0].push(',')
            + pieces[1] + seq![','] + pieces[2]);
    }
    assert(item_text(item) =~= seq!['{'] + text::join_text(pieces, ',') + seq!['}']);
    assert(json::encloses(item_text(item), '{', pieces, '}'));
    reveal_with_fuel(json::spells, 2);
    assert forall|i: int| 0 <= i < members.len() implies json::is_member(
        #[trigger] pieces[i],
        members[i].0,
        values[i],
    ) && json::spells(values[i], members[i].1) by {
        assert(i == 0 || i == 1 || i == 2);
    }
    assert(values.len() == members.len());
}

/// The items from the `k`th on are joined by commas.
proof fn items_are_joined(items: Seq<OrderItem>, k: int)
    requires
        0 <= k <= items.len(),
    ensures
        item_texts(items, k) == text::join_text(
            Seq::new((items.len() - k) as nat, |i: int| item_text(items[k + i])),
            ',',
        ),
    decreases items.len() - k,
{
    reveal_strlit(",");
    let pieces = Seq::new((items.len() - k) as nat, |i: int| item_text(items[k + i]));
    if k < items.len() - 1 {
        items_are_joined(items, k + 1);
        let rest = Seq::new((items.len() - k - 1) as nat, |i: int| item_text(items[k + 1 + i]));
        assert(pieces =~= seq![pieces[0]] + rest);
        joined_after(pieces[0], rest);
        assert(item_texts(items, k) =~= pieces[0] + seq![','] + text::join_text(rest, ','));
    }
}

proof fn joined_after(first: Seq<char>, rest: Seq<Seq<char>>)
    requires
        rest.len() > 0,
    ensures
        text::join_text(seq![first] + rest, ',') == first + seq![','] + text::join_text(rest, ','),
    decreases rest.len(),
{
    let all = seq![first] + rest;
    assert(all.drop_last() =~= seq![first] + rest.drop_last());
    assert(all.last() == rest.last());
    if rest.len() == 1 {
        assert(text::join_text(seq![first], ',') == first);
        assert(all.drop_last() =~= seq![first]);
        assert(text::join_text(all, ',') =~= first + seq![','] + text::join_text(rest, ','));
    } else {
        joined_after(first, rest.drop_last());
        assert(text::join_text(all, ',') =~= first + seq![','] + text::join_text(rest, ','));
    }
}

proof fn item_value_is_right(item: OrderItem)
    ensures
        payload::struct_problem(payload::Shape::OrderItem, item_value(item)) is None,
        payload::item_says(item, item_value(item)),
{
    let shape = payload::Shape::OrderItem;
    let value = item_value(item);
    let members = value->Object_0;
    reveal_strlit("product_id");
    reveal_strlit("zone_id");
    reveal_strlit("quantity");
    assert("product_id"@.len() == 10 && "zone_id"@.len() == 7 && "quantity"@.len() == 8);
    payload::field_is_found(shape, 0);
    payload::field_is_found(shape, 1);
    payload::field_is_found(shape, 2);
    reveal_with_fuel(json::find_member, 4);
    assert(members.drop_first() =~= seq![members[1], members[2]]);
    assert(members.drop_first().drop_first() =~= seq![members[2]]);
    assert(payload::value_problem(payload::FieldType::Text, members[0].1) is None);
    assert(payload::value_problem(payload::FieldType::Text, members[1].1) is None);
    assert(payload::value_problem(payload::FieldType::Integer, members[2].1) is None);
    assert(payload::members_problem(shape, members, 3) is None);
    assert(payload::members_problem(shape, members, 2) is None);
    assert(payload::members_problem(shape, members, 1) is None);
    assert(payload::members_problem(shape, members, 0) is None);
    let fields = shape.fields();
    assert(payload::missing_problem(fields, members, 3) is None);
    assert(payload::missing_problem(fields, members, 2) is None);
    assert(payload::missing_problem(fields, members, 1) is None);
}

proof fn values_are_right(items: Seq<OrderItem>, values: Seq<JsonView>, k: int)
    requires
        values == items.map_values(|item: OrderItem| item_value(item)),
        0 <= k <= items.len(),
    ensures
        payload::items_problem(values, k) is None,
    decreases items.len() - k,
{
    if k < items.len() {
        item_value_is_right(items[k]);
        values_are_right(items, values, k + 1);
    }
}

/// The text that is saved of an order's items reads back as those items: it is a JSON list,
/// however many there are, of one object for each item, in order.
pub proof fn saved_items_read_back(items: Vec<OrderItem>)
    ensures
        reads_as_items(OrderLines::Fresh(items).text(), items@),
{
    reveal_strlit("[");
    reveal_strlit("]");
    let text = OrderLines::Fresh(items).text();
    let values = items@.map_values(|item: OrderItem| item_value(item));
    let pieces = Seq::new(items@.len(), |i: int| item_text(items@[i]));
    items_are_joined(items@, 0);
    assert(pieces =~= Seq::new((items@.len() - 0) as nat, |i: int| item_text(items@[0 + i])));
    assert(text =~= seq!['['] + text::join_text(pieces, ',') + seq![']']);
    assert(json::encloses(text, '[', pieces, ']'));
    assert forall|i: int| 0 <= i < values.len() implies json::spells(
        #[trigger] pieces[i],
        values[i],
    ) by {
        item_is_spelled(items@[i]);
    }
    values_are_right(items@, values, 0);
    assert forall|i: int| 0 <= i < items@.len() implies payload::item_says(
        #[trigger] items@[i],
        values[i],
    ) by {
        item_value_is_right(items@[i]);
    }
    assert(json::spells(text, JsonView::Array(values)));
}

/// What is saved of an order's items begins and ends as a list does, however many there are.
pub proof fn saved_items_are_a_list(items: Vec<OrderItem>)
    ensures
        OrderLines::Fresh(items).text().len() >= 2,
        OrderLines::Fresh(items).text()[0] == '[',
        OrderLines::Fresh(items).text().last() == ']',
{
    reveal_strlit("[");
    reveal_strlit("]");
}

/// The items that were saved before are saved again as they are.
pub proof fn saved_text_stays(saved: String)
    ensures
        OrderLines::Stored(saved).text() == saved@,
{
}

fn item_json(item: &OrderItem) -> (r: String)
    ensures
        r@ == item_text(*item),
{
    let product = json_string(&Json::String(item.product_id.clone()));
    let zone = json_string(&Json::String(item.zone_id.clone()));
    let mut out = join3("{\"product_id\":", product.as_str(), ",\"zone_id\":");
    out.append(zone.as_str());
    out.append(",\"quantity\":");
    out.append(decimal(item.quantity as i128).as_str());
    out.append("}");
    out
}

/// One thing to be done for an event: a check on what is stored, a read that a write
/// needs, or a write.
#[derive(Debug)]
pub enum Step {
    /// Go on only if the event is newer than the last one for this product and zone.
    CheckOrder { product_id: String, zone_id: String },
    /// Go on only if there is enough of the product in the zone.
    CheckStock { product_id: String, zone_id: String, quantity: i64, purpose: Purpose },
    /// Give up: an order item has no positive quantity.
    RefuseItem { quantity: i64 },
    /// Read what the zone has of the product.
    ReadZone { product_id: String, zone_id: String },
    /// Read what there is of the product in all zones.
    ReadProduct { product_id: String },
    /// Read what the zone that stock moves to has of the product.
    ReadTarget { product_id: String, zone_id: String },
    /// Change what was read of the zone and of the product.
    WriteDelta { product_id: String, zone_id: String, delta: Delta },
    /// Move stock from the zone that was read to the target.
    WriteMove { product_id: String, from_zone: String, to_zone: String, quantity: i64 },
    /// Set what is available in the zone that was read.
    WriteCount { product_id: String, zone_id: String, counted: i64 },
    WriteSupplier { product_id: String, zone_id: String, supplier_id: String },
    /// Skip the next three steps unless as much is reserved.
    CheckReserved { product_id: String, zone_id: String, quantity: i64 },
    /// Take what was reserved out of the zone and of the product.
    WriteSettled { product_id: String, zone_id: String, quantity: i64 },
    /// Read the order, and go on with what completes it.
    LoadOrder { order_id: String },
    SaveOrder { order_id: String, status: OrderStatus, lines: OrderLines },
    /// Note the event as the last one for this product and zone.
    Touch { product_id: String, zone_id: String },
    MarkProcessed,
}

/// Whether a step writes.
pub open spec fn is_write(step: Step) -> bool {
    step is WriteDelta || step is WriteMove || step is WriteCount || step is WriteSupplier || step
        is WriteSettled || step is SaveOrder || step is Touch || step is MarkProcessed
}

impl Step {
    /// Whether this step writes.
    pub fn writes(&self) -> (r: bool)
        ensures
            r == is_write(*self),
    {
        matches!(
            self,
            Step::WriteDelta { .. }
                | Step::WriteMove { .. }
                | Step::WriteCount { .. }
                | Step::WriteSupplier { .. }
                | Step::WriteSettled { .. }
                | Step::SaveOrder { .. }
                | Step::Touch { .. }
                | Step::MarkProcessed
        )
    }
}

/// A list of steps, or why there is none.
pub type Plan = Result<Vec<Step>, HandlerError>;

/// Whether a plan holds those steps, or that error.
pub open spec fn plans(plan: Plan, steps: Result<Seq<Step>, HandlerError>) -> bool {
    match plan {
        Ok(v) => steps matches Ok(s) && v@ == s,
        Err(e) => steps == Err::<Seq<Step>, HandlerError>(e),
    }
}

/// The steps that change what a zone has of a product.
pub open spec fn delta_steps(product_id: String, zone_id: String, delta: Delta) -> Seq<Step> {
    seq![
        Step::ReadZone { product_id, zone_id },
        Step::ReadProduct { product_id },
        Step::WriteDelta { product_id, zone_id, delta },
    ]
}

/// Appends the steps that change what a zone has of a product.
fn push_delta(steps: &mut Vec<Step>, product_id: &String, zone_id: &String, delta: Delta)
    ensures
        final(steps)@ == old(steps)@ + delta_steps(*product_id, *zone_id, delta),
{
    steps.push(Step::ReadZone { product_id: product_id.clone(), zone_id: zone_id.clone() });
    steps.push(Step::ReadProduct { product_id: product_id.clone() });
    steps.push(
        Step::WriteDelta { product_id: product_id.clone(), zone_id: zone_id.clone(), delta },
    );
    assert(steps@ =~= old(steps)@ + delta_steps(*product_id, *zone_id, delta));
}

pub open spec fn received(p: ProductReceivedPayload) -> Result<Seq<Step>, HandlerError> {
    if p.quantity <= 0 {
        Err(HandlerError::QuantityNotPositive(p.quantity))
    } else {
        let (product_id, zone_id) = (p.product_id, p.zone_id);
        Ok(
            seq![Step::CheckOrder { product_id, zone_id }] + delta_steps(
                product_id,
                zone_id,
                Delta { available: p.quantity as i128, reserved: 0 },
            ) + (match p.supplier_id {
                Some(supplier_id) => seq![
                    Step::WriteSupplier { product_id, zone_id, supplier_id },
                ],
                None => Seq::empty(),
            }) + seq![Step::Touch { product_id, zone_id }],
        )
    }
}

/// Goods came in: a zone has more.
pub fn handle_product_received(p: ProductReceivedPayload) -> (r: Plan)
    ensures
        plans(r, received(p)),
{
    if p.quantity <= 0 {
        return Err(HandlerError::QuantityNotPositive(p.quantity));
    }
    let ghost given = p;
    let mut steps: Vec<Step> = Vec::new();
    steps.push(Step::CheckOrder { product_id: p.product_id.clone(), zone_id: p.zone_id.clone() });
    push_delta(
        &mut steps,
        &p.product_id,
        &p.zone_id,
        Delta { available: p.quantity as i128, reserved: 0 },
    );
    match &p.supplier_id {
        Some(supplier_id) => {
            steps.push(
                Step::WriteSupplier {
                    product_id: p.product_id.clone(),
                    zone_id: p.zone_id.clone(),
                    supplier_id: supplier_id.clone(),
                },
            );
        },
        None => {},
    }
    steps.push(Step::Touch { product_id: p.product_id, zone_id: p.zone_id });
    assert(steps@ =~= received(given)->Ok_0);
    Ok(steps)
}

/// The steps that take as much out of a zone as there is, check included.
pub open spec fn guarded(
    product_id: String,
    zone_id: String,
    quantity: i64,
    purpose: Purpose,
    delta: Delta,
) -> Result<Seq<Step>, HandlerError> {
    if quantity <= 0 {
        Err(HandlerError::QuantityNotPositive(quantity))
    } else {
        Ok(
            seq![
                Step::CheckOrder { product_id, zone_id },
                Step::CheckStock { product_id, zone_id, quantity, purpose },
            ] + delta_steps(product_id, zone_id, delta) + seq![
                Step::Touch { product_id, zone_id },
            ],
        )
    }
}

fn guarded_steps(
    product_id: String,
    zone_id: String,
    quantity: i64,
    purpose: Purpose,
    delta: Delta,
) -> (r: Vec<Step>)
    requires
        quantity > 0,
    ensures
        guarded(product_id, zone_id, quantity, purpose, delta) == Ok::<Seq<Step>, HandlerError>(r@),
{
    let mut steps: Vec<Step> = Vec::new();
    steps.push(Step::CheckOrder { product_id: product_id.clone(), zone_id: zone_id.clone() });
    steps.push(
        Step::CheckStock {
            product_id: product_id.clone(),
            zone_id: zone_id.clone(),
            quantity,
            purpose,
        },
    );
    push_delta(&mut steps, &product_id, &zone_id, delta);
    let ghost given = (product_id, zone_id);
    steps.push(Step::Touch { product_id, zone_id });
    assert(steps@ =~= guarded(given.0, given.1, quantity, purpose, delta)->Ok_0);
    steps
}

pub open spec fn shipped(p: ProductShippedPayload) -> Result<Seq<Step>, HandlerError> {
    guarded(
        p.product_id,
        p.zone_id,
        p.quantity,
        Purpose::Removal,
        Delta { available: (-p.quantity) as i128, reserved: 0 },
    )
}

/// Goods went out: a zone has less, if it had enough.
pub fn handle_product_shipped(p: ProductShippedPayload) -> (r: Plan)
    ensures
        plans(r, shipped(p)),
{
    if p.quantity <= 0 {
        return Err(HandlerError::QuantityNotPositive(p.quantity));
    }
    Ok(
        guarded_steps(
            p.product_id,
            p.zone_id,
            p.quantity,
            Purpose::Removal,
            Delta { available: -(p.quantity as i128), reserved: 0 },
        ),
    )
}

pub open spec fn reserved(p: ProductReservedPayload) -> Result<Seq<Step>, HandlerError> {
    guarded(
        p.product_id,
        p.zone_id,
        p.quantity,
        Purpose::Reservation,
        Delta { available: (-p.quantity) as i128, reserved: p.quantity as i128 },
    )
}

/// Goods are set aside, if enough of them are available.
pub fn handle_product_reserved(p: ProductReservedPayload) -> (r: Plan)
    ensures
        plans(r, reserved(p)),
{
    if p.quantity <= 0 {
        return Err(HandlerError::QuantityNotPositive(p.quantity));
    }
    Ok(
        guarded_steps(
            p.product_id,
            p.zone_id,
            p.quantity,
            Purpose::Reservation,
            Delta { available: -(p.quantity as i128), reserved: p.quantity as i128 },
        ),
    )
}

pub open spec fn released(p: ProductReleasedPayload) -> Result<Seq<Step>, HandlerError> {
    guarded(
        p.product_id,
        p.zone_id,
        p.quantity,
        Purpose::Release,
        Delta { available: p.quantity as i128, reserved: (-p.quantity) as i128 },
    )
}

/// Goods are no longer set aside, if as many were.
pub fn handle_product_released(p: ProductReleasedPayload) -> (r: Plan)
    ensures
        plans(r, released(p)),
{
    if p.quantity <= 0 {
        return Err(HandlerError::QuantityNotPositive(p.quantity));
    }
    Ok(
        guarded_steps(
            p.product_id,
            p.zone_id,
            p.quantity,
            Purpose::Release,
            Delta { available: p.quantity as i128, reserved: -(p.quantity as i128) },
        ),
    )
}

pub open spec fn moved(p: ProductMovedPayload) -> Result<Seq<Step>, HandlerError> {
    if p.quantity <= 0 {
        Err(HandlerError::QuantityNotPositive(p.quantity))
    } else {
        let (product_id, from, to) = (p.product_id, p.from_zone_id, p.to_zone_id);
        Ok(
            seq![
                Step::CheckOrder { product_id, zone_id: from },
                Step::CheckStock {
                    product_id,
                    zone_id: from,
                    quantity: p.quantity,
                    purpose: Purpose::Removal,
                },
                Step::ReadZone { product_id, zone_id: from },
                Step::ReadTarget { product_id, zone_id: to },
                Step::WriteMove { product_id, from_zone: from, to_zone: to, quantity: p.quantity },
                Step::Touch { product_id, zone_id: from },
                Step::Touch { product_id, zone_id: to },
            ],
        )
    }
}

/// Goods went from one zone to another, if the first had enough.
pub fn handle_product_moved(p: ProductMovedPayload) -> (r: Plan)
    ensures
        plans(r, moved(p)),
{
    if p.quantity <= 0 {
        return Err(HandlerError::QuantityNotPositive(p.quantity));
    }
    let steps = vec![
        Step::CheckOrder { product_id: p.product_id.clone(), zone_id: p.from_zone_id.clone() },
        Step::CheckStock {
            product_id: p.product_id.clone(),
            zone_id: p.from_zone_id.clone(),
            quantity: p.quantity,
            purpose: Purpose::Removal,
        },
        Step::ReadZone { product_id: p.product_id.clone(), zone_id: p.from_zone_id.clone() },
        Step::ReadTarget { product_id: p.product_id.clone(), zone_id: p.to_zone_id.clone() },
        Step::WriteMove {
            product_id: p.product_id.clone(),
            from_zone: p.from_zone_id.clone(),
            to_zone: p.to_zone_id.clone(),
            quantity: p.quantity,
        },
        Step::Touch { product_id: p.product_id.clone(), zone_id: p.from_zone_id.clone() },
        Step::Touch { product_id: p.product_id.clone(), zone_id: p.to_zone_id.clone() },
    ];
    assert(steps@ =~= moved(p)->Ok_0);
    Ok(steps)
}

pub open spec fn counted(p: InventoryCountedPayload) -> Result<Seq<Step>, HandlerError> {
    if p.counted_quantity < 0 {
        Err(HandlerError::CountNegative)
    } else {
        let (product_id, zone_id) = (p.product_id, p.zone_id);
        Ok(
            seq![
                Step::CheckOrder { product_id, zone_id },
                Step::ReadZone { product_id, zone_id },
                Step::ReadProduct { product_id },
                Step::WriteCount { product_id, zone_id, counted: p.counted_quantity },
                Step::Touch { product_id, zone_id },
            ],
        )
    }
}

/// Goods were counted: that is how many are available.
pub fn handle_inventory_counted(p: InventoryCountedPayload) -> (r: Plan)
    ensures
        plans(r, counted(p)),
{
    if p.counted_quantity < 0 {
        return Err(HandlerError::CountNegative);
    }
    let steps = vec![
        Step::CheckOrder { product_id: p.product_id.clone(), zone_id: p.zone_id.clone() },
        Step::ReadZone { product_id: p.product_id.clone(), zone_id: p.zone_id.clone() },
        Step::ReadProduct { product_id: p.product_id.clone() },
        Step::WriteCount {
            product_id: p.product_id.clone(),
            zone_id: p.zone_id.clone(),
            counted: p.counted_quantity,
        },
        Step::Touch { product_id: p.product_id.clone(), zone_id: p.zone_id.clone() },
    ];
    assert(steps@ =~= counted(p)->Ok_0);
    Ok(steps)
}

/// The check of an order item.
pub open spec fn item_check(item: OrderItem) -> Step {
    if item.quantity <= 0 {
        Step::RefuseItem { quantity: item.quantity }
    } else {
        Step::CheckStock {
            product_id: item.product_id,
            zone_id: item.zone_id,
            quantity: item.quantity,
            purpose: Purpose::OrderItem,
        }
    }
}

/// The steps that reserve an order item.
pub open spec fn item_steps(item: OrderItem) -> Seq<Step> {
    delta_steps(
        item.product_id,
        item.zone_id,
        Delta { available: (-item.quantity) as i128, reserved: item.quantity as i128 },
    ) + seq![Step::Touch { product_id: item.product_id, zone_id: item.zone_id }]
}

/// The steps that reserve the order items before the `k`th.
pub open spec fn items_steps(items: Seq<OrderItem>, k: int) -> Seq<Step>
    decreases k,
{
    if k <= 0 {
        Seq::empty()
    } else {
        items_steps(items, k - 1) + item_steps(items[k - 1])
    }
}

pub open spec fn created(p: OrderCreatedPayload) -> Result<Seq<Step>, HandlerError> {
    if p.items@.len() == 0 {
        Err(HandlerError::OrderEmpty)
    } else {
        Ok(
            p.items@.map_values(|item: OrderItem| item_check(item)) + seq![
                Step::SaveOrder {
                    order_id: p.order_id,
                    status: OrderStatus::Created,
                    lines: OrderLines::Fresh(p.items),
                },
            ] + items_steps(p.items@, p.items@.len() as int) + seq![Step::MarkProcessed],
        )
    }
}

/// An order was placed: its items are set aside, if there is enough of each.
pub fn handle_order_created(p: OrderCreatedPayload) -> (r: Plan)
    ensures
        plans(r, created(p)),
{
    if p.items.len() == 0 {
        return Err(HandlerError::OrderEmpty);
    }
    let ghost given = p;
    let ghost checks = p.items@.map_values(|item: OrderItem| item_check(item));
    let mut steps: Vec<Step> = Vec::new();
    let mut k: usize = 0;
    while k < p.items.len()
        invariant
            k <= p.items.len(),
            checks == p.items@.map_values(|item: OrderItem| item_check(item)),
            steps@ =~= checks.take(k as int),
        decreases p.items.len() - k,
    {
        let item = &p.items[k];
        if item.quantity <= 0 {
            steps.push(Step::RefuseItem { quantity: item.quantity });
        } else {
            steps.push(
                Step::CheckStock {
                    product_id: item.product_id.clone(),
                    zone_id: item.zone_id.clone(),
                    quantity: item.quantity,
                    purpose: Purpose::OrderItem,
                },
            );
        }
        k += 1;
    }
    assert(steps@ =~= checks);
    let mut writes: Vec<Step> = Vec::new();
    let mut j: usize = 0;
    while j < p.items.len()
        invariant
            j <= p.items.len(),
            writes@ == items_steps(p.items@, j as int),
        decreases p.items.len() - j,
    {
        let item = &p.items[j];
        let ghost before = writes@;
        push_delta(
            &mut writes,
            &item.product_id,
            &item.zone_id,
            Delta { available: -(item.quantity as i128), reserved: item.quantity as i128 },
        );
        writes.push(
            Step::Touch { product_id: item.product_id.clone(), zone_id: item.zone_id.clone() },
        );
        assert(writes@ =~= before + item_steps(p.items@[j as int]));
        j += 1;
    }
    steps.push(
        Step::SaveOrder {
            order_id: p.order_id,
            status: OrderStatus::Created,
            lines: OrderLines::Fresh(p.items),
        },
    );
    steps.append(&mut writes);
    steps.push(Step::MarkProcessed);
    assert(steps@ =~= created(given)->Ok_0);
    Ok(steps)
}

pub open spec fn completed(p: OrderCompletedPayload) -> Result<Seq<Step>, HandlerError> {
    Ok(seq![Step::LoadOrder { order_id: p.order_id }])
}

/// An order was sent: what was set aside for it is gone.
pub fn handle_order_completed(p: OrderCompletedPayload) -> (r: Plan)
    ensures
        plans(r, completed(p)),
{
    let steps = vec![Step::LoadOrder { order_id: p.order_id }];
    assert(steps@ =~= completed(p)->Ok_0);
    Ok(steps)
}

/// The steps that settle an item of an order that was sent.
pub open spec fn settle_item(item: OrderItem) -> Seq<Step> {
    let (product_id, zone_id) = (item.product_id, item.zone_id);
    seq![
        Step::CheckReserved { product_id, zone_id, quantity: item.quantity },
        Step::ReadZone { product_id, zone_id },
        Step::ReadProduct { product_id },
        Step::WriteSettled { product_id, zone_id, quantity: item.quantity },
    ]
}

/// The steps that settle the items before the `k`th.
pub open spec fn settle_items(items: Seq<OrderItem>, k: int) -> Seq<Step>
    decreases k,
{
    if k <= 0 {
        Seq::empty()
    } else {
        settle_items(items, k - 1) + settle_item(items[k - 1])
    }
}

/// What completes an order once its items are known.
pub open spec fn completion(
    order_id: String,
    items_json: String,
    items: Seq<OrderItem>,
) -> Seq<Step> {
    seq![
        Step::SaveOrder {
            order_id,
            status: OrderStatus::Completed,
            lines: OrderLines::Stored(items_json),
        },
    ] + settle_items(items, items.len() as int) + seq![Step::MarkProcessed]
}

/// Appends what completes an order.
pub fn push_completion(
    steps: &mut Vec<Step>,
    order_id: String,
    items_json: String,
    items: &Vec<OrderItem>,
)
    ensures
        final(steps)@ == old(steps)@ + completion(order_id, items_json, items@),
{
    let ghost given = (order_id, items_json);
    steps.push(
        Step::SaveOrder {
            order_id,
            status: OrderStatus::Completed,
            lines: OrderLines::Stored(items_json),
        },
    );
    let ghost saved = steps@;
    let mut k: usize = 0;
    assert(steps@ =~= saved + settle_items(items@, 0));
    while k < items.len()
        invariant
            k <= items.len(),
            steps@ == saved + settle_items(items@, k as int),
        decreases items.len() - k,
    {
        let item = &items[k];
        let ghost before = steps@;
        steps.push(
            Step::CheckReserved {
                product_id: item.product_id.clone(),
                zone_id: item.zone_id.clone(),
                quantity: item.quantity,
            },
        );
        steps.push(
            Step::ReadZone { product_id: item.product_id.clone(), zone_id: item.zone_id.clone() },
        );
        steps.push(Step::ReadProduct { product_id: item.product_id.clone() });
        steps.push(
            Step::WriteSettled {
                product_id: item.product_id.clone(),
                zone_id: item.zone_id.clone(),
                quantity: item.quantity,
            },
        );
        assert(steps@ =~= before + settle_item(items@[k as int]));
        assert(steps@ =~= saved + settle_items(items@, k + 1));
        k += 1;
    }
    steps.push(Step::MarkProcessed);
    assert(steps@ =~= old(steps)@ + completion(given.0, given.1, items@));
}

/// What a payload leads to.
pub open spec fn steps_for(payload: EventPayload) -> Result<Seq<Step>, HandlerError> {
    match payload {
        EventPayload::ProductReceived(p) => received(p),
        EventPayload::ProductShipped(p) => shipped(p),
        EventPayload::ProductMoved(p) => moved(p),
        EventPayload::ProductReserved(p) => reserved(p),
        EventPayload::ProductReleased(p) => released(p),
        EventPayload::InventoryCounted(p) => counted(p),
        EventPayload::OrderCreated(p) => created(p),
        EventPayload::OrderCompleted(p) => completed(p),
    }
}

/// What a payload leads to.
pub fn handle(payload: EventPayload) -> (r: Plan)
    ensures
        plans(r, steps_for(payload)),
{
    match payload {
        EventPayload::ProductReceived(p) => handle_product_received(p),
        EventPayload::ProductShipped(p) => handle_product_shipped(p),
        EventPayload::ProductMoved(p) => handle_product_moved(p),
        EventPayload::ProductReserved(p) => handle_product_reserved(p),
        EventPayload::ProductReleased(p) => handle_product_released(p),
        EventPayload::InventoryCounted(p) => handle_inventory_counted(p),
        EventPayload::OrderCreated(p) => handle_order_created(p),
        EventPayload::OrderCompleted(p) => handle_order_completed(p),
    }
}

/// An error's message says what is wrong, with the numbers and names that it is about; what
/// the database reports is passed on as it is.
pub proof fn errors_are_told_like_this(e: HandlerError)
    ensures
        match e {
            HandlerError::QuantityNotPositive(n) => e.text()
                == "VALIDATION_ERROR: quantity must be positive, got "@ + text::decimal_text(
                n as int,
            ),
            HandlerError::CountNegative => e.text()
                == "VALIDATION_ERROR: counted_quantity cannot be negative"@,
            HandlerError::OrderEmpty => e.text()
                == "VALIDATION_ERROR: order must have at least one item"@,
            HandlerError::ItemQuantityNotPositive(n) => e.text()
                == "VALIDATION_ERROR: item quantity must be positive, got "@ + text::decimal_text(
                n as int,
            ),
            HandlerError::Insufficient { purpose, product_id, zone_id, have, need } => e.text()
                == (match purpose {
                Purpose::Removal => "BUSINESS_ERROR: insufficient available qty for "@,
                Purpose::Reservation =>
                    "BUSINESS_ERROR: insufficient available qty for reservation: "@,
                Purpose::Release => "BUSINESS_ERROR: insufficient reserved qty for release: "@,
                Purpose::OrderItem => "BUSINESS_ERROR: insufficient qty for order item "@,
            }) + product_id@ + " in "@ + zone_id@ + ": have "@ + text::decimal_text(have as int)
                + ", need "@ + text::decimal_text(need as int),
            HandlerError::OrderNotFound(order_id) => e.text() == "BUSINESS_ERROR: order "@
                + order_id@ + " not found"@,
            HandlerError::Payload(PayloadError::UnknownEventType(t)) => e.text()
                == "Unknown event type: "@ + t@,
            HandlerError::Payload(PayloadError::Invalid(m)) => e.text() == m@,
            HandlerError::Storage(m) => e.text() == m@,
            HandlerError::Unwritten(m) => e.text() == m@,
        },
{
}

} // verus!

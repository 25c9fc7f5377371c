//! The payloads of warehouse events, and how they are read from JSON.
use crate::json;
use crate::json::{describe, member, Json, JsonView};
use crate::text;
use crate::text::{decimal_unsigned, join2, join3, same_text};
use vstd::prelude::*;

verus! {

#[derive(Debug, Clone)]
pub struct ProductReceivedPayload {
    pub product_id: String,
    pub zone_id: String,
    pub quantity: i64,
    pub supplier_id: Option<String>,
}

#[derive(Debug, Clone)]
pub struct ProductShippedPayload {
    pub product_id: String,
    pub zone_id: String,
    pub quantity: i64,
    pub order_id: Option<String>,
}

#[derive(Debug, Clone)]
pub struct ProductMovedPayload {
    pub product_id: String,
    pub from_zone_id: String,
    pub to_zone_id: String,
    pub quantity: i64,
}

#[derive(Debug, Clone)]
pub struct ProductReservedPayload {
    pub product_id: String,
    pub zone_id: String,
    pub quantity: i64,
    pub order_id: Option<String>,
}

#[derive(Debug, Clone)]
pub struct ProductReleasedPayload {
    pub product_id: String,
    pub zone_id: String,
    pub quantity: i64,
    pub order_id: Option<String>,
}

#[derive(Debug, Clone)]
pub struct InventoryCountedPayload {
    pub product_id: String,
    pub zone_id: String,
    pub counted_quantity: i64,
}

#[derive(Debug, Clone)]
pub struct OrderItem {
    pub product_id: String,
    pub zone_id: String,
    pub quantity: i64,
}

#[derive(Debug, Clone)]
pub struct OrderCreatedPayload {
    pub order_id: String,
    pub items: Vec<OrderItem>,
}

#[derive(Debug, Clone)]
pub struct OrderCompletedPayload {
    pub order_id: String,
}

/// What an event says, by its type.
#[derive(Debug, Clone)]
pub enum EventPayload {
    ProductReceived(ProductReceivedPayload),
    ProductShipped(ProductShippedPayload),
    ProductMoved(ProductMovedPayload),
    ProductReserved(ProductReservedPayload),
    ProductReleased(ProductReleasedPayload),
    InventoryCounted(InventoryCountedPayload),
    OrderCreated(OrderCreatedPayload),
    OrderCompleted(OrderCompletedPayload),
}

/// What a field of a payload holds.
#[derive(Debug, Clone, Copy, PartialEq, Eq, Structural)]
pub enum FieldType {
    Text,
    /// May be left out, or null.
    OptionalText,
    Integer,
    /// A list of order items.
    Items,
}

/// The structs that are read from JSON.
#[derive(Debug, Clone, Copy, PartialEq, Eq, Structural)]
pub enum Shape {
    ProductReceived,
    ProductShipped,
    ProductMoved,
    ProductReserved,
    ProductReleased,
    InventoryCounted,
    OrderItem,
    OrderCreated,
    OrderCompleted,
}

impl Shape {
    /// The struct's name, as messages give it.
    pub open spec fn struct_name(self) -> Seq<char> {
        match self {
            Shape::ProductReceived => "ProductReceivedPayload"@,
            Shape::ProductShipped => "ProductShippedPayload"@,
            Shape::ProductMoved => "ProductMovedPayload"@,
            Shape::ProductReserved => "ProductReservedPayload"@,
            Shape::ProductReleased => "ProductReleasedPayload"@,
            Shape::InventoryCounted => "InventoryCountedPayload"@,
            Shape::OrderItem => "OrderItem"@,
            Shape::OrderCreated => "OrderCreatedPayload"@,
            Shape::OrderCompleted => "OrderCompletedPayload"@,
        }
    }

    /// The struct's fields, in order.
    pub open spec fn fields(self) -> Seq<(Seq<char>, FieldType)> {
        match self {
            Shape::ProductReceived => seq![
                ("product_id"@, FieldType::Text),
                ("zone_id"@, FieldType::Text),
                ("quantity"@, FieldType::Integer),
                ("supplier_id"@, FieldType::OptionalText),
            ],
            Shape::ProductShipped => seq![
                ("product_id"@, FieldType::Text),
                ("zone_id"@, FieldType::Text),
                ("quantity"@, FieldType::Integer),
                ("order_id"@, FieldType::OptionalText),
            ],
            Shape::ProductMoved => seq![
                ("product_id"@, FieldType::Text),
                ("from_zone_id"@, FieldType::Text),
                ("to_zone_id"@, FieldType::Text),
                ("quantity"@, FieldType::Integer),
            ],
            Shape::ProductReserved => seq![
                ("product_id"@, FieldType::Text),
                ("zone_id"@, FieldType::Text),
                ("quantity"@, FieldType::Integer),
                ("order_id"@, FieldType::OptionalText),
            ],
            Shape::ProductReleased => seq![
                ("product_id"@, FieldType::Text),
                ("zone_id"@, FieldType::Text),
                ("quantity"@, FieldType::Integer),
                ("order_id"@, FieldType::OptionalText),
            ],
            Shape::InventoryCounted => seq![
                ("product_id"@, FieldType::Text),
                ("zone_id"@, FieldType::Text),
                ("counted_quantity"@, FieldType::Integer),
            ],
            Shape::OrderItem => seq![
                ("product_id"@, FieldType::Text),
                ("zone_id"@, FieldType::Text),
                ("quantity"@, FieldType::Integer),
            ],
            Shape::OrderCreated => seq![
                ("order_id"@, FieldType::Text),
                ("items"@, FieldType::Items),
            ],
            Shape::OrderCompleted => seq![("order_id"@, FieldType::Text)],
        }
    }

    /// The struct's name.
    pub fn name(self) -> (r: &'static str)
        ensures
            r@ == self.struct_name(),
    {
        match self {
            Shape::ProductReceived => "ProductReceivedPayload",
            Shape::ProductShipped => "ProductShippedPayload",
            Shape::ProductMoved => "ProductMovedPayload",
            Shape::ProductReserved => "ProductReservedPayload",
            Shape::ProductReleased => "ProductReleasedPayload",
            Shape::InventoryCounted => "InventoryCountedPayload",
            Shape::OrderItem => "OrderItem",
            Shape::OrderCreated => "OrderCreatedPayload",
            Shape::OrderCompleted => "OrderCompletedPayload",
        }
    }

    /// The struct's fields.
    pub fn table(self) -> (r: Vec<(&'static str, FieldType)>)
        ensures
            r@.len() == self.fields().len(),
            forall|i: int|
                0 <= i < r@.len() ==> (#[trigger] r@[i]).0@ == self.fields()[i].0 && r@[i].1
                    == self.fields()[i].1,
    {
        match self {
            Shape::ProductReceived => vec![
                ("product_id", FieldType::Text),
                ("zone_id", FieldType::Text),
                ("quantity", FieldType::Integer),
                ("supplier_id", FieldType::OptionalText),
            ],
            Shape::ProductMoved => vec![
                ("product_id", FieldType::Text),
                ("from_zone_id", FieldType::Text),
                ("to_zone_id", FieldType::Text),
                ("quantity", FieldType::Integer),
            ],
            Shape::ProductShipped | Shape::ProductReserved | Shape::ProductReleased => vec![
                ("product_id", FieldType::Text),
                ("zone_id", FieldType::Text),
                ("quantity", FieldType::Integer),
                ("order_id", FieldType::OptionalText),
            ],
            Shape::InventoryCounted => vec![
                ("product_id", FieldType::Text),
                ("zone_id", FieldType::Text),
                ("counted_quantity", FieldType::Integer),
            ],
            Shape::OrderItem => vec![
                ("product_id", FieldType::Text),
                ("zone_id", FieldType::Text),
                ("quantity", FieldType::Integer),
            ],
            Shape::OrderCreated => vec![
                ("order_id", FieldType::Text),
                ("items", FieldType::Items),
            ],
            Shape::OrderCompleted => vec![("order_id", FieldType::Text)],
        }
    }
}

/// The type of the first field of that name.
pub open spec fn field_type(fields: Seq<(Seq<char>, FieldType)>, name: Seq<char>) -> Option<
    FieldType,
>
    decreases fields.len(),
{
    if fields.len() == 0 {
        None
    } else if fields[0].0 == name {
        Some(fields[0].1)
    } else {
        field_type(fields.drop_first(), name)
    }
}

/// A value of the wrong type.
pub open spec fn invalid_type(value: JsonView, expected: Seq<char>) -> Seq<char> {
    "invalid type: "@ + json::described(value) + ", expected "@ + expected
}

/// A value of the right type that does not fit.
pub open spec fn invalid_value(value: JsonView, expected: Seq<char>) -> Seq<char> {
    "invalid value: "@ + json::described(value) + ", expected "@ + expected
}

/// An array of the wrong length.
pub open spec fn invalid_length(len: int, expected: Seq<char>) -> Seq<char> {
    "invalid length "@ + text::decimal_text(len) + ", expected "@ + expected
}

/// A field that is not there.
pub open spec fn missing_field(name: Seq<char>) -> Seq<char> {
    "missing field `"@ + name + "`"@
}

/// How messages speak of a struct that is written as an array.
pub open spec fn struct_of_elements(shape: Shape) -> Seq<char> {
    "struct "@ + shape.struct_name() + " with "@ + text::decimal_text(shape.fields().len() as int)
        + (if shape.fields().len() == 1 {
        " element"@
    } else {
        " elements"@
    })
}

/// What is wrong with a value for a field of that type, if anything.
pub open spec fn value_problem(ty: FieldType, value: JsonView) -> Option<Seq<char>>
    decreases value, 0int,
{
    match ty {
        FieldType::Text => match value {
            JsonView::String(_) => None,
            _ => Some(invalid_type(value, "a string"@)),
        },
        FieldType::OptionalText => match value {
            JsonView::Null => None,
            JsonView::String(_) => None,
            _ => Some(invalid_type(value, "a string"@)),
        },
        FieldType::Integer => match value {
            JsonView::Integer(n) => if i64::MIN <= n <= i64::MAX {
                None
            } else {
                Some(invalid_value(value, "i64"@))
            },
            _ => Some(invalid_type(value, "i64"@)),
        },
        FieldType::Items => match value {
            JsonView::Array(items) => items_problem(items, 0),
            _ => Some(invalid_type(value, "a sequence"@)),
        },
    }
}

/// What is wrong with the order items from the `k`th on: the first thing that is.
pub open spec fn items_problem(items: Seq<JsonView>, k: int) -> Option<Seq<char>>
    decreases items, items.len() - k,
{
    if k < 0 || k >= items.len() {
        None
    } else {
        match struct_problem(Shape::OrderItem, items[k]) {
            Some(problem) => Some(problem),
            None => items_problem(items, k + 1),
        }
    }
}

/// What is wrong with a value for a struct, if anything. In an object each member
/// that the struct knows is looked at first, in the object's order, then each field
/// is looked for. In an array the elements stand for the fields in order.
pub open spec fn struct_problem(shape: Shape, value: JsonView) -> Option<Seq<char>>
    decreases value, 1int,
{
    match value {
        JsonView::Object(members) => match members_problem(shape, members, 0) {
            Some(problem) => Some(problem),
            None => missing_problem(shape.fields(), members, 0),
        },
        JsonView::Array(elements) => elements_problem(shape, elements, 0),
        _ => Some(invalid_type(value, "struct "@ + shape.struct_name())),
    }
}

/// What is wrong with the members from the `k`th on.
pub open spec fn members_problem(
    shape: Shape,
    members: Seq<(Seq<char>, JsonView)>,
    k: int,
) -> Option<Seq<char>>
    decreases members, members.len() - k,
{
    if k < 0 || k >= members.len() {
        None
    } else {
        match field_type(shape.fields(), members[k].0) {
            Some(ty) => match value_problem(ty, members[k].1) {
                Some(problem) => Some(problem),
                None => members_problem(shape, members, k + 1),
            },
            None => members_problem(shape, members, k + 1),
        }
    }
}

/// The first field from the `j`th on that must be there and is not.
pub open spec fn missing_problem(
    fields: Seq<(Seq<char>, FieldType)>,
    members: Seq<(Seq<char>, JsonView)>,
    j: int,
) -> Option<Seq<char>>
    decreases fields.len() - j,
{
    if j < 0 || j >= fields.len() {
        None
    } else if fields[j].1 == FieldType::OptionalText || json::find_member(
        members,
        fields[j].0,
    ) is Some {
        missing_problem(fields, members, j + 1)
    } else {
        Some(missing_field(fields[j].0))
    }
}

/// What is wrong with the elements from the `j`th on.
pub open spec fn elements_problem(shape: Shape, elements: Seq<JsonView>, j: int) -> Option<
    Seq<char>,
>
    decreases elements, shape.fields().len() - j,
{
    if j < 0 || j >= shape.fields().len() {
        if elements.len() > shape.fields().len() {
            Some(invalid_length(elements.len() as int, "fewer elements in array"@))
        } else {
            None
        }
    } else if j >= elements.len() {
        Some(invalid_length(j, struct_of_elements(shape)))
    } else {
        match value_problem(shape.fields()[j].1, elements[j]) {
            Some(problem) => Some(problem),
            None => elements_problem(shape, elements, j + 1),
        }
    }
}

/// Whether a message is given exactly where there is something wrong, and says what.
pub open spec fn tells(message: Option<String>, problem: Option<Seq<char>>) -> bool {
    match message {
        Some(m) => problem == Some(m@),
        None => problem is None,
    }
}

/// Says that a value has the wrong type.
fn type_message(value: &Json, expected: &str) -> (r: String)
    ensures
        r@ == invalid_type(value@, expected@),
{
    let found = describe(value);
    let mut out = join3("invalid type: ", found.as_str(), ", expected ");
    out.append(expected);
    out
}

/// Says that an integer does not fit.
fn value_message(value: &Json, expected: &str) -> (r: String)
    ensures
        r@ == invalid_value(value@, expected@),
{
    let found = describe(value);
    let mut out = join3("invalid value: ", found.as_str(), ", expected ");
    out.append(expected);
    out
}

/// Says that an array has the wrong length.
fn length_message(len: usize, expected: &str) -> (r: String)
    ensures
        r@ == invalid_length(len as int, expected@),
{
    let shown = decimal_unsigned(len as u128);
    let mut out = join3("invalid length ", shown.as_str(), ", expected ");
    out.append(expected);
    out
}

/// Says that there are fewer elements than fields.
fn short_message(shape: Shape, fields: usize, len: usize) -> (r: String)
    requires
        fields == shape.fields().len(),
    ensures
        r@ == invalid_length(len as int, struct_of_elements(shape)),
{
    let shown = decimal_unsigned(fields as u128);
    let mut of = join3("struct ", shape.name(), " with ");
    of.append(shown.as_str());
    if fields == 1 {
        of.append(" element");
    } else {
        of.append(" elements");
    }
    length_message(len, of.as_str())
}

/// Looks a field up by name.
fn field_of(table: &Vec<(&'static str, FieldType)>, name: &str, Ghost(shape): Ghost<Shape>) -> (r:
    Option<FieldType>)
    requires
        table@.len() == shape.fields().len(),
        forall|i: int|
            0 <= i < table@.len() ==> (#[trigger] table@[i]).0@ == shape.fields()[i].0
                && table@[i].1 == shape.fields()[i].1,
    ensures
        r == field_type(shape.fields(), name@),
{
    let ghost all = shape.fields();
    let mut i: usize = 0;
    assert(all.skip(0) =~= all);
    while i < table.len()
        invariant
            all == shape.fields(),
            i <= table.len(),
            table@.len() == all.len(),
            forall|i: int|
                0 <= i < table@.len() ==> (#[trigger] table@[i]).0@ == all[i].0 && table@[i].1
                    == all[i].1,
            field_type(all, name@) == field_type(all.skip(i as int), name@),
        decreases table.len() - i,
    {
        assert(all.skip(i as int)[0] == all[i as int]);
        if same_text(table[i].0, name) {
            return Some(table[i].1);
        }
        assert(all.skip(i as int).drop_first() =~= all.skip(i + 1));
        i += 1;
    }
    None
}

/// Checks a value for a field of that type.
fn check_value(ty: FieldType, value: &Json) -> (r: Option<String>)
    ensures
        tells(r, value_problem(ty, value@)),
    decreases value, 0int,
{
    match ty {
        FieldType::Text => match value {
            Json::String(_) => None,
            _ => Some(type_message(value, "a string")),
        },
        FieldType::OptionalText => match value {
            Json::Null => None,
            Json::String(_) => None,
            _ => Some(type_message(value, "a string")),
        },
        FieldType::Integer => match value {
            Json::Integer(n) => if i64::MIN as i128 <= *n && *n <= i64::MAX as i128 {
                None
            } else {
                Some(value_message(value, "i64"))
            },
            _ => Some(type_message(value, "i64")),
        },
        FieldType::Items => match value {
            Json::Array(items) => {
                let ghost all = value@->Array_0;
                let mut k: usize = 0;
                while k < items.len()
                    invariant
                        k <= items.len(),
                        ty == FieldType::Items,
                        value == Json::Array(*items),
                        all == value@->Array_0,
                        items_problem(all, 0) == items_problem(all, k as int),
                    decreases items.len() - k,
                {
                    assert(all[k as int] == items@[k as int]@);
                    assert(decreases_to!(value => items@[k as int]));
                    match check_struct(Shape::OrderItem, &items[k]) {
                        Some(problem) => {
                            return Some(problem);
                        },
                        None => {},
                    }
                    k += 1;
                }
                None
            },
            _ => Some(type_message(value, "a sequence")),
        },
    }
}

/// Checks a value for a struct.
fn check_struct(shape: Shape, value: &Json) -> (r: Option<String>)
    ensures
        tells(r, struct_problem(shape, value@)),
    decreases value, 1int,
{
    let table = shape.table();
    match value {
        Json::Object(members) => {
            let ghost all = value@->Object_0;
            let mut k: usize = 0;
            while k < members.len()
                invariant
                    k <= members.len(),
                    value == Json::Object(*members),
                    all == value@->Object_0,
                    table@.len() == shape.fields().len(),
                    forall|i: int|
                        0 <= i < table@.len() ==> (#[trigger] table@[i]).0@ == shape.fields()[i].0
                            && table@[i].1 == shape.fields()[i].1,
                    members_problem(shape, all, 0) == members_problem(shape, all, k as int),
                decreases members.len() - k,
            {
                assert(all[k as int] == (members@[k as int].0@, members@[k as int].1@));
                assert(decreases_to!(value => members@[k as int].1));
                match field_of(&table, members[k].0.as_str(), Ghost(shape)) {
                    Some(ty) => match check_value(ty, &members[k].1) {
                        Some(problem) => {
                            return Some(problem);
                        },
                        None => {},
                    },
                    None => {},
                }
                k += 1;
            }
            let mut j: usize = 0;
            while j < table.len()
                invariant
                    j <= table.len(),
                    value == Json::Object(*members),
                    all == value@->Object_0,
                    table@.len() == shape.fields().len(),
                    forall|i: int|
                        0 <= i < table@.len() ==> (#[trigger] table@[i]).0@ == shape.fields()[i].0
                            && table@[i].1 == shape.fields()[i].1,
                    members_problem(shape, all, 0) is None,
                    missing_problem(shape.fields(), all, 0) == missing_problem(
                        shape.fields(),
                        all,
                        j as int,
                    ),
                decreases table.len() - j,
            {
                let (name, ty) = table[j];
                if ty != FieldType::OptionalText && member(members, name).is_none() {
                    return Some(join3("missing field `", name, "`"));
                }
                j += 1;
            }
            None
        },
        Json::Array(elements) => {
            let ghost all = value@->Array_0;
            let mut j: usize = 0;
            while j < table.len()
                invariant
                    j <= table.len(),
                    value == Json::Array(*elements),
                    all == value@->Array_0,
                    table@.len() == shape.fields().len(),
                    forall|i: int|
                        0 <= i < table@.len() ==> (#[trigger] table@[i]).0@ == shape.fields()[i].0
                            && table@[i].1 == shape.fields()[i].1,
                    elements_problem(shape, all, 0) == elements_problem(shape, all, j as int),
                decreases table.len() - j,
            {
                if j >= elements.len() {
                    return Some(short_message(shape, table.len(), j));
                }
                assert(all[j as int] == elements@[j as int]@);
                assert(decreases_to!(value => elements@[j as int]));
                match check_value(table[j].1, &elements[j]) {
                    Some(problem) => {
                        return Some(problem);
                    },
                    None => {},
                }
                j += 1;
            }
            if elements.len() > table.len() {
                Some(length_message(elements.len(), "fewer elements in array"))
            } else {
                None
            }
        },
        _ => {
            let expected = join2("struct ", shape.name());
            Some(type_message(value, expected.as_str()))
        },
    }
}

/// The value of a struct's `j`th field: null where an object leaves it out.
pub open spec fn field_value(shape: Shape, value: JsonView, j: int) -> JsonView {
    match value {
        JsonView::Object(members) => match json::find_member(members, shape.fields()[j].0) {
            Some(found) => found,
            None => JsonView::Null,
        },
        JsonView::Array(elements) => elements[j],
        _ => JsonView::Null,
    }
}

/// The text of a field.
pub open spec fn text_at(shape: Shape, value: JsonView, j: int) -> Seq<char> {
    field_value(shape, value, j)->String_0
}

/// The number in a field.
pub open spec fn integer_at(shape: Shape, value: JsonView, j: int) -> int {
    field_value(shape, value, j)->Integer_0
}

/// The text of a field that may be left out or null.
pub open spec fn optional_text_at(shape: Shape, value: JsonView, j: int) -> Option<Seq<char>> {
    match field_value(shape, value, j) {
        JsonView::String(s) => Some(s),
        _ => None,
    }
}

/// Whether an order item is what a JSON value says.
pub open spec fn item_says(item: OrderItem, value: JsonView) -> bool {
    &&& item.product_id@ == text_at(Shape::OrderItem, value, 0)
    &&& item.zone_id@ == text_at(Shape::OrderItem, value, 1)
    &&& item.quantity == integer_at(Shape::OrderItem, value, 2)
}

/// Whether order items are what a JSON array says, one for one.
pub open spec fn items_say(items: Seq<OrderItem>, values: Seq<JsonView>) -> bool {
    &&& items.len() == values.len()
    &&& forall|i: int| 0 <= i < items.len() ==> item_says(#[trigger] items[i], values[i])
}

impl EventPayload {
    /// The struct that the payload holds.
    pub open spec fn shape(self) -> Shape {
        match self {
            EventPayload::ProductReceived(_) => Shape::ProductReceived,
            EventPayload::ProductShipped(_) => Shape::ProductShipped,
            EventPayload::ProductMoved(_) => Shape::ProductMoved,
            EventPayload::ProductReserved(_) => Shape::ProductReserved,
            EventPayload::ProductReleased(_) => Shape::ProductReleased,
            EventPayload::InventoryCounted(_) => Shape::InventoryCounted,
            EventPayload::OrderCreated(_) => Shape::OrderCreated,
            EventPayload::OrderCompleted(_) => Shape::OrderCompleted,
        }
    }

    /// Whether each field of the payload is what a JSON value says.
    pub open spec fn says(self, value: JsonView) -> bool {
        match self {
            EventPayload::ProductReceived(p) => {
                &&& p.product_id@ == text_at(Shape::ProductReceived, value, 0)
                &&& p.zone_id@ == text_at(Shape::ProductReceived, value, 1)
                &&& p.quantity == integer_at(Shape::ProductReceived, value, 2)
                &&& text::optional(p.supplier_id) == optional_text_at(
                    Shape::ProductReceived,
                    value,
                    3,
                )
            },
            EventPayload::ProductShipped(p) => {
                &&& p.product_id@ == text_at(Shape::ProductShipped, value, 0)
                &&& p.zone_id@ == text_at(Shape::ProductShipped, value, 1)
                &&& p.quantity == integer_at(Shape::ProductShipped, value, 2)
                &&& text::optional(p.order_id) == optional_text_at(
                    Shape::ProductShipped,
                    value,
                    3,
                )
            },
            EventPayload::ProductMoved(p) => {
                &&& p.product_id@ == text_at(Shape::ProductMoved, value, 0)
                &&& p.from_zone_id@ == text_at(Shape::ProductMoved, value, 1)
                &&& p.to_zone_id@ == text_at(Shape::ProductMoved, value, 2)
                &&& p.quantity == integer_at(Shape::ProductMoved, value, 3)
            },
            EventPayload::ProductReserved(p) => {
                &&& p.product_id@ == text_at(Shape::ProductReserved, value, 0)
                &&& p.zone_id@ == text_at(Shape::ProductReserved, value, 1)
                &&& p.quantity == integer_at(Shape::ProductReserved, value, 2)
                &&& text::optional(p.order_id) == optional_text_at(
                    Shape::ProductReserved,
                    value,
                    3,
                )
            },
            EventPayload::ProductReleased(p) => {
                &&& p.product_id@ == text_at(Shape::ProductReleased, value, 0)
                &&& p.zone_id@ == text_at(Shape::ProductReleased, value, 1)
                &&& p.quantity == integer_at(Shape::ProductReleased, value, 2)
                &&& text::optional(p.order_id) == optional_text_at(
                    Shape::ProductReleased,
                    value,
                    3,
                )
            },
            EventPayload::InventoryCounted(p) => {
                &&& p.product_id@ == text_at(Shape::InventoryCounted, value, 0)
                &&& p.zone_id@ == text_at(Shape::InventoryCounted, value, 1)
                &&& p.counted_quantity == integer_at(Shape::InventoryCounted, value, 2)
            },
            EventPayload::OrderCreated(p) => {
                &&& p.order_id@ == text_at(Shape::OrderCreated, value, 0)
                &&& items_say(p.items@, field_value(Shape::OrderCreated, value, 1)->Array_0)
            },
            EventPayload::OrderCompleted(p) => p.order_id@ == text_at(
                Shape::OrderCompleted,
                value,
                0,
            ),
        }
    }
}

proof fn first_is_found(fields: Seq<(Seq<char>, FieldType)>, j: int)
    requires
        0 <= j < fields.len(),
        forall|i: int| 0 <= i < j ==> (#[trigger] fields[i]).0 != fields[j].0,
    ensures
        field_type(fields, fields[j].0) == Some(fields[j].1),
    decreases j,
{
    if j > 0 {
        assert(fields[0].0 != fields[j].0);
        assert forall|i: int| 0 <= i < j - 1 implies (#[trigger] fields.drop_first()[i]).0
            != fields.drop_first()[j - 1].0 by {
            assert(fields.drop_first()[i] == fields[i + 1]);
        }
        first_is_found(fields.drop_first(), j - 1);
    }
}

/// No two fields of a struct share a name.
pub proof fn field_is_found(shape: Shape, j: int)
    requires
        0 <= j < shape.fields().len(),
    ensures
        field_type(shape.fields(), shape.fields()[j].0) == Some(shape.fields()[j].1),
{
    reveal_strlit("product_id");
    reveal_strlit("zone_id");
    reveal_strlit("from_zone_id");
    reveal_strlit("to_zone_id");
    reveal_strlit("quantity");
    reveal_strlit("counted_quantity");
    reveal_strlit("supplier_id");
    reveal_strlit("order_id");
    reveal_strlit("items");
    assert("quantity"@[0] != "order_id"@[0]);
    assert("product_id"@[0] != "to_zone_id"@[0]);
    assert("product_id"@.len() == 10 && "zone_id"@.len() == 7 && "quantity"@.len() == 8
        && "supplier_id"@.len() == 11 && "order_id"@.len() == 8 && "from_zone_id"@.len() == 12
        && "to_zone_id"@.len() == 10 && "counted_quantity"@.len() == 16 && "items"@.len() == 5);
    let fields = shape.fields();
    assert forall|i: int| 0 <= i < j implies (#[trigger] fields[i]).0 != fields[j].0 by {
        match shape {
            Shape::OrderCompleted => {},
            Shape::OrderCreated => {
                assert(i == 0 && j == 1);
            },
            Shape::InventoryCounted | Shape::OrderItem => {
                assert(i == 0 || i == 1);
                assert(j == 1 || j == 2);
            },
            _ => {
                assert(i == 0 || i == 1 || i == 2);
                assert(j == 1 || j == 2 || j == 3);
            },
        }
    }
    first_is_found(fields, j);
}

proof fn member_fits(shape: Shape, members: Seq<(Seq<char>, JsonView)>, from: int, k: int)
    requires
        members_problem(shape, members, from) is None,
        0 <= from <= k < members.len(),
    ensures
        match field_type(shape.fields(), members[k].0) {
            Some(ty) => value_problem(ty, members[k].1) is None,
            None => true,
        },
    decreases k - from,
{
    if from < k {
        member_fits(shape, members, from + 1, k);
    }
}

proof fn member_place(members: Seq<(Seq<char>, JsonView)>, name: Seq<char>) -> (k: int)
    requires
        json::find_member(members, name) is Some,
    ensures
        0 <= k < members.len(),
        members[k] == (name, json::find_member(members, name)->0),
    decreases members.len(),
{
    if members[0].0 == name {
        0
    } else {
        member_place(members.drop_first(), name) + 1
    }
}

proof fn field_is_present(
    fields: Seq<(Seq<char>, FieldType)>,
    members: Seq<(Seq<char>, JsonView)>,
    from: int,
    j: int,
)
    requires
        missing_problem(fields, members, from) is None,
        0 <= from <= j < fields.len(),
    ensures
        fields[j].1 == FieldType::OptionalText || json::find_member(members, fields[j].0) is Some,
    decreases j - from,
{
    if from < j {
        field_is_present(fields, members, from + 1, j);
    }
}

proof fn element_fits(shape: Shape, elements: Seq<JsonView>, from: int, j: int)
    requires
        elements_problem(shape, elements, from) is None,
        0 <= from <= j < shape.fields().len(),
    ensures
        j < elements.len(),
        value_problem(shape.fields()[j].1, elements[j]) is None,
    decreases j - from,
{
    if from < j {
        element_fits(shape, elements, from + 1, j);
    }
}

proof fn item_fits(items: Seq<JsonView>, from: int, k: int)
    requires
        items_problem(items, from) is None,
        0 <= from <= k < items.len(),
    ensures
        struct_problem(Shape::OrderItem, items[k]) is None,
    decreases k - from,
{
    if from < k {
        item_fits(items, from + 1, k);
    }
}

/// Where nothing is wrong with a struct, nothing is wrong with any of its fields.
pub proof fn field_fits(shape: Shape, value: JsonView, j: int)
    requires
        struct_problem(shape, value) is None,
        0 <= j < shape.fields().len(),
    ensures
        value_problem(shape.fields()[j].1, field_value(shape, value, j)) is None,
        value is Array ==> j < value->Array_0.len(),
{
    match value {
        JsonView::Object(members) => {
            field_is_present(shape.fields(), members, 0, j);
            let name = shape.fields()[j].0;
            if json::find_member(members, name) is Some {
                let k = member_place(members, name);
                member_fits(shape, members, 0, k);
                field_is_found(shape, j);
            }
        },
        JsonView::Array(elements) => {
            element_fits(shape, elements, 0, j);
        },
        _ => {},
    }
}

/// Finds the value of a field.
fn find_field<'a>(shape: Shape, value: &'a Json, j: usize) -> (r: Option<&'a Json>)
    requires
        struct_problem(shape, value@) is None,
        j < shape.fields().len(),
    ensures
        match r {
            Some(found) => found@ == field_value(shape, value@, j as int),
            None => field_value(shape, value@, j as int) is Null,
        },
{
    proof {
        field_fits(shape, value@, j as int);
    }
    match value {
        Json::Object(members) => {
            let table = shape.table();
            member(members, table[j].0)
        },
        Json::Array(elements) => {
            assert(value@->Array_0[j as int] == elements@[j as int]@);
            Some(&elements[j])
        },
        _ => None,
    }
}

fn read_text(shape: Shape, value: &Json, j: usize) -> (r: String)
    requires
        struct_problem(shape, value@) is None,
        j < shape.fields().len(),
        shape.fields()[j as int].1 == FieldType::Text,
    ensures
        r@ == text_at(shape, value@, j as int),
{
    proof {
        field_fits(shape, value@, j as int);
    }
    match find_field(shape, value, j) {
        Some(Json::String(s)) => s.clone(),
        _ => {
            assert(false);
            String::new()
        },
    }
}

fn read_optional_text(shape: Shape, value: &Json, j: usize) -> (r: Option<String>)
    requires
        struct_problem(shape, value@) is None,
        j < shape.fields().len(),
    ensures
        text::optional(r) == optional_text_at(shape, value@, j as int),
{
    match find_field(shape, value, j) {
        Some(Json::String(s)) => Some(s.clone()),
        _ => None,
    }
}

fn read_integer(shape: Shape, value: &Json, j: usize) -> (r: i64)
    requires
        struct_problem(shape, value@) is None,
        j < shape.fields().len(),
        shape.fields()[j as int].1 == FieldType::Integer,
    ensures
        r == integer_at(shape, value@, j as int),
{
    proof {
        field_fits(shape, value@, j as int);
    }
    match find_field(shape, value, j) {
        Some(Json::Integer(n)) => *n as i64,
        _ => {
            assert(false);
            0
        },
    }
}

fn read_items(shape: Shape, value: &Json, j: usize) -> (r: Vec<OrderItem>)
    requires
        struct_problem(shape, value@) is None,
        j < shape.fields().len(),
        shape.fields()[j as int].1 == FieldType::Items,
    ensures
        items_say(r@, field_value(shape, value@, j as int)->Array_0),
{
    proof {
        field_fits(shape, value@, j as int);
    }
    let mut out: Vec<OrderItem> = Vec::new();
    match find_field(shape, value, j) {
        Some(Json::Array(items)) => {
            let ghost all = field_value(shape, value@, j as int)->Array_0;
            let mut k: usize = 0;
            while k < items.len()
                invariant
                    k <= items.len(),
                    all == Json::Array(*items)@->Array_0,
                    items_problem(all, 0) is None,
                    out@.len() == k,
                    forall|i: int| 0 <= i < k ==> item_says(#[trigger] out@[i], all[i]),
                decreases items.len() - k,
            {
                assert(all[k as int] == items@[k as int]@);
                proof {
                    item_fits(all, 0, k as int);
                }
                let item = &items[k];
                out.push(
                    OrderItem {
                        product_id: read_text(Shape::OrderItem, item, 0),
                        zone_id: read_text(Shape::OrderItem, item, 1),
                        quantity: read_integer(Shape::OrderItem, item, 2),
                    },
                );
                k += 1;
            }
        },
        _ => {
            assert(false);
        },
    }
    out
}

/// The struct that an event of that type carries.
pub open spec fn shape_of(event_type: Seq<char>) -> Option<Shape> {
    if event_type == "PRODUCT_RECEIVED"@ {
        Some(Shape::ProductReceived)
    } else if event_type == "PRODUCT_SHIPPED"@ {
        Some(Shape::ProductShipped)
    } else if event_type == "PRODUCT_MOVED"@ {
        Some(Shape::ProductMoved)
    } else if event_type == "PRODUCT_RESERVED"@ {
        Some(Shape::ProductReserved)
    } else if event_type == "PRODUCT_RELEASED"@ {
        Some(Shape::ProductReleased)
    } else if event_type == "INVENTORY_COUNTED"@ {
        Some(Shape::InventoryCounted)
    } else if event_type == "ORDER_CREATED"@ {
        Some(Shape::OrderCreated)
    } else if event_type == "ORDER_COMPLETED"@ {
        Some(Shape::OrderCompleted)
    } else {
        None
    }
}

fn find_shape(event_type: &str) -> (r: Option<Shape>)
    ensures
        r == shape_of(event_type@),
{
    if same_text(event_type, "PRODUCT_RECEIVED") {
        Some(Shape::ProductReceived)
    } else if same_text(event_type, "PRODUCT_SHIPPED") {
        Some(Shape::ProductShipped)
    } else if same_text(event_type, "PRODUCT_MOVED") {
        Some(Shape::ProductMoved)
    } else if same_text(event_type, "PRODUCT_RESERVED") {
        Some(Shape::ProductReserved)
    } else if same_text(event_type, "PRODUCT_RELEASED") {
        Some(Shape::ProductReleased)
    } else if same_text(event_type, "INVENTORY_COUNTED") {
        Some(Shape::InventoryCounted)
    } else if same_text(event_type, "ORDER_CREATED") {
        Some(Shape::OrderCreated)
    } else if same_text(event_type, "ORDER_COMPLETED") {
        Some(Shape::OrderCompleted)
    } else {
        None
    }
}

/// Why a payload cannot be read.
#[derive(Debug)]
pub enum PayloadError {
    UnknownEventType(String),
    Invalid(String),
}

impl PayloadError {
    pub open spec fn text(self) -> Seq<char> {
        match self {
            PayloadError::UnknownEventType(t) => "Unknown event type: "@ + t@,
            PayloadError::Invalid(m) => m@,
        }
    }

    /// The error's message.
    pub fn message(&self) -> (r: String)
        ensures
            r@ == self.text(),
    {
        match self {
            PayloadError::UnknownEventType(t) => join2("Unknown event type: ", t.as_str()),
            PayloadError::Invalid(m) => m.clone(),
        }
    }
}

/// What reading a payload gives: the struct that goes with the event type, field by
/// field, or what is wrong with it.
pub open spec fn payload_read(
    event_type: Seq<char>,
    value: JsonView,
    r: Result<EventPayload, PayloadError>,
) -> bool {
    match shape_of(event_type) {
        None => r matches Err(PayloadError::UnknownEventType(t)) && t@ == event_type,
        Some(shape) => match struct_problem(shape, value) {
            Some(problem) => r matches Err(PayloadError::Invalid(m)) && m@ == problem,
            None => r matches Ok(p) && p.shape() == shape && p.says(value),
        },
    }
}

/// Reads a payload by its event type.
pub fn decode_payload(event_type: &str, value: &Json) -> (r: Result<EventPayload, PayloadError>)
    ensures
        payload_read(event_type@, value@, r),
{
    let shape = match find_shape(event_type) {
        Some(shape) => shape,
        None => {
            return Err(PayloadError::UnknownEventType(event_type.to_string()));
        },
    };
    match check_struct(shape, value) {
        Some(problem) => {
            return Err(PayloadError::Invalid(problem));
        },
        None => {},
    }
    Ok(
        match shape {
            Shape::ProductReceived => EventPayload::ProductReceived(
                ProductReceivedPayload {
                    product_id: read_text(shape, value, 0),
                    zone_id: read_text(shape, value, 1),
                    quantity: read_integer(shape, value, 2),
                    supplier_id: read_optional_text(shape, value, 3),
                },
            ),
            Shape::ProductShipped => EventPayload::ProductShipped(
                ProductShippedPayload {
                    product_id: read_text(shape, value, 0),
                    zone_id: read_text(shape, value, 1),
                    quantity: read_integer(shape, value, 2),
                    order_id: read_optional_text(shape, value, 3),
                },
            ),
            Shape::ProductMoved => EventPayload::ProductMoved(
                ProductMovedPayload {
                    product_id: read_text(shape, value, 0),
                    from_zone_id: read_text(shape, value, 1),
                    to_zone_id: read_text(shape, value, 2),
                    quantity: read_integer(shape, value, 3),
                },
            ),
            Shape::ProductReserved => EventPayload::ProductReserved(
                ProductReservedPayload {
                    product_id: read_text(shape, value, 0),
                    zone_id: read_text(shape, value, 1),
                    quantity: read_integer(shape, value, 2),
                    order_id: read_optional_text(shape, value, 3),
                },
            ),
            Shape::ProductReleased => EventPayload::ProductReleased(
                ProductReleasedPayload {
                    product_id: read_text(shape, value, 0),
                    zone_id: read_text(shape, value, 1),
                    quantity: read_integer(shape, value, 2),
                    order_id: read_optional_text(shape, value, 3),
                },
            ),
            Shape::InventoryCounted => EventPayload::InventoryCounted(
                InventoryCountedPayload {
                    product_id: read_text(shape, value, 0),
                    zone_id: read_text(shape, value, 1),
                    counted_quantity: read_integer(shape, value, 2),
                },
            ),
            Shape::OrderCreated => EventPayload::OrderCreated(
                OrderCreatedPayload {
                    order_id: read_text(shape, value, 0),
                    items: read_items(shape, value, 1),
                },
            ),
            Shape::OrderCompleted | Shape::OrderItem => EventPayload::OrderCompleted(
                OrderCompletedPayload { order_id: read_text(Shape::OrderCompleted, value, 0) },
            ),
        },
    )
}

/// Whether a member is a text.
pub open spec fn is_text(value: JsonView) -> bool {
    value is String
}

/// Whether a member is a number that a quantity can be.
pub open spec fn is_count(value: JsonView) -> bool {
    value matches JsonView::Integer(n) && -0x8000_0000_0000_0000 <= n < 0x8000_0000_0000_0000
}

/// What is read from an object is what its members say, each by its name.
pub proof fn payload_is_read_by_names(
    event_type: Seq<char>,
    members: Seq<(Seq<char>, JsonView)>,
    p: EventPayload,
)
    requires
        payload_read(event_type, JsonView::Object(members), Ok(p)),
    ensures
        ({
            let text = |name: Seq<char>| json::find_member(members, name)->0->String_0;
            let count = |name: Seq<char>| json::find_member(members, name)->0->Integer_0;
            let maybe = |name: Seq<char>|
                match json::find_member(members, name) {
                    Some(JsonView::String(s)) => Some(s),
                    _ => None,
                };
            match p {
                EventPayload::ProductReceived(q) => {
                    &&& event_type == "PRODUCT_RECEIVED"@
                    &&& q.product_id@ == text("product_id"@)
                    &&& q.zone_id@ == text("zone_id"@)
                    &&& q.quantity == count("quantity"@)
                    &&& text::optional(q.supplier_id) == maybe("supplier_id"@)
                },
                EventPayload::ProductShipped(q) => {
                    &&& event_type == "PRODUCT_SHIPPED"@
                    &&& q.product_id@ == text("product_id"@)
                    &&& q.zone_id@ == text("zone_id"@)
                    &&& q.quantity == count("quantity"@)
                    &&& text::optional(q.order_id) == maybe("order_id"@)
                },
                EventPayload::ProductMoved(q) => {
                    &&& event_type == "PRODUCT_MOVED"@
                    &&& q.product_id@ == text("product_id"@)
                    &&& q.from_zone_id@ == text("from_zone_id"@)
                    &&& q.to_zone_id@ == text("to_zone_id"@)
                    &&& q.quantity == count("quantity"@)
                },
                EventPayload::ProductReserved(q) => {
                    &&& event_type == "PRODUCT_RESERVED"@
                    &&& q.product_id@ == text("product_id"@)
                    &&& q.zone_id@ == text("zone_id"@)
                    &&& q.quantity == count("quantity"@)
                    &&& text::optional(q.order_id) == maybe("order_id"@)
                },
                EventPayload::ProductReleased(q) => {
                    &&& event_type == "PRODUCT_RELEASED"@
                    &&& q.product_id@ == text("product_id"@)
                    &&& q.zone_id@ == text("zone_id"@)
                    &&& q.quantity == count("quantity"@)
                    &&& text::optional(q.order_id) == maybe("order_id"@)
                },
                EventPayload::InventoryCounted(q) => {
                    &&& event_type == "INVENTORY_COUNTED"@
                    &&& q.product_id@ == text("product_id"@)
                    &&& q.zone_id@ == text("zone_id"@)
                    &&& q.counted_quantity == count("counted_quantity"@)
                },
                EventPayload::OrderCreated(q) => {
                    &&& event_type == "ORDER_CREATED"@
                    &&& q.order_id@ == text("order_id"@)
                    &&& items_say(q.items@, json::find_member(members, "items"@)->0->Array_0)
                },
                EventPayload::OrderCompleted(q) => {
                    &&& event_type == "ORDER_COMPLETED"@
                    &&& q.order_id@ == text("order_id"@)
                },
            }
        }),
{
    let shape = shape_of(event_type)->0;
    field_fits(shape, JsonView::Object(members), 0);
    if shape.fields().len() > 1 {
        field_fits(shape, JsonView::Object(members), 1);
    }
    if shape.fields().len() > 2 {
        field_fits(shape, JsonView::Object(members), 2);
    }
    if shape.fields().len() > 3 {
        field_fits(shape, JsonView::Object(members), 3);
    }
}

/// What an order item is read to be is what its members say, each by its name.
pub proof fn item_is_read_by_names(item: OrderItem, members: Seq<(Seq<char>, JsonView)>)
    requires
        item_says(item, JsonView::Object(members)),
        struct_problem(Shape::OrderItem, JsonView::Object(members)) is None,
    ensures
        json::find_member(members, "product_id"@) == Some(JsonView::String(item.product_id@)),
        json::find_member(members, "zone_id"@) == Some(JsonView::String(item.zone_id@)),
        json::find_member(members, "quantity"@) == Some(JsonView::Integer(item.quantity as int)),
{
    let value = JsonView::Object(members);
    field_fits(Shape::OrderItem, value, 0);
    field_fits(Shape::OrderItem, value, 1);
    field_fits(Shape::OrderItem, value, 2);
}

/// Whether a value is right for a field of that type.
pub open spec fn is_right(ty: FieldType, value: JsonView) -> bool {
    match ty {
        FieldType::Text => is_text(value),
        FieldType::OptionalText => is_text(value) || value is Null,
        FieldType::Integer => is_count(value),
        FieldType::Items => value matches JsonView::Array(items) && forall|i: int|
            0 <= i < items.len() ==> struct_problem(Shape::OrderItem, #[trigger] items[i]) is None,
    }
}

proof fn items_are_right(items: Seq<JsonView>, k: int)
    requires
        0 <= k <= items.len(),
    ensures
        items_problem(items, k) is None <==> forall|i: int|
            k <= i < items.len() ==> struct_problem(Shape::OrderItem, #[trigger] items[i]) is None,
    decreases items.len() - k,
{
    if k < items.len() {
        items_are_right(items, k + 1);
    }
}

proof fn value_is_right(ty: FieldType, value: JsonView)
    ensures
        value_problem(ty, value) is None <==> is_right(ty, value),
{
    if ty == FieldType::Items && value is Array {
        items_are_right(value->Array_0, 0);
    }
}

proof fn members_are_right(shape: Shape, members: Seq<(Seq<char>, JsonView)>, k: int)
    requires
        0 <= k <= members.len(),
    ensures
        members_problem(shape, members, k) is None <==> forall|i: int|
            k <= i < members.len() && field_type(shape.fields(), (#[trigger] members[i]).0)
                is Some ==> is_right(
                field_type(shape.fields(), members[i].0)->0,
                members[i].1,
            ),
    decreases members.len() - k,
{
    if k < members.len() {
        members_are_right(shape, members, k + 1);
        if field_type(shape.fields(), members[k].0) is Some {
            value_is_right(field_type(shape.fields(), members[k].0)->0, members[k].1);
        }
    }
}

proof fn none_is_missing(
    fields: Seq<(Seq<char>, FieldType)>,
    members: Seq<(Seq<char>, JsonView)>,
    k: int,
)
    requires
        0 <= k <= fields.len(),
    ensures
        missing_problem(fields, members, k) is None <==> forall|j: int|
            k <= j < fields.len() ==> (#[trigger] fields[j]).1 == FieldType::OptionalText
                || json::find_member(members, fields[j].0) is Some,
    decreases fields.len() - k,
{
    if k < fields.len() {
        none_is_missing(fields, members, k + 1);
    }
}

/// Nothing is wrong with an object exactly if every field is there that must be, and every
/// member that is one of the fields is right for it. Other members do not matter, nor does
/// the order of the members.
pub proof fn object_is_right_exactly_if(shape: Shape, members: Seq<(Seq<char>, JsonView)>)
    ensures
        struct_problem(shape, JsonView::Object(members)) is None <==> {
            &&& forall|i: int|
                0 <= i < members.len() && field_type(shape.fields(), (#[trigger] members[i]).0)
                    is Some ==> is_right(
                    field_type(shape.fields(), members[i].0)->0,
                    members[i].1,
                )
            &&& forall|j: int|
                0 <= j < shape.fields().len() ==> (#[trigger] shape.fields()[j]).1
                    == FieldType::OptionalText || json::find_member(members, shape.fields()[j].0)
                    is Some
        },
{
    members_are_right(shape, members, 0);
    none_is_missing(shape.fields(), members, 0);
}

/// The fields of what is read, by their names: quantities are numbers, who supplied goods and
/// which order they are for may be left out, and all else is text that must be there.
pub proof fn fields_have_their_types(shape: Shape, j: int)
    requires
        0 <= j < shape.fields().len(),
    ensures
        ({
            let (name, ty) = shape.fields()[j];
            let is_order = shape == Shape::OrderCreated || shape == Shape::OrderCompleted;
            &&& ty == FieldType::Integer <==> name == "quantity"@ || name == "counted_quantity"@
            &&& ty == FieldType::Items <==> name == "items"@
            &&& ty == FieldType::OptionalText <==> name == "supplier_id"@ || name == "order_id"@
                && !is_order
        }),
{
    reveal_strlit("product_id");
    reveal_strlit("zone_id");
    reveal_strlit("from_zone_id");
    reveal_strlit("to_zone_id");
    reveal_strlit("quantity");
    reveal_strlit("counted_quantity");
    reveal_strlit("items");
    reveal_strlit("supplier_id");
    reveal_strlit("order_id");
    assert("product_id"@.len() == 10 && "zone_id"@.len() == 7 && "from_zone_id"@.len() == 12
        && "to_zone_id"@.len() == 10 && "quantity"@.len() == 8 && "counted_quantity"@.len() == 16
        && "items"@.len() == 5 && "supplier_id"@.len() == 11 && "order_id"@.len() == 8);
    assert("quantity"@[0] == 'q' && "order_id"@[0] == 'o');
}

/// What is wrong with a value is told with what was found and what was expected.
pub proof fn problems_are_told_like_this(value: JsonView, expected: Seq<char>, len: int)
    ensures
        invalid_type(value, expected) == "invalid type: "@ + json::described(value)
            + ", expected "@ + expected,
        invalid_value(value, expected) == "invalid value: "@ + json::described(value)
            + ", expected "@ + expected,
        invalid_length(len, expected) == "invalid length "@ + text::decimal_text(len)
            + ", expected "@ + expected,
        missing_field(expected) == "missing field `"@ + expected + "`"@,
        value_problem(FieldType::Text, value) is Some ==> value_problem(FieldType::Text, value)
            == Some(invalid_type(value, "a string"@)),
        value_problem(FieldType::OptionalText, value) is Some ==> value_problem(
            FieldType::OptionalText,
            value,
        ) == Some(invalid_type(value, "a string"@)),
        value_problem(FieldType::Integer, value) is Some ==> value_problem(
            FieldType::Integer,
            value,
        ) == Some(
            if value is Integer {
                invalid_value(value, "i64"@)
            } else {
                invalid_type(value, "i64"@)
            },
        ),
        value_problem(FieldType::Items, value) is Some && !(value is Array) ==> value_problem(
            FieldType::Items,
            value,
        ) == Some(invalid_type(value, "a sequence"@)),
{
}

/// The first member that is wrong is what is wrong with an object, before any that is
/// missing; the first field that is missing comes next.
pub proof fn first_problem_is_told(
    shape: Shape,
    members: Seq<(Seq<char>, JsonView)>,
    from: int,
    k: int,
)
    requires
        0 <= from <= k < members.len(),
        field_type(shape.fields(), members[k].0) is Some,
        value_problem(field_type(shape.fields(), members[k].0)->0, members[k].1) is Some,
        forall|i: int|
            from <= i < k && field_type(shape.fields(), (#[trigger] members[i]).0) is Some
                ==> is_right(field_type(shape.fields(), members[i].0)->0, members[i].1),
    ensures
        members_problem(shape, members, from) == value_problem(
            field_type(shape.fields(), members[k].0)->0,
            members[k].1,
        ),
        from == 0 ==> struct_problem(shape, JsonView::Object(members)) == value_problem(
            field_type(shape.fields(), members[k].0)->0,
            members[k].1,
        ),
    decreases k - from,
{
    if from < k {
        if field_type(shape.fields(), members[from].0) is Some {
            value_is_right(field_type(shape.fields(), members[from].0)->0, members[from].1);
        }
        first_problem_is_told(shape, members, from + 1, k);
    }
}

proof fn elements_are_right(shape: Shape, elements: Seq<JsonView>, k: int)
    requires
        0 <= k <= shape.fields().len(),
    ensures
        elements_problem(shape, elements, k) is None <==> (k < shape.fields().len()
            ==> elements.len() >= shape.fields().len()) && elements.len() <= shape.fields().len()
            && forall|j: int|
            k <= j < shape.fields().len() ==> is_right(
                (#[trigger] shape.fields()[j]).1,
                elements[j],
            ),
    decreases shape.fields().len() - k,
{
    if k < shape.fields().len() {
        elements_are_right(shape, elements, k + 1);
        value_is_right(shape.fields()[k].1, elements[k]);
        if k + 1 == shape.fields().len() && k >= elements.len() {
            assert(elements_problem(shape, elements, k) is Some);
        }
    }
}

/// Nothing is wrong with an array exactly if it has one element for each field, right for it,
/// in order; and a field's value is then the element in its place. A value that is neither an
/// array nor an object is never right.
pub proof fn array_is_right_exactly_if(shape: Shape, elements: Seq<JsonView>, value: JsonView)
    ensures
        struct_problem(shape, JsonView::Array(elements)) is None <==> elements.len()
            == shape.fields().len() && forall|j: int|
            0 <= j < shape.fields().len() ==> is_right(
                (#[trigger] shape.fields()[j]).1,
                elements[j],
            ),
        forall|j: int|
            0 <= j < elements.len() ==> #[trigger] field_value(
                shape,
                JsonView::Array(elements),
                j,
            ) == elements[j],
        !(value is Array) && !(value is Object) ==> struct_problem(shape, value) == Some(
            invalid_type(value, "struct "@ + shape.struct_name()),
        ),
{
    elements_are_right(shape, elements, 0);
    assert(shape.fields().len() > 0);
}

/// Where all members are right, the first field that must be there and is not is what is
/// wrong with an object.
pub proof fn first_missing_field_is_told(
    fields: Seq<(Seq<char>, FieldType)>,
    members: Seq<(Seq<char>, JsonView)>,
    from: int,
    k: int,
)
    requires
        0 <= from <= k < fields.len(),
        fields[k].1 != FieldType::OptionalText,
        json::find_member(members, fields[k].0) is None,
        forall|j: int|
            from <= j < k ==> (#[trigger] fields[j]).1 == FieldType::OptionalText
                || json::find_member(members, fields[j].0) is Some,
    ensures
        missing_problem(fields, members, from) == Some("missing field `"@ + fields[k].0 + "`"@),
    decreases k - from,
{
    if from < k {
        assert(fields[from].1 == FieldType::OptionalText || json::find_member(
            members,
            fields[from].0,
        ) is Some);
        first_missing_field_is_told(fields, members, from + 1, k);
    }
}

} // verus!

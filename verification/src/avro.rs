//! Avro schemas and values, as far as the service looks into them.
use crate::text;
use crate::text::same_text;
use apache_avro::types::Value;
use apache_avro::Schema;
use vstd::prelude::*;
use vstd::utf8::encode_utf8;

verus! {

/// An Avro value.
#[derive(Debug)]
pub enum AvroValue {
    Null,
    Int(i32),
    Long(i64),
    String(String),
    Union(u32, Box<AvroValue>),
    Record(Vec<(String, AvroValue)>),
    /// A value of another type.
    Other,
}

/// What an [`AvroValue`] holds.
pub enum AvroView {
    Null,
    Int(int),
    Long(int),
    String(Seq<char>),
    Union(int, Box<AvroView>),
    Record(Seq<(Seq<char>, AvroView)>),
    Other,
}

impl AvroValue {
    pub open spec fn view(&self) -> AvroView
        decreases self,
    {
        match self {
            AvroValue::Null => AvroView::Null,
            AvroValue::Int(n) => AvroView::Int(*n as int),
            AvroValue::Long(n) => AvroView::Long(*n as int),
            AvroValue::String(s) => AvroView::String(s@),
            AvroValue::Union(i, v) => AvroView::Union(*i as int, Box::new(v.view())),
            AvroValue::Record(fields) => AvroView::Record(
                Seq::new(
                    fields@.len(),
                    |i: int|
                        if 0 <= i < fields@.len() {
                            (fields@[i].0@, fields@[i].1.view())
                        } else {
                            (Seq::empty(), AvroView::Null)
                        },
                ),
            ),
            AvroValue::Other => AvroView::Other,
        }
    }
}

impl AvroView {
    /// Whether there is no value in it of a type that the service does not look into.
    pub open spec fn is_known(self) -> bool
        decreases self,
    {
        match self {
            AvroView::Union(_, v) => v.is_known(),
            AvroView::Record(fields) => forall|i: int|
                0 <= i < fields.len() ==> (#[trigger] fields[i]).1.is_known(),
            AvroView::Other => false,
            _ => true,
        }
    }

    /// Whether none of its texts is longer than the longest that is read.
    pub open spec fn is_readable(self) -> bool
        decreases self,
    {
        match self {
            AvroView::String(s) => encode_utf8(s).len() <= LONGEST_TEXT,
            AvroView::Union(_, v) => v.is_readable(),
            AvroView::Record(fields) => forall|i: int|
                0 <= i < fields.len() ==> (#[trigger] fields[i]).1.is_readable(),
            _ => true,
        }
    }

    /// Whether it has no parts.
    pub open spec fn is_leaf(self) -> bool {
        !(self is Union) && !(self is Record)
    }

    /// Whether it is a record of values without parts, and of choices of such values.
    pub open spec fn is_shallow(self) -> bool {
        &&& self is Record
        &&& forall|i: int|
            0 <= i < self->Record_0.len() ==> {
                ||| (#[trigger] self->Record_0[i]).1.is_leaf()
                ||| self->Record_0[i].1 is Union && self->Record_0[i].1->Union_1.is_leaf()
            }
    }
}

/// A field of an Avro record: its name, its value, and how the value prints.
#[derive(Debug)]
pub struct AvroField {
    pub name: String,
    pub value: AvroValue,
    pub printed: String,
}

/// An Avro schema, as far as the service looks into it.
#[derive(Debug)]
pub enum SchemaTree {
    Null,
    Int,
    Long,
    String,
    /// As many bytes as that.
    Fixed(usize),
    /// A decimal number, and what it is written in.
    Decimal(Box<SchemaTree>),
    Array(Box<SchemaTree>),
    Keyed(Box<SchemaTree>),
    Union(Vec<SchemaTree>),
    /// A record: of each field its name, its other names and its schema; and a table that
    /// says for a name which of the fields it means.
    Record {
        namespace: Option<String>,
        name: String,
        fields: Vec<(String, Option<Vec<String>>, SchemaTree)>,
        lookup: Vec<(String, usize)>,
    },
    /// A type that the schema defines elsewhere.
    Reference { namespace: Option<String>, name: String },
    Other,
}

/// The name of a type.
pub struct TypeName {
    pub namespace: Option<Seq<char>>,
    pub name: Seq<char>,
}

/// What a [`SchemaTree`] holds.
pub enum SchemaView {
    Null,
    Int,
    Long,
    String,
    Fixed(usize),
    Decimal(Box<SchemaView>),
    Array(Box<SchemaView>),
    Keyed(Box<SchemaView>),
    Union(Seq<SchemaView>),
    Record {
        name: TypeName,
        fields: Seq<(Seq<char>, Seq<Seq<char>>, SchemaView)>,
        lookup: Seq<(Seq<char>, usize)>,
    },
    Reference(TypeName),
    Other,
}

impl TypeName {
    /// The name within a namespace, where it says none itself.
    pub open spec fn within(self, enclosing: Option<Seq<char>>) -> TypeName {
        TypeName {
            namespace: match self.namespace {
                Some(n) => Some(n),
                None => match enclosing {
                    Some(n) if n.len() > 0 => Some(n),
                    _ => None,
                },
            },
            name: self.name,
        }
    }
}

/// The other names of a field.
pub open spec fn others(aliases: Option<Vec<String>>) -> Seq<Seq<char>> {
    match aliases {
        Some(names) => text::texts(names@),
        None => Seq::empty(),
    }
}

impl SchemaTree {
    pub open spec fn view(&self) -> SchemaView
        decreases self,
    {
        match self {
            SchemaTree::Null => SchemaView::Null,
            SchemaTree::Int => SchemaView::Int,
            SchemaTree::Long => SchemaView::Long,
            SchemaTree::String => SchemaView::String,
            SchemaTree::Fixed(size) => SchemaView::Fixed(*size),
            SchemaTree::Decimal(inner) => SchemaView::Decimal(Box::new(inner.view())),
            SchemaTree::Array(items) => SchemaView::Array(Box::new(items.view())),
            SchemaTree::Keyed(values) => SchemaView::Keyed(Box::new(values.view())),
            SchemaTree::Union(variants) => SchemaView::Union(
                Seq::new(
                    variants@.len(),
                    |i: int|
                        if 0 <= i < variants@.len() {
                            variants@[i].view()
                        } else {
                            SchemaView::Null
                        },
                ),
            ),
            SchemaTree::Record { namespace, name, fields, lookup } => SchemaView::Record {
                name: TypeName { namespace: text::optional(*namespace), name: name@ },
                fields: Seq::new(
                    fields@.len(),
                    |i: int|
                        if 0 <= i < fields@.len() {
                            (fields@[i].0@, others(fields@[i].1), fields@[i].2.view())
                        } else {
                            (Seq::empty(), Seq::empty(), SchemaView::Null)
                        },
                ),
                lookup: Seq::new(lookup@.len(), |i: int| (lookup@[i].0@, lookup@[i].1)),
            },
            SchemaTree::Reference { namespace, name } => SchemaView::Reference(
                TypeName { namespace: text::optional(*namespace), name: name@ },
            ),
            SchemaTree::Other => SchemaView::Other,
        }
    }
}

/// Which field a name means.
pub open spec fn meant_by(lookup: Seq<(Seq<char>, usize)>, name: Seq<char>) -> Option<int>
    decreases lookup.len(),
{
    if lookup.len() == 0 {
        None
    } else if lookup.last().0 == name {
        Some(lookup.last().1 as int)
    } else {
        meant_by(lookup.drop_last(), name)
    }
}

/// Whether a name means a field, if it means any.
pub open spec fn means(lookup: Seq<(Seq<char>, usize)>, name: Seq<char>, i: int) -> bool {
    meant_by(lookup, name) is None || meant_by(lookup, name) == Some(i)
}

/// Whether those names all mean a field, if they mean any.
pub open spec fn each_means(
    lookup: Seq<(Seq<char>, usize)>,
    names: Seq<Seq<char>>,
    i: int,
) -> bool {
    forall|j: int| 0 <= j < names.len() ==> means(lookup, #[trigger] names[j], i)
}

/// Whether the names of a field mean that field, if they mean any.
pub open spec fn names_mean(
    lookup: Seq<(Seq<char>, usize)>,
    field: (Seq<char>, Seq<Seq<char>>, SchemaView),
    i: int,
) -> bool {
    means(lookup, field.0, i) && each_means(lookup, field.1, i)
}

/// Whether the table of a record goes with its fields: every name means a field, and those
/// of a field mean no other.
pub open spec fn table_agrees(
    fields: Seq<(Seq<char>, Seq<Seq<char>>, SchemaView)>,
    lookup: Seq<(Seq<char>, usize)>,
) -> bool {
    &&& forall|k: int| 0 <= k < lookup.len() ==> (#[trigger] lookup[k]).1 < fields.len()
    &&& forall|i: int| 0 <= i < fields.len() ==> names_mean(lookup, #[trigger] fields[i], i)
}

/// How long a decimal can be, in bytes, whose digits are counted.
pub const LONGEST_DECIMAL: usize = 268_435_455;

impl SchemaView {
    /// Whether a record refers to itself, or to one of those that it stands in, or whether
    /// there are more bytes than can be held.
    pub open spec fn is_endless(
        self,
        outer: Seq<TypeName>,
        enclosing: Option<Seq<char>>,
    ) -> bool
        decreases self,
    {
        match self {
            SchemaView::Fixed(size) => size > isize::MAX,
            SchemaView::Decimal(inner) => inner.is_endless(outer, enclosing),
            SchemaView::Array(items) => items.is_endless(outer, enclosing),
            SchemaView::Keyed(values) => values.is_endless(outer, enclosing),
            SchemaView::Union(variants) => exists|i: int|
                0 <= i < variants.len() && (#[trigger] variants[i]).is_endless(outer, enclosing),
            SchemaView::Record { name, fields, .. } => exists|i: int|
                0 <= i < fields.len() && (#[trigger] fields[i]).2.is_endless(
                    outer.push(name.within(enclosing)),
                    name.within(enclosing).namespace,
                ),
            SchemaView::Reference(name) => outer.contains(name.within(enclosing)),
            _ => false,
        }
    }

    /// Whether it is a decimal in more bytes than its digits are counted for.
    pub open spec fn is_long_decimal(self) -> bool {
        self is Decimal && *self->Decimal_0 is Fixed && self->Decimal_0->Fixed_0 > LONGEST_DECIMAL
    }

    /// Whether a value without parts can be held against each of the types of a choice.
    pub open spec fn is_countable(self) -> bool {
        self is Union ==> forall|i: int|
            0 <= i < self->Union_0.len() ==> !(#[trigger] self->Union_0[i]).is_long_decimal()
                && !(self->Union_0[i] is Union)
    }

    /// Whether a record can be held against the schema: its table goes with its fields, and
    /// it does not have to be found among records.
    pub open spec fn is_writable(self) -> bool {
        match self {
            SchemaView::Record { fields, lookup, .. } => {
                &&& table_agrees(fields, lookup)
                &&& forall|i: int|
                    0 <= i < fields.len() ==> (#[trigger] fields[i]).2.is_countable()
            },
            SchemaView::Reference(_) => false,
            SchemaView::Union(variants) => {
                &&& self.is_countable()
                &&& forall|i: int|
                    0 <= i < variants.len() ==> !((#[trigger] variants[i]) is Record)
                        && !(variants[i] is Reference)
            },
            _ => true,
        }
    }

    /// Whether a value can be held against the schema, and written if it is of it: the
    /// tables of the records go with their fields, and no record has to be found among
    /// others.
    pub open spec fn can_write(self, value: AvroView) -> bool
        decreases value,
    {
        match value {
            AvroView::Record(values) => match self {
                SchemaView::Record { fields, lookup, .. } => {
                    &&& table_agrees(fields, lookup)
                    &&& forall|k: int|
                        0 <= k < values.len() && meant_by(
                            lookup,
                            (#[trigger] values[k]).0,
                        ) is Some ==> fields[meant_by(lookup, values[k].0)->0].2.can_write(
                            values[k].1,
                        )
                },
                _ => self.is_writable(),
            },
            AvroView::Union(i, v) => match self {
                SchemaView::Union(variants) => 0 <= i < variants.len() ==> variants[i].can_write(
                    *v,
                ),
                _ => true,
            },
            _ => self.is_countable(),
        }
    }

    /// Whether it is a type without parts.
    pub open spec fn is_simple(self) -> bool {
        self is Null || self is Int || self is Long || self is String
    }

    /// Whether a value is one of a type without parts.
    pub open spec fn takes_simple(self, value: AvroView) -> bool {
        match self {
            SchemaView::Null => value is Null,
            SchemaView::Int => value is Int,
            SchemaView::Long => value is Long,
            SchemaView::String => value is String,
            _ => false,
        }
    }

    /// Whether a value is one of a type without parts, or one of a choice of such types,
    /// with its place among them.
    pub open spec fn takes_field(self, value: AvroView) -> bool {
        match self {
            SchemaView::Union(variants) => match value {
                AvroView::Union(i, v) => {
                    &&& 0 <= i < variants.len()
                    &&& variants[i].takes_simple(*v)
                    &&& forall|j: int|
                        0 <= j < variants.len() ==> (#[trigger] variants[j]).is_simple()
                },
                _ => false,
            },
            _ => self.takes_simple(value),
        }
    }

    /// Whether a value is a record with exactly the fields of the schema, in its order,
    /// each under a name that means it.
    pub open spec fn takes(self, value: AvroView) -> bool {
        match (self, value) {
            (SchemaView::Record { fields, lookup, .. }, AvroView::Record(values)) => {
                &&& values.len() == fields.len()
                &&& forall|i: int|
                    0 <= i < fields.len() ==> {
                        &&& values[i].0 == (#[trigger] fields[i]).0
                        &&& meant_by(lookup, fields[i].0) == Some(i)
                        &&& fields[i].2.takes_field(values[i].1)
                    }
            },
            _ => false,
        }
    }
}

/// The name of a type, as it is written.
#[derive(Debug)]
struct OwnedName {
    namespace: Option<String>,
    name: String,
}

impl OwnedName {
    spec fn view(&self) -> TypeName {
        TypeName { namespace: text::optional(self.namespace), name: self.name@ }
    }
}

fn copy_of(s: &Option<String>) -> (r: Option<String>)
    ensures
        text::optional(r) == text::optional(*s),
{
    match s {
        Some(t) => Some(t.clone()),
        None => None,
    }
}

/// The name within a namespace, where it says none itself.
fn name_within(namespace: &Option<String>, name: &String, enclosing: &Option<String>) -> (r:
    OwnedName)
    ensures
        r@ == (TypeName { namespace: text::optional(*namespace), name: name@ }).within(
            text::optional(*enclosing),
        ),
{
    let found = match namespace {
        Some(n) => Some(n.clone()),
        None => match enclosing {
            Some(n) => {
                if n.unicode_len() > 0 {
                    Some(n.clone())
                } else {
                    None
                }
            },
            None => None,
        },
    };
    OwnedName { namespace: found, name: name.clone() }
}

fn same_optional(a: &Option<String>, b: &Option<String>) -> (r: bool)
    ensures
        r == (text::optional(*a) == text::optional(*b)),
{
    match (a, b) {
        (Some(s), Some(t)) => same_text(s.as_str(), t.as_str()),
        (None, None) => true,
        _ => false,
    }
}

spec fn names_in(names: Seq<OwnedName>) -> Seq<TypeName> {
    Seq::new(names.len(), |i: int| names[i]@)
}

impl SchemaTree {
    /// Whether a record refers to itself, or to one of those that it stands in, or whether
    /// there are more bytes than can be held.
    fn endless(&self, outer: &mut Vec<OwnedName>, enclosing: &Option<String>) -> (r: bool)
        ensures
            r == self@.is_endless(names_in(old(outer)@), text::optional(*enclosing)),
            final(outer)@ == old(outer)@,
        decreases self,
    {
        match self {
            SchemaTree::Fixed(size) => *size > isize::MAX as usize,
            SchemaTree::Decimal(inner) => inner.endless(outer, enclosing),
            SchemaTree::Array(items) => items.endless(outer, enclosing),
            SchemaTree::Keyed(values) => values.endless(outer, enclosing),
            SchemaTree::Union(variants) => {
                let ghost all = self@->Union_0;
                let mut i: usize = 0;
                while i < variants.len()
                    invariant
                        i <= variants.len(),
                        self == SchemaTree::Union(*variants),
                        all == self@->Union_0,
                        outer@ == old(outer)@,
                        forall|j: int|
                            0 <= j < i ==> !(#[trigger] all[j]).is_endless(
                                names_in(outer@),
                                text::optional(*enclosing),
                            ),
                    decreases variants.len() - i,
                {
                    assert(decreases_to!(self => variants@[i as int]));
                    assert(all[i as int] == variants@[i as int]@);
                    if variants[i].endless(outer, enclosing) {
                        return true;
                    }
                    i += 1;
                }
                false
            },
            SchemaTree::Record { namespace, name, fields, lookup } => {
                let ghost all = self@->Record_fields;
                let ghost before = outer@;
                let full = name_within(namespace, name, enclosing);
                let inside = copy_of(&full.namespace);
                let ghost added = full@;
                outer.push(full);
                assert(outer@.drop_last() =~= before);
                let ghost inner = outer@;
                assert(names_in(inner) =~= names_in(before).push(added));
                let mut i: usize = 0;
                let mut found = false;
                while i < fields.len() && !found
                    invariant
                        i <= fields.len(),
                        *self == (SchemaTree::Record {
                            namespace: *namespace,
                            name: *name,
                            fields: *fields,
                            lookup: *lookup,
                        }),
                        all == self@->Record_fields,
                        outer@ == inner,
                        text::optional(inside) == added.namespace,
                        forall|j: int|
                            0 <= j < i && !found ==> !(#[trigger] all[j]).2.is_endless(
                                names_in(inner),
                                added.namespace,
                            ),
                        found ==> exists|j: int|
                            0 <= j < all.len() && (#[trigger] all[j]).2.is_endless(
                                names_in(inner),
                                added.namespace,
                            ),
                    decreases fields.len() - i,
                {
                    assert(decreases_to!(self => fields@[i as int].2));
                    assert(all[i as int].2 == fields@[i as int].2@);
                    found = fields[i].2.endless(outer, &inside);
                    i += 1;
                }
                let popped = outer.pop();
                found
            },
            SchemaTree::Reference { namespace, name } => {
                let ghost own = self@->Reference_0;
                let full = name_within(namespace, name, enclosing);
                let mut i: usize = 0;
                while i < outer.len()
                    invariant
                        i <= outer.len(),
                        outer@ == old(outer)@,
                        self@ == SchemaView::Reference(own),
                        full@ == own.within(text::optional(*enclosing)),
                        forall|j: int| 0 <= j < i ==> (#[trigger] outer@[j])@ != full@,
                    decreases outer.len() - i,
                {
                    if same_text(outer[i].name.as_str(), full.name.as_str()) && same_optional(
                        &outer[i].namespace,
                        &full.namespace,
                    ) {
                        assert(names_in(outer@)[i as int] == full@);
                        return true;
                    }
                    i += 1;
                }
                assert forall|j: int| 0 <= j < outer@.len() implies names_in(outer@)[j] != full@ by {
                    assert(outer@[j]@ != full@);
                }
                false
            },
            _ => false,
        }
    }

    fn long_decimal(&self) -> (r: bool)
        ensures
            r == self@.is_long_decimal(),
    {
        proof {
            reveal_with_fuel(SchemaTree::view, 2);
        }
        match self {
            SchemaTree::Decimal(inner) => match &**inner {
                SchemaTree::Fixed(size) => *size > LONGEST_DECIMAL,
                _ => false,
            },
            _ => false,
        }
    }

    fn countable(&self) -> (r: bool)
        ensures
            r == self@.is_countable(),
    {
        match self {
            SchemaTree::Union(variants) => {
                let ghost all = self@->Union_0;
                let mut i: usize = 0;
                while i < variants.len()
                    invariant
                        i <= variants.len(),
                        self == SchemaTree::Union(*variants),
                        all == self@->Union_0,
                        forall|j: int|
                            0 <= j < i ==> !(#[trigger] all[j]).is_long_decimal() && !(all[j]
                                is Union),
                    decreases variants.len() - i,
                {
                    assert(all[i as int] == variants@[i as int]@);
                    if variants[i].long_decimal() || matches!(variants[i], SchemaTree::Union(_)) {
                        return false;
                    }
                    i += 1;
                }
                true
            },
            _ => true,
        }
    }

    /// Whether a record can be held against the schema.
    fn writable(&self) -> (r: bool)
        ensures
            r == self@.is_writable(),
    {
        match self {
            SchemaTree::Record { namespace, name, fields, lookup } => {
                let ghost all = self@->Record_fields;
                let ghost table = self@->Record_lookup;
                if !in_range(lookup, fields.len()) {
                    return false;
                }
                let mut i: usize = 0;
                while i < fields.len()
                    invariant
                        i <= fields.len(),
                        *self == (SchemaTree::Record {
                            namespace: *namespace,
                            name: *name,
                            fields: *fields,
                            lookup: *lookup,
                        }),
                        all == self@->Record_fields,
                        table == self@->Record_lookup,
                        table == entries(lookup@),
                        forall|k: int|
                            0 <= k < table.len() ==> (#[trigger] table[k]).1 < all.len(),
                        forall|j: int|
                            0 <= j < i ==> (#[trigger] all[j]).2.is_countable() && names_mean(
                                table,
                                all[j],
                                j,
                            ),
                    decreases fields.len() - i,
                {
                    let field = &fields[i];
                    assert(all[i as int] == (field.0@, others(field.1), field.2@));
                    if !field.2.countable() || !check_means(lookup, field.0.as_str(), i)
                        || !all_mean(lookup, &field.1, i) {
                        return false;
                    }
                    i += 1;
                }
                true
            },
            SchemaTree::Reference { .. } => false,
            SchemaTree::Union(variants) => {
                let ghost all = self@->Union_0;
                let mut i: usize = 0;
                while i < variants.len()
                    invariant
                        i <= variants.len(),
                        self == SchemaTree::Union(*variants),
                        all == self@->Union_0,
                        forall|j: int|
                            0 <= j < i ==> !((#[trigger] all[j]) is Record) && !(all[j]
                                is Reference),
                    decreases variants.len() - i,
                {
                    assert(all[i as int] == variants@[i as int]@);
                    if matches!(
                        variants[i],
                        SchemaTree::Record { .. } | SchemaTree::Reference { .. }
                    ) {
                        return false;
                    }
                    i += 1;
                }
                self.countable()
            },
            _ => true,
        }
    }
}

/// What the entries of a table hold.
spec fn entries(lookup: Seq<(String, usize)>) -> Seq<(Seq<char>, usize)> {
    Seq::new(lookup.len(), |i: int| (lookup[i].0@, lookup[i].1))
}

fn in_range(lookup: &Vec<(String, usize)>, count: usize) -> (r: bool)
    ensures
        r == forall|k: int|
            0 <= k < entries(lookup@).len() ==> (#[trigger] entries(lookup@)[k]).1 < count,
{
    let mut k: usize = 0;
    while k < lookup.len()
        invariant
            k <= lookup.len(),
            forall|j: int| 0 <= j < k ==> (#[trigger] entries(lookup@)[j]).1 < count,
        decreases lookup.len() - k,
    {
        assert(entries(lookup@)[k as int].1 == lookup@[k as int].1);
        if lookup[k].1 >= count {
            return false;
        }
        k += 1;
    }
    true
}

fn check_means(lookup: &Vec<(String, usize)>, name: &str, i: usize) -> (r: bool)
    ensures
        r == means(entries(lookup@), name@, i as int),
{
    let ghost all = entries(lookup@);
    let mut k: usize = lookup.len();
    assert(all.take(k as int) =~= all);
    while k > 0
        invariant
            k <= lookup.len(),
            all == entries(lookup@),
            meant_by(all, name@) == meant_by(all.take(k as int), name@),
        decreases k,
    {
        assert(all.take(k as int).last() == (lookup@[k - 1].0@, lookup@[k - 1].1));
        assert(all.take(k as int).drop_last() =~= all.take(k - 1));
        if same_text(lookup[k - 1].0.as_str(), name) {
            return lookup[k - 1].1 == i;
        }
        k -= 1;
    }
    true
}

fn all_mean(lookup: &Vec<(String, usize)>, names: &Option<Vec<String>>, i: usize) -> (r: bool)
    ensures
        r == each_means(entries(lookup@), others(*names), i as int),
{
    match names {
        None => true,
        Some(list) => {
            let mut j: usize = 0;
            while j < list.len()
                invariant
                    j <= list.len(),
                    *names == Some(*list),
                    forall|k: int|
                        0 <= k < j ==> means(
                            entries(lookup@),
                            #[trigger] others(*names)[k],
                            i as int,
                        ),
                decreases list.len() - j,
            {
                assert(others(*names)[j as int] == list@[j as int]@);
                if !check_means(lookup, list[j].as_str(), i) {
                    return false;
                }
                j += 1;
            }
            true
        },
    }
}

/// A name that means a field means one that the table has.
proof fn meant_is_listed(lookup: Seq<(Seq<char>, usize)>, name: Seq<char>)
    ensures
        meant_by(lookup, name) matches Some(i) ==> exists|k: int|
            0 <= k < lookup.len() && (#[trigger] lookup[k]).1 == i,
    decreases lookup.len(),
{
    if lookup.len() > 0 {
        if lookup.last().0 == name {
            assert(lookup[lookup.len() - 1].1 == lookup.last().1);
        } else {
            meant_is_listed(lookup.drop_last(), name);
            if meant_by(lookup, name) is Some {
                let i = meant_by(lookup, name)->0;
                let k = choose|k: int|
                    0 <= k < lookup.len() - 1 && (#[trigger] lookup.drop_last()[k]).1 == i;
                assert(lookup[k] == lookup.drop_last()[k]);
            }
        }
    }
}

/// A record of values without parts, and of choices of such values, can be written by any
/// schema that a record can be held against.
pub proof fn shallow_records_can_be_written(schema: SchemaView, record: AvroView)
    requires
        schema.is_writable(),
        record.is_shallow(),
    ensures
        schema.can_write(record),
{
    let values = record->Record_0;
    match schema {
        SchemaView::Record { fields, lookup, .. } => {
            assert forall|k: int|
                0 <= k < values.len() && meant_by(lookup, (#[trigger] values[k]).0)
                    is Some implies fields[meant_by(lookup, values[k].0)->0].2.can_write(
                values[k].1,
            ) by {
                meant_is_listed(lookup, values[k].0);
                let i = meant_by(lookup, values[k].0)->0;
                let entry = choose|e: int|
                    0 <= e < lookup.len() && (#[trigger] lookup[e]).1 == i;
                assert(lookup[entry].1 < fields.len());
                let field = fields[i].2;
                assert(field.is_countable());
                match values[k].1 {
                    AvroView::Union(n, v) => {
                        if field is Union && 0 <= n < field->Union_0.len() {
                            let variant = field->Union_0[n];
                            assert(!(variant is Union));
                            assert(variant.can_write(*v));
                        }
                    },
                    _ => {},
                }
            }
        },
        _ => {},
    }
}

/// `apache_avro::Schema`, carried through as it is.
#[verifier::external_type_specification]
#[verifier::external_body]
pub struct ExSchema(apache_avro::Schema);

/// What a schema consists of.
pub uninterp spec fn avro_tree(schema: apache_avro::Schema) -> SchemaView;

/// An Avro schema, taken apart once.
enum Node<'a> {
    Null,
    Int,
    Long,
    String,
    Fixed(usize),
    Decimal(&'a Schema),
    Array(&'a Schema),
    Keyed(&'a Schema),
    Union(&'a [Schema]),
    Record,
    Reference(&'a Option<String>, &'a String),
    Other,
}

/// The parts of a record's schema.
struct RecordParts<'a> {
    namespace: &'a Option<String>,
    name: &'a String,
    fields: Vec<(&'a String, &'a Option<Vec<String>>, &'a Schema)>,
    lookup: Vec<(&'a String, &'a usize)>,
}

/// The name of a type.
spec fn named_type(namespace: Option<String>, name: String) -> TypeName {
    TypeName { namespace: text::optional(namespace), name: name@ }
}

impl<'a> Node<'a> {
    /// Whether those are the parts of a schema.
    spec fn makes_up(self, view: SchemaView) -> bool {
        match self {
            Node::Null => view is Null,
            Node::Int => view is Int,
            Node::Long => view is Long,
            Node::String => view is String,
            Node::Fixed(size) => view == SchemaView::Fixed(size),
            Node::Decimal(inner) => view is Decimal && *view->Decimal_0 == avro_tree(*inner),
            Node::Array(items) => view is Array && *view->Array_0 == avro_tree(*items),
            Node::Keyed(values) => view is Keyed && *view->Keyed_0 == avro_tree(*values),
            Node::Union(variants) => {
                &&& view is Union
                &&& view->Union_0.len() == variants@.len()
                &&& forall|i: int|
                    0 <= i < variants@.len() ==> #[trigger] view->Union_0[i] == avro_tree(
                        variants@[i],
                    )
            },
            Node::Record => view is Record,
            Node::Reference(namespace, name) => view == SchemaView::Reference(
                named_type(*namespace, *name),
            ),
            Node::Other => view is Other,
        }
    }
}

impl<'a> RecordParts<'a> {
    /// Whether those are the parts of a schema.
    spec fn makes_up(self, view: SchemaView) -> bool {
        &&& view is Record
        &&& view->Record_name == named_type(*self.namespace, *self.name)
        &&& view->Record_fields.len() == self.fields@.len()
        &&& forall|i: int|
            0 <= i < self.fields@.len() ==> #[trigger] view->Record_fields[i] == (
                self.fields@[i].0@,
                others(*self.fields@[i].1),
                avro_tree(*self.fields@[i].2),
            )
        &&& view->Record_lookup.len() == self.lookup@.len()
        &&& forall|i: int|
            0 <= i < self.lookup@.len() ==> #[trigger] view->Record_lookup[i] == (
                self.lookup@[i].0@,
                *self.lookup@[i].1,
            )
    }
}

/// Takes an `apache_avro::Schema` apart that is a record, field by field, with its table of
/// names.
#[verifier::external_body]
fn take_record<'a>(schema: &'a Schema) -> (r: Option<RecordParts<'a>>)
    ensures
        match r {
            Some(parts) => parts.makes_up(avro_tree(*schema)),
            None => !(avro_tree(*schema) is Record),
        },
{
    match schema {
        Schema::Record(r) => Some(RecordParts {
            namespace: &r.name.namespace,
            name: &r.name.name,
            fields: r.fields.iter().map(|f| (&f.name, &f.aliases, &f.schema)).collect(),
            lookup: r.lookup.iter().collect(),
        }),
        _ => None,
    }
}

/// Takes an `apache_avro::Schema` apart, variant by variant; types that the service does
/// not look into are all alike.
#[verifier::external_body]
fn take_apart<'a>(schema: &'a Schema) -> (r: Node<'a>)
    ensures
        r.makes_up(avro_tree(*schema)),
{
    match schema {
        Schema::Null => Node::Null,
        Schema::Int => Node::Int,
        Schema::Long => Node::Long,
        Schema::String => Node::String,
        Schema::Fixed(f) => Node::Fixed(f.size),
        Schema::Decimal(d) => Node::Decimal(&d.inner),
        Schema::Array(a) => Node::Array(&a.items),
        Schema::Map(m) => Node::Keyed(&m.types),
        Schema::Union(u) => Node::Union(u.variants()),
        Schema::Record(_) => Node::Record,
        Schema::Ref { name } => Node::Reference(&name.namespace, &name.name),
        _ => Node::Other,
    }
}

fn copy_names(names: &Option<Vec<String>>) -> (r: Option<Vec<String>>)
    ensures
        others(r) == others(*names),
{
    match names {
        None => None,
        Some(list) => {
            let mut out: Vec<String> = Vec::new();
            let mut i: usize = 0;
            while i < list.len()
                invariant
                    i <= list.len(),
                    out@ == list@.take(i as int),
                decreases list.len() - i,
            {
                out.push(list[i].clone());
                i += 1;
                assert(list@.take(i as int).drop_last() =~= list@.take(i - 1));
            }
            assert(out@ =~= list@);
            Some(out)
        },
    }
}

fn copy_table(lookup: &Vec<(&String, &usize)>) -> (r: Vec<(String, usize)>)
    ensures
        r@.len() == lookup@.len(),
        forall|i: int|
            0 <= i < r@.len() ==> (#[trigger] r@[i]).0@ == lookup@[i].0@ && r@[i].1
                == *lookup@[i].1,
{
    let mut out: Vec<(String, usize)> = Vec::new();
    let mut i: usize = 0;
    while i < lookup.len()
        invariant
            i <= lookup.len(),
            out@.len() == i,
            forall|j: int|
                0 <= j < i ==> (#[trigger] out@[j]).0@ == lookup@[j].0@ && out@[j].1
                    == *lookup@[j].1,
        decreases lookup.len() - i,
    {
        out.push((lookup[i].0.clone(), *lookup[i].1));
        i += 1;
    }
    out
}

/// Reads a schema, part by part.
pub(crate) fn schema_tree(schema: &Schema) -> (r: SchemaTree)
    ensures
        r@ == avro_tree(*schema),
    decreases avro_tree(*schema),
{
    let ghost view = avro_tree(*schema);
    match take_apart(schema) {
        Node::Null => SchemaTree::Null,
        Node::Int => SchemaTree::Int,
        Node::Long => SchemaTree::Long,
        Node::String => SchemaTree::String,
        Node::Fixed(size) => SchemaTree::Fixed(size),
        Node::Decimal(inner) => {
            assert(decreases_to!(view => *view->Decimal_0));
            SchemaTree::Decimal(Box::new(schema_tree(inner)))
        },
        Node::Array(items) => {
            assert(decreases_to!(view => *view->Array_0));
            SchemaTree::Array(Box::new(schema_tree(items)))
        },
        Node::Keyed(values) => {
            assert(decreases_to!(view => *view->Keyed_0));
            SchemaTree::Keyed(Box::new(schema_tree(values)))
        },
        Node::Union(variants) => {
            let ghost all = view->Union_0;
            let mut out: Vec<SchemaTree> = Vec::new();
            let mut i: usize = 0;
            while i < variants.len()
                invariant
                    i <= variants.len(),
                    out@.len() == i,
                    view == avro_tree(*schema),
                    view is Union,
                    all == view->Union_0,
                    all.len() == variants@.len(),
                    forall|j: int|
                        0 <= j < all.len() ==> #[trigger] all[j] == avro_tree(variants@[j]),
                    forall|j: int| 0 <= j < i ==> (#[trigger] out@[j])@ == all[j],
                decreases variants.len() - i,
            {
                assert(decreases_to!(view => view->Union_0[i as int]));
                assert(all[i as int] == avro_tree(variants@[i as int]));
                out.push(schema_tree(&variants[i]));
                i += 1;
            }
            let tree = SchemaTree::Union(out);
            assert(tree@->Union_0 =~= all);
            tree
        },
        Node::Record => match take_record(schema) {
            Some(parts) => {
                let ghost all = view->Record_fields;
                let RecordParts { namespace, name, fields, lookup } = parts;
                let mut out: Vec<(String, Option<Vec<String>>, SchemaTree)> = Vec::new();
                let mut i: usize = 0;
                while i < fields.len()
                    invariant
                        i <= fields.len(),
                        out@.len() == i,
                        view == avro_tree(*schema),
                        view is Record,
                        all == view->Record_fields,
                        all.len() == fields@.len(),
                        forall|j: int|
                            0 <= j < all.len() ==> #[trigger] all[j] == (
                                fields@[j].0@,
                                others(*fields@[j].1),
                                avro_tree(*fields@[j].2),
                            ),
                        forall|j: int|
                            0 <= j < i ==> ((#[trigger] out@[j]).0@, others(out@[j].1), out@[j].2@)
                                == all[j],
                    decreases fields.len() - i,
                {
                    assert(decreases_to!(view => view->Record_fields[i as int].2));
                    assert(all[i as int].2 == avro_tree(*fields@[i as int].2));
                    let part = schema_tree(fields[i].2);
                    out.push((fields[i].0.clone(), copy_names(fields[i].1), part));
                    i += 1;
                }
                let tree = SchemaTree::Record {
                    namespace: copy_of(namespace),
                    name: name.clone(),
                    fields: out,
                    lookup: copy_table(&lookup),
                };
                assert(tree@->Record_fields =~= all);
                assert(tree@->Record_lookup =~= view->Record_lookup);
                tree
            },
            None => SchemaTree::Other,
        },
        Node::Reference(namespace, name) => SchemaTree::Reference {
            namespace: copy_of(namespace),
            name: name.clone(),
        },
        Node::Other => SchemaTree::Other,
    }
}

/// Whether there is a record that refers to itself or to one of those that it stands in,
/// or more bytes than can be held.
pub open spec fn schema_is_endless(schema: Schema) -> bool {
    avro_tree(schema).is_endless(Seq::empty(), None)
}

/// Whether there is a record that refers to itself or to one of those that it stands in,
/// or more bytes than can be held.
pub fn is_endless(schema: &Schema) -> (r: bool)
    ensures
        r == schema_is_endless(*schema),
{
    let tree = schema_tree(schema);
    let mut outer: Vec<OwnedName> = Vec::new();
    let top: Option<String> = None;
    assert(names_in(outer@) =~= Seq::empty());
    assert(text::optional(top) == None::<Seq<char>>);
    tree.endless(&mut outer, &top)
}

/// Whether `apache_avro::schema::ResolvedSchema` finds every type that a schema refers to,
/// and none twice.
pub uninterp spec fn avro_resolves(schema: apache_avro::Schema) -> bool;

/// Tells whether `apache_avro::schema::ResolvedSchema::try_from` takes a schema. When it
/// does is left to [`avro_resolves`].
#[verifier::external_body]
fn names_resolve(schema: &Schema) -> (r: bool)
    ensures
        r == avro_resolves(*schema),
{
    apache_avro::schema::ResolvedSchema::try_from(schema).is_ok()
}

/// Whether records can be held against a schema, be they of it or not.
pub open spec fn schema_is_writable(schema: Schema) -> bool {
    avro_resolves(schema) && avro_tree(schema).is_writable()
}

/// Whether records can be held against a schema, be they of it or not.
pub fn is_writable(schema: &Schema) -> (r: bool)
    ensures
        r == schema_is_writable(*schema),
{
    let tree = schema_tree(schema);
    names_resolve(schema) && tree.writable()
}

/// `apache_avro::types::Value`, carried through as it is.
#[verifier::external_type_specification]
#[verifier::external_body]
pub struct ExAvroValue(apache_avro::types::Value);

/// What a value consists of.
pub uninterp spec fn avro_view(value: apache_avro::types::Value) -> AvroView;

/// The `Debug` text of a value that consists of that.
pub uninterp spec fn avro_debug(value: AvroView) -> Seq<char>;

/// Reads an `apache_avro::types::Value`, variant by variant; values of a type that the
/// service does not look into are all alike.
#[verifier::external_body]
fn read_value(value: &Value) -> (r: AvroValue)
    ensures
        r@ == avro_view(*value),
{
    match value {
        Value::Null => AvroValue::Null,
        Value::Int(n) => AvroValue::Int(*n),
        Value::Long(n) => AvroValue::Long(*n),
        Value::String(s) => AvroValue::String(s.clone()),
        Value::Union(i, v) => AvroValue::Union(*i, Box::new(read_value(v))),
        Value::Record(fields) => AvroValue::Record(
            fields.iter().map(|f| (f.0.clone(), read_value(&f.1))).collect(),
        ),
        _ => AvroValue::Other,
    }
}

/// Whether those are the fields of a record, or none where a value is no record.
pub open spec fn are_fields(fields: Option<Vec<AvroField>>, value: AvroView) -> bool {
    match value {
        AvroView::Record(values) => {
            &&& fields is Some
            &&& fields->0@.len() == values.len()
            &&& forall|i: int|
                0 <= i < values.len() ==> (#[trigger] fields->0@[i]).name@ == values[i].0
                    && fields->0@[i].value@ == values[i].1
        },
        _ => fields is None,
    }
}

/// Whether the fields print as their values do in `Debug`, wherever that follows from what
/// a value consists of.
pub open spec fn print_well(fields: Option<Vec<AvroField>>) -> bool {
    fields matches Some(list) ==> forall|i: int|
        0 <= i < list@.len() && (#[trigger] list@[i]).value@.is_known() ==> list@[i].printed@
            == avro_debug(list@[i].value@)
}

/// Whether those are the names and values of a record, or none where a value is no record.
pub open spec fn are_entries(entries: Option<Vec<(String, Value)>>, value: AvroView) -> bool {
    match value {
        AvroView::Record(values) => {
            &&& entries is Some
            &&& entries->0@.len() == values.len()
            &&& forall|i: int|
                0 <= i < values.len() ==> (#[trigger] entries->0@[i]).0@ == values[i].0
                    && avro_view(entries->0@[i].1) == values[i].1
        },
        _ => entries is None,
    }
}

/// Takes the names and values out of an `apache_avro::types::Value` that is a record.
#[verifier::external_body]
fn take_entries(value: Value) -> (r: Option<Vec<(String, Value)>>)
    ensures
        are_entries(r, avro_view(value)),
{
    match value {
        Value::Record(fields) => Some(fields),
        _ => None,
    }
}

/// Prints an `apache_avro::types::Value` with `Debug`. The text is left to [`avro_debug`];
/// of a value with a part that the service does not look into nothing is stated.
#[verifier::external_body]
fn print_value(value: &Value) -> (r: String)
    ensures
        avro_view(*value).is_known() ==> r@ == avro_debug(avro_view(*value)),
{
    format!("{:?}", value)
}

/// Reads the fields of a record, each with how its value prints.
pub(crate) fn read_fields(value: Value) -> (r: Option<Vec<AvroField>>)
    ensures
        are_fields(r, avro_view(value)),
        print_well(r),
{
    match take_entries(value) {
        None => None,
        Some(entries) => {
            let mut out: Vec<AvroField> = Vec::new();
            let mut i: usize = 0;
            while i < entries.len()
                invariant
                    i <= entries.len(),
                    out@.len() == i,
                    forall|j: int|
                        0 <= j < i ==> {
                            &&& (#[trigger] out@[j]).name@ == entries@[j].0@
                            &&& out@[j].value@ == avro_view(entries@[j].1)
                            &&& out@[j].value@.is_known() ==> out@[j].printed@ == avro_debug(
                                out@[j].value@,
                            )
                        },
                decreases entries.len() - i,
            {
                let value = read_value(&entries[i].1);
                let printed = print_value(&entries[i].1);
                out.push(AvroField { name: entries[i].0.clone(), value, printed });
                i += 1;
            }
            Some(out)
        },
    }
}

/// Makes an `apache_avro::types::Value`, variant by variant.
#[verifier::external_body]
pub(crate) fn make_value(value: &AvroValue) -> (r: Value)
    requires
        value@.is_known(),
    ensures
        avro_view(r) == value@,
{
    match value {
        AvroValue::Null => Value::Null,
        AvroValue::Int(n) => Value::Int(*n),
        AvroValue::Long(n) => Value::Long(*n),
        AvroValue::String(s) => Value::String(s.clone()),
        AvroValue::Union(i, v) => Value::Union(*i, Box::new(make_value(v))),
        AvroValue::Record(fields) => Value::Record(
            fields.iter().map(|f| (f.0.clone(), make_value(&f.1))).collect(),
        ),
        AvroValue::Other => Value::Null,
    }
}

/// What `apache_avro::from_avro_datum` reads from bytes by their schema: a value, or the
/// text of the error.
pub uninterp spec fn avro_datum(
    schema: apache_avro::Schema,
    data: Seq<u8>,
) -> Result<apache_avro::types::Value, Seq<char>>;

/// Reads a value with `apache_avro::from_avro_datum`, by its own schema alone. What the
/// bytes mean is left to [`avro_datum`]. By a schema that refers to itself the call may not
/// return, and where there are more bytes than can be held it panics.
#[verifier::external_body]
pub(crate) fn decode_datum(schema: &Schema, data: &[u8]) -> (r: Result<Value, String>)
    requires
        !schema_is_endless(*schema),
    ensures
        text::fallible(r) == avro_datum(*schema, data@),
{
    let mut rest = data;
    apache_avro::from_avro_datum(schema, &mut rest, None).map_err(|e| e.to_string())
}

/// The bytes that `apache_avro::to_avro_datum` writes for a value by a schema; nothing
/// where the value does not go with the schema.
pub uninterp spec fn avro_bytes(schema: apache_avro::Schema, value: AvroView) -> Option<Seq<u8>>;

/// Whether bytes read as that value.
pub open spec fn reads_as(schema: Schema, data: Seq<u8>, value: AvroView) -> bool {
    match avro_datum(schema, data) {
        Ok(v) => avro_view(v) == value,
        Err(_) => false,
    }
}

/// The bytes of a result, where it has some.
pub open spec fn bytes_of(r: Result<Vec<u8>, String>) -> Option<Seq<u8>> {
    match r {
        Ok(bytes) => Some(bytes@),
        Err(_) => None,
    }
}

/// The longest text that `apache_avro` reads, in bytes.
pub const LONGEST_TEXT: usize = 536_870_912;

/// Writes a value with `apache_avro::to_avro_datum`. What the bytes are is left to
/// [`avro_bytes`]; the text of the error can list fields in any order, and nothing is stated
/// of it. A record with exactly the fields of the schema is written, and unless a text in it
/// is longer than the longest that is read, its bytes read as the same record. The call
/// panics where a name is not found, and may do so where the table of a record goes with
/// other fields, or where a record has to be found among others.
#[verifier::external_body]
pub(crate) fn encode_datum(schema: &Schema, value: Value) -> (r: Result<Vec<u8>, String>)
    requires
        avro_resolves(*schema),
        avro_view(value).is_known(),
        avro_tree(*schema).can_write(avro_view(value)),
    ensures
        bytes_of(r) == avro_bytes(*schema, avro_view(value)),
        avro_tree(*schema).takes(avro_view(value)) ==> r is Ok && (avro_view(value).is_readable()
            ==> reads_as(*schema, r->Ok_0@, avro_view(value))),
{
    apache_avro::to_avro_datum(schema, value).map_err(|e| e.to_string())
}

/// A record that a field of it refers to, under the record's own full name, has no end.
pub proof fn record_that_holds_itself_is_endless(
    name: TypeName,
    fields: Seq<(Seq<char>, Seq<Seq<char>>, SchemaView)>,
    lookup: Seq<(Seq<char>, usize)>,
    i: int,
)
    requires
        0 <= i < fields.len(),
        fields[i].2 is Reference,
        (fields[i].2->Reference_0).within(name.within(None).namespace) == name.within(None),
    ensures
        (SchemaView::Record { name, fields, lookup }).is_endless(Seq::empty(), None),
{
    reveal_with_fuel(SchemaView::is_endless, 2);
    let outer = Seq::<TypeName>::empty().push(name.within(None));
    assert(outer[0] == name.within(None));
    assert(outer.contains(name.within(None)));
    let schema = SchemaView::Record { name, fields, lookup };
    assert(schema->Record_fields[i].2.is_endless(outer, name.within(None).namespace));
    assert(schema.is_endless(Seq::empty(), None));
}

/// Whether a schema refers to no type by its name, and asks for no more bytes than can be held.
pub open spec fn refers_to_nothing(schema: SchemaView) -> bool
    decreases schema,
{
    match schema {
        SchemaView::Fixed(size) => size <= isize::MAX,
        SchemaView::Decimal(inner) => refers_to_nothing(*inner),
        SchemaView::Array(items) => refers_to_nothing(*items),
        SchemaView::Keyed(values) => refers_to_nothing(*values),
        SchemaView::Union(variants) => forall|i: int|
            0 <= i < variants.len() ==> refers_to_nothing(#[trigger] variants[i]),
        SchemaView::Record { fields, .. } => forall|i: int|
            0 <= i < fields.len() ==> refers_to_nothing((#[trigger] fields[i]).2),
        SchemaView::Reference(_) => false,
        _ => true,
    }
}

/// A schema that refers to nothing, and asks for no more bytes than can be held, has an end.
pub proof fn schema_without_references_ends(
    schema: SchemaView,
    outer: Seq<TypeName>,
    enclosing: Option<Seq<char>>,
)
    requires
        refers_to_nothing(schema),
    ensures
        !schema.is_endless(outer, enclosing),
    decreases schema,
{
    match schema {
        SchemaView::Decimal(inner) => {
            schema_without_references_ends(*inner, outer, enclosing);
        },
        SchemaView::Array(items) => {
            schema_without_references_ends(*items, outer, enclosing);
        },
        SchemaView::Keyed(values) => {
            schema_without_references_ends(*values, outer, enclosing);
        },
        SchemaView::Union(variants) => {
            assert forall|i: int| 0 <= i < variants.len() implies !(
            #[trigger] variants[i]).is_endless(outer, enclosing) by {
                schema_without_references_ends(variants[i], outer, enclosing);
            }
        },
        SchemaView::Record { name, fields, .. } => {
            let full = name.within(enclosing);
            assert forall|i: int| 0 <= i < fields.len() implies !(
            #[trigger] fields[i]).2.is_endless(outer.push(full), full.namespace) by {
                schema_without_references_ends(fields[i].2, outer.push(full), full.namespace);
            }
        },
        _ => {},
    }
}

} // verus!

//! The schemas that the registry knows.
use crate::json;
use crate::json::{json_string, to_value, Json, JsonView};
use crate::text;
use crate::text::{
    chars_of, decimal_unsigned, join2, join3, same_text, split_on, trim_end_matches,
};
use apache_avro::Schema;
use dashmap::DashMap;
use vstd::prelude::*;

verus! {

/// `dashmap::DashMap`, carried through as it is.
#[verifier::external_type_specification]
#[verifier::external_body]
#[verifier::reject_recursive_types(K)]
#[verifier::reject_recursive_types(V)]
#[verifier::reject_recursive_types(S)]
pub struct ExDashMap<K, V, S>(dashmap::DashMap<K, V, S>);

/// The schemas in a cache, by their ids.
pub uninterp spec fn schemas_in(cache: dashmap::DashMap<u32, apache_avro::Schema>) -> Map<
    u32,
    apache_avro::Schema,
>;

/// No schemas.
pub open spec fn no_schemas() -> Map<u32, Schema> {
    Map::empty()
}

/// Makes a cache with `DashMap::new`: there is nothing in it.
#[verifier::external_body]
fn new_cache() -> (r: DashMap<u32, Schema>)
    ensures
        schemas_in(r) == no_schemas(),
{
    DashMap::new()
}

/// The schema of that id.
pub open spec fn schema_at(schemas: Map<u32, Schema>, id: u32) -> Option<Schema> {
    if schemas.contains_key(id) {
        Some(schemas[id])
    } else {
        None
    }
}

/// Looks a schema up with `DashMap::get`: a clone of the one that was put there.
#[verifier::external_body]
fn look_up(cache: &DashMap<u32, Schema>, id: u32) -> (r: Option<Schema>)
    ensures
        r == schema_at(schemas_in(*cache), id),
{
    cache.get(&id).map(|schema| schema.clone())
}

/// Puts a schema into a cache with `DashMap::insert`, in place of one of the same id.
#[verifier::external_body]
fn put(cache: &mut DashMap<u32, Schema>, id: u32, schema: Schema)
    ensures
        schemas_in(*final(cache)) == schemas_in(*old(cache)).insert(id, schema),
{
    cache.insert(id, schema);
}

/// Where schemas are registered, and those that were got from there.
pub struct SchemaRegistry {
    url: String,
    cache: DashMap<u32, Schema>,
}

impl SchemaRegistry {
    /// The address of the registry.
    pub closed spec fn address(&self) -> Seq<char> {
        self.url@
    }

    /// The schemas that were got from there, by their ids.
    pub closed spec fn schemas(&self) -> Map<u32, Schema> {
        schemas_in(self.cache)
    }

    /// A registry at an address, without a slash at its end.
    pub fn new(url: &str) -> (r: SchemaRegistry)
        ensures
            r.address() == text::trim_end_of(url@, '/'),
            r.schemas() == no_schemas(),
    {
        SchemaRegistry { url: trim_end_matches(url, '/'), cache: new_cache() }
    }

    /// Where a schema is registered under a subject.
    pub fn versions_url(&self, subject: &str) -> (r: String)
        ensures
            r@ == versions_address(self.address(), subject@),
    {
        versions_url(self.url.as_str(), subject)
    }

    /// Where the schema of that id is got.
    pub fn schema_url(&self, schema_id: u32) -> (r: String)
        ensures
            r@ == self.address() + "/schemas/ids/"@ + text::decimal_text(schema_id as int),
    {
        let id = decimal_unsigned(schema_id as u128);
        join3(self.url.as_str(), "/schemas/ids/", id.as_str())
    }

    /// Looks a schema up: it is to be got only where it was not got before.
    pub fn get_schema(&self, schema_id: u32) -> (r: Lookup)
        ensures
            match schema_at(self.schemas(), schema_id) {
                Some(schema) => r == Lookup::Kept(schema),
                None => r matches Lookup::Wanted(url) && url@ == self.address()
                    + "/schemas/ids/"@ + text::decimal_text(schema_id as int),
            },
    {
        match look_up(&self.cache, schema_id) {
            Some(schema) => Lookup::Kept(schema),
            None => Lookup::Wanted(self.schema_url(schema_id)),
        }
    }

    /// Takes what came of the attempt to get a schema, and keeps a schema that was got.
    pub fn take_schema(&mut self, schema_id: u32, got: Result<Schema, String>) -> (r: Result<
        Schema,
        String,
    >)
        ensures
            r == got,
            final(self).address() == old(self).address(),
            final(self).schemas() == taken(old(self).schemas(), schema_id, got),
    {
        match got {
            Ok(schema) => {
                put(&mut self.cache, schema_id, schema);
                match look_up(&self.cache, schema_id) {
                    Some(schema) => Ok(schema),
                    None => Err(String::new()),
                }
            },
            Err(e) => Err(e),
        }
    }
}

/// What came of looking a schema up.
pub enum Lookup {
    Kept(Schema),
    /// To be got from this address.
    Wanted(String),
}

/// The schemas after an attempt to get one: a failure leaves them as they were.
pub open spec fn taken(
    schemas: Map<u32, Schema>,
    schema_id: u32,
    got: Result<Schema, String>,
) -> Map<u32, Schema> {
    match got {
        Ok(schema) => schemas.insert(schema_id, schema),
        Err(_) => schemas,
    }
}

/// The schemas after attempts to get some, one after another.
pub open spec fn taken_all(
    schemas: Map<u32, Schema>,
    attempts: Seq<(u32, Result<Schema, String>)>,
) -> Map<u32, Schema>
    decreases attempts.len(),
{
    if attempts.len() == 0 {
        schemas
    } else {
        taken(
            taken_all(schemas, attempts.drop_last()),
            attempts.last().0,
            attempts.last().1,
        )
    }
}

/// A schema that was got is found again, whatever comes of attempts to get others, or of
/// ones that fail.
pub proof fn kept_schema_is_found(
    schemas: Map<u32, Schema>,
    attempts: Seq<(u32, Result<Schema, String>)>,
    i: int,
)
    requires
        0 <= i < attempts.len(),
        attempts[i].1 is Ok,
        forall|j: int|
            i < j < attempts.len() && (#[trigger] attempts[j]).0 == attempts[i].0
                ==> attempts[j].1 is Err,
    ensures
        schema_at(taken_all(schemas, attempts), attempts[i].0) == Some(attempts[i].1->Ok_0),
    decreases attempts.len(),
{
    if i < attempts.len() - 1 {
        let before = attempts.drop_last();
        assert(attempts[attempts.len() - 1] == attempts.last());
        assert forall|j: int| i < j < before.len() && (#[trigger] before[j]).0
            == before[i].0 implies before[j].1 is Err by {
            assert(before[j] == attempts[j]);
        }
        kept_schema_is_found(schemas, before, i);
    }
}

/// A schema is asked for exactly as long as every attempt to get it has failed: a failure
/// is not kept, and other schemas have no say.
pub proof fn asked_for_until_got(attempts: Seq<(u32, Result<Schema, String>)>, schema_id: u32)
    ensures
        schema_at(taken_all(no_schemas(), attempts), schema_id) is None <==> forall|i: int|
            0 <= i < attempts.len() && (#[trigger] attempts[i]).0 == schema_id ==> attempts[i].1
                is Err,
    decreases attempts.len(),
{
    if attempts.len() > 0 {
        let before = attempts.drop_last();
        asked_for_until_got(before, schema_id);
        assert(attempts[attempts.len() - 1] == attempts.last());
        assert forall|i: int| 0 <= i < before.len() implies #[trigger] before[i] == attempts[i] by {
        }
        if forall|i: int|
            0 <= i < before.len() && (#[trigger] before[i]).0 == schema_id ==> before[i].1 is Err {
            assert forall|i: int|
                0 <= i < attempts.len() - 1 && (#[trigger] attempts[i]).0
                    == schema_id implies attempts[i].1 is Err by {
                assert(before[i] == attempts[i]);
            }
        } else {
            let i = choose|i: int|
                0 <= i < before.len() && (#[trigger] before[i]).0 == schema_id && !(before[i].1
                    is Err);
            assert(attempts[i] == before[i]);
        }
    }
}

/// Where a schema is registered under a subject.
pub open spec fn versions_address(url: Seq<char>, subject: Seq<char>) -> Seq<char> {
    url + "/subjects/"@ + subject + "/versions"@
}

/// Where a schema is registered under a subject.
pub fn versions_url(url: &str, subject: &str) -> (r: String)
    ensures
        r@ == versions_address(url@, subject@),
{
    let mut out = join3(url, "/subjects/", subject);
    out.append("/versions");
    out
}

/// What is sent to register a schema.
pub fn registration(schema_json: &str) -> (r: Json)
    ensures
        r@ == JsonView::Object(seq![("schema"@, JsonView::String(schema_json@))]),
{
    let members = vec![("schema".to_string(), Json::String(schema_json.to_string()))];
    assert(members@[0].1@ == JsonView::String(schema_json@));
    let r = Json::Object(members);
    assert(r@->Object_0 =~= seq![("schema"@, JsonView::String(schema_json@))]);
    r
}

/// Whether a character can begin a name.
pub open spec fn begins_name(c: char) -> bool {
    'A' <= c <= 'Z' || 'a' <= c <= 'z' || c == '_'
}

/// Whether a text is of letters, digits and underscores, and begins with no digit.
pub open spec fn is_word(s: Seq<char>) -> bool {
    &&& s.len() > 0
    &&& begins_name(s[0])
    &&& forall|i: int| 0 <= i < s.len() ==> begins_name(#[trigger] s[i]) || '0' <= s[i] <= '9'
}

/// Whether a text is a name: words with dots between them.
pub open spec fn is_name(s: Seq<char>) -> bool {
    forall|i: int|
        0 <= i < text::split_text(s, '.').len() ==> is_word(#[trigger] text::split_text(s, '.')[i])
}

fn check_word(s: &str) -> (r: bool)
    ensures
        r == is_word(s@),
{
    let chars = chars_of(s);
    let mut i: usize = 0;
    while i < chars.len()
        invariant
            chars@ == s@,
            i <= chars.len(),
            i > 0 ==> begins_name(s@[0]),
            forall|j: int| 0 <= j < i ==> begins_name(#[trigger] s@[j]) || '0' <= s@[j] <= '9',
        decreases chars.len() - i,
    {
        let c = chars[i];
        let begins = ('A' <= c && c <= 'Z') || ('a' <= c && c <= 'z') || c == '_';
        if !begins && (i == 0 || !('0' <= c && c <= '9')) {
            return false;
        }
        i += 1;
    }
    chars.len() > 0
}

fn check_name(s: &str) -> (r: bool)
    ensures
        r == is_name(s@),
{
    let words = split_on(s, '.');
    let mut i: usize = 0;
    while i < words.len()
        invariant
            text::texts(words@) == text::split_text(s@, '.'),
            i <= words.len(),
            forall|j: int|
                0 <= j < i ==> is_word(#[trigger] text::split_text(s@, '.')[j]),
        decreases words.len() - i,
    {
        assert(text::texts(words@)[i as int] == words@[i as int]@);
        if !check_word(words[i].as_str()) {
            return false;
        }
        i += 1;
    }
    true
}

/// Whether no text among the values is anything but a name.
pub open spec fn all_names(items: Seq<JsonView>) -> bool {
    forall|i: int|
        0 <= i < items.len() && (#[trigger] items[i]) is String ==> is_name(items[i]->String_0)
}

/// Whether a member of an object that describes a schema gives no name that is none.
pub open spec fn plain_member(name: Seq<char>, value: JsonView) -> bool {
    &&& name == "name"@ && value is String ==> is_name(value->String_0)
    &&& name == "aliases"@ && value is Array ==> all_names(value->Array_0)
}

/// Whether a type is a choice, and null is the first there is to choose.
pub open spec fn null_first(value: JsonView) -> bool {
    &&& value is Array
    &&& value->Array_0.len() > 0
    &&& value->Array_0[0] == JsonView::String("null"@)
}

/// Whether a text names a type without parts.
pub open spec fn is_simple_type(name: Seq<char>) -> bool {
    ||| name == "null"@
    ||| name == "boolean"@
    ||| name == "int"@
    ||| name == "long"@
    ||| name == "float"@
    ||| name == "double"@
    ||| name == "bytes"@
    ||| name == "string"@
}

/// Whether a type is given by its name, or a choice of types all by theirs.
pub open spec fn is_named_choice(value: JsonView) -> bool {
    value is Array && forall|i: int|
        0 <= i < value->Array_0.len() ==> (#[trigger] value->Array_0[i]) is String
}

/// The last member of that name.
pub open spec fn last_member(members: Seq<(Seq<char>, JsonView)>, name: Seq<char>) -> Option<
    JsonView,
>
    decreases members.len(),
{
    if members.len() == 0 {
        None
    } else if members.last().0 == name {
        Some(members.last().1)
    } else {
        last_member(members.drop_last(), name)
    }
}

/// Whether a type has another meaning than its own, beside it or within it.
pub open spec fn is_reinterpreted(typ: JsonView, members: Seq<(Seq<char>, JsonView)>) -> bool {
    ||| last_member(members, "logicalType"@) is Some
    ||| typ is Object && last_member(typ->Object_0, "logicalType"@) is Some
}

/// Whether a type means a decimal number, by what is said beside it or within it.
pub open spec fn is_decimal(typ: JsonView, members: Seq<(Seq<char>, JsonView)>) -> bool {
    ||| last_member(members, "logicalType"@) == Some(JsonView::String("decimal"@))
    ||| typ is Object && last_member(typ->Object_0, "logicalType"@) == Some(
        JsonView::String("decimal"@),
    )
}

/// The name by which a type is given, alone or in an object.
pub open spec fn type_given(typ: JsonView) -> Option<Seq<char>> {
    match typ {
        JsonView::String(name) => Some(name),
        JsonView::Object(members) => match last_member(members, "type"@) {
            Some(JsonView::String(name)) => Some(name),
            _ => None,
        },
        _ => None,
    }
}

/// Whether a default can be held against the symbols that go with a type: they stand beside
/// it, or within it and have the default among them.
pub open spec fn is_among_symbols(
    default: JsonView,
    typ: JsonView,
    members: Seq<(Seq<char>, JsonView)>,
) -> bool {
    match typ {
        JsonView::Object(inner) => {
            &&& last_member(inner, "symbols"@) matches Some(JsonView::Array(symbols))
            &&& default is String
            &&& symbols.contains(default)
        },
        _ => last_member(members, "symbols"@) is Some,
    }
}

/// Whether a default can be held against a type that stands beside it. Any can be held
/// against one without parts, unless it means a decimal number, and an empty list or map
/// against one of lists or maps; null against any choice where null comes first, and all
/// but an object against a choice of types by their names.
pub open spec fn suits(
    default: JsonView,
    typ: JsonView,
    members: Seq<(Seq<char>, JsonView)>,
) -> bool {
    ||| is_named_choice(typ) && !(default is Object)
    ||| default is Null && null_first(typ)
    ||| type_given(typ) matches Some(name) && {
        ||| is_simple_type(name) && !is_decimal(typ, members)
        ||| !is_reinterpreted(typ, members) && {
            ||| name == "array"@ && default is Array && default->Array_0.len() == 0
            ||| name == "map"@ && default is Object && default->Object_0.len() == 0
            ||| name == "enum"@ && is_among_symbols(default, typ, members)
        }
    }
}

/// Whether there is no default, or it can be held against the type.
pub open spec fn default_fits(members: Seq<(Seq<char>, JsonView)>) -> bool {
    match (last_member(members, "default"@), last_member(members, "type"@)) {
        (Some(default), Some(typ)) => suits(default, typ, members),
        _ => true,
    }
}

/// Whether a value of at most that depth is written so plainly that it can be read as a
/// schema: names are names, and every default can be held against its type.
pub open spec fn is_plain(value: JsonView, depth: nat) -> bool
    decreases depth,
{
    depth > 0 && match value {
        JsonView::Array(items) => forall|i: int|
            0 <= i < items.len() ==> is_plain(#[trigger] items[i], (depth - 1) as nat),
        JsonView::Object(members) => {
            &&& forall|i: int|
                0 <= i < members.len() ==> plain_member(
                    (#[trigger] members[i]).0,
                    members[i].1,
                ) && is_plain(members[i].1, (depth - 1) as nat)
            &&& default_fits(members)
        },
        _ => true,
    }
}

fn check_names(items: &Vec<Json>) -> (r: bool)
    ensures
        r == all_names(Json::Array(*items)@->Array_0),
{
    let ghost all = Json::Array(*items)@->Array_0;
    let mut i: usize = 0;
    while i < items.len()
        invariant
            all == Json::Array(*items)@->Array_0,
            i <= items.len(),
            forall|j: int| 0 <= j < i && (#[trigger] all[j]) is String ==> is_name(all[j]->String_0),
        decreases items.len() - i,
    {
        assert(all[i as int] == items@[i as int]@);
        match &items[i] {
            Json::String(s) => {
                if !check_name(s.as_str()) {
                    return false;
                }
            },
            _ => {},
        }
        i += 1;
    }
    true
}

fn check_member(name: &str, value: &Json) -> (r: bool)
    ensures
        r == plain_member(name@, value@),
{
    match value {
        Json::String(s) => !same_text(name, "name") || check_name(s.as_str()),
        Json::Array(items) => !same_text(name, "aliases") || check_names(items),
        _ => true,
    }
}

fn check_null_first(value: &Json) -> (r: bool)
    ensures
        r == null_first(value@),
{
    match value {
        Json::Array(items) => {
            if items.len() == 0 {
                return false;
            }
            assert(value@->Array_0[0] == items@[0]@);
            match &items[0] {
                Json::String(s) => same_text(s.as_str(), "null"),
                _ => false,
            }
        },
        _ => false,
    }
}

fn check_simple_type(name: &str) -> (r: bool)
    ensures
        r == is_simple_type(name@),
{
    same_text(name, "null") || same_text(name, "boolean") || same_text(name, "int") || same_text(
        name,
        "long",
    ) || same_text(name, "float") || same_text(name, "double") || same_text(name, "bytes")
        || same_text(name, "string")
}

fn check_named_choice(value: &Json) -> (r: bool)
    ensures
        r == is_named_choice(value@),
{
    match value {
        Json::Array(items) => {
            let ghost all = value@->Array_0;
            let mut i: usize = 0;
            while i < items.len()
                invariant
                    value == Json::Array(*items),
                    all == value@->Array_0,
                    i <= items.len(),
                    forall|j: int| 0 <= j < i ==> (#[trigger] all[j]) is String,
                decreases items.len() - i,
            {
                assert(all[i as int] == items@[i as int]@);
                if !matches!(items[i], Json::String(_)) {
                    return false;
                }
                i += 1;
            }
            true
        },
        _ => false,
    }
}

fn find_last<'a>(members: &'a Vec<(String, Json)>, name: &str) -> (r: Option<&'a Json>)
    ensures
        match r {
            Some(v) => last_member(Json::Object(*members)@->Object_0, name@) == Some(v@),
            None => last_member(Json::Object(*members)@->Object_0, name@) is None,
        },
{
    let ghost all = Json::Object(*members)@->Object_0;
    let mut i: usize = members.len();
    assert(all.take(i as int) =~= all);
    while i > 0
        invariant
            i <= members.len(),
            all == Json::Object(*members)@->Object_0,
            last_member(all, name@) == last_member(all.take(i as int), name@),
        decreases i,
    {
        assert(all[i - 1] == (members@[i - 1].0@, members@[i - 1].1@));
        assert(all.take(i as int).last() == all[i - 1]);
        assert(all.take(i as int).drop_last() =~= all.take(i - 1));
        if same_text(members[i - 1].0.as_str(), name) {
            return Some(&members[i - 1].1);
        }
        i -= 1;
    }
    None
}

fn find_type<'a>(typ: &'a Json) -> (r: Option<&'a String>)
    ensures
        match r {
            Some(name) => type_given(typ@) == Some(name@),
            None => type_given(typ@) is None,
        },
{
    match typ {
        Json::String(name) => Some(name),
        Json::Object(members) => match find_last(members, "type") {
            Some(Json::String(name)) => Some(name),
            _ => None,
        },
        _ => None,
    }
}

fn check_reinterpreted(typ: &Json, members: &Vec<(String, Json)>) -> (r: bool)
    ensures
        r == is_reinterpreted(typ@, Json::Object(*members)@->Object_0),
{
    find_last(members, "logicalType").is_some() || match typ {
        Json::Object(inner) => find_last(inner, "logicalType").is_some(),
        _ => false,
    }
}

fn means_decimal(members: &Vec<(String, Json)>) -> (r: bool)
    ensures
        r == (last_member(Json::Object(*members)@->Object_0, "logicalType"@) == Some(
            JsonView::String("decimal"@),
        )),
{
    match find_last(members, "logicalType") {
        Some(Json::String(s)) => same_text(s.as_str(), "decimal"),
        _ => false,
    }
}

fn check_decimal(typ: &Json, members: &Vec<(String, Json)>) -> (r: bool)
    ensures
        r == is_decimal(typ@, Json::Object(*members)@->Object_0),
{
    means_decimal(members) || match typ {
        Json::Object(inner) => means_decimal(inner),
        _ => false,
    }
}

fn check_contains(symbols: &Vec<Json>, text: &String) -> (r: bool)
    ensures
        r == Json::Array(*symbols)@->Array_0.contains(JsonView::String(text@)),
{
    let ghost all = Json::Array(*symbols)@->Array_0;
    let mut i: usize = 0;
    while i < symbols.len()
        invariant
            i <= symbols.len(),
            all == Json::Array(*symbols)@->Array_0,
            forall|j: int| 0 <= j < i ==> #[trigger] all[j] != JsonView::String(text@),
        decreases symbols.len() - i,
    {
        assert(all[i as int] == symbols@[i as int]@);
        match &symbols[i] {
            Json::String(s) => {
                if same_text(s.as_str(), text.as_str()) {
                    assert(all[i as int] == JsonView::String(text@));
                    return true;
                }
            },
            _ => {},
        }
        i += 1;
    }
    false
}

fn check_symbols(default: &Json, typ: &Json, members: &Vec<(String, Json)>) -> (r: bool)
    ensures
        r == is_among_symbols(default@, typ@, Json::Object(*members)@->Object_0),
{
    match typ {
        Json::Object(inner) => match (find_last(inner, "symbols"), default) {
            (Some(Json::Array(symbols)), Json::String(text)) => check_contains(symbols, text),
            _ => false,
        },
        _ => find_last(members, "symbols").is_some(),
    }
}

fn check_suits(default: &Json, typ: &Json, members: &Vec<(String, Json)>) -> (r: bool)
    ensures
        r == suits(default@, typ@, Json::Object(*members)@->Object_0),
{
    if check_named_choice(typ) && !matches!(default, Json::Object(_)) {
        return true;
    }
    if matches!(default, Json::Null) && check_null_first(typ) {
        return true;
    }
    match find_type(typ) {
        None => false,
        Some(name) => {
            let name = name.as_str();
            if check_simple_type(name) && !check_decimal(typ, members) {
                return true;
            }
            if check_reinterpreted(typ, members) {
                return false;
            }
            (match default {
                Json::Array(items) => same_text(name, "array") && items.len() == 0,
                Json::Object(inner) => same_text(name, "map") && inner.len() == 0,
                _ => false,
            }) || (same_text(name, "enum") && check_symbols(default, typ, members))
        },
    }
}

fn check_default(members: &Vec<(String, Json)>) -> (r: bool)
    ensures
        r == default_fits(Json::Object(*members)@->Object_0),
{
    match (find_last(members, "default"), find_last(members, "type")) {
        (Some(default), Some(typ)) => check_suits(default, typ, members),
        _ => true,
    }
}

fn check_plain(value: &Json, depth: u32) -> (r: bool)
    ensures
        r == is_plain(value@, depth as nat),
    decreases depth,
{
    if depth == 0 {
        return false;
    }
    match value {
        Json::Array(items) => {
            let ghost all = value@->Array_0;
            let mut i: usize = 0;
            while i < items.len()
                invariant
                    depth > 0,
                    value == Json::Array(*items),
                    all == value@->Array_0,
                    i <= items.len(),
                    forall|j: int|
                        0 <= j < i ==> is_plain(#[trigger] all[j], (depth - 1) as nat),
                decreases items.len() - i,
            {
                assert(all[i as int] == items@[i as int]@);
                if !check_plain(&items[i], depth - 1) {
                    return false;
                }
                i += 1;
            }
            true
        },
        Json::Object(members) => {
            let ghost all = value@->Object_0;
            let mut i: usize = 0;
            while i < members.len()
                invariant
                    depth > 0,
                    value == Json::Object(*members),
                    all == value@->Object_0,
                    i <= members.len(),
                    forall|j: int|
                        0 <= j < i ==> plain_member((#[trigger] all[j]).0, all[j].1) && is_plain(
                            all[j].1,
                            (depth - 1) as nat,
                        ),
                decreases members.len() - i,
            {
                assert(all[i as int] == (members@[i as int].0@, members@[i as int].1@));
                if !check_member(members[i].0.as_str(), &members[i].1) || !check_plain(
                    &members[i].1,
                    depth - 1,
                ) {
                    return false;
                }
                i += 1;
            }
            check_default(members)
        },
        _ => true,
    }
}

/// How deep a value goes that is read as a schema.
pub const DEEPEST: u32 = 128;

/// The schema that `apache_avro::Schema::parse` reads from a value, or the text of the
/// error.
pub uninterp spec fn schema_described(json: JsonView) -> Result<apache_avro::Schema, Seq<char>>;

/// Reads a schema with `apache_avro::Schema::parse`, which goes by the value alone. What
/// the value means is left to [`schema_described`]. The call panics where a name or an
/// alias is no name, and may do so where a default cannot be held against its type.
#[verifier::external_body]
fn read_schema(json: &Json) -> (r: Result<Schema, String>)
    requires
        is_plain(json@, DEEPEST as nat),
    ensures
        text::fallible(r) == schema_described(json@),
{
    Schema::parse(&to_value(json)).map_err(|e| e.to_string())
}

/// Whether a schema is written so plainly that it can be read.
pub fn is_plain_schema(json: &Json) -> (r: bool)
    ensures
        r == is_plain(json@, DEEPEST as nat),
{
    check_plain(json, DEEPEST)
}

/// Reads a schema that is written plainly.
pub fn parse_schema(json: &Json) -> (r: Result<Schema, String>)
    requires
        is_plain(json@, DEEPEST as nat),
    ensures
        text::fallible(r) == schema_described(json@),
{
    read_schema(json)
}

/// The id in the reply to a registration: its lowest 32 bits.
pub open spec fn id_in(reply: JsonView) -> Option<int> {
    match reply {
        JsonView::Object(members) => match json::find_member(members, "id"@) {
            Some(JsonView::Integer(n)) => if 0 <= n <= u64::MAX {
                Some(n % 0x1_0000_0000)
            } else {
                None
            },
            _ => None,
        },
        _ => None,
    }
}

/// Reads the reply to a registration.
pub fn registered_id(reply: &Json) -> (r: Result<u32, String>)
    ensures
        match id_in(reply@) {
            Some(id) => r matches Ok(n) && n == id,
            None => r matches Err(m) && m@ == "no id in registry response: "@ + json::json_text(
                reply@,
            ),
        },
{
    match reply {
        Json::Object(members) => match json::member(members, "id") {
            Some(Json::Integer(n)) => {
                if 0 <= *n && *n <= u64::MAX as i128 {
                    return Ok((*n % 0x1_0000_0000) as u32);
                }
            },
            _ => {},
        },
        _ => {},
    }
    Err(join2("no id in registry response: ", json_string(reply).as_str()))
}

/// Schemas are registered under their subject.
pub proof fn versions_are_under_their_subject(url: Seq<char>, subject: Seq<char>)
    ensures
        versions_address(url, subject) == url + "/subjects/"@ + subject + "/versions"@,
{
}

/// The reply to a registration has an id exactly if it is an object whose first member of
/// that name is a number of 64 bits without a sign, and the id is what is left of it in 32.
pub proof fn reply_has_an_id_exactly_if(reply: JsonView)
    ensures
        id_in(reply) is Some <==> {
            &&& json::member_of(reply, "id"@) matches Some(JsonView::Integer(n))
            &&& 0 <= n < 0x1_0000_0000_0000_0000
        },
        id_in(reply) matches Some(id) ==> 0 <= id < 0x1_0000_0000 && exists|q: int|
            #![trigger q * 0x1_0000_0000]
            json::member_of(reply, "id"@) == Some(JsonView::Integer(q * 0x1_0000_0000 + id)),
{
    if id_in(reply) is Some {
        let n = json::member_of(reply, "id"@)->0->Integer_0;
        let q = n / 0x1_0000_0000;
        assert(n == q * 0x1_0000_0000 + n % 0x1_0000_0000);
    }
}

} // verus!

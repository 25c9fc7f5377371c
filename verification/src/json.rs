//! JSON values as the library reads and writes them.
use crate::text;
use crate::text::{decimal, join2, join3, same_text};
use vstd::prelude::*;

verus! {

/// A JSON value. A number that is not an integer is kept as the text that `serde_json`
/// writes for it.
#[derive(Debug, PartialEq)]
pub enum Json {
    Null,
    Bool(bool),
    Integer(i128),
    Float(String),
    String(String),
    Array(Vec<Json>),
    Object(Vec<(String, Json)>),
}

/// What a [`Json`] holds.
pub enum JsonView {
    Null,
    Bool(bool),
    Integer(int),
    Float(Seq<char>),
    String(Seq<char>),
    Array(Seq<JsonView>),
    Object(Seq<(Seq<char>, JsonView)>),
}

impl Json {
    pub open spec fn view(&self) -> JsonView
        decreases self,
    {
        match self {
            Json::Null => JsonView::Null,
            Json::Bool(b) => JsonView::Bool(*b),
            Json::Integer(n) => JsonView::Integer(*n as int),
            Json::Float(t) => JsonView::Float(t@),
            Json::String(s) => JsonView::String(s@),
            Json::Array(items) => JsonView::Array(
                Seq::new(
                    items@.len(),
                    |i: int|
                        if 0 <= i < items@.len() {
                            items@[i].view()
                        } else {
                            JsonView::Null
                        },
                ),
            ),
            Json::Object(members) => JsonView::Object(
                Seq::new(
                    members@.len(),
                    |i: int|
                        if 0 <= i < members@.len() {
                            (members@[i].0@, members@[i].1.view())
                        } else {
                            (Seq::empty(), JsonView::Null)
                        },
                ),
            ),
        }
    }
}

/// The value of the first member of that name.
pub open spec fn find_member(members: Seq<(Seq<char>, JsonView)>, name: Seq<char>) -> Option<
    JsonView,
>
    decreases members.len(),
{
    if members.len() == 0 {
        None
    } else if members[0].0 == name {
        Some(members[0].1)
    } else {
        find_member(members.drop_first(), name)
    }
}

/// The member of a value that is an object.
pub open spec fn member_of(value: JsonView, name: Seq<char>) -> Option<JsonView> {
    match value {
        JsonView::Object(members) => find_member(members, name),
        _ => None,
    }
}

/// Looks a member up by name.
pub fn member<'a>(members: &'a Vec<(String, Json)>, name: &str) -> (r: Option<&'a Json>)
    ensures
        match r {
            Some(value) => find_member(Json::Object(*members)@->Object_0, name@) == Some(value@),
            None => find_member(Json::Object(*members)@->Object_0, name@) is None,
        },
{
    let ghost all = Json::Object(*members)@->Object_0;
    let mut i: usize = 0;
    assert(all.skip(0) =~= all);
    while i < members.len()
        invariant
            all == Json::Object(*members)@->Object_0,
            i <= members.len(),
            find_member(all, name@) == find_member(all.skip(i as int), name@),
        decreases members.len() - i,
    {
        assert(all.skip(i as int)[0] == (members@[i as int].0@, members@[i as int].1@));
        if same_text(members[i].0.as_str(), name) {
            return Some(&members[i].1);
        }
        assert(all.skip(i as int).drop_first() =~= all.skip(i + 1));
        i += 1;
    }
    None
}

/// What a message calls a value that it did not expect.
pub open spec fn described(value: JsonView) -> Seq<char> {
    match value {
        JsonView::Null => "null"@,
        JsonView::Bool(b) => if b {
            "boolean `true`"@
        } else {
            "boolean `false`"@
        },
        JsonView::Integer(n) => "integer `"@ + text::decimal_text(n) + "`"@,
        JsonView::Float(t) => "floating point `"@ + t + "`"@,
        JsonView::String(s) => "string "@ + quoted_text(s),
        JsonView::Array(_) => "sequence"@,
        JsonView::Object(_) => "map"@,
    }
}

/// Says what kind of value was found.
pub fn describe(value: &Json) -> (r: String)
    ensures
        r@ == described(value@),
{
    match value {
        Json::Null => "null".to_string(),
        Json::Bool(b) => if *b {
            "boolean `true`".to_string()
        } else {
            "boolean `false`".to_string()
        },
        Json::Integer(n) => join3("integer `", decimal(*n).as_str(), "`"),
        Json::Float(t) => join3("floating point `", t.as_str(), "`"),
        Json::String(s) => join2("string ", quoted(s.as_str()).as_str()),
        Json::Array(_) => "sequence".to_string(),
        Json::Object(_) => "map".to_string(),
    }
}

/// The text of a string as `Debug` writes it: in quotes, with escapes.
pub uninterp spec fn quoted_text(s: Seq<char>) -> Seq<char>;

/// Writes a string in quotes, with escapes, by its `Debug` form. What the escapes are
/// is left to [`quoted_text`].
#[verifier::external_body]
pub(crate) fn quoted(s: &str) -> (r: String)
    ensures
        r@ == quoted_text(s@),
{
    format!("{:?}", s)
}

/// `serde_json::Value`, carried through as it is.
#[verifier::external_type_specification]
#[verifier::external_body]
pub struct ExValue(serde_json::Value);

/// The `serde_json::Value` of a value: the members of an object go into a map, a number
/// that is not an integer is read from its text, and null where that is none.
pub uninterp spec fn json_value(json: JsonView) -> serde_json::Value;

/// Makes a `serde_json::Value`, variant by variant. What a number is that is not an
/// integer is left to `str::parse`, and which of two members of one name is kept to
/// `serde_json::Map`: all that is stated is that it follows from the value.
#[verifier::external_body]
pub(crate) fn to_value(json: &Json) -> (r: serde_json::Value)
    ensures
        r == json_value(json@),
{
    match json {
        Json::Null => serde_json::Value::Null,
        Json::Bool(b) => serde_json::Value::Bool(*b),
        Json::Integer(n) => serde_json::Number::from_i128(*n).into(),
        Json::Float(t) => t.parse().ok().and_then(serde_json::Number::from_f64).into(),
        Json::String(s) => serde_json::Value::String(s.clone()),
        Json::Array(items) => serde_json::Value::Array(items.iter().map(to_value).collect()),
        Json::Object(members) => serde_json::Value::Object(
            members.iter().map(|m| (m.0.clone(), to_value(&m.1))).collect(),
        ),
    }
}

/// The text of a `serde_json::Value`: compact, with the members of an object in the
/// order of their names.
pub uninterp spec fn value_text(value: serde_json::Value) -> Seq<char>;

/// Writes a value with `serde_json::Value::to_string`. What the text is, is left to
/// [`value_text`].
#[verifier::external_body]
fn print_value(value: &serde_json::Value) -> (r: String)
    ensures
        r@ == value_text(*value),
{
    value.to_string()
}

/// The text of a value.
pub open spec fn json_text(json: JsonView) -> Seq<char> {
    value_text(json_value(json))
}

/// Writes a value as JSON text.
pub fn json_string(json: &Json) -> (r: String)
    ensures
        r@ == json_text(json@),
{
    let value = to_value(json);
    print_value(&value)
}

/// Whether a name needs no escapes in a JSON text.
pub open spec fn is_plain_key(name: Seq<char>) -> bool {
    forall|i: int| 0 <= i < name.len() ==> ('a' <= #[trigger] name[i] <= 'z') || name[i] == '_'
}

/// Whether a text is made of a beginning, pieces with commas between them, and an end.
pub open spec fn encloses(text: Seq<char>, open: char, pieces: Seq<Seq<char>>, close: char) -> bool {
    text == seq![open] + text::join_text(pieces, ',') + seq![close]
}

/// Whether a text is a name in quotes, a colon, and another text.
pub open spec fn is_member(text: Seq<char>, name: Seq<char>, value: Seq<char>) -> bool {
    is_plain_key(name) && text == seq!['"'] + name + seq!['"', ':'] + value
}

/// Whether a text is made of what numbers are written with.
pub open spec fn is_numeral(text: Seq<char>) -> bool {
    text.len() > 0 && forall|i: int|
        0 <= i < text.len() ==> ('0' <= #[trigger] text[i] <= '9') || text[i] == '-' || text[i]
            == '+' || text[i] == '.' || text[i] == 'e' || text[i] == 'E'
}

/// Whether a text is a value in JSON, without white space: a list in square brackets and an
/// object in curly ones, with commas between their parts. How a single text is written is
/// left to [`json_text`].
pub open spec fn spells(text: Seq<char>, value: JsonView) -> bool
    decreases value,
{
    match value {
        JsonView::Null => text == "null"@,
        JsonView::Bool(b) => text == if b {
            "true"@
        } else {
            "false"@
        },
        JsonView::Integer(n) => text == text::decimal_text(n),
        JsonView::Float(t) => text == t && is_numeral(t),
        JsonView::String(_) => text == json_text(value),
        JsonView::Array(items) => exists|pieces: Seq<Seq<char>>| #[trigger]
            encloses(text, '[', pieces, ']') && pieces.len() == items.len() && forall|i: int|
                0 <= i < items.len() ==> spells(#[trigger] pieces[i], items[i]),
        JsonView::Object(members) => exists|pieces: Seq<Seq<char>>, values: Seq<Seq<char>>|
            #![trigger encloses(text, '{', pieces, '}'), values.len()]
            encloses(text, '{', pieces, '}') && pieces.len() == members.len() && values.len()
                == members.len() && forall|i: int|
                0 <= i < members.len() ==> is_member(#[trigger] pieces[i], members[i].0, values[i])
                    && spells(values[i], members[i].1),
    }
}

/// The member that is found is the first of its name, and none is found only where there is
/// none of that name.
pub proof fn first_member_is_found(members: Seq<(Seq<char>, JsonView)>, name: Seq<char>)
    ensures
        match find_member(members, name) {
            Some(value) => exists|i: int|
                {
                    &&& 0 <= i < members.len()
                    &&& #[trigger] members[i] == (name, value)
                    &&& forall|j: int| 0 <= j < i ==> (#[trigger] members[j]).0 != name
                },
            None => forall|j: int| 0 <= j < members.len() ==> (#[trigger] members[j]).0 != name,
        },
    decreases members.len(),
{
    if members.len() > 0 && members[0].0 != name {
        let rest = members.drop_first();
        first_member_is_found(rest, name);
        match find_member(rest, name) {
            Some(value) => {
                let i = choose|i: int|
                    {
                        &&& 0 <= i < rest.len()
                        &&& #[trigger] rest[i] == (name, value)
                        &&& forall|j: int| 0 <= j < i ==> (#[trigger] rest[j]).0 != name
                    };
                assert(members[i + 1] == (name, value));
                assert forall|j: int| 0 <= j < i + 1 implies (#[trigger] members[j]).0 != name by {
                    if j > 0 {
                        assert(rest[j - 1] == members[j]);
                    }
                }
            },
            None => {
                assert forall|j: int| 0 <= j < members.len() implies (#[trigger] members[j]).0
                    != name by {
                    if j > 0 {
                        assert(rest[j - 1] == members[j]);
                    }
                }
            },
        }
    } else if members.len() > 0 {
        assert(members[0] == (name, members[0].1));
    }
}

/// What a message calls a value tells its kind, and a number, a text or a truth value as it
/// is written.
pub proof fn values_are_described_by_kind(value: JsonView)
    ensures
        match value {
            JsonView::Null => described(value) == "null"@,
            JsonView::Bool(true) => described(value) == "boolean `true`"@,
            JsonView::Bool(false) => described(value) == "boolean `false`"@,
            JsonView::Integer(n) => described(value) == "integer `"@ + text::decimal_text(n)
                + "`"@,
            JsonView::Float(t) => described(value) == "floating point `"@ + t + "`"@,
            JsonView::String(s) => described(value) == "string "@ + quoted_text(s),
            JsonView::Array(_) => described(value) == "sequence"@,
            JsonView::Object(_) => described(value) == "map"@,
        },
{
}

} // verus!

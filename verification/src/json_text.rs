//! JSON text: parsing a text into a [`JsonValue`] and writing one as text.

use crate::marshal::{
    finite, float_integer, is_finite, item_views, keys_fit, lemma_array_view, lemma_object_view,
    member_views, normal_number, JsonValue, JsonView, MarshalError,
};
use vstd::prelude::*;

verus! {

/// `serde_json::Value`, a parsed JSON value.
#[verifier::external_type_specification]
#[verifier::external_body]
pub struct ExJson(serde_json::Value);

/// The deepest nesting of arrays and objects that is read from a parsed
/// text. The parser itself refuses a text that nests deeper.
pub const JSON_DEPTH: usize = 128;

/// One node of a parsed JSON text, its parts not yet read.
pub enum JsonNode {
    Null,
    Bool(bool),
    /// A number: what it is as a signed 64-bit integer, if it is one, what
    /// it is as an unsigned 64-bit integer, if it is one, and the IEEE 754
    /// bits of what it is as a binary64 number, if it is one.
    Number(Option<i64>, Option<u64>, Option<u64>),
    Text(String),
    Array(Vec<serde_json::Value>),
    /// The members of an object, in the order in which its map walks them.
    Object(Vec<(String, serde_json::Value)>),
}

/// The JSON tree that a parsed value holds: a number as the integer that it
/// is, where it is a signed or an unsigned 64-bit integer, and else as the
/// binary64 number that it is; the members of an object in the order in
/// which its map walks them.
pub uninterp spec fn json_content(value: serde_json::Value) -> JsonView;

/// The IEEE 754 bits of the binary64 number that stands for the integer `n`
/// where `n` is asked for as a binary64 number.
pub uninterp spec fn nearest_float(n: int) -> u64;

/// The text that is written for a JSON tree.
pub uninterp spec fn printed(json: JsonView) -> Seq<char>;

/// The JSON tree that a text is parsed to; `None` where the text is not
/// JSON.
pub uninterp spec fn parsed(text: Seq<char>) -> Option<JsonView>;

/// The members of an object as its map holds them: in the order of the map,
/// and of two members with one name only the later.
pub uninterp spec fn collected(members: Seq<(Seq<char>, JsonView)>) -> Seq<(Seq<char>, JsonView)>;

/// The trees that parsed values hold, in order.
pub open spec fn contents(values: Seq<serde_json::Value>) -> Seq<JsonView> {
    Seq::new(values.len(), |i: int| json_content(values[i]))
}

/// The names of members with the trees that their parsed values hold, in
/// order.
pub open spec fn member_contents(members: Seq<(String, serde_json::Value)>) -> Seq<
    (Seq<char>, JsonView),
> {
    Seq::new(members.len(), |i: int| (members[i].0@, json_content(members[i].1)))
}

/// The number that a parsed number holds, from its three probes: the
/// integer where one of the integer probes gives it, else the binary64
/// number.
pub open spec fn number_content(
    integer: Option<i64>,
    unsigned: Option<u64>,
    float_bits: Option<u64>,
) -> Option<JsonView> {
    match integer {
        Some(i) => Some(JsonView::Integer(i as int)),
        None => match unsigned {
            Some(u) => Some(JsonView::Integer(u as int)),
            None => match float_bits {
                Some(bits) => Some(JsonView::Float(bits)),
                None => None,
            },
        },
    }
}

/// The number that a parsed number is read as, from its signed integer
/// probe and its binary64 probe: the integer probe is taken first; where it
/// gives nothing, the binary64 number is taken, as the integer that it is
/// where it is one that fits 64 signed bits.
pub open spec fn probed(integer: Option<i64>, float_bits: Option<u64>) -> Option<JsonView> {
    match integer {
        Some(i) => Some(JsonView::Integer(i as int)),
        None => match float_bits {
            Some(bits) => Some(normal_number(bits)),
            None => None,
        },
    }
}

/// The JSON tree that a node stands for, its parts taken by what they hold.
pub open spec fn node_view(node: JsonNode) -> Option<JsonView> {
    match node {
        JsonNode::Null => Some(JsonView::Null),
        JsonNode::Bool(b) => Some(JsonView::Bool(b)),
        JsonNode::Number(integer, unsigned, float_bits) => number_content(
            integer,
            unsigned,
            float_bits,
        ),
        JsonNode::Text(s) => Some(JsonView::Text(s@)),
        JsonNode::Array(items) => Some(JsonView::Array(contents(items@))),
        JsonNode::Object(members) => Some(JsonView::Object(member_contents(members@))),
    }
}

/// The items of an array, each as it is read.
pub open spec fn reading_items(items: Seq<JsonView>) -> Seq<JsonView>
    decreases items,
{
    Seq::new(
        items.len(),
        |i: int|
            if 0 <= i < items.len() {
                reading(items[i])
            } else {
                JsonView::Null
            },
    )
}

/// The members of an object, each value as it is read.
pub open spec fn reading_members(members: Seq<(Seq<char>, JsonView)>) -> Seq<(Seq<char>, JsonView)>
    decreases members,
{
    Seq::new(
        members.len(),
        |i: int|
            if 0 <= i < members.len() {
                (members[i].0, reading(members[i].1))
            } else {
                (Seq::empty(), JsonView::Null)
            },
    )
}

/// The JSON tree that the tree held by a parsed value is read as: an
/// integer that fits 64 signed bits is itself; any other number is the
/// binary64 number that stands for it, as the integer that this is where it
/// is one that fits 64 signed bits.
pub open spec fn reading(content: JsonView) -> JsonView
    decreases content,
{
    match content {
        JsonView::Integer(n) => if i64::MIN <= n <= i64::MAX {
            JsonView::Integer(n)
        } else {
            normal_number(nearest_float(n))
        },
        JsonView::Float(bits) => normal_number(bits),
        JsonView::Array(items) => JsonView::Array(reading_items(items)),
        JsonView::Object(members) => JsonView::Object(reading_members(members)),
        _ => content,
    }
}

/// Calls `serde_json::from_str` for a `serde_json::Value`; `None` where the
/// text is not JSON. The tree that the value holds is named [`parsed`].
#[verifier::external_body]
fn parse_text(text: &str) -> (value: Option<serde_json::Value>)
    ensures
        match parsed(text@) {
            Some(tree) => value is Some && json_content(value->Some_0) == tree,
            None => value is None,
        },
{
    serde_json::from_str::<serde_json::Value>(text).ok()
}

/// Calls `serde_json::to_string`. For a `serde_json::Value` it has nothing
/// to fail on: the members of a map have strings as names, and the text is
/// written to memory. The text is named [`printed`].
#[verifier::external_body]
fn print_text(value: &serde_json::Value) -> (text: String)
    ensures
        text@ == printed(json_content(*value)),
{
    serde_json::to_string(value).unwrap_or_default()
}

/// Tells the variants of `serde_json::Value` apart and hands out a copy of
/// what each holds: of a number, the results of `serde_json::Number::as_i64`,
/// of `serde_json::Number::as_u64` and of `serde_json::Number::as_f64`, of
/// which the last is never `None`. This is what [`json_content`] names. An
/// unsigned integer that is no signed one is larger than every signed one;
/// what `as_f64` gives for it is named [`nearest_float`].
#[verifier::external_body]
fn json_node(value: &serde_json::Value) -> (node: JsonNode)
    ensures
        node_view(node) == Some(json_content(*value)),
        node matches JsonNode::Number(integer, unsigned, float_bits) ==> (integer is None
            && unsigned is Some ==> unsigned->Some_0 > i64::MAX && float_bits == Some(
            nearest_float(unsigned->Some_0 as int),
        )),
{
    match value {
        serde_json::Value::Null => JsonNode::Null,
        serde_json::Value::Bool(b) => JsonNode::Bool(*b),
        serde_json::Value::Number(n) => JsonNode::Number(n.as_i64(), n.as_u64(), n.as_f64().map(|f| f.to_bits())),
        serde_json::Value::String(s) => JsonNode::Text(s.clone()),
        serde_json::Value::Array(items) => JsonNode::Array(items.clone()),
        serde_json::Value::Object(members) => JsonNode::Object(
            members.iter().map(|(k, v)| (k.clone(), v.clone())).collect(),
        ),
    }
}

/// `serde_json::Value::Null`.
#[verifier::external_body]
fn null_json() -> (value: serde_json::Value)
    ensures
        json_content(value) == JsonView::Null,
{
    serde_json::Value::Null
}

/// `serde_json::Value::Bool` of `b`.
#[verifier::external_body]
fn bool_json(b: bool) -> (value: serde_json::Value)
    ensures
        json_content(value) == JsonView::Bool(b),
{
    serde_json::Value::Bool(b)
}

/// `serde_json::Value::Number` of the `serde_json::Number` that is made
/// from the integer `i`.
#[verifier::external_body]
fn integer_json(i: i64) -> (value: serde_json::Value)
    ensures
        json_content(value) == JsonView::Integer(i as int),
{
    serde_json::Value::Number(serde_json::Number::from(i))
}

/// Calls `serde_json::Number::from_f64` on the number with the given IEEE
/// 754 bits; `None` exactly where the number is an infinity or a NaN.
#[verifier::external_body]
fn float_json(bits: u64) -> (value: Option<serde_json::Value>)
    ensures
        value is Some <==> is_finite(bits),
        value is Some ==> json_content(value->Some_0) == JsonView::Float(bits),
{
    serde_json::Number::from_f64(mlua::Number::from_bits(bits)).map(serde_json::Value::Number)
}

/// `serde_json::Value::String` of `text`.
#[verifier::external_body]
fn text_json(text: String) -> (value: serde_json::Value)
    ensures
        json_content(value) == JsonView::Text(text@),
{
    serde_json::Value::String(text)
}

/// `serde_json::Value::Array` of `items`.
#[verifier::external_body]
fn array_json(items: Vec<serde_json::Value>) -> (value: serde_json::Value)
    ensures
        json_content(value) == JsonView::Array(contents(items@)),
{
    serde_json::Value::Array(items)
}

/// `serde_json::Value::Object` of a `serde_json::Map` that is collected
/// from `members`. What the map holds of them is named [`collected`].
#[verifier::external_body]
fn object_json(members: Vec<(String, serde_json::Value)>) -> (value: serde_json::Value)
    ensures
        json_content(value) == JsonView::Object(collected(member_contents(members@))),
{
    serde_json::Value::Object(members.into_iter().collect())
}

/// The JSON number of a parsed number, from its signed integer probe and
/// its binary64 probe: the integer probe is taken first, and the binary64
/// probe only where the first gave nothing; a binary64 number that is an
/// integer which fits 64 signed bits is that integer. A number for which both
/// give nothing is refused.
pub fn number_of(integer: Option<i64>, float_bits: Option<u64>) -> (number: Result<
    JsonValue,
    MarshalError,
>)
    ensures
        match probed(integer, float_bits) {
            Some(expected) => number is Ok && number->Ok_0@ == expected,
            None => number is Err && number->Err_0 == MarshalError::ParseFailure,
        },
{
    match integer {
        Some(i) => Ok(JsonValue::Integer(i)),
        None => match float_bits {
            Some(bits) => match float_integer(bits) {
                Some(n) => Ok(JsonValue::Integer(n)),
                None => Ok(JsonValue::Float(bits)),
            },
            None => Err(MarshalError::ParseFailure),
        },
    }
}

/// Whether a tree nests arrays and objects at most `depth` levels deep.
pub open spec fn within(json: JsonView, depth: nat) -> bool
    decreases json,
{
    match json {
        JsonView::Array(items) => depth > 0 && forall|i: int|
            0 <= i < items.len() ==> within(#[trigger] items[i], (depth - 1) as nat),
        JsonView::Object(members) => depth > 0 && forall|i: int|
            0 <= i < members.len() ==> within((#[trigger] members[i]).1, (depth - 1) as nat),
        _ => true,
    }
}

/// Reads a parsed JSON value down to `depth` levels of arrays and objects.
/// A value that nests deeper is refused.
pub fn from_serde(value: &serde_json::Value, depth: usize) -> (json: Result<
    JsonValue,
    MarshalError,
>)
    ensures
        match json {
            Ok(tree) => within(json_content(*value), depth as nat) && tree@ == reading(
                json_content(*value),
            ),
            Err(e) => !within(json_content(*value), depth as nat) && e
                == MarshalError::ParseFailure,
        },
    decreases depth,
{
    let ghost content = json_content(*value);
    match json_node(value) {
        JsonNode::Null => Ok(JsonValue::Null),
        JsonNode::Bool(b) => Ok(JsonValue::Bool(b)),
        JsonNode::Number(integer, unsigned, float_bits) => {
            let number = number_of(integer, float_bits);
            assert(number is Ok);
            number
        },
        JsonNode::Text(s) => Ok(JsonValue::Text(s)),
        JsonNode::Array(parsed) => {
            if depth == 0 {
                return Err(MarshalError::ParseFailure);
            }
            let mut items: Vec<JsonValue> = Vec::new();
            let mut i: usize = 0;
            while i < parsed.len()
                invariant
                    i <= parsed@.len(),
                    depth > 0,
                    content == json_content(*value),
                    content == JsonView::Array(contents(parsed@)),
                    items@.len() == i,
                    forall|j: int|
                        0 <= j < i ==> (#[trigger] items@[j])@ == reading(contents(parsed@)[j]),
                    forall|j: int|
                        0 <= j < i ==> within(
                            #[trigger] contents(parsed@)[j],
                            (depth - 1) as nat,
                        ),
                decreases parsed@.len() - i,
            {
                match from_serde(&parsed[i], depth - 1) {
                    Ok(item) => items.push(item),
                    Err(e) => {
                        assert(contents(parsed@)[i as int] == json_content(parsed@[i as int]));
                        assert(!within(contents(parsed@)[i as int], (depth - 1) as nat));
                        assert(content->Array_0[i as int] == contents(parsed@)[i as int]);
                        assert(!within(content, depth as nat));
                        return Err(e);
                    },
                }
                i = i + 1;
            }
            proof {
                lemma_array_view(items);
                assert(item_views(items@) =~= reading_items(contents(parsed@)));
            }
            Ok(JsonValue::Array(items))
        },
        JsonNode::Object(parsed) => {
            if depth == 0 {
                return Err(MarshalError::ParseFailure);
            }
            let mut members: Vec<(String, JsonValue)> = Vec::new();
            let mut i: usize = 0;
            while i < parsed.len()
                invariant
                    i <= parsed@.len(),
                    depth > 0,
                    content == json_content(*value),
                    content == JsonView::Object(member_contents(parsed@)),
                    members@.len() == i,
                    forall|j: int|
                        0 <= j < i ==> (#[trigger] members@[j]).0@ == member_contents(
                            parsed@,
                        )[j].0 && members@[j].1@ == reading(member_contents(parsed@)[j].1),
                    forall|j: int|
                        0 <= j < i ==> within(
                            (#[trigger] member_contents(parsed@)[j]).1,
                            (depth - 1) as nat,
                        ),
                decreases parsed@.len() - i,
            {
                match from_serde(&parsed[i].1, depth - 1) {
                    Ok(member) => members.push((parsed[i].0.clone(), member)),
                    Err(e) => {
                        assert(member_contents(parsed@)[i as int].1 == json_content(
                            parsed@[i as int].1,
                        ));
                        assert(!within(member_contents(parsed@)[i as int].1, (depth - 1) as nat));
                        assert(content->Object_0[i as int] == member_contents(parsed@)[i as int]);
                        assert(!within(content, depth as nat));
                        return Err(e);
                    },
                }
                i = i + 1;
            }
            proof {
                lemma_object_view(members);
                assert(member_views(members@) =~= reading_members(member_contents(parsed@)));
            }
            Ok(JsonValue::Object(members))
        },
    }
}

/// Whether every number of the tree that is no integer is finite.
pub open spec fn printable(json: JsonView) -> bool
    decreases json,
{
    match json {
        JsonView::Float(bits) => is_finite(bits),
        JsonView::Array(items) => forall|i: int|
            0 <= i < items.len() ==> printable(#[trigger] items[i]),
        JsonView::Object(members) => forall|i: int|
            0 <= i < members.len() ==> printable((#[trigger] members[i]).1),
        _ => true,
    }
}

/// The members of an object, each value as the JSON writer holds it.
pub open spec fn stored_members(members: Seq<(Seq<char>, JsonView)>) -> Seq<(Seq<char>, JsonView)>
    decreases members,
{
    Seq::new(
        members.len(),
        |i: int|
            if 0 <= i < members.len() {
                (members[i].0, stored(members[i].1))
            } else {
                (Seq::empty(), JsonView::Null)
            },
    )
}

/// The items of an array, each as the JSON writer holds it.
pub open spec fn stored_items(items: Seq<JsonView>) -> Seq<JsonView>
    decreases items,
{
    Seq::new(
        items.len(),
        |i: int|
            if 0 <= i < items.len() {
                stored(items[i])
            } else {
                JsonView::Null
            },
    )
}

/// The tree as the JSON writer holds it: the members of each object as a
/// map holds them.
pub open spec fn stored(json: JsonView) -> JsonView
    decreases json,
{
    match json {
        JsonView::Array(items) => JsonView::Array(stored_items(items)),
        JsonView::Object(members) => JsonView::Object(collected(stored_members(members))),
        _ => json,
    }
}

/// Builds the value that the JSON writer takes. A tree with a number that
/// is not finite has no JSON form and is refused as unsupported.
pub fn to_serde(json: &JsonValue) -> (built: Result<serde_json::Value, MarshalError>)
    ensures
        match built {
            Ok(value) => printable(json@) && json_content(value) == stored(json@),
            Err(e) => !printable(json@) && e == MarshalError::Unsupported,
        },
    decreases json,
{
    match json {
        JsonValue::Null => Ok(null_json()),
        JsonValue::Bool(b) => Ok(bool_json(*b)),
        JsonValue::Integer(i) => Ok(integer_json(*i)),
        JsonValue::Float(bits) => match float_json(*bits) {
            Some(number) => Ok(number),
            None => Err(MarshalError::Unsupported),
        },
        JsonValue::Text(s) => Ok(text_json(s.clone())),
        JsonValue::Array(items) => {
            proof {
                lemma_array_view(*items);
            }
            let mut built: Vec<serde_json::Value> = Vec::new();
            let mut i: usize = 0;
            while i < items.len()
                invariant
                    i <= items@.len(),
                    *json == JsonValue::Array(*items),
                    json@ == JsonView::Array(item_views(items@)),
                    built@.len() == i,
                    forall|j: int| 0 <= j < i ==> printable(#[trigger] item_views(items@)[j]),
                    forall|j: int|
                        0 <= j < i ==> json_content(#[trigger] built@[j]) == stored(
                            item_views(items@)[j],
                        ),
                decreases items@.len() - i,
            {
                assert(item_views(items@)[i as int] == items@[i as int]@);
                match to_serde(&items[i]) {
                    Ok(item) => built.push(item),
                    Err(e) => {
                        assert(!printable(item_views(items@)[i as int]));
                        return Err(e);
                    },
                }
                i = i + 1;
            }
            proof {
                assert forall|j: int| 0 <= j < items@.len() implies printable(
                    #[trigger] item_views(items@)[j],
                ) by {}
                assert(printable(json@));
                assert(contents(built@) =~= stored_items(item_views(items@)));
            }
            Ok(array_json(built))
        },
        JsonValue::Object(members) => {
            proof {
                lemma_object_view(*members);
            }
            let mut built: Vec<(String, serde_json::Value)> = Vec::new();
            let mut i: usize = 0;
            while i < members.len()
                invariant
                    i <= members@.len(),
                    *json == JsonValue::Object(*members),
                    json@ == JsonView::Object(member_views(members@)),
                    built@.len() == i,
                    forall|j: int|
                        0 <= j < i ==> printable((#[trigger] member_views(members@)[j]).1),
                    forall|j: int|
                        0 <= j < i ==> (#[trigger] built@[j]).0@ == member_views(members@)[j].0
                            && json_content(built@[j].1) == stored(member_views(members@)[j].1),
                decreases members@.len() - i,
            {
                assert(member_views(members@)[i as int].1 == members@[i as int].1@);
                match to_serde(&members[i].1) {
                    Ok(member) => built.push((members[i].0.clone(), member)),
                    Err(e) => {
                        assert(!printable(member_views(members@)[i as int].1));
                        return Err(e);
                    },
                }
                i = i + 1;
            }
            proof {
                assert forall|j: int| 0 <= j < members@.len() implies printable(
                    (#[trigger] member_views(members@)[j]).1,
                ) by {}
                assert(printable(json@));
                assert(member_contents(built@) =~= stored_members(member_views(members@)));
            }
            Ok(object_json(built))
        },
    }
}

/// Whether every array of the tree is short enough for its positions,
/// counted from 1, to be integer keys.
pub fn fits(json: &JsonValue) -> (r: bool)
    ensures
        r == keys_fit(json@),
    decreases json,
{
    match json {
        JsonValue::Array(items) => {
            proof {
                lemma_array_view(*items);
            }
            if items.len() as u64 > 0x7fff_ffff_ffff_ffffu64 {
                return false;
            }
            let mut i: usize = 0;
            while i < items.len()
                invariant
                    i <= items@.len(),
                    items@.len() <= i64::MAX,
                    *json == JsonValue::Array(*items),
                    json@ == JsonView::Array(item_views(items@)),
                    forall|j: int| 0 <= j < i ==> keys_fit(#[trigger] item_views(items@)[j]),
                decreases items@.len() - i,
            {
                assert(item_views(items@)[i as int] == items@[i as int]@);
                if !fits(&items[i]) {
                    return false;
                }
                i = i + 1;
            }
            true
        },
        JsonValue::Object(members) => {
            proof {
                lemma_object_view(*members);
            }
            let mut i: usize = 0;
            while i < members.len()
                invariant
                    i <= members@.len(),
                    *json == JsonValue::Object(*members),
                    json@ == JsonView::Object(member_views(members@)),
                    forall|j: int|
                        0 <= j < i ==> keys_fit((#[trigger] member_views(members@)[j]).1),
                decreases members@.len() - i,
            {
                assert(member_views(members@)[i as int].1 == members@[i as int].1@);
                if !fits(&members[i].1) {
                    assert(!keys_fit((#[trigger] json@->Object_0[i as int]).1));
                    return false;
                }
                i = i + 1;
            }
            true
        },
        _ => true,
    }
}

/// Parses a JSON text. A text that is not JSON is refused, and so is one
/// whose arrays and objects nest more than [`JSON_DEPTH`] levels deep. A
/// number is read as an integer where it is a signed 64-bit integer, and
/// else as a binary64 number, or as the integer that this number is where it
/// is one that fits 64 signed bits.
pub fn parse_json(text: &str) -> (json: Result<JsonValue, MarshalError>)
    ensures
        match json {
            Ok(tree) => parsed(text@) is Some && tree@ == reading(parsed(text@)->Some_0)
                && within(parsed(text@)->Some_0, JSON_DEPTH as nat),
            Err(e) => e == MarshalError::ParseFailure && (parsed(text@) is None || !within(
                parsed(text@)->Some_0,
                JSON_DEPTH as nat,
            )),
        },
{
    match parse_text(text) {
        Some(value) => from_serde(&value, JSON_DEPTH),
        None => Err(MarshalError::ParseFailure),
    }
}

/// Writes a JSON tree as text. A tree with a number that is not finite is
/// refused as unsupported.
pub fn print_json(json: &JsonValue) -> (text: Result<String, MarshalError>)
    ensures
        match text {
            Ok(written) => printable(json@) && written@ == printed(stored(json@)),
            Err(e) => !printable(json@) && e == MarshalError::Unsupported,
        },
{
    match to_serde(json) {
        Ok(built) => Ok(print_text(&built)),
        Err(e) => Err(e),
    }
}

} // verus!

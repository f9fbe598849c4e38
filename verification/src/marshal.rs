//! The value marshaller: conversion between a JSON tree and the dynamic
//! values of the scripting engine.

use vstd::prelude::*;
use vstd::string::*;

verus! {

/// A JSON tree. A number is an integer or, by its IEEE 754 bits, a binary64
/// number. An object holds its members in insertion order.
#[derive(Debug)]
pub enum JsonValue {
    Null,
    Bool(bool),
    Integer(i64),
    Float(u64),
    Text(String),
    Array(Vec<JsonValue>),
    Object(Vec<(String, JsonValue)>),
}

/// The mathematical value of a [`JsonValue`].
pub ghost enum JsonView {
    Null,
    Bool(bool),
    Integer(int),
    Float(u64),
    Text(Seq<char>),
    Array(Seq<JsonView>),
    Object(Seq<(Seq<char>, JsonView)>),
}

/// The mathematical value of a JSON tree.
pub open spec fn json_view(json: JsonValue) -> JsonView
    decreases json,
{
    match json {
        JsonValue::Null => JsonView::Null,
        JsonValue::Bool(b) => JsonView::Bool(b),
        JsonValue::Integer(i) => JsonView::Integer(i as int),
        JsonValue::Float(bits) => JsonView::Float(bits),
        JsonValue::Text(s) => JsonView::Text(s@),
        JsonValue::Array(items) => JsonView::Array(
            Seq::new(
                items@.len(),
                |i: int|
                    if 0 <= i < items@.len() {
                        json_view(items@[i])
                    } else {
                        JsonView::Null
                    },
            ),
        ),
        JsonValue::Object(members) => JsonView::Object(
            Seq::new(
                members@.len(),
                |i: int|
                    if 0 <= i < members@.len() {
                        (members@[i].0@, json_view(members@[i].1))
                    } else {
                        (Seq::empty(), JsonView::Null)
                    },
            ),
        ),
    }
}

impl View for JsonValue {
    type V = JsonView;

    open spec fn view(&self) -> JsonView {
        json_view(*self)
    }
}

/// The key of an entry of a keyed collection.
#[derive(Debug, Clone, PartialEq)]
pub enum DynamicKey {
    Integer(i64),
    Text(String),
}

/// The mathematical value of a [`DynamicKey`].
pub ghost enum KeyView {
    Integer(int),
    Text(Seq<char>),
}

impl View for DynamicKey {
    type V = KeyView;

    open spec fn view(&self) -> KeyView {
        match self {
            DynamicKey::Integer(i) => KeyView::Integer(*i as int),
            DynamicKey::Text(s) => KeyView::Text(s@),
        }
    }
}

/// A dynamic value of the scripting engine. A number that is not an integer
/// is held by its IEEE 754 bits. A table is a keyed collection, its entries
/// in the order in which the engine walks them. Functions and opaque handles
/// stand for the kinds of value that have no JSON form.
#[derive(Debug)]
pub enum DynamicValue {
    Nil,
    Boolean(bool),
    Integer(i64),
    Number(u64),
    Text(String),
    Table(Vec<(DynamicKey, DynamicValue)>),
    Function,
    Opaque,
}

/// The mathematical value of a [`DynamicValue`].
pub ghost enum DynamicView {
    Nil,
    Boolean(bool),
    Integer(int),
    Number(u64),
    Text(Seq<char>),
    Table(Seq<(KeyView, DynamicView)>),
    Function,
    Opaque,
}

/// The mathematical value of a dynamic value.
pub open spec fn dynamic_view(value: DynamicValue) -> DynamicView
    decreases value,
{
    match value {
        DynamicValue::Nil => DynamicView::Nil,
        DynamicValue::Boolean(b) => DynamicView::Boolean(b),
        DynamicValue::Integer(i) => DynamicView::Integer(i as int),
        DynamicValue::Number(bits) => DynamicView::Number(bits),
        DynamicValue::Text(s) => DynamicView::Text(s@),
        DynamicValue::Table(entries) => DynamicView::Table(
            Seq::new(
                entries@.len(),
                |i: int|
                    if 0 <= i < entries@.len() {
                        (entries@[i].0@, dynamic_view(entries@[i].1))
                    } else {
                        (KeyView::Integer(0), DynamicView::Nil)
                    },
            ),
        ),
        DynamicValue::Function => DynamicView::Function,
        DynamicValue::Opaque => DynamicView::Opaque,
    }
}

impl View for DynamicValue {
    type V = DynamicView;

    open spec fn view(&self) -> DynamicView {
        dynamic_view(*self)
    }
}

/// Why a value could not be converted.
#[derive(Debug, PartialEq, Eq, Structural, Clone, Copy)]
pub enum MarshalError {
    /// The value, or a value inside it, has no JSON form.
    Unsupported,
    /// The text is not JSON, or not JSON of the shape asked for.
    ParseFailure,
}

/// The views of the items of an array.
pub open spec fn item_views(items: Seq<JsonValue>) -> Seq<JsonView> {
    Seq::new(items.len(), |i: int| items[i]@)
}

/// The views of the members of an object.
pub open spec fn member_views(members: Seq<(String, JsonValue)>) -> Seq<(Seq<char>, JsonView)> {
    Seq::new(members.len(), |i: int| (members[i].0@, members[i].1@))
}

/// The views of the entries of a table.
pub open spec fn entry_views(entries: Seq<(DynamicKey, DynamicValue)>) -> Seq<
    (KeyView, DynamicView),
> {
    Seq::new(entries.len(), |i: int| (entries[i].0@, entries[i].1@))
}

/// The view of an array is the array of the views of its items.
pub proof fn lemma_array_view(items: Vec<JsonValue>)
    ensures
        JsonValue::Array(items)@ == JsonView::Array(item_views(items@)),
{
    let whole = JsonValue::Array(items);
    assert(whole->Array_0 == items);
    assert(JsonValue::Array(items)@->Array_0 =~= item_views(items@));
}

/// The view of an object is the object of the views of its members.
pub proof fn lemma_object_view(members: Vec<(String, JsonValue)>)
    ensures
        JsonValue::Object(members)@ == JsonView::Object(member_views(members@)),
{
    let whole = JsonValue::Object(members);
    assert(whole->Object_0 == members);
    assert(JsonValue::Object(members)@->Object_0 =~= member_views(members@));
}

/// The view of a table is the table of the views of its entries.
pub proof fn lemma_table_view(entries: Vec<(DynamicKey, DynamicValue)>)
    ensures
        DynamicValue::Table(entries)@ == DynamicView::Table(entry_views(entries@)),
{
    let whole = DynamicValue::Table(entries);
    assert(whole->Table_0 == entries);
    assert(DynamicValue::Table(entries)@->Table_0 =~= entry_views(entries@));
}

/// The integer that the binary64 number with the given IEEE 754 bits is,
/// where it is one that fits 64 signed bits: with exponent field `e` and
/// fraction field `f`, the number is `(2^52 + f) * 2^(e - 1075)`, negated
/// where the sign bit is set; zero is the integer 0 whatever its sign.
pub open spec fn integer_of_float(bits: u64) -> Option<int> {
    let exponent = (bits >> 52) & 0x7ff;
    let fraction = bits & 0xf_ffff_ffff_ffff;
    let mantissa = fraction | 0x10_0000_0000_0000;
    let negative = bits >> 63 == 1;
    if exponent == 0 {
        if fraction == 0 {
            Some(0int)
        } else {
            None
        }
    } else if exponent == 0x7ff {
        None
    } else if exponent >= 1075 {
        if exponent <= 1085 {
            let magnitude = mantissa << ((exponent - 1075) as u64);
            Some(
                if negative {
                    -(magnitude as int)
                } else {
                    magnitude as int
                },
            )
        } else if exponent == 1086 && fraction == 0 && negative {
            Some(-0x8000_0000_0000_0000int)
        } else {
            None
        }
    } else if exponent >= 1023 {
        let shift = (1075 - exponent) as u64;
        if mantissa & (((1u64 << shift) - 1) as u64) == 0 {
            let magnitude = mantissa >> shift;
            Some(
                if negative {
                    -(magnitude as int)
                } else {
                    magnitude as int
                },
            )
        } else {
            None
        }
    } else {
        None
    }
}

/// The JSON number that a binary64 number is read as: the integer that it
/// is, where it is one that fits 64 signed bits, and else itself.
pub open spec fn normal_number(bits: u64) -> JsonView {
    match integer_of_float(bits) {
        Some(n) => JsonView::Integer(n),
        None => JsonView::Float(bits),
    }
}

/// The integer that the binary64 number with the given bits is, where it
/// is one that fits 64 signed bits.
pub fn float_integer(bits: u64) -> (integer: Option<i64>)
    ensures
        integer is Some <==> integer_of_float(bits) is Some,
        integer is Some ==> integer->Some_0 as int == integer_of_float(bits)->Some_0,
{
    let exponent: u64 = (bits >> 52) & 0x7ff;
    let fraction: u64 = bits & 0xf_ffff_ffff_ffff;
    let mantissa: u64 = fraction | 0x10_0000_0000_0000;
    let negative = bits >> 63 == 1;
    assert(mantissa < 0x20_0000_0000_0000) by (bit_vector)
        requires
            mantissa == (bits & 0xf_ffff_ffff_ffff) | 0x10_0000_0000_0000,
    ;
    assert(exponent <= 0x7ff) by (bit_vector)
        requires
            exponent == (bits >> 52) & 0x7ff,
    ;
    if exponent == 0 {
        if fraction == 0 {
            Some(0)
        } else {
            None
        }
    } else if exponent == 0x7ff {
        None
    } else if exponent >= 1075 {
        if exponent <= 1085 {
            let by: u64 = exponent - 1075;
            let magnitude: u64 = mantissa << by;
            assert(magnitude < 0x8000_0000_0000_0000) by (bit_vector)
                requires
                    magnitude == mantissa << by,
                    mantissa < 0x20_0000_0000_0000,
                    by <= 10,
            ;
            if negative {
                Some(-(magnitude as i64))
            } else {
                Some(magnitude as i64)
            }
        } else if exponent == 1086 && fraction == 0 && negative {
            Some(-0x8000_0000_0000_0000)
        } else {
            None
        }
    } else if exponent >= 1023 {
        let shift: u64 = 1075 - exponent;
        assert((1u64 << shift) >= 1) by (bit_vector)
            requires
                shift <= 52,
        ;
        if mantissa & ((1u64 << shift) - 1) == 0 {
            let magnitude: u64 = mantissa >> shift;
            assert(magnitude < 0x20_0000_0000_0000) by (bit_vector)
                requires
                    magnitude == mantissa >> shift,
                    mantissa < 0x20_0000_0000_0000,
            ;
            if negative {
                Some(-(magnitude as i64))
            } else {
                Some(magnitude as i64)
            }
        } else {
            None
        }
    } else {
        None
    }
}

/// The items of an array, each in its normal form.
pub open spec fn normal_items(items: Seq<JsonView>) -> Seq<JsonView>
    decreases items,
{
    Seq::new(
        items.len(),
        |i: int|
            if 0 <= i < items.len() {
                normal(items[i])
            } else {
                JsonView::Null
            },
    )
}

/// The members of an object, each value in its normal form.
pub open spec fn normal_members(members: Seq<(Seq<char>, JsonView)>) -> Seq<(Seq<char>, JsonView)>
    decreases members,
{
    Seq::new(
        members.len(),
        |i: int|
            if 0 <= i < members.len() {
                (members[i].0, normal(members[i].1))
            } else {
                (Seq::empty(), JsonView::Null)
            },
    )
}

/// The normal form of a JSON tree: every binary64 number that is an integer
/// which fits 64 signed bits is replaced by that integer.
pub open spec fn normal(json: JsonView) -> JsonView
    decreases json,
{
    match json {
        JsonView::Float(bits) => normal_number(bits),
        JsonView::Array(items) => JsonView::Array(normal_items(items)),
        JsonView::Object(members) => JsonView::Object(normal_members(members)),
        _ => json,
    }
}

/// Whether every array of the tree is short enough for its positions,
/// counted from 1, to be integer keys.
pub open spec fn keys_fit(json: JsonView) -> bool
    decreases json,
{
    match json {
        JsonView::Array(items) => items.len() <= i64::MAX && forall|i: int|
            0 <= i < items.len() ==> keys_fit(#[trigger] items[i]),
        JsonView::Object(members) => forall|i: int|
            0 <= i < members.len() ==> keys_fit((#[trigger] members[i]).1),
        _ => true,
    }
}

/// The dynamic value of a JSON tree: null, booleans, integers and strings
/// stay what they are; a binary64 number becomes the integer that it is,
/// where it is one that fits 64 signed bits, and else stays what it is; an
/// array becomes the table of its items under the keys 1, 2, ... in order; an
/// object becomes the table of its members under their names, in order.
pub open spec fn dynamic_of(json: JsonView) -> DynamicView
    decreases json,
{
    match json {
        JsonView::Null => DynamicView::Nil,
        JsonView::Bool(b) => DynamicView::Boolean(b),
        JsonView::Integer(i) => DynamicView::Integer(i),
        JsonView::Float(bits) => match integer_of_float(bits) {
            Some(n) => DynamicView::Integer(n),
            None => DynamicView::Number(bits),
        },
        JsonView::Text(s) => DynamicView::Text(s),
        JsonView::Array(items) => DynamicView::Table(
            Seq::new(
                items.len(),
                |i: int|
                    if 0 <= i < items.len() {
                        (KeyView::Integer(i + 1), dynamic_of(items[i]))
                    } else {
                        (KeyView::Integer(0), DynamicView::Nil)
                    },
            ),
        ),
        JsonView::Object(members) => DynamicView::Table(
            Seq::new(
                members.len(),
                |i: int|
                    if 0 <= i < members.len() {
                        (KeyView::Text(members[i].0), dynamic_of(members[i].1))
                    } else {
                        (KeyView::Integer(0), DynamicView::Nil)
                    },
            ),
        ),
    }
}

/// Converts a JSON tree to the dynamic value that stands for it.
pub fn to_dynamic(json: &JsonValue) -> (value: DynamicValue)
    requires
        keys_fit(json@),
    ensures
        value@ == dynamic_of(json@),
    decreases json,
{
    match json {
        JsonValue::Null => DynamicValue::Nil,
        JsonValue::Bool(b) => DynamicValue::Boolean(*b),
        JsonValue::Integer(i) => DynamicValue::Integer(*i),
        JsonValue::Float(bits) => match float_integer(*bits) {
            Some(n) => DynamicValue::Integer(n),
            None => DynamicValue::Number(*bits),
        },
        JsonValue::Text(s) => DynamicValue::Text(s.clone()),
        JsonValue::Array(items) => {
            proof {
                lemma_array_view(*items);
            }
            let mut entries: Vec<(DynamicKey, DynamicValue)> = Vec::new();
            let mut i: usize = 0;
            while i < items.len()
                invariant
                    i <= items@.len(),
                    items@.len() <= i64::MAX,
                    *json == JsonValue::Array(*items),
                    json@ == JsonView::Array(item_views(items@)),
                    keys_fit(json@),
                    entries@.len() == i,
                    forall|j: int|
                        0 <= j < i ==> (#[trigger] entries@[j]).0@ == KeyView::Integer(j + 1)
                            && entries@[j].1@ == dynamic_of(items@[j]@),
                decreases items@.len() - i,
            {
                assert(keys_fit(item_views(items@)[i as int]));
                let value = to_dynamic(&items[i]);
                entries.push((DynamicKey::Integer((i + 1) as i64), value));
                i = i + 1;
            }
            proof {
                lemma_table_view(entries);
                assert(entry_views(entries@) =~= dynamic_of(json@)->Table_0);
            }
            DynamicValue::Table(entries)
        },
        JsonValue::Object(members) => {
            proof {
                lemma_object_view(*members);
            }
            let mut entries: Vec<(DynamicKey, DynamicValue)> = Vec::new();
            let mut i: usize = 0;
            while i < members.len()
                invariant
                    i <= members@.len(),
                    *json == JsonValue::Object(*members),
                    json@ == JsonView::Object(member_views(members@)),
                    keys_fit(json@),
                    entries@.len() == i,
                    forall|j: int|
                        0 <= j < i ==> (#[trigger] entries@[j]).0@ == KeyView::Text(
                            members@[j].0@,
                        ) && entries@[j].1@ == dynamic_of(members@[j].1@),
                decreases members@.len() - i,
            {
                assert(keys_fit(member_views(members@)[i as int].1)) by {
                    let listed = member_views(members@);
                    assert(json@->Object_0 == listed);
                    assert(keys_fit(listed[i as int].1));
                }
                let value = to_dynamic(&members[i].1);
                entries.push((DynamicKey::Text(members[i].0.clone()), value));
                i = i + 1;
            }
            proof {
                lemma_table_view(entries);
                assert(entry_views(entries@) =~= dynamic_of(json@)->Table_0);
            }
            DynamicValue::Table(entries)
        },
    }
}

/// The character of the decimal digit `d`.
pub open spec fn digit_char(d: int) -> char {
    if d == 0 {
        '0'
    } else if d == 1 {
        '1'
    } else if d == 2 {
        '2'
    } else if d == 3 {
        '3'
    } else if d == 4 {
        '4'
    } else if d == 5 {
        '5'
    } else if d == 6 {
        '6'
    } else if d == 7 {
        '7'
    } else if d == 8 {
        '8'
    } else {
        '9'
    }
}

/// The decimal digits of `n`, most significant first, without leading zeros.
pub open spec fn digits(n: nat) -> Seq<char>
    decreases n,
{
    if n < 10 {
        seq![digit_char(n as int)]
    } else {
        digits(n / 10).push(digit_char((n % 10) as int))
    }
}

/// The decimal text of `i`: its digits, behind a minus sign where it is
/// negative.
pub open spec fn decimal(i: int) -> Seq<char> {
    if i < 0 {
        seq!['-'] + digits((-i) as nat)
    } else {
        digits(i as nat)
    }
}

/// The text of one decimal digit.
fn digit_text(d: u64) -> (text: &'static str)
    requires
        d < 10,
    ensures
        text@ == seq![digit_char(d as int)],
{
    proof {
        reveal_strlit("0");
        reveal_strlit("1");
        reveal_strlit("2");
        reveal_strlit("3");
        reveal_strlit("4");
        reveal_strlit("5");
        reveal_strlit("6");
        reveal_strlit("7");
        reveal_strlit("8");
        reveal_strlit("9");
    }
    let text = if d == 0 {
        "0"
    } else if d == 1 {
        "1"
    } else if d == 2 {
        "2"
    } else if d == 3 {
        "3"
    } else if d == 4 {
        "4"
    } else if d == 5 {
        "5"
    } else if d == 6 {
        "6"
    } else if d == 7 {
        "7"
    } else if d == 8 {
        "8"
    } else {
        "9"
    };
    assert(text@ =~= seq![digit_char(d as int)]);
    text
}

/// Appends the decimal digits of `n` to `text`.
fn append_digits(text: &mut String, n: u64)
    ensures
        final(text)@ == old(text)@ + digits(n as nat),
    decreases n,
{
    if n >= 10 {
        append_digits(text, n / 10);
    }
    text.append(digit_text(n % 10));
    proof {
        if n >= 10 {
            assert(final(text)@ =~= old(text)@ + digits((n / 10) as nat).push(
                digit_char((n % 10) as int),
            ));
        } else {
            assert(final(text)@ =~= old(text)@ + seq![digit_char(n as int)]);
        }
    }
}

/// The decimal text of an integer.
pub fn decimal_text(i: i64) -> (text: String)
    ensures
        text@ == decimal(i as int),
{
    let mut text = String::new();
    if i < 0 {
        let magnitude: u64 = if i == i64::MIN {
            9223372036854775808u64
        } else {
            (-i) as u64
        };
        text.append("-");
        proof {
            reveal_strlit("-");
            assert(text@ =~= seq!['-']);
        }
        append_digits(&mut text, magnitude);
    } else {
        append_digits(&mut text, i as u64);
        assert(text@ =~= digits(i as nat));
    }
    text
}

/// Whether some entry has the integer `k` as its key.
pub open spec fn has_key(entries: Seq<(KeyView, DynamicView)>, k: int) -> bool {
    exists|i: int| 0 <= i < entries.len() && (#[trigger] entries[i]).0 == KeyView::Integer(k)
}

/// Whether the keys of a keyed collection are exactly the integers from 1
/// to the number of its entries: every key is one of them, no key occurs
/// twice, and each of them is a key.
pub open spec fn sequence_keys(entries: Seq<(KeyView, DynamicView)>) -> bool {
    &&& forall|i: int|
        0 <= i < entries.len() ==> (#[trigger] entries[i]).0 is Integer && 1
            <= entries[i].0->Integer_0 <= entries.len()
    &&& forall|i: int, j: int|
        0 <= i < j < entries.len() ==> (#[trigger] entries[i]).0 != (#[trigger] entries[j]).0
    &&& forall|k: int| 1 <= k <= entries.len() ==> #[trigger] has_key(entries, k)
}

/// The index of an entry whose key is the integer `k`.
pub open spec fn position(entries: Seq<(KeyView, DynamicView)>, k: int) -> int {
    choose|i: int| 0 <= i < entries.len() && (#[trigger] entries[i]).0 == KeyView::Integer(k)
}

/// Whether the bits are those of a finite binary64 number: neither an
/// infinity nor a NaN.
pub open spec fn is_finite(bits: u64) -> bool {
    (bits >> 52) & 0x7ff != 0x7ff
}

/// The text that a key has as the name of an object member.
pub open spec fn key_text(key: KeyView) -> Seq<char> {
    match key {
        KeyView::Integer(i) => decimal(i),
        KeyView::Text(s) => s,
    }
}

/// Whether a dynamic value has a JSON form: it holds no function, no opaque
/// handle and no number that is not finite.
pub open spec fn convertible(value: DynamicView) -> bool
    decreases value,
{
    match value {
        DynamicView::Number(bits) => is_finite(bits),
        DynamicView::Table(entries) => forall|i: int|
            0 <= i < entries.len() ==> convertible((#[trigger] entries[i]).1),
        DynamicView::Function => false,
        DynamicView::Opaque => false,
        _ => true,
    }
}

/// The JSON tree of a convertible dynamic value. A table whose keys are
/// exactly 1 to N is the array of its values in the order of their keys; any
/// other table is the object of its entries in their order, each key as text.
pub open spec fn json_of(value: DynamicView) -> JsonView
    decreases value,
{
    match value {
        DynamicView::Nil => JsonView::Null,
        DynamicView::Boolean(b) => JsonView::Bool(b),
        DynamicView::Integer(i) => JsonView::Integer(i),
        DynamicView::Number(bits) => JsonView::Float(bits),
        DynamicView::Text(s) => JsonView::Text(s),
        DynamicView::Table(entries) => if sequence_keys(entries) {
            JsonView::Array(
                Seq::new(
                    entries.len(),
                    |k: int|
                        {
                            let at = position(entries, k + 1);
                            if 0 <= at < entries.len() {
                                json_of(entries[at].1)
                            } else {
                                JsonView::Null
                            }
                        },
                ),
            )
        } else {
            JsonView::Object(
                Seq::new(
                    entries.len(),
                    |i: int|
                        if 0 <= i < entries.len() {
                            (key_text(entries[i].0), json_of(entries[i].1))
                        } else {
                            (Seq::empty(), JsonView::Null)
                        },
                ),
            )
        },
        DynamicView::Function => JsonView::Null,
        DynamicView::Opaque => JsonView::Null,
    }
}

/// Where the keys of `entries` are exactly 1 to N, the index of the entry of
/// each key, in the order of the keys.
fn key_order(entries: &Vec<(DynamicKey, DynamicValue)>) -> (order: Option<Vec<usize>>)
    ensures
        order is Some <==> sequence_keys(entry_views(entries@)),
        order matches Some(o) ==> o@.len() == entries@.len() && forall|k: int|
            0 <= k < o@.len() ==> 0 <= #[trigger] o@[k] < entries@.len() && entry_views(
                entries@,
            )[o@[k] as int].0 == KeyView::Integer(k + 1),
{
    let n = entries.len();
    let ghost views = entry_views(entries@);
    let mut order: Vec<usize> = Vec::new();
    let mut filled: usize = 0;
    while filled < n
        invariant
            filled <= n,
            order@.len() == filled,
            forall|s: int| 0 <= s < filled ==> order@[s] == n,
        decreases n - filled,
    {
        order.push(n);
        filled = filled + 1;
    }
    let mut i: usize = 0;
    while i < n
        invariant
            i <= n,
            n == entries@.len(),
            views == entry_views(entries@),
            order@.len() == n,
            forall|j: int|
                0 <= j < i ==> (#[trigger] views[j]).0 is Integer && 1 <= views[j].0->Integer_0
                    <= n && order@[views[j].0->Integer_0 - 1] == j,
            forall|s: int|
                0 <= s < n ==> #[trigger] order@[s] == n || (order@[s] < i
                    && views[order@[s] as int].0 == KeyView::Integer(s + 1)),
        decreases n - i,
    {
        assert(views[i as int].0 == entries@[i as int].0@);
        match &entries[i].0 {
            DynamicKey::Integer(key) => {
                let key: i64 = *key;
                if key < 1 || key as u64 > n as u64 {
                    return None;
                }
                let slot: usize = (key - 1) as usize;
                if order[slot] != n {
                    proof {
                        let earlier = order@[slot as int] as int;
                        assert(views[earlier].0 == views[i as int].0);
                    }
                    return None;
                }
                order.set(slot, i);
            },
            DynamicKey::Text(_) => {
                return None;
            },
        }
        i = i + 1;
    }
    let mut s: usize = 0;
    while s < n
        invariant
            s <= n,
            n == entries@.len(),
            views == entry_views(entries@),
            order@.len() == n,
            forall|j: int|
                0 <= j < n ==> (#[trigger] views[j]).0 is Integer && 1 <= views[j].0->Integer_0
                    <= n && order@[views[j].0->Integer_0 - 1] == j,
            forall|t: int|
                0 <= t < n ==> #[trigger] order@[t] == n || (order@[t] < n
                    && views[order@[t] as int].0 == KeyView::Integer(t + 1)),
            forall|t: int| 0 <= t < s ==> #[trigger] order@[t] != n,
        decreases n - s,
    {
        if order[s] == n {
            proof {
                if has_key(views, s as int + 1) {
                    let at = choose|at: int|
                        0 <= at < views.len() && (#[trigger] views[at]).0 == KeyView::Integer(
                            s as int + 1,
                        );
                    assert(order@[views[at].0->Integer_0 - 1] == at);
                }
            }
            return None;
        }
        s = s + 1;
    }
    proof {
        assert forall|a: int, b: int| 0 <= a < b < views.len() implies (#[trigger] views[a]).0 != (
        #[trigger] views[b]).0 by {
            if views[a].0 == views[b].0 {
                assert(order@[views[a].0->Integer_0 - 1] == a);
                assert(order@[views[b].0->Integer_0 - 1] == b);
            }
        }
        assert forall|k: int| 1 <= k <= views.len() implies #[trigger] has_key(views, k) by {
            let at = order@[k - 1] as int;
            assert(order@[k - 1] != n);
            assert(views[at].0 == KeyView::Integer(k));
        }
        assert forall|k: int| 0 <= k < order@.len() implies 0 <= #[trigger] order@[k]
            < entries@.len() && views[order@[k] as int].0 == KeyView::Integer(k + 1) by {
            assert(order@[k] != n);
        }
    }
    Some(order)
}

/// Whether a keyed collection is classified as an array: its keys are
/// exactly the integers from 1 to the number of its entries.
pub fn is_array(entries: &Vec<(DynamicKey, DynamicValue)>) -> (array: bool)
    ensures
        array == sequence_keys(entry_views(entries@)),
{
    key_order(entries).is_some()
}

/// Whether the bits are those of a finite binary64 number.
pub fn finite(bits: u64) -> (r: bool)
    ensures
        r == is_finite(bits),
{
    (bits >> 52) & 0x7ff != 0x7ff
}

/// The text that a key has as the name of an object member.
pub fn key_name(key: &DynamicKey) -> (name: String)
    ensures
        name@ == key_text(key@),
{
    match key {
        DynamicKey::Integer(i) => decimal_text(*i),
        DynamicKey::Text(s) => s.clone(),
    }
}

/// Converts a dynamic value to its JSON tree. A value that holds a function,
/// an opaque handle or a number that is not finite has none, and is refused
/// as unsupported.
pub fn to_json(value: &DynamicValue) -> (json: Result<JsonValue, MarshalError>)
    ensures
        match json {
            Ok(tree) => convertible(value@) && tree@ == json_of(value@),
            Err(e) => !convertible(value@) && e == MarshalError::Unsupported,
        },
    decreases value,
{
    match value {
        DynamicValue::Nil => Ok(JsonValue::Null),
        DynamicValue::Boolean(b) => Ok(JsonValue::Bool(*b)),
        DynamicValue::Integer(i) => Ok(JsonValue::Integer(*i)),
        DynamicValue::Number(bits) => {
            if finite(*bits) {
                Ok(JsonValue::Float(*bits))
            } else {
                Err(MarshalError::Unsupported)
            }
        },
        DynamicValue::Text(s) => Ok(JsonValue::Text(s.clone())),
        DynamicValue::Function => Err(MarshalError::Unsupported),
        DynamicValue::Opaque => Err(MarshalError::Unsupported),
        DynamicValue::Table(entries) => {
            let ghost views = entry_views(entries@);
            proof {
                lemma_table_view(*entries);
            }
            let n = entries.len();
            match key_order(entries) {
                Some(order) => {
                    let mut items: Vec<JsonValue> = Vec::new();
                    let mut k: usize = 0;
                    while k < n
                        invariant
                            k <= n,
                            n == entries@.len(),
                            order@.len() == n,
                            *value == DynamicValue::Table(*entries),
                            value@ == DynamicView::Table(views),
                            views == entry_views(entries@),
                            sequence_keys(views),
                            forall|j: int|
                                0 <= j < n ==> 0 <= #[trigger] order@[j] < n
                                    && views[order@[j] as int].0 == KeyView::Integer(j + 1),
                            items@.len() == k,
                            forall|j: int|
                                0 <= j < k ==> convertible(views[(#[trigger] order@[j]) as int].1),
                            forall|j: int|
                                0 <= j < k ==> (#[trigger] items@[j])@ == json_of(
                                    views[order@[j] as int].1,
                                ),
                        decreases n - k,
                    {
                        let at = order[k];
                        assert(views[at as int].1 == entries@[at as int].1@);
                        match to_json(&entries[at].1) {
                            Ok(item) => {
                                items.push(item);
                            },
                            Err(_) => {
                                return Err(MarshalError::Unsupported);
                            },
                        }
                        k = k + 1;
                    }
                    proof {
                        assert forall|i: int| 0 <= i < views.len() implies convertible(
                            (#[trigger] views[i]).1,
                        ) by {
                            let key = views[i].0->Integer_0;
                            let at = order@[key - 1] as int;
                            assert(views[at].0 == views[i].0);
                            assert(at == i);
                        }
                        assert(convertible(value@));
                        lemma_array_view(items);
                        assert forall|j: int| 0 <= j < n implies item_views(items@)[j]
                            == json_of(value@)->Array_0[j] by {
                            let at = position(views, j + 1);
                            assert(views[order@[j] as int].0 == KeyView::Integer(j + 1));
                            assert(views[at].0 == views[order@[j] as int].0);
                            assert(at == order@[j]);
                        }
                        assert(item_views(items@) =~= json_of(value@)->Array_0);
                    }
                    Ok(JsonValue::Array(items))
                },
                None => {
                    let mut members: Vec<(String, JsonValue)> = Vec::new();
                    let mut i: usize = 0;
                    while i < n
                        invariant
                            i <= n,
                            n == entries@.len(),
                            *value == DynamicValue::Table(*entries),
                            value@ == DynamicView::Table(views),
                            views == entry_views(entries@),
                            !sequence_keys(views),
                            members@.len() == i,
                            forall|j: int|
                                0 <= j < i ==> convertible(views[j].1) && (
                                #[trigger] members@[j]).0@ == key_text(views[j].0)
                                    && members@[j].1@ == json_of(views[j].1),
                        decreases n - i,
                    {
                        assert(views[i as int].1 == entries@[i as int].1@);
                        assert(views[i as int].0 == entries@[i as int].0@);
                        let name = key_name(&entries[i].0);
                        match to_json(&entries[i].1) {
                            Ok(member) => {
                                members.push((name, member));
                            },
                            Err(_) => {
                                return Err(MarshalError::Unsupported);
                            },
                        }
                        i = i + 1;
                    }
                    proof {
                        assert forall|j: int| 0 <= j < views.len() implies convertible(
                            (#[trigger] views[j]).1,
                        ) by {
                            assert(members@[j].1@ == json_of(views[j].1));
                        }
                        assert(convertible(value@));
                        lemma_object_view(members);
                        assert(member_views(members@) =~= json_of(value@)->Object_0);
                    }
                    Ok(JsonValue::Object(members))
                },
            }
        },
    }
}

/// A copy of a dynamic value.
pub fn duplicate(value: &DynamicValue) -> (copy: DynamicValue)
    ensures
        copy@ == value@,
    decreases value,
{
    match value {
        DynamicValue::Nil => DynamicValue::Nil,
        DynamicValue::Boolean(b) => DynamicValue::Boolean(*b),
        DynamicValue::Integer(i) => DynamicValue::Integer(*i),
        DynamicValue::Number(bits) => DynamicValue::Number(*bits),
        DynamicValue::Text(s) => DynamicValue::Text(s.clone()),
        DynamicValue::Function => DynamicValue::Function,
        DynamicValue::Opaque => DynamicValue::Opaque,
        DynamicValue::Table(entries) => {
            proof {
                lemma_table_view(*entries);
            }
            let mut copies: Vec<(DynamicKey, DynamicValue)> = Vec::new();
            let mut i: usize = 0;
            while i < entries.len()
                invariant
                    i <= entries@.len(),
                    *value == DynamicValue::Table(*entries),
                    value@ == DynamicView::Table(entry_views(entries@)),
                    copies@.len() == i,
                    forall|j: int|
                        0 <= j < i ==> (#[trigger] copies@[j]).0@ == entries@[j].0@
                            && copies@[j].1@ == entries@[j].1@,
                decreases entries@.len() - i,
            {
                assert(entry_views(entries@)[i as int].1 == entries@[i as int].1@);
                let held = duplicate(&entries[i].1);
                let key = match &entries[i].0 {
                    DynamicKey::Integer(k) => DynamicKey::Integer(*k),
                    DynamicKey::Text(s) => DynamicKey::Text(s.clone()),
                };
                copies.push((key, held));
                i = i + 1;
            }
            proof {
                lemma_table_view(copies);
                assert(entry_views(copies@) =~= entry_views(entries@));
            }
            DynamicValue::Table(copies)
        },
    }
}

} // verus!

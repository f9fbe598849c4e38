//! Dynamic values in the interpreter: reading a value of the interpreter
//! into a [`DynamicValue`] and building one from it.

use crate::marshal::{duplicate, DynamicKey, DynamicValue, DynamicView, KeyView, MarshalError};
use crate::sandbox::LuaValue;
use vstd::prelude::*;

verus! {

/// `mlua::Value`, a value of an interpreter.
#[verifier::external_type_specification]
#[verifier::external_body]
pub struct ExValue(mlua::Value);

/// `mlua::String`, a handle to a string of an interpreter.
#[verifier::external_type_specification]
#[verifier::external_body]
pub struct ExString(mlua::String);

/// The deepest nesting of tables that is read from the interpreter. A table
/// below it is read as an opaque value.
pub const MARSHAL_DEPTH: usize = 128;

/// The kind of one value of the interpreter, with what a value without
/// parts holds.
pub enum LuaNode {
    Nil,
    Boolean(bool),
    Integer(i64),
    /// A number that is no integer, by its IEEE 754 bits.
    Number(u64),
    Text(String),
    Table,
    Function,
    /// Any other kind of value, or a string that is not UTF-8.
    Opaque,
}

/// Tells the variants of the `mlua::Value` that is held apart and hands
/// out what a value without parts holds, a string by
/// `mlua::String::to_str`. What a value of the interpreter holds is not
/// modelled, so nothing is claimed of the result.
#[verifier::external_body]
fn lua_node(source: &LuaValue) -> LuaNode {
    match &source.value {
        mlua::Value::Nil => LuaNode::Nil,
        mlua::Value::Boolean(b) => LuaNode::Boolean(*b),
        mlua::Value::Integer(i) => LuaNode::Integer(*i),
        mlua::Value::Number(n) => LuaNode::Number(n.to_bits()),
        mlua::Value::String(s) => s.to_str().map_or(LuaNode::Opaque, |t| LuaNode::Text(t.to_string())),
        mlua::Value::Table(_) => LuaNode::Table,
        mlua::Value::Function(_) => LuaNode::Function,
        _ => LuaNode::Opaque,
    }
}

/// Calls `mlua::Table::pairs` on the table that is held and hands out its
/// entries in the order in which the interpreter walks them, each key and
/// each value held together with the interpreter; nothing where the value is
/// no table or the walk fails.
#[verifier::external_body]
fn table_pairs(source: &LuaValue) -> Option<Vec<(LuaValue, LuaValue)>> {
    let pairs = source.value.as_table()?.pairs::<mlua::Value, mlua::Value>();
    pairs.map(|pair| pair.ok().map(|(k, v)| (
        LuaValue { lua: source.lua.clone(), value: k },
        LuaValue { lua: source.lua.clone(), value: v },
    ))).collect()
}

/// Calls `mlua::Lua::coerce_string` on the value that is held: the text
/// that the interpreter gives for a number or a string; nothing for any
/// other value. The text of a number follows the interpreter's formatting,
/// so nothing is claimed of it.
#[verifier::external_body]
fn coerced_text(source: &LuaValue) -> Option<String> {
    let text = source.lua.coerce_string(source.value.clone()).ok().flatten()?;
    text.to_str().ok().map(|t| t.to_string())
}

/// `mlua::Value::Nil`.
#[verifier::external_body]
fn nil_value() -> mlua::Value {
    mlua::Value::Nil
}

/// `mlua::Value::Boolean` of `b`.
#[verifier::external_body]
fn boolean_value(b: bool) -> mlua::Value {
    mlua::Value::Boolean(b)
}

/// `mlua::Value::Integer` of `i`.
#[verifier::external_body]
fn integer_value(i: i64) -> mlua::Value {
    mlua::Value::Integer(i)
}

/// `mlua::Value::Number` of the number with the given IEEE 754 bits.
#[verifier::external_body]
fn number_value(bits: u64) -> mlua::Value {
    mlua::Value::Number(mlua::Number::from_bits(bits))
}

/// Calls `mlua::Lua::create_string` on `text`; `None` where the interpreter
/// could not hold the string.
#[verifier::external_body]
fn text_value(lua: &mlua::Lua, text: &str) -> Option<mlua::Value> {
    lua.create_string(text).ok().map(mlua::Value::String)
}

/// Calls `mlua::Lua::create_string` on `bytes`; `None` where the
/// interpreter could not hold the string.
#[verifier::external_body]
pub(crate) fn bytes_string(lua: &mlua::Lua, bytes: &Vec<u8>) -> Option<mlua::String> {
    lua.create_string(bytes).ok()
}

/// Calls `mlua::Lua::create_table`; `None` where the interpreter could not
/// hold the table.
#[verifier::external_body]
fn new_table(lua: &mlua::Lua) -> Option<mlua::Table> {
    lua.create_table().ok()
}

/// Calls `mlua::Table::set`; `false` where the interpreter refused. Setting
/// `nil` stores nothing, as the interpreter has it.
#[verifier::external_body]
fn table_set(table: &mlua::Table, key: mlua::Value, value: mlua::Value) -> bool {
    table.set(key, value).is_ok()
}

/// `mlua::Value::Table` of `table`.
#[verifier::external_body]
pub(crate) fn table_value(table: mlua::Table) -> mlua::Value {
    mlua::Value::Table(table)
}

/// The table that `value` is, if it is one.
#[verifier::external_body]
pub(crate) fn value_table(value: mlua::Value) -> Option<mlua::Table> {
    match value {
        mlua::Value::Table(table) => Some(table),
        _ => None,
    }
}

/// Whether a dynamic value holds neither a function nor an opaque handle.
pub open spec fn supported(value: DynamicView) -> bool
    decreases value,
{
    match value {
        DynamicView::Table(entries) => forall|i: int|
            0 <= i < entries.len() ==> supported((#[trigger] entries[i]).1),
        DynamicView::Function => false,
        DynamicView::Opaque => false,
        _ => true,
    }
}

/// A key of a table as it was read.
pub enum KeyShape {
    Integer(i64),
    Text(String),
    /// A number that is no integer, with the text that the interpreter
    /// gives for it, if it gave one.
    Number(Option<String>),
    /// Any other kind of key.
    Other,
}

/// One value of the interpreter as it was read, the values of a table's
/// entries already read.
pub enum Shape {
    Nil,
    Boolean(bool),
    Integer(i64),
    Number(u64),
    Text(String),
    Function,
    Opaque,
    /// A table with its entries in the order of the walk; without entries
    /// where the walk failed.
    Table(Option<Vec<(KeyShape, DynamicValue)>>),
}

/// The key that a key as read stands for: an integer or a text key stands
/// for itself, a number that is no integer for its text; any other key, and
/// a number without text, stands for none.
pub open spec fn key_read(key: KeyShape) -> Option<KeyView> {
    match key {
        KeyShape::Integer(i) => Some(KeyView::Integer(i as int)),
        KeyShape::Text(s) => Some(KeyView::Text(s@)),
        KeyShape::Number(Some(s)) => Some(KeyView::Text(s@)),
        KeyShape::Number(None) => None,
        KeyShape::Other => None,
    }
}

/// Whether every key of the entries stands for a key.
pub open spec fn keys_readable(entries: Seq<(KeyShape, DynamicValue)>) -> bool {
    forall|i: int| 0 <= i < entries.len() ==> key_read((#[trigger] entries[i]).0) is Some
}

/// The dynamic value that a value as read stands for at `depth` levels left:
/// a value without parts stands for itself; a table stands for the table of
/// its entries, and for an opaque value where no level is left, where the
/// walk failed or where one of its keys stands for none.
pub open spec fn shaped(shape: Shape, depth: nat) -> DynamicView {
    match shape {
        Shape::Nil => DynamicView::Nil,
        Shape::Boolean(b) => DynamicView::Boolean(b),
        Shape::Integer(i) => DynamicView::Integer(i as int),
        Shape::Number(bits) => DynamicView::Number(bits),
        Shape::Text(s) => DynamicView::Text(s@),
        Shape::Function => DynamicView::Function,
        Shape::Opaque => DynamicView::Opaque,
        Shape::Table(None) => DynamicView::Opaque,
        Shape::Table(Some(entries)) => if depth == 0 || !keys_readable(entries@) {
            DynamicView::Opaque
        } else {
            DynamicView::Table(
                Seq::new(
                    entries@.len(),
                    |i: int| (key_read(entries@[i].0)->Some_0, entries@[i].1@),
                ),
            )
        },
    }
}

/// The key that a key as read stands for.
pub fn read_key(key: &KeyShape) -> (read: Option<DynamicKey>)
    ensures
        match key_read(*key) {
            Some(expected) => read is Some && read->Some_0@ == expected,
            None => read is None,
        },
{
    match key {
        KeyShape::Integer(i) => Some(DynamicKey::Integer(*i)),
        KeyShape::Text(s) => Some(DynamicKey::Text(s.clone())),
        KeyShape::Number(Some(s)) => Some(DynamicKey::Text(s.clone())),
        KeyShape::Number(None) => None,
        KeyShape::Other => None,
    }
}

/// The dynamic value that a value as read stands for at `depth` levels
/// left.
pub fn shape_value(shape: &Shape, depth: usize) -> (value: DynamicValue)
    ensures
        value@ == shaped(*shape, depth as nat),
{
    match shape {
        Shape::Nil => DynamicValue::Nil,
        Shape::Boolean(b) => DynamicValue::Boolean(*b),
        Shape::Integer(i) => DynamicValue::Integer(*i),
        Shape::Number(bits) => DynamicValue::Number(*bits),
        Shape::Text(s) => DynamicValue::Text(s.clone()),
        Shape::Function => DynamicValue::Function,
        Shape::Opaque => DynamicValue::Opaque,
        Shape::Table(None) => DynamicValue::Opaque,
        Shape::Table(Some(entries)) => {
            if depth == 0 {
                return DynamicValue::Opaque;
            }
            let mut read: Vec<(DynamicKey, DynamicValue)> = Vec::new();
            let mut i: usize = 0;
            while i < entries.len()
                invariant
                    i <= entries@.len(),
                    depth > 0,
                    *shape == Shape::Table(Some(*entries)),
                    read@.len() == i,
                    forall|j: int| 0 <= j < i ==> key_read((#[trigger] entries@[j]).0) is Some,
                    forall|j: int|
                        0 <= j < i ==> (#[trigger] read@[j]).0@ == key_read(entries@[j].0)->Some_0
                            && read@[j].1@ == entries@[j].1@,
                decreases entries@.len() - i,
            {
                match read_key(&entries[i].0) {
                    Some(key) => {
                        read.push((key, duplicate(&entries[i].1)));
                    },
                    None => {
                        assert(key_read((#[trigger] entries@[i as int]).0) is None);
                        return DynamicValue::Opaque;
                    },
                }
                i = i + 1;
            }
            proof {
                crate::marshal::lemma_table_view(read);
                assert(crate::marshal::entry_views(read@) =~= shaped(
                    *shape,
                    depth as nat,
                )->Table_0);
            }
            DynamicValue::Table(read)
        },
    }
}

/// Reads the key of an entry: its kind and, for a number that is no
/// integer, the text that the interpreter gives for it.
fn key_shape(key: &LuaValue) -> KeyShape {
    match lua_node(key) {
        LuaNode::Integer(i) => KeyShape::Integer(i),
        LuaNode::Text(s) => KeyShape::Text(s),
        LuaNode::Number(_) => KeyShape::Number(coerced_text(key)),
        _ => KeyShape::Other,
    }
}

/// Reads a value of the interpreter. A table is read with its entries, in
/// the order in which the interpreter walks them, down to `depth` levels; a
/// table below that, or one with a key that is neither an integer, a number
/// nor a string, is read as an opaque value. The result is what
/// [`shape_value`] makes of the value as read.
pub fn from_lua(source: &LuaValue, depth: usize) -> (read: DynamicValue)
    ensures
        within_depth(read@, depth as nat),
        exists|shape: Shape| read@ == #[trigger] shaped(shape, depth as nat),
    decreases depth,
{
    let shape = match lua_node(source) {
        LuaNode::Nil => Shape::Nil,
        LuaNode::Boolean(b) => Shape::Boolean(b),
        LuaNode::Integer(i) => Shape::Integer(i),
        LuaNode::Number(bits) => Shape::Number(bits),
        LuaNode::Text(s) => Shape::Text(s),
        LuaNode::Function => Shape::Function,
        LuaNode::Opaque => Shape::Opaque,
        LuaNode::Table => {
            if depth == 0 {
                Shape::Table(None)
            } else {
                match table_pairs(source) {
                    None => Shape::Table(None),
                    Some(pairs) => {
                        let mut entries: Vec<(KeyShape, DynamicValue)> = Vec::new();
                        let mut i: usize = 0;
                        while i < pairs.len()
                            invariant
                                i <= pairs@.len(),
                                depth > 0,
                                forall|j: int|
                                    0 <= j < entries@.len() ==> within_depth(
                                        (#[trigger] entries@[j]).1@,
                                        (depth - 1) as nat,
                                    ),
                            decreases pairs@.len() - i,
                        {
                            let key = key_shape(&pairs[i].0);
                            let held = from_lua(&pairs[i].1, depth - 1);
                            entries.push((key, held));
                            i = i + 1;
                        }
                        Shape::Table(Some(entries))
                    },
                }
            }
        },
    };
    let read = shape_value(&shape, depth);
    proof {
        assert(read@ == shaped(shape, depth as nat));
        match shape {
            Shape::Table(Some(entries)) => {
                if read@ is Table {
                    assert forall|j: int| 0 <= j < read@->Table_0.len() implies within_depth(
                        (#[trigger] read@->Table_0[j]).1,
                        (depth - 1) as nat,
                    ) by {
                        assert(read@->Table_0[j].1 == entries@[j].1@);
                    }
                }
            },
            _ => {},
        }
    }
    read
}

/// Builds the key of a table entry in the interpreter. An integer key is
/// always built; a text key where the interpreter can hold the string.
fn build_key(lua: &mlua::Lua, key: &DynamicKey) -> (built: Option<mlua::Value>)
    ensures
        key is Integer ==> built is Some,
{
    match key {
        DynamicKey::Integer(i) => Some(integer_value(*i)),
        DynamicKey::Text(s) => text_value(lua, s.as_str()),
    }
}

/// Builds a dynamic value in the interpreter. A function or an opaque handle
/// cannot be built and is refused as unsupported, and so is a value that the
/// interpreter could not hold. An entry whose value is nil leaves no trace in
/// its table, as the interpreter has it.
pub fn into_lua(lua: &mlua::Lua, value: &DynamicValue) -> (built: Result<mlua::Value, MarshalError>)
    ensures
        value@ is Nil || value@ is Boolean || value@ is Integer || value@ is Number ==> built is Ok,
        !supported(value@) ==> built is Err,
        built is Err ==> built->Err_0 == MarshalError::Unsupported,
    decreases value,
{
    match value {
        DynamicValue::Nil => Ok(nil_value()),
        DynamicValue::Boolean(b) => Ok(boolean_value(*b)),
        DynamicValue::Integer(i) => Ok(integer_value(*i)),
        DynamicValue::Number(bits) => Ok(number_value(*bits)),
        DynamicValue::Text(s) => match text_value(lua, s.as_str()) {
            Some(text) => Ok(text),
            None => Err(MarshalError::Unsupported),
        },
        DynamicValue::Function => Err(MarshalError::Unsupported),
        DynamicValue::Opaque => Err(MarshalError::Unsupported),
        DynamicValue::Table(entries) => {
            proof {
                crate::marshal::lemma_table_view(*entries);
            }
            let table = match new_table(lua) {
                Some(table) => table,
                None => {
                    return Err(MarshalError::Unsupported);
                },
            };
            let mut i: usize = 0;
            while i < entries.len()
                invariant
                    i <= entries@.len(),
                    *value == DynamicValue::Table(*entries),
                    value@ == DynamicView::Table(crate::marshal::entry_views(entries@)),
                    forall|j: int|
                        0 <= j < i ==> supported(
                            (#[trigger] crate::marshal::entry_views(entries@)[j]).1,
                        ),
                decreases entries@.len() - i,
            {
                let key = match build_key(lua, &entries[i].0) {
                    Some(key) => key,
                    None => {
                        return Err(MarshalError::Unsupported);
                    },
                };
                let held = match into_lua(lua, &entries[i].1) {
                    Ok(held) => held,
                    Err(e) => {
                        return Err(e);
                    },
                };
                assert(crate::marshal::entry_views(entries@)[i as int].1 == entries@[i as int].1@);
                if !table_set(&table, key, held) {
                    return Err(MarshalError::Unsupported);
                }
                i = i + 1;
            }
            Ok(table_value(table))
        },
    }
}

/// Whether a dynamic value nests tables at most `depth` levels deep.
pub open spec fn within_depth(value: DynamicView, depth: nat) -> bool
    decreases value,
{
    match value {
        DynamicView::Table(entries) => depth > 0 && forall|i: int|
            0 <= i < entries.len() ==> within_depth((#[trigger] entries[i]).1, (depth - 1) as nat),
        _ => true,
    }
}

} // verus!

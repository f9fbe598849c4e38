use libmll::json_text::{fits, number_of, parse_json, print_json};
use libmll::lua_values::{from_lua, into_lua, MARSHAL_DEPTH};
use libmll::sandbox::Internal;
use libmll::marshal::{
    decimal_text, duplicate, finite, float_integer, is_array, key_name, to_dynamic, to_json,
    DynamicKey, DynamicValue, JsonValue, MarshalError,
};
use libmll::utils::{
    json_str_to_lua_table, json_str_to_table, json_to_lua, lua_table_to_json_str, lua_to_json,
    table_of_json, table_to_json_str,
};

fn same_json(a: &JsonValue, b: &JsonValue) -> bool {
    match (a, b) {
        (JsonValue::Null, JsonValue::Null) => true,
        (JsonValue::Bool(x), JsonValue::Bool(y)) => x == y,
        (JsonValue::Integer(x), JsonValue::Integer(y)) => x == y,
        (JsonValue::Float(x), JsonValue::Float(y)) => x == y,
        (JsonValue::Text(x), JsonValue::Text(y)) => x == y,
        (JsonValue::Array(x), JsonValue::Array(y)) => {
            x.len() == y.len() && x.iter().zip(y).all(|(p, q)| same_json(p, q))
        }
        (JsonValue::Object(x), JsonValue::Object(y)) => {
            x.len() == y.len()
                && x.iter().zip(y).all(|(p, q)| p.0 == q.0 && same_json(&p.1, &q.1))
        }
        _ => false,
    }
}

fn same_dynamic(a: &DynamicValue, b: &DynamicValue) -> bool {
    match (a, b) {
        (DynamicValue::Nil, DynamicValue::Nil) => true,
        (DynamicValue::Boolean(x), DynamicValue::Boolean(y)) => x == y,
        (DynamicValue::Integer(x), DynamicValue::Integer(y)) => x == y,
        (DynamicValue::Number(x), DynamicValue::Number(y)) => x == y,
        (DynamicValue::Text(x), DynamicValue::Text(y)) => x == y,
        (DynamicValue::Function, DynamicValue::Function) => true,
        (DynamicValue::Opaque, DynamicValue::Opaque) => true,
        (DynamicValue::Table(x), DynamicValue::Table(y)) => {
            x.len() == y.len()
                && x.iter().zip(y).all(|(p, q)| {
                    let keys = match (&p.0, &q.0) {
                        (DynamicKey::Integer(i), DynamicKey::Integer(j)) => i == j,
                        (DynamicKey::Text(s), DynamicKey::Text(t)) => s == t,
                        _ => false,
                    };
                    keys && same_dynamic(&p.1, &q.1)
                })
        }
        _ => false,
    }
}

fn text(s: &str) -> JsonValue {
    JsonValue::Text(s.to_string())
}

fn int_key(i: i64, value: DynamicValue) -> (DynamicKey, DynamicValue) {
    (DynamicKey::Integer(i), value)
}

fn text_key(s: &str, value: DynamicValue) -> (DynamicKey, DynamicValue) {
    (DynamicKey::Text(s.to_string()), value)
}

fn sample() -> JsonValue {
    JsonValue::Object(vec![
        ("name".to_string(), text("hoge")),
        ("age".to_string(), JsonValue::Integer(20)),
        ("is_male".to_string(), JsonValue::Bool(true)),
        ("nothing".to_string(), JsonValue::Null),
        (
            "tags".to_string(),
            JsonValue::Array(vec![text("hoge"), text("fuga"), text("piyo")]),
        ),
        ("empty".to_string(), JsonValue::Array(vec![])),
        (
            "nested".to_string(),
            JsonValue::Array(vec![
                JsonValue::Object(vec![("1".to_string(), JsonValue::Integer(-1))]),
                JsonValue::Array(vec![JsonValue::Integer(i64::MIN), JsonValue::Integer(i64::MAX)]),
            ]),
        ),
    ])
}

#[test]
fn test_serde_value_pass_lua() {
    let json_str = r#"{
            "name": "hoge",
            "age": 20,
            "is_male": true,
            "tags": ["hoge", "fuga", "piyo"]
        }"#;
    let json = parse_json(json_str).unwrap();

    let lua = mlua::Lua::new();

    let v = json_to_lua(&lua, &json).unwrap();
    let table = v.as_table().unwrap();
    assert_eq!("hoge", table.get::<String>("name").unwrap());
    assert_eq!(20, table.get::<i64>("age").unwrap());
    assert!(table.get::<bool>("is_male").unwrap());
    let tags = table.get::<mlua::Table>("tags").unwrap();
    assert_eq!(3, tags.raw_len());
    assert_eq!("fuga", tags.get::<String>(2).unwrap());
}

#[test]
fn round_trip_of_a_plain_tree() {
    let json = sample();
    let back = to_json(&to_dynamic(&json)).unwrap();
    assert!(same_json(&json, &back));

    for scalar in [
        JsonValue::Null,
        JsonValue::Bool(false),
        JsonValue::Integer(0),
        JsonValue::Integer(-5),
        text(""),
        text("日本語"),
        JsonValue::Array(vec![]),
        JsonValue::Array(vec![JsonValue::Null, JsonValue::Null]),
    ] {
        assert!(same_json(&scalar, &to_json(&to_dynamic(&scalar)).unwrap()));
    }
}

#[test]
fn object_without_members_comes_back_as_an_array() {
    let back = to_json(&to_dynamic(&JsonValue::Object(vec![]))).unwrap();
    assert!(same_json(&JsonValue::Array(vec![]), &back));
}

#[test]
fn finite_float_round_trips_and_others_are_unsupported() {
    let half = JsonValue::Float(0x3fe0_0000_0000_0000);
    assert!(same_json(&half, &to_json(&to_dynamic(&half)).unwrap()));
    assert!(finite(0));
    assert!(finite(0x3ff0_0000_0000_0000));
    assert!(finite(0x7fef_ffff_ffff_ffff));
    assert!(!finite(0x7ff0_0000_0000_0000));
    assert!(!finite(0xfff0_0000_0000_0000));
    assert!(!finite(0x7ff8_0000_0000_0000));
    assert_eq!(
        Some(MarshalError::Unsupported),
        to_json(&DynamicValue::Number(0x7ff0_0000_0000_0000)).err()
    );
}

#[test]
fn to_dynamic_gives_arrays_keys_from_one() {
    let array = JsonValue::Array(vec![text("a"), JsonValue::Integer(2)]);
    let expected = DynamicValue::Table(vec![
        int_key(1, DynamicValue::Text("a".to_string())),
        int_key(2, DynamicValue::Integer(2)),
    ]);
    assert!(same_dynamic(&expected, &to_dynamic(&array)));

    let object = JsonValue::Object(vec![("k".to_string(), JsonValue::Null)]);
    let expected = DynamicValue::Table(vec![text_key("k", DynamicValue::Nil)]);
    assert!(same_dynamic(&expected, &to_dynamic(&object)));
}

#[test]
fn classification_of_keyed_collections() {
    let one_two_three = vec![
        int_key(1, DynamicValue::Integer(10)),
        int_key(2, DynamicValue::Integer(20)),
        int_key(3, DynamicValue::Integer(30)),
    ];
    assert!(is_array(&one_two_three));
    let json = to_json(&DynamicValue::Table(one_two_three)).unwrap();
    assert!(same_json(
        &JsonValue::Array(vec![
            JsonValue::Integer(10),
            JsonValue::Integer(20),
            JsonValue::Integer(30)
        ]),
        &json
    ));

    let gap = vec![int_key(1, DynamicValue::Integer(10)), int_key(3, DynamicValue::Integer(30))];
    assert!(!is_array(&gap));
    let json = to_json(&DynamicValue::Table(gap)).unwrap();
    assert!(same_json(
        &JsonValue::Object(vec![
            ("1".to_string(), JsonValue::Integer(10)),
            ("3".to_string(), JsonValue::Integer(30))
        ]),
        &json
    ));

    let text_one = vec![text_key("1", DynamicValue::Integer(10))];
    assert!(!is_array(&text_one));
    let json = to_json(&DynamicValue::Table(text_one)).unwrap();
    assert!(same_json(
        &JsonValue::Object(vec![("1".to_string(), JsonValue::Integer(10))]),
        &json
    ));
}

#[test]
fn classification_edge_cases() {
    assert!(is_array(&vec![]));
    assert!(!is_array(&vec![int_key(0, DynamicValue::Nil)]));
    assert!(!is_array(&vec![int_key(2, DynamicValue::Nil)]));
    assert!(!is_array(&vec![int_key(-1, DynamicValue::Nil)]));
    assert!(!is_array(&vec![int_key(1, DynamicValue::Nil), int_key(1, DynamicValue::Nil)]));
    assert!(!is_array(&vec![
        int_key(1, DynamicValue::Nil),
        int_key(2, DynamicValue::Nil),
        text_key("x", DynamicValue::Nil)
    ]));
    assert!(!is_array(&vec![int_key(i64::MAX, DynamicValue::Nil)]));
    assert!(!is_array(&vec![int_key(i64::MIN, DynamicValue::Nil)]));

    let unordered = vec![
        int_key(3, DynamicValue::Text("c".to_string())),
        int_key(1, DynamicValue::Text("a".to_string())),
        int_key(2, DynamicValue::Text("b".to_string())),
    ];
    assert!(is_array(&unordered));
    let json = to_json(&DynamicValue::Table(unordered)).unwrap();
    assert!(same_json(&JsonValue::Array(vec![text("a"), text("b"), text("c")]), &json));
}

#[test]
fn unsupported_kinds_are_refused() {
    assert_eq!(Some(MarshalError::Unsupported), to_json(&DynamicValue::Function).err());
    assert_eq!(Some(MarshalError::Unsupported), to_json(&DynamicValue::Opaque).err());
    let inside = DynamicValue::Table(vec![
        int_key(1, DynamicValue::Integer(1)),
        int_key(2, DynamicValue::Table(vec![text_key("f", DynamicValue::Function)])),
    ]);
    assert_eq!(Some(MarshalError::Unsupported), to_json(&inside).err());
    assert_eq!(Some(MarshalError::Unsupported), table_to_json_str(&inside).err());
}

#[test]
fn decimal_text_of_integers() {
    for i in [0i64, 1, 9, 10, 11, 99, 100, 12345, -1, -10, -999, i64::MAX, i64::MIN, i64::MIN + 1] {
        assert_eq!(i.to_string(), decimal_text(i));
    }
    assert_eq!("-42", key_name(&DynamicKey::Integer(-42)));
    assert_eq!("k", key_name(&DynamicKey::Text("k".to_string())));
}

#[test]
fn number_probes_take_the_integer_first() {
    assert!(same_json(
        &JsonValue::Integer(1),
        &number_of(Some(1), Some(0x3ff0_0000_0000_0000)).unwrap()
    ));
    assert!(same_json(
        &JsonValue::Float(0x3ff8_0000_0000_0000),
        &number_of(None, Some(0x3ff8_0000_0000_0000)).unwrap()
    ));
    assert_eq!(Some(MarshalError::ParseFailure), number_of(None, None).err());
}

#[test]
fn json_text_is_parsed_and_written() {
    let parsed = parse_json(r#"{"a": [1, 2.5, "x", null, true], "b": {"c": -3}}"#).unwrap();
    let expected = JsonValue::Object(vec![
        (
            "a".to_string(),
            JsonValue::Array(vec![
                JsonValue::Integer(1),
                JsonValue::Float(0x4004_0000_0000_0000),
                text("x"),
                JsonValue::Null,
                JsonValue::Bool(true),
            ]),
        ),
        ("b".to_string(), JsonValue::Object(vec![("c".to_string(), JsonValue::Integer(-3))])),
    ]);
    assert!(same_json(&expected, &parsed));
    assert_eq!(
        Ok(r#"{"a":[1,2.5,"x",null,true],"b":{"c":-3}}"#.to_string()),
        print_json(&parsed)
    );
    assert!(fits(&parsed));

    assert!(same_json(&JsonValue::Integer(5), &parse_json("5").unwrap()));
    assert!(same_json(
        &JsonValue::Float(0x43f0_0000_0000_0000),
        &parse_json("18446744073709551616").unwrap()
    ));
    assert!(same_json(
        &JsonValue::Float(0x43e0_0000_0000_0000),
        &parse_json("9223372036854775808").unwrap()
    ));
    assert_eq!(Some(MarshalError::ParseFailure), parse_json("{").err());
    assert_eq!(Some(MarshalError::ParseFailure), parse_json("").err());
    assert_eq!(
        Some(MarshalError::Unsupported),
        print_json(&JsonValue::Array(vec![JsonValue::Float(0x7ff8_0000_0000_0000)])).err()
    );
}

#[test]
fn only_arrays_and_objects_stand_for_tables() {
    assert!(table_of_json(&JsonValue::Array(vec![])).is_ok());
    assert!(table_of_json(&JsonValue::Object(vec![])).is_ok());
    assert_eq!(Some(MarshalError::ParseFailure), table_of_json(&JsonValue::Integer(1)).err());
    assert_eq!(Some(MarshalError::ParseFailure), table_of_json(&text("x")).err());
    assert_eq!(Some(MarshalError::ParseFailure), json_str_to_table("null").err());
    assert_eq!(Some(MarshalError::ParseFailure), json_str_to_table("nonsense").err());
    let table = json_str_to_table("[true]").unwrap();
    assert!(same_dynamic(
        &DynamicValue::Table(vec![int_key(1, DynamicValue::Boolean(true))]),
        &table
    ));
    assert_eq!(Ok("[true]".to_string()), table_to_json_str(&table));
}

#[test]
fn values_pass_through_the_interpreter() {
    let lua = mlua::Lua::new();
    let value = DynamicValue::Table(vec![
        text_key("n", DynamicValue::Integer(7)),
        text_key("x", DynamicValue::Number(0x3ff8_0000_0000_0000)),
        text_key("t", DynamicValue::Text("text".to_string())),
        text_key("b", DynamicValue::Boolean(true)),
        text_key(
            "list",
            DynamicValue::Table(vec![
                int_key(1, DynamicValue::Text("a".to_string())),
                int_key(2, DynamicValue::Text("b".to_string())),
            ]),
        ),
    ]);
    let built = into_lua(&lua, &value).unwrap();
    let table = built.as_table().unwrap();
    assert_eq!(7, table.get::<i64>("n").unwrap());
    assert_eq!("text", table.get::<String>("t").unwrap());
    assert_eq!(1.5, table.get::<mlua::Number>("x").unwrap());
    assert!(table.get::<bool>("b").unwrap());

    let sandbox = Internal::new();
    let again = into_lua(sandbox.lua(), &value).unwrap();
    sandbox.lua().globals().set("built", again).unwrap();
    let back = from_lua(&sandbox.global("built"), MARSHAL_DEPTH);
    let json = to_json(&back).unwrap();
    match &json {
        JsonValue::Object(members) => {
            let list = &members.iter().find(|m| m.0 == "list").unwrap().1;
            assert!(same_json(&JsonValue::Array(vec![text("a"), text("b")]), list));
        }
        _ => panic!("no object"),
    }

    assert_eq!(Some(MarshalError::Unsupported), into_lua(&lua, &DynamicValue::Function).err());
    assert_eq!(Some(MarshalError::Unsupported), into_lua(&lua, &DynamicValue::Opaque).err());
}

#[test]
fn values_are_read_from_the_interpreter() {
    let sandbox = Internal::new();
    sandbox
        .load_script(
            r#"
        list = {10, 20, 30}
        gap = {[1] = 10, [3] = 30}
        named = {["1"] = "one"}
        mixed = {1, 2, x = 3}
        fn = function() end
        holder = {f = print}
        deep = {}
        deep.self = deep
        flag = {[true] = 1}
        half = {[1.5] = "x"}
        number = 7
    "#,
        )
        .unwrap();

    assert_eq!(Ok("[10,20,30]".to_string()), lua_table_to_json_str(&sandbox.global("list")));
    let gap = lua_to_json(&sandbox.global("gap")).unwrap();
    match &gap {
        JsonValue::Object(members) => {
            assert_eq!(2, members.len());
            assert!(members.iter().any(|m| m.0 == "1" && same_json(&m.1, &JsonValue::Integer(10))));
            assert!(members.iter().any(|m| m.0 == "3" && same_json(&m.1, &JsonValue::Integer(30))));
        }
        _ => panic!("a table with a gap is an object"),
    }
    assert!(same_json(
        &JsonValue::Object(vec![("1".to_string(), text("one"))]),
        &lua_to_json(&sandbox.global("named")).unwrap()
    ));
    assert!(matches!(lua_to_json(&sandbox.global("mixed")).unwrap(), JsonValue::Object(_)));
    assert!(same_json(
        &JsonValue::Object(vec![("1.5".to_string(), text("x"))]),
        &lua_to_json(&sandbox.global("half")).unwrap()
    ));
    assert_eq!(Some(MarshalError::Unsupported), lua_to_json(&sandbox.global("fn")).err());
    assert_eq!(Some(MarshalError::Unsupported), lua_to_json(&sandbox.global("holder")).err());
    assert_eq!(Some(MarshalError::Unsupported), lua_to_json(&sandbox.global("deep")).err());
    assert_eq!(Some(MarshalError::Unsupported), lua_to_json(&sandbox.global("flag")).err());
    assert!(same_json(&JsonValue::Null, &lua_to_json(&sandbox.global("absent")).unwrap()));
    assert!(same_json(&JsonValue::Integer(7), &lua_to_json(&sandbox.global("number")).unwrap()));
    assert!(same_dynamic(&DynamicValue::Opaque, &from_lua(&sandbox.global("list"), 0)));
}

#[test]
fn a_value_outlives_its_sandbox() {
    let globals = {
        let sandbox = Internal::new();
        sandbox.load_script("name = 'kept'; list = {1, 2}").unwrap();
        (sandbox.globals(), sandbox.global("list"))
    };
    let mut mll = libmll::Mll::new();
    mll.set_template("{{name}}".to_string());
    assert_eq!(Ok("kept".to_string()), mll.render(&globals.0));
    assert_eq!(Ok("[1,2]".to_string()), lua_table_to_json_str(&globals.1));
    assert_eq!(Ok("<kept>".to_string()), libmll::builtins::render::render_with_table("<{{name}}>".to_string(), &globals.0));
    assert_eq!(
        Ok("1970".to_string()),
        libmll::builtins::datetime::format_table(&globals.1, "%Y")
    );
}

#[test]
fn json_text_becomes_a_table_of_the_interpreter() {
    let lua = mlua::Lua::new();
    let table = json_str_to_lua_table(&lua, r#"{"a": {"b": [1, 2]}}"#).unwrap();
    let inner: mlua::Table = table.get::<mlua::Table>("a").unwrap().get("b").unwrap();
    assert_eq!(2, inner.get::<i64>(2).unwrap());
    assert_eq!(Some(MarshalError::ParseFailure), json_str_to_lua_table(&lua, "3").err());
    assert_eq!(Some(MarshalError::ParseFailure), json_str_to_lua_table(&lua, "{").err());
}

#[test]
fn tables_are_read_down_to_the_depth_given() {
    let sandbox = Internal::new();
    sandbox.load_script("nested = {a = {b = {}}}").unwrap();
    let nested = sandbox.global("nested");
    let expected = DynamicValue::Table(vec![text_key(
        "a",
        DynamicValue::Table(vec![text_key("b", DynamicValue::Opaque)]),
    )]);
    assert!(same_dynamic(&expected, &from_lua(&nested, 2)));
    let whole = DynamicValue::Table(vec![text_key(
        "a",
        DynamicValue::Table(vec![text_key("b", DynamicValue::Table(vec![]))]),
    )]);
    assert!(same_dynamic(&whole, &from_lua(&nested, 3)));
    assert!(same_dynamic(&whole, &from_lua(&nested, MARSHAL_DEPTH)));
}

#[test]
fn integer_valued_floats_are_read_as_integers() {
    assert!(same_json(&JsonValue::Integer(1), &parse_json("1.0").unwrap()));
    assert!(same_json(&JsonValue::Integer(0), &parse_json("-0.0").unwrap()));
    assert!(same_json(&JsonValue::Integer(1000), &parse_json("1e3").unwrap()));
    assert!(same_json(&JsonValue::Integer(-42), &parse_json("-42.0").unwrap()));
    assert!(same_json(
        &JsonValue::Integer(4503599627370497),
        &parse_json("4503599627370497.0").unwrap()
    ));
    assert!(same_json(
        &JsonValue::Integer(i64::MIN),
        &parse_json("-9223372036854775808.0").unwrap()
    ));
    assert!(matches!(parse_json("9223372036854775807.0").unwrap(), JsonValue::Float(_)));
    assert!(matches!(parse_json("1e19").unwrap(), JsonValue::Float(_)));
    assert!(matches!(parse_json("2.5").unwrap(), JsonValue::Float(_)));
    assert!(matches!(parse_json("1e-3").unwrap(), JsonValue::Float(_)));

    let one = JsonValue::Float(1.0f64.to_bits());
    assert!(same_dynamic(&DynamicValue::Integer(1), &to_dynamic(&one)));
    assert!(same_json(&JsonValue::Integer(1), &to_json(&to_dynamic(&one)).unwrap()));
    let tree = JsonValue::Array(vec![JsonValue::Float(3.0f64.to_bits()), JsonValue::Float(0.5f64.to_bits())]);
    let back = to_json(&to_dynamic(&tree)).unwrap();
    assert!(same_json(
        &JsonValue::Array(vec![JsonValue::Integer(3), JsonValue::Float(0.5f64.to_bits())]),
        &back
    ));
}

#[test]
fn a_float_written_as_json_comes_back_from_the_interpreter_as_an_integer() {
    let sandbox = Internal::new();
    let json = parse_json("[1.0, 2.5]").unwrap();
    let built = json_to_lua(sandbox.lua(), &json).unwrap();
    sandbox.lua().globals().set("built", built).unwrap();
    let back = lua_to_json(&sandbox.global("built")).unwrap();
    assert!(same_json(
        &JsonValue::Array(vec![JsonValue::Integer(1), JsonValue::Float(2.5f64.to_bits())]),
        &back
    ));
}

#[test]
fn the_integer_of_a_float_is_what_the_machine_says() {
    let samples = [
        0.0f64, -0.0, 1.0, -1.0, 0.5, 1.5, 2.0, 3.0, 1e3, 1e15, 1e18, 9.2e18, 1e19, -1e19,
        4503599627370496.0, 4503599627370497.0, 9007199254740992.0, 9223372036854775808.0,
        -9223372036854775808.0, -9223372036854777856.0, 9223372036854774784.0, 0.1, 1e-300,
        5e-324, f64::MAX, f64::MIN, f64::INFINITY, f64::NEG_INFINITY, f64::NAN, 123456789.0,
        123456789.25, -7.0, -7.75, 4294967296.0, 2147483648.5,
    ];
    for x in samples {
        let expected = if x.is_finite()
            && x.fract() == 0.0
            && x >= -9223372036854775808.0
            && x < 9223372036854775808.0
        {
            Some(x as i64)
        } else {
            None
        };
        assert_eq!(expected, float_integer(x.to_bits()), "{}", x);
    }
    for n in [-1000i64, -1, 0, 1, 7, 1 << 40, (1 << 53) - 1, 1 << 62, -(1 << 62)] {
        assert_eq!(Some(n), float_integer((n as f64).to_bits()));
    }
}

#[test]
fn a_copy_is_the_same_value() {
    let value = DynamicValue::Table(vec![
        int_key(1, DynamicValue::Text("a".to_string())),
        text_key("t", DynamicValue::Table(vec![int_key(2, DynamicValue::Number(7))])),
        text_key("f", DynamicValue::Function),
    ]);
    assert!(same_dynamic(&value, &duplicate(&value)));
}

use libmll::builtin::{Builtin, Builtins};
use libmll::builtins::add_two::{add_two, AddTwo};
use libmll::builtins::builtin::BuiltinFunction;
use libmll::builtins::datetime::{
    datetime_format, datetime_offset, offset_seconds, DateTimeFormat, DateTimeOffset, Moment,
    MomentFields,
};
use libmll::builtins::exec::{is_space, trim_end, Exec, ExecResult};
use libmll::builtins::lua_utils::{JsonToTable, TableToJson};
use libmll::builtins::random::{random_int, random_string, RandomInt, RandomString};
use libmll::builtins::render::{render_with_script, render_with_table, Render};
use libmll::builtins::s::{shift_jis, ShiftJis};
use libmll::builtins::simple_http::{
    HttpRequest, MllHttpMethod, SendHttpRequest, SimpleHttpDelete, SimpleHttpGet, SimpleHttpPost,
    SimpleHttpPut,
};
use libmll::builtins::sql::{
    ConnectMySql, Connection, MySql, MySqlConnectionConfig, NoDb, SessionRegistry,
};
use libmll::errors::BuiltinExecutionError;
use libmll::include_tag::IncludeTag;
use libmll::sandbox::Internal;
use libmll::Mll;

#[test]
fn test_datetime_format() {
    let template = "{{formatted_datetime}}";
    let mut mll = Mll::new();
    mll.set_template(template.to_owned());
    mll.set_pre_process_script(
        r#"
            local datetime = {
                year = 2020,
                month = 1,
                day = 2,
                hour = 12,
                min = 34,
                sec = 56
            };

            formatted_datetime = datetime_format(datetime, "%Y年%m月%d日　%H時%M分%S秒");
        "#
        .to_string(),
    );

    let rendered = mll.render_lua_globals();
    let expected = "2020年01月02日　12時34分56秒";
    assert_eq!(expected, rendered.unwrap());
}

#[test]
fn test_datetime_offset() {
    let template = "{{formatted_datetime}}";
    let mut mll = Mll::new();
    mll.set_template(template.to_owned());
    mll.set_pre_process_script(
        r#"
            local datetime = {
                year = 2020,
                month = 1,
                day = 2,
                hour = 12,
                min = 34,
                sec = 56
            };

            datetime = datetime_offset(datetime, 1, -2, 3, -4, 5);

            formatted_datetime = datetime_format(datetime, "%Y年%m月%d日　%H時%M分%S秒");
        "#
        .to_string(),
    );

    let rendered = mll.render_lua_globals();
    let expected = "2020年01月07日　15時31分01秒";
    assert_eq!(expected, rendered.unwrap());
}

#[test]
fn test_datetime_offset_nil() {
    let template = "{{formatted_datetime}}";
    let mut mll = Mll::new();
    mll.set_template(template.to_owned());
    mll.set_pre_process_script(
        r#"
            local datetime = {
                year = 2020,
                month = 1,
                day = 2,
                hour = 12,
                min = 34,
                sec = 56
            };

            datetime = datetime_offset(datetime, nil, nil, nil, nil, nil);

            formatted_datetime = datetime_format(datetime, "%Y年%m月%d日　%H時%M分%S秒");
        "#
        .to_string(),
    );

    let rendered = mll.render_lua_globals();
    let expected = "2020年01月02日　12時34分56秒";
    assert_eq!(expected, rendered.unwrap());
}

#[test]
fn test_random_int() {
    let mut mll = Mll::new();

    let template = r#"{{a}},{{b}},{{c}}"#;
    let script = r#"
            a = random_int(1, 100)
            b = random_int(-100, 0)
            c = random_int(-100, 100)
        "#;

    mll.set_template(template.to_string());
    let rendered = mll.render_with_lua(script);

    let split = rendered
        .unwrap()
        .split(",")
        .map(|s| s.to_string())
        .collect::<Vec<String>>();

    assert_eq!(3, split.len());

    assert!(split[0].parse::<i32>().unwrap() >= 1);
    assert!(split[0].parse::<i32>().unwrap() <= 100);

    assert!(split[1].parse::<i32>().unwrap() >= -100);
    assert!(split[1].parse::<i32>().unwrap() <= 0);

    assert!(split[2].parse::<i32>().unwrap() >= -100);
    assert!(split[2].parse::<i32>().unwrap() <= 100);

    assert_ne!(split[0], split[1]);
    assert_ne!(split[0], split[2]);
    assert_ne!(split[1], split[2]);
}

#[test]
fn test_random_string() {
    let mut mll = Mll::new();

    let template = r#"{{a}},{{b}},{{c}}"#;
    let script = r#"
            a = random_string(10)
            b = random_string(20)
            c = random_string(30)
        "#;

    mll.set_template(template.to_string());
    let rendered = mll.render_with_lua(script);

    let split = rendered
        .unwrap()
        .split(",")
        .map(|s| s.to_string())
        .collect::<Vec<String>>();

    assert_eq!(3, split.len());

    assert_eq!(10, split[0].len());
    assert_eq!(20, split[1].len());
    assert_eq!(30, split[2].len());

    assert!(!split[1].contains(&split[0]));
    assert!(!split[2].contains(&split[0]));
}

#[test]
fn test_render_with_table() {
    let template = r#"{"data": {{content}}, "name": "{{name}}", "age": {{age}}}"#;
    let script = r#"
            local table = {
                name="John Doe",
                age=21,
            }
            name = "Jane Doe"
            age = 20
            content = render('{"name": "{{name}}", "age": {{age}}}', table)
        "#;

    let mut mll = Mll::new();
    mll.set_template(template.to_string());

    let render = mll.render_with_lua(script);

    let expected = r#"{"data": {"name": "John Doe", "age": 21}, "name": "Jane Doe", "age": 20}"#;

    assert_eq!(expected, render.unwrap());
}

fn moment(year: i32, month: u32, day: u32, hour: u32, min: u32, sec: u32) -> Moment {
    Moment { year, month, day, hour, min, sec }
}

#[test]
fn offset_then_format() {
    let start = moment(2020, 1, 2, 12, 34, 56);
    let then = datetime_offset(&start, Some(1), Some(-2), Some(3), Some(-4), Some(5)).unwrap();
    assert_eq!(moment(2020, 1, 7, 15, 31, 1), then);
    assert_eq!(
        Ok("2020-01-07 15:31:01".to_string()),
        datetime_format(&then, "%Y-%m-%d %H:%M:%S")
    );
}

#[test]
fn offset_without_components_keeps_the_moment() {
    let start = moment(2020, 1, 2, 12, 34, 56);
    assert_eq!(Ok(start), datetime_offset(&start, None, None, None, None, None));
}

#[test]
fn offset_crosses_month_and_leap_day() {
    let start = moment(2020, 2, 28, 23, 59, 59);
    assert_eq!(
        Ok(moment(2020, 2, 29, 0, 0, 0)),
        datetime_offset(&start, None, None, None, None, Some(1))
    );
    assert_eq!(
        Ok(moment(2020, 3, 1, 23, 59, 59)),
        datetime_offset(&start, None, Some(2), None, None, None)
    );
    assert_eq!(
        Ok(moment(2019, 12, 31, 23, 59, 59)),
        datetime_offset(&start, Some(-8), Some(-3), None, None, None)
    );
}

#[test]
fn offset_seconds_sums_the_components() {
    assert_eq!(Some(0), offset_seconds(None, None, None, None, None));
    assert_eq!(
        Some(604800 - 2 * 86400 + 3 * 3600 - 4 * 60 + 5),
        offset_seconds(Some(1), Some(-2), Some(3), Some(-4), Some(5))
    );
    assert_eq!(Some(i64::MAX), offset_seconds(None, None, None, None, Some(i64::MAX)));
    assert_eq!(None, offset_seconds(None, None, None, Some(1), Some(i64::MAX)));
    assert_eq!(None, offset_seconds(Some(i64::MIN), None, None, None, None));
    assert_eq!(
        Some(i64::MIN),
        offset_seconds(None, None, None, Some(-1), Some(i64::MIN + 60))
    );
}

#[test]
fn offset_errors() {
    let start = moment(2020, 1, 2, 12, 34, 56);
    assert_eq!(
        Err(BuiltinExecutionError::Overflow),
        datetime_offset(&start, Some(i64::MAX), None, None, None, None)
    );
    assert_eq!(
        Err(BuiltinExecutionError::InvalidMoment),
        datetime_offset(&start, None, None, None, None, Some(i64::MAX))
    );
    let no_date = moment(2021, 2, 29, 0, 0, 0);
    assert_eq!(
        Err(BuiltinExecutionError::InvalidMoment),
        datetime_offset(&no_date, None, None, None, None, None)
    );
    let no_time = moment(2021, 1, 1, 24, 0, 0);
    assert_eq!(
        Err(BuiltinExecutionError::InvalidMoment),
        datetime_offset(&no_time, None, None, None, None, None)
    );
}

#[test]
fn format_errors() {
    let start = moment(2020, 1, 2, 12, 34, 56);
    assert_eq!(Err(BuiltinExecutionError::InvalidPattern), datetime_format(&start, "%Q"));
    let no_date = moment(2020, 13, 1, 0, 0, 0);
    assert_eq!(Err(BuiltinExecutionError::InvalidMoment), datetime_format(&no_date, "%Y"));
    assert_eq!(Ok("12h".to_string()), datetime_format(&start, "%Hh"));
}

#[test]
fn absent_fields_come_from_the_epoch() {
    assert_eq!(
        moment(1970, 1, 1, 0, 0, 0),
        Moment::from_fields(None, None, None, None, None, None)
    );
    assert_eq!(
        moment(2020, 1, 2, 0, 0, 56),
        Moment::from_fields(Some(2020), None, Some(2), None, None, Some(56))
    );
    let fields = MomentFields {
        year: None,
        month: Some(7),
        day: None,
        hour: Some(8),
        min: Some(9),
        sec: None,
    };
    assert_eq!(moment(1970, 7, 1, 8, 9, 0), fields.moment());
}

#[test]
fn datetime_of_a_table_without_fields() {
    let sandbox = Internal::new();
    sandbox
        .load_script("text = datetime_format({}, '%Y-%m-%d %H:%M:%S')")
        .unwrap();
    let mut mll = Mll::new();
    mll.set_template("{{text}}".to_string());
    assert_eq!(Ok("1970-01-01 00:00:00".to_string()), mll.render(&sandbox.globals()));
}

#[test]
fn random_int_stays_in_range() {
    for _ in 0..1000 {
        let v = random_int(1, 100).unwrap();
        assert!(1 <= v && v < 100);
    }
    for _ in 0..100 {
        assert_eq!(Ok(7), random_int(7, 8));
    }
    assert_eq!(Err(BuiltinExecutionError::EmptyRange), random_int(5, 5));
    assert_eq!(Err(BuiltinExecutionError::EmptyRange), random_int(6, 5));
}

#[test]
fn random_string_is_alphanumeric() {
    for _ in 0..100 {
        let text = random_string(10);
        assert_eq!(10, text.chars().count());
        assert!(text.chars().all(|c| c.is_ascii_alphanumeric()));
    }
    assert_eq!("", random_string(0));
    assert_ne!(random_string(32), random_string(32));
}

#[test]
fn add_two_adds_two() {
    assert_eq!(Ok(3), add_two(1));
    assert_eq!(Ok(-1), add_two(-3));
    assert_eq!(Ok(i32::MAX), add_two(i32::MAX - 2));
    assert_eq!(Err(BuiltinExecutionError::Overflow), add_two(i32::MAX - 1));
    assert_eq!(Err(BuiltinExecutionError::Overflow), add_two(i32::MAX));
}

#[test]
fn shift_jis_string_of_the_interpreter() {
    let lua = mlua::Lua::new();
    let string = libmll::utils::lua_string_to_shift_jis(&lua, "あい").unwrap();
    assert_eq!(vec![0x82u8, 0xa0, 0x82, 0xa2], string.as_bytes().to_vec());
}

#[test]
fn shift_jis_bytes_of_text() {
    assert_eq!(Ok(b"abc".to_vec()), shift_jis("abc"));
    assert_eq!(Ok(vec![0x82, 0xa0]), shift_jis("あ"));
    assert_eq!(Ok(vec![0x93, 0xfa, 0x96, 0x7b]), shift_jis("日本"));
    assert_eq!(Ok(Vec::new()), shift_jis(""));
}

#[test]
fn callables_are_installed_in_a_sandbox() {
    let sandbox = Internal::new();
    sandbox
        .load_script(
            r#"
            three = add_two(1)
            kana = s("あ")
            text = table_to_json({1, 2, 3})
            object = table_to_json({name = "x"})
            parsed = json_to_table('{"a": [10, 20], "b": "c"}')
            second = parsed.a[2]
            name = parsed.b
        "#,
        )
        .unwrap();
    let mut mll = Mll::new();
    mll.set_template("{{three}}|{{text}}|{{object}}|{{second}}|{{name}}".to_string());
    assert_eq!(
        Ok(r#"3|[1,2,3]|{"name":"x"}|20|c"#.to_string()),
        mll.render(&sandbox.globals())
    );
    let kana: mlua::String = sandbox.lua().globals().get("kana").unwrap();
    assert_eq!(vec![0x82u8, 0xa0], kana.as_bytes().to_vec());
}

#[test]
fn failing_callables_fail_the_script() {
    let sandbox = Internal::new();
    assert!(sandbox.load_script("x = random_int(3, 3)").is_err());
    assert!(sandbox.load_script("x = add_two(2147483647)").is_err());
    assert!(sandbox.load_script("x = json_to_table('not json')").is_err());
    assert!(sandbox.load_script("x = json_to_table('1')").is_err());
    assert!(sandbox.load_script("x = table_to_json({f = print})").is_err());
    assert!(sandbox.load_script("x = datetime_format({month = 13}, '%Y')").is_err());
    assert!(sandbox.load_script("x = render('', nil)").is_err());
    assert!(sandbox.load_script("x = add_two(1)").is_ok());
}

#[test]
fn names_of_the_callables() {
    assert_eq!("add_two", AddTwo.get_name());
    assert_eq!("s", ShiftJis.get_name());
    assert_eq!("random_int", RandomInt.get_name());
    assert_eq!("random_string", RandomString.get_name());
    assert_eq!("datetime_format", DateTimeFormat.get_name());
    assert_eq!("datetime_offset", DateTimeOffset.get_name());
    assert_eq!("table_to_json", TableToJson.get_name());
    assert_eq!("json_to_table", JsonToTable.get_name());
    assert_eq!("render", Render.get_name());
    assert_eq!("exec", Exec.get_name());
    assert_eq!("simple_http_get", SimpleHttpGet.get_name());
    assert_eq!("simple_http_post", SimpleHttpPost.get_name());
    assert_eq!("simple_http_put", SimpleHttpPut.get_name());
    assert_eq!("simple_http_delete", SimpleHttpDelete.get_name());
    assert_eq!("send_http_request", SendHttpRequest.get_name());
    assert_eq!("connect_mysql", ConnectMySql {}.get_name());
    assert_eq!("execute_sql", MySql.get_name());
    assert_eq!("mysql", MySqlConnectionConfig::default().get_name());
    assert_eq!("", NoDb::default().get_name());
    assert_eq!("include", IncludeTag::new().tag());
    assert_eq!("", IncludeTag::new().description());
}

#[test]
fn a_callable_can_be_installed_alone() {
    let lua = mlua::Lua::new();
    assert!(lua.load("x = add_two(1)").exec().is_err());
    AddTwo.set_function(&lua).unwrap();
    lua.load("x = add_two(40)").exec().unwrap();
    assert_eq!(42, lua.globals().get::<i32>("x").unwrap());

    let all = mlua::Lua::new();
    assert_eq!(Ok(()), Builtins::init(&all));
    all.load("y = random_string(5)").exec().unwrap();
    assert_eq!(5, all.globals().get::<String>("y").unwrap().len());
}

#[test]
fn render_callable_functions() {
    let sandbox = Internal::new();
    sandbox.load_script("name = 'n'").unwrap();
    assert_eq!(
        Ok("<n>".to_string()),
        render_with_table("<{{name}}>".to_string(), &sandbox.globals())
    );
    assert_eq!(
        Err("<>".to_string()),
        render_with_table("<{{other}}>".to_string(), &sandbox.globals())
    );
    assert_eq!(
        Ok("<7>".to_string()),
        render_with_script("<{{v}}>".to_string(), "v = add_two(5)")
    );
}

#[test]
fn exec_result_of_output() {
    let result =
        ExecResult::from_output(Some(0), b"rustc 1.0 (x)\n\n".to_vec(), b" \t\n".to_vec()).unwrap();
    assert_eq!(0, result.code);
    assert_eq!("rustc 1.0 (x)", result.stdout);
    assert_eq!("", result.stderr);

    let kept = ExecResult::from_output(Some(3), b"  a b".to_vec(), "é\u{3000}".as_bytes().to_vec())
        .unwrap();
    assert_eq!(3, kept.code);
    assert_eq!("  a b", kept.stdout);
    assert_eq!("é", kept.stderr);

    assert_eq!(
        Some(BuiltinExecutionError::LaunchFailure),
        ExecResult::from_output(None, Vec::new(), Vec::new()).err()
    );
    assert_eq!(
        Some(BuiltinExecutionError::NonUtf8Output),
        ExecResult::from_output(Some(0), vec![0xff], Vec::new()).err()
    );
    assert_eq!(
        Some(BuiltinExecutionError::NonUtf8Output),
        ExecResult::from_output(Some(0), Vec::new(), vec![0xc3]).err()
    );
}

#[test]
fn trailing_whitespace_is_trimmed_as_std_does() {
    for text in ["", " ", "a", "a \n\t", " a ", "a\u{a0}", "a\u{2003}\u{3000}", "a\u{200b}", "\u{85}"] {
        assert_eq!(text.trim_end(), trim_end(text));
    }
    for n in 0..0x3100u32 {
        if let Some(c) = char::from_u32(n) {
            assert_eq!(c.is_whitespace(), is_space(c));
        }
    }
}

#[test]
fn http_methods() {
    assert_eq!(Ok(MllHttpMethod::GET), MllHttpMethod::parse("GET"));
    assert_eq!(Ok(MllHttpMethod::POST), MllHttpMethod::parse("post"));
    assert_eq!(Ok(MllHttpMethod::PUT), MllHttpMethod::parse("Put"));
    assert_eq!(Ok(MllHttpMethod::DELETE), MllHttpMethod::parse("dELETE"));
    assert_eq!(Err(BuiltinExecutionError::UnsupportedMethod), MllHttpMethod::parse("PATCH"));
    assert_eq!(Err(BuiltinExecutionError::UnsupportedMethod), MllHttpMethod::parse(""));
    assert_eq!(Err(BuiltinExecutionError::UnsupportedMethod), MllHttpMethod::parse("GET "));
    assert_eq!("GET", MllHttpMethod::GET.to_string());
    assert_eq!("POST", MllHttpMethod::POST.to_string());
    assert_eq!("PUT", MllHttpMethod::PUT.to_string());
    assert_eq!("DELETE", MllHttpMethod::DELETE.to_string());
    assert_eq!(MllHttpMethod::GET, MllHttpMethod::default());
}

#[test]
fn http_request_shape() {
    let request = HttpRequest::new(
        "http://localhost/".to_string(),
        "put",
        vec![("a".to_string(), "b".to_string())],
        "body".to_string(),
    )
    .unwrap();
    assert_eq!("http://localhost/", request.url());
    assert_eq!(&MllHttpMethod::PUT, request.method());
    assert_eq!(&vec![("a".to_string(), "b".to_string())], request.header());
    assert_eq!("body", request.body());

    assert_eq!(
        Some(BuiltinExecutionError::UnsupportedMethod),
        HttpRequest::new(String::new(), "FETCH", Vec::new(), String::new()).err()
    );

    let default = HttpRequest::default();
    assert_eq!("", default.url());
    assert_eq!(&MllHttpMethod::GET, default.method());
    assert!(default.header().is_empty());
    assert_eq!("", default.body());
}

#[test]
fn sql_sessions() {
    let default = MySqlConnectionConfig::default();
    assert_eq!("localhost", default.host);
    assert_eq!(3306, default.port);
    assert_eq!("", default.database);
    assert_eq!("", default.username);
    assert_eq!("", default.password);
    assert!(matches!(Connection::default(), Connection::NoDb(_)));

    let mut registry = SessionRegistry::new();
    assert_eq!(
        Some(BuiltinExecutionError::UnknownSession),
        registry.lookup("none").err()
    );
    let mut first = MySqlConnectionConfig::default();
    first.database = "one".to_string();
    let mut second = MySqlConnectionConfig::default();
    second.database = "two".to_string();
    let a = registry.connect(first);
    let b = registry.connect(second);
    assert_eq!(32, a.len());
    assert!(a.chars().all(|c| c.is_ascii_digit() || ('a'..='f').contains(&c)));
    assert_ne!(a, b);
    assert_eq!("one", registry.lookup(&a).unwrap().database);
    assert_eq!("two", registry.lookup(&b).unwrap().database);
    assert!(registry.lookup("").is_err());
}

#[test]
fn error_messages() {
    assert_eq!("Unknown http method", BuiltinExecutionError::UnsupportedMethod.message());
    assert_eq!("failed to execute process", BuiltinExecutionError::LaunchFailure.message());
    assert_eq!(
        "Unsupported Lua value",
        BuiltinExecutionError::Marshal(libmll::marshal::MarshalError::Unsupported).message()
    );
}

#[test]
fn nested_waits_are_refused() {
    let mut bridge = libmll::bridge::Bridge::new();
    assert!(!bridge.active);
    assert_eq!(Ok(()), bridge.enter());
    assert!(bridge.active);
    assert_eq!(Err(BuiltinExecutionError::NestedBridge), bridge.enter());
    assert!(bridge.active);
    bridge.leave();
    assert!(!bridge.active);
    assert_eq!(Ok(()), bridge.enter());
    assert_eq!(
        "blocking wait within a blocking wait",
        BuiltinExecutionError::NestedBridge.message()
    );
}

#[test]
fn the_registry_lists_what_a_sandbox_installs() {
    let names = Builtins::names();
    assert_eq!(
        vec![
            "add_two",
            "s",
            "random_int",
            "random_string",
            "datetime_format",
            "datetime_offset",
            "table_to_json",
            "json_to_table",
            "render"
        ],
        names
    );
    let registry = Builtins::registry();
    assert_eq!(9, registry.len());
    assert_eq!(Builtin::AddTwo, registry[0]);
    assert_eq!(Builtin::Render, registry[8]);
    let sandbox = Internal::new();
    for entry in registry {
        let script = format!("found = type({}) == 'function'", entry.name());
        sandbox.load_script(&script).unwrap();
        assert!(sandbox.lua().globals().get::<bool>("found").unwrap(), "{}", entry.name());
    }
    let bare = mlua::Lua::new();
    assert!(bare.load("x = add_two(1)").exec().is_err());
    Builtin::AddTwo.install(&bare).unwrap();
    assert!(bare.load("x = add_two(1)").exec().is_ok());
    assert!(bare.load("x = s('a')").exec().is_err());
}

use slua::prettify::pformat;
use slua::prettify::pformat_bounded;
use slua::prettify::Prettify;
use slua::value::FunctionInfo;
use slua::value::HostObject;
use slua::value::Table;
use slua::value::Value;

fn text(s: &str) -> Value {
    Value::Str(s.to_string())
}

fn table(entries: Vec<(Value, Value)>) -> Value {
    Value::Table(Table { entries, meta: None })
}

fn nested(levels: usize) -> Value {
    let mut v = Value::Int(7);
    for _ in 0..levels {
        v = table(vec![(text("next"), v)]);
    }
    v
}

#[test]
fn scalars_format_as_their_literals() {
    assert_eq!(pformat(&Value::Int(42), 0), "42");
    assert_eq!(pformat(&text("x"), 0), "\"x\"");
    assert_eq!(pformat(&Value::Nil, 0), "nil");
    assert_eq!(pformat(&Value::Bool(true), 0), "true");
    assert_eq!(pformat(&Value::Bool(false), 0), "false");
}

#[test]
fn integers_format_losslessly() {
    assert_eq!(pformat(&Value::Int(0), 0), "0");
    assert_eq!(pformat(&Value::Int(9), 0), "9");
    assert_eq!(pformat(&Value::Int(10), 0), "10");
    assert_eq!(pformat(&Value::Int(-7), 0), "-7");
    assert_eq!(pformat(&Value::Int(1000), 0), "1000");
    assert_eq!(pformat(&Value::Int(i64::MAX), 0), "9223372036854775807");
    assert_eq!(pformat(&Value::Int(i64::MIN), 0), "-9223372036854775808");
    for i in [-1234567_i64, -1, 5, 99, 100, 65535, 1 << 40] {
        assert_eq!(pformat(&Value::Int(i), 0).parse::<i64>(), Ok(i));
    }
}

#[test]
fn floats_and_errors_format_as_their_text() {
    assert_eq!(pformat(&Value::Float("1.5".to_string()), 0), "1.5");
    assert_eq!(pformat(&Value::Float("1e300".to_string()), 4), "1e300");
    assert_eq!(pformat(&Value::Error("boom".to_string()), 0), "boom");
}

#[test]
fn strings_are_quoted_and_escaped() {
    assert_eq!(pformat(&text(""), 0), "\"\"");
    assert_eq!(pformat(&text("a\"b"), 0), "\"a\\\"b\"");
    assert_eq!(pformat(&text("line\nbreak"), 0), "\"line\\nbreak\"");
    assert_eq!(pformat(&text("back\\slash"), 0), "\"back\\\\slash\"");
    assert_eq!(pformat(&text("tab\t"), 0), "\"tab\\t\"");
}

#[test]
fn nested_table_is_a_two_level_block() {
    let inner = table(vec![(text("b"), Value::Int(1))]);
    let outer = table(vec![(text("a"), inner)]);
    assert_eq!(pformat(&outer, 0), "{\n  \"a\" = {\n    \"b\" = 1\n  }\n}");
}

#[test]
fn table_entries_are_joined_by_comma_and_line_break() {
    let t = table(vec![(Value::Int(1), text("one")), (Value::Int(2), Value::Bool(false))]);
    assert_eq!(pformat(&t, 0), "{\n  1 = \"one\",\n  2 = false\n}");
    assert_eq!(pformat(&t, 3), "{\n     1 = \"one\",\n     2 = false\n   }");
}

#[test]
fn empty_table_has_one_line_of_two_spaces() {
    assert_eq!(pformat(&table(vec![]), 0), "{\n  \n}");
    assert_eq!(pformat(&table(vec![]), 2), "{\n  \n  }");
}

#[test]
fn function_text_names_what_is_known() {
    let anonymous = Value::Function(FunctionInfo { name: None, line: None });
    assert_eq!(pformat(&anonymous, 0), "Function(line: ???)");
    let named = Value::Function(FunctionInfo { name: Some("setup".to_string()), line: Some(12) });
    assert_eq!(pformat(&named, 0), "Function(setup, line: 12)");
    let located = Value::Function(FunctionInfo { name: None, line: Some(0) });
    assert_eq!(pformat(&located, 0), "Function(line: 0)");
    let only_named = Value::Function(FunctionInfo { name: Some("f".to_string()), line: None });
    assert_eq!(pformat(&only_named, 0), "Function(f, line: ???)");
}

#[test]
fn host_objects_are_not_looked_into() {
    assert_eq!(pformat(&Value::HostObject(HostObject::Opaque("userdata".to_string())), 3), "Any");
    assert_eq!(pformat(&Value::HostObject(HostObject::Bytes), 0), "Any");
    assert_eq!(pformat(&Value::HostObject(HostObject::Thread), 0), "Thread");
    assert_eq!(pformat(&Value::HostObject(HostObject::Pointer), 5), "Pointer");
    let config = slua::config::Config::default();
    assert_eq!(pformat(&Value::HostObject(HostObject::Config(config)), 0), "Any");
}

#[test]
fn tables_below_the_depth_limit_are_elided() {
    assert_eq!(pformat_bounded(&table(vec![]), 0, 0), "...");
    assert_eq!(pformat_bounded(&Value::Int(3), 0, 0), "3");
    assert_eq!(pformat_bounded(&nested(2), 0, 1), "{\n  \"next\" = ...\n}");
    assert_eq!(
        pformat_bounded(&nested(2), 0, 2),
        "{\n  \"next\" = {\n    \"next\" = 7\n  }\n}"
    );
}

#[test]
fn very_deep_values_give_finite_text() {
    let deep = nested(200);
    let out = pformat(&deep, 0);
    assert!(out.contains("..."));
    assert!(!out.contains("7"));
    assert_eq!(out.matches('{').count(), slua::prettify::DEPTH_LIMIT);
    let shallow = nested(slua::prettify::DEPTH_LIMIT);
    assert!(pformat(&shallow, 0).contains("= 7"));
}

#[test]
fn formatting_twice_gives_the_same_text() {
    let t = table(vec![
        (text("a"), nested(3)),
        (text("b"), Value::Float("0.25".to_string())),
        (Value::Int(1), Value::Nil),
    ]);
    assert_eq!(pformat(&t, 0), pformat(&t, 0));
    assert_eq!(pformat(&t, 5), pformat(&t, 5));
}

#[test]
fn print_line_joins_arguments_with_spaces() {
    assert_eq!(Prettify::pprint(&vec![]), "");
    assert_eq!(Prettify::pprint(&vec![Value::Int(1)]), "1");
    assert_eq!(
        Prettify::pprint(&vec![Value::Int(1), text("two"), Value::Nil]),
        "1 \"two\" nil"
    );
}

#[test]
fn stringify_takes_an_optional_indent() {
    let t = table(vec![(text("k"), Value::Int(1))]);
    assert_eq!(Prettify::pstring(&t, None), "{\n  \"k\" = 1\n}");
    assert_eq!(Prettify::pstring(&t, Some(0)), "{\n  \"k\" = 1\n}");
    assert_eq!(Prettify::pstring(&t, Some(2)), "{\n    \"k\" = 1\n  }");
    assert_eq!(Prettify::pstring(&t, Some(-5)), "{\n  \"k\" = 1\n}");
    assert_eq!(Prettify::module_name(), "pretty");
}

#[test]
fn depth_limit_leaves_shallow_values_whole() {
    let v = nested(3);
    let at_three = pformat_bounded(&v, 0, 3);
    assert!(!at_three.contains("..."));
    for depth in [4, 5, 17, slua::prettify::DEPTH_LIMIT] {
        assert_eq!(pformat_bounded(&v, 0, depth), at_three);
    }
    assert_eq!(pformat(&v, 0), at_three);
    assert!(pformat_bounded(&v, 0, 2).contains("..."));
}

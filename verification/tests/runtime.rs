use mlua::Lua;
use slua::error::BridgeError;
use slua::error::PluginField;
use slua::error::Shape;
use slua::plugin::Plugins;
use slua::runtime::capture;
use slua::runtime::capture_lenient;
use slua::runtime::extended_path;
use slua::runtime::get_plugins;
use slua::runtime::Import;
use slua::runtime::LuaExt;
use slua::runtime::new_plugin;
use slua::runtime::pformat_value;
use slua::runtime::register_module;
use slua::runtime::Require;
use slua::runtime::resolve_module;
use slua::runtime::search_path;
use slua::value::HostObject;
use slua::value::Value;

fn eval<'lua>(lua: &'lua Lua, source: &str) -> mlua::Value<'lua> {
    lua.load(source).eval::<mlua::Value>().unwrap()
}

const ECHO: &str = "return {name = 'Echo', version = '1.0', author = 'A', description = 'D', \
                    setup = function(info) seen = info.name .. '/' .. info.version .. '/' .. \
                    info.author .. '/' .. info.description; print(info.name) end}";

#[test]
fn runtime_scalars_format_as_their_literals() {
    let lua = Lua::new();
    assert_eq!(pformat_value(&eval(&lua, "return 42"), 0).unwrap(), "42");
    assert_eq!(pformat_value(&eval(&lua, "return -3"), 0).unwrap(), "-3");
    assert_eq!(pformat_value(&eval(&lua, "return 'x'"), 0).unwrap(), "\"x\"");
    assert_eq!(pformat_value(&eval(&lua, "return nil"), 0).unwrap(), "nil");
    assert_eq!(pformat_value(&eval(&lua, "return true"), 0).unwrap(), "true");
    assert_eq!(pformat_value(&eval(&lua, "return 1.5"), 0).unwrap(), "1.5");
    assert_eq!(pformat_value(&eval(&lua, "return 0.1"), 0).unwrap(), "0.1");
}

#[test]
fn runtime_tables_format_as_nested_blocks() {
    let lua = Lua::new();
    let value = eval(&lua, "return {a = {b = 1}}");
    assert_eq!(pformat_value(&value, 0).unwrap(), "{\n  \"a\" = {\n    \"b\" = 1\n  }\n}");
    let list = eval(&lua, "return {'x', 'y'}");
    assert_eq!(pformat_value(&list, 0).unwrap(), "{\n  1 = \"x\",\n  2 = \"y\"\n}");
}

#[test]
fn runtime_functions_format_with_their_line() {
    let lua = Lua::new();
    let scripted = eval(&lua, "\n\nreturn function() end");
    assert_eq!(pformat_value(&scripted, 0).unwrap(), "Function(line: 3)");
    let native = mlua::Value::Function(lua.create_function(|_, ()| Ok(())).unwrap());
    assert_eq!(pformat_value(&native, 0).unwrap(), "Function(line: ???)");
}

#[test]
fn table_that_contains_itself_gives_finite_text() {
    let lua = Lua::new();
    let value = eval(&lua, "local t = {}; t.me = t; return t");
    let out = pformat_value(&value, 0).unwrap();
    assert!(out.starts_with("{\n  \"me\" = {\n    \"me\" = {"));
    assert!(out.contains("\"me\" = ..."));
    assert_eq!(out.matches('{').count(), slua::prettify::DEPTH_LIMIT);
    assert_eq!(out, pformat_value(&value, 0).unwrap());
}

#[test]
fn capture_stops_at_the_given_depth() {
    let lua = Lua::new();
    let value = eval(&lua, "return {inner = {deep = 1}, n = 1}");
    match capture(&value, 0).unwrap() {
        Value::Table(t) => assert!(t.entries.is_empty()),
        other => panic!("unexpected {:?}", other),
    }
    match capture(&value, 1).unwrap() {
        Value::Table(t) => {
            assert_eq!(t.entries.len(), 2);
            assert!(matches!(t.get("n"), Some(Value::Int(1))));
            assert!(matches!(t.get("inner"), Some(Value::Table(inner)) if inner.entries.is_empty()));
        }
        other => panic!("unexpected {:?}", other),
    }
    match capture(&value, 2).unwrap() {
        Value::Table(t) => {
            assert!(
                matches!(t.get("inner"), Some(Value::Table(inner)) if matches!(inner.get("deep"), Some(Value::Int(1))))
            );
        }
        other => panic!("unexpected {:?}", other),
    }
}

#[test]
fn capture_takes_every_kind_of_value() {
    let lua = Lua::new();
    assert!(matches!(capture(&eval(&lua, "return nil"), 3), Ok(Value::Nil)));
    assert!(matches!(capture(&eval(&lua, "return false"), 3), Ok(Value::Bool(false))));
    assert!(matches!(capture(&eval(&lua, "return 7"), 3), Ok(Value::Int(7))));
    assert!(matches!(capture(&eval(&lua, "return 2.5"), 3), Ok(Value::Float(s)) if s == "2.5"));
    assert!(matches!(capture(&eval(&lua, "return 'hi'"), 3), Ok(Value::Str(s)) if s == "hi"));
    assert!(matches!(
        capture(&eval(&lua, "return print"), 3),
        Ok(Value::Function(f)) if f.line.is_none()
    ));
    assert!(matches!(
        capture(&eval(&lua, "return coroutine.create(function() end)"), 3),
        Ok(Value::HostObject(HostObject::Thread))
    ));
    assert!(matches!(
        capture(&mlua::Value::LightUserData(mlua::LightUserData(std::ptr::null_mut())), 3),
        Ok(Value::HostObject(HostObject::Pointer))
    ));
    assert!(matches!(
        capture(&mlua::Value::UserData(lua.create_any_userdata(7_u8).unwrap()), 3),
        Ok(Value::HostObject(HostObject::Opaque(kind))) if kind == "userdata"
    ));
    assert_eq!(
        pformat_value(&eval(&lua, "return coroutine.create(function() end)"), 0).unwrap(),
        "Thread"
    );
    let error = mlua::Value::Error(mlua::Error::RuntimeError("boom".to_string()));
    assert!(matches!(capture(&error, 3), Ok(Value::Error(m)) if m.contains("boom")));
}

#[test]
fn string_that_is_not_text_is_a_type_mismatch() {
    let lua = Lua::new();
    let value = eval(&lua, "return '\\255\\254'");
    assert_eq!(
        capture(&value, 1).err(),
        Some(BridgeError::TypeMismatch { expected: Shape::Text })
    );
    assert_eq!(
        pformat_value(&value, 0),
        Err(BridgeError::TypeMismatch { expected: Shape::Text })
    );
}

#[test]
fn registered_runtime_module_resolves() {
    let lua = Lua::new();
    let table = lua.create_table().unwrap();
    table.set("answer", 42).unwrap();
    register_module(&lua, "host", table).unwrap();
    assert_eq!(lua.load("return host.answer").eval::<i64>().unwrap(), 42);
    let module = resolve_module(&lua, "host").unwrap();
    assert_eq!(module.get::<_, i64>("answer").unwrap(), 42);
    assert_eq!(lua.load("return getmetatable(host)").eval::<String>().unwrap(), "host");
}

#[test]
fn script_that_replaces_a_module_is_noticed() {
    let lua = Lua::new();
    register_module(&lua, "host", lua.create_table().unwrap()).unwrap();
    lua.load("host = {answer = 1}").exec().unwrap();
    assert_eq!(
        resolve_module(&lua, "host").err(),
        Some(BridgeError::ModuleOverridden { name: "host".to_string() })
    );
    lua.load("host = nil").exec().unwrap();
    assert!(resolve_module(&lua, "host").is_err());
    assert!(resolve_module(&lua, "never").is_err());
    assert!(resolve_module(&lua, "string").is_err());
}

#[test]
fn registering_keeps_an_existing_metatable() {
    let lua = Lua::new();
    let table: mlua::Table =
        lua.load("return setmetatable({}, {__index = function() return 'fallback' end})").eval().unwrap();
    let first = table.get_metatable().unwrap();
    register_module(&lua, "host", table.clone()).unwrap();
    let after = table.get_metatable().unwrap();
    assert_eq!(first, after);
    assert_eq!(after.raw_get::<_, String>("__metatable").unwrap(), "host");
    assert_eq!(lua.load("return host.anything").eval::<String>().unwrap(), "fallback");
    assert!(resolve_module(&lua, "host").is_ok());
}

#[test]
fn echo_plugin_registers_and_enumerates() {
    let lua = Lua::new();
    lua.require::<Plugins>().unwrap();
    let mut plugins = Plugins::new();
    let data = eval(&lua, ECHO);
    assert_eq!(new_plugin(&lua, &mut plugins, &data), Ok(()));
    assert_eq!(lua.globals().get::<_, String>("seen").unwrap(), "Echo/1.0/A/D");
    for found in [plugins.get_plugins().unwrap(), get_plugins(&lua).unwrap()] {
        assert_eq!(found.len(), 1);
        assert_eq!(found[0].name, "Echo");
        assert_eq!(found[0].version, "1.0");
        assert_eq!(found[0].author, "A");
        assert_eq!(found[0].description, "D");
        assert!(found[0].has_hook("setup"));
    }
    assert_eq!(lua.load("return #plugins.plugins").eval::<i64>().unwrap(), 1);
    assert_eq!(lua.load("return plugins.plugins[1].name").eval::<String>().unwrap(), "Echo");
    assert_eq!(lua.load("return type(plugins.plugins[1].setup)").eval::<String>().unwrap(), "function");
}

#[test]
fn plugins_module_starts_with_an_empty_list() {
    let lua = Lua::new();
    assert_eq!(<Plugins as Import>::module_name(), "plugins");
    lua.require::<Plugins>().unwrap();
    assert_eq!(lua.load("return #plugins.plugins").eval::<i64>().unwrap(), 0);
    assert_eq!(lua.load("return getmetatable(plugins)").eval::<String>().unwrap(), "plugins");
    assert_eq!(get_plugins(&lua), Ok(vec![]));
}

#[test]
fn registration_needs_the_plugins_module() {
    let lua = Lua::new();
    let mut plugins = Plugins::new();
    let data = eval(&lua, ECHO);
    assert_eq!(
        new_plugin(&lua, &mut plugins, &data),
        Err(BridgeError::ModuleOverridden { name: "plugins".to_string() })
    );
    assert!(plugins.list.is_empty());
    assert!(get_plugins(&lua).is_err());
    lua.require::<Plugins>().unwrap();
    lua.load("plugins.plugins = 5").exec().unwrap();
    assert_eq!(
        new_plugin(&lua, &mut plugins, &data),
        Err(BridgeError::TypeMismatch { expected: Shape::Table })
    );
    assert!(plugins.list.is_empty());
}

#[test]
fn entry_that_a_script_changed_fails_the_enumeration() {
    let lua = Lua::new();
    lua.require::<Plugins>().unwrap();
    let mut plugins = Plugins::new();
    new_plugin(&lua, &mut plugins, &eval(&lua, ECHO)).unwrap();
    lua.load("plugins.plugins[1].author = 7").exec().unwrap();
    assert_eq!(
        get_plugins(&lua),
        Err(BridgeError::MalformedPlugin { field: PluginField::Author })
    );
    assert_eq!(plugins.get_plugins().unwrap().len(), 1);
}

#[test]
fn imported_table_takes_its_slot_without_a_tag() {
    let lua = Lua::new();
    let table = lua.create_table().unwrap();
    table.set("k", 1).unwrap();
    Require::import(&lua, "plain", table).unwrap();
    assert_eq!(lua.load("return plain.k").eval::<i64>().unwrap(), 1);
    assert!(resolve_module(&lua, "plain").is_err());
}

#[test]
fn runtime_setup_failure_fails_the_registration() {
    let lua = Lua::new();
    lua.require::<Plugins>().unwrap();
    let mut plugins = Plugins::new();
    let data = eval(
        &lua,
        "return {name = 'Bad', version = '1', author = 'A', description = 'D', \
         setup = function() error('nope') end}",
    );
    match new_plugin(&lua, &mut plugins, &data) {
        Err(BridgeError::HookFailure { message }) => assert!(message.contains("nope")),
        other => panic!("unexpected {:?}", other),
    }
    assert!(plugins.list.is_empty());
    assert_eq!(get_plugins(&lua), Ok(vec![]));
}

#[test]
fn runtime_descriptor_is_validated_before_setup() {
    let lua = Lua::new();
    lua.require::<Plugins>().unwrap();
    let mut plugins = Plugins::new();
    let data = eval(
        &lua,
        "return {name = 'Bad', version = 1, author = 'A', description = 'D', \
         setup = function() ran = true end}",
    );
    assert_eq!(
        new_plugin(&lua, &mut plugins, &data),
        Err(BridgeError::MalformedPlugin { field: PluginField::Version })
    );
    assert!(lua.globals().get::<_, Option<bool>>("ran").unwrap().is_none());
    assert_eq!(
        new_plugin(&lua, &mut plugins, &eval(&lua, "return 5")),
        Err(BridgeError::TypeMismatch { expected: Shape::Table })
    );
    assert!(plugins.list.is_empty());
}

#[test]
fn runtime_plugins_keep_registration_order() {
    let lua = Lua::new();
    lua.require::<Plugins>().unwrap();
    let mut plugins = Plugins::new();
    for name in ["a", "b", "c"] {
        let source = format!(
            "return {{name = '{}', version = '1', author = 'A', description = 'D'}}",
            name
        );
        new_plugin(&lua, &mut plugins, &eval(&lua, &source)).unwrap();
    }
    let names: Vec<String> = plugins.get_plugins().unwrap().into_iter().map(|p| p.name).collect();
    assert_eq!(names, vec!["a", "b", "c"]);
    let seen: Vec<String> = get_plugins(&lua).unwrap().into_iter().map(|p| p.name).collect();
    assert_eq!(seen, vec!["a", "b", "c"]);
}

#[test]
fn search_path_is_joined_with_semicolons() {
    assert_eq!(search_path(&[]), "");
    assert_eq!(search_path(&["a/?.lua"]), "a/?.lua");
    assert_eq!(search_path(&["a/?.lua", "b/?/init.lua"]), "a/?.lua;b/?/init.lua");
    assert_eq!(extended_path("x", &[]), "x");
    assert_eq!(extended_path("x", &["y", "z"]), "x;y;z");
    assert_eq!(extended_path("", &["y"]), ";y");
}

#[test]
fn runtime_search_path_is_read_and_written() {
    let mut lua = Lua::new();
    lua.set_paths(&["a/?.lua", "b/?/init.lua"]).unwrap();
    assert_eq!(lua.path().unwrap(), "a/?.lua;b/?/init.lua");
    assert_eq!(lua.load("return package.path").eval::<String>().unwrap(), "a/?.lua;b/?/init.lua");
    lua.append_path("c/?.lua").unwrap();
    assert_eq!(lua.path().unwrap(), "a/?.lua;b/?/init.lua;c/?.lua");
    lua.append_paths(&["d", "e"]).unwrap();
    assert_eq!(lua.path().unwrap(), "a/?.lua;b/?/init.lua;c/?.lua;d;e");
    lua.set_path("only").unwrap();
    assert_eq!(lua.path().unwrap(), "only");
}

#[test]
fn search_path_needs_the_package_table() {
    let mut lua = Lua::new();
    lua.load("package = nil").exec().unwrap();
    assert_eq!(lua.path(), Err(BridgeError::TypeMismatch { expected: Shape::Table }));
    assert_eq!(lua.set_path("x"), Err(BridgeError::TypeMismatch { expected: Shape::Table }));
    assert!(lua.append_path("x").is_err());
}

#[test]
fn runtime_that_refuses_a_write_is_a_runtime_failure() {
    let lua = Lua::new();
    lua.load("setmetatable(_G, {__newindex = function() error('locked') end})").exec().unwrap();
    match register_module(&lua, "fresh", lua.create_table().unwrap()) {
        Err(BridgeError::Runtime { message }) => assert!(message.contains("locked")),
        other => panic!("unexpected {:?}", other),
    }
    match Require::import(&lua, "other", lua.create_table().unwrap()) {
        Err(BridgeError::Runtime { message }) => assert!(message.contains("locked")),
        other => panic!("unexpected {:?}", other),
    }
    assert!(matches!(lua.require::<Plugins>(), Err(BridgeError::Runtime { .. })));
}

#[test]
fn search_path_has_to_be_a_string() {
    let mut lua = Lua::new();
    lua.load("package.path = 5").exec().unwrap();
    assert_eq!(lua.path(), Err(BridgeError::TypeMismatch { expected: Shape::Text }));
    assert!(lua.append_paths(&["x"]).is_err());
    lua.set_path("fixed").unwrap();
    assert_eq!(lua.path().unwrap(), "fixed");
}

#[test]
fn identity_tag_of_another_kind_does_not_resolve() {
    let lua = Lua::new();
    lua.load("host = setmetatable({}, {__metatable = 7})").exec().unwrap();
    assert!(resolve_module(&lua, "host").is_err());
    lua.load("host = setmetatable({}, {__metatable = 'other'})").exec().unwrap();
    assert!(resolve_module(&lua, "host").is_err());
    lua.load("host = setmetatable({}, {__metatable = 'host'})").exec().unwrap();
    assert!(resolve_module(&lua, "host").is_ok());
}

#[test]
fn value_that_is_no_table_is_owed_its_failure() {
    let lua = Lua::new();
    lua.require::<Plugins>().unwrap();
    let mut plugins = Plugins::new();
    for source in ["return nil", "return true", "return 1.5", "return 'name'", "return print"] {
        assert_eq!(
            new_plugin(&lua, &mut plugins, &eval(&lua, source)),
            Err(BridgeError::TypeMismatch { expected: Shape::Table })
        );
    }
    assert_eq!(
        new_plugin(&lua, &mut plugins, &eval(&lua, "return '\\255'")),
        Err(BridgeError::TypeMismatch { expected: Shape::Table })
    );
    assert!(plugins.list.is_empty());
    assert_eq!(get_plugins(&lua), Ok(vec![]));
}

#[test]
fn entries_are_taken_over_in_the_order_of_the_runtime() {
    let lua = Lua::new();
    let value = eval(&lua, "return {'a', 'b', 'c', 'd'}");
    match capture(&value, 1).unwrap() {
        Value::Table(t) => {
            assert_eq!(t.entries.len(), 4);
            for (i, expected) in ["a", "b", "c", "d"].iter().enumerate() {
                assert!(matches!(&t.entries[i].0, Value::Int(k) if *k == i as i64 + 1));
                assert!(matches!(&t.entries[i].1, Value::Str(s) if s == expected));
            }
        }
        other => panic!("unexpected {:?}", other),
    }
}

#[test]
fn lenient_capture_goes_on_past_strings_that_are_no_text() {
    let lua = Lua::new();
    let value = eval(&lua, "return {good = 'x', bad = '\\255\\254', deep = {worse = '\\255'}}");
    assert_eq!(
        capture(&value, 2).err(),
        Some(BridgeError::TypeMismatch { expected: Shape::Text })
    );
    match capture_lenient(&value, 2).unwrap() {
        Value::Table(t) => {
            assert_eq!(t.entries.len(), 3);
            assert!(matches!(t.get("good"), Some(Value::Str(s)) if s == "x"));
            assert!(matches!(t.get("bad"), Some(Value::HostObject(HostObject::Bytes))));
            assert!(matches!(
                t.get("deep"),
                Some(Value::Table(deep))
                    if matches!(deep.get("worse"), Some(Value::HostObject(HostObject::Bytes)))
            ));
        }
        other => panic!("unexpected {:?}", other),
    }
    assert!(matches!(
        capture_lenient(&eval(&lua, "return '\\255'"), 0),
        Ok(Value::HostObject(HostObject::Bytes))
    ));
    assert!(matches!(capture_lenient(&eval(&lua, "return 'ok'"), 0), Ok(Value::Str(s)) if s == "ok"));
}

#[test]
fn descriptor_may_hold_strings_that_are_no_text_beside_its_fields() {
    let lua = Lua::new();
    lua.require::<Plugins>().unwrap();
    let mut plugins = Plugins::new();
    let good = eval(
        &lua,
        "return {name = 'N', version = '1', author = 'A', description = 'D', blob = '\\255'}",
    );
    assert_eq!(new_plugin(&lua, &mut plugins, &good), Ok(()));
    let bad = eval(
        &lua,
        "return {name = 'N', version = '1', author = '\\255', description = 'D'}",
    );
    assert_eq!(
        new_plugin(&lua, &mut plugins, &bad),
        Err(BridgeError::MalformedPlugin { field: PluginField::Author })
    );
    assert_eq!(get_plugins(&lua).unwrap().len(), 1);
}

#[test]
fn runtime_errors_are_taken_over_with_their_message() {
    let error = mlua::Value::Error(mlua::Error::RuntimeError("boom".to_string()));
    assert_eq!(pformat_value(&error, 0).unwrap(), mlua::Error::RuntimeError("boom".to_string()).to_string());
}

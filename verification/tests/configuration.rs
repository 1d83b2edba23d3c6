use slua::config::Config;
use slua::config::Features;
use slua::config::Paths;
use slua::config::Settings;
use slua::error::BridgeError;
use slua::error::Shape;
use slua::value::HostObject;
use slua::value::Table;
use slua::value::Value;

fn text(s: &str) -> Value {
    Value::Str(s.to_string())
}

fn table(entries: Vec<(Value, Value)>) -> Value {
    Value::Table(Table { entries, meta: None })
}

fn empty_paths() -> Paths {
    Paths { projects: String::new(), download: String::new(), build: String::new() }
}

#[test]
fn empty_table_gives_the_empty_configuration() {
    let config = Config::from_value(&table(vec![])).unwrap();
    assert_eq!(config.get_paths(), empty_paths());
    assert_eq!(config.get_features(), Features { show_docker_logs: false });
    let settings = Settings::from_table(&Table::new());
    assert_eq!(settings.paths, empty_paths());
    assert_eq!(settings.features, Features { show_docker_logs: false });
    assert_eq!(Paths::from_value(&table(vec![])), Ok(empty_paths()));
    assert_eq!(Features::from_value(&table(vec![])), Ok(Features { show_docker_logs: false }));
    assert_eq!(Paths::default(), empty_paths());
    assert_eq!(Features::default(), Features { show_docker_logs: false });
}

#[test]
fn default_configuration_is_empty() {
    let config = Config::default();
    assert_eq!(config.get_paths(), empty_paths());
    assert_eq!(config.get_features(), Features { show_docker_logs: false });
}

#[test]
fn table_fields_fill_the_groups() {
    let value = table(vec![
        (
            text("paths"),
            table(vec![(text("projects"), text("/srv/p")), (text("build"), Value::Int(12))]),
        ),
        (text("features"), table(vec![(text("show_docker_logs"), Value::Bool(true))])),
    ]);
    let config = Config::from_value(&value).unwrap();
    assert_eq!(
        config.get_paths(),
        Paths { projects: "/srv/p".to_string(), download: String::new(), build: "12".to_string() }
    );
    assert_eq!(config.get_features(), Features { show_docker_logs: true });
}

#[test]
fn groups_of_another_kind_count_as_missing() {
    let value = table(vec![(text("paths"), Value::Int(3)), (text("features"), text("yes"))]);
    let settings = match &value {
        Value::Table(t) => Settings::from_table(t),
        _ => unreachable!(),
    };
    assert_eq!(settings.paths, empty_paths());
    assert_eq!(settings.features, Features { show_docker_logs: false });
}

#[test]
fn path_fields_are_text_or_numbers() {
    let value = table(vec![
        (text("projects"), Value::Bool(true)),
        (text("download"), Value::Float("1.5".to_string())),
        (text("build"), Value::Int(-3)),
    ]);
    assert_eq!(
        Paths::from_value(&value),
        Ok(Paths { projects: String::new(), download: "1.5".to_string(), build: "-3".to_string() })
    );
}

#[test]
fn switches_follow_script_truth() {
    let given = |v: Value| Features::from_value(&table(vec![(text("show_docker_logs"), v)]));
    assert_eq!(given(Value::Nil), Ok(Features { show_docker_logs: false }));
    assert_eq!(given(Value::Bool(false)), Ok(Features { show_docker_logs: false }));
    assert_eq!(given(Value::Bool(true)), Ok(Features { show_docker_logs: true }));
    assert_eq!(given(Value::Int(0)), Ok(Features { show_docker_logs: true }));
    assert_eq!(given(text("")), Ok(Features { show_docker_logs: true }));
}

#[test]
fn host_groups_are_taken_as_they_are() {
    let p = Paths { projects: "a".to_string(), download: "b".to_string(), build: "c".to_string() };
    assert_eq!(Paths::from_value(&Value::HostObject(HostObject::Paths(p.clone()))), Ok(p.clone()));
    assert_eq!(p.duplicate(), p);
    let f = Features { show_docker_logs: true };
    assert_eq!(Features::from_value(&Value::HostObject(HostObject::Features(f))), Ok(f));
}

#[test]
fn values_of_the_wrong_kind_are_type_mismatches() {
    for v in [Value::Nil, Value::Int(1), text("config"), Value::Bool(true)] {
        assert_eq!(
            Config::from_value(&v).err(),
            Some(BridgeError::TypeMismatch { expected: Shape::Config })
        );
        assert_eq!(Paths::from_value(&v), Err(BridgeError::TypeMismatch { expected: Shape::Paths }));
        assert_eq!(
            Features::from_value(&v),
            Err(BridgeError::TypeMismatch { expected: Shape::Features })
        );
    }
    let unreadable = table(vec![
        (text("projects"), Value::HostObject(HostObject::Bytes)),
        (text("show_docker_logs"), Value::HostObject(HostObject::Bytes)),
    ]);
    assert_eq!(Paths::from_value(&unreadable), Ok(empty_paths()));
    assert_eq!(Features::from_value(&unreadable), Ok(Features { show_docker_logs: true }));
    let opaque = Value::HostObject(HostObject::Opaque("userdata".to_string()));
    assert!(Config::from_value(&opaque).is_err());
    assert!(Paths::from_value(&opaque).is_err());
}

#[test]
fn bridged_handle_shares_its_storage() {
    let first = Config::default();
    let again = Config::from_value(&Value::HostObject(HostObject::Config(first.alias()))).unwrap();
    let written =
        Paths { projects: "/p".to_string(), download: "/d".to_string(), build: "/b".to_string() };
    again.set_paths(written.clone());
    again.set_features(Features { show_docker_logs: true });
    assert_eq!(first.get_paths(), written);
    assert_eq!(first.get_features(), Features { show_docker_logs: true });
    assert!(first.shares_storage(&again));
    assert!(again.shares_storage(&first));
    first.set_features(Features { show_docker_logs: false });
    assert_eq!(again.get_features(), Features { show_docker_logs: false });
}

#[test]
fn table_gives_storage_of_its_own() {
    let value = table(vec![]);
    let one = Config::from_value(&value).unwrap();
    let two = Config::from_value(&value).unwrap();
    one.set_features(Features { show_docker_logs: true });
    assert_eq!(two.get_features(), Features { show_docker_logs: false });
    assert!(!one.shares_storage(&two));
    assert!(one.shares_storage(&one.alias()));
    assert!(one.shares_storage(&one.clone()));
}

#[test]
fn groups_are_written_independently() {
    let config = Config::default();
    config.set_features(Features { show_docker_logs: true });
    assert_eq!(config.get_paths(), empty_paths());
    let snapshot = config.snapshot();
    assert_eq!(snapshot.features, Features { show_docker_logs: true });
    assert_eq!(snapshot.paths, empty_paths());
}

#[test]
fn display_is_compact_or_pretty() {
    let config = Config::new(
        Paths { projects: "p".to_string(), download: "d".to_string(), build: "b".to_string() },
        Features { show_docker_logs: true },
    );
    assert_eq!(
        config.to_display(false),
        "{ paths = { projects = \"p\", download = \"d\", build = \"b\" }, features = { show_docker_logs = true } }"
    );
    assert_eq!(
        config.to_display(true),
        "{\n  paths = {\n    projects = \"p\",\n    download = \"d\",\n    build = \"b\"\n  },\n  features = {\n    show_docker_logs = true\n  }\n}"
    );
    assert_eq!(config.lua_fmt(false, 3), config.to_display(false));
}

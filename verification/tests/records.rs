use slua::config::Features;
use slua::config::Paths;
use slua::config::Settings;
use slua::lua::LuaFmt;
use slua::lua::LuaStructFormat;

fn paths(projects: &str, download: &str, build: &str) -> Paths {
    Paths {
        projects: projects.to_string(),
        download: download.to_string(),
        build: build.to_string(),
    }
}

#[test]
fn scalar_fields_format_without_regard_to_the_mode() {
    assert_eq!("x".to_string().lua_fmt(false, 0), "\"x\"");
    assert_eq!("a\"b".to_string().lua_fmt(true, 3), "\"a\"b\"");
    assert_eq!(true.lua_fmt(true, 9), "true");
    assert_eq!(false.lua_fmt(false, 0), "false");
    assert_eq!((&true).lua_fmt(false, 0), "true");
}

#[test]
fn compact_record_is_one_line() {
    let record = LuaStructFormat::new(false, 0).field("a", true).field("b", "x".to_string());
    assert_eq!(record.to_string(), "{ a = true, b = \"x\" }");
    let indented = LuaStructFormat::new(false, 4).field("a", true);
    assert_eq!(indented.to_string(), "{ a = true }");
}

#[test]
fn pretty_record_has_a_line_for_each_field() {
    let record = LuaStructFormat::new(true, 0).field("a", true).field("b", "x".to_string());
    assert_eq!(record.to_string(), "{\n  a = true,\n  b = \"x\"\n}");
    let deeper = LuaStructFormat::new(true, 1).field("a", true).field("b", false);
    assert_eq!(deeper.to_string(), "{\n    a = true,\n    b = false\n  }");
}

#[test]
fn record_without_fields() {
    assert_eq!(LuaStructFormat::new(false, 0).to_string(), "{  }");
    assert_eq!(LuaStructFormat::new(true, 0).to_string(), "{\n  \n}");
    assert_eq!(LuaStructFormat::new(true, 2).to_string(), "{\n      \n    }");
}

#[test]
fn paths_format_as_a_record_of_quoted_paths() {
    let p = paths("/p", "/d", "/b");
    assert_eq!(p.lua_fmt(false, 0), "{ projects = \"/p\", download = \"/d\", build = \"/b\" }");
    assert_eq!(
        p.lua_fmt(true, 0),
        "{\n  projects = \"/p\",\n  download = \"/d\",\n  build = \"/b\"\n}"
    );
}

#[test]
fn features_format_as_a_record_of_switches() {
    assert_eq!(Features { show_docker_logs: true }.lua_fmt(false, 0), "{ show_docker_logs = true }");
    assert_eq!(
        Features { show_docker_logs: false }.lua_fmt(true, 0),
        "{\n  show_docker_logs = false\n}"
    );
}

#[test]
fn settings_nest_their_groups_one_level_deeper() {
    let s = Settings { paths: paths("a", "b", "c"), features: Features { show_docker_logs: true } };
    assert_eq!(
        s.lua_fmt(false, 0),
        "{ paths = { projects = \"a\", download = \"b\", build = \"c\" }, features = { show_docker_logs = true } }"
    );
    assert_eq!(
        s.lua_fmt(true, 0),
        "{\n  paths = {\n    projects = \"a\",\n    download = \"b\",\n    build = \"c\"\n  },\n  features = {\n    show_docker_logs = true\n  }\n}"
    );
}

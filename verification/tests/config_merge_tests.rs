use ember::config_merge::{
    config_object, deep_merge, key_less, parse_config_text, ConfigEntry, ConfigLoader, ConfigSource, JsonValue, MergedConfig,
};
use ember::error::Error;

fn s(x: &str) -> JsonValue {
    JsonValue::Str(x.to_string())
}

fn n(x: i64) -> JsonValue {
    JsonValue::Number(x.to_string())
}

fn members(ms: Vec<(&str, JsonValue)>) -> Vec<(String, JsonValue)> {
    ms.into_iter().map(|(k, v)| (k.to_string(), v)).collect()
}

fn obj(ms: Vec<(&str, JsonValue)>) -> JsonValue {
    JsonValue::Object(members(ms))
}

fn field<'a>(v: &'a JsonValue, key: &str) -> Option<&'a JsonValue> {
    match v {
        JsonValue::Object(ms) => ms.iter().find(|(k, _)| k == key).map(|(_, v)| v),
        _ => None,
    }
}

fn entry(source: ConfigSource, path: &str, ms: Vec<(&str, JsonValue)>) -> ConfigEntry {
    ConfigEntry { source, path: path.to_string(), values: members(ms) }
}

fn loader_from_entries(entries: Vec<ConfigEntry>) -> MergedConfig {
    entries
        .into_iter()
        .fold(ConfigLoader::new(), |l, e| l.add_entry(e))
        .merge()
}

#[test]
fn deep_merge_scalars_replaced() {
    let mut base = obj(vec![("a", n(1))]);
    deep_merge(&mut base, &obj(vec![("a", n(2))]));
    assert_eq!(field(&base, "a"), Some(&n(2)));
}

#[test]
fn deep_merge_new_key_added() {
    let mut base = obj(vec![("a", n(1))]);
    deep_merge(&mut base, &obj(vec![("b", n(2))]));
    assert_eq!(field(&base, "a"), Some(&n(1)));
    assert_eq!(field(&base, "b"), Some(&n(2)));
}

#[test]
fn deep_merge_nested_objects_merged() {
    let mut base = obj(vec![("db", obj(vec![("host", s("localhost")), ("port", n(5432))]))]);
    deep_merge(&mut base, &obj(vec![("db", obj(vec![("port", n(9999))]))]));
    let db = field(&base, "db").unwrap();
    assert_eq!(field(db, "host"), Some(&s("localhost")));
    assert_eq!(field(db, "port"), Some(&n(9999)));
}

#[test]
fn deep_merge_array_replaced_not_merged() {
    let mut base = obj(vec![("tags", JsonValue::Array(vec![s("a"), s("b")]))]);
    deep_merge(&mut base, &obj(vec![("tags", JsonValue::Array(vec![s("c")]))]));
    assert_eq!(field(&base, "tags"), Some(&JsonValue::Array(vec![s("c")])));
}

#[test]
fn deep_merge_object_over_scalar() {
    let mut base = obj(vec![("key", s("scalar"))]);
    deep_merge(&mut base, &obj(vec![("key", obj(vec![("nested", JsonValue::Bool(true))]))]));
    let key = field(&base, "key").unwrap();
    assert_eq!(field(key, "nested"), Some(&JsonValue::Bool(true)));
}

#[test]
fn deep_merge_scalar_base_replaced_by_object() {
    let mut base = n(3);
    deep_merge(&mut base, &obj(vec![("a", JsonValue::Null)]));
    assert_eq!(base, obj(vec![("a", JsonValue::Null)]));
}

#[test]
fn deep_merge_keeps_member_order() {
    let mut base = obj(vec![("b", n(1)), ("a", n(2))]);
    deep_merge(&mut base, &obj(vec![("c", n(3)), ("a", n(4))]));
    assert_eq!(base, obj(vec![("b", n(1)), ("a", n(4)), ("c", n(3))]));
}

#[test]
fn merge_priority_local_beats_project() {
    let config = loader_from_entries(vec![
        entry(ConfigSource::Project, "p", vec![("x", s("project"))]),
        entry(ConfigSource::Local, "l", vec![("x", s("local"))]),
    ]);
    assert_eq!(config.get_value("x"), Some(&s("local")));
}

#[test]
fn merge_priority_project_beats_user() {
    let config = loader_from_entries(vec![
        entry(ConfigSource::User, "u", vec![("x", s("user"))]),
        entry(ConfigSource::Project, "p", vec![("x", s("project"))]),
    ]);
    assert_eq!(config.get_value("x"), Some(&s("project")));
}

#[test]
fn merge_priority_local_beats_user() {
    let config = loader_from_entries(vec![
        entry(ConfigSource::User, "u", vec![("x", s("user"))]),
        entry(ConfigSource::Local, "l", vec![("x", s("local"))]),
    ]);
    assert_eq!(config.get_value("x"), Some(&s("local")));
}

#[test]
fn merge_all_three_correct_winner() {
    let config = loader_from_entries(vec![
        entry(ConfigSource::User, "u", vec![("x", s("user"))]),
        entry(ConfigSource::Project, "p", vec![("x", s("project"))]),
        entry(ConfigSource::Local, "l", vec![("x", s("local"))]),
    ]);
    assert_eq!(config.get_value("x"), Some(&s("local")));
}

#[test]
fn merge_orders_entries_by_priority() {
    let config = loader_from_entries(vec![
        entry(ConfigSource::Local, "l", vec![("x", s("local"))]),
        entry(ConfigSource::User, "u", vec![("x", s("user"))]),
        entry(ConfigSource::Project, "p", vec![("x", s("project"))]),
    ]);
    let order: Vec<ConfigSource> = config.entries.iter().map(|e| e.source).collect();
    assert_eq!(order, vec![ConfigSource::User, ConfigSource::Project, ConfigSource::Local]);
    assert_eq!(config.get_value("x"), Some(&s("local")));
}

#[test]
fn get_returns_none_for_missing_key() {
    let config = loader_from_entries(vec![entry(ConfigSource::User, "u", vec![("a", n(1))])]);
    assert!(config.get_value("missing").is_none());
}

#[test]
fn get_deserialises_nested_struct() {
    let config = loader_from_entries(vec![entry(
        ConfigSource::Project,
        "p",
        vec![("db", obj(vec![("host", s("127.0.0.1")), ("port", n(5432))]))],
    )]);
    let db = config.get_value("db").unwrap();
    assert_eq!(field(db, "host"), Some(&s("127.0.0.1")));
    assert_eq!(field(db, "port"), Some(&n(5432)));
}

#[test]
fn get_source_returns_highest_priority_source() {
    let config = loader_from_entries(vec![
        entry(ConfigSource::User, "u", vec![("x", n(1))]),
        entry(ConfigSource::Project, "p", vec![("x", n(2))]),
    ]);
    assert_eq!(config.get_source("x"), Some(ConfigSource::Project));
}

#[test]
fn get_source_returns_none_for_absent_key() {
    let config = loader_from_entries(vec![entry(ConfigSource::User, "u", vec![("a", n(1))])]);
    assert!(config.get_source("nope").is_none());
}

#[test]
fn get_source_only_in_user() {
    let config = loader_from_entries(vec![
        entry(ConfigSource::User, "u", vec![("only_user", JsonValue::Bool(true))]),
        entry(ConfigSource::Project, "p", vec![("other", n(1))]),
    ]);
    assert_eq!(config.get_source("only_user"), Some(ConfigSource::User));
}

#[test]
fn format_debug_empty() {
    let config = MergedConfig::default();
    assert!(config.format_debug().contains("No configuration sources"));
}

#[test]
fn format_debug_lists_sources_and_keys() {
    let config = loader_from_entries(vec![
        entry(
            ConfigSource::User,
            "/home/u/.ember/config.json",
            vec![("model", s("gpt-4")), ("timeout", n(30))],
        ),
        entry(ConfigSource::Local, ".ember/config.local.json", vec![("debug", JsonValue::Bool(true))]),
    ]);
    let s = config.format_debug();
    assert!(s.contains("user"), "should list user source");
    assert!(s.contains("local"), "should list local source");
    assert!(s.contains("model"), "should list key model");
    assert!(s.contains("debug"), "should list key debug");
}

#[test]
fn format_debug_exact_text() {
    let config = loader_from_entries(vec![
        entry(ConfigSource::Project, "p.json", vec![("zeta", n(1)), ("alpha", n(2))]),
        entry(ConfigSource::User, "u.json", vec![]),
    ]);
    assert_eq!(
        config.format_debug(),
        "[user (~/.ember/config.json)]\n  path: u.json\n  (no keys)\n\
         [project (.ember/config.json)]\n  path: p.json\n  - alpha\n  - zeta\n\
         \nMerged keys (2): alpha, zeta\n"
    );
}

#[test]
fn source_labels_and_priorities() {
    assert_eq!(ConfigSource::User.label(), "user (~/.ember/config.json)");
    assert_eq!(ConfigSource::Project.label(), "project (.ember/config.json)");
    assert_eq!(ConfigSource::Local.label(), "local (.ember/config.local.json)");
    assert!(ConfigSource::User.priority() < ConfigSource::Project.priority());
    assert!(ConfigSource::Project.priority() < ConfigSource::Local.priority());
}

#[test]
fn discover_skips_known_paths() {
    let loader = ConfigLoader::new()
        .discover(vec![
            entry(ConfigSource::Project, "a", vec![("x", n(1))]),
            entry(ConfigSource::Local, "b", vec![("y", n(2))]),
        ])
        .discover(vec![
            entry(ConfigSource::Project, "a", vec![("x", n(3))]),
            entry(ConfigSource::Local, "c", vec![("z", n(4))]),
        ]);
    let config = loader.merge();
    let paths: Vec<&str> = config.entries.iter().map(|e| e.path.as_str()).collect();
    assert_eq!(paths, vec!["a", "b", "c"]);
    assert_eq!(config.get_value("x"), Some(&n(1)));
}

#[test]
fn config_object_accepts_object() {
    let values = config_object(obj(vec![("key", s("value")), ("num", n(42))]), "cfg.json").unwrap();
    assert_eq!(values, members(vec![("key", s("value")), ("num", n(42))]));
}

#[test]
fn config_object_rejects_array() {
    let r = config_object(JsonValue::Array(vec![n(1), n(2), n(3)]), "cfg.json");
    match r {
        Err(Error::Config(msg)) => assert_eq!(msg, "Config file must be a JSON object: cfg.json"),
        _ => panic!("expected a configuration error"),
    }
}

#[test]
fn key_order_is_string_order() {
    assert!(key_less("a", "b"));
    assert!(key_less("ab", "abc"));
    assert!(!key_less("abc", "ab"));
    assert!(!key_less("a", "a"));
    assert!(key_less("Z", "a"));
}

#[test]
fn config_text_object_is_read() {
    let r = parse_config_text("{\"model\": \"m\", \"depth\": 3}", "/etc/ember.json").unwrap();
    assert_eq!(r.len(), 2);
    assert!(r.iter().any(|(k, v)| k == "model" && *v == s("m")));
    assert!(r.iter().any(|(k, v)| k == "depth" && *v == n(3)));
}

#[test]
fn config_text_not_an_object_is_refused() {
    match parse_config_text("[1, 2]", "a.json") {
        Err(Error::Config(m)) => assert_eq!(m, "Config file must be a JSON object: a.json"),
        other => panic!("unexpected: {:?}", other),
    }
}

#[test]
fn config_text_invalid_json_names_the_file() {
    match parse_config_text("{ not json", "b.json") {
        Err(Error::Config(m)) => assert!(m.starts_with("Invalid JSON in b.json: ")),
        other => panic!("unexpected: {:?}", other),
    }
}

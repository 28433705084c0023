use meowpdf::migrate::{migrate, TomlValue};

fn text(s: &str) -> TomlValue {
    TomlValue::String(s.to_string())
}

fn table(entries: Vec<(&str, TomlValue)>) -> TomlValue {
    TomlValue::Table(entries.into_iter().map(|(k, v)| (k.to_string(), v)).collect())
}

/// 20.0, 1.5 and 0.2 as the bits of their binary form.
const TWENTY: u64 = 0x4034_0000_0000_0000;
const ONE_AND_A_HALF: u64 = 0x3FF8_0000_0000_0000;
const A_FIFTH: u64 = 0x3FC9_9999_9999_999A;

fn default_config() -> TomlValue {
    table(vec![
        (
            "viewer",
            table(vec![
                ("scroll_speed", TomlValue::Float(TWENTY)),
                ("render_precision", TomlValue::Float(ONE_AND_A_HALF)),
                ("memory_limit", TomlValue::Integer(314_572_800)),
                ("inverse_scroll", TomlValue::Boolean(false)),
                (
                    "uri_hint",
                    table(vec![
                        ("enabled", TomlValue::Boolean(true)),
                        ("background", text("blue")),
                        ("width", TomlValue::Float(A_FIFTH)),
                    ]),
                ),
            ]),
        ),
        ("bindings", table(vec![("q", text("Quit"))])),
    ])
}

fn lookup<'a>(value: &'a TomlValue, key: &str) -> Option<&'a TomlValue> {
    match value {
        TomlValue::Table(entries) => entries.iter().find(|(k, _)| k == key).map(|(_, v)| v),
        _ => None,
    }
}

fn keys(value: &TomlValue) -> Vec<String> {
    match value {
        TomlValue::Table(entries) => entries.iter().map(|(k, _)| k.clone()).collect(),
        _ => Vec::new(),
    }
}

fn render(value: &TomlValue) -> String {
    format!("{:?}", value)
}

#[test]
fn config_migration() {
    let stored = table(vec![
        ("nonsense", TomlValue::Boolean(true)),
        ("bindings", table(vec![("q", text("Quit"))])),
        (
            "viewer",
            table(vec![
                ("memory_limit", TomlValue::Integer(1000)),
                ("render_precision", TomlValue::Float(TWENTY)),
                ("scroll_speed", TomlValue::Float(A_FIFTH)),
                (
                    "uri_hint",
                    table(vec![
                        ("width", TomlValue::Float(ONE_AND_A_HALF)),
                        ("enabled", TomlValue::Boolean(false)),
                        ("background", text("red")),
                    ]),
                ),
            ]),
        ),
    ]);
    let migrated = migrate(&stored, &default_config());
    assert!(lookup(&migrated, "nonsense").is_none());
    assert_eq!(keys(&migrated), vec!["viewer", "bindings"]);
    let viewer = lookup(&migrated, "viewer").unwrap();
    assert_eq!(
        keys(viewer),
        vec!["scroll_speed", "render_precision", "memory_limit", "inverse_scroll", "uri_hint"]
    );
    assert!(matches!(lookup(viewer, "inverse_scroll"), Some(TomlValue::Boolean(false))));
    assert!(matches!(lookup(viewer, "memory_limit"), Some(TomlValue::Integer(1000))));
    assert!(matches!(lookup(viewer, "render_precision"), Some(TomlValue::Float(TWENTY))));
    assert!(matches!(lookup(viewer, "scroll_speed"), Some(TomlValue::Float(A_FIFTH))));
    let hint = lookup(viewer, "uri_hint").unwrap();
    assert_eq!(keys(hint), vec!["enabled", "background", "width"]);
    assert!(matches!(lookup(hint, "enabled"), Some(TomlValue::Boolean(false))));
    assert!(matches!(lookup(hint, "width"), Some(TomlValue::Float(ONE_AND_A_HALF))));
    match lookup(hint, "background") {
        Some(TomlValue::String(s)) => assert_eq!(s, "red"),
        _ => panic!("the user's colour is kept"),
    }
}

#[test]
fn migration_replaces_values_of_another_type() {
    let stored = table(vec![
        (
            "viewer",
            table(vec![
                ("memory_limit", text("a lot")),
                ("inverse_scroll", TomlValue::Integer(1)),
                ("uri_hint", TomlValue::Boolean(true)),
                ("scroll_speed", TomlValue::Integer(20)),
            ]),
        ),
        ("bindings", TomlValue::Array(vec![text("q")])),
    ]);
    let migrated = migrate(&stored, &default_config());
    let viewer = lookup(&migrated, "viewer").unwrap();
    assert!(matches!(lookup(viewer, "memory_limit"), Some(TomlValue::Integer(314_572_800))));
    assert!(matches!(lookup(viewer, "inverse_scroll"), Some(TomlValue::Boolean(false))));
    assert!(matches!(lookup(viewer, "scroll_speed"), Some(TomlValue::Float(TWENTY))));
    assert_eq!(render(lookup(viewer, "uri_hint").unwrap()), render(lookup(&default_config(), "viewer").and_then(|v| lookup(v, "uri_hint")).unwrap()));
    assert_eq!(render(lookup(&migrated, "bindings").unwrap()), render(&table(vec![("q", text("Quit"))])));
}

#[test]
fn migration_is_idempotent() {
    let inputs = vec![
        table(Vec::new()),
        TomlValue::Integer(3),
        default_config(),
        table(vec![
            ("viewer", table(vec![("memory_limit", TomlValue::Integer(5)), ("x", text("y"))])),
            ("viewer", TomlValue::Boolean(true)),
            ("bindings", table(vec![("q", text("Nothing")), ("w", text("Quit"))])),
        ]),
    ];
    for stored in inputs {
        let once = migrate(&stored, &default_config());
        let twice = migrate(&once, &default_config());
        assert_eq!(render(&once), render(&twice));
    }
}

#[test]
fn migration_of_the_default_changes_nothing() {
    let migrated = migrate(&default_config(), &default_config());
    assert_eq!(render(&migrated), render(&default_config()));
}

#[test]
fn migration_keeps_values_outside_tables_by_type() {
    let kept = migrate(&TomlValue::Integer(7), &TomlValue::Integer(1));
    assert!(matches!(kept, TomlValue::Integer(7)));
    let replaced = migrate(&text("7"), &TomlValue::Integer(1));
    assert!(matches!(replaced, TomlValue::Integer(1)));
    let array = migrate(&TomlValue::Array(vec![text("a")]), &TomlValue::Array(Vec::new()));
    assert_eq!(render(&array), render(&TomlValue::Array(vec![text("a")])));
    let date = migrate(&TomlValue::Datetime("1979-05-27".to_string()), &TomlValue::Datetime("2000-01-01".to_string()));
    assert_eq!(render(&date), render(&TomlValue::Datetime("1979-05-27".to_string())));
    assert!(TomlValue::Boolean(true).same_type(&TomlValue::Boolean(false)));
    assert!(!TomlValue::Boolean(true).same_type(&TomlValue::Integer(1)));
    assert_eq!(render(&default_config().duplicate()), render(&default_config()));
}

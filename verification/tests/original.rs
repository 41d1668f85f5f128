use herdr_scratch::config::{Config, ScopeKind, ScratchpadPlacement, SplitDirection};
use herdr_scratch::herdr::plugin_pane_member;
use herdr_scratch::json::Json;
use herdr_scratch::scratchpad::{normalize_name, resolve_scope, InvocationContext};
use herdr_scratch::text_map::TextMap;

fn text(s: &str) -> Json {
    Json::String(s.to_string())
}

fn object(entries: Vec<(&str, Json)>) -> Json {
    let mut m = TextMap::new();
    for (k, v) in entries {
        m.insert(k.to_string(), v);
    }
    Json::Object(m)
}

#[test]
fn default_config_has_public_defaults() {
    let config = Config::default();
    assert_eq!(config.default_scratchpad, "scratch");
    assert_eq!(config.scope.default, ScopeKind::Workspace);
    assert_eq!(config.behavior.placement, ScratchpadPlacement::Split);
    assert_eq!(config.behavior.split_direction, SplitDirection::Right);
    assert!(config.profiles.contains_key("default"));
}

#[test]
fn parses_plugin_pane_open_response() {
    let value = object(vec![
        ("id", text("req")),
        (
            "result",
            object(vec![
                ("type", text("plugin_pane_opened")),
                (
                    "plugin_pane",
                    object(vec![
                        ("plugin_id", text("herdr.scratch")),
                        ("entrypoint", text("scratch")),
                        (
                            "pane",
                            object(vec![
                                ("pane_id", text("w1:p2")),
                                ("workspace_id", text("w1")),
                                ("tab_id", text("w1:t2")),
                                ("focused", Json::Bool(true)),
                            ]),
                        ),
                    ]),
                ),
            ]),
        ),
    ]);
    let pane = plugin_pane_member(value).unwrap();
    assert_eq!(pane.get("pane_id").and_then(|v| v.as_str()).map(|s| s.as_str()), Some("w1:p2"));
    assert_eq!(pane.get("tab_id").and_then(|v| v.as_str()).map(|s| s.as_str()), Some("w1:t2"));
}

#[test]
fn name_validation_rejects_empty_names() {
    assert!(normalize_name(" ").is_err());
    assert_eq!(normalize_name("scratch").unwrap(), "scratch");
}

#[test]
fn cwd_scope_uses_context_cwd() {
    let context = InvocationContext {
        focused_pane_cwd: Some("/repo".into()),
        ..InvocationContext::default()
    };
    let scope = resolve_scope(ScopeKind::Cwd, &context);
    assert_eq!(scope.kind, "cwd");
    assert_eq!(scope.key, "/repo");
}

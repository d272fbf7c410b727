use devcontainer_mcp_core::devcontainer_config::{
    build_discovered, candidate_paths, classify, expected_labels, json_to_string_list, list_entries, listed_entry, rel_to,
    resolve_parsed_config, ConfigKind, ConfigRead, ResolvedConfig,
};
use devcontainer_mcp_core::json::JsonValue;

fn s(v: &str) -> JsonValue {
    JsonValue::String(v.to_string())
}

fn members(m: Vec<(&str, JsonValue)>) -> Vec<(String, JsonValue)> {
    m.into_iter().map(|(k, v)| (k.to_string(), v)).collect()
}

#[test]
fn classify_prefers_compose_then_dockerfile_then_image() {
    assert_eq!(classify(&members(vec![("dockerComposeFile", s("a.yml")), ("image", s("x"))])), ConfigKind::Compose);
    let build = JsonValue::Object(members(vec![("dockerfile", s("Dockerfile"))]));
    assert_eq!(classify(&members(vec![("build", build), ("image", s("x"))])), ConfigKind::Dockerfile);
    assert_eq!(classify(&members(vec![("dockerFile", s("Dockerfile"))])), ConfigKind::Dockerfile);
    assert_eq!(classify(&members(vec![("image", s("alpine"))])), ConfigKind::Image);
    let build_ctx = JsonValue::Object(members(vec![("context", s(".."))]));
    assert_eq!(classify(&members(vec![("build", build_ctx)])), ConfigKind::Unknown);
}

#[test]
fn compose_file_field_as_list() {
    assert_eq!(json_to_string_list(&s("a.yml")), vec!["a.yml"]);
    let arr = JsonValue::Array(vec![s("a.yml"), JsonValue::Bool(true), s("b.yml")]);
    assert_eq!(json_to_string_list(&arr), vec!["a.yml", "b.yml"]);
    assert!(json_to_string_list(&JsonValue::Null).is_empty());
}

#[test]
fn discovered_summary_of_a_compose_config() {
    let doc = JsonValue::Object(members(vec![
        ("name", s("Python")),
        ("dockerComposeFile", JsonValue::Array(vec![s("../../docker-compose.yml")])),
        ("service", s("python-api")),
        ("workspaceFolder", s("/workspace/py")),
    ]));
    let d = build_discovered(".devcontainer/python/devcontainer.json".to_string(), &doc);
    assert_eq!(d.path, ".devcontainer/python/devcontainer.json");
    assert_eq!(d.name.as_deref(), Some("Python"));
    assert_eq!(d.service.as_deref(), Some("python-api"));
    assert_eq!(d.docker_compose_file, vec!["../../docker-compose.yml"]);
    assert_eq!(d.workspace_folder.as_deref(), Some("/workspace/py"));
    assert_eq!(d.kind, ConfigKind::Compose);
    assert!(d.error.is_none());
    let bad = build_discovered("x.json".to_string(), &JsonValue::Array(vec![]));
    assert_eq!(bad.error.as_deref(), Some("top-level value is not an object"));
    assert_eq!(bad.kind, ConfigKind::Unknown);
}

#[test]
fn listed_entries_report_read_and_parse_failures() {
    let e = listed_entry("a.json".to_string(), ConfigRead::ParseFailed("unexpected end".to_string()));
    assert_eq!(e.error.as_deref(), Some("JSONC parse error: unexpected end"));
    assert!(e.name.is_none());
    let e = listed_entry("b.json".to_string(), ConfigRead::ReadFailed("permission denied".to_string()));
    assert_eq!(e.error.as_deref(), Some("read error: permission denied"));
    let ok = listed_entry(
        "c.json".to_string(),
        ConfigRead::Parsed(JsonValue::Object(members(vec![("image", s("alpine:3.20"))]))),
    );
    assert_eq!(ok.kind, ConfigKind::Image);
    assert!(ok.error.is_none());
}

#[test]
fn candidate_paths_in_priority_order() {
    let paths = candidate_paths(
        "/w",
        true,
        true,
        vec!["/w/.devcontainer/python".to_string(), "/w/.devcontainer/node".to_string()],
    );
    assert_eq!(
        paths,
        vec![
            "/w/.devcontainer.json",
            "/w/.devcontainer/devcontainer.json",
            "/w/.devcontainer/node/devcontainer.json",
            "/w/.devcontainer/python/devcontainer.json",
        ]
    );
    assert!(candidate_paths("/w", false, false, vec![]).is_empty());
}

#[test]
fn paths_relative_to_the_workspace() {
    assert_eq!(rel_to("/w/.devcontainer/devcontainer.json", "/w"), ".devcontainer/devcontainer.json");
    assert_eq!(rel_to("/elsewhere/x.json", "/w"), "/elsewhere/x.json");
    assert_eq!(rel_to("/w2/x.json", "/w"), "/w2/x.json");
}

#[test]
fn resolve_parsed_config_joins_compose_files_on_config_dir() {
    let doc = JsonValue::Object(members(vec![
        ("dockerComposeFile", JsonValue::Array(vec![s("../../docker-compose.yml"), s("/abs/extra.yml")])),
        ("service", s("a")),
    ]));
    let r = resolve_parsed_config("/w/.devcontainer/a/devcontainer.json", "/w/.devcontainer/a", &doc).unwrap();
    assert_eq!(r.service.as_deref(), Some("a"));
    assert_eq!(r.kind, ConfigKind::Compose);
    assert_eq!(r.compose_files_abs, vec!["/w/.devcontainer/a/../../docker-compose.yml", "/abs/extra.yml"]);
    let err = resolve_parsed_config("/w/c.json", "/w", &s("nope")).unwrap_err();
    assert_eq!(err, "top-level value is not an object in /w/c.json");
}

#[test]
fn expected_labels_sorted_by_name() {
    let r = ResolvedConfig {
        abs_path: "/w/c.json".to_string(),
        service: Some("api".to_string()),
        compose_files_abs: vec![],
        kind: ConfigKind::Compose,
    };
    assert_eq!(
        expected_labels(&r),
        vec![
            ("com.docker.compose.service".to_string(), "api".to_string()),
            ("devcontainer.config_file".to_string(), "/w/c.json".to_string()),
        ]
    );
    let r = ResolvedConfig { service: None, ..r };
    assert_eq!(expected_labels(&r), vec![("devcontainer.config_file".to_string(), "/w/c.json".to_string())]);
}

#[test]
fn listing_has_one_entry_per_candidate_in_order() {
    let reads = vec![
        ("/w/.devcontainer.json".to_string(), ConfigRead::Parsed(JsonValue::Object(members(vec![("image", s("alpine"))])))),
        ("/w/.devcontainer/broken/devcontainer.json".to_string(), ConfigRead::ParseFailed("unexpected end".to_string())),
        ("/elsewhere/devcontainer.json".to_string(), ConfigRead::ReadFailed("gone".to_string())),
    ];
    let out = list_entries("/w", reads);
    assert_eq!(out.len(), 3);
    assert_eq!(out[0].path, ".devcontainer.json");
    assert_eq!(out[0].kind, ConfigKind::Image);
    assert_eq!(out[1].path, ".devcontainer/broken/devcontainer.json");
    assert!(out[1].error.is_some());
    assert_eq!(out[2].path, "/elsewhere/devcontainer.json");
    assert_eq!(out[2].error.as_deref(), Some("read error: gone"));
    assert!(list_entries("/w", vec![]).is_empty());
}

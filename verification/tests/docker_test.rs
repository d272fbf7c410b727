use devcontainer_mcp_core::devcontainer::{
    ambiguous_error, kill_command, kill_target, removed_message, single_container, status_outcome, stopped_message,
    StatusOutcome,
};
use devcontainer_mcp_core::devcontainer_config::{ConfigKind, ResolvedConfig};
use devcontainer_mcp_core::error::Error;
use devcontainer_mcp_core::docker::{
    container_from_inspect, container_from_summary, find_label, keep_compose_matches, logs_tail, lookup_from_candidates,
    lookup_plan, merge_by_id, ContainerInfo, DevcontainerLookup, LookupPlan,
};

fn container(id: &str, name: &str, labels: Vec<(&str, &str)>) -> ContainerInfo {
    ContainerInfo {
        id: id.to_string(),
        name: name.to_string(),
        image: "alpine".to_string(),
        state: "running".to_string(),
        labels: labels.into_iter().map(|(k, v)| (k.to_string(), v.to_string())).collect(),
    }
}

#[test]
fn label_accessors() {
    let c = container(
        "abc",
        "app",
        vec![("com.docker.compose.service", "web"), ("devcontainer.config_file", "/w/.devcontainer/devcontainer.json")],
    );
    assert_eq!(c.compose_service(), Some("web"));
    assert_eq!(c.devcontainer_config_file(), Some("/w/.devcontainer/devcontainer.json"));
    let bare = container("def", "bare", vec![]);
    assert_eq!(bare.compose_service(), None);
    assert_eq!(bare.devcontainer_config_file(), None);
}

#[test]
fn lookup_outcome_by_count() {
    assert!(matches!(lookup_from_candidates(vec![]), DevcontainerLookup::NoneFound));
    let one = lookup_from_candidates(vec![container("a", "x", vec![])]);
    assert_eq!(one.candidates().len(), 1);
    assert_eq!(one.into_one().unwrap().id, "a");
    let many = lookup_from_candidates(vec![container("a", "x", vec![]), container("b", "y", vec![])]);
    let ids: Vec<&str> = many.candidates().iter().map(|c| c.id.as_str()).collect();
    assert_eq!(ids, vec!["a", "b"]);
    assert!(many.into_one().is_none());
    assert!(DevcontainerLookup::NoneFound.candidates().is_empty());
}

#[test]
fn lookup_plan_by_config_kind() {
    match lookup_plan("/w", None) {
        LookupPlan::Workspace { primary, fallback } => {
            assert_eq!(primary, "devcontainer.local_folder=/w");
            assert_eq!(fallback, "com.docker.compose.project.working_dir=/w");
        },
        other => panic!("unexpected {other:?}"),
    }
    let compose = ResolvedConfig {
        abs_path: "/w/.devcontainer/a/devcontainer.json".to_string(),
        service: Some("api".to_string()),
        compose_files_abs: vec!["/w/docker-compose.yml".to_string()],
        kind: ConfigKind::Compose,
    };
    match lookup_plan("/w", Some(&compose)) {
        LookupPlan::ComposeService { service_filter, expected_files } => {
            assert_eq!(service_filter, "com.docker.compose.service=api");
            assert_eq!(expected_files, vec!["/w/docker-compose.yml"]);
        },
        other => panic!("unexpected {other:?}"),
    }
    let no_service = ResolvedConfig { service: None, ..compose.clone() };
    assert!(matches!(lookup_plan("/w", Some(&no_service)), LookupPlan::Workspace { .. }));
    let image = ResolvedConfig { kind: ConfigKind::Image, ..compose };
    match lookup_plan("/w", Some(&image)) {
        LookupPlan::ConfigFile { filter } => {
            assert_eq!(filter, "devcontainer.config_file=/w/.devcontainer/a/devcontainer.json")
        },
        other => panic!("unexpected {other:?}"),
    }
}

#[test]
fn compose_matches_need_an_expected_file() {
    let a = container("a", "a", vec![("com.docker.compose.project.config_files", "/w/docker-compose.yml,/w/extra.yml")]);
    let b = container("b", "b", vec![("com.docker.compose.project.config_files", "/other/docker-compose.yml")]);
    let c = container("c", "c", vec![]);
    let kept = keep_compose_matches(vec![a, b, c], &vec!["/w/docker-compose.yml".to_string()]);
    assert_eq!(kept.len(), 1);
    assert_eq!(kept[0].id, "a");
}

#[test]
fn merge_keeps_primary_and_unseen_fallback() {
    let hits = vec![container("a", "a", vec![]), container("b", "b", vec![])];
    let fallback = vec![container("b", "b2", vec![]), container("c", "c", vec![])];
    let merged = merge_by_id(hits, fallback);
    let ids: Vec<(&str, &str)> = merged.iter().map(|c| (c.id.as_str(), c.name.as_str())).collect();
    assert_eq!(ids, vec![("a", "a"), ("b", "b"), ("c", "c")]);
}

#[test]
fn containers_from_docker_records() {
    let c = container_from_summary(
        Some("id1".to_string()),
        Some(vec!["/web".to_string(), "/alias".to_string()]),
        None,
        Some("running".to_string()),
        None,
    );
    assert_eq!(c.id, "id1");
    assert_eq!(c.name, "web");
    assert_eq!(c.image, "");
    assert_eq!(c.state, "running");
    assert!(c.labels.is_empty());
    let d = container_from_inspect(None, Some("//db".to_string()), Some("postgres".to_string()), None, None);
    assert_eq!(d.id, "");
    assert_eq!(d.name, "db");
    assert_eq!(d.image, "postgres");
    assert_eq!(d.state, "unknown");
}

#[test]
fn distinct_labels_are_each_found() {
    let labels = vec![
        ("com.docker.compose.service".to_string(), "app".to_string()),
        ("devcontainer.config_file".to_string(), "/w/.devcontainer/devcontainer.json".to_string()),
        ("devcontainer.local_folder".to_string(), "/w".to_string()),
    ];
    let c = container_from_summary(Some("id2".to_string()), None, None, None, Some(labels));
    assert_eq!(c.labels.len(), 3);
    assert_eq!(c.compose_service(), Some("app"));
    assert_eq!(c.devcontainer_config_file(), Some("/w/.devcontainer/devcontainer.json"));
    for (k, v) in &c.labels {
        assert_eq!(find_label(&c.labels, k), Some(v.as_str()));
    }
}

#[test]
fn log_tail_option() {
    assert_eq!(logs_tail(0), "all");
    assert_eq!(logs_tail(250), "250");
}

#[test]
fn ambiguous_message_lists_every_candidate() {
    let cands = vec![
        container("0123456789abcdef", "one", vec![("com.docker.compose.service", "api")]),
        container("short", "two", vec![("devcontainer.config_file", "/w/c.json")]),
    ];
    let msg = ambiguous_error("/w", &cands);
    let expected = "Multiple containers match workspace `/w`. Re-run with `config` set to the devcontainer.json path of the one you want. Use `devcontainer_list_configs` to enumerate. Candidates:\n  - id=0123456789ab name=one service=api config_file=(unlabeled)\n  - id=short name=two service=(none) config_file=/w/c.json";
    assert_eq!(msg, expected);
}

#[test]
fn lookup_outcomes_for_operations() {
    match single_container("/w", DevcontainerLookup::NoneFound) {
        Err(Error::Io(m)) => assert_eq!(m, "No devcontainer found for workspace: /w"),
        other => panic!("unexpected {other:?}"),
    }
    let one = single_container("/w", DevcontainerLookup::One(container("a", "a", vec![]))).unwrap();
    assert_eq!(one.id, "a");
    let many = DevcontainerLookup::Many(vec![container("a", "a", vec![]), container("b", "b", vec![])]);
    match single_container("/w", many.clone()) {
        Err(Error::Io(m)) => assert!(m.starts_with("Multiple containers match workspace `/w`.")),
        other => panic!("unexpected {other:?}"),
    }
    assert_eq!(stopped_message("web"), "Stopped container web");
    assert_eq!(removed_message("web"), "Removed container web");
    assert_eq!(kill_target(many.clone()).unwrap().id, "a");
    assert!(kill_target(DevcontainerLookup::NoneFound).is_none());
    assert!(matches!(status_outcome(many), StatusOutcome::Ambiguous(v) if v.len() == 2));
    assert!(matches!(status_outcome(DevcontainerLookup::NoneFound), StatusOutcome::NotFound));
}

#[test]
fn process_group_kill_command() {
    assert_eq!(kill_command("TERM", 385), "kill -TERM -385 2>/dev/null || true");
    assert_eq!(kill_command("KILL", -7), "kill -KILL --7 2>/dev/null || true");
}

use base64::Engine;
use devcontainer_mcp_core::exec_shim::{try_parse_sentinel, wrap, wrap_self_contained, SENTINEL_PREFIX, SENTINEL_SUFFIX, USER_CMD_ENV};

#[test]
fn try_parse_sentinel_matches() {
    assert_eq!(try_parse_sentinel("__DCMCP_PGID=42__"), Some(42));
    assert_eq!(try_parse_sentinel("  __DCMCP_PGID=12345__  "), Some(12345));
}

#[test]
fn try_parse_sentinel_accepts_decorated_lines() {
    assert_eq!(
        try_parse_sentinel("\u{1b}[0;1;36minfo \u{1b}[0m__DCMCP_PGID=385__"),
        Some(385),
    );
    assert_eq!(
        try_parse_sentinel("[19:05:32] info __DCMCP_PGID=12345__"),
        Some(12345),
    );
}

#[test]
fn try_parse_sentinel_rejects_garbage() {
    assert_eq!(try_parse_sentinel("hello"), None);
    assert_eq!(try_parse_sentinel("__DCMCP_PGID=abc__"), None);
    assert_eq!(try_parse_sentinel("PGID=42"), None);
    assert_eq!(try_parse_sentinel("__DCMCP_PGID=42"), None);
    assert_eq!(try_parse_sentinel("__DCMCP_PGID=__"), None);
}

#[test]
fn try_parse_sentinel_rejects_values_beyond_i32() {
    assert_eq!(try_parse_sentinel("__DCMCP_PGID=2147483647__"), Some(2147483647));
    assert_eq!(try_parse_sentinel("__DCMCP_PGID=2147483648__"), None);
}

#[test]
fn announced_pgid_round_trips_through_the_parser() {
    let line = format!("noise {}{}{} more", SENTINEL_PREFIX, 7001, SENTINEL_SUFFIX);
    assert_eq!(try_parse_sentinel(&line), Some(7001));
}

#[test]
fn wrap_reads_the_command_from_the_environment() {
    let script = wrap();
    assert!(script.starts_with("if command -v setsid >/dev/null 2>&1; then\n"));
    assert!(script.contains(&format!("eval \"${}\"", USER_CMD_ENV)));
    assert!(script.contains("printf \"__DCMCP_PGID=%s__\\n\" \"$$\" 1>&2"));
    assert!(script.ends_with("fi"));
}

#[test]
fn wrap_self_contained_embeds_the_base64_blob() {
    let script = wrap_self_contained("echo hi");
    let expected_prefix = "DCMCP_USER_CMD=$(printf '%s' 'ZWNobyBoaQ==' | base64 -d) && export DCMCP_USER_CMD && ";
    assert!(script.starts_with(expected_prefix), "script: {script}");
    assert!(script.ends_with(&wrap()));
}

#[test]
fn wrap_self_contained_blob_never_holds_a_quote() {
    let user_cmd = "echo 'a' \"b\" `echo c` $((1+1)) \\\\ \n echo done";
    let script = wrap_self_contained(user_cmd);
    let start = script.find("'%s' '").unwrap() + "'%s' '".len();
    let end = script[start..].find('\'').unwrap() + start;
    let blob = &script[start..end];
    assert!(!blob.is_empty());
    assert!(blob.chars().all(|c| c.is_ascii_alphanumeric() || c == '+' || c == '/' || c == '='));
    assert_eq!(blob.len() % 4, 0);
}

#[test]
fn try_parse_sentinel_tries_every_occurrence() {
    assert_eq!(try_parse_sentinel("__DCMCP_PGID=x__ __DCMCP_PGID=5__"), Some(5));
    assert_eq!(try_parse_sentinel("__DCMCP_PGID=__DCMCP_PGID=77__"), Some(77));
    assert_eq!(try_parse_sentinel("__DCMCP_PGID=9__ __DCMCP_PGID=5__"), Some(9));
    assert_eq!(try_parse_sentinel("__DCMCP_PGID=-1__ __DCMCP_PGID=z__"), None);
}

#[test]
fn wrap_self_contained_blob_decodes_to_the_command() {
    for cmd in ["", "a", "ab", "abc", "echo 'it''s' \"$HOME\" | wc -c", "héllo\n\tworld"] {
        let script = wrap_self_contained(cmd);
        let start = script.find("printf '%s' '").unwrap() + "printf '%s' '".len();
        let len = script[start..].find('\'').unwrap();
        let blob = &script[start..start + len];
        assert_eq!(blob.len(), 4 * ((cmd.len() + 2) / 3));
        let bytes = base64::engine::general_purpose::STANDARD.decode(blob).unwrap();
        assert_eq!(bytes, cmd.as_bytes());
    }
}

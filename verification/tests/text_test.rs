use devcontainer_mcp_core::shell_args::{optional_shell_args, shell_args_or_words, split_words};
use devcontainer_mcp_core::text::{join_path, sort_texts, text_less_eq, trim_text};

#[test]
fn sorting_texts_by_code_point() {
    let v = vec!["python".to_string(), "node".to_string(), "Zeta".to_string(), "node-18".to_string(), "é".to_string()];
    assert_eq!(sort_texts(v), vec!["Zeta", "node", "node-18", "python", "é"]);
    assert!(text_less_eq("abc", "abd"));
    assert!(text_less_eq("ab", "abc"));
    assert!(!text_less_eq("b", "abc"));
}

#[test]
fn joining_paths() {
    assert_eq!(join_path("/w", ".devcontainer"), "/w/.devcontainer");
    assert_eq!(join_path("/w/", "x"), "/w/x");
    assert_eq!(join_path("/w", "/abs"), "/abs");
    assert_eq!(join_path("", "rel"), "rel");
}

#[test]
fn trimming_unicode_whitespace() {
    assert_eq!(trim_text("\u{a0} hi\t\n"), "hi");
}

#[test]
fn splitting_user_arguments() {
    assert_eq!(optional_shell_args(Some("--ide none 'a b'")), vec!["--ide", "none", "a b"]);
    assert!(optional_shell_args(Some("unclosed 'quote")).is_empty());
    assert!(optional_shell_args(None).is_empty());
    assert_eq!(shell_args_or_words("ws \"my repo\""), vec!["ws", "my repo"]);
    assert_eq!(shell_args_or_words("ws 'open"), vec!["ws", "'open"]);
    assert_eq!(split_words("  a \t b\n"), vec!["a", "b"]);
}

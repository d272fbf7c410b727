use devcontainer_mcp_core::error::Error;
use devcontainer_mcp_core::file_ops::{
    apply_edit, format_with_line_numbers, list_dir_command, read_file_command, shell_quote, write_file_command,
};

fn edit_error(r: Result<String, Error>) -> String {
    match r {
        Err(Error::FileEdit(m)) => m,
        other => panic!("expected a refused edit, got {:?}", other),
    }
}

#[test]
fn shell_quote_wraps_in_single_quotes() {
    assert_eq!(shell_quote("hello"), "'hello'");
    assert_eq!(shell_quote(""), "''");
    assert_eq!(shell_quote("a b $HOME"), "'a b $HOME'");
    assert_eq!(shell_quote("it's"), "'it'\\''s'");
    assert_eq!(shell_quote("''"), "''\\'''\\'''");
}

#[test]
fn file_commands_quote_their_paths() {
    assert_eq!(read_file_command("/tmp/a b.txt"), "cat '/tmp/a b.txt'");
    assert_eq!(
        write_file_command("/w/x.txt", "it's\n"),
        "mkdir -p \"$(dirname '/w/x.txt')\" && printf '%s' 'it'\\''s\n' > '/w/x.txt'"
    );
    assert_eq!(list_dir_command("."), "find '.' -maxdepth 2 -not -path '*/.*' | sort");
}

#[test]
fn edit_replaces_the_single_occurrence() {
    assert_eq!(apply_edit("let x = 1;\nlet y = 2;\n", "y = 2", "y = 3").unwrap(), "let x = 1;\nlet y = 3;\n");
    assert_eq!(apply_edit("abc", "abc", "").unwrap(), "");
    assert_eq!(apply_edit("héllo wörld", "wörld", "there").unwrap(), "héllo there");
}

#[test]
fn edit_refuses_a_missing_old_str() {
    assert_eq!(edit_error(apply_edit("abc", "xyz", "q")), "old_str not found in file");
    assert_eq!(edit_error(apply_edit("", "a", "q")), "old_str not found in file");
}

#[test]
fn edit_refuses_an_ambiguous_old_str() {
    assert_eq!(
        edit_error(apply_edit("a = 1; a = 1;", "a = 1", "b")),
        "old_str matches 2 locations; it must match exactly one"
    );
    // Overlapping places count apart.
    assert_eq!(
        edit_error(apply_edit("aaa", "aa", "b")),
        "old_str matches 2 locations; it must match exactly one"
    );
    // An empty old_str occurs at every position of a non-empty file.
    assert_eq!(
        edit_error(apply_edit("ab", "", "x")),
        "old_str matches 3 locations; it must match exactly one"
    );
    assert_eq!(apply_edit("", "", "x").unwrap(), "x");
}

#[test]
fn reverse_edit_restores_the_file() {
    let original = "fn main() {\n    run();\n}\n";
    let edited = apply_edit(original, "run()", "start()").unwrap();
    assert_eq!(apply_edit(&edited, "start()", "run()").unwrap(), original);
}

#[test]
fn line_numbers_cover_the_requested_range() {
    let text = "alpha\nbeta\ngamma\n";
    assert_eq!(format_with_line_numbers(text, None, None), "1\talpha\n2\tbeta\n3\tgamma\n");
    assert_eq!(format_with_line_numbers(text, Some(2), None), "2\tbeta\n3\tgamma\n");
    assert_eq!(format_with_line_numbers(text, Some(2), Some(2)), "2\tbeta\n");
    assert_eq!(format_with_line_numbers(text, Some(0), Some(1)), "1\talpha\n");
    assert_eq!(format_with_line_numbers(text, None, Some(10)), "1\talpha\n2\tbeta\n3\tgamma\n");
    assert_eq!(format_with_line_numbers(text, Some(3), Some(1)), "");
    assert_eq!(format_with_line_numbers(text, Some(9), None), "");
    assert_eq!(format_with_line_numbers("", None, None), "");
    assert_eq!(format_with_line_numbers("a\r\nb", None, None), "1\ta\n2\tb\n");
}

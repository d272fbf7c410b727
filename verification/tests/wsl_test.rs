use devcontainer_mcp_core::wsl::{exec_args, parse_list_output, set_default_args, terminate_args};

#[test]
fn test_parse_list_output_typical() {
    let output = "\
  NAME      STATE           VERSION
* Ubuntu    Running         2
  Debian    Stopped         2
";
    let distros = parse_list_output(output);
    assert_eq!(distros.len(), 2);

    assert_eq!(distros[0].name, "Ubuntu");
    assert_eq!(distros[0].state, "Running");
    assert_eq!(distros[0].version, 2);
    assert!(distros[0].is_default);

    assert_eq!(distros[1].name, "Debian");
    assert_eq!(distros[1].state, "Stopped");
    assert_eq!(distros[1].version, 2);
    assert!(!distros[1].is_default);
}

#[test]
fn test_parse_list_output_empty() {
    let output = "  NAME      STATE           VERSION\n";
    let distros = parse_list_output(output);
    assert!(distros.is_empty());
}

#[test]
fn parse_list_output_keeps_names_with_spaces_and_skips_bad_rows() {
    let output = "  NAME STATE VERSION\r\n*  Ubuntu 22.04 LTS   Running 2\r\n\r\n  Broken Stopped x\r\n  Old   Stopped 1\r\n  Huge Stopped 300\r\n";
    let distros = parse_list_output(output);
    assert_eq!(distros.len(), 2);
    assert_eq!(distros[0].name, "Ubuntu 22.04 LTS");
    assert_eq!(distros[0].state, "Running");
    assert!(distros[0].is_default);
    assert_eq!(distros[1].name, "Old");
    assert_eq!(distros[1].version, 1);
    assert!(!distros[1].is_default);
}

#[test]
fn wsl_command_lines() {
    assert_eq!(set_default_args("Ubuntu"), vec!["--set-default", "Ubuntu"]);
    assert_eq!(terminate_args("Debian"), vec!["--terminate", "Debian"]);
    assert_eq!(exec_args("Ubuntu", "ls -la"), vec!["-d", "Ubuntu", "--", "sh", "-c", "ls -la"]);
}

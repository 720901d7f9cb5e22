use eshell_core::remote_path::{
    extract_entry_name, format_stdout_stderr, join_remote_path, normalize_remote_path, parse_cd_target,
    sanitize_cwd, shell_quote,
};

#[test]
fn remote_paths_are_normalized() {
    assert_eq!(normalize_remote_path(""), "/");
    assert_eq!(normalize_remote_path("  var\\\\log//nginx/ "), "/var/log/nginx");
    assert_eq!(normalize_remote_path("////"), "/");
    assert_eq!(normalize_remote_path("/a/b/"), "/a/b");
}

#[test]
fn cwd_is_sanitized() {
    assert_eq!(sanitize_cwd("   "), "/");
    assert_eq!(sanitize_cwd(" /home//me/ \n"), "/home/me");
}

#[test]
fn joined_paths() {
    assert_eq!(join_remote_path("/", "etc"), "/etc");
    assert_eq!(join_remote_path("/var//", "//log"), "/var/log");
    assert_eq!(join_remote_path("", "x"), "/x");
}

#[test]
fn entry_names() {
    assert_eq!(extract_entry_name("/var/log/"), Some("log".to_string()));
    assert_eq!(extract_entry_name("C:\\dir\\file.txt"), Some("file.txt".to_string()));
    assert_eq!(extract_entry_name("///"), None);
}

#[test]
fn cd_targets() {
    assert_eq!(parse_cd_target(" cd "), Some(None));
    assert_eq!(parse_cd_target("cd  /tmp "), Some(Some("/tmp".to_string())));
    assert_eq!(parse_cd_target("cdx"), None);
    assert_eq!(parse_cd_target("ls"), None);
}

#[test]
fn quoting_and_output_joining() {
    assert_eq!(shell_quote("a'b"), "'a'\"'\"'b'");
    assert_eq!(shell_quote(""), "''");
    assert_eq!(format_stdout_stderr("o", "e"), "o\ne");
    assert_eq!(format_stdout_stderr(" ", "e"), "e");
    assert_eq!(format_stdout_stderr("o", "\n"), "o");
    assert_eq!(format_stdout_stderr("", " "), "");
}

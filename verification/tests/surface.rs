use tms::Error;
use tms::Settings;

#[test]
fn dir_name_replaces_dots() {
    assert_eq!(tms::get_dir_name("/tmp/my.project"), "my_project");
    assert_eq!(tms::get_dir_name("plain"), "plain");
    assert_eq!(tms::get_dir_name("/a/b/c.d.e"), "c_d_e");
    assert_eq!(tms::get_dir_name("a/"), "a");
    assert_eq!(tms::get_dir_name("a/."), "a");
}

#[test]
fn file_name_follows_std() {
    assert_eq!(tms::path_file_name("a/b"), Some("b".to_string()));
    assert_eq!(tms::path_file_name("a/"), Some("a".to_string()));
    assert_eq!(tms::path_file_name("a//."), Some("a".to_string()));
    assert_eq!(tms::path_file_name("x/.b/"), Some(".b".to_string()));
    assert_eq!(tms::path_file_name("..."), Some("...".to_string()));
    assert_eq!(tms::path_file_name(""), None);
    assert_eq!(tms::path_file_name("/"), None);
    assert_eq!(tms::path_file_name("."), None);
    assert_eq!(tms::path_file_name(".."), None);
    assert_eq!(tms::path_file_name("a/.."), None);
}

#[test]
fn hidden_test_matches_file_name_semantics() {
    assert!(!tms::is_hidden_path("."));
    assert!(!tms::is_hidden_path(".."));
    assert!(!tms::is_hidden_path("/"));
    assert!(tms::is_hidden_path("a/.b/"));
    assert!(!tms::is_hidden_path(".hidden/.."));
}

#[test]
fn file_error_wraps_message() {
    let e = Error::file_error("broken".to_string());
    assert!(matches!(e, Error::FileError(_)));
    assert_eq!(e.message(), "Config file error 'broken'");
}

#[test]
fn error_messages() {
    assert_eq!(Error::EnvError("no HOME".to_string()).message(), "EnvError: no HOME");
    assert_eq!(Error::MissingHome.message(), "Missing 'HOME' env var");
}

#[test]
fn session_command_arguments() {
    assert_eq!(tms::has_session("work"), vec!["has-session", "-t", "work"]);
    assert_eq!(
        tms::new_session("work", "/tmp/work"),
        vec!["new-session", "-c", "/tmp/work", "-s", "work", "-d"],
    );
    assert_eq!(tms::attach("work"), vec!["attach", "-t", "work"]);
    assert_eq!(tms::switch("work"), vec!["switch", "-t", "work"]);
}

#[test]
fn picker_input_is_newline_joined() {
    let paths = vec!["/a".to_string(), "/b/c".to_string()];
    assert_eq!(tms::picker_input(&paths), "/a\n/b/c\n");
    assert_eq!(tms::picker_input(&Vec::new()), "");
}

#[test]
fn picker_invocation_defaults() {
    let configured = Settings { default_depth: 1, picker: Some("sk".to_string()) };
    assert_eq!(tms::picker_invocation(&configured), "sk");
    let bare = Settings { default_depth: 1, picker: None };
    assert_eq!(tms::picker_invocation(&bare), "fzf-tmux -p 50%");
}

#[test]
fn invocation_splits_at_spaces() {
    assert_eq!(tms::split_invocation("fzf-tmux -p 50%"), vec!["fzf-tmux", "-p", "50%"]);
    assert_eq!(tms::split_invocation("fzf"), vec!["fzf"]);
    assert_eq!(tms::split_invocation(""), vec![""]);
}

#[test]
fn selector_answer_is_trimmed() {
    assert_eq!(tms::strip_last_char("/tmp/t/a\n"), "/tmp/t/a");
}

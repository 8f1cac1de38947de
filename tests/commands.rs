use minishell::builtins::{
    builtin_notice, builtin_of, cd_failure, cd_warning, command_not_found, echo_output,
    home_destination, line_of, type_result, Builtin, Reply,
};
use minishell::executor::{decide, redirect_path, Step};
use minishell::resolver::{candidate, candidates, keep_dirs, resolve, split_search_path};
use minishell::text::same_text;
use minishell::tokenizer::tokenize;

fn strings(ws: &[&str]) -> Vec<String> {
    ws.iter().map(|w| w.to_string()).collect()
}

#[test]
fn resolve_with_no_directories_is_not_found() {
    assert_eq!(resolve(&vec![], "ls", &vec![]), None);
    assert_eq!(resolve(&vec![], "ls", &vec![true, true]), None);
}

#[test]
fn resolve_takes_the_first_executable() {
    let dirs = strings(&["/bin", "/usr/bin", "/opt/bin"]);
    assert_eq!(
        resolve(&dirs, "ls", &vec![false, true, true]),
        Some("/usr/bin/ls".to_string())
    );
    assert_eq!(resolve(&dirs, "ls", &vec![false, false, false]), None);
    assert_eq!(resolve(&dirs, "ls", &vec![false]), None);
}

#[test]
fn candidates_join_directory_and_name() {
    assert_eq!(candidate("/usr/bin", "ls"), "/usr/bin/ls");
    assert_eq!(
        candidates(&strings(&["/a", "b"]), "x"),
        strings(&["/a/x", "b/x"])
    );
}

#[test]
fn search_path_splits_on_colons() {
    assert_eq!(split_search_path("/bin:/usr/bin"), strings(&["/bin", "/usr/bin"]));
    assert_eq!(split_search_path(""), strings(&[""]));
    assert_eq!(split_search_path("a::b:"), strings(&["a", "", "b", ""]));
}

#[test]
fn only_directories_are_kept() {
    let entries = strings(&["/bin", "/nope", "/usr/bin"]);
    assert_eq!(keep_dirs(&entries, &vec![true, false, true]), strings(&["/bin", "/usr/bin"]));
    assert_eq!(keep_dirs(&entries, &vec![true]), strings(&["/bin"]));
}

#[test]
fn builtin_names_are_case_sensitive() {
    assert_eq!(builtin_of("cd"), Some(Builtin::Cd));
    assert_eq!(builtin_of("echo"), Some(Builtin::Echo));
    assert_eq!(builtin_of("exit"), Some(Builtin::Exit));
    assert_eq!(builtin_of("pwd"), Some(Builtin::Pwd));
    assert_eq!(builtin_of("type"), Some(Builtin::Type));
    assert_eq!(builtin_of("CD"), None);
    assert_eq!(builtin_of("ls"), None);
    assert_eq!(builtin_of(""), None);
}

#[test]
fn same_text_compares_characters() {
    assert!(same_text("abc", "abc"));
    assert!(!same_text("abc", "abd"));
    assert!(!same_text("abc", "ab"));
}

#[test]
fn echo_joins_arguments() {
    assert_eq!(echo_output(&strings(&["echo", "a", "b", "c"])), "a b c\n");
    assert_eq!(echo_output(&strings(&["echo"])), "\n");
    assert_eq!(echo_output(&strings(&["echo", "x"])), "x\n");
}

#[test]
fn type_of_a_builtin() {
    match decide(&strings(&["type", "cd"])) {
        Step::Write(t) => assert_eq!(t, "cd is a shell builtin\n"),
        _ => panic!("expected a write"),
    }
    assert_eq!(builtin_notice("echo"), "echo is a shell builtin\n");
}

#[test]
fn type_of_an_unknown_name() {
    let name = match decide(&strings(&["type", "nonexistent_cmd_xyz"])) {
        Step::Lookup(n) => n,
        _ => panic!("expected a lookup"),
    };
    assert_eq!(name, "nonexistent_cmd_xyz");
    let found = resolve(&vec![], &name, &vec![]);
    match type_result(&name, found) {
        Reply::Diagnostic(t) => assert_eq!(t, "nonexistent_cmd_xyz: not found\n"),
        Reply::Output(_) => panic!("expected a diagnostic"),
    }
}

#[test]
fn type_of_a_resolved_name() {
    match type_result("ls", Some("/bin/ls".to_string())) {
        Reply::Output(t) => assert_eq!(t, "ls is /bin/ls\n"),
        Reply::Diagnostic(_) => panic!("expected output"),
    }
}

#[test]
fn type_without_argument_does_nothing() {
    assert!(matches!(decide(&strings(&["type"])), Step::Nothing));
}

#[test]
fn cd_to_a_missing_directory() {
    match decide(&strings(&["cd", "/nonexistent/path"])) {
        Step::ChangeDir { path, too_many } => {
            assert_eq!(path, "/nonexistent/path");
            assert!(!too_many);
            assert_eq!(cd_failure(&path), "/nonexistent/path: No such file or directory\n");
        }
        _ => panic!("expected a change of directory"),
    }
}

#[test]
fn cd_home_forms() {
    assert!(matches!(decide(&strings(&["cd"])), Step::ChangeHome { too_many: false }));
    assert!(matches!(decide(&strings(&["cd", "~"])), Step::ChangeHome { too_many: false }));
    assert_eq!(home_destination(Some("/home/u".to_string())), Ok("/home/u".to_string()));
    assert_eq!(home_destination(None), Err("cd: HOME not set\n".to_string()));
}

#[test]
fn cd_with_too_many_arguments_still_acts() {
    match decide(&strings(&["cd", "/tmp", "/var"])) {
        Step::ChangeDir { path, too_many } => {
            assert_eq!(path, "/tmp");
            assert!(too_many);
        }
        _ => panic!("expected a change of directory"),
    }
    assert_eq!(cd_warning(true), Some("cd: too many arguments\n".to_string()));
    assert_eq!(cd_warning(false), None);
}

#[test]
fn exit_pwd_and_empty() {
    assert!(matches!(decide(&strings(&["exit", "3"])), Step::Exit));
    assert!(matches!(decide(&strings(&["pwd"])), Step::PrintCwd));
    assert!(matches!(decide(&vec![]), Step::Nothing));
    assert_eq!(line_of("/home/u"), "/home/u\n");
}

#[test]
fn external_commands_are_run() {
    match decide(&strings(&["ls", "-l", "/tmp"])) {
        Step::Run { name, args } => {
            assert_eq!(name, "ls");
            assert_eq!(args, strings(&["-l", "/tmp"]));
            assert_eq!(command_not_found(&name), "ls: command not found\n");
        }
        _ => panic!("expected an external command"),
    }
}

#[test]
fn echo_redirected_to_a_file() {
    let line = tokenize("echo a b c > /tmp/out.txt");
    assert_eq!(redirect_path(&line), Some("/tmp/out.txt".to_string()));
    match decide(&line.words) {
        Step::Write(t) => assert_eq!(t, "a b c\n"),
        _ => panic!("expected a write"),
    }
}

#[test]
fn empty_target_means_terminal() {
    assert_eq!(redirect_path(&tokenize("echo hi > ''")), None);
    assert_eq!(redirect_path(&tokenize("echo hi")), None);
}

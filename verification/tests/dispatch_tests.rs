use minishell::builtins::is_builtin;
use minishell::command_handler::create_command_handler;
use minishell::command_handler::plan;
use minishell::command_handler::Action;
use minishell::command_handler::Env;
use minishell::command_handler::Handler;
use minishell::report::cd_error_line;
use minishell::report::command_not_found_line;
use minishell::report::echo_line;
use minishell::report::type_line;
use minishell::tokenize::tokenize;

fn empty_env() -> Env {
    Env { search: None, home: None, cwd: None }
}

fn args(values: &[&str]) -> Vec<String> {
    values.iter().map(|v| v.to_string()).collect()
}

#[test]
fn recognizes_builtins() {
    for name in ["echo", "exit", "type", "pwd", "cd"] {
        assert!(is_builtin(name), "{name} should be a builtin");
    }
    assert!(!is_builtin("ls"));
    assert!(!is_builtin("Echo"));
    assert!(!is_builtin(""));
}

#[test]
fn resolves_builtin_names_first() {
    assert!(matches!(create_command_handler("echo", true), Handler::Echo));
    assert!(matches!(create_command_handler("exit", false), Handler::Exit));
    assert!(matches!(create_command_handler("type", true), Handler::Type));
    assert!(matches!(create_command_handler("pwd", false), Handler::Pwd));
    assert!(matches!(create_command_handler("cd", true), Handler::ChangeDirectory));
}

#[test]
fn resolves_found_name_to_executable() {
    match create_command_handler("ls", true) {
        Handler::Executable { command } => assert_eq!(command, "ls"),
        h => panic!("expected an executable handler, got {h:?}"),
    }
}

#[test]
fn resolves_unknown_name_to_not_found() {
    match create_command_handler("nosuch", false) {
        Handler::NotFound { command } => assert_eq!(command, "nosuch"),
        h => panic!("expected the not-found handler, got {h:?}"),
    }
}

#[test]
fn echo_joins_arguments_with_single_spaces() {
    let line = echo_line(&args(&["a", "b", "c"]));
    assert_eq!(line, "a b c");
}

#[test]
fn echo_of_retokenized_line_ignores_extra_whitespace() {
    let toks = tokenize("echo   a  b \t c");
    let line = echo_line(&args(&[&toks[1], &toks[2], &toks[3]]));
    assert_eq!(line, "a b c");
}

#[test]
fn echo_with_no_arguments_prints_empty_line() {
    match plan(Handler::Echo, args(&[]), empty_env()) {
        Action::Print { line } => assert_eq!(line, ""),
        r => panic!("expected a print action, got {r:?}"),
    }
}

#[test]
fn echo_plans_one_print() {
    match plan(Handler::Echo, args(&["a", "b", "c"]), empty_env()) {
        Action::Print { line } => assert_eq!(line, "a b c"),
        r => panic!("expected a print action, got {r:?}"),
    }
}

#[test]
fn type_reports_builtin_whatever_the_search_said() {
    assert_eq!(type_line("echo", &None), "echo is a shell builtin");
    assert_eq!(
        type_line("echo", &Some("/bin/echo".to_string())),
        "echo is a shell builtin"
    );
    let env = Env { search: Some("/bin/cd".to_string()), home: None, cwd: None };
    match plan(Handler::Type, args(&["cd"]), env) {
        Action::Print { line } => assert_eq!(line, "cd is a shell builtin"),
        r => panic!("expected a print action, got {r:?}"),
    }
}

#[test]
fn type_reports_resolved_full_path() {
    assert_eq!(
        type_line("foo", &Some("/bin/foo".to_string())),
        "foo is /bin/foo"
    );
}

#[test]
fn type_reports_unresolved_name() {
    assert_eq!(type_line("nosuch", &None), "nosuch: not found");
}

#[test]
fn type_without_argument_aborts() {
    assert!(matches!(plan(Handler::Type, args(&[]), empty_env()), Action::Abort));
}

#[test]
fn unknown_command_prints_and_spawns_nothing() {
    let handler = create_command_handler("nosuch", false);
    match plan(handler, args(&["x"]), empty_env()) {
        Action::Print { line } => assert_eq!(line, "nosuch: command not found"),
        r => panic!("expected a print action, got {r:?}"),
    }
}

#[test]
fn failed_command_report_line() {
    assert_eq!(command_not_found_line("foo"), "foo: command not found");
}

#[test]
fn exit_plans_termination_with_the_given_code() {
    match plan(Handler::Exit, args(&["3"]), empty_env()) {
        Action::ExitProcess { code } => assert_eq!(code, 3),
        r => panic!("expected an exit action, got {r:?}"),
    }
    match plan(Handler::Exit, args(&["0"]), empty_env()) {
        Action::ExitProcess { code } => assert_eq!(code, 0),
        r => panic!("expected an exit action, got {r:?}"),
    }
    match plan(Handler::Exit, args(&["-1"]), empty_env()) {
        Action::ExitProcess { code } => assert_eq!(code, -1),
        r => panic!("expected an exit action, got {r:?}"),
    }
}

#[test]
fn exit_aborts_without_a_code() {
    assert!(matches!(plan(Handler::Exit, args(&[]), empty_env()), Action::Abort));
}

#[test]
fn exit_aborts_on_a_malformed_code() {
    assert!(matches!(plan(Handler::Exit, args(&["three"]), empty_env()), Action::Abort));
    assert!(matches!(
        plan(Handler::Exit, args(&["2147483648"]), empty_env()),
        Action::Abort
    ));
}

#[test]
fn pwd_prints_the_reported_directory() {
    let env = Env { search: None, home: None, cwd: Some("/tmp/x".to_string()) };
    match plan(Handler::Pwd, args(&[]), env) {
        Action::Print { line } => assert_eq!(line, "/tmp/x"),
        r => panic!("expected a print action, got {r:?}"),
    }
}

#[test]
fn pwd_aborts_when_the_directory_is_unknown() {
    assert!(matches!(plan(Handler::Pwd, args(&[]), empty_env()), Action::Abort));
}

#[test]
fn cd_changes_to_the_literal_argument() {
    match plan(Handler::ChangeDirectory, args(&["/usr"]), empty_env()) {
        Action::ChangeDir { path } => assert_eq!(path, "/usr"),
        r => panic!("expected a change-directory action, got {r:?}"),
    }
}

#[test]
fn cd_tilde_resolves_to_home() {
    let env = Env { search: None, home: Some("/home/me".to_string()), cwd: None };
    let via_tilde = plan(Handler::ChangeDirectory, args(&["~"]), env);
    let env = Env { search: None, home: Some("/home/me".to_string()), cwd: None };
    let via_value = plan(Handler::ChangeDirectory, args(&["/home/me"]), env);
    match (via_tilde, via_value) {
        (Action::ChangeDir { path: p1 }, Action::ChangeDir { path: p2 }) => {
            assert_eq!(p1, "/home/me");
            assert_eq!(p1, p2);
        },
        (r1, r2) => panic!("expected two change-directory actions, got {r1:?} and {r2:?}"),
    }
}

#[test]
fn cd_tilde_without_home_aborts() {
    assert!(matches!(
        plan(Handler::ChangeDirectory, args(&["~"]), empty_env()),
        Action::Abort
    ));
}

#[test]
fn cd_without_argument_aborts() {
    assert!(matches!(
        plan(Handler::ChangeDirectory, args(&[]), empty_env()),
        Action::Abort
    ));
}

#[test]
fn cd_failure_report_line() {
    assert_eq!(
        cd_error_line("/nosuch"),
        "cd: /nosuch: No such file or directory"
    );
}

#[test]
fn executable_spawns_with_arguments_unchanged() {
    let handler = create_command_handler("ls", true);
    match plan(handler, args(&["-l", "-a"]), empty_env()) {
        Action::Spawn { command, args } => {
            assert_eq!(command, "ls");
            assert_eq!(args, vec!["-l", "-a"]);
        },
        r => panic!("expected a spawn action, got {r:?}"),
    }
}

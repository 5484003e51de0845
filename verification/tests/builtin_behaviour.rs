use shellcore::builtins::{run_builtin, Builtin, BuiltinAction};
use shellcore::is_executable;
use shellcore::resolver::Resolver;

fn words(ws: &[&str]) -> Vec<String> {
    ws.iter().map(|w| w.to_string()).collect()
}

fn printed(a: BuiltinAction) -> String {
    match a {
        BuiltinAction::Print(s) => s,
        other => panic!("expected a Print action, got {:?}", other),
    }
}

fn run(b: Builtin, args: &[&str]) -> BuiltinAction {
    run_builtin(b, &words(args), &Resolver::new(), None, &words(&[]))
}

#[test]
fn echo_joins_with_spaces() {
    assert_eq!(printed(run(Builtin::Echo, &["a", "b c", "d"])), "a b c d\n");
    assert_eq!(printed(run(Builtin::Echo, &[])), "\n");
    assert_eq!(printed(run(Builtin::Echo, &["x"])), "x\n");
}

#[test]
fn type_reports_shell_builtin() {
    assert_eq!(printed(run(Builtin::Type, &["echo"])), "echo is a shell builtin\n");
    assert_eq!(printed(run(Builtin::Type, &["history"])), "history is a shell builtin\n");
}

#[test]
fn type_reports_not_found() {
    assert_eq!(
        printed(run(Builtin::Type, &["qqzzxy-no-such-command"])),
        "qqzzxy-no-such-command: not found\n"
    );
}

#[test]
fn type_reports_resolved_path() {
    let mut reso = Resolver::new();
    reso.add("prog".to_string(), "/usr/bin/prog".to_string());
    let out = run_builtin(Builtin::Type, &words(&["prog"]), &reso, None, &words(&[]));
    assert_eq!(printed(out), "prog is /usr/bin/prog\n");
}

#[test]
fn type_missing_operand() {
    assert_eq!(printed(run(Builtin::Type, &[])), "type: missing operand\n");
}

#[test]
fn exit_parses_its_argument() {
    assert!(matches!(run(Builtin::Exit, &["7"]), BuiltinAction::Exit(7)));
    assert!(matches!(run(Builtin::Exit, &[]), BuiltinAction::Exit(0)));
    assert!(matches!(run(Builtin::Exit, &["abc"]), BuiltinAction::Exit(0)));
    assert!(matches!(run(Builtin::Exit, &["+5"]), BuiltinAction::Exit(5)));
    assert!(matches!(run(Builtin::Exit, &["-3"]), BuiltinAction::Exit(-3)));
    assert!(matches!(run(Builtin::Exit, &["2147483647"]), BuiltinAction::Exit(2147483647)));
    assert!(matches!(run(Builtin::Exit, &["-2147483648"]), BuiltinAction::Exit(-2147483648)));
    assert!(matches!(run(Builtin::Exit, &["2147483648"]), BuiltinAction::Exit(0)));
    assert!(matches!(run(Builtin::Exit, &["-2147483649"]), BuiltinAction::Exit(0)));
    assert!(matches!(run(Builtin::Exit, &["1 2"]), BuiltinAction::Exit(0)));
    assert!(matches!(run(Builtin::Exit, &["-"]), BuiltinAction::Exit(0)));
}

#[test]
fn pwd_appends_newline() {
    let cwd = "/some/where".to_string();
    let out = run_builtin(Builtin::Pwd, &words(&[]), &Resolver::new(), Some(&cwd), &words(&[]));
    assert_eq!(printed(out), "/some/where\n");
}

#[test]
fn pwd_without_directory_reports_error() {
    let out = run(Builtin::Pwd, &[]);
    assert_eq!(printed(out), "pwd: cannot determine current directory\n");
}

#[test]
fn cd_error_message_contains_path() {
    match run(Builtin::Cd, &["/nonexistent"]) {
        BuiltinAction::Chdir { target, error_message } => {
            assert_eq!(target, "/nonexistent");
            assert_eq!(error_message, "cd: /nonexistent: No such file or directory\n");
            assert!(error_message.contains("/nonexistent"));
        }
        other => panic!("expected a Chdir action, got {:?}", other),
    }
}

#[test]
fn cd_without_argument_goes_home() {
    match run(Builtin::Cd, &[]) {
        BuiltinAction::Chdir { target, .. } => {
            // The home directory itself never spells the tilde it replaced.
            assert!(!target.contains('~'));
            assert!(!target.is_empty());
        }
        other => panic!("expected a Chdir action, got {:?}", other),
    }
}

#[test]
fn cd_expands_leading_tilde() {
    match run(Builtin::Cd, &["~/sub/dir"]) {
        BuiltinAction::Chdir { target, .. } => {
            assert!(target.ends_with("/sub/dir"));
            assert!(!target.starts_with('~'));
        }
        other => panic!("expected a Chdir action, got {:?}", other),
    }
}

#[test]
fn cd_plain_path_unchanged() {
    match run(Builtin::Cd, &["sub/~dir"]) {
        BuiltinAction::Chdir { target, .. } => assert_eq!(target, "sub/~dir"),
        other => panic!("expected a Chdir action, got {:?}", other),
    }
}

#[test]
fn history_lists_lines_right_aligned() {
    let hist = words(&["ls", "echo hi"]);
    let out = run_builtin(Builtin::History, &words(&[]), &Resolver::new(), None, &hist);
    assert_eq!(printed(out), "   1  ls\n   2  echo hi\n");
}

#[test]
fn history_wide_indices_keep_their_digits() {
    let mut hist = Vec::new();
    for i in 0..1000 {
        hist.push(format!("line{}", i));
    }
    let out = run_builtin(Builtin::History, &words(&[]), &Resolver::new(), None, &hist);
    let listing = printed(out);
    assert!(listing.starts_with("   1  line0\n"));
    assert!(listing.contains("\n  99  line98\n"));
    assert!(listing.contains("\n 100  line99\n"));
    assert!(listing.ends_with("\n1000  line999\n"));
}

#[test]
fn resolver_first_match_wins() {
    let mut reso = Resolver::new();
    reso.add("x".to_string(), "/first/x".to_string());
    reso.add("x".to_string(), "/second/x".to_string());
    assert_eq!(reso.resolve(&"x".to_string()), Some("/first/x".to_string()));
    assert_eq!(reso.resolve(&"y".to_string()), None);
}

#[test]
fn executable_needs_file_and_writable_metadata() {
    assert!(is_executable(true, Some(false)));
    assert!(!is_executable(true, Some(true)));
    assert!(!is_executable(true, None));
    assert!(!is_executable(false, Some(false)));
}

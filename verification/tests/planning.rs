use shellcore::builtins::Builtin;
use shellcore::parse::{parse_line, Pipeline, RedirMode};
use shellcore::plan::{not_found_message, plan, ExecPlan, SpawnStage, StagePlan, StderrSink,
                      StdinSource, StdoutSink};
use shellcore::resolver::Resolver;

fn resolver_with(names: &[(&str, &str)]) -> Resolver {
    let mut reso = Resolver::new();
    for (name, path) in names {
        reso.add(name.to_string(), path.to_string());
    }
    reso
}

fn parsed(line: &str) -> Pipeline {
    parse_line(line).expect("line should parse to a pipeline")
}

fn spawned(q: &ExecPlan, i: usize) -> &SpawnStage {
    match &q.stages[i] {
        StagePlan::Spawn(s) => s,
        other => panic!("expected a spawned stage, got {:?}", other),
    }
}

#[test]
fn three_stage_wiring() {
    let reso = resolver_with(&[("cmd1", "/b/cmd1"), ("cmd2", "/b/cmd2"), ("cmd3", "/b/cmd3")]);
    let q = plan(&parsed("cmd1 | cmd2 | cmd3"), &reso);
    assert_eq!(q.stages.len(), 3);
    assert!(q.redirection.is_none());

    let s0 = spawned(&q, 0);
    assert_eq!(s0.path, "/b/cmd1");
    assert_eq!(s0.stdin, StdinSource::Inherit);
    assert_eq!(s0.stdout, StdoutSink::NextStage);
    assert_eq!(s0.stderr, StderrSink::Inherit);

    let s1 = spawned(&q, 1);
    assert_eq!(s1.stdin, StdinSource::PreviousStage);
    assert_eq!(s1.stdout, StdoutSink::NextStage);
    assert_eq!(s1.stderr, StderrSink::Inherit);

    let s2 = spawned(&q, 2);
    assert_eq!(s2.stdin, StdinSource::PreviousStage);
    assert_eq!(s2.stdout, StdoutSink::Inherit);
    assert_eq!(s2.stderr, StderrSink::Inherit);
}

#[test]
fn last_stage_carries_stdout_redirection() {
    let reso = resolver_with(&[("a", "/b/a"), ("b", "/b/b")]);
    let q = plan(&parsed("a | b > f.txt"), &reso);
    assert_eq!(q.stages.len(), 2);
    assert_eq!(spawned(&q, 0).stdout, StdoutSink::NextStage);
    assert_eq!(spawned(&q, 1).stdout, StdoutSink::Redirect);
    assert_eq!(spawned(&q, 1).stderr, StderrSink::Inherit);
    let rd = q.redirection.expect("redirection should be carried over");
    assert_eq!(rd.mode, RedirMode::OverwriteStdout);
    assert_eq!(rd.target, "f.txt");
}

#[test]
fn stderr_redirection_leaves_stdout_inherited() {
    let reso = resolver_with(&[("a", "/b/a")]);
    let q = plan(&parsed("a 2>> log"), &reso);
    assert_eq!(spawned(&q, 0).stdout, StdoutSink::Inherit);
    assert_eq!(spawned(&q, 0).stderr, StderrSink::Redirect);
    assert_eq!(q.redirection.unwrap().mode, RedirMode::AppendStderr);
}

#[test]
fn unresolvable_first_of_two_stops_the_pipeline() {
    let reso = resolver_with(&[("cmd2", "/b/cmd2")]);
    let q = plan(&parsed("nope | cmd2"), &reso);
    assert_eq!(q.stages.len(), 1);
    match &q.stages[0] {
        StagePlan::Abort { command } => {
            assert_eq!(command, "nope");
            assert_eq!(not_found_message(command), "nope: command not found\n");
        }
        other => panic!("expected an aborting stage, got {:?}", other),
    }
}

#[test]
fn unresolvable_middle_stage_keeps_earlier_stages() {
    let reso = resolver_with(&[("cmd1", "/b/cmd1"), ("cmd3", "/b/cmd3")]);
    let q = plan(&parsed("cmd1 | nope | cmd3"), &reso);
    assert_eq!(q.stages.len(), 2);
    assert!(matches!(&q.stages[0], StagePlan::Spawn(_)));
    assert!(matches!(&q.stages[1], StagePlan::Abort { .. }));
}

#[test]
fn builtin_stage_runs_in_process() {
    let reso = resolver_with(&[("cmd2", "/b/cmd2")]);
    let q = plan(&parsed("echo hi | cmd2"), &reso);
    assert_eq!(q.stages.len(), 2);
    match &q.stages[0] {
        StagePlan::RunBuiltin { builtin, arguments } => {
            assert_eq!(*builtin, Builtin::Echo);
            assert_eq!(arguments, &vec!["hi".to_string()]);
        }
        other => panic!("expected a builtin stage, got {:?}", other),
    }
    // A builtin's output is not piped on: the next stage reads the shell's stdin.
    assert_eq!(spawned(&q, 1).stdin, StdinSource::Inherit);
}

#[test]
fn builtin_after_spawned_stage() {
    let reso = resolver_with(&[("cmd1", "/b/cmd1")]);
    let q = plan(&parsed("cmd1 | type type"), &reso);
    assert_eq!(q.stages.len(), 2);
    assert_eq!(spawned(&q, 0).stdout, StdoutSink::NextStage);
    assert!(matches!(&q.stages[1], StagePlan::RunBuiltin { builtin: Builtin::Type, .. }));
}

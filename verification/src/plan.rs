//! Pipeline executor planning: decides, for each stage of a parsed
//! pipeline, whether it runs as a builtin or is spawned, with which
//! stream bindings, and where the pipeline stops when a command cannot
//! be resolved.  The surrounding program carries the plan out: it opens
//! the redirection target first (aborting everything if that fails),
//! spawns the planned stages in order, and waits on every spawned stage.

use vstd::prelude::*;

use crate::builtins::{is_builtin_name, spec_builtin_of, Builtin};
use crate::parse::{Pipeline, RedirMode, Redirection};
use crate::resolver::{lookup, Resolver};

verus! {

/// Where a spawned stage's stdin comes from: the shell's own stdin, or
/// the pipe fed by the previous stage's stdout.
#[derive(Debug, Clone, Copy, PartialEq, Eq, Structural)]
pub enum StdinSource {
    Inherit,
    PreviousStage,
}

/// Where a spawned stage's stdout goes: the shell's own stdout, the pipe
/// feeding the next stage's stdin, or the redirection target file.
#[derive(Debug, Clone, Copy, PartialEq, Eq, Structural)]
pub enum StdoutSink {
    Inherit,
    NextStage,
    Redirect,
}

/// Where a spawned stage's stderr goes: the shell's own stderr, or the
/// redirection target file.
#[derive(Debug, Clone, Copy, PartialEq, Eq, Structural)]
pub enum StderrSink {
    Inherit,
    Redirect,
}

/// One stage to spawn: the resolved program, its arguments, and the three
/// stream bindings.
#[derive(Debug, Clone)]
pub struct SpawnStage {
    pub path: String,
    pub arguments: Vec<String>,
    pub stdin: StdinSource,
    pub stdout: StdoutSink,
    pub stderr: StderrSink,
}

/// What to do with one pipeline stage: run a builtin synchronously in the
/// shell's own process, spawn a child, or — for an unresolvable command —
/// report it and launch nothing further.
#[derive(Debug, Clone)]
pub enum StagePlan {
    RunBuiltin { builtin: Builtin, arguments: Vec<String> },
    Spawn(SpawnStage),
    Abort { command: String },
}

/// The execution plan of a whole pipeline: the per-stage decisions in
/// order (cut short after an `Abort`), and the redirection to open —
/// before anything is spawned — for the final stage.
#[derive(Debug, Clone)]
pub struct ExecPlan {
    pub stages: Vec<StagePlan>,
    pub redirection: Option<Redirection>,
}

/// Whether a stage can run at all: its command is a builtin or resolves.
pub open spec fn stage_ok(p: Pipeline, reso: Resolver, i: int) -> bool {
    is_builtin_name(p.stages@[i].command@) || lookup(reso.entries@, p.stages@[i].command@) is Some
}

/// The first stage index at or after `i` whose command neither is a
/// builtin nor resolves, or the stage count if every stage can run.
pub open spec fn cut_from(p: Pipeline, reso: Resolver, i: int) -> int
    decreases p.stages@.len() - i,
{
    if i < 0 || i >= p.stages@.len() {
        p.stages@.len() as int
    } else if !stage_ok(p, reso, i) {
        i
    } else {
        cut_from(p, reso, i + 1)
    }
}

/// The number of stages the plan launches before aborting, or the stage
/// count if it never aborts.
pub open spec fn plan_cut(p: Pipeline, reso: Resolver) -> int {
    cut_from(p, reso, 0)
}

proof fn lemma_cut_from_bounds(p: Pipeline, reso: Resolver, i: int)
    requires
        0 <= i <= p.stages@.len(),
    ensures
        i <= cut_from(p, reso, i) <= p.stages@.len(),
        forall|k: int| i <= k < cut_from(p, reso, i) ==> stage_ok(p, reso, k),
        cut_from(p, reso, i) < p.stages@.len() ==> !stage_ok(p, reso, cut_from(p, reso, i)),
    decreases p.stages@.len() - i,
{
    if i < p.stages@.len() && stage_ok(p, reso, i) {
        lemma_cut_from_bounds(p, reso, i + 1);
    }
}

/// The stdin binding of stage `i`: the previous stage's pipe when there
/// is a previous stage and it was spawned, the shell's stdin otherwise.
pub open spec fn spec_stdin(p: Pipeline, i: int) -> StdinSource {
    if i > 0 && !is_builtin_name(p.stages@[i - 1].command@) {
        StdinSource::PreviousStage
    } else {
        StdinSource::Inherit
    }
}

/// Whether a redirection mode binds stdout (as opposed to stderr).
pub open spec fn redir_is_stdout(m: RedirMode) -> bool {
    m == RedirMode::OverwriteStdout || m == RedirMode::AppendStdout
}

/// The stdout binding of stage `i`: a pipe to the next stage when one
/// follows, else the redirection target when the pipeline redirects
/// stdout, else the shell's stdout.
pub open spec fn spec_stdout(p: Pipeline, i: int) -> StdoutSink {
    if i + 1 < p.stages@.len() {
        StdoutSink::NextStage
    } else {
        match p.redirection {
            Some(rd) => if redir_is_stdout(rd.mode) {
                StdoutSink::Redirect
            } else {
                StdoutSink::Inherit
            },
            None => StdoutSink::Inherit,
        }
    }
}

/// The stderr binding of stage `i`: the redirection target when this is
/// the last stage and the pipeline redirects stderr, else the shell's
/// stderr — stderr is never piped between stages.
pub open spec fn spec_stderr(p: Pipeline, i: int) -> StderrSink {
    if i + 1 == p.stages@.len() {
        match p.redirection {
            Some(rd) => if !redir_is_stdout(rd.mode) {
                StderrSink::Redirect
            } else {
                StderrSink::Inherit
            },
            None => StderrSink::Inherit,
        }
    } else {
        StderrSink::Inherit
    }
}

/// What the plan entry of a runnable stage must hold: the builtin and the
/// stage's arguments, or the resolved path, the arguments and the three
/// stream bindings.
pub open spec fn plan_stage_matches(p: Pipeline, reso: Resolver, i: int, sp: StagePlan) -> bool {
    let st = p.stages@[i];
    if is_builtin_name(st.command@) {
        sp matches StagePlan::RunBuiltin { builtin, arguments } && Some(builtin)
            == spec_builtin_of(st.command@) && arguments@ == st.arguments@
    } else {
        sp matches StagePlan::Spawn(s) && {
            &&& Some(s.path@) == lookup(reso.entries@, st.command@)
            &&& s.arguments@ == st.arguments@
            &&& s.stdin == spec_stdin(p, i)
            &&& s.stdout == spec_stdout(p, i)
            &&& s.stderr == spec_stderr(p, i)
        }
    }
}

/// What `plan` promises: the pipeline's redirection is carried over; the
/// plan covers every stage up to the first unresolvable one, which
/// becomes the final, aborting entry; each covered stage's entry holds
/// the decisions `spec_stdin`, `spec_stdout` and `spec_stderr` describe.
pub open spec fn plan_ok(p: Pipeline, reso: Resolver, q: ExecPlan) -> bool {
    let n = p.stages@.len() as int;
    let c = plan_cut(p, reso);
    &&& q.redirection == p.redirection
    &&& (if c == n {
        q.stages@.len() == n
    } else {
        q.stages@.len() == c + 1 && (q.stages@[c] matches StagePlan::Abort { command } && command@
            == p.stages@[c].command@)
    })
    &&& forall|i: int| 0 <= i < c ==> plan_stage_matches(p, reso, i, #[trigger] q.stages@[i])
}

fn clone_redirection(r: &Option<Redirection>) -> (o: Option<Redirection>)
    ensures
        o == *r,
{
    match r {
        None => None,
        Some(rd) => Some(Redirection { mode: rd.mode, target: rd.target.clone() }),
    }
}

/// Plans the execution of a pipeline against a resolver: builtins run in
/// process, resolved commands are spawned with their stream bindings, and
/// the first command that neither is a builtin nor resolves ends the plan
/// with an aborting entry — stages after it are never launched.
pub fn plan(p: &Pipeline, reso: &Resolver) -> (q: ExecPlan)
    ensures
        plan_ok(*p, *reso, q),
{
    let n = p.stages.len();
    let mut stages_out: Vec<StagePlan> = Vec::new();
    let mut aborted = false;
    let mut i: usize = 0;
    proof {
        lemma_cut_from_bounds(*p, *reso, 0);
    }
    while !aborted && i < n
        invariant
            0 <= i <= n,
            n == p.stages@.len(),
            !aborted ==> {
                &&& stages_out@.len() == i
                &&& plan_cut(*p, *reso) == cut_from(*p, *reso, i as int)
                &&& forall|k: int| 0 <= k < i ==> stage_ok(*p, *reso, k)
            },
            aborted ==> {
                &&& i < n
                &&& plan_cut(*p, *reso) == i as int
                &&& stages_out@.len() == i + 1
                &&& (stages_out@[i as int] matches StagePlan::Abort { command } && command@
                    == p.stages@[i as int].command@)
            },
            forall|k: int| 0 <= k < i ==> plan_stage_matches(*p, *reso, k, #[trigger] stages_out@[k]),
        decreases n - i + (if aborted {
            0int
        } else {
            1int
        }),
    {
        let st = &p.stages[i];
        match crate::builtins::builtin_of(&st.command) {
            Some(b) => {
                stages_out.push(
                    StagePlan::RunBuiltin {
                        builtin: b,
                        arguments: crate::clone_words(&st.arguments),
                    },
                );
                proof {
                    assert(stage_ok(*p, *reso, i as int));
                }
                i = i + 1;
            },
            None => {
                match reso.resolve(&st.command) {
                    Some(path) => {
                        let stdin = if i > 0 && !crate::builtins::is_builtin(
                            &p.stages[i - 1].command,
                        ) {
                            StdinSource::PreviousStage
                        } else {
                            StdinSource::Inherit
                        };
                        let stdout = if i + 1 < n {
                            StdoutSink::NextStage
                        } else {
                            match &p.redirection {
                                Some(rd) => if rd.mode == RedirMode::OverwriteStdout || rd.mode
                                    == RedirMode::AppendStdout {
                                    StdoutSink::Redirect
                                } else {
                                    StdoutSink::Inherit
                                },
                                None => StdoutSink::Inherit,
                            }
                        };
                        let stderr = if i + 1 == n {
                            match &p.redirection {
                                Some(rd) => if rd.mode == RedirMode::OverwriteStderr || rd.mode
                                    == RedirMode::AppendStderr {
                                    StderrSink::Redirect
                                } else {
                                    StderrSink::Inherit
                                },
                                None => StderrSink::Inherit,
                            }
                        } else {
                            StderrSink::Inherit
                        };
                        stages_out.push(
                            StagePlan::Spawn(
                                SpawnStage {
                                    path,
                                    arguments: crate::clone_words(&st.arguments),
                                    stdin,
                                    stdout,
                                    stderr,
                                },
                            ),
                        );
                        proof {
                            assert(stage_ok(*p, *reso, i as int));
                        }
                        i = i + 1;
                    },
                    None => {
                        stages_out.push(StagePlan::Abort { command: st.command.clone() });
                        proof {
                            assert(!stage_ok(*p, *reso, i as int));
                            assert(cut_from(*p, *reso, i as int) == i as int);
                        }
                        aborted = true;
                    },
                }
            },
        }
    }
    ExecPlan { stages: stages_out, redirection: clone_redirection(&p.redirection) }
}

/// In a planned pipeline, every spawned stage that another stage follows
/// writes to the pipe feeding that next stage and keeps its stderr on the
/// shell's own — only the last stage can be redirected to a file — and
/// every stage spawned right after another spawned stage reads from the
/// previous stage's pipe.
pub proof fn lemma_pipe_wiring(p: Pipeline, reso: Resolver, q: ExecPlan)
    requires
        plan_ok(p, reso, q),
    ensures
        forall|i: int|
            0 <= i < q.stages@.len() && i + 1 < p.stages@.len() ==> ((#[trigger] q.stages@[i])
                matches StagePlan::Spawn(s) ==> s.stdout == StdoutSink::NextStage && s.stderr
                == StderrSink::Inherit),
        forall|i: int|
            0 < i < q.stages@.len() && (#[trigger] q.stages@[i - 1]) is Spawn ==> (q.stages@[i]
                matches StagePlan::Spawn(s) ==> s.stdin == StdinSource::PreviousStage),
{
    let n = p.stages@.len() as int;
    let c = plan_cut(p, reso);
    lemma_cut_from_bounds(p, reso, 0);
    assert forall|i: int|
        0 <= i < q.stages@.len() && i + 1 < n implies ((#[trigger] q.stages@[i])
        matches StagePlan::Spawn(s) ==> s.stdout == StdoutSink::NextStage && s.stderr
        == StderrSink::Inherit) by {
        if q.stages@[i] is Spawn {
            assert(i < c);
            assert(plan_stage_matches(p, reso, i, q.stages@[i]));
        }
    }
    assert forall|i: int|
        0 < i < q.stages@.len() && (#[trigger] q.stages@[i - 1]) is Spawn implies (q.stages@[i]
        matches StagePlan::Spawn(s) ==> s.stdin == StdinSource::PreviousStage) by {
        if q.stages@[i] is Spawn && q.stages@[i - 1] is Spawn {
            assert(i < c);
            assert(plan_stage_matches(p, reso, i, q.stages@[i]));
            assert(plan_stage_matches(p, reso, i - 1, q.stages@[i - 1]));
            assert(!is_builtin_name(p.stages@[i - 1].command@));
        }
    }
}

/// An unresolvable, non-builtin command as the first stage of a two-stage
/// pipeline yields a plan with a single aborting entry: the second stage
/// is never launched, and the plan ends at once.
pub proof fn lemma_unresolvable_first_stage(p: Pipeline, reso: Resolver, q: ExecPlan)
    requires
        plan_ok(p, reso, q),
        p.stages@.len() == 2,
        !is_builtin_name(p.stages@[0].command@),
        lookup(reso.entries@, p.stages@[0].command@) is None,
    ensures
        q.stages@.len() == 1,
        q.stages@[0] matches StagePlan::Abort { command } && command@ == p.stages@[0].command@,
{
    assert(!stage_ok(p, reso, 0));
    assert(plan_cut(p, reso) == 0);
}

/// What the shell reports for a command that cannot be resolved.
pub open spec fn not_found_text(cmd: Seq<char>) -> Seq<char> {
    cmd + ": command not found\n"@
}

/// The message reported for a command that cannot be resolved.
pub fn not_found_message(cmd: &String) -> (r: String)
    ensures
        r@ == not_found_text(cmd@),
{
    let mut out = String::from_str(cmd.as_str());
    out.append(": command not found\n");
    proof {
        assert(out@ =~= not_found_text(cmd@));
    }
    out
}

} // verus!

//! The pipeline executor's decisions.
//!
//! Carrying a command line out mixes decisions with operating-system
//! work. The decisions live here, verified: `CommandLine::run` turns a
//! parsed line into a `CommandPlan`; for a pipeline that plan is the
//! ordered list of `ExecAction`s — open the redirect target before
//! anything is spawned, create one pipe per adjacent stage pair, spawn
//! the stages in order, close the shell's copy of each pipe's write end
//! as soon as the stage holding it has been spawned, and wait on the
//! final stage only. The host performs each action in turn and feeds
//! what happened back into the `ExecState` machine, which decides the
//! outcome.

use crate::builtin_cmd::{builtin_plan_view, plan_builtin, spec_plan_builtin, BuiltinError, BuiltinOp};
use crate::parser::{CommandLine, ExternCommandLine};
use vstd::prelude::*;

verus! {

/// Where a stage's standard input comes from.
#[derive(Debug, Clone, Copy, PartialEq, Eq)]
pub enum InputSource {
    /// The shell's own standard input.
    Inherit,
    /// The read end of the numbered pipe.
    PipeRead(usize),
}

/// Where a stage's standard output goes.
#[derive(Debug, Clone, Copy, PartialEq, Eq)]
pub enum OutputSink {
    /// The shell's own standard output.
    Inherit,
    /// The write end of the numbered pipe.
    PipeWrite(usize),
    /// The pipeline's redirect target file.
    Redirect,
}

/// One step of carrying a pipeline out, in the order the host must take
/// them.
#[derive(Debug, Clone, Copy, PartialEq, Eq)]
pub enum ExecAction {
    /// Open the redirect target, before anything is spawned.
    OpenRedirect,
    /// Create the numbered pipe.
    CreatePipe(usize),
    /// Spawn the numbered stage with the given wiring.
    Spawn { stage: usize, stdin: InputSource, stdout: OutputSink },
    /// Close the shell's copy of the numbered pipe's write end: the
    /// spawned stage holds it now, and keeping a second copy open would
    /// starve the reading stage of its end-of-stream.
    ClosePipeWrite(usize),
    /// Wait for the final stage; intermediate stages run free.
    WaitLast,
}

/// The source of stage `i`'s standard input in an `n`-stage pipeline.
pub open spec fn spec_stage_stdin(i: int) -> InputSource {
    if i == 0 {
        InputSource::Inherit
    } else {
        InputSource::PipeRead((i - 1) as usize)
    }
}

/// The sink of stage `i`'s standard output in an `n`-stage pipeline,
/// `has_redirect` saying whether the final output is diverted to a file.
pub open spec fn spec_stage_stdout(i: int, n: int, has_redirect: bool) -> OutputSink {
    if i < n - 1 {
        OutputSink::PipeWrite(i as usize)
    } else if has_redirect {
        OutputSink::Redirect
    } else {
        OutputSink::Inherit
    }
}

/// The actions that bring up stage `i` of an `n`-stage pipeline: its
/// outgoing pipe (if any) is created, the stage is spawned, and the
/// shell's copy of that pipe's write end is closed at once.
pub open spec fn stage_actions(i: int, n: int, has_redirect: bool) -> Seq<ExecAction> {
    if i < n - 1 {
        seq![
            ExecAction::CreatePipe(i as usize),
            ExecAction::Spawn {
                stage: i as usize,
                stdin: spec_stage_stdin(i),
                stdout: spec_stage_stdout(i, n, has_redirect),
            },
            ExecAction::ClosePipeWrite(i as usize),
        ]
    } else {
        seq![
            ExecAction::Spawn {
                stage: i as usize,
                stdin: spec_stage_stdin(i),
                stdout: spec_stage_stdout(i, n, has_redirect),
            },
        ]
    }
}

/// The actions that bring up the first `k` stages of an `n`-stage
/// pipeline, in order.
pub open spec fn stages_plan(k: int, n: int, has_redirect: bool) -> Seq<ExecAction>
    decreases k,
{
    if k <= 0 {
        Seq::empty()
    } else {
        stages_plan(k - 1, n, has_redirect) + stage_actions(k - 1, n, has_redirect)
    }
}

/// The whole plan for an `n`-stage pipeline: the redirect target is
/// opened before any stage is spawned, the stages are brought up in
/// order, and the final stage alone is waited on.
pub open spec fn spec_plan(n: int, has_redirect: bool) -> Seq<ExecAction> {
    (if has_redirect {
        seq![ExecAction::OpenRedirect]
    } else {
        Seq::empty()
    }) + stages_plan(n, n, has_redirect) + seq![ExecAction::WaitLast]
}

impl ExternCommandLine {
    /// The ordered actions that carry this pipeline out. The host
    /// performs them one by one; each `Spawn` names a stage of
    /// `piped_cmds` and says where its input and output go.
    pub fn plan(&self) -> (acts: Vec<ExecAction>)
        requires
            self.piped_cmds@.len() >= 1,
        ensures
            acts@ == spec_plan(self.piped_cmds@.len() as int, self.redirect is Some),
    {
        let n = self.piped_cmds.len();
        let ghost hr = self.redirect is Some;
        let mut acts: Vec<ExecAction> = Vec::new();
        if self.redirect.is_some() {
            acts.push(ExecAction::OpenRedirect);
        }
        let ghost head = acts@;
        proof {
            if hr {
                assert(head =~= seq![ExecAction::OpenRedirect]);
            } else {
                assert(head =~= Seq::<ExecAction>::empty());
            }
            assert(acts@ =~= head + stages_plan(0, n as int, hr));
        }
        let mut i: usize = 0;
        while i < n
            invariant
                i <= n,
                n == self.piped_cmds@.len(),
                hr == (self.redirect is Some),
                head == (if hr {
                    seq![ExecAction::OpenRedirect]
                } else {
                    Seq::<ExecAction>::empty()
                }),
                acts@ == head + stages_plan(i as int, n as int, hr),
            decreases n - i,
        {
            let ghost pre = acts@;
            if i < n - 1 {
                acts.push(ExecAction::CreatePipe(i));
                let stdin = if i == 0 {
                    InputSource::Inherit
                } else {
                    InputSource::PipeRead(i - 1)
                };
                acts.push(ExecAction::Spawn { stage: i, stdin, stdout: OutputSink::PipeWrite(i) });
                acts.push(ExecAction::ClosePipeWrite(i));
            } else {
                let stdin = if i == 0 {
                    InputSource::Inherit
                } else {
                    InputSource::PipeRead(i - 1)
                };
                let stdout = if self.redirect.is_some() {
                    OutputSink::Redirect
                } else {
                    OutputSink::Inherit
                };
                acts.push(ExecAction::Spawn { stage: i, stdin, stdout });
            }
            proof {
                assert(stages_plan(i + 1, n as int, hr) == stages_plan(i as int, n as int, hr)
                    + stage_actions(i as int, n as int, hr));
                assert(acts@ =~= pre + stage_actions(i as int, n as int, hr));
                assert(acts@ =~= head + stages_plan(i + 1, n as int, hr));
            }
            i += 1;
        }
        acts.push(ExecAction::WaitLast);
        proof {
            assert(acts@ =~= head + stages_plan(n as int, n as int, hr) + seq![
                ExecAction::WaitLast,
            ]);
        }
        acts
    }
}

/// How many pipes a plan creates.
pub open spec fn count_pipe_creates(a: Seq<ExecAction>) -> int
    decreases a.len(),
{
    if a.len() == 0 {
        0
    } else {
        count_pipe_creates(a.drop_last()) + if a.last() is CreatePipe {
            1int
        } else {
            0int
        }
    }
}

proof fn lemma_count_append(a: Seq<ExecAction>, b: Seq<ExecAction>)
    ensures
        count_pipe_creates(a + b) == count_pipe_creates(a) + count_pipe_creates(b),
    decreases b.len(),
{
    if b.len() == 0 {
        assert(a + b =~= a);
    } else {
        assert((a + b).drop_last() =~= a + b.drop_last());
        assert((a + b).last() == b.last());
        lemma_count_append(a, b.drop_last());
    }
}

proof fn lemma_count_one(x: ExecAction)
    ensures
        count_pipe_creates(seq![x]) == if x is CreatePipe {
            1int
        } else {
            0int
        },
{
    assert(seq![x].drop_last() =~= Seq::<ExecAction>::empty());
    assert(count_pipe_creates(Seq::<ExecAction>::empty()) == 0);
    assert(seq![x].last() == x);
}

proof fn lemma_count_stage_actions(i: int, n: int, hr: bool)
    ensures
        count_pipe_creates(stage_actions(i, n, hr)) == if i < n - 1 {
            1int
        } else {
            0int
        },
{
    let a = stage_actions(i, n, hr);
    let sp = ExecAction::Spawn {
        stage: i as usize,
        stdin: spec_stage_stdin(i),
        stdout: spec_stage_stdout(i, n, hr),
    };
    if i < n - 1 {
        let c = ExecAction::CreatePipe(i as usize);
        let cl = ExecAction::ClosePipeWrite(i as usize);
        assert(a =~= seq![c] + seq![sp] + seq![cl]);
        lemma_count_one(c);
        lemma_count_one(sp);
        lemma_count_one(cl);
        lemma_count_append(seq![c], seq![sp]);
        lemma_count_append(seq![c] + seq![sp], seq![cl]);
    } else {
        assert(a =~= seq![sp]);
        lemma_count_one(sp);
    }
}

/// Pipe `p`'s whole life in plan `a`, whose stage actions start at
/// index `base`: the pipe is created, handed to its writing stage by the
/// very next action, and the shell's copy of the write end is closed by
/// the action after that — before any later stage is spawned.
pub open spec fn pipe_discipline_at(a: Seq<ExecAction>, base: int, p: int) -> bool {
    &&& a[base + 3 * p] == ExecAction::CreatePipe(p as usize)
    &&& a[base + 3 * p + 1] == (ExecAction::Spawn {
        stage: p as usize,
        stdin: spec_stage_stdin(p),
        stdout: OutputSink::PipeWrite(p as usize),
    })
    &&& a[base + 3 * p + 2] == ExecAction::ClosePipeWrite(p as usize)
}

proof fn lemma_stages_plan_shape(k: int, n: int, hr: bool)
    requires
        0 <= k <= n - 1,
    ensures
        stages_plan(k, n, hr).len() == 3 * k,
        count_pipe_creates(stages_plan(k, n, hr)) == k,
        forall|p: int| 0 <= p < k ==> #[trigger] pipe_discipline_at(stages_plan(k, n, hr), 0, p),
    decreases k,
{
    if k <= 0 {
    } else {
        lemma_stages_plan_shape(k - 1, n, hr);
        lemma_count_stage_actions(k - 1, n, hr);
        lemma_count_append(stages_plan(k - 1, n, hr), stage_actions(k - 1, n, hr));
        let prev = stages_plan(k - 1, n, hr);
        let a = stage_actions(k - 1, n, hr);
        assert(a.len() == 3);
        assert(spec_stage_stdout(k - 1, n, hr) == OutputSink::PipeWrite((k - 1) as usize));
        assert forall|p: int| 0 <= p < k implies #[trigger] pipe_discipline_at(
            stages_plan(k, n, hr),
            0,
            p,
        ) by {
            if p < k - 1 {
                assert(pipe_discipline_at(prev, 0, p));
                assert(stages_plan(k, n, hr)[3 * p] == prev[3 * p]);
                assert(stages_plan(k, n, hr)[3 * p + 1] == prev[3 * p + 1]);
                assert(stages_plan(k, n, hr)[3 * p + 2] == prev[3 * p + 2]);
            } else {
                assert(stages_plan(k, n, hr)[3 * p] == a[0]);
                assert(stages_plan(k, n, hr)[3 * p + 1] == a[1]);
                assert(stages_plan(k, n, hr)[3 * p + 2] == a[2]);
            }
        }
    }
}

/// Where a plan's stage actions start: one action in (after the
/// redirect open) when the pipeline has a redirect, at the front
/// otherwise.
pub open spec fn plan_base(has_redirect: bool) -> int {
    if has_redirect {
        1int
    } else {
        0int
    }
}

/// The pipe discipline of an `n`-stage pipeline's plan, `n >= 2`:
/// exactly `n - 1` inter-stage pipes are created; pipe `p` is created
/// just before stage `p` — the stage that writes into it — is spawned,
/// and the shell's copy of its write end is closed in the very next
/// action, after the handoff and before any later stage is spawned and
/// before the final wait; the redirect target, if any, is opened before
/// any stage is spawned; the plan ends with the only wait, on the final
/// stage.
pub proof fn lemma_pipe_discipline(n: int, has_redirect: bool)
    requires
        n >= 2,
    ensures
        spec_plan(n, has_redirect).len() == plan_base(has_redirect) + 3 * (n - 1) + 2,
        count_pipe_creates(spec_plan(n, has_redirect)) == n - 1,
        forall|p: int|
            0 <= p < n - 1 ==> #[trigger] pipe_discipline_at(
                spec_plan(n, has_redirect),
                plan_base(has_redirect),
                p,
            ),
        spec_plan(n, has_redirect)[plan_base(has_redirect) + 3 * (n - 1)] == (ExecAction::Spawn {
            stage: (n - 1) as usize,
            stdin: spec_stage_stdin(n - 1),
            stdout: spec_stage_stdout(n - 1, n, has_redirect),
        }),
        spec_plan(n, has_redirect).last() == ExecAction::WaitLast,
        has_redirect ==> spec_plan(n, has_redirect)[0] == ExecAction::OpenRedirect,
{
    let a = spec_plan(n, has_redirect);
    let head: Seq<ExecAction> = if has_redirect {
        seq![ExecAction::OpenRedirect]
    } else {
        Seq::empty()
    };
    let base = plan_base(has_redirect);
    let body = stages_plan(n, n, has_redirect);
    let tail = seq![ExecAction::WaitLast];
    lemma_stages_plan_shape(n - 1, n, has_redirect);
    assert(body == stages_plan(n - 1, n, has_redirect) + stage_actions(n - 1, n, has_redirect));
    assert(stage_actions(n - 1, n, has_redirect).len() == 1);
    assert(body.len() == 3 * (n - 1) + 1);
    lemma_count_stage_actions(n - 1, n, has_redirect);
    lemma_count_append(stages_plan(n - 1, n, has_redirect), stage_actions(n - 1, n, has_redirect));
    assert(count_pipe_creates(body) == n - 1);
    if has_redirect {
        lemma_count_one(ExecAction::OpenRedirect);
        assert(head =~= seq![ExecAction::OpenRedirect]);
    } else {
        assert(count_pipe_creates(head) == 0);
    }
    lemma_count_one(ExecAction::WaitLast);
    assert(tail =~= seq![ExecAction::WaitLast]);
    lemma_count_append(head, body);
    lemma_count_append(head + body, tail);
    assert(a =~= (head + body) + tail);
    assert(count_pipe_creates(a) == n - 1);
    let prev = stages_plan(n - 1, n, has_redirect);
    assert forall|p: int| 0 <= p < n - 1 implies #[trigger] pipe_discipline_at(a, base, p) by {
        assert(pipe_discipline_at(prev, 0, p));
        assert(body[3 * p] == prev[3 * p]);
        assert(body[3 * p + 1] == prev[3 * p + 1]);
        assert(body[3 * p + 2] == prev[3 * p + 2]);
        assert(a[base + 3 * p] == body[3 * p]);
        assert(a[base + 3 * p + 1] == body[3 * p + 1]);
        assert(a[base + 3 * p + 2] == body[3 * p + 2]);
    }
    assert(a[base + 3 * (n - 1)] == body[3 * (n - 1)]);
    assert(body[3 * (n - 1)] == stage_actions(n - 1, n, has_redirect)[0]);
    assert(a.last() == tail[0]);
}

/// What the final stage's exit looked like.
#[derive(Debug, Clone, Copy, PartialEq, Eq)]
pub struct ExitOutcome {
    /// The stage exited successfully.
    pub success: bool,
    /// Its exit code, if it exited with one (a stage killed by a signal
    /// has none).
    pub code: Option<i32>,
}

/// Why an execution failed before its final wait.
#[derive(Debug, Clone, PartialEq, Eq)]
pub enum ExecError {
    /// The redirect target could not be opened; nothing was spawned.
    RedirectOpenFailed,
    /// The numbered stage could not be spawned, for the reason the host
    /// reported; later stages were never started, earlier ones run to
    /// completion on their own.
    SpawnFailed { stage: usize, cause: String },
}

/// Where an execution stands. Terminal states are `Completed` and
/// `Failed`.
#[derive(Debug, Clone, PartialEq, Eq)]
pub enum ExecState {
    /// The redirect target is being opened; nothing is spawned yet.
    OpeningRedirect,
    /// Stages `0 .. next_stage` are spawned; `next_stage` is next.
    Spawning { next_stage: usize },
    /// Every stage is spawned; the final one is being waited on.
    Waiting,
    /// The pipeline finished; `outcome` is the final stage's exit.
    Completed { outcome: ExitOutcome },
    /// The execution failed; nothing further happens.
    Failed { error: ExecError },
}

/// What the host reports back after taking an action.
#[derive(Debug, Clone, PartialEq, Eq)]
pub enum ExecEvent {
    /// The redirect target is open.
    RedirectOpened,
    /// The redirect target could not be opened.
    RedirectOpenFailed,
    /// The next stage is spawned.
    Spawned,
    /// The next stage could not be spawned; `cause` is the operating
    /// system's reason, carried into the failure outcome.
    SpawnFailed { cause: String },
    /// The final stage exited.
    Waited { outcome: ExitOutcome },
}

impl ExecState {
    /// The state speaks of stages that exist: in an `n`-stage pipeline
    /// the next stage to spawn is one of them.
    pub open spec fn wf(self, n: int) -> bool {
        match self {
            ExecState::Spawning { next_stage } => next_stage < n,
            _ => true,
        }
    }
}

/// The executor's transition relation for an `n`-stage pipeline: an
/// event that does not belong to the state leaves the state unchanged.
pub open spec fn spec_step(s: ExecState, e: ExecEvent, n: int) -> ExecState {
    match (s, e) {
        (ExecState::OpeningRedirect, ExecEvent::RedirectOpened) => ExecState::Spawning {
            next_stage: 0,
        },
        (ExecState::OpeningRedirect, ExecEvent::RedirectOpenFailed) => ExecState::Failed {
            error: ExecError::RedirectOpenFailed,
        },
        (ExecState::Spawning { next_stage }, ExecEvent::Spawned) => {
            if next_stage + 1 < n {
                ExecState::Spawning { next_stage: (next_stage + 1) as usize }
            } else {
                ExecState::Waiting
            }
        },
        (ExecState::Spawning { next_stage }, ExecEvent::SpawnFailed { cause }) => ExecState::Failed {
            error: ExecError::SpawnFailed { stage: next_stage, cause },
        },
        (ExecState::Waiting, ExecEvent::Waited { outcome }) => ExecState::Completed { outcome },
        _ => s,
    }
}

/// The state an execution starts in: opening the redirect target if
/// there is one, else spawning the first stage.
pub open spec fn spec_initial_state(has_redirect: bool) -> ExecState {
    if has_redirect {
        ExecState::OpeningRedirect
    } else {
        ExecState::Spawning { next_stage: 0 }
    }
}

/// Executable counterpart of `spec_initial_state`.
pub fn initial_state(has_redirect: bool) -> (s: ExecState)
    ensures
        s == spec_initial_state(has_redirect),
{
    if has_redirect {
        ExecState::OpeningRedirect
    } else {
        ExecState::Spawning { next_stage: 0 }
    }
}

/// Advances the execution of an `n`-stage pipeline by one reported
/// event.
pub fn step(s: ExecState, e: ExecEvent, n: usize) -> (t: ExecState)
    requires
        n >= 1,
        s.wf(n as int),
    ensures
        t == spec_step(s, e, n as int),
        t.wf(n as int),
{
    match (s, e) {
        (ExecState::OpeningRedirect, ExecEvent::RedirectOpened) => ExecState::Spawning {
            next_stage: 0,
        },
        (ExecState::OpeningRedirect, ExecEvent::RedirectOpenFailed) => ExecState::Failed {
            error: ExecError::RedirectOpenFailed,
        },
        (ExecState::Spawning { next_stage }, ExecEvent::Spawned) => {
            if next_stage + 1 < n {
                ExecState::Spawning { next_stage: next_stage + 1 }
            } else {
                ExecState::Waiting
            }
        },
        (ExecState::Spawning { next_stage }, ExecEvent::SpawnFailed { cause }) => ExecState::Failed {
            error: ExecError::SpawnFailed { stage: next_stage, cause },
        },
        (ExecState::Waiting, ExecEvent::Waited { outcome }) => ExecState::Completed { outcome },
        (s2, _) => s2,
    }
}

/// What a parsed line asks the host to do: carry out a pipeline plan,
/// or perform (or report) a builtin invocation.
#[derive(Debug, PartialEq)]
pub enum CommandPlan {
    /// An external pipeline: the stages to spawn and the actions, in
    /// order, that wire them up.
    External { cmd: ExternCommandLine, actions: Vec<ExecAction> },
    /// A builtin invocation: the validated operation, or the usage
    /// error to report.
    Builtin { op: Result<BuiltinOp, BuiltinError> },
}

impl CommandLine {
    /// Decides how this command line is carried out. A builtin is
    /// dispatched against the operation table; an external pipeline
    /// becomes its action plan. Nothing is touched yet: the host
    /// performs the returned plan.
    pub fn run(self) -> (r: CommandPlan)
        requires
            self matches CommandLine::Extern(e) ==> e.piped_cmds@.len() >= 1,
        ensures
            match self {
                CommandLine::Extern(e) => r matches CommandPlan::External { cmd, actions }
                    && cmd == e && actions@ == spec_plan(
                    e.piped_cmds@.len() as int,
                    e.redirect is Some,
                ),
                CommandLine::Builtin(c) => r matches CommandPlan::Builtin { op }
                    && builtin_plan_view(op) == spec_plan_builtin(
                    c.command_name@,
                    c.args.deep_view(),
                ),
            },
    {
        match self {
            CommandLine::Extern(e) => {
                let actions = e.plan();
                CommandPlan::External { cmd: e, actions }
            },
            CommandLine::Builtin(c) => {
                let op = plan_builtin(c.command_name.as_str(), &c.args);
                CommandPlan::Builtin { op }
            },
        }
    }
}

} // verus!

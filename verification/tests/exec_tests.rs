use hjpsh::builtin_cmd::BuiltinOp;
use hjpsh::exec::{
    initial_state, step, CommandPlan, ExecAction, ExecError, ExecEvent, ExecState, ExitOutcome,
    InputSource, OutputSink,
};
use hjpsh::parser::{parse_cmdline, CommandLine};

fn pipeline_of(line: &str) -> CommandPlan {
    match parse_cmdline(line) {
        Ok(cl) => cl.run(),
        Err(e) => panic!("{} did not parse: {:?}", line, e),
    }
}

#[test]
fn plan_of_three_stages_creates_two_pipes_and_closes_each_write_end() {
    let plan = pipeline_of("a | b | c");
    let actions = match plan {
        CommandPlan::External { actions, .. } => actions,
        other => panic!("expected a pipeline plan, got {:?}", other),
    };
    let created: Vec<usize> = actions
        .iter()
        .filter_map(|a| match a {
            ExecAction::CreatePipe(p) => Some(*p),
            _ => None,
        })
        .collect();
    assert_eq!(created, vec![0, 1]);
    for p in created {
        let handoff = actions
            .iter()
            .position(|a| {
                matches!(a, ExecAction::Spawn { stdout: OutputSink::PipeWrite(q), .. } if *q == p)
            })
            .expect("every pipe is handed to a stage");
        let closed = actions
            .iter()
            .position(|a| matches!(a, ExecAction::ClosePipeWrite(q) if *q == p))
            .expect("every pipe's write end is closed");
        assert!(closed > handoff, "write end closed only after the handoff");
        let later_spawn = actions
            .iter()
            .skip(closed)
            .any(|a| matches!(a, ExecAction::Spawn { stage, .. } if *stage > p));
        assert!(later_spawn, "the close comes before the next stage is spawned");
    }
    assert_eq!(actions.last(), Some(&ExecAction::WaitLast));
}

#[test]
fn plan_wires_stage_outputs_to_the_next_stage_inputs() {
    let plan = pipeline_of("a | b");
    let actions = match plan {
        CommandPlan::External { actions, .. } => actions,
        other => panic!("expected a pipeline plan, got {:?}", other),
    };
    assert_eq!(
        actions,
        vec![
            ExecAction::CreatePipe(0),
            ExecAction::Spawn {
                stage: 0,
                stdin: InputSource::Inherit,
                stdout: OutputSink::PipeWrite(0),
            },
            ExecAction::ClosePipeWrite(0),
            ExecAction::Spawn {
                stage: 1,
                stdin: InputSource::PipeRead(0),
                stdout: OutputSink::Inherit,
            },
            ExecAction::WaitLast,
        ]
    );
}

#[test]
fn plan_opens_the_redirect_before_anything_is_spawned() {
    let plan = pipeline_of("a | b > out.txt");
    let actions = match plan {
        CommandPlan::External { actions, .. } => actions,
        other => panic!("expected a pipeline plan, got {:?}", other),
    };
    assert_eq!(actions.first(), Some(&ExecAction::OpenRedirect));
    assert_eq!(
        actions
            .iter()
            .filter(|a| matches!(a, ExecAction::Spawn { .. }))
            .count(),
        2
    );
    let last_spawn = actions
        .iter()
        .find(|a| matches!(a, ExecAction::Spawn { stage: 1, .. }))
        .unwrap();
    assert_eq!(
        last_spawn,
        &ExecAction::Spawn {
            stage: 1,
            stdin: InputSource::PipeRead(0),
            stdout: OutputSink::Redirect,
        }
    );
}

#[test]
fn single_stage_plan_spawns_once_and_waits() {
    let plan = pipeline_of("frobnicate arg1");
    let actions = match plan {
        CommandPlan::External { actions, .. } => actions,
        other => panic!("expected a pipeline plan, got {:?}", other),
    };
    assert_eq!(
        actions,
        vec![
            ExecAction::Spawn {
                stage: 0,
                stdin: InputSource::Inherit,
                stdout: OutputSink::Inherit,
            },
            ExecAction::WaitLast,
        ]
    );
}

#[test]
fn unknown_command_fails_at_spawn_time_not_parse_time() {
    // The parse half of the story is covered in the parser tests: the
    // line becomes a 1-stage pipeline. Here the host reports that the
    // spawn failed, and the machine pins the outcome to that stage,
    // carrying the reported cause.
    let s = initial_state(false);
    assert_eq!(s, ExecState::Spawning { next_stage: 0 });
    let t = step(
        s,
        ExecEvent::SpawnFailed {
            cause: "No such file or directory".to_string(),
        },
        1,
    );
    assert_eq!(
        t,
        ExecState::Failed {
            error: ExecError::SpawnFailed {
                stage: 0,
                cause: "No such file or directory".to_string(),
            },
        }
    );
}

#[test]
fn machine_runs_a_two_stage_pipeline_to_completion() {
    let mut s = initial_state(false);
    s = step(s, ExecEvent::Spawned, 2);
    assert_eq!(s, ExecState::Spawning { next_stage: 1 });
    s = step(s, ExecEvent::Spawned, 2);
    assert_eq!(s, ExecState::Waiting);
    let outcome = ExitOutcome {
        success: true,
        code: Some(0),
    };
    s = step(s, ExecEvent::Waited { outcome }, 2);
    assert_eq!(s, ExecState::Completed { outcome });
}

#[test]
fn machine_opens_the_redirect_first_and_fails_without_spawning() {
    let s = initial_state(true);
    assert_eq!(s, ExecState::OpeningRedirect);
    let opened = step(s.clone(), ExecEvent::RedirectOpened, 2);
    assert_eq!(opened, ExecState::Spawning { next_stage: 0 });
    let failed = step(s, ExecEvent::RedirectOpenFailed, 2);
    assert_eq!(
        failed,
        ExecState::Failed {
            error: ExecError::RedirectOpenFailed,
        }
    );
}

#[test]
fn machine_fails_mid_pipeline_with_the_reported_cause() {
    let mut s = initial_state(false);
    s = step(s, ExecEvent::Spawned, 3);
    s = step(
        s,
        ExecEvent::SpawnFailed {
            cause: "Permission denied".to_string(),
        },
        3,
    );
    assert_eq!(
        s,
        ExecState::Failed {
            error: ExecError::SpawnFailed {
                stage: 1,
                cause: "Permission denied".to_string(),
            },
        }
    );
}

#[test]
fn machine_ignores_an_event_that_does_not_belong() {
    let s = ExecState::Waiting;
    assert_eq!(step(s, ExecEvent::Spawned, 2), ExecState::Waiting);
}

#[test]
fn run_dispatches_builtins_through_the_table() {
    let plan = match parse_cmdline("quit") {
        Ok(cl) => cl.run(),
        Err(e) => panic!("quit did not parse: {:?}", e),
    };
    assert_eq!(
        plan,
        CommandPlan::Builtin {
            op: Ok(BuiltinOp::Quit),
        }
    );
}

#[test]
fn run_reports_builtin_usage_errors() {
    let plan = match parse_cmdline("touch2") {
        Ok(cl) => cl.run(),
        Err(e) => panic!("touch2 did not parse: {:?}", e),
    };
    match plan {
        CommandPlan::Builtin { op } => {
            assert_eq!(op, Err(hjpsh::builtin_cmd::BuiltinError::MissingFileOperand));
        }
        other => panic!("expected a builtin plan, got {:?}", other),
    }
}

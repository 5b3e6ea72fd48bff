use puff::runner::{Action, CommandKind, Coordinator, PlannedCommand, RunStatus, Runner};

fn planned(kind: CommandKind, command: &str) -> PlannedCommand {
    PlannedCommand {
        kind,
        command: command.to_string(),
    }
}

#[test]
fn coordinator_counts_registrations_and_completions() {
    let mut c = Coordinator::new();
    assert!(c.is_quiescent());
    assert_eq!(c.pending(), 0);
    c.register();
    c.register();
    assert_eq!(c.pending(), 2);
    assert!(!c.is_quiescent());
    c.complete();
    assert_eq!(c.pending(), 1);
    c.complete();
    assert!(c.is_quiescent());
}

#[test]
fn sequencing_holds_blocking_before_wait_and_waits_out_flights() {
    // A run shaped as: a blocking echo, a fire-and-forget sleep, then a
    // wait-then-run echo.  The first echo must be executed before the
    // launch, the launch before any quiesce, and the second echo must not
    // be handed out until the in-flight command completed; the run must
    // not stop while something is in flight.
    let plan = vec![
        planned(CommandKind::Blocking, "echo 1"),
        planned(CommandKind::FireAndForget, "sleep 1 && echo 2"),
        planned(CommandKind::WaitThenRun, "echo 3"),
    ];
    let mut runner = Runner::new(plan);

    match runner.advance() {
        Action::Execute { command } => assert_eq!(command, "echo 1"),
        other => panic!("expected the first echo, got {:?}", other),
    }
    runner.report_exit(0);

    match runner.advance() {
        Action::Launch { command } => assert_eq!(command, "sleep 1 && echo 2"),
        other => panic!("expected the launch, got {:?}", other),
    }
    assert_eq!(runner.coordinator.pending(), 1);

    // The wait-then-run command is withheld while one command is in flight.
    assert!(matches!(runner.advance(), Action::Quiesce));
    runner.note_completion();

    match runner.advance() {
        Action::Execute { command } => assert_eq!(command, "echo 3"),
        other => panic!("expected the second echo, got {:?}", other),
    }
    runner.report_exit(0);

    assert!(matches!(runner.advance(), Action::Stop));
    assert_eq!(runner.status, RunStatus::Succeeded);
}

#[test]
fn run_does_not_stop_before_in_flight_commands_complete() {
    let plan = vec![planned(CommandKind::FireAndForget, "sleep 1 && echo late")];
    let mut runner = Runner::new(plan);
    assert!(matches!(runner.advance(), Action::Launch { .. }));
    // The plan is exhausted, but the run only quiesces: it cannot stop yet.
    assert!(matches!(runner.advance(), Action::Quiesce));
    assert!(matches!(runner.advance(), Action::Quiesce));
    runner.note_completion();
    assert!(matches!(runner.advance(), Action::Stop));
    assert_eq!(runner.status, RunStatus::Succeeded);
}

#[test]
fn nonzero_exit_fails_run_with_that_code_and_dispatches_nothing_more() {
    let plan = vec![
        planned(CommandKind::Blocking, "exit 7"),
        planned(CommandKind::Blocking, "echo never"),
    ];
    let mut runner = Runner::new(plan);
    match runner.advance() {
        Action::Execute { command } => assert_eq!(command, "exit 7"),
        other => panic!("expected the failing command, got {:?}", other),
    }
    runner.report_exit(7);
    assert_eq!(runner.status, RunStatus::Failed(7));
    assert_eq!(runner.exit_code(), Some(7));
    // The second command is never handed out.
    assert!(matches!(runner.advance(), Action::Stop));
    assert!(matches!(runner.advance(), Action::Stop));
}

#[test]
fn zero_exit_keeps_run_going() {
    let plan = vec![
        planned(CommandKind::Blocking, "true"),
        planned(CommandKind::Blocking, "echo next"),
    ];
    let mut runner = Runner::new(plan);
    assert!(matches!(runner.advance(), Action::Execute { .. }));
    runner.report_exit(0);
    assert_eq!(runner.status, RunStatus::Running);
    assert_eq!(runner.exit_code(), None);
    match runner.advance() {
        Action::Execute { command } => assert_eq!(command, "echo next"),
        other => panic!("expected the second command, got {:?}", other),
    }
}

#[test]
fn empty_plan_succeeds_at_once() {
    let mut runner = Runner::new(Vec::new());
    assert!(matches!(runner.advance(), Action::Stop));
    assert_eq!(runner.status, RunStatus::Succeeded);
}

#[test]
fn wait_then_run_executes_at_once_when_nothing_in_flight() {
    let plan = vec![planned(CommandKind::WaitThenRun, "echo now")];
    let mut runner = Runner::new(plan);
    match runner.advance() {
        Action::Execute { command } => assert_eq!(command, "echo now"),
        other => panic!("expected the command, got {:?}", other),
    }
}

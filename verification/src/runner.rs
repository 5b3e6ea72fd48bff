//! The run-time side of a task: planned commands, the in-flight counter
//! for fire-and-forget executions, and the state machine that sequences a
//! task's commands and decides when the run has failed or may finish.
use vstd::prelude::*;

verus! {

/// The three ways a command string is handed to the shell.
#[derive(Clone, Copy, PartialEq, Eq, Structural, Debug)]
pub enum CommandKind {
    /// Run synchronously; a non-zero exit code fails the run.
    Blocking,
    /// Launch without waiting; the exit code is never surfaced.
    FireAndForget,
    /// Wait for every fire-and-forget command in flight, then run as
    /// `Blocking` does.
    WaitThenRun,
}

/// One fully expanded command, ready to execute: no placeholder is left in
/// `command`.
pub struct PlannedCommand {
    /// How the command is dispatched.
    pub kind: CommandKind,
    /// The expanded command string.
    pub command: String,
}

/// Specification-level form of a planned command.
pub struct PlanStep {
    /// How the command is dispatched.
    pub kind: CommandKind,
    /// The expanded command string.
    pub command: Seq<char>,
}

impl View for PlannedCommand {
    type V = PlanStep;

    open spec fn view(&self) -> PlanStep {
        PlanStep { kind: self.kind, command: self.command@ }
    }
}

/// The counter of fire-and-forget commands still in flight: registered
/// when launched, completed when their subprocess finishes, and quiescent
/// when none is left.
pub struct Coordinator {
    /// How many launched commands have not completed yet.
    pub count: usize,
}

impl Coordinator {
    /// A coordinator with nothing in flight.
    pub fn new() -> (c: Coordinator)
        ensures
            c.count == 0,
    {
        Coordinator { count: 0 }
    }

    /// Records one launched command.
    pub fn register(&mut self)
        requires
            old(self).count < usize::MAX,
        ensures
            final(self).count == old(self).count + 1,
    {
        self.count = self.count + 1;
    }

    /// Records one completed command.
    pub fn complete(&mut self)
        requires
            old(self).count > 0,
        ensures
            final(self).count == old(self).count - 1,
    {
        self.count = self.count - 1;
    }

    /// How many commands are in flight.
    pub fn pending(&self) -> (n: usize)
        ensures
            n == self.count,
    {
        self.count
    }

    /// Is nothing in flight?
    pub fn is_quiescent(&self) -> (b: bool)
        ensures
            b == (self.count == 0),
    {
        self.count == 0
    }
}

/// Where a task run stands.
#[derive(Clone, Copy, PartialEq, Eq, Structural, Debug)]
pub enum RunStatus {
    /// Commands are still being dispatched.
    Running,
    /// Every command was dispatched and nothing is in flight.
    Succeeded,
    /// A blocking command exited with this non-zero code; nothing after it
    /// runs, and whatever is in flight is abandoned.
    Failed(i32),
}

/// What the caller driving a run must do next.
#[derive(Debug)]
pub enum Action {
    /// Run this command synchronously and report its exit code.
    Execute { command: String },
    /// Launch this command without waiting; it is already registered.
    Launch { command: String },
    /// Wait until every launched command has completed, reporting each
    /// completion, then ask again.
    Quiesce,
    /// The run is over; its status says how.
    Stop,
}

/// Specification-level form of an action.
pub enum ActionModel {
    /// Run this command synchronously.
    Execute(Seq<char>),
    /// Launch this command without waiting.
    Launch(Seq<char>),
    /// Wait until every launched command has completed.
    Quiesce,
    /// The run is over.
    Stop,
}

impl View for Action {
    type V = ActionModel;

    open spec fn view(&self) -> ActionModel {
        match self {
            Action::Execute { command } => ActionModel::Execute(command@),
            Action::Launch { command } => ActionModel::Launch(command@),
            Action::Quiesce => ActionModel::Quiesce,
            Action::Stop => ActionModel::Stop,
        }
    }
}

/// The state machine that sequences a planned task run.  Commands are
/// dispatched in declared order; a fire-and-forget command registers with
/// the coordinator; a wait-then-run command and the end of the plan first
/// quiesce; a non-zero exit code of a synchronous command fails the run,
/// and nothing after it is dispatched.
pub struct Runner {
    /// The planned commands, in declared order.
    pub plan: Vec<PlannedCommand>,
    /// How many plan entries have been dispatched.
    pub pos: usize,
    /// The in-flight counter of this run.
    pub coordinator: Coordinator,
    /// Where the run stands.
    pub status: RunStatus,
}

impl Runner {
    /// Dispatch never outruns the plan, and no more commands are in
    /// flight than were dispatched.
    pub open spec fn wf(self) -> bool {
        self.pos <= self.plan@.len() && self.coordinator.count <= self.pos
    }

    /// The transition the next `advance` call takes: the state after it
    /// and the action it hands out.
    pub open spec fn step_spec(self) -> (Runner, ActionModel) {
        if !(self.status is Running) {
            (self, ActionModel::Stop)
        } else if self.pos < self.plan@.len() {
            let pc = self.plan@[self.pos as int];
            match pc.kind {
                CommandKind::Blocking => (
                    Runner { pos: (self.pos + 1) as usize, ..self },
                    ActionModel::Execute(pc.command@),
                ),
                CommandKind::WaitThenRun => if self.coordinator.count > 0 {
                    (self, ActionModel::Quiesce)
                } else {
                    (
                        Runner { pos: (self.pos + 1) as usize, ..self },
                        ActionModel::Execute(pc.command@),
                    )
                },
                CommandKind::FireAndForget => (
                    Runner {
                        pos: (self.pos + 1) as usize,
                        coordinator: Coordinator { count: (self.coordinator.count + 1) as usize },
                        ..self
                    },
                    ActionModel::Launch(pc.command@),
                ),
            }
        } else if self.coordinator.count > 0 {
            (self, ActionModel::Quiesce)
        } else {
            (Runner { status: RunStatus::Succeeded, ..self }, ActionModel::Stop)
        }
    }

    /// A run at the start of `plan`: nothing dispatched, nothing in
    /// flight.
    pub fn new(plan: Vec<PlannedCommand>) -> (r: Runner)
        ensures
            r.plan == plan,
            r.pos == 0,
            r.coordinator.count == 0,
            r.status is Running,
            r.wf(),
    {
        Runner { plan, pos: 0, coordinator: Coordinator::new(), status: RunStatus::Running }
    }

    /// Takes the next transition and hands out the action to perform.
    pub fn advance(&mut self) -> (a: Action)
        requires
            old(self).wf(),
        ensures
            final(self).wf(),
            *final(self) == old(self).step_spec().0,
            a@ == old(self).step_spec().1,
    {
        match self.status {
            RunStatus::Running => {},
            _ => {
                return Action::Stop;
            },
        }
        if self.pos < self.plan.len() {
            let command = self.plan[self.pos].command.clone();
            match self.plan[self.pos].kind {
                CommandKind::Blocking => {
                    self.pos = self.pos + 1;
                    Action::Execute { command }
                },
                CommandKind::WaitThenRun => {
                    if self.coordinator.pending() > 0 {
                        Action::Quiesce
                    } else {
                        self.pos = self.pos + 1;
                        Action::Execute { command }
                    }
                },
                CommandKind::FireAndForget => {
                    self.pos = self.pos + 1;
                    self.coordinator.register();
                    Action::Launch { command }
                },
            }
        } else if self.coordinator.pending() > 0 {
            Action::Quiesce
        } else {
            self.status = RunStatus::Succeeded;
            Action::Stop
        }
    }

    /// Reports the exit code of a command run synchronously: a non-zero
    /// code fails the run with that code, and nothing more is dispatched.
    pub fn report_exit(&mut self, code: i32)
        requires
            old(self).status is Running,
        ensures
            final(self).plan == old(self).plan,
            final(self).pos == old(self).pos,
            final(self).coordinator == old(self).coordinator,
            final(self).status == (if code != 0 {
                RunStatus::Failed(code)
            } else {
                RunStatus::Running
            }),
            old(self).wf() ==> final(self).wf(),
    {
        if code != 0 {
            self.status = RunStatus::Failed(code);
        }
    }

    /// Reports that one launched command has completed.
    pub fn note_completion(&mut self)
        requires
            old(self).coordinator.count > 0,
        ensures
            final(self).plan == old(self).plan,
            final(self).pos == old(self).pos,
            final(self).status == old(self).status,
            final(self).coordinator.count == old(self).coordinator.count - 1,
            old(self).wf() ==> final(self).wf(),
    {
        self.coordinator.complete();
    }

    /// A running run never reports success while commands are in flight:
    /// the transition to `Succeeded` is taken only with a quiescent
    /// coordinator, so the driving process cannot exit before every
    /// launched command has completed.
    pub proof fn lemma_no_success_before_quiescence(self)
        requires
            self.status is Running,
        ensures
            self.step_spec().0.status is Succeeded ==> self.coordinator.count == 0,
    {
    }

    /// After a failure nothing more is dispatched: every transition of a
    /// failed run hands out `Stop` and changes nothing, so no command
    /// after the failing one ever runs.
    pub proof fn lemma_failure_dispatches_nothing(self, code: i32)
        requires
            self.status == RunStatus::Failed(code),
        ensures
            self.step_spec() == (self, ActionModel::Stop),
    {
    }

    /// The process exit code the run asks for, once it has failed.
    pub fn exit_code(&self) -> (r: Option<i32>)
        ensures
            match self.status {
                RunStatus::Failed(c) => r == Some(c),
                _ => r is None,
            },
    {
        match self.status {
            RunStatus::Failed(c) => Some(c),
            _ => None,
        }
    }
}

} // verus!

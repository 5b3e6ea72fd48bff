//! One named unit of work: declared arguments and an ordered command list.
use vstd::prelude::*;
use crate::argument::Argument;
use crate::command::{
    expand_spec, ExpandOutcome, TaskCommand, MAX_EXPANSION_PASSES,
};
use crate::error::{is_resolve_err, PuffError, ResolveOutcome};
use crate::puff::Puff;
use crate::runner::{PlanStep, PlannedCommand};
use crate::text::str_eq;
use crate::vars::Vars;

verus! {

/// What planning a whole command list yields.
pub enum PlanOutcome {
    /// Every template expanded; the planned commands, in declared order.
    Planned(Seq<PlanStep>),
    /// Resolving `name` failed with `err`; nothing is planned.
    Bad { name: Seq<char>, err: ResolveOutcome },
    /// Some template did not converge; nothing is planned.
    Diverged,
}

/// Planning a command list: every template is expanded, in declared order,
/// and the first failure aborts the whole plan, so that a failing task
/// executes no command at all.
pub open spec fn plan_spec(
    cmds: Seq<TaskCommand>,
    cargs: Option<Vec<String>>,
    arguments: Option<Vec<Argument>>,
    vars: Option<Vars>,
    env: Vars,
) -> PlanOutcome
    decreases cmds.len(),
{
    if cmds.len() == 0 {
        PlanOutcome::Planned(Seq::empty())
    } else {
        match expand_spec(
            cmds[0].template(),
            cargs,
            arguments,
            vars,
            env,
            MAX_EXPANSION_PASSES as nat,
        ) {
            ExpandOutcome::Expanded(t) => match plan_spec(
                cmds.drop_first(),
                cargs,
                arguments,
                vars,
                env,
            ) {
                PlanOutcome::Planned(ps) => PlanOutcome::Planned(
                    seq![PlanStep { kind: cmds[0].kind(), command: t }] + ps,
                ),
                other => other,
            },
            ExpandOutcome::Bad { name, err } => PlanOutcome::Bad { name, err },
            ExpandOutcome::Diverged => PlanOutcome::Diverged,
        }
    }
}

/// Every command of a successful plan is placeholder-free: what a run
/// hands to the shell holds no `${...}`.
pub proof fn lemma_plan_is_placeholder_free(
    cmds: Seq<TaskCommand>,
    cargs: Option<Vec<String>>,
    arguments: Option<Vec<Argument>>,
    vars: Option<Vars>,
    env: Vars,
)
    ensures
        plan_spec(cmds, cargs, arguments, vars, env) matches PlanOutcome::Planned(ps)
            ==> forall|i: int|
            0 <= i < ps.len() ==> !(#[trigger] crate::command::has_placeholder(ps[i].command)),
    decreases cmds.len(),
{
    if cmds.len() > 0 {
        crate::command::lemma_expanded_is_placeholder_free(
            cmds[0].template(),
            cargs,
            arguments,
            vars,
            env,
            MAX_EXPANSION_PASSES as nat,
        );
        lemma_plan_is_placeholder_free(cmds.drop_first(), cargs, arguments, vars, env);
        if let PlanOutcome::Planned(ps) = plan_spec(cmds, cargs, arguments, vars, env) {
            if let PlanOutcome::Planned(rest) = plan_spec(
                cmds.drop_first(),
                cargs,
                arguments,
                vars,
                env,
            ) {
                assert(forall|i: int| 1 <= i < ps.len() ==> ps[i] == rest[i - 1]);
            }
        }
    }
}

/// Does `r` report exactly what planning yields?
pub open spec fn plan_matches(
    r: Result<Vec<PlannedCommand>, PuffError>,
    cmds: Seq<TaskCommand>,
    cargs: Option<Vec<String>>,
    arguments: Option<Vec<Argument>>,
    vars: Option<Vars>,
    env: Vars,
) -> bool {
    match plan_spec(cmds, cargs, arguments, vars, env) {
        PlanOutcome::Planned(ps) => r is Ok && r->Ok_0@.map_values(|p: PlannedCommand| p@) == ps,
        PlanOutcome::Bad { name, err } => r is Err && is_resolve_err(r->Err_0, name, err),
        PlanOutcome::Diverged => r matches Err(PuffError::NoConvergence),
    }
}

/// A named, ordered list of commands with optional declared arguments.
pub struct Task {
    /// Shown by the listing command.
    pub description: Option<String>,
    /// Declared positional parameters; call-time values bind by position.
    pub arguments: Option<Vec<Argument>>,
    /// The commands, in the order they are dispatched.
    pub commands: Vec<TaskCommand>,
}

impl Task {
    /// Is `name` the task name that runs when none is given?
    pub fn is_default(&self, name: &String, puff: &Puff) -> (r: bool)
        ensures
            r == (name@ == puff.default_task_spec()),
    {
        let default = puff.get_default_task();
        str_eq(name.as_str(), default.as_str())
    }

    /// Expands every command of the task, in declared order, into a plan
    /// ready to execute.  The whole plan is computed before any command
    /// runs, so a resolution failure or a non-converging template means no
    /// partial execution: the task fails with nothing started.
    pub fn plan(&self, puff: &Puff, args: &Option<Vec<String>>, env: &Vars) -> (r: Result<
        Vec<PlannedCommand>,
        PuffError,
    >)
        ensures
            plan_matches(r, self.commands@, *args, self.arguments, puff.variables, *env),
    {
        let n = self.commands.len();
        let mut out: Vec<PlannedCommand> = Vec::new();
        let mut i: usize = 0;
        proof {
            assert(self.commands@.skip(0) =~= self.commands@);
            if let PlanOutcome::Planned(ps) = plan_spec(
                self.commands@,
                *args,
                self.arguments,
                puff.variables,
                *env,
            ) {
                assert(out@.map_values(|p: PlannedCommand| p@) + ps =~= ps);
            }
        }
        while i < n
            invariant
                n == self.commands@.len(),
                i <= n,
                match plan_spec(
                    self.commands@.skip(i as int),
                    *args,
                    self.arguments,
                    puff.variables,
                    *env,
                ) {
                    PlanOutcome::Planned(ps) => plan_spec(
                        self.commands@,
                        *args,
                        self.arguments,
                        puff.variables,
                        *env,
                    ) == PlanOutcome::Planned(out@.map_values(|p: PlannedCommand| p@) + ps),
                    other => plan_spec(
                        self.commands@,
                        *args,
                        self.arguments,
                        puff.variables,
                        *env,
                    ) == other,
                },
            decreases n - i,
        {
            let ghost prev = out@;
            let cmd = &self.commands[i];
            let template = cmd.template_string();
            let kind = cmd.command_kind();
            proof {
                assert(self.commands@.skip(i as int)[0] == self.commands@[i as int]);
                assert(self.commands@.skip(i as int).drop_first() =~= self.commands@.skip(i + 1));
            }
            match cmd.format(template, args, self, puff, env) {
                Ok(expanded) => {
                    out.push(PlannedCommand { kind, command: expanded });
                    proof {
                        if let PlanOutcome::Planned(ps) = plan_spec(
                            self.commands@.skip(i + 1),
                            *args,
                            self.arguments,
                            puff.variables,
                            *env,
                        ) {
                            assert(out@.map_values(|p: PlannedCommand| p@) + ps =~= prev.map_values(
                                |p: PlannedCommand| p@,
                            ) + (seq![out@[prev.len() as int]@] + ps));
                        }
                    }
                },
                Err(e) => {
                    return Err(e);
                },
            }
            i = i + 1;
        }
        proof {
            assert(self.commands@.skip(n as int).len() == 0);
            if let PlanOutcome::Planned(ps) = plan_spec(
                self.commands@.skip(n as int),
                *args,
                self.arguments,
                puff.variables,
                *env,
            ) {
                assert(out@.map_values(|p: PlannedCommand| p@) + ps =~= out@.map_values(
                    |p: PlannedCommand| p@,
                ));
            }
        }
        Ok(out)
    }
}

} // verus!

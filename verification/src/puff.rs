//! The whole loaded task file: metadata, configuration, variables, tasks.
use vstd::prelude::*;
use crate::configuration::Configuration;
use crate::data::Data;
use crate::error::{is_resolve_err, PuffError};
use crate::runner::{PlannedCommand, Runner};
use crate::task::{plan_spec, PlanOutcome, Task};
use crate::text::str_eq;
use crate::vars::{assoc_lookup, Vars};

verus! {

/// The named tasks of a task file, in declaration order.  Lookup returns
/// the first task of a name; a file loaded from a mapping holds each name
/// once.
pub struct Tasks {
    pub pairs: Vec<(String, Task)>,
}

impl Tasks {
    /// The first task bound to `name`, if any.
    pub open spec fn lookup(self, name: Seq<char>) -> Option<Task> {
        assoc_lookup(self.pairs@, name)
    }

    /// Looks a task up by name.
    pub fn get(&self, name: &str) -> (r: Option<&Task>)
        ensures
            match r {
                Some(t) => self.lookup(name@) == Some(*t),
                None => self.lookup(name@) is None,
            },
    {
        let n = self.pairs.len();
        let mut i: usize = 0;
        proof {
            assert(self.pairs@.skip(0) =~= self.pairs@);
        }
        while i < n
            invariant
                n == self.pairs@.len(),
                i <= n,
                assoc_lookup(self.pairs@, name@) == assoc_lookup(
                    self.pairs@.skip(i as int),
                    name@,
                ),
            decreases n - i,
        {
            let pair = &self.pairs[i];
            if str_eq(pair.0.as_str(), name) {
                proof {
                    assert(self.pairs@.skip(i as int)[0] == self.pairs@[i as int]);
                }
                return Some(&self.pairs[i].1);
            }
            proof {
                assert(self.pairs@.skip(i as int)[0] == self.pairs@[i as int]);
                assert(self.pairs@.skip(i as int).drop_first() =~= self.pairs@.skip(i + 1));
            }
            i = i + 1;
        }
        proof {
            assert(self.pairs@.skip(n as int).len() == 0);
        }
        None
    }
}

/// A loaded task file.
pub struct Puff {
    /// Project metadata.
    pub data: Option<Data>,
    /// Runtime configuration.
    pub configuration: Option<Configuration>,
    /// Task-file-level named variables.
    pub variables: Option<Vars>,
    /// The tasks, by name.
    pub tasks: Tasks,
}

impl Puff {
    /// The name of the task that runs when none is given: the configured
    /// one, or the conventional name.
    pub open spec fn default_task_spec(self) -> Seq<char> {
        match self.configuration {
            Some(c) => match c.default {
                Some(d) => d.0@,
                None => "default"@,
            },
            None => "default"@,
        }
    }

    /// The default task's name.
    pub fn get_default_task(&self) -> (r: String)
        ensures
            r@ == self.default_task_spec(),
    {
        match &self.configuration {
            Some(c) => match &c.default {
                Some(d) => d.0.clone(),
                None => String::from_str("default"),
            },
            None => String::from_str("default"),
        }
    }

    /// Is each output line of a fire-and-forget command echoed?
    pub open spec fn show_logs_spec(self) -> bool {
        match self.configuration {
            Some(c) => match c.show_thread_logs {
                Some(b) => b,
                None => false,
            },
            None => false,
        }
    }

    /// Whether fire-and-forget output is echoed, line by line.
    pub fn show_thread_logs(&self) -> (b: bool)
        ensures
            b == self.show_logs_spec(),
    {
        match &self.configuration {
            Some(c) => match c.show_thread_logs {
                Some(b) => b,
                None => false,
            },
            None => false,
        }
    }

    /// The task name an invocation targets: the requested one, or the
    /// default task's name when none is requested.
    pub open spec fn requested_name(self, task: Option<String>) -> Seq<char> {
        match task {
            Some(t) => t@,
            None => self.default_task_spec(),
        }
    }

    /// Starts a task run: picks the requested task (or the default one),
    /// expands its whole command list into a plan, and returns the state
    /// machine that sequences it.  Fails, before anything executes, when
    /// the task does not exist, when a placeholder cannot be resolved, or
    /// when a template does not converge.
    pub fn run(&self, task: Option<String>, args: Option<Vec<String>>, env: &Vars) -> (r: Result<
        Runner,
        PuffError,
    >)
        ensures
            match self.tasks.lookup(self.requested_name(task)) {
                None => r matches Err(PuffError::TaskNotFound),
                Some(t) => match plan_spec(t.commands@, args, t.arguments, self.variables, *env) {
                    PlanOutcome::Planned(ps) => r is Ok && r->Ok_0.plan@.map_values(
                        |p: PlannedCommand| p@,
                    ) == ps && r->Ok_0.pos == 0 && r->Ok_0.coordinator.count == 0
                        && r->Ok_0.status is Running,
                    PlanOutcome::Bad { name, err } => r is Err && is_resolve_err(
                        r->Err_0,
                        name,
                        err,
                    ),
                    PlanOutcome::Diverged => r matches Err(PuffError::NoConvergence),
                },
            },
    {
        let name = match task {
            Some(t) => t,
            None => self.get_default_task(),
        };
        match self.tasks.get(name.as_str()) {
            Some(t) => match t.plan(self, &args, env) {
                Ok(plan) => Ok(Runner::new(plan)),
                Err(e) => Err(e),
            },
            None => Err(PuffError::TaskNotFound),
        }
    }
}

} // verus!

//! Optional runtime configuration of a task file: a shell override, the
//! name of the default task, and whether fire-and-forget output is echoed.
use vstd::prelude::*;
use crate::shell::Shell;

verus! {

/// Name of the task that runs when none is given.
pub struct DefaultTask(pub String);

impl Default for DefaultTask {
    /// The conventional default task name.
    fn default() -> (r: Self)
        ensures
            r.0@ == "default"@,
    {
        DefaultTask(String::from_str("default"))
    }
}

/// Runtime configuration of a task file.
pub struct Configuration {
    /// Overrides the shell commands run against.
    pub shell: Option<Shell>,
    /// Names the task that runs when none is given.
    pub default: Option<DefaultTask>,
    /// Echo each output line of fire-and-forget commands?
    pub show_thread_logs: Option<bool>,
}

impl Default for Configuration {
    /// A configuration that sets nothing.
    fn default() -> (r: Self)
        ensures
            r.shell is None,
            r.default is None,
            r.show_thread_logs is None,
    {
        Configuration { shell: None, default: None, show_thread_logs: None }
    }
}

} // verus!

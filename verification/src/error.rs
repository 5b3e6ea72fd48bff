//! Errors that a task run can report before any command executes, together
//! with the specification-level outcome of one variable resolution.
use vstd::prelude::*;
use crate::text::{dec_str, push_dec};

verus! {

/// What resolving one placeholder name yields, at the specification level:
/// a value, or one of the three ways resolution can fail.
pub enum ResolveOutcome {
    /// The name resolved to this value.
    Found { value: Seq<char> },
    /// The name is a declared argument at this position, but the chosen
    /// value is outside the argument's permitted-value set.
    Invalid { index: int },
    /// The name is a declared argument at this position, but no call-time
    /// value and no default exists.
    Missing { index: int },
    /// The name is no argument, no task-file variable and no environment
    /// variable.
    Unknown,
}

/// An error that aborts a task run.  Every variant is reported before any
/// command of the task executes.
#[derive(Debug)]
pub enum PuffError {
    /// A call-time value for the argument at `index` is outside its
    /// permitted-value set.
    InvalidValue { index: usize, name: String },
    /// The argument at `index` has neither a call-time value nor a default.
    MustProvide { index: usize, name: String },
    /// A placeholder name matches no argument, variable or environment entry.
    VarNotFound { name: String },
    /// Template expansion still found placeholders after the maximum number
    /// of passes; the template references itself, directly or indirectly.
    NoConvergence,
    /// No task of the requested name exists in the task file.
    TaskNotFound,
}

/// Does `e` report exactly the failed resolution `err` of placeholder `name`?
pub open spec fn is_resolve_err(e: PuffError, name: Seq<char>, err: ResolveOutcome) -> bool {
    match err {
        ResolveOutcome::Found { .. } => false,
        ResolveOutcome::Invalid { index } => e matches PuffError::InvalidValue {
            index: i,
            name: n,
        } && i as int == index && n@ == name,
        ResolveOutcome::Missing { index } => e matches PuffError::MustProvide {
            index: i,
            name: n,
        } && i as int == index && n@ == name,
        ResolveOutcome::Unknown => e matches PuffError::VarNotFound { name: n } && n@ == name,
    }
}

impl PuffError {
    /// The single human-readable line that describes this error.
    pub open spec fn message_spec(self) -> Seq<char> {
        match self {
            PuffError::InvalidValue { index, name } => "argument #"@ + dec_str(
                index as nat,
            ) + " ("@ + name@ + ") has an invalid value!"@,
            PuffError::MustProvide { index, name } => "argument #"@ + dec_str(
                index as nat,
            ) + " ("@ + name@ + ") must be provided!"@,
            PuffError::VarNotFound { name } => "argument "@ + name@ + " not found!"@,
            PuffError::NoConvergence => "template expansion did not converge"@,
            PuffError::TaskNotFound => "task not found"@,
        }
    }

    /// Renders the error as one line of text.
    pub fn message(&self) -> (r: String)
        ensures
            r@ == self.message_spec(),
    {
        let mut out = String::new();
        match self {
            PuffError::InvalidValue { index, name } => {
                out.append("argument #");
                push_dec(&mut out, *index);
                out.append(" (");
                out.append(name.as_str());
                out.append(") has an invalid value!");
            },
            PuffError::MustProvide { index, name } => {
                out.append("argument #");
                push_dec(&mut out, *index);
                out.append(" (");
                out.append(name.as_str());
                out.append(") must be provided!");
            },
            PuffError::VarNotFound { name } => {
                out.append("argument ");
                out.append(name.as_str());
                out.append(" not found!");
            },
            PuffError::NoConvergence => {
                out.append("template expansion did not converge");
            },
            PuffError::TaskNotFound => {
                out.append("task not found");
            },
        }
        proof {
            assert(out@ =~= self.message_spec());
        }
        out
    }
}

} // verus!

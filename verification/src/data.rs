//! Project metadata carried by a task file, shown by the listing command.
use vstd::prelude::*;

verus! {

/// Project metadata of a task file.
pub struct Data {
    /// Authors of the project.
    pub authors: Option<Vec<String>>,
    /// Name of the project.
    pub project_name: String,
    /// One-line description of the project.
    pub description: Option<String>,
}

impl Default for Data {
    /// Metadata that names nothing.
    fn default() -> (r: Self)
        ensures
            r.authors is None,
            r.project_name@ == Seq::<char>::empty(),
            r.description is None,
    {
        Data { authors: None, project_name: String::new(), description: None }
    }
}

} // verus!

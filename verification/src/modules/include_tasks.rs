//! The inclusion of a file of tasks.

use crate::common::{Task, TaskModel};
use vstd::prelude::*;

verus! {

/// Why a file of tasks could not be included.
#[derive(Debug, Clone, PartialEq, Eq)]
pub struct IncludeResolutionError {
    /// The file, as the task names it.
    pub file: String,
    /// What went wrong in reading it.
    pub message: String,
}

/// The models of a sequence of tasks.
pub open spec fn task_views(tasks: Seq<Task>) -> Seq<TaskModel> {
    Seq::new(tasks.len(), |i: int| tasks[i]@)
}

/// The model of what reading a file of tasks hands back.
pub open spec fn loaded_view(r: Result<Vec<Task>, String>) -> Result<Seq<TaskModel>, Seq<char>> {
    match r {
        Ok(tasks) => Ok(task_views(tasks@)),
        Err(message) => Err(message@),
    }
}

/// The model of an inclusion's result.
pub open spec fn included_view(r: Result<Vec<Task>, IncludeResolutionError>) -> Result<
    Seq<TaskModel>,
    (Seq<char>, Seq<char>),
> {
    match r {
        Ok(tasks) => Ok(task_views(tasks@)),
        Err(e) => Err((e.file@, e.message@)),
    }
}

/// The tasks that the file `include_file` adds, given what reading the file has handed
/// back: its tasks in their order, or a failure that names the file.
pub fn process(include_file: &str, loaded: Result<Vec<Task>, String>) -> (r: Result<
    Vec<Task>,
    IncludeResolutionError,
>)
    ensures
        included_view(r) == match loaded_view(loaded) {
            Ok(tasks) => Ok(tasks),
            Err(message) => Err((include_file@, message)),
        },
{
    match loaded {
        Ok(tasks) => Ok(tasks),
        Err(message) => Err(IncludeResolutionError { file: include_file.to_owned(), message }),
    }
}

} // verus!

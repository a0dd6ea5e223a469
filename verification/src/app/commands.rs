use vstd::prelude::*;

verus! {

/// The command line: one subcommand.
pub struct Cli {
    pub command: Commands,
}

/// What can be asked of the task manager.
#[derive(Clone, Debug, PartialEq)]
pub enum Commands {
    /// Create a new task with description
    Create { description: Option<String> },
    /// Remove a task by ID
    Remove { id: u32 },
    /// Update an existing task
    Update { id: u32, description: Option<String>, status: Option<String> },
    /// List all tasks
    List { all: bool, status: Option<String> },
    /// Clear all tasks or mark them as done
    Clear { yes: bool, done: bool },
}

} // verus!

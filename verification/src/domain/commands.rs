use vstd::prelude::*;

verus! {

/// The command line: one subcommand.
pub struct Cli {
    pub command: Commands,
}

/// The first set of subcommands: every argument is required.
#[derive(Clone, Debug, PartialEq)]
pub enum Commands {
    /// Create a new task with description
    Create { description: String },
    /// Remove a task by ID
    Remove { id: u32 },
    /// Update an existing task's description
    Update { id: u32, description: String },
    /// List all tasks
    List,
}

} // verus!

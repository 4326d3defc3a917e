use vstd::prelude::*;

verus! {

/// The parsed command line.
#[derive(Debug)]
pub struct Cli {
    /// Emit machine-readable JSON.
    pub json: bool,
    pub command: Command,
}

/// The subcommands.
#[derive(Debug)]
pub enum Command {
    /// List available Things lists.
    Lists,
    /// List Things to-dos.
    List(ListArgs),
    /// Fetch a to-do by id or exact name.
    Get(SelectorArgs),
    /// Create a new to-do.
    Create(CreateArgs),
    /// Update a to-do by id or exact name.
    Update(UpdateArgs),
    /// Mark a to-do as completed.
    Complete(SelectorArgs),
    /// Move a to-do to another Things list.
    Move(MoveArgs),
    /// Schedule a to-do for a date or time.
    Schedule(ScheduleArgs),
    /// Delete a to-do by id or exact name.
    Delete(SelectorArgs),
    /// Reveal a to-do in Things.
    Open(SelectorArgs),
}

#[derive(Debug)]
pub struct SelectorArgs {
    pub selector: String,
}

#[derive(Debug)]
pub struct ListArgs {
    /// Case-insensitive substring match across key fields.
    pub query: Option<String>,
    pub status: Option<String>,
    pub tags: Vec<String>,
    pub list_name: Option<String>,
    pub limit: Option<usize>,
}

#[derive(Debug)]
pub struct CreateArgs {
    pub name: String,
    pub notes: Option<String>,
    pub notes_file: Option<String>,
    /// The list to create the to-do in (`Inbox` when not given).
    pub list_name: String,
    pub tags: Vec<String>,
}

#[derive(Debug)]
pub struct UpdateArgs {
    pub selector: String,
    pub name: Option<String>,
    pub notes: Option<String>,
    pub notes_file: Option<String>,
    pub clear_notes: bool,
    pub status: Option<String>,
    pub tags: Vec<String>,
    pub clear_tags: bool,
}

#[derive(Debug)]
pub struct MoveArgs {
    pub selector: String,
    pub list_name: String,
}

#[derive(Debug)]
pub struct ScheduleArgs {
    pub selector: String,
    /// Accepts today, tomorrow, YYYY-MM-DD, or RFC3339.
    pub when: String,
}

} // verus!

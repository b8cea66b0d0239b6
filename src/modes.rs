use vstd::prelude::*;

verus! {

/// What the bar at the bottom of the screen is showing.
#[derive(Clone, Copy, Debug, PartialEq, Eq, Structural)]
pub enum BottomBarMode {
    Tips,
    Command,
    Input,
    Status,
}

/// What a line typed in input mode is for.
#[derive(Clone, Copy, Debug, PartialEq, Eq, Structural)]
pub enum InputContext {
    AddPackage,
    RemovePackage,
    CommitMessage,
}

/// The button chosen in the dialog about conflicting keys.
#[derive(Clone, Copy, Debug, PartialEq, Eq, Structural)]
pub enum HelpConflictDialogSelection {
    Unbind,
    Inspect,
}

/// How a script run in the shell came to an end.
#[derive(Clone, Copy, Debug, PartialEq, Eq, Structural)]
pub enum ScriptEndStatus {
    Finished,
    Cancelled,
}

impl InputContext {
    pub open spec fn spec_script(self) -> (&'static str, &'static str) {
        match self {
            InputContext::AddPackage => ("add", "Adding dependencies"),
            InputContext::RemovePackage => ("remove", "Removing dependencies"),
            InputContext::CommitMessage => ("commit", "Committing"),
        }
    }

    /// The script that the typed line completes, and the status shown
    /// while it runs.
    pub fn script(&self) -> (r: (&'static str, &'static str))
        ensures
            r == self.spec_script(),
    {
        match self {
            InputContext::AddPackage => ("add", "Adding dependencies"),
            InputContext::RemovePackage => ("remove", "Removing dependencies"),
            InputContext::CommitMessage => ("commit", "Committing"),
        }
    }
}

/// The project subcommands of the command line.
#[derive(Clone, Copy, Debug, PartialEq, Eq, Structural)]
pub enum ProjectCommands {
    /// Increment patch version (e.g., 1.0.0 -> 1.0.1)
    Update,
    /// Increment minor version (e.g., 1.0.1 -> 1.1.0)
    Bump,
}

/// The LLM subcommands of the command line.
#[derive(Clone, Copy, Debug, PartialEq, Eq, Structural)]
pub enum LlmCommands {
    /// Set the Gemini API token
    Token,
    /// Generate commit messages based on git diff
    Commit,
    /// Generate and apply AI commits, then bump version
    Git,
    /// Run the AI commit process and push to remote
    Push,
}

} // verus!

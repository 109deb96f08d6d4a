//! The command line of `almk`: one subcommand per invocation.
use vstd::prelude::*;

verus! {

/// The subcommands of `almk`.
pub enum Commands {
    /// Create a new project `name` in `language` (C by default).
    New { name: String, language: String },
    /// Build the project, then run it.
    Run,
    /// Build the project.
    Build,
    /// Remove the build outputs and the fetched dependencies.
    Clean,
    /// Add a dependency to the manifest.
    Add { name: String, url: Option<String>, local: Option<String>, git: bool, tag: Option<String> },
    /// Remove a dependency from the manifest (`almk rm`).
    Remove { name: String },
    /// Fetch the dependencies.
    Sync,
}

/// The parsed command line.
pub struct Arg {
    pub cmd: Commands,
}

} // verus!

//! The invocation model: which command was asked for and which file it
//! names. Argument parsing itself happens outside the library and hands
//! these plain values in.

use vstd::prelude::*;

verus! {

/// A parsed invocation.
#[derive(Debug, Clone, PartialEq)]
pub struct Cli {
    /// The subcommand, if one was given
    pub command: Option<Commands>,
    /// Path to the runbook file, when given without a subcommand
    pub file: Option<String>,
}

/// The subcommands an invocation can carry.
#[derive(Debug, Clone, PartialEq)]
pub enum Commands {
    /// Execute a runbook file interactively (default)
    Run { file: String },
    /// Display all steps without executing (dry-run)
    DryRun { file: String },
    /// View the file as formatted documentation
    View { file: String },
}

/// The file an invocation names: the subcommand's, or the bare argument.
pub open spec fn target_file_spec(cli: Cli) -> Option<Seq<char>> {
    match cli.command {
        Some(Commands::Run { file }) => Some(file@),
        Some(Commands::DryRun { file }) => Some(file@),
        Some(Commands::View { file }) => Some(file@),
        None => match cli.file {
            Some(f) => Some(f@),
            None => None,
        },
    }
}

impl Cli {
    /// The file to process: the subcommand's file when a subcommand was
    /// given, else the bare file argument, else nothing.
    pub fn target_file(&self) -> (r: Option<&String>)
        ensures
            r is Some <==> target_file_spec(*self) is Some,
            r is Some ==> r->0@ == target_file_spec(*self)->0,
    {
        match &self.command {
            Some(Commands::Run { file }) => Some(file),
            Some(Commands::DryRun { file }) => Some(file),
            Some(Commands::View { file }) => Some(file),
            None => match &self.file {
                Some(f) => Some(f),
                None => None,
            },
        }
    }
}

}

//! The commands that the program accepts.

use vstd::prelude::*;

verus! {

/// A command line: one command.
#[derive(Debug, Clone)]
pub struct Cli {
    pub command: Args,
}

/// The commands and their flags.
#[derive(Debug, Clone)]
pub enum Args {
    /// Install the dotfiles from the configured source directory.
    Install { dry_run: bool, force: bool, backup: bool, verbose: bool },
    /// Remove installed dotfiles, putting back their latest backups.
    Uninstall { dry_run: bool, force: bool, verbose: bool },
    /// Write the configuration with the given source directory.
    Init { source_dir: String },
    /// Restore one file (a given version, or the latest) or all files.
    Restore { file: Option<String>, version: Option<String>, dry_run: bool, keep_backups: bool },
    /// List the backups, of one file or all.
    List { file: Option<String> },
    /// Remove the whole backup store.
    ClearBackups { force: bool },
    /// Show how the dotfiles stand in the home directory.
    Status { verbose: bool },
}

impl Args {
    /// The command changes nothing on disk: it only reads, or is a dry run.
    pub open spec fn read_only_spec(&self) -> bool {
        match self {
            Args::Install { dry_run, .. } => *dry_run,
            Args::Uninstall { dry_run, .. } => *dry_run,
            Args::Restore { dry_run, .. } => *dry_run,
            Args::List { .. } => true,
            Args::Status { .. } => true,
            Args::Init { .. } => false,
            Args::ClearBackups { .. } => false,
        }
    }

    /// Whether the command changes nothing on disk.
    pub fn is_read_only(&self) -> (r: bool)
        ensures
            r == self.read_only_spec(),
    {
        match self {
            Args::Install { dry_run, .. } => *dry_run,
            Args::Uninstall { dry_run, .. } => *dry_run,
            Args::Restore { dry_run, .. } => *dry_run,
            Args::List { .. } => true,
            Args::Status { .. } => true,
            Args::Init { .. } => false,
            Args::ClearBackups { .. } => false,
        }
    }
}

} // verus!

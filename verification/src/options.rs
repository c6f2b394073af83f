use vstd::prelude::*;

verus! {

/// Everything one invocation was asked to do.
#[derive(Debug)]
pub struct Options {
    pub command: Command,
}

/// Options shared by every command that works under a base directory.
#[derive(Debug)]
pub struct BaseOptions {
    /// The base directory that all of the repositories are inside.
    pub base_dir: String,
}

/// The command to run.
#[derive(Debug)]
pub enum Command {
    /// Clone a new project into a folder based on the remote URL.
    Clone(CloneOptions),
    /// List all repositories under the base path.
    List(ListOptions),
    /// Check all repositories under the base path against their remotes.
    Check(CheckOptions),
    /// Organize existing checkouts into a normalized layout.
    Organize(OrganizeOptions),
}

/// Options of the clone command.
#[derive(Debug)]
pub struct CloneOptions {
    pub base: BaseOptions,
    /// Print the clone location for the given URL and exit.
    pub only_print_location: bool,
    /// The URL of the project to be cloned: a web URL or an ssh path.
    pub clone_url: String,
}

/// Options of the list command.
#[derive(Debug)]
pub struct ListOptions {
    pub base: BaseOptions,
    pub list: BaseListOptions,
}

/// Options shared by the commands that discover repositories.
#[derive(Debug)]
pub struct BaseListOptions {
    /// Do not stop recursing when a repository root is found.
    pub deep_recurse: bool,
}

/// Options of the check command.
#[derive(Debug)]
pub struct CheckOptions {
    pub list: BaseListOptions,
    pub base: BaseOptions,
    /// Print a summary of the repositories at the end.
    pub summarize: bool,
}

/// Options of the organize command.
#[derive(Debug)]
pub struct OrganizeOptions {
    /// The directory to organize.
    pub dir: String,
    /// The directory to place organized repositories in.
    pub new_dir: String,
    /// Print what would move without moving anything.
    pub dry_run: bool,
}

} // verus!

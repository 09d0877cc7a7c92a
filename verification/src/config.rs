//! The workspace configuration (`.branchyard.yml`) and path resolution against the
//! workspace root.
use vstd::prelude::*;

use crate::text::{join, join_path};

verus! {

/// Name of the configuration file looked up from the current directory upwards.
pub const CONFIG_FILE: &'static str = ".branchyard.yml";

/// The whole workspace configuration.
#[derive(Debug)]
pub struct WtreeConfig {
    pub base_branch: String,
    /// Where worktrees are created, absolute or relative to the workspace root.
    pub worktrees_dir: String,
    pub repos: Vec<RepoConfig>,
    pub ports: PortConfig,
    pub services: Vec<ServiceConfig>,
    pub terminal: TerminalConfig,
    pub hooks: HooksConfig,
}

/// The worktrees directory used when the configuration names none.
pub fn default_worktrees_dir() -> (r: String)
    ensures
        r@ == "./worktrees"@,
{
    String::from_str("./worktrees")
}

/// One repository of the workspace.
#[derive(Debug)]
pub struct RepoConfig {
    pub name: String,
    pub path: String,
    pub commands: RepoCommands,
    pub setup: SetupConfig,
}

/// Shell commands the CLI delegates to for each lifecycle event.
///
/// Supported placeholders (interpolated at runtime):
///   {slug}           — worktree name
///   {port}           — this repo's assigned host port
///   {<name>_port}    — port of any repo or service by name
///                      e.g. {backend_port}, {postgres_port}, {redis_port}
#[derive(Debug)]
pub struct RepoCommands {
    /// Start the dev server. Runs detached from within the worktree directory.
    pub serve: Option<String>,
    /// Stop the dev server. If absent, the user stops it manually in the terminal.
    pub stop: Option<String>,
    /// One-time setup on `branchyard new` (migrations, installs, restores, etc.).
    pub setup: Option<String>,
}

impl Default for RepoCommands {
    fn default() -> (r: Self)
        ensures
            r.serve is None,
            r.stop is None,
            r.setup is None,
    {
        RepoCommands { serve: None, stop: None, setup: None }
    }
}

/// One-time setup steps for a repository's worktree.
#[derive(Debug)]
pub struct SetupConfig {
    /// Symlinks to create inside the worktree on `branchyard new`.
    pub symlinks: Vec<SymlinkConfig>,
}

impl Default for SetupConfig {
    fn default() -> (r: Self)
        ensures
            r.symlinks@.len() == 0,
    {
        SetupConfig { symlinks: Vec::new() }
    }
}

/// A symlink: `from` is relative to the workspace root, `to` relative to the
/// repo's worktree directory.
#[derive(Debug)]
pub struct SymlinkConfig {
    pub from: String,
    pub to: String,
}

/// All ports for a worktree slot are derived from this base:
/// slot 0 → base+0 .. base+N, slot 1 → base+10 .. base+10+N.
#[derive(Debug)]
pub struct PortConfig {
    pub base: u16,
}

/// A Docker service managed through a standalone compose file. The container
/// port is fixed; the host port is assigned per slot.
#[derive(Debug)]
pub struct ServiceConfig {
    pub name: String,
    pub image: String,
    /// Fixed container-side port; 0 for services that expose none.
    pub port: u16,
    pub environment: Vec<String>,
    /// Shell command run inside the container (overrides the image default).
    pub command: Option<String>,
    /// Services this service depends on (by name).
    pub depends_on: Vec<String>,
    /// Volumes to mount: "host_path:container_path" or a named volume.
    pub volumes: Vec<String>,
    /// Path to an env file.
    pub env_file: Option<String>,
    /// Platform override (e.g. "linux/amd64").
    pub platform: Option<String>,
    /// Build context, relative to the workspace root; built locally instead of pulled.
    pub build: Option<String>,
}

/// Terminal integration settings.
#[derive(Debug)]
pub struct TerminalConfig {
    pub multiplexer: Multiplexer,
    /// Open the terminal session from `branchyard serve` as well.
    pub autostart: bool,
}

impl Default for TerminalConfig {
    fn default() -> (r: Self)
        ensures
            r.multiplexer == Multiplexer::Disabled,
            !r.autostart,
    {
        TerminalConfig { multiplexer: Multiplexer::Disabled, autostart: false }
    }
}

/// The terminal multiplexer to integrate with.
#[derive(Debug, Clone, Copy, PartialEq, Eq, Structural)]
pub enum Multiplexer {
    /// No terminal integration.
    Disabled,
    /// Warp: a Launch Configuration YAML.
    Warp,
    /// iTerm2: a Dynamic Profile JSON.
    Iterm2,
    /// Tmux: a named session with one window per repo.
    Tmux,
    /// Ghostty: accepted, but has no integration in this build.
    Ghostty,
}

impl Default for Multiplexer {
    fn default() -> (r: Self)
        ensures
            r == Multiplexer::Disabled,
    {
        Multiplexer::Disabled
    }
}

/// Shell commands run after `new` and after `done`.
#[derive(Debug)]
pub struct HooksConfig {
    pub after_new: Vec<String>,
    pub after_done: Vec<String>,
}

impl Default for HooksConfig {
    fn default() -> (r: Self)
        ensures
            r.after_new@.len() == 0,
            r.after_done@.len() == 0,
    {
        HooksConfig { after_new: Vec::new(), after_done: Vec::new() }
    }
}

impl WtreeConfig {
    /// Absolute path to the worktrees directory, resolved from the workspace root.
    pub fn worktrees_path(&self, workspace_root: &str) -> (r: String)
        ensures
            r@ == join_path(workspace_root@, self.worktrees_dir@),
    {
        join(workspace_root, self.worktrees_dir.as_str())
    }

    /// Absolute path to a repo, resolved from the workspace root.
    pub fn repo_path(&self, repo_path: &str, workspace_root: &str) -> (r: String)
        ensures
            r@ == join_path(workspace_root@, repo_path@),
    {
        join(workspace_root, repo_path)
    }
}

} // verus!

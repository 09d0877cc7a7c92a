//! Terminal integration layer.
//!
//! branchyard can open a pre-configured terminal session on `branchyard new`
//! and clean it up on `branchyard done`. The library decides what is to be
//! done (which file to write with which content, which tmux commands to run);
//! the caller carries it out.
use vstd::prelude::*;

use crate::config::{Multiplexer, RepoConfig, WtreeConfig};
use crate::ports::{interp, repo_vars, with_repo_port, interpolate, PortAssignment, VarMap};
use crate::text::{join_path, opt_view};

pub mod iterm2;
pub mod tmux;
pub mod warp;

pub use iterm2::Iterm2;
pub use tmux::Tmux;
pub use warp::Warp;

verus! {

/// What a terminal integration asks the caller to do.
#[derive(Debug)]
pub enum TerminalPlan {
    /// Create the parent directory of `path`, write `content` to `path`, then
    /// launch the application `app` (`open -a <app>`, failures ignored).
    WriteConfig { path: String, content: String, app: String },
    /// Delete the file at `path` if it exists.
    RemoveFile { path: String },
    /// Run `tmux` with each argument list in turn. When `first_required`
    /// holds, failing to start the first command is an error; every other
    /// failure is ignored.
    RunTmux { commands: Vec<Vec<String>>, first_required: bool },
    /// The configured terminal has no integration in this build.
    Unsupported { name: String },
}

/// The contract every terminal integration fulfils.
pub trait TerminalIntegration {
    /// What to do to open a terminal session for the given worktree.
    fn open(
        &self,
        slug: &str,
        config: &WtreeConfig,
        worktree_base: &str,
        ports: &PortAssignment,
        vars: &VarMap,
    ) -> TerminalPlan;

    /// What to do to remove whatever `open` created.
    fn remove(&self, slug: &str) -> TerminalPlan;
}

/// The directory of repo `name` inside the worktree `slug`.
pub open spec fn repo_dir(worktree_base: Seq<char>, slug: Seq<char>, name: Seq<char>) -> Seq<char> {
    join_path(join_path(worktree_base, slug), name)
}

/// The serve command of repo `i`, interpolated with that repo's variables.
pub open spec fn serve_command(
    repo: RepoConfig,
    vars: Seq<(Seq<char>, Seq<char>)>,
    ports: Seq<u16>,
    i: int,
) -> Option<Seq<char>> {
    match repo.commands.serve {
        Some(c) => Some(interp(c@, repo_vars(vars, ports, i))),
        None => None,
    }
}

/// Computes `serve_command`.
pub fn repo_serve_command(repo: &RepoConfig, vars: &VarMap, ports: &PortAssignment, i: usize) -> (r:
    Option<String>)
    ensures
        match serve_command(*repo, vars@, ports.repo_ports@, i as int) {
            Some(c) => r is Some && r->0@ == c,
            None => r is None,
        },
{
    match &repo.commands.serve {
        Some(serve_cmd) => {
            let repo_vars = with_repo_port(vars, ports, i);
            Some(interpolate(serve_cmd.as_str(), &repo_vars))
        },
        None => None,
    }
}

/// The user's directories that integrations write under. The caller reads
/// them from the environment.
#[derive(Debug)]
pub struct UserDirs {
    /// The home directory.
    pub home: Option<String>,
    /// The documents directory.
    pub documents: Option<String>,
}

fn clone_opt(o: &Option<String>) -> (r: Option<String>)
    ensures
        opt_view(r) == opt_view(*o),
{
    match o {
        Some(s) => Some(s.clone()),
        None => None,
    }
}

/// The integrations that exist.
#[derive(Debug, Clone, Copy, PartialEq, Eq, Structural)]
pub enum Integration {
    Warp,
    Iterm2,
    Tmux,
    Ghostty,
}

/// The integration of each multiplexer; none for `Disabled`.
pub open spec fn integration_of(m: Multiplexer) -> Option<Integration> {
    match m {
        Multiplexer::Disabled => None,
        Multiplexer::Warp => Some(Integration::Warp),
        Multiplexer::Iterm2 => Some(Integration::Iterm2),
        Multiplexer::Tmux => Some(Integration::Tmux),
        Multiplexer::Ghostty => Some(Integration::Ghostty),
    }
}

/// Resolve the configured multiplexer to its integration.
pub fn resolve(multiplexer: &Multiplexer) -> (r: Option<Integration>)
    ensures
        r == integration_of(*multiplexer),
{
    match multiplexer {
        Multiplexer::Disabled => None,
        Multiplexer::Warp => Some(Integration::Warp),
        Multiplexer::Iterm2 => Some(Integration::Iterm2),
        Multiplexer::Tmux => Some(Integration::Tmux),
        Multiplexer::Ghostty => Some(Integration::Ghostty),
    }
}

/// The plan each integration gives for opening a session; the configured
/// terminal is named as unsupported when it has no integration here.
pub open spec fn is_open_plan(
    integration: Integration,
    plan: TerminalPlan,
    dirs: UserDirs,
    slug: Seq<char>,
    config: WtreeConfig,
    worktree_base: Seq<char>,
    ports: PortAssignment,
    vars: Seq<(Seq<char>, Seq<char>)>,
) -> bool {
    match integration {
        Integration::Warp => warp::is_open_plan(
            plan,
            opt_view(dirs.documents),
            slug,
            config,
            worktree_base,
            ports,
            vars,
        ),
        Integration::Iterm2 => iterm2::is_open_plan(
            plan,
            opt_view(dirs.home),
            slug,
            config,
            worktree_base,
            ports,
            vars,
        ),
        Integration::Tmux => tmux::is_open_plan(plan, slug, config, worktree_base, ports, vars),
        Integration::Ghostty => plan matches TerminalPlan::Unsupported { name } && name@ == "ghostty"@,
    }
}

/// The plan each integration gives for removing what it opened.
pub open spec fn is_remove_plan(
    integration: Integration,
    plan: TerminalPlan,
    dirs: UserDirs,
    slug: Seq<char>,
) -> bool {
    match integration {
        Integration::Warp => warp::is_remove_plan(plan, opt_view(dirs.documents), slug),
        Integration::Iterm2 => iterm2::is_remove_plan(plan, opt_view(dirs.home), slug),
        Integration::Tmux => tmux::is_remove_plan(plan, slug),
        Integration::Ghostty => plan matches TerminalPlan::Unsupported { name } && name@ == "ghostty"@,
    }
}

/// The plan of `integration` for opening a session.
pub fn open_with(
    integration: Integration,
    dirs: &UserDirs,
    slug: &str,
    config: &WtreeConfig,
    worktree_base: &str,
    ports: &PortAssignment,
    vars: &VarMap,
) -> (r: TerminalPlan)
    ensures
        is_open_plan(integration, r, *dirs, slug@, *config, worktree_base@, *ports, vars@),
{
    match integration {
        Integration::Warp => {
            let w = Warp { documents: clone_opt(&dirs.documents) };
            w.open(slug, config, worktree_base, ports, vars)
        },
        Integration::Iterm2 => {
            let t = Iterm2 { home: clone_opt(&dirs.home) };
            t.open(slug, config, worktree_base, ports, vars)
        },
        Integration::Tmux => Tmux.open(slug, config, worktree_base, ports, vars),
        Integration::Ghostty => TerminalPlan::Unsupported { name: String::from_str("ghostty") },
    }
}

/// The plan of `integration` for removing what it opened.
pub fn remove_with(integration: Integration, dirs: &UserDirs, slug: &str) -> (r: TerminalPlan)
    ensures
        is_remove_plan(integration, r, *dirs, slug@),
{
    match integration {
        Integration::Warp => {
            let w = Warp { documents: clone_opt(&dirs.documents) };
            w.remove(slug)
        },
        Integration::Iterm2 => {
            let t = Iterm2 { home: clone_opt(&dirs.home) };
            t.remove(slug)
        },
        Integration::Tmux => Tmux.remove(slug),
        Integration::Ghostty => TerminalPlan::Unsupported { name: String::from_str("ghostty") },
    }
}

/// What to do to open a terminal session: nothing when no multiplexer is
/// configured, otherwise the plan of the configured integration.
pub fn open(
    slug: &str,
    config: &WtreeConfig,
    worktree_base: &str,
    ports: &PortAssignment,
    vars: &VarMap,
    dirs: &UserDirs,
) -> (r: Option<TerminalPlan>)
    ensures
        match integration_of(config.terminal.multiplexer) {
            Some(i) => r matches Some(p) && is_open_plan(
                i,
                p,
                *dirs,
                slug@,
                *config,
                worktree_base@,
                *ports,
                vars@,
            ),
            None => r is None,
        },
{
    match resolve(&config.terminal.multiplexer) {
        Some(integration) => Some(
            open_with(integration, dirs, slug, config, worktree_base, ports, vars),
        ),
        None => None,
    }
}

/// Open a terminal session only when autostart is enabled.
pub fn open_if_autostart(
    slug: &str,
    config: &WtreeConfig,
    worktree_base: &str,
    ports: &PortAssignment,
    vars: &VarMap,
    dirs: &UserDirs,
) -> (r: Option<TerminalPlan>)
    ensures
        match integration_of(config.terminal.multiplexer) {
            Some(i) if config.terminal.autostart => r matches Some(p) && is_open_plan(
                i,
                p,
                *dirs,
                slug@,
                *config,
                worktree_base@,
                *ports,
                vars@,
            ),
            _ => r is None,
        },
{
    if config.terminal.autostart {
        open(slug, config, worktree_base, ports, vars, dirs)
    } else {
        None
    }
}

/// What to do to remove the terminal configuration: nothing when no
/// multiplexer is configured.
pub fn remove(slug: &str, config: &WtreeConfig, dirs: &UserDirs) -> (r: Option<TerminalPlan>)
    ensures
        match integration_of(config.terminal.multiplexer) {
            Some(i) => r matches Some(p) && is_remove_plan(i, p, *dirs, slug@),
            None => r is None,
        },
{
    match resolve(&config.terminal.multiplexer) {
        Some(integration) => Some(remove_with(integration, dirs, slug)),
        None => None,
    }
}

} // verus!

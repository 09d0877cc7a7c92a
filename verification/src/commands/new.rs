//! `branchyard new`: what each repo's worktree gets.
use vstd::prelude::*;

use crate::config::{RepoConfig, SymlinkConfig};
use crate::ports::{interp, interpolate, repo_vars, with_repo_port, PortAssignment, VarMap};
use crate::text::{decimal, join, join_path, u64_to_decimal};

verus! {

fn s(x: &str) -> (r: String)
    ensures
        r@ == x@,
{
    String::from_str(x)
}

/// The `BRANCHYARD_*` environment of every shell command (setup, serve, stop).
pub open spec fn env_of(
    slug: Seq<char>,
    branch: Seq<char>,
    repo_name: Seq<char>,
    worktree_path: Seq<char>,
    port: u16,
) -> Seq<(Seq<char>, Seq<char>)> {
    seq![
        ("BRANCHYARD_SLUG"@, slug),
        ("BRANCHYARD_BRANCH"@, branch),
        ("BRANCHYARD_REPO"@, repo_name),
        ("BRANCHYARD_WORKTREE_PATH"@, worktree_path),
        ("BRANCHYARD_PORT"@, decimal(port as nat)),
    ]
}

/// Build the set of BRANCHYARD_* environment variables injected into every
/// shell command (setup, serve, stop). Scripts can read these without
/// Branchyard knowing anything about what those scripts actually do.
pub fn branchyard_env(
    slug: &str,
    branch: &str,
    repo_name: &str,
    worktree_path: &str,
    port: u16,
) -> (r: Vec<(String, String)>)
    ensures
        r.deep_view() == env_of(slug@, branch@, repo_name@, worktree_path@, port),
{
    let mut r: Vec<(String, String)> = Vec::new();
    r.push((s("BRANCHYARD_SLUG"), s(slug)));
    r.push((s("BRANCHYARD_BRANCH"), s(branch)));
    r.push((s("BRANCHYARD_REPO"), s(repo_name)));
    r.push((s("BRANCHYARD_WORKTREE_PATH"), s(worktree_path)));
    r.push((s("BRANCHYARD_PORT"), u64_to_decimal(port as u64)));
    assert(r.deep_view() =~= env_of(slug@, branch@, repo_name@, worktree_path@, port));
    r
}

/// The port at index `i`, or `default` when there is none.
pub open spec fn port_or_spec(ports: Seq<u16>, i: int, default: u16) -> u16 {
    if 0 <= i < ports.len() {
        ports[i]
    } else {
        default
    }
}

/// Computes `port_or_spec`.
pub fn port_or(ports: &Vec<u16>, i: usize, default: u16) -> (r: u16)
    ensures
        r == port_or_spec(ports@, i as int, default),
{
    if i < ports.len() {
        ports[i]
    } else {
        default
    }
}

/// The one-time setup command of repo `i`, interpolated with that repo's variables.
pub open spec fn setup_command_of(
    repo: RepoConfig,
    vars: Seq<(Seq<char>, Seq<char>)>,
    ports: Seq<u16>,
    i: int,
) -> Option<Seq<char>> {
    match repo.commands.setup {
        Some(c) => Some(interp(c@, repo_vars(vars, ports, i))),
        None => None,
    }
}

/// Computes `setup_command_of`.
pub fn setup_command(repo: &RepoConfig, vars: &VarMap, ports: &PortAssignment, i: usize) -> (r:
    Option<String>)
    ensures
        match setup_command_of(*repo, vars@, ports.repo_ports@, i as int) {
            Some(c) => r is Some && r->0@ == c,
            None => r is None,
        },
{
    match &repo.commands.setup {
        Some(setup_cmd) => {
            let repo_vars = with_repo_port(vars, ports, i);
            Some(interpolate(setup_cmd.as_str(), &repo_vars))
        },
        None => None,
    }
}

/// A symlink to create: the target, resolved from the workspace root, and the
/// link itself, resolved from the repo's worktree.
pub fn symlink_paths(workspace_root: &str, worktree_path: &str, link: &SymlinkConfig) -> (r: (
    String,
    String,
))
    ensures
        r.0@ == join_path(workspace_root@, link.from@),
        r.1@ == join_path(worktree_path@, link.to@),
{
    (join(workspace_root, link.from.as_str()), join(worktree_path, link.to.as_str()))
}

} // verus!

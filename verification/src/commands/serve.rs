//! `branchyard serve`: how the dev servers of a worktree are started, and the
//! per-repo commands that `serve` and `stop` run.
use vstd::prelude::*;

use crate::commands::new::{branchyard_env, env_of, port_or, port_or_spec};
use crate::config::{RepoConfig, WtreeConfig};
use crate::ports::{
    interp, interpolate, lemma_lookup_put, lookup, put, repo_vars, with_repo_port, PortAssignment,
    VarMap,
};
use crate::terminal::{
    integration_of, is_open_plan, open_if_autostart, repo_dir, TerminalPlan, UserDirs,
};
use crate::text::{decimal, join, join_path};

verus! {

/// Which of a repo's commands to run.
#[derive(Debug, Clone, Copy, PartialEq, Eq, Structural)]
pub enum CommandKind {
    /// `commands.serve`: start the dev server.
    Serve,
    /// `commands.stop`: stop the dev server.
    Stop,
}

/// A shell command to run for one repo: in its worktree directory, with the
/// `BRANCHYARD_*` environment.
#[derive(Debug)]
pub struct RepoRun {
    pub repo: String,
    pub dir: String,
    pub command: String,
    pub env: Vec<(String, String)>,
}

/// The repo's command of the given kind, if it has one.
pub open spec fn chosen(repo: RepoConfig, kind: CommandKind) -> Option<String> {
    match kind {
        CommandKind::Serve => repo.commands.serve,
        CommandKind::Stop => repo.commands.stop,
    }
}

/// The indices of the first `n` repos that have a command of the given kind.
pub open spec fn runnable(repos: Seq<RepoConfig>, kind: CommandKind, n: nat) -> Seq<int>
    decreases n,
{
    if n == 0 {
        Seq::<int>::empty()
    } else if chosen(repos[n - 1], kind) is Some {
        runnable(repos, kind, (n - 1) as nat).push(n - 1)
    } else {
        runnable(repos, kind, (n - 1) as nat)
    }
}

/// `run` is repo `i`'s command of the given kind, interpolated with the
/// repo's variables, to run in its worktree directory with its environment.
pub open spec fn is_run(
    run: RepoRun,
    kind: CommandKind,
    slug: Seq<char>,
    branch: Seq<char>,
    worktree_base: Seq<char>,
    repo: RepoConfig,
    i: int,
    ports: Seq<u16>,
    vars: Seq<(Seq<char>, Seq<char>)>,
) -> bool {
    let dir = repo_dir(worktree_base, slug, repo.name@);
    &&& run.repo@ == repo.name@
    &&& run.dir@ == dir
    &&& run.command@ == interp(chosen(repo, kind)->0@, repo_vars(vars, ports, i))
    &&& run.env.deep_view() == env_of(slug, branch, repo.name@, dir, port_or_spec(ports, i, 0))
}

/// The commands of the given kind of all repos that have one, in order.
pub open spec fn are_runs(
    runs: Seq<RepoRun>,
    kind: CommandKind,
    slug: Seq<char>,
    branch: Seq<char>,
    worktree_base: Seq<char>,
    repos: Seq<RepoConfig>,
    ports: Seq<u16>,
    vars: Seq<(Seq<char>, Seq<char>)>,
) -> bool {
    let idx = runnable(repos, kind, repos.len());
    &&& runs.len() == idx.len()
    &&& forall|k: int|
        0 <= k < runs.len() ==> is_run(
            #[trigger] runs[k],
            kind,
            slug,
            branch,
            worktree_base,
            repos[idx[k]],
            idx[k],
            ports,
            vars,
        )
}

/// The commands of the given kind, one per repo that has one.
pub fn repo_runs(
    kind: CommandKind,
    slug: &str,
    branch: &str,
    config: &WtreeConfig,
    worktree_base: &str,
    ports: &PortAssignment,
    vars: &VarMap,
) -> (r: Vec<RepoRun>)
    ensures
        are_runs(r@, kind, slug@, branch@, worktree_base@, config.repos@, ports.repo_ports@, vars@),
        forall|k: int|
            0 <= k < r@.len() && runnable(config.repos@, kind, config.repos@.len())[k]
                < ports.repo_ports@.len() ==> (#[trigger] r@[k]).env.deep_view()[4] == (
                "BRANCHYARD_PORT"@,
                decimal(ports.repo_ports@[runnable(config.repos@, kind, config.repos@.len())[k]] as nat),
            ),
{
    let ghost repos = config.repos@;
    let mut r: Vec<RepoRun> = Vec::new();
    let n = config.repos.len();
    let mut i: usize = 0;
    while i < n
        invariant
            i <= n == repos.len(),
            repos == config.repos@,
            r@.len() == runnable(repos, kind, i as nat).len(),
            forall|k: int|
                0 <= k < r@.len() ==> is_run(
                    #[trigger] r@[k],
                    kind,
                    slug@,
                    branch@,
                    worktree_base@,
                    repos[runnable(repos, kind, i as nat)[k]],
                    runnable(repos, kind, i as nat)[k],
                    ports.repo_ports@,
                    vars@,
                ),
        decreases n - i,
    {
        let repo = &config.repos[i];
        let cmd = match kind {
            CommandKind::Serve => &repo.commands.serve,
            CommandKind::Stop => &repo.commands.stop,
        };
        let ghost prev = runnable(repos, kind, i as nat);
        match cmd {
            Some(c) => {
                let repo_vars = with_repo_port(vars, ports, i);
                let command = interpolate(c.as_str(), &repo_vars);
                let slug_dir = join(worktree_base, slug);
                let dir = join(slug_dir.as_str(), repo.name.as_str());
                let port = port_or(&ports.repo_ports, i, 0);
                let env = branchyard_env(slug, branch, repo.name.as_str(), dir.as_str(), port);
                r.push(RepoRun { repo: repo.name.clone(), dir, command, env });
                assert(runnable(repos, kind, (i + 1) as nat) == prev.push(i as int));
            },
            None => {
                assert(runnable(repos, kind, (i + 1) as nat) == prev);
            },
        }
        i = i + 1;
    }
    proof {
        assert forall|k: int|
            0 <= k < r@.len() && runnable(repos, kind, repos.len())[k] < ports.repo_ports@.len() implies
            (#[trigger] r@[k]).env.deep_view()[4] == (
                "BRANCHYARD_PORT"@,
                decimal(ports.repo_ports@[runnable(repos, kind, repos.len())[k]] as nat),
            ) by {
            lemma_runs_use_own_port(r@, kind, slug@, branch@, worktree_base@, repos, ports.repo_ports@, vars@, k);
        }
    }
    r
}

/// How `serve` starts the dev servers: in the configured terminal when
/// autostart is on, otherwise as detached processes.
#[derive(Debug)]
pub enum ServePlan {
    /// Open the terminal session, whose tabs run the serve commands.
    Terminal(TerminalPlan),
    /// Run each serve command detached.
    Detached(Vec<RepoRun>),
}

/// The dev-server plan of `serve`.
pub fn serve_plan(
    slug: &str,
    branch: &str,
    config: &WtreeConfig,
    worktree_base: &str,
    ports: &PortAssignment,
    vars: &VarMap,
    dirs: &UserDirs,
) -> (r: ServePlan)
    ensures
        match integration_of(config.terminal.multiplexer) {
            Some(i) if config.terminal.autostart => r matches ServePlan::Terminal(p) && is_open_plan(
                i,
                p,
                *dirs,
                slug@,
                *config,
                worktree_base@,
                *ports,
                vars@,
            ),
            _ => r matches ServePlan::Detached(runs) && are_runs(
                runs@,
                CommandKind::Serve,
                slug@,
                branch@,
                worktree_base@,
                config.repos@,
                ports.repo_ports@,
                vars@,
            ),
        },
{
    match open_if_autostart(slug, config, worktree_base, ports, vars, dirs) {
        Some(plan) => ServePlan::Terminal(plan),
        None => ServePlan::Detached(
            repo_runs(CommandKind::Serve, slug, branch, config, worktree_base, ports, vars),
        ),
    }
}

/// The stop commands of a worktree's repos, one per repo that has one.
pub fn stop_runs(
    slug: &str,
    branch: &str,
    config: &WtreeConfig,
    worktree_base: &str,
    ports: &PortAssignment,
    vars: &VarMap,
) -> (r: Vec<RepoRun>)
    ensures
        are_runs(r@, CommandKind::Stop, slug@, branch@, worktree_base@, config.repos@, ports.repo_ports@, vars@),
{
    repo_runs(CommandKind::Stop, slug, branch, config, worktree_base, ports, vars)
}

proof fn lemma_runnable_bounds(repos: Seq<RepoConfig>, kind: CommandKind, n: nat)
    requires
        n <= repos.len(),
    ensures
        forall|k: int|
            0 <= k < runnable(repos, kind, n).len() ==> 0 <= #[trigger] runnable(repos, kind, n)[k] < n
                && chosen(repos[runnable(repos, kind, n)[k]], kind) is Some,
    decreases n,
{
    if n > 0 {
        lemma_runnable_bounds(repos, kind, (n - 1) as nat);
    }
}

/// Every run that `serve` or `stop` produces belongs to a repo that has a
/// command of that kind and runs in that repo's worktree directory, with the
/// slug, branch, repo and directory in its environment; it runs the repo's
/// own command with `{port}` set to the repo's own port, and tells the process
/// the same port in `BRANCHYARD_PORT`, the value that `port` takes in the
/// repo's variables.
pub proof fn lemma_runs_use_own_port(
    runs: Seq<RepoRun>,
    kind: CommandKind,
    slug: Seq<char>,
    branch: Seq<char>,
    worktree_base: Seq<char>,
    repos: Seq<RepoConfig>,
    ports: Seq<u16>,
    vars: Seq<(Seq<char>, Seq<char>)>,
    k: int,
)
    requires
        are_runs(runs, kind, slug, branch, worktree_base, repos, ports, vars),
        0 <= k < runs.len(),
    ensures
        ({
            let i = runnable(repos, kind, repos.len())[k];
            let port = decimal(ports[i] as nat);
            let dir = join_path(join_path(worktree_base, slug), repos[i].name@);
            &&& 0 <= i < repos.len()
            &&& chosen(repos[i], kind) is Some
            &&& runs[k].repo@ == repos[i].name@
            &&& runs[k].dir@ == dir
            &&& runs[k].env.deep_view().subrange(0, 4) == seq![
                ("BRANCHYARD_SLUG"@, slug),
                ("BRANCHYARD_BRANCH"@, branch),
                ("BRANCHYARD_REPO"@, repos[i].name@),
                ("BRANCHYARD_WORKTREE_PATH"@, dir),
            ]
            &&& i < ports.len() ==> {
                &&& runs[k].command@ == interp(chosen(repos[i], kind)->0@, put(vars, "port"@, port))
                &&& runs[k].env.deep_view().len() == 5
                &&& runs[k].env.deep_view()[4] == ("BRANCHYARD_PORT"@, port)
                &&& lookup(put(vars, "port"@, port), "port"@) == Some(runs[k].env.deep_view()[4].1)
            }
        }),
{
    lemma_runnable_bounds(repos, kind, repos.len());
    let i = runnable(repos, kind, repos.len())[k];
    assert(is_run(runs[k], kind, slug, branch, worktree_base, repos[i], i, ports, vars));
    let dir = join_path(join_path(worktree_base, slug), repos[i].name@);
    assert(runs[k].env.deep_view().subrange(0, 4) =~= seq![
        ("BRANCHYARD_SLUG"@, slug),
        ("BRANCHYARD_BRANCH"@, branch),
        ("BRANCHYARD_REPO"@, repos[i].name@),
        ("BRANCHYARD_WORKTREE_PATH"@, dir),
    ]);
    lemma_lookup_put(vars, "port"@, decimal(ports[i] as nat), "port"@);
}

proof fn lemma_runnable_complete(repos: Seq<RepoConfig>, kind: CommandKind, n: nat, i: int)
    requires
        0 <= i < n <= repos.len(),
        chosen(repos[i], kind) is Some,
    ensures
        exists|k: int| 0 <= k < runnable(repos, kind, n).len() && #[trigger] runnable(repos, kind, n)[k] == i,
    decreases n,
{
    let prev = runnable(repos, kind, (n - 1) as nat);
    if i == n - 1 {
        assert(runnable(repos, kind, n)[prev.len() as int] == i);
    } else {
        lemma_runnable_complete(repos, kind, (n - 1) as nat, i);
        let k = choose|k: int| 0 <= k < prev.len() && #[trigger] prev[k] == i;
        assert(runnable(repos, kind, n)[k] == i);
    }
}

/// Every repo that has a command of the given kind gets a run, and the runs
/// come in the order of the repos.
pub proof fn lemma_every_repo_with_command_runs(
    runs: Seq<RepoRun>,
    kind: CommandKind,
    slug: Seq<char>,
    branch: Seq<char>,
    worktree_base: Seq<char>,
    repos: Seq<RepoConfig>,
    ports: Seq<u16>,
    vars: Seq<(Seq<char>, Seq<char>)>,
    i: int,
)
    requires
        are_runs(runs, kind, slug, branch, worktree_base, repos, ports, vars),
        0 <= i < repos.len(),
        chosen(repos[i], kind) is Some,
    ensures
        exists|k: int|
            0 <= k < runs.len() && #[trigger] runnable(repos, kind, repos.len())[k] == i
                && runs[k].repo@ == repos[i].name@,
        forall|a: int, b: int|
            0 <= a < b < runs.len() ==> runnable(repos, kind, repos.len())[a] < runnable(
                repos,
                kind,
                repos.len(),
            )[b],
{
    lemma_runnable_complete(repos, kind, repos.len(), i);
    lemma_runnable_increasing(repos, kind, repos.len());
    let k = choose|k: int|
        0 <= k < runnable(repos, kind, repos.len()).len() && #[trigger] runnable(repos, kind, repos.len())[k] == i;
    assert(is_run(runs[k], kind, slug, branch, worktree_base, repos[i], i, ports, vars));
}

proof fn lemma_runnable_increasing(repos: Seq<RepoConfig>, kind: CommandKind, n: nat)
    requires
        n <= repos.len(),
    ensures
        forall|a: int, b: int|
            0 <= a < b < runnable(repos, kind, n).len() ==> runnable(repos, kind, n)[a] < runnable(
                repos,
                kind,
                n,
            )[b],
    decreases n,
{
    if n > 0 {
        lemma_runnable_increasing(repos, kind, (n - 1) as nat);
        lemma_runnable_bounds(repos, kind, (n - 1) as nat);
    }
}
} // verus!

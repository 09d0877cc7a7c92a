//! Tmux terminal integration.
//!
//! Creates a named tmux session `branchyard-<slug>` with one window per repo,
//! each pre-cd'd to the worktree directory; the repo's serve command, if any,
//! is typed into its window. No config files are written.
use vstd::prelude::*;

use crate::config::{RepoConfig, WtreeConfig};
use crate::ports::{interp, put, PortAssignment, VarMap};
use crate::terminal::{repo_dir, repo_serve_command, serve_command, TerminalIntegration, TerminalPlan};
use crate::text::{
    decimal, join, join_path, occurs_at, push_str, u64_to_decimal,
};

verus! {

/// Tmux.
pub struct Tmux;

/// The session name of a worktree.
pub open spec fn session_name(slug: Seq<char>) -> Seq<char> {
    "branchyard-"@ + slug
}

/// The name of repo `name`'s window.
pub open spec fn window_name(name: Seq<char>, slug: Seq<char>) -> Seq<char> {
    name + " · "@ + slug
}

/// Window `i` of the session.
pub open spec fn window_target(slug: Seq<char>, i: nat) -> Seq<char> {
    session_name(slug) + ":"@ + decimal(i)
}

/// The tmux commands for repo `i`: name its window (renaming the first,
/// creating the others), change into its directory, and type its serve command.
pub open spec fn repo_commands(
    slug: Seq<char>,
    worktree_base: Seq<char>,
    repo: RepoConfig,
    i: nat,
    ports: Seq<u16>,
    vars: Seq<(Seq<char>, Seq<char>)>,
) -> Seq<Seq<Seq<char>>> {
    let window = if i == 0 {
        seq!["rename-window"@, "-t"@, session_name(slug) + ":0"@, window_name(repo.name@, slug)]
    } else {
        seq!["new-window"@, "-t"@, session_name(slug), "-n"@, window_name(repo.name@, slug)]
    };
    let cd = seq![
        "send-keys"@,
        "-t"@,
        window_target(slug, i),
        "cd "@ + repo_dir(worktree_base, slug, repo.name@) + " && clear"@,
        "Enter"@,
    ];
    seq![window, cd] + match serve_command(repo, vars, ports, i as int) {
        Some(c) => seq![seq!["send-keys"@, "-t"@, window_target(slug, i), c, "Enter"@]],
        None => Seq::<Seq<Seq<char>>>::empty(),
    }
}

/// The commands of the first `n` repos.
pub open spec fn all_repo_commands(
    slug: Seq<char>,
    worktree_base: Seq<char>,
    repos: Seq<RepoConfig>,
    ports: Seq<u16>,
    vars: Seq<(Seq<char>, Seq<char>)>,
    n: nat,
) -> Seq<Seq<Seq<char>>>
    decreases n,
{
    if n == 0 {
        Seq::<Seq<Seq<char>>>::empty()
    } else {
        all_repo_commands(slug, worktree_base, repos, ports, vars, (n - 1) as nat) + repo_commands(
            slug,
            worktree_base,
            repos[n - 1],
            (n - 1) as nat,
            ports,
            vars,
        )
    }
}

/// Create the detached session, set up each repo's window, then attach.
pub open spec fn open_commands(
    slug: Seq<char>,
    worktree_base: Seq<char>,
    repos: Seq<RepoConfig>,
    ports: Seq<u16>,
    vars: Seq<(Seq<char>, Seq<char>)>,
) -> Seq<Seq<Seq<char>>> {
    seq![seq!["new-session"@, "-d"@, "-s"@, session_name(slug)]] + all_repo_commands(
        slug,
        worktree_base,
        repos,
        ports,
        vars,
        repos.len(),
    ) + seq![seq!["attach-session"@, "-t"@, session_name(slug)]]
}

/// Kill the session (it may already be gone).
pub open spec fn remove_commands(slug: Seq<char>) -> Seq<Seq<Seq<char>>> {
    seq![seq!["kill-session"@, "-t"@, session_name(slug)]]
}

fn s(x: &str) -> (r: String)
    ensures
        r@ == x@,
{
    String::from_str(x)
}

fn session(slug: &str) -> (r: String)
    ensures
        r@ == session_name(slug@),
{
    let mut r = s("branchyard-");
    push_str(&mut r, slug);
    r
}

fn target(slug: &str, i: usize) -> (r: String)
    ensures
        r@ == window_target(slug@, i as nat),
{
    let mut r = session(slug);
    push_str(&mut r, ":");
    let d = u64_to_decimal(i as u64);
    push_str(&mut r, d.as_str());
    r
}

fn push_repo_commands(
    out: &mut Vec<Vec<String>>,
    slug: &str,
    repo: &RepoConfig,
    worktree_base: &str,
    ports: &PortAssignment,
    vars: &VarMap,
    i: usize,
)
    ensures
        final(out).deep_view() == old(out).deep_view() + repo_commands(
            slug@,
            worktree_base@,
            *repo,
            i as nat,
            ports.repo_ports@,
            vars@,
        ),
{
    let ghost before = out.deep_view();
    let mut name = s(repo.name.as_str());
    push_str(&mut name, " · ");
    push_str(&mut name, slug);
    let mut window: Vec<String> = Vec::new();
    if i == 0 {
        let mut t = session(slug);
        push_str(&mut t, ":0");
        window.push(s("rename-window"));
        window.push(s("-t"));
        window.push(t);
        window.push(name);
    } else {
        window.push(s("new-window"));
        window.push(s("-t"));
        window.push(session(slug));
        window.push(s("-n"));
        window.push(name);
    }
    let slug_dir = join(worktree_base, slug);
    let path = join(slug_dir.as_str(), repo.name.as_str());
    let mut cd_cmd = s("cd ");
    push_str(&mut cd_cmd, path.as_str());
    push_str(&mut cd_cmd, " && clear");
    let mut cd: Vec<String> = Vec::new();
    cd.push(s("send-keys"));
    cd.push(s("-t"));
    cd.push(target(slug, i));
    cd.push(cd_cmd);
    cd.push(s("Enter"));
    let ghost wv = window.deep_view();
    let ghost cv = cd.deep_view();
    if i == 0 {
        assert(wv =~= seq![
            "rename-window"@,
            "-t"@,
            session_name(slug@) + ":0"@,
            window_name(repo.name@, slug@),
        ]);
    } else {
        assert(wv =~= seq![
            "new-window"@,
            "-t"@,
            session_name(slug@),
            "-n"@,
            window_name(repo.name@, slug@),
        ]);
    }
    assert(cv =~= seq![
        "send-keys"@,
        "-t"@,
        window_target(slug@, i as nat),
        "cd "@ + repo_dir(worktree_base@, slug@, repo.name@) + " && clear"@,
        "Enter"@,
    ]);
    out.push(window);
    out.push(cd);
    let ghost serve = serve_command(*repo, vars@, ports.repo_ports@, i as int);
    match repo_serve_command(repo, vars, ports, i) {
        Some(cmd) => {
            let mut run: Vec<String> = Vec::new();
            run.push(s("send-keys"));
            run.push(s("-t"));
            run.push(target(slug, i));
            run.push(cmd);
            run.push(s("Enter"));
            let ghost rv = run.deep_view();
            assert(rv =~= seq!["send-keys"@, "-t"@, window_target(slug@, i as nat), serve->0, "Enter"@]);
            out.push(run);
            assert(out.deep_view() =~= before + seq![wv, cv, rv]);
        },
        None => {
            assert(out.deep_view() =~= before + seq![wv, cv]);
        },
    }
    assert(out.deep_view() =~= before + repo_commands(
        slug@,
        worktree_base@,
        *repo,
        i as nat,
        ports.repo_ports@,
        vars@,
    ));
}

/// The tmux commands that open a worktree's session.
pub fn open_session_commands(
    slug: &str,
    config: &WtreeConfig,
    worktree_base: &str,
    ports: &PortAssignment,
    vars: &VarMap,
) -> (r: Vec<Vec<String>>)
    ensures
        r.deep_view() == open_commands(slug@, worktree_base@, config.repos@, ports.repo_ports@, vars@),
{
    let mut out: Vec<Vec<String>> = Vec::new();
    let mut first: Vec<String> = Vec::new();
    first.push(s("new-session"));
    first.push(s("-d"));
    first.push(s("-s"));
    first.push(session(slug));
    let ghost fv = first.deep_view();
    assert(fv =~= seq!["new-session"@, "-d"@, "-s"@, session_name(slug@)]);
    out.push(first);
    assert(out.deep_view() =~= seq![fv]);
    let ghost head = out.deep_view();
    let n = config.repos.len();
    let mut i: usize = 0;
    assert(head + all_repo_commands(slug@, worktree_base@, config.repos@, ports.repo_ports@, vars@, 0) =~= head);
    while i < n
        invariant
            i <= n == config.repos@.len(),
            out.deep_view() == head + all_repo_commands(
                slug@,
                worktree_base@,
                config.repos@,
                ports.repo_ports@,
                vars@,
                i as nat,
            ),
        decreases n - i,
    {
        push_repo_commands(&mut out, slug, &config.repos[i], worktree_base, ports, vars, i);
        assert(out.deep_view() =~= head + all_repo_commands(
            slug@,
            worktree_base@,
            config.repos@,
            ports.repo_ports@,
            vars@,
            (i + 1) as nat,
        ));
        i = i + 1;
    }
    let mut last: Vec<String> = Vec::new();
    last.push(s("attach-session"));
    last.push(s("-t"));
    last.push(session(slug));
    let ghost lv = last.deep_view();
    assert(lv =~= seq!["attach-session"@, "-t"@, session_name(slug@)]);
    let ghost mid = out.deep_view();
    out.push(last);
    assert(out.deep_view() =~= mid + seq![lv]);
    out
}

/// The tmux commands that remove a worktree's session.
pub fn remove_session_commands(slug: &str) -> (r: Vec<Vec<String>>)
    ensures
        r.deep_view() == remove_commands(slug@),
{
    let mut kill: Vec<String> = Vec::new();
    kill.push(s("kill-session"));
    kill.push(s("-t"));
    kill.push(session(slug));
    let ghost kv = kill.deep_view();
    assert(kv =~= seq!["kill-session"@, "-t"@, session_name(slug@)]);
    let mut out: Vec<Vec<String>> = Vec::new();
    out.push(kill);
    assert(out.deep_view() =~= seq![kv]);
    out
}

/// The plan for opening: run the session commands, the first of which must start.
pub open spec fn is_open_plan(
    plan: TerminalPlan,
    slug: Seq<char>,
    config: WtreeConfig,
    worktree_base: Seq<char>,
    ports: PortAssignment,
    vars: Seq<(Seq<char>, Seq<char>)>,
) -> bool {
    match plan {
        TerminalPlan::RunTmux { commands, first_required } => {
            &&& commands.deep_view() == open_commands(slug, worktree_base, config.repos@, ports.repo_ports@, vars)
            &&& first_required
        },
        _ => false,
    }
}

/// The plan for removing: kill the session, ignoring failure.
pub open spec fn is_remove_plan(plan: TerminalPlan, slug: Seq<char>) -> bool {
    match plan {
        TerminalPlan::RunTmux { commands, first_required } => {
            &&& commands.deep_view() == remove_commands(slug)
            &&& !first_required
        },
        _ => false,
    }
}

impl TerminalIntegration for Tmux {
    fn open(
        &self,
        slug: &str,
        config: &WtreeConfig,
        worktree_base: &str,
        ports: &PortAssignment,
        vars: &VarMap,
    ) -> (r: TerminalPlan)
        ensures
            is_open_plan(r, slug@, *config, worktree_base@, *ports, vars@),
    {
        TerminalPlan::RunTmux {
            commands: open_session_commands(slug, config, worktree_base, ports, vars),
            first_required: true,
        }
    }

    fn remove(&self, slug: &str) -> (r: TerminalPlan)
        ensures
            is_remove_plan(r, slug@),
    {
        TerminalPlan::RunTmux { commands: remove_session_commands(slug), first_required: false }
    }
}

proof fn lemma_all_repo_commands_prefix(
    slug: Seq<char>,
    worktree_base: Seq<char>,
    repos: Seq<RepoConfig>,
    ports: Seq<u16>,
    vars: Seq<(Seq<char>, Seq<char>)>,
    m: nat,
    n: nat,
)
    requires
        m <= n <= repos.len(),
    ensures
        all_repo_commands(slug, worktree_base, repos, ports, vars, m).len() <= all_repo_commands(
            slug,
            worktree_base,
            repos,
            ports,
            vars,
            n,
        ).len(),
        forall|x: int|
            0 <= x < all_repo_commands(slug, worktree_base, repos, ports, vars, m).len() ==> #[trigger] all_repo_commands(
                slug,
                worktree_base,
                repos,
                ports,
                vars,
                n,
            )[x] == all_repo_commands(slug, worktree_base, repos, ports, vars, m)[x],
        m < n ==> all_repo_commands(slug, worktree_base, repos, ports, vars, m).len()
            < all_repo_commands(slug, worktree_base, repos, ports, vars, n).len(),
        m < n ==> all_repo_commands(slug, worktree_base, repos, ports, vars, n)[all_repo_commands(
            slug,
            worktree_base,
            repos,
            ports,
            vars,
            m,
        ).len() as int] == repo_commands(slug, worktree_base, repos[m as int], m, ports, vars)[0],
    decreases n,
{
    if m < n {
        lemma_all_repo_commands_prefix(slug, worktree_base, repos, ports, vars, m, (n - 1) as nat);
        let prev = all_repo_commands(slug, worktree_base, repos, ports, vars, (n - 1) as nat);
        let last = repo_commands(slug, worktree_base, repos[n - 1], (n - 1) as nat, ports, vars);
        let whole = all_repo_commands(slug, worktree_base, repos, ports, vars, n);
        assert(whole == prev + last);
        assert(last.len() >= 2);
        if m == n - 1 {
            assert(whole[prev.len() as int] == last[0]);
        }
    }
}

/// The tmux commands that `cd` repo `i`'s window into the repo's worktree
/// directory and, when the repo has a serve command, type that command with
/// `{port}` set to the repo's own port into the same window.
pub open spec fn own_window_commands(
    slug: Seq<char>,
    worktree_base: Seq<char>,
    repo: RepoConfig,
    i: nat,
    port: u16,
    vars: Seq<(Seq<char>, Seq<char>)>,
) -> Seq<Seq<Seq<char>>> {
    let target = "branchyard-"@ + slug + ":"@ + decimal(i);
    seq![
        seq![
            "send-keys"@,
            "-t"@,
            target,
            "cd "@ + join_path(join_path(worktree_base, slug), repo.name@) + " && clear"@,
            "Enter"@,
        ],
    ] + match repo.commands.serve {
        Some(c) => seq![
            seq!["send-keys"@, "-t"@, target, interp(c@, put(vars, "port"@, decimal(port as nat))), "Enter"@],
        ],
        None => Seq::<Seq<Seq<char>>>::empty(),
    }
}

/// Every repo's window `branchyard-<slug>:<i>` is changed into the repo's
/// worktree directory, and the repo's serve command, if it has one, is typed
/// next into that same window, with `{port}` set to the repo's own port;
/// nothing else is sent to the window before the next window is created or
/// the session is attached.
pub proof fn lemma_serve_typed_into_own_window(
    slug: Seq<char>,
    worktree_base: Seq<char>,
    repos: Seq<RepoConfig>,
    ports: Seq<u16>,
    vars: Seq<(Seq<char>, Seq<char>)>,
    i: nat,
)
    requires
        i < repos.len(),
        i < ports.len(),
    ensures
        ({
            let file = open_commands(slug, worktree_base, repos, ports, vars);
            let w = own_window_commands(slug, worktree_base, repos[i as int], i, ports[i as int], vars);
            exists|k: int|
                #![trigger occurs_at(file, w, k)]
                occurs_at(file, w, k) && k + w.len() < file.len() && (file[k + w.len()][0]
                    == "new-window"@ || file[k + w.len()][0] == "attach-session"@)
        }),
{
    let file = open_commands(slug, worktree_base, repos, ports, vars);
    let n = repos.len();
    let before = all_repo_commands(slug, worktree_base, repos, ports, vars, i);
    let rc = repo_commands(slug, worktree_base, repos[i as int], i, ports, vars);
    let upto = all_repo_commands(slug, worktree_base, repos, ports, vars, i + 1);
    let all = all_repo_commands(slug, worktree_base, repos, ports, vars, n);
    let w = own_window_commands(slug, worktree_base, repos[i as int], i, ports[i as int], vars);
    let head = seq![seq!["new-session"@, "-d"@, "-s"@, session_name(slug)]];
    let tail = seq![seq!["attach-session"@, "-t"@, session_name(slug)]];
    assert(file == head + all + tail);
    assert(upto == before + rc);
    assert(rc =~= seq![rc[0]] + w);
    lemma_all_repo_commands_prefix(slug, worktree_base, repos, ports, vars, i + 1, n);
    let k: int = (1 + before.len() + 1) as int;
    assert forall|x: int| 0 <= x < w.len() implies file[k + x] == w[x] by {
        assert(file[k + x] == all[before.len() + 1 + x]);
        assert(all[before.len() + 1 + x] == upto[before.len() + 1 + x]);
        assert(upto[before.len() + 1 + x] == rc[1 + x]);
    }
    assert(file.subrange(k, k + w.len()) =~= w);
    assert(occurs_at(file, w, k));
    if i + 1 < n {
        lemma_all_repo_commands_prefix(slug, worktree_base, repos, ports, vars, i + 1, n);
        assert(file[k + w.len()] == all[upto.len() as int]);
        assert(file[k + w.len()][0] == "new-window"@);
    } else {
        assert(all == upto);
        assert(file[k + w.len()] == tail[0]);
    }
}
} // verus!

//! Warp terminal integration.
//!
//! Writes a Launch Configuration YAML to
//! `~/Documents/Warp/Launch Configurations/branchyard-<slug>.yaml`.
//! Each repo gets its own tab, pre-cd'd to the worktree directory; the repo's
//! serve command, if any, runs when the tab opens.
use vstd::prelude::*;

use crate::config::{RepoConfig, WtreeConfig};
use crate::ports::{interp, lemma_lookup_put, lookup, put, PortAssignment, VarMap};
use crate::terminal::{repo_dir, repo_serve_command, serve_command, TerminalIntegration, TerminalPlan};
use crate::text::{
    decimal, join, join_path, lemma_affix_injective, lemma_join_injective, lemma_occurs_after,
    lemma_occurs_self, lemma_occurs_trans, lemma_occurs_within, occurs_at, opt_ref, opt_view,
    push_str,
};

verus! {

/// Warp.
pub struct Warp {
    /// The user's documents directory, when there is one.
    pub documents: Option<String>,
}

/// Where the launch configuration of `slug` goes, given the documents
/// directory (the current directory when there is none).
pub open spec fn launch_config_path(documents: Option<Seq<char>>, slug: Seq<char>) -> Seq<char> {
    let dir = match documents {
        Some(d) => d,
        None => "."@,
    };
    join_path(
        join_path(join_path(dir, "Warp"@), "Launch Configurations"@),
        "branchyard-"@ + slug + ".yaml"@,
    )
}

/// Computes `launch_config_path`.
pub fn launch_config_path_in(documents: Option<&str>, slug: &str) -> (r: String)
    ensures
        r@ == launch_config_path(
            match documents {
                Some(d) => Some(d@),
                None => None,
            },
            slug@,
        ),
{
    let dir = match documents {
        Some(d) => String::from_str(d),
        None => String::from_str("."),
    };
    let a = join(dir.as_str(), "Warp");
    let b = join(a.as_str(), "Launch Configurations");
    let mut file = String::from_str("branchyard-");
    push_str(&mut file, slug);
    push_str(&mut file, ".yaml");
    join(b.as_str(), file.as_str())
}

/// The tab of repo `i`.
pub open spec fn tab(
    slug: Seq<char>,
    worktree_base: Seq<char>,
    repo: RepoConfig,
    i: int,
    ports: Seq<u16>,
    vars: Seq<(Seq<char>, Seq<char>)>,
) -> Seq<char> {
    "  - title: \""@ + repo.name@ + " · "@ + slug + "\"\n"@ + "    directory: "@ + repo_dir(
        worktree_base,
        slug,
        repo.name@,
    ) + "\n"@ + match serve_command(repo, vars, ports, i) {
        Some(c) => "    commands:\n"@ + "      - "@ + c + "\n"@,
        None => Seq::<char>::empty(),
    }
}

/// The tabs of the first `n` repos.
pub open spec fn tabs(
    slug: Seq<char>,
    worktree_base: Seq<char>,
    repos: Seq<RepoConfig>,
    ports: Seq<u16>,
    vars: Seq<(Seq<char>, Seq<char>)>,
    n: nat,
) -> Seq<char>
    decreases n,
{
    if n == 0 {
        Seq::<char>::empty()
    } else {
        tabs(slug, worktree_base, repos, ports, vars, (n - 1) as nat) + tab(
            slug,
            worktree_base,
            repos[n - 1],
            n - 1,
            ports,
            vars,
        )
    }
}

/// The launch configuration for a worktree.
pub open spec fn launch_config(
    slug: Seq<char>,
    worktree_base: Seq<char>,
    repos: Seq<RepoConfig>,
    ports: Seq<u16>,
    vars: Seq<(Seq<char>, Seq<char>)>,
) -> Seq<char> {
    "---\n"@ + "name: branchyard · "@ + slug + "\n"@ + "tabs:\n"@ + tabs(
        slug,
        worktree_base,
        repos,
        ports,
        vars,
        repos.len(),
    )
}

/// Generates the launch configuration YAML.
#[verifier::rlimit(60)]
pub fn generate(
    slug: &str,
    config: &WtreeConfig,
    worktree_base: &str,
    ports: &PortAssignment,
    vars: &VarMap,
) -> (r: String)
    ensures
        r@ == launch_config(slug@, worktree_base@, config.repos@, ports.repo_ports@, vars@),
{
    let mut out = String::new();
    push_str(&mut out, "---\n");
    push_str(&mut out, "name: branchyard · ");
    push_str(&mut out, slug);
    push_str(&mut out, "\n");
    push_str(&mut out, "tabs:\n");
    let ghost head = out@;
    let n = config.repos.len();
    let mut i: usize = 0;
    while i < n
        invariant
            i <= n == config.repos@.len(),
            out@ == head + tabs(slug@, worktree_base@, config.repos@, ports.repo_ports@, vars@, i as nat),
        decreases n - i,
    {
        let repo = &config.repos[i];
        let ghost before = out@;
        let slug_dir = join(worktree_base, slug);
        let path = join(slug_dir.as_str(), repo.name.as_str());
        push_str(&mut out, "  - title: \"");
        push_str(&mut out, repo.name.as_str());
        push_str(&mut out, " · ");
        push_str(&mut out, slug);
        push_str(&mut out, "\"\n");
        push_str(&mut out, "    directory: ");
        push_str(&mut out, path.as_str());
        push_str(&mut out, "\n");
        match repo_serve_command(repo, vars, ports, i) {
            Some(cmd) => {
                push_str(&mut out, "    commands:\n");
                push_str(&mut out, "      - ");
                push_str(&mut out, cmd.as_str());
                push_str(&mut out, "\n");
            },
            None => {},
        }
        assert(out@ =~= before + tab(slug@, worktree_base@, *repo, i as int, ports.repo_ports@, vars@));
        i = i + 1;
    }
    out
}

/// The plan for opening: the launch configuration, written where Warp looks
/// for it, then Warp launched.
pub open spec fn is_open_plan(
    plan: TerminalPlan,
    documents: Option<Seq<char>>,
    slug: Seq<char>,
    config: WtreeConfig,
    worktree_base: Seq<char>,
    ports: PortAssignment,
    vars: Seq<(Seq<char>, Seq<char>)>,
) -> bool {
    match plan {
        TerminalPlan::WriteConfig { path, content, app } => {
            &&& path@ == launch_config_path(documents, slug)
            &&& content@ == launch_config(slug, worktree_base, config.repos@, ports.repo_ports@, vars)
            &&& app@ == "Warp"@
        },
        _ => false,
    }
}

/// The plan for removing: delete the launch configuration.
pub open spec fn is_remove_plan(plan: TerminalPlan, documents: Option<Seq<char>>, slug: Seq<char>) -> bool {
    match plan {
        TerminalPlan::RemoveFile { path } => path@ == launch_config_path(documents, slug),
        _ => false,
    }
}

impl TerminalIntegration for Warp {
    fn open(
        &self,
        slug: &str,
        config: &WtreeConfig,
        worktree_base: &str,
        ports: &PortAssignment,
        vars: &VarMap,
    ) -> (r: TerminalPlan)
        ensures
            is_open_plan(r, opt_view(self.documents), slug@, *config, worktree_base@, *ports, vars@),
    {
        let content = generate(slug, config, worktree_base, ports, vars);
        let path = launch_config_path_in(opt_ref(&self.documents), slug);
        TerminalPlan::WriteConfig { path, content, app: String::from_str("Warp") }
    }

    fn remove(&self, slug: &str) -> (r: TerminalPlan)
        ensures
            is_remove_plan(r, opt_view(self.documents), slug@),
    {
        TerminalPlan::RemoveFile { path: launch_config_path_in(opt_ref(&self.documents), slug) }
    }
}


/// `remove` deletes the file that `open` wrote, for the same directory and slug.
pub proof fn lemma_remove_targets_opened_file(
    opened: TerminalPlan,
    removed: TerminalPlan,
    documents: Option<Seq<char>>,
    slug: Seq<char>,
    config: WtreeConfig,
    worktree_base: Seq<char>,
    ports: PortAssignment,
    vars: Seq<(Seq<char>, Seq<char>)>,
)
    requires
        is_open_plan(opened, documents, slug, config, worktree_base, ports, vars),
        is_remove_plan(removed, documents, slug),
    ensures
        opened matches TerminalPlan::WriteConfig { path: written, .. } && removed matches TerminalPlan::RemoveFile { path: deleted } && written@ == deleted@,
{
}

/// Different slugs have different files, so removing one worktree's file
/// leaves every other worktree's file alone.
pub proof fn lemma_files_distinct(documents: Option<Seq<char>>, s1: Seq<char>, s2: Seq<char>)
    requires
        s1 != s2,
    ensures
        launch_config_path(documents, s1) != launch_config_path(documents, s2),
{
    let n1 = "branchyard-"@ + s1 + ".yaml"@;
    let n2 = "branchyard-"@ + s2 + ".yaml"@;
    assert(n1[0] == 'b' && n2[0] == 'b') by {
        reveal_strlit("branchyard-");
    }
    if launch_config_path(documents, s1) == launch_config_path(documents, s2) {
        let dir = match documents {
            Some(d) => d,
            None => "."@,
        };
        lemma_join_injective(join_path(join_path(dir, "Warp"@), "Launch Configurations"@), n1, n2);
        lemma_affix_injective("branchyard-"@, s1, s2, ".yaml"@);
    }
}

proof fn lemma_tabs_contain(
    slug: Seq<char>,
    worktree_base: Seq<char>,
    repos: Seq<RepoConfig>,
    ports: Seq<u16>,
    vars: Seq<(Seq<char>, Seq<char>)>,
    n: nat,
    i: int,
)
    requires
        0 <= i < n <= repos.len(),
    ensures
        exists|k: int|
            occurs_at(
                tabs(slug, worktree_base, repos, ports, vars, n),
                tab(slug, worktree_base, repos[i], i, ports, vars),
                k,
            ),
    decreases n,
{
    let t = tab(slug, worktree_base, repos[i], i, ports, vars);
    let prev = tabs(slug, worktree_base, repos, ports, vars, (n - 1) as nat);
    let last = tab(slug, worktree_base, repos[n - 1], n - 1, ports, vars);
    let whole = tabs(slug, worktree_base, repos, ports, vars, n);
    assert(whole == prev + last);
    if i == n - 1 {
        lemma_occurs_after(prev, t);
        assert(occurs_at(whole, t, prev.len() as int));
    } else {
        lemma_tabs_contain(slug, worktree_base, repos, ports, vars, (n - 1) as nat, i);
        let k = choose|k: int| occurs_at(prev, t, k);
        lemma_occurs_within(prev, t, k, Seq::<char>::empty(), last);
        assert(Seq::<char>::empty() + prev + last =~= whole);
        assert(occurs_at(whole, t, k));
    }
}

proof fn lemma_tabs_prefix(
    slug: Seq<char>,
    worktree_base: Seq<char>,
    repos: Seq<RepoConfig>,
    ports: Seq<u16>,
    vars: Seq<(Seq<char>, Seq<char>)>,
    m: nat,
    n: nat,
)
    requires
        m < n <= repos.len(),
    ensures
        occurs_at(
            tabs(slug, worktree_base, repos, ports, vars, n),
            tabs(slug, worktree_base, repos, ports, vars, m) + "  - title: \""@,
            0,
        ),
    decreases n,
{
    let p = tabs(slug, worktree_base, repos, ports, vars, m) + "  - title: \""@;
    let whole = tabs(slug, worktree_base, repos, ports, vars, n);
    let prev = tabs(slug, worktree_base, repos, ports, vars, (n - 1) as nat);
    let last = tab(slug, worktree_base, repos[n - 1], n - 1, ports, vars);
    assert(whole == prev + last);
    if m == n - 1 {
        let rest = last.subrange(("  - title: \""@).len() as int, last.len() as int);
        assert(last =~= "  - title: \""@ + rest);
        assert(whole =~= Seq::<char>::empty() + p + rest);
        lemma_occurs_self(p);
        lemma_occurs_within(p, p, 0, Seq::<char>::empty(), rest);
    } else {
        lemma_tabs_prefix(slug, worktree_base, repos, ports, vars, m, (n - 1) as nat);
        lemma_occurs_within(prev, p, 0, Seq::<char>::empty(), last);
        assert(Seq::<char>::empty() + prev + last =~= whole);
    }
}

/// The tab of `repo` written out: titled with the repo's name, opened in the
/// repo's worktree directory, and running the repo's serve command with
/// `{port}` set to `port` when it has one.
pub open spec fn expected_tab(
    slug: Seq<char>,
    worktree_base: Seq<char>,
    repo: RepoConfig,
    port: u16,
    vars: Seq<(Seq<char>, Seq<char>)>,
) -> Seq<char> {
    "  - title: \""@ + repo.name@ + " · "@ + slug + "\"\n"@ + "    directory: "@ + join_path(
        join_path(worktree_base, slug),
        repo.name@,
    ) + "\n"@ + match repo.commands.serve {
        Some(c) => "    commands:\n"@ + "      - "@ + interp(c@, put(vars, "port"@, decimal(port as nat)))
            + "\n"@,
        None => Seq::<char>::empty(),
    }
}

/// Every repo gets its own tab in the launch configuration, ending where the
/// next tab or the file begins: titled with the repo's name, opened in the
/// repo's worktree directory, and, when the repo has a serve command, running
/// that command with `{port}` set to the repo's own port (the value that
/// `port` takes in the repo's variables); a repo without one runs nothing.
pub proof fn lemma_tab_runs_own_serve(
    slug: Seq<char>,
    worktree_base: Seq<char>,
    repos: Seq<RepoConfig>,
    ports: Seq<u16>,
    vars: Seq<(Seq<char>, Seq<char>)>,
    i: int,
)
    requires
        0 <= i < repos.len(),
        i < ports.len(),
    ensures
        ({
            let file = launch_config(slug, worktree_base, repos, ports, vars);
            let t = expected_tab(slug, worktree_base, repos[i], ports[i], vars);
            exists|k: int|
                #![trigger occurs_at(file, t, k)]
                occurs_at(file, t, k) && (k + t.len() == file.len() || occurs_at(
                    file,
                    "  - title: \""@,
                    k + t.len(),
                ))
        }),
        lookup(put(vars, "port"@, decimal(ports[i] as nat)), "port"@) == Some(decimal(ports[i] as nat)),
{
    let head = "---\n"@ + "name: branchyard · "@ + slug + "\n"@ + "tabs:\n"@;
    let file = launch_config(slug, worktree_base, repos, ports, vars);
    let all = tabs(slug, worktree_base, repos, ports, vars, repos.len());
    let before = tabs(slug, worktree_base, repos, ports, vars, i as nat);
    let t = tab(slug, worktree_base, repos[i], i, ports, vars);
    assert(t =~= expected_tab(slug, worktree_base, repos[i], ports[i], vars));
    assert(file =~= head + all);
    assert(tabs(slug, worktree_base, repos, ports, vars, (i + 1) as nat) == before + t);
    let k: int = (head.len() + before.len()) as int;
    if i + 1 == repos.len() {
        assert(file =~= head + before + t);
        lemma_occurs_after(head + before, t);
        assert(occurs_at(file, t, k) && k + t.len() == file.len());
    } else {
        let title = "  - title: \""@;
        lemma_tabs_prefix(slug, worktree_base, repos, ports, vars, (i + 1) as nat, repos.len());
        let p = before + t + title;
        assert(occurs_at(all, p, 0));
        lemma_occurs_after(before, t);
        lemma_occurs_within(before + t, t, before.len() as int, Seq::<char>::empty(), title);
        assert(Seq::<char>::empty() + (before + t) + title =~= p);
        lemma_occurs_trans(all, p, t, 0, before.len() as int);
        lemma_occurs_after(before + t, title);
        lemma_occurs_trans(all, p, title, 0, (before + t).len() as int);
        lemma_occurs_within(all, t, before.len() as int, head, Seq::<char>::empty());
        lemma_occurs_within(all, title, (before + t).len() as int, head, Seq::<char>::empty());
        assert(head + all + Seq::<char>::empty() =~= file);
        assert(occurs_at(file, t, k) && occurs_at(file, title, k + t.len()));
    }
    lemma_lookup_put(vars, "port"@, decimal(ports[i] as nat), "port"@);
}
} // verus!

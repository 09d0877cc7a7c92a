//! iTerm2 terminal integration.
//!
//! Writes a Dynamic Profile JSON to
//! `~/Library/Application Support/iTerm2/DynamicProfiles/branchyard-<slug>.json`.
//! Each repo gets its own profile, pre-cd'd to the worktree directory; the
//! repo's serve command, if any, is its initial text.
use vstd::prelude::*;

use crate::config::{RepoConfig, WtreeConfig};
use crate::ports::{interp, put, PortAssignment, VarMap};
use crate::terminal::{repo_dir, repo_serve_command, serve_command, TerminalIntegration, TerminalPlan};
use crate::text::{
    decimal, from_chars, join, join_path, lemma_affix_injective, lemma_join_injective,
    lemma_occurs_after, lemma_occurs_self, lemma_occurs_within, occurs_at, opt_ref, opt_view,
    push_str, replace_all, replace_chars, to_chars,
};

verus! {

/// iTerm2.
pub struct Iterm2 {
    /// The user's home directory, when there is one.
    pub home: Option<String>,
}

/// Where the dynamic profile of `slug` goes, given the home directory (the
/// current directory when there is none).
pub open spec fn profile_path(home: Option<Seq<char>>, slug: Seq<char>) -> Seq<char> {
    let dir = match home {
        Some(d) => d,
        None => "."@,
    };
    join_path(
        join_path(
            join_path(join_path(join_path(dir, "Library"@), "Application Support"@), "iTerm2"@),
            "DynamicProfiles"@,
        ),
        "branchyard-"@ + slug + ".json"@,
    )
}

/// Computes `profile_path`.
pub fn profile_path_in(home: Option<&str>, slug: &str) -> (r: String)
    ensures
        r@ == profile_path(
            match home {
                Some(d) => Some(d@),
                None => None,
            },
            slug@,
        ),
{
    let dir = match home {
        Some(d) => String::from_str(d),
        None => String::from_str("."),
    };
    let a = join(dir.as_str(), "Library");
    let b = join(a.as_str(), "Application Support");
    let c = join(b.as_str(), "iTerm2");
    let d = join(c.as_str(), "DynamicProfiles");
    let mut file = String::from_str("branchyard-");
    push_str(&mut file, slug);
    push_str(&mut file, ".json");
    join(d.as_str(), file.as_str())
}

/// Backslashes doubled, then double quotes preceded by a backslash.
pub open spec fn json_escape(s: Seq<char>) -> Seq<char> {
    replace_all(replace_all(s, "\\"@, "\\\\"@), "\""@, "\\\""@)
}

/// Escapes a command for a JSON string.
pub fn escape(s: &str) -> (r: String)
    ensures
        r@ == json_escape(s@),
{
    let v = to_chars(s);
    let bs = to_chars("\\");
    let bs2 = to_chars("\\\\");
    let q = to_chars("\"");
    let q2 = to_chars("\\\"");
    proof {
        reveal_strlit("\\");
        reveal_strlit("\"");
    }
    let a = replace_chars(&v, &bs, &bs2);
    let b = replace_chars(&a, &q, &q2);
    from_chars(&b)
}

/// The profile of repo `i`.
pub open spec fn profile(
    slug: Seq<char>,
    worktree_base: Seq<char>,
    repo: RepoConfig,
    i: int,
    ports: Seq<u16>,
    vars: Seq<(Seq<char>, Seq<char>)>,
) -> Seq<char> {
    "    {\n      \"Name\": \""@ + repo.name@ + " · "@ + slug + "\",\n      \"Guid\": \"branchyard-"@
        + slug + "-"@ + repo.name@ + "\",\n      \"Working Directory\": \""@ + repo_dir(
        worktree_base,
        slug,
        repo.name@,
    ) + "\",\n"@ + match serve_command(repo, vars, ports, i) {
        Some(c) => "      \"Initial Text\": \""@ + json_escape(c) + "\",\n"@,
        None => Seq::<char>::empty(),
    } + "      \"Custom Directory\": \"Yes\"\n    }"@
}

/// The profiles of the first `n` repos, separated by `",\n"`.
pub open spec fn profiles(
    slug: Seq<char>,
    worktree_base: Seq<char>,
    repos: Seq<RepoConfig>,
    ports: Seq<u16>,
    vars: Seq<(Seq<char>, Seq<char>)>,
    n: nat,
) -> Seq<char>
    decreases n,
{
    if n == 0 {
        Seq::<char>::empty()
    } else if n == 1 {
        profile(slug, worktree_base, repos[0], 0, ports, vars)
    } else {
        profiles(slug, worktree_base, repos, ports, vars, (n - 1) as nat) + ",\n"@ + profile(
            slug,
            worktree_base,
            repos[n - 1],
            n - 1,
            ports,
            vars,
        )
    }
}

/// The dynamic profile document for a worktree.
pub open spec fn dynamic_profile(
    slug: Seq<char>,
    worktree_base: Seq<char>,
    repos: Seq<RepoConfig>,
    ports: Seq<u16>,
    vars: Seq<(Seq<char>, Seq<char>)>,
) -> Seq<char> {
    "{\n  \"Profiles\": [\n"@ + profiles(slug, worktree_base, repos, ports, vars, repos.len())
        + "\n  ]\n}"@
}

fn push_profile(
    out: &mut String,
    slug: &str,
    repo: &RepoConfig,
    worktree_base: &str,
    ports: &PortAssignment,
    vars: &VarMap,
    i: usize,
)
    ensures
        final(out)@ == old(out)@ + profile(slug@, worktree_base@, *repo, i as int, ports.repo_ports@, vars@),
{
    let ghost before = out@;
    let slug_dir = join(worktree_base, slug);
    let path = join(slug_dir.as_str(), repo.name.as_str());
    push_str(out, "    {\n      \"Name\": \"");
    push_str(out, repo.name.as_str());
    push_str(out, " · ");
    push_str(out, slug);
    push_str(out, "\",\n      \"Guid\": \"branchyard-");
    push_str(out, slug);
    push_str(out, "-");
    push_str(out, repo.name.as_str());
    push_str(out, "\",\n      \"Working Directory\": \"");
    push_str(out, path.as_str());
    push_str(out, "\",\n");
    match repo_serve_command(repo, vars, ports, i) {
        Some(cmd) => {
            let escaped = escape(cmd.as_str());
            push_str(out, "      \"Initial Text\": \"");
            push_str(out, escaped.as_str());
            push_str(out, "\",\n");
        },
        None => {},
    }
    push_str(out, "      \"Custom Directory\": \"Yes\"\n    }");
    assert(out@ =~= before + profile(slug@, worktree_base@, *repo, i as int, ports.repo_ports@, vars@));
}

/// Generates the dynamic profile JSON.
pub fn generate(
    slug: &str,
    config: &WtreeConfig,
    worktree_base: &str,
    ports: &PortAssignment,
    vars: &VarMap,
) -> (r: String)
    ensures
        r@ == dynamic_profile(slug@, worktree_base@, config.repos@, ports.repo_ports@, vars@),
{
    let mut out = String::new();
    push_str(&mut out, "{\n  \"Profiles\": [\n");
    let ghost head = out@;
    let n = config.repos.len();
    let mut i: usize = 0;
    while i < n
        invariant
            i <= n == config.repos@.len(),
            out@ == head + profiles(slug@, worktree_base@, config.repos@, ports.repo_ports@, vars@, i as nat),
        decreases n - i,
    {
        if i > 0 {
            push_str(&mut out, ",\n");
        }
        push_profile(&mut out, slug, &config.repos[i], worktree_base, ports, vars, i);
        assert(out@ =~= head + profiles(slug@, worktree_base@, config.repos@, ports.repo_ports@, vars@, (i + 1) as nat));
        i = i + 1;
    }
    push_str(&mut out, "\n  ]\n}");
    out
}

/// The plan for opening: the dynamic profile, written where iTerm2 looks for
/// it, then iTerm launched.
pub open spec fn is_open_plan(
    plan: TerminalPlan,
    home: Option<Seq<char>>,
    slug: Seq<char>,
    config: WtreeConfig,
    worktree_base: Seq<char>,
    ports: PortAssignment,
    vars: Seq<(Seq<char>, Seq<char>)>,
) -> bool {
    match plan {
        TerminalPlan::WriteConfig { path, content, app } => {
            &&& path@ == profile_path(home, slug)
            &&& content@ == dynamic_profile(slug, worktree_base, config.repos@, ports.repo_ports@, vars)
            &&& app@ == "iTerm"@
        },
        _ => false,
    }
}

/// The plan for removing: delete the dynamic profile.
pub open spec fn is_remove_plan(plan: TerminalPlan, home: Option<Seq<char>>, slug: Seq<char>) -> bool {
    match plan {
        TerminalPlan::RemoveFile { path } => path@ == profile_path(home, slug),
        _ => false,
    }
}

impl TerminalIntegration for Iterm2 {
    fn open(
        &self,
        slug: &str,
        config: &WtreeConfig,
        worktree_base: &str,
        ports: &PortAssignment,
        vars: &VarMap,
    ) -> (r: TerminalPlan)
        ensures
            is_open_plan(r, opt_view(self.home), slug@, *config, worktree_base@, *ports, vars@),
    {
        let content = generate(slug, config, worktree_base, ports, vars);
        let path = profile_path_in(opt_ref(&self.home), slug);
        TerminalPlan::WriteConfig { path, content, app: String::from_str("iTerm") }
    }

    fn remove(&self, slug: &str) -> (r: TerminalPlan)
        ensures
            is_remove_plan(r, opt_view(self.home), slug@),
    {
        TerminalPlan::RemoveFile { path: profile_path_in(opt_ref(&self.home), slug) }
    }
}


/// `remove` deletes the file that `open` wrote, for the same directory and slug.
pub proof fn lemma_remove_targets_opened_file(
    opened: TerminalPlan,
    removed: TerminalPlan,
    home: Option<Seq<char>>,
    slug: Seq<char>,
    config: WtreeConfig,
    worktree_base: Seq<char>,
    ports: PortAssignment,
    vars: Seq<(Seq<char>, Seq<char>)>,
)
    requires
        is_open_plan(opened, home, slug, config, worktree_base, ports, vars),
        is_remove_plan(removed, home, slug),
    ensures
        opened matches TerminalPlan::WriteConfig { path: written, .. } && removed matches TerminalPlan::RemoveFile { path: deleted } && written@ == deleted@,
{
}

/// Different slugs have different files, so removing one worktree's file
/// leaves every other worktree's file alone.
pub proof fn lemma_files_distinct(home: Option<Seq<char>>, s1: Seq<char>, s2: Seq<char>)
    requires
        s1 != s2,
    ensures
        profile_path(home, s1) != profile_path(home, s2),
{
    let n1 = "branchyard-"@ + s1 + ".json"@;
    let n2 = "branchyard-"@ + s2 + ".json"@;
    assert(n1[0] == 'b' && n2[0] == 'b') by {
        reveal_strlit("branchyard-");
    }
    if profile_path(home, s1) == profile_path(home, s2) {
        let dir = match home {
            Some(d) => d,
            None => "."@,
        };
        lemma_join_injective(join_path(join_path(join_path(join_path(dir, "Library"@), "Application Support"@), "iTerm2"@), "DynamicProfiles"@), n1, n2);
        lemma_affix_injective("branchyard-"@, s1, s2, ".json"@);
    }
}

proof fn lemma_profiles_contain(
    slug: Seq<char>,
    worktree_base: Seq<char>,
    repos: Seq<RepoConfig>,
    ports: Seq<u16>,
    vars: Seq<(Seq<char>, Seq<char>)>,
    n: nat,
    i: int,
)
    requires
        0 <= i < n <= repos.len(),
    ensures
        exists|k: int|
            occurs_at(
                profiles(slug, worktree_base, repos, ports, vars, n),
                profile(slug, worktree_base, repos[i], i, ports, vars),
                k,
            ),
    decreases n,
{
    let t = profile(slug, worktree_base, repos[i], i, ports, vars);
    let whole = profiles(slug, worktree_base, repos, ports, vars, n);
    if n == 1 {
        lemma_occurs_self(t);
        assert(occurs_at(whole, t, 0));
    } else {
        let prev = profiles(slug, worktree_base, repos, ports, vars, (n - 1) as nat);
        let last = profile(slug, worktree_base, repos[n - 1], n - 1, ports, vars);
        assert(whole == prev + ",\n"@ + last);
        if i == n - 1 {
            lemma_occurs_after(prev + ",\n"@, t);
            assert(occurs_at(whole, t, (prev + ",\n"@).len() as int));
        } else {
            lemma_profiles_contain(slug, worktree_base, repos, ports, vars, (n - 1) as nat, i);
            let k = choose|k: int| occurs_at(prev, t, k);
            lemma_occurs_within(prev, t, k, Seq::<char>::empty(), ",\n"@ + last);
            assert(Seq::<char>::empty() + prev + (",\n"@ + last) =~= whole);
            assert(occurs_at(whole, t, k));
        }
    }
}

/// The profile text of repo `i`, written out: named after the repo, opened in
/// the repo's worktree directory, and with the repo's serve command (escaped
/// for JSON, `{port}` set to `port`) as initial text when it has one.
pub open spec fn expected_profile(
    slug: Seq<char>,
    worktree_base: Seq<char>,
    repo: RepoConfig,
    port: u16,
    vars: Seq<(Seq<char>, Seq<char>)>,
) -> Seq<char> {
    "    {\n      \"Name\": \""@ + repo.name@ + " · "@ + slug + "\",\n      \"Guid\": \"branchyard-"@
        + slug + "-"@ + repo.name@ + "\",\n      \"Working Directory\": \""@ + join_path(
        join_path(worktree_base, slug),
        repo.name@,
    ) + "\",\n"@ + match repo.commands.serve {
        Some(c) => "      \"Initial Text\": \""@ + json_escape(
            interp(c@, put(vars, "port"@, decimal(port as nat))),
        ) + "\",\n"@,
        None => Seq::<char>::empty(),
    } + "      \"Custom Directory\": \"Yes\"\n    }"@
}

/// Every repo gets a profile named after it and opened in its worktree
/// directory; a repo with a serve command has that command as initial text,
/// with `{port}` set to the repo's own port, and a repo without one has no
/// initial text.
pub proof fn lemma_profile_starts_own_serve(
    slug: Seq<char>,
    worktree_base: Seq<char>,
    repos: Seq<RepoConfig>,
    ports: Seq<u16>,
    vars: Seq<(Seq<char>, Seq<char>)>,
    i: int,
)
    requires
        0 <= i < repos.len(),
        i < ports.len(),
    ensures
        exists|k: int|
            occurs_at(
                dynamic_profile(slug, worktree_base, repos, ports, vars),
                expected_profile(slug, worktree_base, repos[i], ports[i], vars),
                k,
            ),
{
    let head = "{\n  \"Profiles\": [\n"@;
    let tail = "\n  ]\n}"@;
    let all = profiles(slug, worktree_base, repos, ports, vars, repos.len());
    let t = profile(slug, worktree_base, repos[i], i, ports, vars);
    assert(t =~= expected_profile(slug, worktree_base, repos[i], ports[i], vars));
    lemma_profiles_contain(slug, worktree_base, repos, ports, vars, repos.len(), i);
    let k = choose|k: int| occurs_at(all, t, k);
    lemma_occurs_within(all, t, k, head, tail);
    assert(head + all + tail == dynamic_profile(slug, worktree_base, repos, ports, vars));
}
} // verus!

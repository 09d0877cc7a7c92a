//! `branchyard list`: what is shown of each active worktree.
use vstd::prelude::*;

use crate::config::RepoConfig;
use crate::ports::PortAssignment;
use crate::text::{decimal, is_ws, lemma_trimmed_id, push_str, trim_str, trimmed, u64_to_decimal};

verus! {

/// The branch of a worktree given what its branch file read as: the trimmed
/// content, or the slug when the file could not be read.
pub open spec fn branch_of(content: Option<Seq<char>>, slug: Seq<char>) -> Seq<char> {
    match content {
        Some(c) => trimmed(c),
        None => slug,
    }
}

/// Computes `branch_of`.
pub fn branch_or_slug(content: Option<&str>, slug: &str) -> (r: String)
    ensures
        r@ == branch_of(
            match content {
                Some(c) => Some(c@),
                None => None,
            },
            slug@,
        ),
{
    match content {
        Some(c) => trim_str(c),
        None => String::from_str(slug),
    }
}

/// `"<name>":<port>` for the first `n` (repo, port) pairs, separated by commas.
pub open spec fn json_ports(names: Seq<Seq<char>>, ports: Seq<u16>, n: nat) -> Seq<char>
    decreases n,
{
    if n == 0 {
        Seq::<char>::empty()
    } else {
        let item = "\""@ + names[n - 1] + "\":"@ + decimal(ports[n - 1] as nat);
        if n == 1 {
            item
        } else {
            json_ports(names, ports, (n - 1) as nat) + ","@ + item
        }
    }
}

/// The JSON object describing one worktree.
pub open spec fn json_entry_of(
    slug: Seq<char>,
    branch: Seq<char>,
    slot: u16,
    names: Seq<Seq<char>>,
    ports: Seq<u16>,
) -> Seq<char> {
    let n = if names.len() < ports.len() {
        names.len()
    } else {
        ports.len()
    };
    "{\"slug\":\""@ + slug + "\",\"branch\":\""@ + branch + "\",\"slot\":"@ + decimal(slot as nat)
        + ",\"ports\":{"@ + json_ports(names, ports, n) + "}}"@
}

/// One worktree as JSON: slug, branch, slot and the port of each repo.
pub fn json_entry(
    slug: &str,
    branch: &str,
    slot: u16,
    repos: &Vec<RepoConfig>,
    ports: &PortAssignment,
) -> (r: String)
    ensures
        r@ == json_entry_of(
            slug@,
            branch@,
            slot,
            repos@.map_values(|c: RepoConfig| c.name@),
            ports.repo_ports@,
        ),
{
    let ghost names = repos@.map_values(|c: RepoConfig| c.name@);
    let mut out = String::from_str("{\"slug\":\"");
    push_str(&mut out, slug);
    push_str(&mut out, "\",\"branch\":\"");
    push_str(&mut out, branch);
    push_str(&mut out, "\",\"slot\":");
    let d = u64_to_decimal(slot as u64);
    push_str(&mut out, d.as_str());
    push_str(&mut out, ",\"ports\":{");
    let ghost head = out@;
    let n = if repos.len() < ports.repo_ports.len() {
        repos.len()
    } else {
        ports.repo_ports.len()
    };
    let mut i: usize = 0;
    while i < n
        invariant
            i <= n,
            n == if names.len() < ports.repo_ports@.len() {
                names.len()
            } else {
                ports.repo_ports@.len()
            },
            names == repos@.map_values(|c: RepoConfig| c.name@),
            out@ == head + json_ports(names, ports.repo_ports@, i as nat),
        decreases n - i,
    {
        if i > 0 {
            push_str(&mut out, ",");
        }
        push_str(&mut out, "\"");
        push_str(&mut out, repos[i].name.as_str());
        push_str(&mut out, "\":");
        let p = u64_to_decimal(ports.repo_ports[i] as u64);
        push_str(&mut out, p.as_str());
        assert(names[i as int] == repos@[i as int].name@);
        assert(out@ =~= head + json_ports(names, ports.repo_ports@, (i + 1) as nat));
        i = i + 1;
    }
    push_str(&mut out, "}}");
    out
}

/// The items separated by commas.
pub open spec fn comma_joined(items: Seq<Seq<char>>, n: nat) -> Seq<char>
    decreases n,
{
    if n == 0 {
        Seq::<char>::empty()
    } else if n == 1 {
        items[0]
    } else {
        comma_joined(items, (n - 1) as nat) + ","@ + items[n - 1]
    }
}

/// The JSON array of the given entries.
pub fn json_list(items: &Vec<String>) -> (r: String)
    ensures
        r@ == "["@ + comma_joined(items.deep_view(), items@.len()) + "]"@,
{
    let ghost iv = items.deep_view();
    let mut out = String::from_str("[");
    let ghost head = out@;
    let n = items.len();
    let mut i: usize = 0;
    while i < n
        invariant
            i <= n == items@.len() == iv.len(),
            iv == items.deep_view(),
            out@ == head + comma_joined(iv, i as nat),
        decreases n - i,
    {
        if i > 0 {
            push_str(&mut out, ",");
        }
        push_str(&mut out, items[i].as_str());
        assert(iv[i as int] == items@[i as int]@);
        assert(out@ =~= head + comma_joined(iv, (i + 1) as nat));
        i = i + 1;
    }
    push_str(&mut out, "]");
    out
}


/// What `new` writes to the branch file, `list` and `done` read back, for a
/// branch name with no whitespace at either end.
pub proof fn lemma_branch_file_round_trip(branch: Seq<char>, slug: Seq<char>)
    requires
        branch.len() == 0 || (!is_ws(branch[0]) && !is_ws(branch.last())),
    ensures
        branch_of(Some(branch), slug) == branch,
{
    lemma_trimmed_id(branch);
}
} // verus!

//! Git worktree operations: the arguments handed to `git`, and the reading of
//! what `git status --porcelain` prints.
use vstd::prelude::*;

use crate::text::{from_chars, is_blank, lines, push_str, split_lines, to_chars, trim_str, trimmed};

verus! {

fn s(x: &str) -> (r: String)
    ensures
        r@ == x@,
{
    String::from_str(x)
}

/// `git worktree add <path> -b <branch>`: a new worktree on a new branch.
pub fn create_args(worktree_path: &str, branch: &str) -> (r: Vec<String>)
    ensures
        r.deep_view() == seq!["worktree"@, "add"@, worktree_path@, "-b"@, branch@],
{
    let mut r: Vec<String> = Vec::new();
    r.push(s("worktree"));
    r.push(s("add"));
    r.push(s(worktree_path));
    r.push(s("-b"));
    r.push(s(branch));
    assert(r.deep_view() =~= seq!["worktree"@, "add"@, worktree_path@, "-b"@, branch@]);
    r
}

/// `git worktree remove [--force] <path>`.
pub fn remove_args(worktree_path: &str, force: bool) -> (r: Vec<String>)
    ensures
        r.deep_view() == if force {
            seq!["worktree"@, "remove"@, "--force"@, worktree_path@]
        } else {
            seq!["worktree"@, "remove"@, worktree_path@]
        },
{
    let mut r: Vec<String> = Vec::new();
    r.push(s("worktree"));
    r.push(s("remove"));
    if force {
        r.push(s("--force"));
    }
    r.push(s(worktree_path));
    if force {
        assert(r.deep_view() =~= seq!["worktree"@, "remove"@, "--force"@, worktree_path@]);
    } else {
        assert(r.deep_view() =~= seq!["worktree"@, "remove"@, worktree_path@]);
    }
    r
}

/// `git status --porcelain`.
pub fn status_args() -> (r: Vec<String>)
    ensures
        r.deep_view() == seq!["status"@, "--porcelain"@],
{
    let mut r: Vec<String> = Vec::new();
    r.push(s("status"));
    r.push(s("--porcelain"));
    assert(r.deep_view() =~= seq!["status"@, "--porcelain"@]);
    r
}

/// `git branch -d <branch>`.
pub fn delete_branch_args(branch: &str) -> (r: Vec<String>)
    ensures
        r.deep_view() == seq!["branch"@, "-d"@, branch@],
{
    let mut r: Vec<String> = Vec::new();
    r.push(s("branch"));
    r.push(s("-d"));
    r.push(s(branch));
    assert(r.deep_view() =~= seq!["branch"@, "-d"@, branch@]);
    r
}

/// The error reported when a git command fails: `<what> failed: <stderr, trimmed>`.
pub fn failure_message(what: &str, stderr: &str) -> (r: String)
    ensures
        r@ == what@ + " failed: "@ + trimmed(stderr@),
{
    let mut r = s(what);
    push_str(&mut r, " failed: ");
    let t = trim_str(stderr);
    push_str(&mut r, t.as_str());
    r
}

/// The lines that are not blank, in order.
pub open spec fn non_blank(ls: Seq<Seq<char>>) -> Seq<Seq<char>>
    decreases ls.len(),
{
    if ls.len() == 0 {
        ls
    } else if trimmed(ls.last()).len() == 0 {
        non_blank(ls.drop_last())
    } else {
        non_blank(ls.drop_last()).push(ls.last())
    }
}

/// The changed files listed by `git status --porcelain`: its non-blank lines.
pub fn parse_porcelain(stdout: &str) -> (r: Vec<String>)
    ensures
        r.deep_view() == non_blank(lines(stdout@)),
{
    let v = to_chars(stdout);
    let ls = split_lines(&v);
    let ghost lv = lines(stdout@);
    let mut r: Vec<String> = Vec::new();
    let n = ls.len();
    let mut i: usize = 0;
    while i < n
        invariant
            i <= n == ls@.len() == lv.len(),
            forall|k: int| 0 <= k < n ==> #[trigger] ls@[k]@ == lv[k],
            r.deep_view() == non_blank(lv.take(i as int)),
        decreases n - i,
    {
        assert(lv.take(i + 1).drop_last() =~= lv.take(i as int));
        assert(lv.take(i + 1).last() == lv[i as int]);
        if !is_blank(&ls[i]) {
            let ghost before = r.deep_view();
            r.push(from_chars(&ls[i]));
            assert(r.deep_view() =~= before.push(lv[i as int]));
        }
        i = i + 1;
    }
    assert(lv.take(n as int) =~= lv);
    r
}

} // verus!

//! `branchyard done`: which worktrees to remove, and which processes to stop.
use vstd::prelude::*;

use crate::text::{lemma_lex_total_ordering, lex_le, lex_le_chars, lex_order, lines, parse_unsigned, parse_unsigned_chars, split_lines, to_chars, trim_chars, trimmed};

verus! {

/// The process ids listed one per line (trimmed lines that parse as `u32`).
pub open spec fn pids_of(ls: Seq<Seq<char>>) -> Seq<u32>
    decreases ls.len(),
{
    if ls.len() == 0 {
        Seq::<u32>::empty()
    } else {
        match parse_unsigned(trimmed(ls.last()), u32::MAX as nat) {
            Some(v) => pids_of(ls.drop_last()).push(v as u32),
            None => pids_of(ls.drop_last()),
        }
    }
}

/// The process ids printed by `lsof -t`.
pub fn parse_pids(stdout: &str) -> (r: Vec<u32>)
    ensures
        r@ == pids_of(lines(stdout@)),
{
    let v = to_chars(stdout);
    let ls = split_lines(&v);
    let ghost lv = lines(stdout@);
    let mut r: Vec<u32> = Vec::new();
    let n = ls.len();
    let mut i: usize = 0;
    while i < n
        invariant
            i <= n == ls@.len() == lv.len(),
            forall|k: int| 0 <= k < n ==> #[trigger] ls@[k]@ == lv[k],
            r@ == pids_of(lv.take(i as int)),
        decreases n - i,
    {
        assert(lv.take(i + 1).drop_last() =~= lv.take(i as int));
        assert(lv.take(i + 1).last() == lv[i as int]);
        let t = trim_chars(&ls[i]);
        match parse_unsigned_chars(&t, 4294967295) {
            Some(p) => {
                r.push(p);
            },
            None => {},
        }
        i = i + 1;
    }
    assert(lv.take(n as int) =~= lv);
    r
}


/// Sorts names in the order of `String` (`slice::sort`).
pub fn sort_names(names: Vec<String>) -> (r: Vec<String>)
    ensures
        r.deep_view() == names.deep_view().sort_by(lex_order()),
{
    let ghost nv = names.deep_view();
    let mut r: Vec<String> = Vec::new();
    let mut rc: Vec<Vec<char>> = Vec::new();
    let n = names.len();
    let mut i: usize = 0;
    proof {
        lemma_lex_total_ordering();
        assert(r.deep_view() =~= Seq::<Seq<char>>::empty());
        assert(nv.take(0) =~= Seq::<Seq<char>>::empty());
    }
    while i < n
        invariant
            i <= n == names@.len() == nv.len(),
            nv == names.deep_view(),
            rc@.len() == r@.len(),
            forall|k: int| 0 <= k < rc@.len() ==> #[trigger] rc@[k]@ == r.deep_view()[k],
            vstd::relations::sorted_by(r.deep_view(), lex_order()),
            r.deep_view().to_multiset() == nv.take(i as int).to_multiset(),
            vstd::relations::total_ordering(lex_order()),
        decreases n - i,
    {
        let x = names[i].clone();
        let xc = to_chars(x.as_str());
        let ghost rv = r.deep_view();
        let mut p: usize = 0;
        while p < r.len() && !lex_le_chars(&xc, &rc[p])
            invariant
                p <= r@.len() == rc@.len() == rv.len(),
                rv == r.deep_view(),
                xc@ == x@,
                forall|k: int| 0 <= k < rc@.len() ==> #[trigger] rc@[k]@ == rv[k],
                forall|k: int| 0 <= k < p ==> lex_le(#[trigger] rv[k], x@),
                vstd::relations::total_ordering(lex_order()),
            decreases r@.len() - p,
        {
            assert(lex_order()(xc@, rv[p as int]) || lex_order()(rv[p as int], xc@));
            p = p + 1;
        }
        proof {
            if p < rv.len() {
                assert(lex_le(x@, rv[p as int]));
                assert forall|k: int| p <= k < rv.len() implies lex_le(x@, #[trigger] rv[k]) by {
                    if k > p {
                        assert(lex_order()(rv[p as int], rv[k]));
                        assert(lex_order()(x@, rv[p as int]));
                    }
                }
            }
        }
        r.insert(p, x);
        rc.insert(p, xc);
        let ghost nr = rv.insert(p as int, x@);
        assert(r.deep_view() =~= nr);
        assert forall|a: int, b: int| 0 <= a < b < nr.len() implies #[trigger] lex_order()(nr[a], nr[b]) by {
            if a < p && b == p {
            } else if a == p && b > p {
                assert(nr[b] == rv[b - 1]);
            } else if a < p && b > p {
                assert(nr[b] == rv[b - 1]);
                assert(lex_order()(rv[a], rv[b - 1]));
            } else if b < p {
                assert(lex_order()(rv[a], rv[b]));
            } else {
                assert(nr[a] == rv[a - 1] && nr[b] == rv[b - 1]);
                assert(lex_order()(rv[a - 1], rv[b - 1]));
            }
        }
        proof {
            vstd::seq_lib::to_multiset_insert(rv, p as int, x@);
            assert(nv.take(i + 1) =~= nv.take(i as int).push(nv[i as int]));
            assert(nv[i as int] == names@[i as int]@);
            vstd::seq_lib::to_multiset_build(nv.take(i as int), nv[i as int]);
        }
        i = i + 1;
    }
    proof {
        assert(nv.take(n as int) =~= nv);
        nv.lemma_sort_by_ensures(lex_order());
        vstd::seq_lib::lemma_sorted_unique(r.deep_view(), nv.sort_by(lex_order()), lex_order());
    }
    r
}

/// How many of a repo's uncommitted changes are listed (at most five), and
/// how many are only counted.
pub fn change_preview(count: usize) -> (r: (usize, usize))
    ensures
        r.0 == if count < 5 {
            count
        } else {
            5
        },
        r.0 + r.1 == count,
{
    if count < 5 {
        (count, 0)
    } else {
        (5, count - 5)
    }
}

/// The plural ending of "file": none for one, `s` otherwise.
pub fn file_suffix(count: usize) -> (r: String)
    ensures
        r@ == if count == 1 {
            ""@
        } else {
            "s"@
        },
{
    if count == 1 {
        String::from_str("")
    } else {
        String::from_str("s")
    }
}
} // verus!

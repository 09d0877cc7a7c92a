//! The decisions and texts behind each `branchyard` subcommand.
use vstd::prelude::*;

use crate::ports::{interp, interpolate, VarMap};

pub mod done;
pub mod init;
pub mod list;
pub mod new;
pub mod serve;

verus! {

/// Number of bytes of the UTF-8 encoding (what `str::len` counts).
pub open spec fn byte_len(s: Seq<char>) -> nat {
    (vstd::utf8::encode_utf8(s).len() as usize) as nat
}

/// The largest byte length among the first `n` names (0 when `n` is 0).
pub open spec fn widest(names: Seq<Seq<char>>, n: nat) -> nat
    decreases n,
{
    if n == 0 {
        0
    } else {
        let w = widest(names, (n - 1) as nat);
        let b = byte_len(names[n - 1]);
        if b > w {
            b
        } else {
            w
        }
    }
}

/// Width of a table column: the longest name (or `empty` when there are no
/// names), and at least `min`.
pub open spec fn column_width_of(names: Seq<Seq<char>>, empty: nat, min: nat) -> nat {
    let w = if names.len() == 0 {
        empty
    } else {
        widest(names, names.len())
    };
    if w > min {
        w
    } else {
        min
    }
}

/// Computes `column_width_of`.
pub fn column_width(names: &Vec<String>, empty: usize, min: usize) -> (r: usize)
    ensures
        r == column_width_of(names.deep_view(), empty as nat, min as nat),
{
    let ghost dv = names.deep_view();
    let n = names.len();
    let mut w: usize = 0;
    let mut i: usize = 0;
    while i < n
        invariant
            i <= n == names@.len() == dv.len(),
            dv == names.deep_view(),
            w == widest(dv, i as nat),
        decreases n - i,
    {
        let b = names[i].as_str().len();
        assert(dv[i as int] == names@[i as int]@);
        if b > w {
            w = b;
        }
        i = i + 1;
    }
    let v = if n == 0 {
        empty
    } else {
        w
    };
    if v > min {
        v
    } else {
        min
    }
}

/// Hook commands, each interpolated with the variables.
pub fn hook_commands(hooks: &Vec<String>, vars: &VarMap) -> (r: Vec<String>)
    ensures
        r@.len() == hooks@.len(),
        forall|i: int| 0 <= i < hooks@.len() ==> #[trigger] r@[i]@ == interp(hooks@[i]@, vars@),
{
    let mut r: Vec<String> = Vec::new();
    let n = hooks.len();
    let mut i: usize = 0;
    while i < n
        invariant
            i <= n == hooks@.len(),
            r@.len() == i,
            forall|k: int| 0 <= k < i ==> #[trigger] r@[k]@ == interp(hooks@[k]@, vars@),
        decreases n - i,
    {
        r.push(interpolate(hooks[i].as_str(), vars));
        i = i + 1;
    }
    r
}

} // verus!

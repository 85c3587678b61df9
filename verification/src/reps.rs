//! Small repetition helpers: counting, summing and joining repeated
//! items.

use vstd::prelude::*;
use vstd::string::StringExecFns;

verus! {

/// The sum of the first `n` entries.
pub open spec fn sum_upto(s: Seq<i64>, n: int) -> int
    decreases n,
{
    if n <= 0 {
        0
    } else {
        sum_upto(s, n - 1) + s[n - 1]
    }
}

/// The number of items.
pub fn rep_count(v: &Vec<i64>) -> (r: usize)
    ensures
        r == v@.len(),
{
    v.len()
}

/// The exact sum of the items, which must be small enough for every
/// partial sum to fit the machine word.
pub fn rep_sum(v: &Vec<i64>) -> (r: i64)
    requires
        forall|k: int| 0 <= k < v@.len() ==> -0x1_0000 <= #[trigger] v@[k] <= 0x1_0000,
        v@.len() <= 0x1_0000,
    ensures
        r as int == sum_upto(v@, v@.len() as int),
{
    let mut acc: i64 = 0;
    let mut i: usize = 0;
    while i < v.len()
        invariant
            0 <= i <= v@.len(),
            v@.len() <= 0x1_0000,
            forall|k: int| 0 <= k < v@.len() ==> -0x1_0000 <= #[trigger] v@[k] <= 0x1_0000,
            acc as int == sum_upto(v@, i as int),
        decreases v@.len() - i,
    {
        proof {
            lemma_sum_tight(v@, i as int);
            assert((i as int) * 0x1_0000 <= 0x1_0000_0000) by (nonlinear_arith)
                requires
                    0 <= i as int <= 0x1_0000,
            ;
        }
        acc = acc + v[i];
        i = i + 1;
    }
    acc
}

/// Partial sums of bounded entries are bounded by the count times the
/// bound.
proof fn lemma_sum_tight(s: Seq<i64>, n: int)
    requires
        forall|k: int| 0 <= k < s.len() ==> -0x1_0000 <= #[trigger] s[k] <= 0x1_0000,
        0 <= n <= s.len(),
    ensures
        -(n * 0x1_0000) <= sum_upto(s, n) <= n * 0x1_0000,
    decreases n,
{
    if n > 0 {
        lemma_sum_tight(s, n - 1);
        assert((n - 1) * 0x1_0000 + 0x1_0000 == n * 0x1_0000) by (nonlinear_arith);
    }
}

/// The string made of `n` copies of `s` joined by `sep`: empty for no
/// copies, and one more `sep` and `s` for each copy after the first.
pub open spec fn joined(s: Seq<char>, sep: Seq<char>, n: int) -> Seq<char>
    decreases n,
{
    if n <= 0 {
        Seq::empty()
    } else if n == 1 {
        s
    } else {
        joined(s, sep, n - 1) + sep + s
    }
}

/// Joins `n` copies of `s` with `sep` between them.
pub fn rep_join(s: &str, sep: &str, n: usize) -> (r: String)
    ensures
        r@ == joined(s@, sep@, n as int),
{
    let mut out = String::new();
    let mut i: usize = 0;
    while i < n
        invariant
            0 <= i <= n,
            out@ == joined(s@, sep@, i as int),
        decreases n - i,
    {
        if i > 0 {
            out.append(sep);
        }
        out.append(s);
        i = i + 1;
    }
    out
}

/// Adds `d` onto every entry.
pub fn rep_bump(v: &mut Vec<usize>, d: usize)
    requires
        forall|k: int| 0 <= k < old(v)@.len() ==> #[trigger] old(v)@[k] + d <= usize::MAX,
    ensures
        final(v)@.len() == old(v)@.len(),
        forall|k: int| 0 <= k < final(v)@.len() ==> #[trigger] final(v)@[k] == old(v)@[k] + d,
{
    let mut i: usize = 0;
    while i < v.len()
        invariant
            0 <= i <= v@.len(),
            v@.len() == old(v)@.len(),
            forall|k: int| 0 <= k < old(v)@.len() ==> #[trigger] old(v)@[k] + d <= usize::MAX,
            forall|k: int| 0 <= k < i ==> #[trigger] v@[k] == old(v)@[k] + d,
            forall|k: int| i <= k < v@.len() ==> #[trigger] v@[k] == old(v)@[k],
        decreases v@.len() - i,
    {
        let t = v[i] + d;
        v.set(i, t);
        i = i + 1;
    }
}

} // verus!

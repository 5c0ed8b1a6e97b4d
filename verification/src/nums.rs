//! Saturating sums over size lists. File sizes come from metadata or from an
//! untrusted peer, so totals clamp at the largest representable value rather
//! than overflow.

use vstd::prelude::*;

verus! {

/// The mathematical sum of `s[from..to]`.
pub open spec fn sum_range(s: Seq<u64>, from: int, to: int) -> int
    decreases to - from,
{
    if from < 0 || to > s.len() || from >= to {
        0
    } else {
        s[from] + sum_range(s, from + 1, to)
    }
}

/// The sum of `s[from..]`, clamped at `u64::MAX`.
pub open spec fn sum_sat(s: Seq<u64>, from: int) -> int {
    if sum_range(s, from, s.len() as int) > u64::MAX {
        u64::MAX as int
    } else {
        sum_range(s, from, s.len() as int)
    }
}

proof fn lemma_sum_range_snoc(s: Seq<u64>, from: int, to: int)
    requires
        0 <= from < to <= s.len(),
    ensures
        sum_range(s, from, to) == sum_range(s, from, to - 1) + s[to - 1],
    decreases to - from,
{
    if from < to - 1 {
        lemma_sum_range_snoc(s, from + 1, to);
    } else {
        assert(sum_range(s, from + 1, to) == 0);
        assert(sum_range(s, from, to - 1) == 0);
    }
}

/// Adds up `v[from..]`, clamping at `u64::MAX` instead of overflowing.
pub fn saturating_sum_from(v: &Vec<u64>, from: usize) -> (r: u64)
    ensures
        r == sum_sat(v@, from as int),
{
    let mut acc: u64 = 0;
    let mut i: usize = from;
    if i > v.len() {
        return 0;
    }
    while i < v.len()
        invariant
            from <= i <= v.len(),
            acc == if sum_range(v@, from as int, i as int) > u64::MAX {
                u64::MAX as int
            } else {
                sum_range(v@, from as int, i as int)
            },
        decreases v.len() - i,
    {
        proof {
            lemma_sum_range_snoc(v@, from as int, i + 1);
        }
        acc = acc.saturating_add(v[i]);
        i += 1;
    }
    acc
}

} // verus!

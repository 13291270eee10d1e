//! Milliunit arithmetic: exact fixed-point amounts stored as signed
//! 64-bit integers in 1/1000 of the currency unit.

use vstd::prelude::*;

verus! {

/// A mathematical amount that can be stored in an `i64` field.
pub open spec fn fits_i64(x: int) -> bool {
    i64::MIN <= x <= i64::MAX
}

/// The sum of a sequence of milliunit amounts, as a mathematical integer.
pub open spec fn seq_sum(s: Seq<i64>) -> int
    decreases s.len(),
{
    if s.len() == 0 {
        0
    } else {
        seq_sum(s.drop_last()) + s.last()
    }
}

/// Exact addition of two milliunit amounts.
pub fn milli_add(a: i64, b: i64) -> (r: i64)
    requires
        fits_i64(a + b),
    ensures
        r == a + b,
{
    a + b
}

/// Exact subtraction of two milliunit amounts.
pub fn milli_sub(a: i64, b: i64) -> (r: i64)
    requires
        fits_i64(a - b),
    ensures
        r == a - b,
{
    a - b
}

/// Exact negation of a milliunit amount.
pub fn milli_neg(a: i64) -> (r: i64)
    requires
        a != i64::MIN,
    ensures
        r == -a,
{
    -a
}

/// The share that position `i` receives when `total` milliunits are
/// split over `parts` periods: an even floor division, with the
/// remainder handed out as one extra milliunit to each of the first
/// `total % parts` positions.
pub open spec fn split_share(total: int, parts: int, i: int) -> int {
    total / parts + if i < total % parts { 1int } else { 0int }
}

/// Splits a non-negative amount over `parts` periods so that the parts
/// sum back to the whole: each part is the floor of the even share, and
/// the remainder goes, one milliunit each, to the earliest parts.
pub fn split_evenly(total: i64, parts: usize) -> (r: Vec<i64>)
    requires
        total >= 0,
        1 <= parts,
        (parts as int) < 0x8000_0000_0000_0000,
    ensures
        r@.len() == parts,
        forall|i: int| 0 <= i < parts ==> r@[i] == split_share(total as int, parts as int, i),
{
    let p: i64 = parts as i64;
    let q: i64 = total / p;
    let rem: i64 = total % p;
    let mut out: Vec<i64> = Vec::new();
    let mut i: usize = 0;
    proof {
        assert(q <= total) by (nonlinear_arith)
            requires total >= 0 && p >= 1 && q == total / p;
        assert(q >= 0 && rem >= 0) by (nonlinear_arith)
            requires total >= 0 && p >= 1 && q == total / p && rem == total % p;
    }
    while i < parts
        invariant
            0 <= i <= parts,
            (parts as int) < 0x8000_0000_0000_0000,
            p == parts as i64,
            q == total as int / parts as int,
            rem == total as int % parts as int,
            0 <= q <= total,
            0 <= rem < p,
            out@.len() == i,
            forall|j: int| 0 <= j < i ==> out@[j] == split_share(total as int, parts as int, j),
        decreases parts - i,
    {
        if (i as i64) < rem {
            proof {
                assert(p >= 2) by (nonlinear_arith)
                    requires rem == total as int % (p as int) && (i as int) < rem && p >= 1;
                assert(q < i64::MAX) by (nonlinear_arith)
                    requires 0 <= total <= i64::MAX && p >= 2 && q == total as int / (p as int);
            }
            out.push(q + 1);
        } else {
            out.push(q);
        }
        i = i + 1;
    }
    out
}

/// The first `k` shares of an even split sum to `k * (total / parts)`
/// plus one extra milliunit for each remainder position below `k`.
proof fn lemma_split_prefix_sum(total: int, parts: int, s: Seq<i64>, k: int)
    requires
        total >= 0,
        parts >= 1,
        s.len() == parts,
        forall|i: int| 0 <= i < parts ==> s[i] == split_share(total, parts, i),
        0 <= k <= parts,
    ensures
        seq_sum(s.take(k)) == k * (total / parts) + (if k <= total % parts {
            k
        } else {
            total % parts
        }),
    decreases k,
{
    if k == 0 {
        assert(s.take(0).len() == 0);
    } else {
        lemma_split_prefix_sum(total, parts, s, k - 1);
        assert(s.take(k).drop_last() =~= s.take(k - 1));
        assert(s.take(k).last() == s[k - 1]);
        assert(k * (total / parts) == (k - 1) * (total / parts) + total / parts)
            by (nonlinear_arith);
    }
}

/// Splitting an amount evenly loses nothing: the shares of
/// `split_evenly` sum back to the whole amount, bit-exact.
pub proof fn lemma_split_evenly_total(total: int, parts: int, s: Seq<i64>)
    requires
        total >= 0,
        parts >= 1,
        s.len() == parts,
        forall|i: int| 0 <= i < parts ==> s[i] == split_share(total, parts, i),
    ensures
        seq_sum(s) == total,
{
    lemma_split_prefix_sum(total, parts, s, parts);
    assert(s.take(parts as int) =~= s);
    assert(total % parts < parts && total % parts >= 0) by (nonlinear_arith)
        requires total >= 0 && parts >= 1;
    assert(parts * (total / parts) + total % parts == total) by (nonlinear_arith)
        requires parts >= 1;
}

} // verus!

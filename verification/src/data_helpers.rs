//! Frame shaping utilities: resampling a magnitude array to an arbitrary
//! output length and rescaling it against a maximum.
//!
//! Magnitudes are binary fixed-point numbers held in `u64`: the value 1 is
//! `FIXED_ONE`, so 32 bits of fraction are available below it.  Every
//! function here states its result exactly, as truncated integer arithmetic
//! over that representation.

use vstd::prelude::*;

verus! {

use vstd::arithmetic::div_mod::{
    lemma_basic_div, lemma_div_is_ordered, lemma_div_multiples_vanish,
    lemma_div_multiples_vanish_fancy, lemma_div_plus_one, lemma_div_pos_is_pos,
    lemma_fundamental_div_mod,
};
use vstd::arithmetic::mul::{lemma_mul_inequality, lemma_mul_upper_bound};
use vstd::pervasive::VecAdditionalExecFns;

/// The fixed-point representation of the magnitude 1.0: 32 fraction bits.
pub const FIXED_ONE: u64 = 0x1_0000_0000;

/// The largest magnitude a cell can hold.
pub const MAG_MAX: u64 = 0xffff_ffff_ffff_ffff;

/// Boundary of run `i` when an input of length `len` is partitioned into `n`
/// contiguous runs: the nearest integer to `len * i / n`, halves rounding up.
pub open spec fn run_boundary(len: int, n: int, i: int) -> int {
    (2 * len * i + n) / (2 * n)
}

/// Sum of a sequence of magnitudes, as an unbounded integer.
pub open spec fn seq_sum(s: Seq<u64>) -> int
    decreases s.len(),
{
    if s.len() == 0 {
        0
    } else {
        seq_sum(s.drop_last()) + s.last()
    }
}

/// The truncated arithmetic mean of run `i` of `s` partitioned into `n` runs.
pub open spec fn run_mean(s: Seq<u64>, n: int, i: int) -> int {
    let lo = run_boundary(s.len() as int, n, i);
    let hi = run_boundary(s.len() as int, n, i + 1);
    seq_sum(s.subrange(lo, hi)) / (hi - lo)
}

proof fn lemma_run_boundary_zero(len: int, n: int)
    requires
        1 <= n,
        0 <= len,
    ensures
        run_boundary(len, n, 0) == 0,
{
    assert(2 * len * 0 == 0) by (nonlinear_arith);
    lemma_basic_div(n, 2 * n);
}

proof fn lemma_run_boundary_full(len: int, n: int)
    requires
        1 <= n,
        0 <= len,
    ensures
        run_boundary(len, n, n) == len,
{
    assert(2 * len * n + n == (2 * n) * len + n) by (nonlinear_arith);
    lemma_div_multiples_vanish_fancy(len, n, 2 * n);
}

proof fn lemma_run_boundary_ordered(len: int, n: int, i: int, j: int)
    requires
        1 <= n,
        0 <= len,
        0 <= i <= j,
    ensures
        run_boundary(len, n, i) <= run_boundary(len, n, j),
{
    assert(2 * len * i <= 2 * len * j) by (nonlinear_arith)
        requires 0 <= len && i <= j;
    lemma_div_is_ordered(2 * len * i + n, 2 * len * j + n, 2 * n);
}

proof fn lemma_run_boundary_step(len: int, n: int, i: int)
    requires
        1 <= n <= len,
        0 <= i,
    ensures
        run_boundary(len, n, i) + 1 <= run_boundary(len, n, i + 1),
{
    let a = 2 * len * i + n;
    assert(2 * len * (i + 1) + n == a + 2 * len) by (nonlinear_arith)
        requires a == 2 * len * i + n;
    lemma_div_is_ordered(a + 2 * n, a + 2 * len, 2 * n);
    lemma_div_plus_one(a, 2 * n);
}

/// Boundaries that are `j - i` steps apart differ by at least `j - i`.
proof fn lemma_run_boundary_gap(len: int, n: int, i: int, j: int)
    requires
        1 <= n <= len,
        0 <= i <= j,
    ensures
        run_boundary(len, n, i) + (j - i) <= run_boundary(len, n, j),
    decreases j - i,
{
    if i < j {
        lemma_run_boundary_gap(len, n, i, j - 1);
        lemma_run_boundary_step(len, n, j - 1);
    }
}

/// Each boundary with index `i <= n` lies between `i` and `len`.
proof fn lemma_run_boundary_in_range(len: int, n: int, i: int)
    requires
        1 <= n <= len,
        0 <= i <= n,
    ensures
        i <= run_boundary(len, n, i) <= len,
{
    lemma_run_boundary_zero(len, n);
    lemma_run_boundary_gap(len, n, 0, i);
    lemma_run_boundary_ordered(len, n, i, n);
    lemma_run_boundary_full(len, n);
}

/// The rounded boundary can be computed from the truncated quotient and
/// remainder of `len * i / n`: round up exactly when twice the remainder
/// reaches the divisor.
proof fn lemma_run_boundary_formula(len: int, n: int, i: int)
    requires
        1 <= n,
        0 <= len,
        0 <= i,
    ensures
        ({
            let q = (len * i) / n;
            let r = (len * i) % n;
            run_boundary(len, n, i) == q + if 2 * r >= n { 1int } else { 0int }
        }),
{
    let q = (len * i) / n;
    let r = (len * i) % n;
    lemma_fundamental_div_mod(len * i, n);
    assert(0 <= r < n);
    assert(0 <= q) by {
        lemma_div_pos_is_pos(len * i, n);
        assert(0 <= len * i) by (nonlinear_arith)
            requires 0 <= len && 0 <= i;
    }
    if 2 * r >= n {
        assert(2 * len * i + n == (2 * n) * (q + 1) + (2 * r - n)) by (nonlinear_arith)
            requires len * i == n * q + r;
        lemma_div_multiples_vanish_fancy(q + 1, 2 * r - n, 2 * n);
    } else {
        assert(2 * len * i + n == (2 * n) * q + (2 * r + n)) by (nonlinear_arith)
            requires len * i == n * q + r;
        lemma_div_multiples_vanish_fancy(q, 2 * r + n, 2 * n);
    }
}

fn run_boundary_exec(len: usize, n: usize, i: usize) -> (r: usize)
    requires
        1 <= n <= len,
        i <= n,
    ensures
        r as int == run_boundary(len as int, n as int, i as int),
        r <= len,
{
    proof {
        lemma_mul_upper_bound(len as int, u64::MAX as int, i as int, u64::MAX as int);
    }
    let li: u128 = (len as u128) * (i as u128);
    let q0: u128 = li / (n as u128);
    let r0: u128 = li % (n as u128);
    let bump: u128 = if 2 * r0 >= n as u128 {
        1
    } else {
        0
    };
    proof {
        lemma_run_boundary_formula(len as int, n as int, i as int);
        lemma_run_boundary_in_range(len as int, n as int, i as int);
    }
    (q0 + bump) as usize
}

/// Extending a subrange by one element adds that element to its sum.
proof fn lemma_seq_sum_extend(s: Seq<u64>, lo: int, hi: int)
    requires
        0 <= lo <= hi < s.len(),
    ensures
        seq_sum(s.subrange(lo, hi + 1)) == seq_sum(s.subrange(lo, hi)) + s[hi],
{
    let a = s.subrange(lo, hi + 1);
    assert(a.drop_last() =~= s.subrange(lo, hi));
}

/// A sum of magnitudes is at most the count of cells times the largest value.
proof fn lemma_seq_sum_bounds(s: Seq<u64>)
    ensures
        0 <= seq_sum(s) <= s.len() * (MAG_MAX as int),
    decreases s.len(),
{
    if s.len() == 0 {
    } else {
        lemma_seq_sum_bounds(s.drop_last());
        assert((s.len() - 1) * (MAG_MAX as int) + (MAG_MAX as int) == s.len() * (MAG_MAX as int))
            by (nonlinear_arith);
    }
}

/// The truncated mean of a nonempty run of magnitudes fits in a magnitude cell.
proof fn lemma_mean_fits(s: Seq<u64>)
    requires
        s.len() >= 1,
    ensures
        0 <= seq_sum(s) / (s.len() as int) <= MAG_MAX as int,
{
    lemma_seq_sum_bounds(s);
    let w = s.len() as int;
    lemma_div_is_ordered(seq_sum(s), w * (MAG_MAX as int), w);
    lemma_div_multiples_vanish(MAG_MAX as int, w);
    assert(w * (MAG_MAX as int) == (MAG_MAX as int) * w) by (nonlinear_arith);
    lemma_div_pos_is_pos(seq_sum(s), w);
}

/// Shrink `items` in place to exactly `n` cells: the input is partitioned
/// into `n` contiguous runs whose boundaries are the nearest integers to
/// `len * i / n`, and each run is replaced by its truncated arithmetic mean.
pub fn shrink_by_averaging(items: &mut Vec<u64>, n: usize)
    requires
        1 <= n <= old(items).len(),
    ensures
        final(items)@.len() == n as int,
        forall|i: int|
            0 <= i < n as int ==> final(items)@[i] == run_mean(old(items)@, n as int, i),
{
    let ghost orig = items@;
    let len: usize = items.len();
    let mut i: usize = 0;
    while i < n
        invariant
            1 <= n <= len,
            0 <= i <= n,
            items@.len() == len as int,
            orig.len() == len as int,
            forall|k: int| i as int <= k < len as int ==> items@[k] == orig[k],
            forall|k: int| 0 <= k < i as int ==> items@[k] == run_mean(orig, n as int, k),
        decreases n - i,
    {
        let start: usize = run_boundary_exec(len, n, i);
        let end: usize = run_boundary_exec(len, n, i + 1);
        proof {
            lemma_run_boundary_step(len as int, n as int, i as int);
            lemma_run_boundary_zero(len as int, n as int);
            lemma_run_boundary_gap(len as int, n as int, 0, i as int);
        }
        let mut sum: u128 = 0;
        let mut j: usize = start;
        while j < end
            invariant
                i as int <= start as int <= j as int <= end as int <= len as int,
                items@.len() == len as int,
                orig.len() == len as int,
                forall|k: int| i as int <= k < len as int ==> items@[k] == orig[k],
                sum as int == seq_sum(orig.subrange(start as int, j as int)),
                sum as int <= (j - start) * (MAG_MAX as int),
            decreases end - j,
        {
            proof {
                lemma_seq_sum_extend(orig, start as int, j as int);
                lemma_mul_upper_bound(
                    (j - start) as int, u64::MAX as int, MAG_MAX as int, MAG_MAX as int,
                );
                assert(((j - start) + 1) * (MAG_MAX as int)
                    == (j - start) * (MAG_MAX as int) + (MAG_MAX as int)) by (nonlinear_arith);
            }
            sum = sum + items[j] as u128;
            j += 1;
        }
        let width: usize = end - start;
        proof {
            lemma_mean_fits(orig.subrange(start as int, end as int));
        }
        let mean: u64 = (sum / width as u128) as u64;
        items.set(i, mean);
        i += 1;
    }
    items.truncate(n);
    proof {
        assert(forall|k: int| 0 <= k < n as int ==> items@[k] == run_mean(orig, n as int, k));
    }
}

/// Accumulated width of the first `i` runs of a length-`len` input
/// partitioned into `n` runs.
pub open spec fn run_width_sum(len: int, n: int, i: int) -> int
    decreases i,
{
    if i <= 0 {
        0
    } else {
        run_width_sum(len, n, i - 1) + (run_boundary(len, n, i) - run_boundary(len, n, i - 1))
    }
}

/// Law: for every input length `len` and target `n` with `len >= n >= 1`,
/// the runs used by `shrink_by_averaging` tile the whole input: the first
/// boundary is 0, the last is `len`, every run is nonempty, and the widths
/// of all `n` runs sum to exactly `len`.
pub proof fn lemma_shrink_runs_cover(len: int, n: int)
    requires
        1 <= n <= len,
    ensures
        run_boundary(len, n, 0) == 0,
        run_boundary(len, n, n) == len,
        forall|i: int|
            0 <= i < n ==> #[trigger] run_boundary(len, n, i) < run_boundary(len, n, i + 1),
        run_width_sum(len, n, n) == len,
{
    lemma_run_boundary_zero(len, n);
    lemma_run_boundary_full(len, n);
    assert forall|i: int| 0 <= i < n
        implies #[trigger] run_boundary(len, n, i) < run_boundary(len, n, i + 1) by {
        lemma_run_boundary_step(len, n, i);
    }
    lemma_run_width_sum_telescopes(len, n, n);
}

proof fn lemma_run_width_sum_telescopes(len: int, n: int, i: int)
    requires
        1 <= n <= len,
        0 <= i <= n,
    ensures
        run_width_sum(len, n, i) == run_boundary(len, n, i) - run_boundary(len, n, 0),
    decreases i,
{
    if i > 0 {
        lemma_run_width_sum_telescopes(len, n, i - 1);
    }
}

/// Law: shrinking an input whose length already equals the target returns
/// the input itself, so re-applying `shrink_by_averaging` with the same
/// target size leaves its output unchanged.
pub proof fn lemma_shrink_identity_at_target(s: Seq<u64>, n: int)
    requires
        s.len() == n,
        1 <= n,
    ensures
        forall|i: int| 0 <= i < n ==> run_mean(s, n, i) == s[i],
{
    assert forall|i: int| 0 <= i < n implies run_mean(s, n, i) == s[i] by {
        lemma_run_boundary_at_target(s.len() as int, n, i);
        lemma_run_boundary_at_target(s.len() as int, n, i + 1);
        let sub = s.subrange(i, i + 1);
        assert(seq_sum(sub.drop_last()) == 0) by {
            assert(sub.drop_last() =~= Seq::<u64>::empty());
            assert(seq_sum(Seq::<u64>::empty()) == 0);
        }
        assert(sub.last() == s[i]);
        assert(seq_sum(sub) == s[i]);
        lemma_div_multiples_vanish(s[i] as int, 1);
        assert(1 * (s[i] as int) == s[i] as int) by (nonlinear_arith);
    }
}

proof fn lemma_run_boundary_at_target(len: int, n: int, i: int)
    requires
        len == n,
        1 <= n,
        0 <= i,
    ensures
        run_boundary(len, n, i) == i,
{
    assert(2 * len * i + n == (2 * n) * i + n) by (nonlinear_arith)
        requires len == n;
    lemma_div_multiples_vanish_fancy(i, n, 2 * n);
}


/// How many copies every input cell receives when a length-`len` input is
/// expanded to `n` cells, before extras are distributed.
pub open spec fn clone_times(len: int, n: int) -> int {
    n / len
}

/// How many cells receive one extra copy.
pub open spec fn extra_count(len: int, n: int) -> int {
    n % len
}

/// Spacing between the input indices that receive an extra copy.
pub open spec fn extra_gap(len: int, n: int) -> int {
    if n % len == 0 {
        0
    } else {
        len / (n % len)
    }
}

/// Whether input index `idx` receives one extra copy: the extras go to the
/// first `extra_count` indices that are multiples of `extra_gap`.
pub open spec fn gets_extra(len: int, n: int, idx: int) -> bool {
    &&& extra_count(len, n) > 0
    &&& idx % extra_gap(len, n) == 0
    &&& idx / extra_gap(len, n) < extra_count(len, n)
}

/// Total number of copies input index `idx` receives.
pub open spec fn rep_count(len: int, n: int, idx: int) -> int {
    clone_times(len, n) + if gets_extra(len, n, idx) {
        1int
    } else {
        0int
    }
}

/// The expansion of the first `m` cells of `s` to target length `n`.
pub open spec fn expand_prefix(s: Seq<u64>, n: int, m: int) -> Seq<u64>
    decreases m,
{
    if m <= 0 {
        Seq::empty()
    } else {
        expand_prefix(s, n, m - 1) + Seq::new(
            rep_count(s.len() as int, n, m - 1) as nat,
            |j: int| s[m - 1],
        )
    }
}

/// The expansion of `s` to target length `n`: each cell is repeated
/// `floor(n / len)` times, and the remaining `n % len` extra copies go to
/// evenly spaced cells.
pub open spec fn expanded(s: Seq<u64>, n: int) -> Seq<u64> {
    expand_prefix(s, n, s.len() as int)
}

/// Number of extras handed out among the first `m` input indices.
pub open spec fn extras_below(len: int, n: int, m: int) -> int
    decreases m,
{
    if m <= 0 {
        0
    } else {
        extras_below(len, n, m - 1) + if gets_extra(len, n, m - 1) {
            1int
        } else {
            0int
        }
    }
}

proof fn lemma_expand_prefix_len(s: Seq<u64>, n: int, m: int)
    requires
        1 <= s.len() < n,
        0 <= m <= s.len(),
    ensures
        expand_prefix(s, n, m).len() == m * clone_times(s.len() as int, n) + extras_below(
            s.len() as int,
            n,
            m,
        ),
    decreases m,
{
    let len = s.len() as int;
    let ct = clone_times(len, n);
    lemma_div_pos_is_pos(n, len);
    if m > 0 {
        lemma_expand_prefix_len(s, n, m - 1);
        assert((m - 1) * ct + ct == m * ct) by (nonlinear_arith);
    } else {
        assert(0 * ct == 0) by (nonlinear_arith);
    }
}

/// Counting the extras: among the first `m` indices, the number of extras is
/// the number of multiples of the gap below `m`, capped at `extra_count`.
proof fn lemma_extras_below_count(len: int, n: int, m: int)
    requires
        1 <= len < n,
        n % len != 0,
        0 <= m <= len,
    ensures
        ({
            let extra = extra_count(len, n);
            let gap = extra_gap(len, n);
            let mult = (m + gap - 1) / gap;
            extras_below(len, n, m) == if mult < extra {
                mult
            } else {
                extra
            }
        }),
    decreases m,
{
    let extra = extra_count(len, n);
    let gap = extra_gap(len, n);
    assert(0 < extra < len);
    assert(gap >= 1) by {
        lemma_div_is_ordered(extra, len, extra);
        assert(extra / extra == 1) by {
            lemma_div_multiples_vanish(1, extra);
            assert(extra * 1 == extra) by (nonlinear_arith);
        }
    }
    if m == 0 {
        lemma_basic_div(gap - 1, gap);
    } else {
        lemma_extras_below_count(len, n, m - 1);
        let q = (m - 1) / gap;
        let r = (m - 1) % gap;
        lemma_fundamental_div_mod(m - 1, gap);
        lemma_div_pos_is_pos(m - 1, gap);
        if r == 0 {
            // m - 1 is a multiple of the gap: the multiple count rises by one.
            assert(m - 1 + gap == gap * (q + 1) + 0) by (nonlinear_arith)
                requires m - 1 == gap * q + r && r == 0;
            lemma_div_multiples_vanish_fancy(q + 1, 0, gap);
            assert((m + gap - 1) / gap == q + 1);
            assert(m - 1 + gap - 1 == gap * q + (gap - 1)) by (nonlinear_arith)
                requires m - 1 == gap * q + r && r == 0 && gap >= 1;
            lemma_div_multiples_vanish_fancy(q, gap - 1, gap);
            assert((m - 1 + gap - 1) / gap == q);
        } else {
            // m - 1 lies between multiples: the multiple count is unchanged.
            assert(m - 1 + gap == gap * (q + 1) + r) by (nonlinear_arith)
                requires m - 1 == gap * q + r;
            lemma_div_multiples_vanish_fancy(q + 1, r, gap);
            assert((m + gap - 1) / gap == q + 1);
            assert(m - 1 + gap - 1 == gap * (q + 1) + (r - 1)) by (nonlinear_arith)
                requires m - 1 == gap * q + r && 0 < r < gap;
            lemma_div_multiples_vanish_fancy(q + 1, r - 1, gap);
            assert((m - 1 + gap - 1) / gap == q + 1);
        }
    }
}

/// All the extras are handed out by the end of the input.
proof fn lemma_extras_all_used(len: int, n: int)
    requires
        1 <= len < n,
    ensures
        extras_below(len, n, len) == extra_count(len, n),
{
    let extra = extra_count(len, n);
    if extra == 0 {
        lemma_extras_below_zero(len, n, len);
    } else {
        let gap = extra_gap(len, n);
        lemma_extras_below_count(len, n, len);
        assert(gap >= 1) by {
            lemma_div_is_ordered(extra, len, extra);
            lemma_div_multiples_vanish(1, extra);
            assert(extra * 1 == extra) by (nonlinear_arith);
        }
        lemma_fundamental_div_mod(len, extra);
        assert(gap * extra <= len) by (nonlinear_arith)
            requires
                len == extra * (len / extra) + len % extra,
                gap == len / extra,
                0 <= len % extra,
                extra > 0,
        ;
        assert((len + gap - 1) / gap >= extra) by {
            lemma_div_is_ordered(gap * extra, len + gap - 1, gap);
            lemma_div_multiples_vanish(extra, gap);
        }
    }
}

proof fn lemma_extras_below_zero(len: int, n: int, m: int)
    requires
        1 <= len,
        n % len == 0,
        0 <= m,
    ensures
        extras_below(len, n, m) == 0,
    decreases m,
{
    if m > 0 {
        lemma_extras_below_zero(len, n, m - 1);
    }
}

/// The expansion of the whole input has exactly the target length.
proof fn lemma_expanded_len(s: Seq<u64>, n: int)
    requires
        1 <= s.len() < n,
    ensures
        expanded(s, n).len() == n,
{
    let len = s.len() as int;
    lemma_expand_prefix_len(s, n, len);
    lemma_extras_all_used(len, n);
    lemma_fundamental_div_mod(n, len);
    assert(len * (n / len) == (n / len) * len) by (nonlinear_arith);
}

/// Expand `items` to a new array of exactly `n` cells: each cell is copied
/// `floor(n / len)` times, and the remaining `n mod len` extra copies are
/// distributed at even spacing across the cells.  `items` itself is left
/// unchanged.
pub fn expand_by_clone(items: &mut Vec<u64>, n: usize) -> (r: Vec<u64>)
    requires
        1 <= old(items).len() < n,
    ensures
        final(items)@ == old(items)@,
        r@ == expanded(old(items)@, n as int),
        r@.len() == n as int,
{
    let ghost s = items@;
    let len: usize = items.len();
    let ct: usize = n / len;
    let extra: usize = n % len;
    let gap: usize = if extra == 0 {
        0
    } else {
        len / extra
    };
    proof {
        if extra != 0 {
            lemma_div_is_ordered(extra as int, len as int, extra as int);
            lemma_div_multiples_vanish(1, extra as int);
            assert((extra as int) * 1 == extra as int) by (nonlinear_arith);
        }
    }
    let mut out: Vec<u64> = Vec::new();
    let mut idx: usize = 0;
    while idx < len
        invariant
            1 <= len < n,
            0 <= idx <= len,
            items@ == s,
            s.len() == len as int,
            ct as int == clone_times(len as int, n as int),
            extra as int == extra_count(len as int, n as int),
            gap as int == extra_gap(len as int, n as int),
            extra != 0 ==> gap >= 1,
            out@ == expand_prefix(s, n as int, idx as int),
            out@.len() <= idx * (ct + 1),
        decreases len - idx,
    {
        let v: u64 = items[idx];
        let ghost out_before = out@;
        let mut c: usize = 0;
        while c < ct
            invariant
                0 <= c <= ct,
                out@.len() == out_before.len() + c as int,
                out@ == out_before + Seq::new(c as nat, |j: int| v),
                out_before.len() <= idx * (ct + 1),
                idx < len < n,
                ct as int == clone_times(len as int, n as int),
            decreases ct - c,
        {
            proof {
                lemma_push_is_new_extended(out@, out_before, c as nat, v);
                lemma_expand_fits(len as int, n as int, idx as int, ct as int, c as int);
            }
            out.push(v);
            c += 1;
        }
        let gave_extra: bool = extra > 0 && idx % gap == 0 && idx / gap < extra;
        if gave_extra {
            proof {
                lemma_push_is_new_extended(out@, out_before, ct as nat, v);
                lemma_expand_fits(len as int, n as int, idx as int, ct as int, ct as int);
            }
            out.push(v);
        }
        proof {
            let li = len as int;
            let ni = n as int;
            let ii = idx as int;
            assert(gave_extra == gets_extra(li, ni, ii));
            let reps = rep_count(li, ni, ii) as nat;
            assert(out@ =~= expand_prefix(s, ni, ii + 1)) by {
                assert(expand_prefix(s, ni, ii + 1) == expand_prefix(s, ni, ii) + Seq::new(
                    reps,
                    |j: int| s[ii],
                ));
            }
            assert(out@.len() <= (ii + 1) * (ct as int + 1)) by (nonlinear_arith)
                requires
                    out@.len() == out_before.len() + rep_count(li, ni, ii),
                    out_before.len() <= ii * (ct as int + 1),
                    rep_count(li, ni, ii) <= ct as int + 1,
                    0 <= ii,
            ;
        }
        idx += 1;
    }
    proof {
        lemma_expanded_len(s, n as int);
    }
    out
}

/// Appending one more copy extends the run of fresh copies by one.
proof fn lemma_push_is_new_extended(cur: Seq<u64>, base: Seq<u64>, c: nat, v: u64)
    requires
        cur == base + Seq::new(c, |j: int| v),
    ensures
        cur.push(v) =~= base + Seq::new(c + 1, |j: int| v),
{
}

/// The output never outgrows `usize` while expanding: every prefix holds
/// fewer than `n` cells plus the copies of one more cell.
proof fn lemma_expand_fits(len: int, n: int, idx: int, ct: int, c: int)
    requires
        1 <= len < n,
        0 <= idx < len,
        ct == n / len,
        0 <= c <= ct,
    ensures
        idx * (ct + 1) + c < 2 * n,
{
    lemma_div_pos_is_pos(n, len);
    lemma_fundamental_div_mod(n, len);
    assert(1 <= ct) by {
        lemma_div_is_ordered(len, n, len);
        lemma_div_multiples_vanish(1, len);
        assert(len * 1 == len) by (nonlinear_arith);
    }
    assert(idx * (ct + 1) + c < 2 * n) by (nonlinear_arith)
        requires
            n == len * ct + n % len,
            0 <= n % len,
            0 <= idx < len,
            0 <= c <= ct,
            1 <= ct,
    ;
}

/// The largest magnitude in a sequence (0 for an empty sequence).
pub open spec fn seq_max(s: Seq<u64>) -> u64
    decreases s.len(),
{
    if s.len() == 0 {
        0u64
    } else if s.last() >= seq_max(s.drop_last()) {
        s.last()
    } else {
        seq_max(s.drop_last())
    }
}

/// `seq_max` bounds every element.
pub proof fn lemma_seq_max_is_bound(s: Seq<u64>)
    ensures
        forall|i: int| 0 <= i < s.len() ==> s[i] <= seq_max(s),
    decreases s.len(),
{
    if s.len() > 0 {
        lemma_seq_max_is_bound(s.drop_last());
        assert(forall|i: int| 0 <= i < s.len() - 1 ==> s[i] == s.drop_last()[i]);
    }
}

/// `seq_max` of a nonempty sequence is one of its elements.
pub proof fn lemma_seq_max_attained(s: Seq<u64>)
    requires
        s.len() > 0,
    ensures
        exists|i: int| 0 <= i < s.len() && s[i] == seq_max(s),
    decreases s.len(),
{
    if s.last() >= seq_max(s.drop_last()) {
        assert(s[s.len() - 1] == seq_max(s));
    } else {
        lemma_seq_max_attained(s.drop_last());
        let i = choose|i: int| 0 <= i < s.len() - 1 && s.drop_last()[i] == seq_max(s.drop_last());
        assert(s[i] == seq_max(s));
    }
}

proof fn lemma_seq_max_extend(s: Seq<u64>, m: int)
    requires
        0 <= m < s.len(),
    ensures
        seq_max(s.subrange(0, m + 1)) == if s[m] >= seq_max(s.subrange(0, m)) {
            s[m]
        } else {
            seq_max(s.subrange(0, m))
        },
{
    let a = s.subrange(0, m + 1);
    assert(a.drop_last() =~= s.subrange(0, m));
}

/// The fixed-point quotient `v / maximum`, truncated.
pub open spec fn rescaled(v: u64, maximum: u64) -> int {
    v * FIXED_ONE / maximum as int
}

/// Divide every magnitude by `maximum`, in fixed point, unless `maximum` is
/// zero, in which case the array is left untouched.
pub fn scale_to_maximum(items: &mut Vec<u64>, maximum: u64)
    requires
        maximum != 0 ==> forall|i: int|
            0 <= i < old(items)@.len() ==> old(items)@[i] * FIXED_ONE <= maximum * MAG_MAX,
    ensures
        final(items)@.len() == old(items)@.len(),
        maximum == 0 ==> final(items)@ == old(items)@,
        maximum != 0 ==> forall|i: int|
            0 <= i < old(items)@.len() ==> final(items)@[i] == rescaled(old(items)@[i], maximum),
{
    if maximum == 0 {
        return ;
    }
    let ghost orig = items@;
    let len: usize = items.len();
    let mut j: usize = 0;
    while j < len
        invariant
            0 <= j <= len,
            maximum != 0,
            items@.len() == len as int,
            orig.len() == len as int,
            forall|i: int| 0 <= i < len as int ==> orig[i] * FIXED_ONE <= maximum * MAG_MAX,
            forall|k: int| j as int <= k < len as int ==> items@[k] == orig[k],
            forall|k: int| 0 <= k < j as int ==> items@[k] == rescaled(orig[k], maximum),
        decreases len - j,
    {
        let v: u64 = items[j];
        proof {
            assert(v == orig[j as int]);
            assert(v * FIXED_ONE <= maximum * MAG_MAX);
        }
        let prod: u128 = (v as u128) * (FIXED_ONE as u128);
        let q: u128 = prod / (maximum as u128);
        proof {
            lemma_div_is_ordered(prod as int, (maximum as int) * (MAG_MAX as int), maximum as int);
            lemma_div_multiples_vanish(MAG_MAX as int, maximum as int);
        }
        items.set(j, q as u64);
        j += 1;
    }
}

/// Multiply every magnitude by the fixed-point factor `factor`.
pub fn map_multiply(items: &mut Vec<u64>, factor: u64)
    requires
        forall|i: int|
            0 <= i < old(items)@.len() ==> old(items)@[i] * factor <= FIXED_ONE * MAG_MAX,
    ensures
        final(items)@.len() == old(items)@.len(),
        forall|i: int|
            0 <= i < old(items)@.len() ==> final(items)@[i] == old(items)@[i] * factor / (
            FIXED_ONE as int),
{
    let ghost orig = items@;
    let len: usize = items.len();
    let mut j: usize = 0;
    while j < len
        invariant
            0 <= j <= len,
            items@.len() == len as int,
            orig.len() == len as int,
            forall|i: int| 0 <= i < len as int ==> orig[i] * factor <= FIXED_ONE * MAG_MAX,
            forall|k: int| j as int <= k < len as int ==> items@[k] == orig[k],
            forall|k: int| 0 <= k < j as int ==> items@[k] == orig[k] * factor / (FIXED_ONE as int),
        decreases len - j,
    {
        let v: u64 = items[j];
        proof {
            assert(v == orig[j as int]);
            assert(v * factor <= FIXED_ONE * MAG_MAX);
        }
        let prod: u128 = (v as u128) * (factor as u128);
        let q: u128 = prod / (FIXED_ONE as u128);
        proof {
            lemma_div_is_ordered(
                prod as int,
                (FIXED_ONE as int) * (MAG_MAX as int),
                FIXED_ONE as int,
            );
            lemma_div_multiples_vanish(MAG_MAX as int, FIXED_ONE as int);
        }
        items.set(j, q as u64);
        j += 1;
    }
}

/// The result of `scale`: every magnitude divided by the array's maximum,
/// or the array itself when the maximum is zero.
pub open spec fn scaled(s: Seq<u64>) -> Seq<u64> {
    if seq_max(s) == 0 {
        s
    } else {
        Seq::new(s.len(), |i: int| (rescaled(s[i], seq_max(s))) as u64)
    }
}

/// Rescale the array so that its largest magnitude becomes `FIXED_ONE`
/// exactly: divide every cell by the element-wise maximum.  An all-zero
/// array is left untouched — there is no division by zero.
pub fn scale(items: &mut Vec<u64>)
    ensures
        final(items)@ == scaled(old(items)@),
        final(items)@.len() == old(items)@.len(),
{
    let ghost orig = items@;
    let len: usize = items.len();
    let mut maximum: u64 = 0;
    let mut j: usize = 0;
    proof {
        assert(orig.subrange(0, 0) =~= Seq::<u64>::empty());
    }
    while j < len
        invariant
            0 <= j <= len,
            items@ == orig,
            orig.len() == len as int,
            maximum == seq_max(orig.subrange(0, j as int)),
        decreases len - j,
    {
        proof {
            lemma_seq_max_extend(orig, j as int);
        }
        let v: u64 = items[j];
        if v > maximum {
            maximum = v;
        }
        j += 1;
    }
    proof {
        assert(orig.subrange(0, len as int) =~= orig);
        lemma_seq_max_is_bound(orig);
        if maximum != 0 {
            assert forall|i: int| 0 <= i < orig.len() implies orig[i] * FIXED_ONE <= maximum
                * MAG_MAX by {
                lemma_mul_inequality(orig[i] as int, maximum as int, FIXED_ONE as int);
                lemma_mul_inequality(FIXED_ONE as int, MAG_MAX as int, maximum as int);
                assert(orig[i] * FIXED_ONE == orig[i] as int * (FIXED_ONE as int))
                    by (nonlinear_arith);
                assert(maximum as int * (FIXED_ONE as int) == FIXED_ONE as int * (maximum as int))
                    by (nonlinear_arith);
                assert(MAG_MAX as int * (maximum as int) == maximum * MAG_MAX) by (nonlinear_arith);
            }
        }
    }
    scale_to_maximum(items, maximum);
    proof {
        if maximum != 0 {
            assert(items@ =~= scaled(orig));
        }
    }
}

/// Law: `scale` is idempotent.  Scaling moves the largest magnitude to
/// exactly `FIXED_ONE`, and scaling by `FIXED_ONE` changes nothing, so
/// applying `scale` to an already scaled array returns it unchanged.
pub proof fn lemma_scale_idempotent(s: Seq<u64>)
    ensures
        scaled(scaled(s)) == scaled(s),
{
    let m = seq_max(s);
    if m != 0 {
        let t = scaled(s);
        lemma_seq_max_is_bound(s);
        assert(s.len() > 0) by {
            if s.len() == 0 {
                assert(seq_max(s) == 0);
            }
        }
        // Every scaled cell is at most FIXED_ONE.
        assert forall|i: int| 0 <= i < t.len() implies t[i] <= FIXED_ONE by {
            lemma_mul_inequality(s[i] as int, m as int, FIXED_ONE as int);
            lemma_div_is_ordered(s[i] * FIXED_ONE, m as int * (FIXED_ONE as int), m as int);
            lemma_div_multiples_vanish(FIXED_ONE as int, m as int);
            assert(s[i] as int * (FIXED_ONE as int) == s[i] * FIXED_ONE) by (nonlinear_arith);
        }
        // The cell holding the maximum scales to exactly FIXED_ONE.
        lemma_seq_max_attained(s);
        let w = choose|i: int| 0 <= i < s.len() && s[i] == m;
        assert(t[w] == FIXED_ONE) by {
            lemma_div_multiples_vanish(FIXED_ONE as int, m as int);
            assert(s[w] * FIXED_ONE == m as int * (FIXED_ONE as int)) by (nonlinear_arith)
                requires s[w] == m;
        }
        assert(seq_max(t) == FIXED_ONE) by {
            lemma_seq_max_is_bound(t);
            lemma_seq_max_attained(t);
        }
        assert(scaled(t) =~= t) by {
            assert forall|i: int|
                0 <= i < t.len() implies (rescaled(t[i], seq_max(t))) as u64 == t[i] by {
                lemma_div_multiples_vanish(t[i] as int, FIXED_ONE as int);
                assert(t[i] * FIXED_ONE == FIXED_ONE as int * (t[i] as int)) by (nonlinear_arith);
            }
        }
    }
}

} // verus!

//! Row layout solving: distributing a given length among children according
//! to their size rules, and placing them one after another.

use vstd::prelude::*;
use vstd::arithmetic::div_mod::lemma_fundamental_div_mod;
use crate::geom::{fits_i32, max_i, min_i, Coord, Rect, Size};
use crate::size_rules::SizeRules;

verus! {

/// `f(0) + ... + f(n - 1)`
pub open spec fn psum(f: spec_fn(int) -> int, n: int) -> int
    decreases n,
{
    if n <= 0 { 0 } else { psum(f, n - 1) + f(n - 1) }
}

/// `v` limited to the range `lo ..= hi`
pub open spec fn clamp(v: int, lo: int, hi: int) -> int {
    if v < lo { lo } else if v > hi { hi } else { v }
}

/// Minimum sizes, by index
pub open spec fn mins(s: Seq<SizeRules>) -> spec_fn(int) -> int {
    |i: int| s[i].min as int
}

/// Ideal sizes, by index
pub open spec fn ideals(s: Seq<SizeRules>) -> spec_fn(int) -> int {
    |i: int| s[i].ideal as int
}

/// Values of a sequence, by index
pub open spec fn values(v: Seq<i32>) -> spec_fn(int) -> int {
    |i: int| v[i] as int
}

/// The highest stretch rank among the first `n` rules (0 when `n == 0`)
pub open spec fn top_rank(s: Seq<SizeRules>, n: int) -> nat
    decreases n,
{
    if n <= 0 {
        0
    } else {
        let t = top_rank(s, n - 1);
        let r = s[n - 1].stretch.spec_rank();
        if r >= t { r } else { t }
    }
}

/// How many of the first `n` rules have stretch rank `rank`
pub open spec fn count_rank(s: Seq<SizeRules>, rank: nat, n: int) -> nat
    decreases n,
{
    if n <= 0 {
        0
    } else {
        count_rank(s, rank, n - 1) + if s[n - 1].stretch.spec_rank() == rank { 1nat } else { 0nat }
    }
}

/// Whether a sequence of rules can be solved: each is valid and the sum of
/// ideal sizes fits an `i32`.
pub open spec fn solvable(s: Seq<SizeRules>) -> bool {
    &&& forall|i: int| 0 <= i < s.len() ==> (#[trigger] s[i]).wf()
    &&& psum(ideals(s), s.len() as int) <= i32::MAX
}

/// The length given to child `i` when `target` is shared among rules `s`.
///
/// - When `target` covers every ideal size, each child gets its ideal size;
///   the rest is split evenly among the children of the highest stretch
///   class present, the first ones getting one more pixel each where the
///   split is uneven.
/// - Else, when `target` covers every minimum size, each child gets its
///   minimum, and the rest goes, in order, to bring children up to their
///   ideal size.
/// - Else the children get their minimum size in order while `target`
///   lasts, and nothing after.
pub open spec fn solved_width(s: Seq<SizeRules>, target: int, i: int) -> int {
    let n = s.len() as int;
    let sum_min = psum(mins(s), n);
    let sum_ideal = psum(ideals(s), n);
    if target >= sum_ideal {
        let extra = target - sum_ideal;
        let top = top_rank(s, n);
        let k = count_rank(s, top, n) as int;
        if s[i].stretch.spec_rank() == top {
            s[i].ideal + extra / k + if (count_rank(s, top, i) as int) < extra % k { 1int } else { 0int }
        } else {
            s[i].ideal as int
        }
    } else if target >= sum_min {
        let gap_before = psum(ideals(s), i) - psum(mins(s), i);
        s[i].min + clamp(target - sum_min - gap_before, 0, s[i].ideal - s[i].min)
    } else {
        clamp(target - psum(mins(s), i), 0, s[i].min as int)
    }
}

/// [`solved_width`], by index
pub open spec fn solved(s: Seq<SizeRules>, target: int) -> spec_fn(int) -> int {
    |i: int| solved_width(s, target, i)
}

proof fn lemma_psum_ext(f: spec_fn(int) -> int, g: spec_fn(int) -> int, n: int)
    requires
        forall|i: int| 0 <= i < n ==> #[trigger] f(i) == g(i),
    ensures
        psum(f, n) == psum(g, n),
    decreases n,
{
    if n > 0 {
        lemma_psum_ext(f, g, n - 1);
    }
}

proof fn lemma_psum_nonneg_mono(f: spec_fn(int) -> int, i: int, n: int)
    requires
        0 <= i <= n,
        forall|j: int| 0 <= j < n ==> #[trigger] f(j) >= 0,
    ensures
        0 <= psum(f, i) <= psum(f, n),
    decreases n,
{
    if n > 0 {
        if i < n {
            lemma_psum_nonneg_mono(f, i, n - 1);
        } else {
            lemma_psum_nonneg_mono(f, i - 1, n - 1);
        }
    }
}

proof fn lemma_term_le_psum(f: spec_fn(int) -> int, i: int, n: int)
    requires
        0 <= i < n,
        forall|j: int| 0 <= j < n ==> #[trigger] f(j) >= 0,
    ensures
        f(i) <= psum(f, n),
    decreases n,
{
    lemma_psum_nonneg_mono(f, i, n - 1);
    lemma_psum_nonneg_mono(f, n - 1, n);
    if i < n - 1 {
        lemma_term_le_psum(f, i, n - 1);
    }
}

proof fn lemma_rules_sums(s: Seq<SizeRules>, i: int)
    requires
        forall|j: int| 0 <= j < s.len() ==> (#[trigger] s[j]).wf(),
        0 <= i <= s.len(),
    ensures
        0 <= psum(mins(s), i) <= psum(mins(s), s.len() as int),
        0 <= psum(ideals(s), i) <= psum(ideals(s), s.len() as int),
        psum(mins(s), i) <= psum(ideals(s), i),
        psum(ideals(s), i) - psum(mins(s), i) <= psum(ideals(s), s.len() as int) - psum(
            mins(s),
            s.len() as int,
        ),
    decreases s.len() - i,
{
    let n = s.len() as int;
    assert forall|j: int| 0 <= j < n implies #[trigger] mins(s)(j) >= 0 by {
        assert(s[j].wf());
    }
    assert forall|j: int| 0 <= j < n implies #[trigger] ideals(s)(j) >= 0 by {
        assert(s[j].wf());
    }
    lemma_psum_nonneg_mono(mins(s), i, n);
    lemma_psum_nonneg_mono(ideals(s), i, n);
    lemma_min_le_ideal(s, i);
    if i < n {
        lemma_rules_sums(s, i + 1);
        assert(s[i].wf());
    }
}

proof fn lemma_min_le_ideal(s: Seq<SizeRules>, i: int)
    requires
        forall|j: int| 0 <= j < s.len() ==> (#[trigger] s[j]).wf(),
        0 <= i <= s.len(),
    ensures
        psum(mins(s), i) <= psum(ideals(s), i),
    decreases i,
{
    if i > 0 {
        lemma_min_le_ideal(s, i - 1);
        assert(s[i - 1].wf());
    }
}

proof fn lemma_top_rank_attained(s: Seq<SizeRules>, n: int)
    requires
        0 < n <= s.len(),
    ensures
        count_rank(s, top_rank(s, n), n) >= 1,
        forall|i: int| 0 <= i < n ==> (#[trigger] s[i].stretch.spec_rank()) <= top_rank(s, n),
    decreases n,
{
    let r = s[n - 1].stretch.spec_rank();
    if n == 1 {
        assert(top_rank(s, 0) == 0);
        assert(count_rank(s, r, 0) == 0);
        assert(top_rank(s, 1) == r);
    } else {
        lemma_top_rank_attained(s, n - 1);
        let t = top_rank(s, n - 1);
        if r > t {
            lemma_count_zero_above(s, r, n - 1);
        } else {
            assert(top_rank(s, n) == t);
            assert(count_rank(s, t, n) >= count_rank(s, t, n - 1));
        }
    }
}

proof fn lemma_count_zero_above(s: Seq<SizeRules>, rank: nat, n: int)
    requires
        0 <= n <= s.len(),
        forall|i: int| 0 <= i < n ==> (#[trigger] s[i].stretch.spec_rank()) < rank,
    ensures
        count_rank(s, rank, n) == 0,
    decreases n,
{
    if n > 0 {
        lemma_count_zero_above(s, rank, n - 1);
    }
}

proof fn lemma_count_le(s: Seq<SizeRules>, rank: nat, i: int, n: int)
    requires
        0 <= i <= n <= s.len(),
    ensures
        count_rank(s, rank, i) <= count_rank(s, rank, n),
    decreases n,
{
    if i < n {
        lemma_count_le(s, rank, i, n - 1);
    }
}

/// The widths of the "ideal plus extra" case add up.
proof fn lemma_sum_stretched(s: Seq<SizeRules>, target: int, m: int)
    requires
        s.len() > 0,
        0 <= m <= s.len(),
        target >= psum(ideals(s), s.len() as int),
    ensures
        ({
            let n = s.len() as int;
            let extra = target - psum(ideals(s), n);
            let top = top_rank(s, n);
            let k = count_rank(s, top, n) as int;
            let c = count_rank(s, top, m) as int;
            psum(solved(s, target), m) == psum(ideals(s), m) + c * (extra / k) + min_i(c, extra % k)
        }),
    decreases m,
{
    let n = s.len() as int;
    lemma_top_rank_attained(s, n);
    if m > 0 {
        lemma_sum_stretched(s, target, m - 1);
        let extra = target - psum(ideals(s), n);
        let top = top_rank(s, n);
        let k = count_rank(s, top, n) as int;
        let q = extra / k;
        let c = count_rank(s, top, m - 1) as int;
        assert(k > 0);
        assert(solved(s, target)(m - 1) == solved_width(s, target, m - 1));
        assert(ideals(s)(m - 1) == s[m - 1].ideal);
        assert(psum(solved(s, target), m) == psum(solved(s, target), m - 1) + solved_width(s, target, m - 1));
        assert(psum(ideals(s), m) == psum(ideals(s), m - 1) + s[m - 1].ideal);
        assert((c + 1) * q == c * q + q) by (nonlinear_arith);
        let rr = extra % k;
        if s[m - 1].stretch.spec_rank() == top {
            assert(count_rank(s, top, m) == c + 1);
            assert(min_i(c + 1, rr) == min_i(c, rr) + if c < rr { 1int } else { 0int });
        } else {
            assert(count_rank(s, top, m) == c);
        }
    } else {
        let extra = target - psum(ideals(s), n);
        let k = count_rank(s, top_rank(s, n), n) as int;
        assert(k > 0);
        assert(0 * (extra / k) == 0) by (nonlinear_arith);
        assert(extra % k >= 0);
    }
}

/// The widths of the "between minimum and ideal" case add up.
proof fn lemma_sum_growing(s: Seq<SizeRules>, target: int, m: int)
    requires
        forall|j: int| 0 <= j < s.len() ==> (#[trigger] s[j]).wf(),
        0 <= m <= s.len(),
        psum(mins(s), s.len() as int) <= target < psum(ideals(s), s.len() as int),
    ensures
        ({
            let n = s.len() as int;
            let t = target - psum(mins(s), n);
            psum(solved(s, target), m) == psum(mins(s), m) + min_i(
                t,
                psum(ideals(s), m) - psum(mins(s), m),
            )
        }),
    decreases m,
{
    if m > 0 {
        lemma_sum_growing(s, target, m - 1);
        assert(s[m - 1].wf());
    }
}

/// The widths of the "below minimum" case add up.
proof fn lemma_sum_shrinking(s: Seq<SizeRules>, target: int, m: int)
    requires
        forall|j: int| 0 <= j < s.len() ==> (#[trigger] s[j]).wf(),
        0 <= m <= s.len(),
        0 <= target < psum(mins(s), s.len() as int),
    ensures
        psum(solved(s, target), m) == min_i(target, psum(mins(s), m)),
    decreases m,
{
    if m > 0 {
        lemma_sum_shrinking(s, target, m - 1);
        assert(s[m - 1].wf());
        lemma_rules_sums(s, m - 1);
    }
}

/// Shared out among a non-empty valid sequence of rules, the widths are
/// each at least zero and add up to exactly `target`.
pub proof fn lemma_solved_covers(s: Seq<SizeRules>, target: int)
    requires
        s.len() > 0,
        solvable(s),
        target >= 0,
    ensures
        psum(solved(s, target), s.len() as int) == target,
        forall|i: int| 0 <= i < s.len() ==> 0 <= #[trigger] solved_width(s, target, i) <= target,
{
    let n = s.len() as int;
    lemma_rules_sums(s, n);
    if target >= psum(ideals(s), n) {
        lemma_sum_stretched(s, target, n);
        lemma_top_rank_attained(s, n);
        let k = count_rank(s, top_rank(s, n), n) as int;
        lemma_fundamental_div_mod(target - psum(ideals(s), n), k);
    } else if target >= psum(mins(s), n) {
        lemma_sum_growing(s, target, n);
    } else {
        lemma_sum_shrinking(s, target, n);
    }
    assert forall|i: int| 0 <= i < n implies 0 <= #[trigger] solved_width(s, target, i) by {
        assert(s[i].wf());
        if target >= psum(ideals(s), n) {
            lemma_top_rank_attained(s, n);
        }
    }
    assert forall|i: int| 0 <= i < n implies #[trigger] solved_width(s, target, i) <= target by {
        assert(forall|j: int| 0 <= j < n ==> #[trigger] solved(s, target)(j) == solved_width(s, target, j));
        lemma_term_le_psum(solved(s, target), i, n);
    }
}

} // verus!

verus! {

/// Share `target` among children with rules `rules` along one axis
///
/// Returns one length per child, as [`solved_width`] states; for at least one
/// child they add up to exactly `target`.
pub fn solve_seq(rules: &Vec<SizeRules>, target: i32) -> (r: Vec<i32>)
    requires
        solvable(rules@),
        target >= 0,
    ensures
        r.len() == rules.len(),
        forall|i: int| 0 <= i < r.len() ==> #[trigger] r[i] == solved_width(rules@, target as int, i),
        forall|i: int| 0 <= i < r.len() ==> 0 <= #[trigger] r[i] <= target,
        rules.len() > 0 ==> psum(values(r@), r.len() as int) == target,
{
    let ghost s = rules@;
    let n = rules.len();
    let mut out: Vec<i32> = Vec::new();
    if n == 0 {
        return out;
    }
    proof {
        lemma_solved_covers(s, target as int);
        lemma_rules_sums(s, n as int);
    }
    let mut sum_min: i64 = 0;
    let mut sum_ideal: i64 = 0;
    let mut top: u8 = 0;
    let mut i: usize = 0;
    while i < n
        invariant
            i <= n == s.len(),
            s == rules@,
            solvable(s),
            sum_min == psum(mins(s), i as int),
            sum_ideal == psum(ideals(s), i as int),
            top == top_rank(s, i as int),
            top <= 4,
        decreases n - i,
    {
        proof {
            lemma_rules_sums(s, i as int);
            lemma_rules_sums(s, i as int + 1);
        }
        let r = rules[i];
        sum_min = sum_min + r.min as i64;
        sum_ideal = sum_ideal + r.ideal as i64;
        let rank = r.stretch.rank();
        if rank >= top {
            top = rank;
        }
        i = i + 1;
    }
    let mut k: u64 = 0;
    i = 0;
    while i < n
        invariant
            i <= n == s.len(),
            s == rules@,
            k == count_rank(s, top as nat, i as int),
            k <= i,
        decreases n - i,
    {
        if rules[i].stretch.rank() == top {
            k = k + 1;
        }
        i = i + 1;
    }
    let t = target as i64;
    proof {
        lemma_top_rank_attained(s, n as int);
    }
    i = 0;
    if t >= sum_ideal {
        let extra = t - sum_ideal;
        let q = (extra as u64 / k) as i64;
        let rem = extra as u64 % k;
        let mut c: u64 = 0;
        while i < n
            invariant
                i <= n == s.len(),
                s == rules@,
                solvable(s),
                0 < k,
                t == target,
                t >= sum_ideal == psum(ideals(s), n as int),
                extra == t - sum_ideal,
                0 <= extra <= i32::MAX,
                q == extra as int / k as int,
                rem == extra as int % k as int,
                top == top_rank(s, n as int),
                k == count_rank(s, top as nat, n as int),
                c == count_rank(s, top as nat, i as int),
                out.len() == i,
                forall|j: int| 0 <= j < i ==> #[trigger] out[j] == solved_width(s, target as int, j),
                forall|j: int| 0 <= j < n ==> 0 <= #[trigger] solved_width(s, target as int, j) <= target,
            decreases n - i,
        {
            proof {
                lemma_count_le(s, top as nat, i as int + 1, n as int);
                lemma_rules_sums(s, n as int);
                assert(s[i as int].wf());
                lemma_term_le_psum(ideals(s), i as int, n as int);
            }
            let r = rules[i];
            let w: i64 = if r.stretch.rank() == top {
                let bonus: i64 = if c < rem { 1 } else { 0 };
                c = c + 1;
                r.ideal as i64 + q + bonus
            } else {
                r.ideal as i64
            };
            assert(w == solved_width(s, target as int, i as int));
            out.push(w as i32);
            i = i + 1;
        }
    } else if t >= sum_min {
        let avail = t - sum_min;
        let mut gap: i64 = 0;
        while i < n
            invariant
                i <= n == s.len(),
                s == rules@,
                solvable(s),
                t == target,
                sum_min == psum(mins(s), n as int),
                sum_min <= t < psum(ideals(s), n as int),
                avail == t - sum_min,
                gap == psum(ideals(s), i as int) - psum(mins(s), i as int),
                out.len() == i,
                forall|j: int| 0 <= j < i ==> #[trigger] out[j] == solved_width(s, target as int, j),
                forall|j: int| 0 <= j < n ==> 0 <= #[trigger] solved_width(s, target as int, j) <= target,
            decreases n - i,
        {
            proof {
                lemma_rules_sums(s, i as int);
                lemma_rules_sums(s, i as int + 1);
                assert(s[i as int].wf());
            }
            let r = rules[i];
            let room = r.ideal as i64 - r.min as i64;
            let d = avail - gap;
            let add: i64 = if d < 0 { 0 } else if d > room { room } else { d };
            let w: i64 = r.min as i64 + add;
            assert(w == solved_width(s, target as int, i as int));
            out.push(w as i32);
            gap = gap + room;
            i = i + 1;
        }
    } else {
        let mut used: i64 = 0;
        while i < n
            invariant
                i <= n == s.len(),
                s == rules@,
                solvable(s),
                t == target,
                t < sum_min == psum(mins(s), n as int),
                t < psum(ideals(s), n as int),
                used == psum(mins(s), i as int),
                out.len() == i,
                forall|j: int| 0 <= j < i ==> #[trigger] out[j] == solved_width(s, target as int, j),
                forall|j: int| 0 <= j < n ==> 0 <= #[trigger] solved_width(s, target as int, j) <= target,
            decreases n - i,
        {
            proof {
                lemma_rules_sums(s, i as int);
                lemma_rules_sums(s, i as int + 1);
                lemma_min_le_ideal(s, n as int);
                assert(s[i as int].wf());
            }
            let r = rules[i];
            let d = t - used;
            let w: i64 = if d < 0 { 0 } else if d > r.min as i64 { r.min as i64 } else { d };
            assert(w == solved_width(s, target as int, i as int));
            out.push(w as i32);
            used = used + r.min as i64;
            i = i + 1;
        }
    }
    proof {
        assert forall|j: int| 0 <= j < n implies #[trigger] values(out@)(j) == solved(s, target as int)(j) by {}
        lemma_psum_ext(values(out@), solved(s, target as int), n as int);
    }
    out
}

} // verus!

verus! {

/// Position of `r` along the main axis
pub open spec fn main_pos(r: Rect, vertical: bool) -> int {
    if vertical { r.pos.1 as int } else { r.pos.0 as int }
}

/// Extent of `r` along the main axis
pub open spec fn main_len(r: Rect, vertical: bool) -> int {
    if vertical { r.size.1 as int } else { r.size.0 as int }
}

/// `a` and `b` agree on the cross axis
pub open spec fn same_cross(a: Rect, b: Rect, vertical: bool) -> bool {
    if vertical {
        a.pos.0 == b.pos.0 && a.size.0 == b.size.0
    } else {
        a.pos.1 == b.pos.1 && a.size.1 == b.size.1
    }
}

/// Main-axis extents of a sequence of rects, by index
pub open spec fn extents(v: Seq<Rect>, vertical: bool) -> spec_fn(int) -> int {
    |i: int| main_len(v[i], vertical)
}

/// The margin between rule `i` and rule `i + 1`, by index (zero after the
/// last): the larger of the two margins that meet there
pub open spec fn gaps(s: Seq<SizeRules>) -> spec_fn(int) -> int {
    |i: int|
        if 0 <= i && i + 1 < s.len() {
            crate::size_rules::max_u16(s[i].margins.1, s[i + 1].margins.0) as int
        } else {
            0int
        }
}

/// Sum of the margins between neighbours: what placing the rules one after
/// another adds to their sizes
pub open spec fn inner_gaps(s: Seq<SizeRules>) -> int {
    psum(gaps(s), s.len() - 1)
}

/// The length left for the children themselves when `len` holds them with
/// their margins between (none when the margins alone exceed `len`)
pub open spec fn row_target(s: Seq<SizeRules>, len: int) -> int {
    if len >= inner_gaps(s) { len - inner_gaps(s) } else { 0 }
}

/// Start of child `i` along an axis starting at `start`
pub open spec fn child_start(s: Seq<SizeRules>, start: int, len: int, i: int) -> int {
    start + psum(solved(s, row_target(s, len)), i) + psum(gaps(s), i)
}

proof fn lemma_gaps_nonneg(s: Seq<SizeRules>, i: int, n: int)
    requires
        0 <= i <= n,
    ensures
        0 <= psum(gaps(s), i) <= psum(gaps(s), n),
{
    assert forall|j: int| 0 <= j < n implies #[trigger] gaps(s)(j) >= 0 by {}
    lemma_psum_nonneg_mono(gaps(s), i, n);
}

proof fn lemma_gaps_total(s: Seq<SizeRules>)
    requires
        s.len() > 0,
    ensures
        psum(gaps(s), s.len() as int) == inner_gaps(s),
{
    assert(gaps(s)(s.len() - 1) == 0);
}

/// Lay out children with rules `rules` along an axis from `start`, of
/// length `len`
///
/// The margins between neighbours are kept free; what remains of `len` is
/// shared out as [`solve_seq`] does. Returns each child's start and length.
pub fn axis_layout(start: i32, len: i32, rules: &Vec<SizeRules>) -> (r: (Vec<i32>, Vec<i32>))
    requires
        solvable(rules@),
        len >= 0,
        inner_gaps(rules@) <= i32::MAX,
        fits_i32(start + len),
        fits_i32(start + inner_gaps(rules@)),
    ensures
        r.0.len() == rules.len() && r.1.len() == rules.len(),
        forall|i: int|
            0 <= i < rules.len() ==> #[trigger] r.1[i] == solved_width(rules@, row_target(rules@, len as int), i),
        forall|i: int| 0 <= i < rules.len() ==> #[trigger] r.0[i] == child_start(rules@, start as int, len as int, i),
{
    let ghost s = rules@;
    let n = rules.len();
    let mut pos: Vec<i32> = Vec::new();
    if n == 0 {
        return (pos, Vec::new());
    }
    let mut total_gap: i64 = 0;
    let mut i: usize = 0;
    proof {
        lemma_gaps_total(s);
        lemma_gaps_nonneg(s, 0, n as int - 1);
    }
    while i + 1 < n
        invariant
            s == rules@,
            0 < n == s.len(),
            i < n,
            total_gap == psum(gaps(s), i as int),
            0 <= total_gap <= inner_gaps(s),
            inner_gaps(s) <= i32::MAX,
        decreases n - i,
    {
        proof {
            lemma_gaps_nonneg(s, i as int + 1, n as int - 1);
            lemma_gaps_nonneg(s, i as int, n as int - 1);
        }
        let g = if rules[i].margins.1 >= rules[i + 1].margins.0 {
            rules[i].margins.1
        } else {
            rules[i + 1].margins.0
        };
        total_gap = total_gap + g as i64;
        i = i + 1;
    }
    proof {
        lemma_gaps_nonneg(s, 0, n as int - 1);
    }
    let target: i32 = if len as i64 >= total_gap { (len as i64 - total_gap) as i32 } else { 0 };
    assert(total_gap == inner_gaps(s));
    let ghost t = target as int;
    let widths = solve_seq(rules, target);
    proof {
        lemma_solved_covers(s, t);
        assert forall|j: int| 0 <= j < n implies #[trigger] solved(s, t)(j) >= 0 by {
            assert(solved(s, t)(j) == solved_width(s, t, j));
        }
    }
    let mut at: i64 = start as i64;
    i = 0;
    while i < n
        invariant
            s == rules@,
            0 < n == s.len() == widths.len(),
            i <= n,
            t == target == row_target(s, len as int),
            t + inner_gaps(s) <= len || t == 0,
            0 <= t,
            inner_gaps(s) == psum(gaps(s), n as int),
            fits_i32(start + len),
            fits_i32(start + inner_gaps(s)),
            psum(solved(s, t), n as int) == t,
            forall|j: int| 0 <= j < n ==> #[trigger] solved(s, t)(j) >= 0,
            forall|j: int| 0 <= j < n ==> #[trigger] widths[j] == solved_width(s, t, j),
            at == child_start(s, start as int, len as int, i as int),
            pos.len() == i,
            forall|j: int| 0 <= j < i ==> #[trigger] pos[j] == child_start(s, start as int, len as int, j),
        decreases n - i,
    {
        proof {
            lemma_psum_nonneg_mono(solved(s, t), i as int, n as int);
            lemma_gaps_nonneg(s, i as int, n as int);
            lemma_psum_nonneg_mono(solved(s, t), i as int + 1, n as int);
            lemma_gaps_nonneg(s, i as int + 1, n as int);
        }
        pos.push(at as i32);
        let g: i64 = if i + 1 < n {
            if rules[i].margins.1 >= rules[i + 1].margins.0 {
                rules[i].margins.1 as i64
            } else {
                rules[i + 1].margins.0 as i64
            }
        } else {
            0
        };
        at = at + widths[i] as i64 + g;
        i = i + 1;
    }
    (pos, widths)
}

/// Assign rects to a row (or column, when `vertical`) of children
///
/// Children are placed one after the other from the start of `rect`, each
/// spanning `rect` along the cross axis, with the margin between each pair
/// of neighbours left free (the margins that [`sum_seq`] counts). The rest
/// of the length is shared out as [`solve_seq`] does, so where `rect` holds
/// at least the margins, the extents plus those margins add up to the length
/// of `rect`: the children cover it without overlapping.
pub fn set_row_rects(rect: Rect, vertical: bool, rules: &Vec<SizeRules>) -> (r: Vec<Rect>)
    requires
        solvable(rules@),
        main_len(rect, vertical) >= 0,
        inner_gaps(rules@) <= i32::MAX,
        fits_i32(main_pos(rect, vertical) + main_len(rect, vertical)),
        fits_i32(main_pos(rect, vertical) + inner_gaps(rules@)),
    ensures
        r.len() == rules.len(),
        forall|i: int|
            0 <= i < r.len() ==> {
                &&& main_len(#[trigger] r[i], vertical) == solved_width(
                    rules@,
                    row_target(rules@, main_len(rect, vertical)),
                    i,
                )
                &&& main_pos(r[i], vertical) == child_start(
                    rules@,
                    main_pos(rect, vertical),
                    main_len(rect, vertical),
                    i,
                )
                &&& same_cross(r[i], rect, vertical)
            },
        forall|i: int|
            0 <= i < r.len() - 1 ==> main_pos(#[trigger] r[i + 1], vertical) == main_pos(r[i], vertical)
                + main_len(r[i], vertical) + crate::size_rules::max_u16(
                rules@[i].margins.1,
                rules@[i + 1].margins.0,
            ),
        r.len() > 0 && main_len(rect, vertical) >= inner_gaps(rules@) ==> psum(
            extents(r@, vertical),
            r.len() as int,
        ) + inner_gaps(rules@) == main_len(rect, vertical),
{
    let ghost s = rules@;
    let ghost len = main_len(rect, vertical);
    let start = if vertical { rect.pos.1 } else { rect.pos.0 };
    let target = if vertical { rect.size.1 } else { rect.size.0 };
    let (pos, widths) = axis_layout(start, target, rules);
    let n = widths.len();
    assert(forall|j: int| 0 <= j < n ==> #[trigger] widths[j] == solved_width(s, row_target(s, len), j));
    assert(forall|j: int| 0 <= j < n ==> #[trigger] pos[j] == child_start(s, start as int, len, j));
    let mut out: Vec<Rect> = Vec::new();
    let mut i: usize = 0;
    while i < n
        invariant
            i <= n == widths.len() == pos.len() == s.len(),
            s == rules@,
            len == target,
            forall|j: int| 0 <= j < n ==> #[trigger] widths[j] == solved_width(s, row_target(s, len), j),
            forall|j: int| 0 <= j < n ==> #[trigger] pos[j] == child_start(s, start as int, len, j),
            out.len() == i,
            forall|j: int|
                0 <= j < i ==> {
                    &&& main_len(#[trigger] out[j], vertical) == widths[j]
                    &&& main_pos(out[j], vertical) == pos[j]
                    &&& same_cross(out[j], rect, vertical)
                },
        decreases n - i,
    {
        let child = if vertical {
            Rect { pos: Coord(rect.pos.0, pos[i]), size: Size(rect.size.0, widths[i]) }
        } else {
            Rect { pos: Coord(pos[i], rect.pos.1), size: Size(widths[i], rect.size.1) }
        };
        out.push(child);
        i = i + 1;
    }
    proof {
        let t = row_target(s, len);
        if n > 0 {
            lemma_solved_covers(s, t);
            lemma_gaps_total(s);
            assert forall|j: int| 0 <= j < n implies #[trigger] extents(out@, vertical)(j) == solved(s, t)(j) by {}
            lemma_psum_ext(extents(out@, vertical), solved(s, t), n as int);
        }
    }
    out
}
} // verus!

verus! {

/// Rules of the first `n` of `s` placed one after another (empty rules for
/// none)
pub open spec fn sum_rules(s: Seq<SizeRules>, n: int) -> SizeRules
    decreases n,
{
    if n <= 0 {
        SizeRules { min: 0, ideal: 0, margins: (0, 0), stretch: crate::size_rules::Stretch::NoStretch }
    } else if n == 1 {
        s[0]
    } else {
        crate::size_rules::appended(sum_rules(s, n - 1), s[n - 1])
    }
}

/// Whether placing the first `n` of `s` one after another stays within
/// `i32` at every step
pub open spec fn summable(s: Seq<SizeRules>, n: int) -> bool
    decreases n,
{
    if n <= 1 {
        true
    } else {
        summable(s, n - 1) && crate::size_rules::can_append(sum_rules(s, n - 1), s[n - 1])
    }
}

proof fn lemma_sum_rules_wf(s: Seq<SizeRules>, n: int)
    requires
        0 <= n <= s.len(),
        forall|i: int| 0 <= i < s.len() ==> (#[trigger] s[i]).wf(),
        summable(s, n),
    ensures
        sum_rules(s, n).wf(),
    decreases n,
{
    if n > 1 {
        lemma_summable_prefix(s, n - 1, n);
        lemma_sum_rules_wf(s, n - 1);
        assert(s[n - 1].wf());
    } else if n == 1 {
        assert(s[0].wf());
    }
}

/// Phase one of a row (or column): the rules of its children placed one
/// after another along the main axis
pub fn sum_seq(rules: &Vec<SizeRules>) -> (r: SizeRules)
    requires
        forall|i: int| 0 <= i < rules.len() ==> (#[trigger] rules[i]).wf(),
        summable(rules@, rules.len() as int),
    ensures
        r == sum_rules(rules@, rules.len() as int),
        r.wf(),
{
    let n = rules.len();
    if n == 0 {
        return SizeRules::empty();
    }
    let mut acc = rules[0];
    let mut i: usize = 1;
    while i < n
        invariant
            1 <= i <= n == rules.len(),
            forall|j: int| 0 <= j < rules.len() ==> (#[trigger] rules[j]).wf(),
            summable(rules@, n as int),
            acc == sum_rules(rules@, i as int),
        decreases n - i,
    {
        proof {
            lemma_summable_prefix(rules@, i as int + 1, n as int);
            lemma_summable_prefix(rules@, i as int, n as int);
            lemma_sum_rules_wf(rules@, i as int);
        }
        acc.append(rules[i]);
        i = i + 1;
    }
    proof {
        lemma_sum_rules_wf(rules@, n as int);
    }
    acc
}

proof fn lemma_summable_prefix(s: Seq<SizeRules>, m: int, n: int)
    requires
        1 <= m <= n,
        summable(s, n),
    ensures
        summable(s, m),
    decreases n - m,
{
    if m < n {
        lemma_summable_prefix(s, m + 1, n);
    }
}

/// Position of a cell in a grid: the columns `col .. col_end` and rows
/// `row .. row_end` it spans
#[derive(Copy, Clone, Debug, PartialEq, Eq, Structural)]
pub struct CellInfo {
    pub col: u32,
    pub col_end: u32,
    pub row: u32,
    pub row_end: u32,
}

impl CellInfo {
    /// A cell spanning one column and one row
    pub fn new(col: u32, row: u32) -> (r: CellInfo)
        requires
            col < u32::MAX,
            row < u32::MAX,
        ensures
            r == (CellInfo { col, col_end: (col + 1) as u32, row, row_end: (row + 1) as u32 }),
    {
        CellInfo { col, col_end: col + 1, row, row_end: row + 1 }
    }
}

/// Dimensions of a grid: its columns and rows, and how many cells span more
/// than one of each
#[derive(Copy, Clone, Debug, Default, PartialEq, Eq, Structural)]
pub struct GridDimensions {
    pub cols: u32,
    pub col_spans: u32,
    pub rows: u32,
    pub row_spans: u32,
}

impl GridDimensions {
    /// Take account of one more cell
    pub fn update(&mut self, cell: &CellInfo)
        requires
            cell.col < cell.col_end,
            cell.row < cell.row_end,
            old(self).col_spans < u32::MAX,
            old(self).row_spans < u32::MAX,
        ensures
            final(self).cols == if old(self).cols >= cell.col_end { old(self).cols } else { cell.col_end },
            final(self).rows == if old(self).rows >= cell.row_end { old(self).rows } else { cell.row_end },
            final(self).col_spans == old(self).col_spans + if cell.col_end - cell.col > 1 { 1int } else { 0int },
            final(self).row_spans == old(self).row_spans + if cell.row_end - cell.row > 1 { 1int } else { 0int },
    {
        if cell.col_end > self.cols {
            self.cols = cell.col_end;
        }
        if cell.col_end - cell.col > 1 {
            self.col_spans = self.col_spans + 1;
        }
        if cell.row_end > self.rows {
            self.rows = cell.row_end;
        }
        if cell.row_end - cell.row > 1 {
            self.row_spans = self.row_spans + 1;
        }
    }
}

} // verus!

verus! {

/// Whether `c` lies within a grid of `cols` columns and `rows` rows
pub open spec fn cell_fits(c: CellInfo, cols: int, rows: int) -> bool {
    c.col < c.col_end <= cols && c.row < c.row_end <= rows
}

/// End of the last of children `.. end` along an axis: the start of child
/// `end - 1` plus its length
pub open spec fn child_end(s: Seq<SizeRules>, start: int, len: int, end: int) -> int {
    child_start(s, start, len, end - 1) + solved_width(s, row_target(s, len), end - 1)
}

/// Assign rects to the cells of a grid
///
/// Columns are laid out across the width of `rect`, and rows down its
/// height, as [`axis_layout`] does: the margins between neighbouring
/// columns (rows) are kept free and the rest is shared out. A cell spans
/// from the start of its first column (row) to the end of its last, taking
/// in the margins between the columns it spans.
pub fn set_grid_rects(
    rect: Rect,
    col_rules: &Vec<SizeRules>,
    row_rules: &Vec<SizeRules>,
    cells: &Vec<CellInfo>,
) -> (r: Vec<Rect>)
    requires
        solvable(col_rules@),
        solvable(row_rules@),
        rect.size.0 >= 0,
        rect.size.1 >= 0,
        inner_gaps(col_rules@) <= i32::MAX,
        inner_gaps(row_rules@) <= i32::MAX,
        fits_i32(rect.pos.0 + rect.size.0),
        fits_i32(rect.pos.1 + rect.size.1),
        fits_i32(rect.pos.0 + inner_gaps(col_rules@)),
        fits_i32(rect.pos.1 + inner_gaps(row_rules@)),
        forall|i: int|
            0 <= i < cells.len() ==> cell_fits(#[trigger] cells[i], col_rules.len() as int, row_rules.len() as int),
    ensures
        r.len() == cells.len(),
        forall|i: int|
            0 <= i < r.len() ==> {
                let (c, cs, rs) = (cells[i], col_rules@, row_rules@);
                let (x, y, w, h) = (rect.pos.0 as int, rect.pos.1 as int, rect.size.0 as int, rect.size.1 as int);
                &&& (#[trigger] r[i]).pos.0 == child_start(cs, x, w, c.col as int)
                &&& r[i].pos.0 + r[i].size.0 == child_end(cs, x, w, c.col_end as int)
                &&& r[i].pos.1 == child_start(rs, y, h, c.row as int)
                &&& r[i].pos.1 + r[i].size.1 == child_end(rs, y, h, c.row_end as int)
            },
{
    let ghost cs = col_rules@;
    let ghost rs = row_rules@;
    let (xs, ws) = axis_layout(rect.pos.0, rect.size.0, col_rules);
    let (ys, hs) = axis_layout(rect.pos.1, rect.size.1, row_rules);
    let n = cells.len();
    let mut out: Vec<Rect> = Vec::new();
    let mut i: usize = 0;
    while i < n
        invariant
            n == cells.len(),
            i <= n,
            cs == col_rules@,
            rs == row_rules@,
            xs.len() == ws.len() == cs.len(),
            ys.len() == hs.len() == rs.len(),
            forall|j: int| 0 <= j < cs.len() ==> #[trigger] ws[j] == solved_width(cs, row_target(cs, rect.size.0 as int), j),
            forall|j: int| 0 <= j < cs.len() ==> #[trigger] xs[j] == child_start(cs, rect.pos.0 as int, rect.size.0 as int, j),
            forall|j: int| 0 <= j < rs.len() ==> #[trigger] hs[j] == solved_width(rs, row_target(rs, rect.size.1 as int), j),
            forall|j: int| 0 <= j < rs.len() ==> #[trigger] ys[j] == child_start(rs, rect.pos.1 as int, rect.size.1 as int, j),
            forall|j: int| 0 <= j < n ==> cell_fits(#[trigger] cells[j], cs.len() as int, rs.len() as int),
            solvable(cs),
            solvable(rs),
            rect.size.0 >= 0,
            rect.size.1 >= 0,
            inner_gaps(cs) <= i32::MAX,
            inner_gaps(rs) <= i32::MAX,
            fits_i32(rect.pos.0 + rect.size.0),
            fits_i32(rect.pos.1 + rect.size.1),
            fits_i32(rect.pos.0 + inner_gaps(cs)),
            fits_i32(rect.pos.1 + inner_gaps(rs)),
            out.len() == i,
            forall|j: int|
                0 <= j < i ==> {
                    let c = cells[j];
                    let (x, y, w, h) = (rect.pos.0 as int, rect.pos.1 as int, rect.size.0 as int, rect.size.1 as int);
                    &&& (#[trigger] out[j]).pos.0 == child_start(cs, x, w, c.col as int)
                    &&& out[j].pos.0 + out[j].size.0 == child_end(cs, x, w, c.col_end as int)
                    &&& out[j].pos.1 == child_start(rs, y, h, c.row as int)
                    &&& out[j].pos.1 + out[j].size.1 == child_end(rs, y, h, c.row_end as int)
                },
        decreases n - i,
    {
        let c = cells[i];
        proof {
            assert(cell_fits(c, cs.len() as int, rs.len() as int));
        }
        let x0 = xs[c.col as usize];
        let x1 = xs[c.col_end as usize - 1] as i64 + ws[c.col_end as usize - 1] as i64;
        let y0 = ys[c.row as usize];
        let y1 = ys[c.row_end as usize - 1] as i64 + hs[c.row_end as usize - 1] as i64;
        proof {
            lemma_end_fits(cs, rect.pos.0 as int, rect.size.0 as int, c.col as int, c.col_end as int);
            lemma_end_fits(rs, rect.pos.1 as int, rect.size.1 as int, c.row as int, c.row_end as int);
        }
        let cell = Rect {
            pos: Coord(x0, y0),
            size: Size((x1 - x0 as i64) as i32, (y1 - y0 as i64) as i32),
        };
        out.push(cell);
        i = i + 1;
    }
    out
}

/// The span of children `b .. e` has a non-negative length that fits an
/// `i32`.
proof fn lemma_end_fits(s: Seq<SizeRules>, start: int, len: int, b: int, e: int)
    requires
        solvable(s),
        0 <= b < e <= s.len(),
        0 <= len <= i32::MAX,
        inner_gaps(s) <= i32::MAX,
        fits_i32(start + len),
        fits_i32(start + inner_gaps(s)),
        fits_i32(start),
    ensures
        0 <= child_end(s, start, len, e) - child_start(s, start, len, b) <= i32::MAX,
        fits_i32(child_end(s, start, len, e)),
{
    let t = row_target(s, len);
    let n = s.len() as int;
    lemma_solved_covers(s, t);
    lemma_gaps_total(s);
    assert forall|j: int| 0 <= j < n implies #[trigger] solved(s, t)(j) >= 0 by {
        assert(solved(s, t)(j) == solved_width(s, t, j));
    }
    lemma_psum_nonneg_mono(solved(s, t), b, e - 1);
    lemma_psum_nonneg_mono(solved(s, t), e, n);
    lemma_gaps_nonneg(s, b, e - 1);
    lemma_gaps_nonneg(s, e - 1, n);
    lemma_psum_nonneg_mono(solved(s, t), e - 1, e);
    assert(psum(solved(s, t), e) == psum(solved(s, t), e - 1) + solved_width(s, t, e - 1));
    assert(psum(solved(s, t), n) == t);
    assert(psum(gaps(s), n) == inner_gaps(s));
    assert(t + inner_gaps(s) <= len || t == 0);
    assert(child_end(s, start, len, e) == start + psum(solved(s, t), e) + psum(gaps(s), e - 1));
    assert(child_start(s, start, len, b) == start + psum(solved(s, t), b) + psum(gaps(s), b));
}

} // verus!

verus! {

/// Along the columns (or rows, when `vertical`), the first and last-plus-one
/// index a cell spans
pub open spec fn cell_span(c: CellInfo, vertical: bool) -> (u32, u32) {
    if vertical { (c.row, c.row_end) } else { (c.col, c.col_end) }
}

/// Rules of column (or row) `i` from the first `k` cells: the union
/// ([`max_rules`](crate::size_rules::max_rules)) of the rules of the cells
/// that occupy exactly that column
pub open spec fn axis_union(cells: Seq<(CellInfo, SizeRules)>, vertical: bool, i: int, k: int) -> SizeRules
    decreases k,
{
    if k <= 0 {
        SizeRules { min: 0, ideal: 0, margins: (0, 0), stretch: crate::size_rules::Stretch::NoStretch }
    } else {
        let prev = axis_union(cells, vertical, i, k - 1);
        let (a, b) = cell_span(cells[k - 1].0, vertical);
        if a == i && b == i + 1 {
            crate::size_rules::max_rules(prev, cells[k - 1].1)
        } else {
            prev
        }
    }
}

/// Phase one of a grid along one axis: the rules of each of `n` columns (or
/// rows, when `vertical`), as the union of the rules of the cells in it
///
/// Cells spanning several columns do not count here.
pub fn grid_axis_rules(n: usize, cells: &Vec<(CellInfo, SizeRules)>, vertical: bool) -> (r: Vec<SizeRules>)
    requires
        forall|j: int| 0 <= j < cells.len() ==> (#[trigger] cells[j]).1.wf(),
    ensures
        r.len() == n,
        forall|i: int| 0 <= i < n ==> #[trigger] r[i] == axis_union(cells@, vertical, i, cells.len() as int),
        forall|i: int| 0 <= i < n ==> (#[trigger] r[i]).wf(),
{
    let mut out: Vec<SizeRules> = Vec::new();
    let mut i: usize = 0;
    while i < n
        invariant
            i <= n,
            out.len() == i,
            forall|j: int| 0 <= j < i ==> #[trigger] out[j] == axis_union(cells@, vertical, j, 0),
        decreases n - i,
    {
        out.push(SizeRules::empty());
        i = i + 1;
    }
    let m = cells.len();
    let mut k: usize = 0;
    while k < m
        invariant
            m == cells.len(),
            k <= m,
            out.len() == n,
            forall|j: int| 0 <= j < cells.len() ==> (#[trigger] cells[j]).1.wf(),
            forall|j: int| 0 <= j < n ==> #[trigger] out[j] == axis_union(cells@, vertical, j, k as int),
            forall|j: int| 0 <= j < n ==> (#[trigger] out[j]).wf(),
        decreases m - k,
    {
        let (cell, rules) = cells[k];
        let (a, b) = if vertical { (cell.row, cell.row_end) } else { (cell.col, cell.col_end) };
        if (a as usize) < n && b as u64 == a as u64 + 1 {
            let cur = out[a as usize];
            out.set(a as usize, cur.max(rules));
        }
        proof {
            assert forall|j: int| 0 <= j < n implies #[trigger] out[j] == axis_union(cells@, vertical, j, k as int + 1) by {
                assert(cells@[k as int] == (cell, rules));
            }
        }
        k = k + 1;
    }
    out
}

} // verus!

verus! {

/// Extra given to the `j`-th of `k` parts when `d` is split evenly: the
/// first `d % k` parts get one more
pub open spec fn even_share(d: int, k: int, j: int) -> int {
    d / k + if j < d % k { 1int } else { 0int }
}

proof fn lemma_even_shares(d: int, k: int, m: int)
    requires
        0 <= d,
        0 < k,
        0 <= m <= k,
    ensures
        psum(|j: int| even_share(d, k, j), m) == m * (d / k) + min_i(m, d % k),
    decreases m,
{
    if m > 0 {
        lemma_even_shares(d, k, m - 1);
        assert((m - 1) * (d / k) + d / k == m * (d / k)) by (nonlinear_arith);
    } else {
        assert(0 * (d / k) == 0) by (nonlinear_arith);
    }
}

/// Sum of minimum sizes over `begin .. end`
pub open spec fn span_min(s: Seq<SizeRules>, begin: int, end: int) -> int {
    psum(mins(s), end) - psum(mins(s), begin)
}

/// Sum of ideal sizes over `begin .. end`
pub open spec fn span_ideal(s: Seq<SizeRules>, begin: int, end: int) -> int {
    psum(ideals(s), end) - psum(ideals(s), begin)
}

proof fn lemma_psum_split_update(f: spec_fn(int) -> int, g: spec_fn(int) -> int, b: int, e: int, n: int)
    requires
        0 <= b <= e <= n,
        forall|j: int| 0 <= j < n && !(b <= j < e) ==> #[trigger] g(j) == f(j),
    ensures
        psum(g, n) - psum(f, n) == psum(g, e) - psum(f, e) - (psum(g, b) - psum(f, b)),
        psum(g, b) == psum(f, b),
    decreases n,
{
    if n > 0 {
        if n > e {
            lemma_psum_split_update(f, g, b, e, n - 1);
        } else if n > b {
            lemma_psum_split_update(f, g, b, n - 1, n - 1);
        } else {
            lemma_psum_split_update(f, g, n - 1, n - 1, n - 1);
        }
    }
}

proof fn lemma_span_even(f: spec_fn(int) -> int, g: spec_fn(int) -> int, b: int, d: int, k: int, m: int)
    requires
        0 <= d,
        0 < k,
        0 <= m <= k,
        0 <= b,
        forall|j: int| 0 <= j < m ==> #[trigger] g(b + j) == f(b + j) + even_share(d, k, j),
    ensures
        psum(g, b + m) - psum(g, b) == psum(f, b + m) - psum(f, b) + m * (d / k) + min_i(m, d % k),
    decreases m,
{
    if m > 0 {
        lemma_span_even(f, g, b, d, k, m - 1);
        assert(g(b + (m - 1)) == f(b + (m - 1)) + even_share(d, k, m - 1));
        assert((m - 1) * (d / k) + d / k == m * (d / k)) by (nonlinear_arith);
    } else {
        assert(0 * (d / k) == 0) by (nonlinear_arith);
    }
}

/// Sums of minimum and ideal sizes over columns `begin .. end`
fn span_sums(cols: &Vec<SizeRules>, begin: usize, end: usize) -> (r: (i64, i64))
    requires
        begin <= end <= cols.len(),
        forall|j: int| 0 <= j < cols.len() ==> (#[trigger] cols[j]).wf(),
        psum(ideals(cols@), cols.len() as int) <= i32::MAX,
    ensures
        r.0 == span_min(cols@, begin as int, end as int),
        r.1 == span_ideal(cols@, begin as int, end as int),
        0 <= r.0 <= r.1 <= psum(ideals(cols@), cols.len() as int),
{
    let ghost s0 = cols@;
    let ghost n = cols.len() as int;
    let mut sum_min: i64 = 0;
    let mut sum_ideal: i64 = 0;
    let mut i: usize = begin;
    proof {
        lemma_rules_sums(s0, begin as int);
    }
    while i < end
        invariant
            begin <= i <= end <= cols.len(),
            n == s0.len(),
            cols@ == s0,
            forall|j: int| 0 <= j < n ==> (#[trigger] s0[j]).wf(),
            psum(ideals(s0), n) <= i32::MAX,
            0 <= psum(mins(s0), begin as int) <= psum(ideals(s0), begin as int),
            sum_min == psum(mins(s0), i as int) - psum(mins(s0), begin as int),
            sum_ideal == psum(ideals(s0), i as int) - psum(ideals(s0), begin as int),
            0 <= sum_min <= sum_ideal,
        decreases end - i,
    {
        proof {
            lemma_rules_sums(s0, i as int + 1);
            assert(s0[i as int].wf());
        }
        sum_min = sum_min + cols[i].min as i64;
        sum_ideal = sum_ideal + cols[i].ideal as i64;
        i = i + 1;
    }
    proof {
        lemma_rules_sums(s0, end as int);
        lemma_rules_sums(s0, begin as int);
    }
    (sum_min, sum_ideal)
}

/// Add the even split of `d` to the minimum sizes of columns
/// `begin .. end`, raising ideal sizes that fall below
fn add_even_min(cols: &mut Vec<SizeRules>, begin: usize, end: usize, d: i64)
    requires
        begin < end <= old(cols).len(),
        0 < d,
        forall|j: int| 0 <= j < old(cols).len() ==> (#[trigger] old(cols)[j]).wf(),
        psum(ideals(old(cols)@), old(cols).len() as int) + d <= i32::MAX,
    ensures
        final(cols).len() == old(cols).len(),
        forall|x: int|
            0 <= x < final(cols).len() && !(begin <= x < end) ==> #[trigger] final(cols)[x] == old(cols)[x],
        forall|x: int|
            0 <= x < end - begin ==> {
                let (o, c) = (old(cols)[begin + x], #[trigger] final(cols)[begin + x]);
                &&& c.min == o.min + even_share(d as int, (end - begin) as int, x)
                &&& c.ideal == max_i(o.ideal as int, c.min as int)
                &&& c.margins == o.margins
                &&& c.stretch == o.stretch
            },
{
    let ghost s0 = cols@;
    let ghost n = cols.len() as int;
    let k = end - begin;
    let q = (d as u64 / k as u64) as i64;
    let r = d as u64 % k as u64;
    proof {
        assert forall|x: int| 0 <= x < n implies #[trigger] ideals(s0)(x) >= 0 by {
            assert(s0[x].wf());
        }
        assert(q <= d) by (nonlinear_arith)
            requires
                q == d as int / k as int,
                k >= 1,
                d > 0,
        ;
    }
    let mut j: usize = 0;
    while j < k
        invariant
            k == end - begin,
            begin < end <= cols.len(),
            n == cols.len() == s0.len(),
            0 < d,
            q == d as int / k as int,
            r == d as int % k as int,
            q <= d,
            forall|x: int| 0 <= x < n ==> (#[trigger] s0[x]).wf(),
            forall|x: int| 0 <= x < n ==> #[trigger] ideals(s0)(x) >= 0,
            psum(ideals(s0), n) + d <= i32::MAX,
            j <= k,
            forall|x: int| 0 <= x < n && !(begin <= x < begin + j) ==> #[trigger] cols[x] == s0[x],
            forall|x: int|
                0 <= x < j ==> {
                    let (o, c) = (s0[begin + x], #[trigger] cols[begin + x]);
                    &&& c.min == o.min + even_share(d as int, k as int, x)
                    &&& c.ideal == max_i(o.ideal as int, c.min as int)
                    &&& c.margins == o.margins
                    &&& c.stretch == o.stretch
                },
        decreases k - j,
    {
        proof {
            lemma_term_le_psum(ideals(s0), begin + j, n);
            assert(s0[begin + j as int].wf());
            assert(r < k);
            if r > 0 {
                assert(q + 1 <= d) by (nonlinear_arith)
                    requires
                        q == d as int / k as int,
                        r == d as int % k as int,
                        r > 0,
                        k >= 1,
                        d > 0,
                {
                    assert(d == k * q + r);
                }
            }
        }
        let o = cols[begin + j];
        let bonus: i64 = if (j as u64) < r { 1 } else { 0 };
        let m = (o.min as i64 + q + bonus) as i32;
        let ideal = if o.ideal >= m { o.ideal } else { m };
        cols.set(begin + j, SizeRules { min: m, ideal, margins: o.margins, stretch: o.stretch });
        j = j + 1;
    }
}


/// Add the even split of `d` to the ideal sizes of columns `begin .. end`
fn add_even_ideal(cols: &mut Vec<SizeRules>, begin: usize, end: usize, d: i64)
    requires
        begin < end <= old(cols).len(),
        0 < d,
        forall|j: int| 0 <= j < old(cols).len() ==> (#[trigger] old(cols)[j]).wf(),
        psum(ideals(old(cols)@), old(cols).len() as int) + d <= i32::MAX,
    ensures
        final(cols).len() == old(cols).len(),
        forall|x: int|
            0 <= x < final(cols).len() && !(begin <= x < end) ==> #[trigger] final(cols)[x] == old(cols)[x],
        forall|x: int|
            0 <= x < end - begin ==> {
                let (o, c) = (old(cols)[begin + x], #[trigger] final(cols)[begin + x]);
                &&& c.min == o.min
                &&& c.ideal == o.ideal + even_share(d as int, (end - begin) as int, x)
                &&& c.margins == o.margins
                &&& c.stretch == o.stretch
            },
{
    let ghost s0 = cols@;
    let ghost n = cols.len() as int;
    let k = end - begin;
    let q = (d as u64 / k as u64) as i64;
    let r = d as u64 % k as u64;
    proof {
        assert forall|x: int| 0 <= x < n implies #[trigger] ideals(s0)(x) >= 0 by {
            assert(s0[x].wf());
        }
        assert(q <= d) by (nonlinear_arith)
            requires
                q == d as int / k as int,
                k >= 1,
                d > 0,
        ;
    }
    let mut j: usize = 0;
    while j < k
        invariant
            k == end - begin,
            begin < end <= cols.len(),
            n == cols.len() == s0.len(),
            0 < d,
            q == d as int / k as int,
            r == d as int % k as int,
            q <= d,
            forall|x: int| 0 <= x < n ==> (#[trigger] s0[x]).wf(),
            forall|x: int| 0 <= x < n ==> #[trigger] ideals(s0)(x) >= 0,
            psum(ideals(s0), n) + d <= i32::MAX,
            j <= k,
            forall|x: int| 0 <= x < n && !(begin <= x < begin + j) ==> #[trigger] cols[x] == s0[x],
            forall|x: int|
                0 <= x < j ==> {
                    let (o, c) = (s0[begin + x], #[trigger] cols[begin + x]);
                    &&& c.min == o.min
                    &&& c.ideal == o.ideal + even_share(d as int, k as int, x)
                    &&& c.margins == o.margins
                    &&& c.stretch == o.stretch
                },
        decreases k - j,
    {
        proof {
            lemma_term_le_psum(ideals(s0), begin + j, n);
            assert(s0[begin + j as int].wf());
            if r > 0 {
                assert(q + 1 <= d) by (nonlinear_arith)
                    requires
                        q == d as int / k as int,
                        r == d as int % k as int,
                        r > 0,
                        k >= 1,
                        d > 0,
                {
                    assert(d == k * q + r);
                }
            }
        }
        let o = cols[begin + j];
        let bonus: i64 = if (j as u64) < r { 1 } else { 0 };
        let ideal = (o.ideal as i64 + q + bonus) as i32;
        cols.set(begin + j, SizeRules { min: o.min, ideal, margins: o.margins, stretch: o.stretch });
        j = j + 1;
    }
}

proof fn lemma_span_ge(f: spec_fn(int) -> int, g: spec_fn(int) -> int, b: int, m: int)
    requires
        0 <= b,
        0 <= m,
        forall|j: int| 0 <= j < m ==> #[trigger] g(b + j) >= f(b + j),
    ensures
        psum(g, b + m) - psum(g, b) >= psum(f, b + m) - psum(f, b),
    decreases m,
{
    if m > 0 {
        lemma_span_ge(f, g, b, m - 1);
        assert(g(b + (m - 1)) >= f(b + (m - 1)));
    }
}

proof fn lemma_span_le_shares(f: spec_fn(int) -> int, g: spec_fn(int) -> int, b: int, d: int, k: int, m: int)
    requires
        0 <= d,
        0 < k,
        0 <= m <= k,
        0 <= b,
        forall|j: int| 0 <= j < m ==> #[trigger] g(b + j) <= f(b + j) + even_share(d, k, j),
    ensures
        psum(g, b + m) - psum(g, b) <= psum(f, b + m) - psum(f, b) + m * (d / k) + min_i(m, d % k),
    decreases m,
{
    if m > 0 {
        lemma_span_le_shares(f, g, b, d, k, m - 1);
        assert(g(b + (m - 1)) <= f(b + (m - 1)) + even_share(d, k, m - 1));
        assert((m - 1) * (d / k) + d / k == m * (d / k)) by (nonlinear_arith);
    } else {
        assert(0 * (d / k) == 0) by (nonlinear_arith);
    }
}

/// Raise the rules of columns `begin .. end` so that together they meet the
/// rules `span` of a cell spanning them
///
/// Any shortfall of the minimum sizes is split evenly over the columns
/// (the first ones getting one more where the split is uneven), ideal sizes
/// rising where they fall below; then any shortfall of the ideal sizes is
/// split the same way. Columns never shrink; other columns, and every
/// margin and stretch priority, are unchanged. Margins between the columns
/// do not count towards the span.
pub fn distribute_span(cols: &mut Vec<SizeRules>, begin: usize, end: usize, span: SizeRules)
    requires
        begin < end <= old(cols).len(),
        span.wf(),
        forall|j: int| 0 <= j < old(cols).len() ==> (#[trigger] old(cols)[j]).wf(),
        psum(ideals(old(cols)@), old(cols).len() as int) + span.ideal <= i32::MAX,
    ensures
        final(cols).len() == old(cols).len(),
        forall|j: int| 0 <= j < final(cols).len() ==> (#[trigger] final(cols)[j]).wf(),
        forall|j: int|
            0 <= j < final(cols).len() && !(begin <= j < end) ==> #[trigger] final(cols)[j] == old(cols)[j],
        forall|j: int|
            0 <= j < final(cols).len() ==> {
                &&& old(cols)[j].min <= (#[trigger] final(cols)[j]).min
                &&& old(cols)[j].ideal <= final(cols)[j].ideal
                &&& final(cols)[j].margins == old(cols)[j].margins
                &&& final(cols)[j].stretch == old(cols)[j].stretch
            },
        span_min(final(cols)@, begin as int, end as int) == max_i(
            span_min(old(cols)@, begin as int, end as int),
            span.min as int,
        ),
        span_ideal(final(cols)@, begin as int, end as int) >= span.ideal,
        span_min(old(cols)@, begin as int, end as int) >= span.min && span_ideal(
            old(cols)@,
            begin as int,
            end as int,
        ) >= span.ideal ==> final(cols)@ == old(cols)@,
{
    let ghost s0 = cols@;
    let ghost n = cols.len() as int;
    let ghost k = (end - begin) as int;
    proof {
        assert forall|x: int| 0 <= x < n implies #[trigger] ideals(s0)(x) >= 0 by {
            assert(s0[x].wf());
        }
        lemma_psum_nonneg_mono(ideals(s0), n, n);
    }
    let (smin, _) = span_sums(cols, begin, end);
    if (span.min as i64) > smin {
        let d = span.min as i64 - smin;
        add_even_min(cols, begin, end, d);
        proof {
            let c = cols@;
            assert forall|j: int| 0 <= j < k implies #[trigger] mins(c)(begin + j) == mins(s0)(begin + j)
                + even_share(d as int, k, j) by {
                assert(c[begin + j] == cols[begin + j]);
            }
            lemma_span_even(mins(s0), mins(c), begin as int, d as int, k, k);
            lemma_even_shares(d as int, k, k);
            lemma_fundamental_div_mod(d as int, k);
            assert forall|j: int| 0 <= j < k implies #[trigger] ideals(c)(begin + j) <= ideals(s0)(begin
                + j) + even_share(d as int, k, j) by {
                assert(s0[begin + j].wf());
            }
            lemma_span_le_shares(ideals(s0), ideals(c), begin as int, d as int, k, k);
            assert forall|j: int| 0 <= j < n && !(begin <= j < end) implies #[trigger] ideals(c)(j)
                == ideals(s0)(j) by {}
            lemma_psum_split_update(ideals(s0), ideals(c), begin as int, end as int, n);
            assert forall|j: int| 0 <= j < n implies (#[trigger] c[j]).wf() by {
                if begin <= j < end {
                    assert(c[begin + (j - begin)] == c[j]);
                    assert(s0[j].wf());
                }
            }
        }
    }
    let ghost s1 = cols@;
    proof {
        assert forall|x: int| 0 <= x < n implies #[trigger] ideals(s1)(x) >= 0 by {
            assert(s1[x].wf());
        }
        assert forall|j: int| 0 <= j < k implies #[trigger] ideals(s1)(begin + j) >= ideals(s0)(begin + j) by {
            if smin < span.min {
                assert(s1[begin + j] == cols[begin + j]);
            }
        }
        lemma_span_ge(ideals(s0), ideals(s1), begin as int, k);
        assert forall|j: int| 0 <= j < n && !(begin <= j < end) implies #[trigger] ideals(s1)(j)
            == ideals(s0)(j) by {}
        lemma_psum_split_update(ideals(s0), ideals(s1), begin as int, end as int, n);
    }
    let (_, sideal) = span_sums(cols, begin, end);
    if (span.ideal as i64) > sideal {
        let d = span.ideal as i64 - sideal;
        add_even_ideal(cols, begin, end, d);
        proof {
            let c = cols@;
            assert forall|j: int| 0 <= j < k implies #[trigger] ideals(c)(begin + j) == ideals(s1)(begin + j)
                + even_share(d as int, k, j) by {
                assert(c[begin + j] == cols[begin + j]);
            }
            lemma_span_even(ideals(s1), ideals(c), begin as int, d as int, k, k);
            lemma_even_shares(d as int, k, k);
            lemma_fundamental_div_mod(d as int, k);
            assert forall|j: int| 0 <= j < n implies #[trigger] mins(c)(j) == mins(s1)(j) by {
                if begin <= j < end {
                    assert(c[begin + (j - begin)] == c[j]);
                }
            }
            lemma_psum_ext(mins(c), mins(s1), end as int);
            lemma_psum_ext(mins(c), mins(s1), begin as int);
            assert forall|j: int| 0 <= j < n implies (#[trigger] c[j]).wf() by {
                if begin <= j < end {
                    assert(c[begin + (j - begin)] == c[j]);
                    assert(s1[j].wf());
                }
            }
        }
    }
    proof {
        let c = cols@;
        assert forall|j: int| 0 <= j < n implies {
            &&& s0[j].min <= (#[trigger] c[j]).min
            &&& s0[j].ideal <= c[j].ideal
            &&& c[j].margins == s0[j].margins
            &&& c[j].stretch == s0[j].stretch
        } by {
            if begin <= j < end {
                assert(c[begin + (j - begin)] == c[j]);
                assert(s1[begin + (j - begin)] == s1[j]);
                assert(s0[j].wf());
            }
        }
        if span_min(s0, begin as int, end as int) >= span.min && span_ideal(s0, begin as int, end as int)
            >= span.ideal {
            assert(c =~= s0);
        }
    }
}

} // verus!

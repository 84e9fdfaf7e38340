//! Token-aware knowledge selection: a 0/1 knapsack over knowledge
//! slots, maximising total value within a token budget.
//!
//! Each slot is `(token_estimate, value)`; the value is computed by the
//! caller from the slot's relevance. The budget is capped at 65535
//! tokens; a slot larger than the budget is never taken.

use vstd::prelude::*;

verus! {

/// Largest budget the solver works with.
pub const MAX_BUDGET_TOKENS: usize = 65535;

/// The budget the solver works with.
pub open spec fn cap_of(budget_tokens: usize) -> int {
    if budget_tokens < 65535 { budget_tokens as int } else { 65535 }
}

/// The best total value reachable with the first `i` slots within
/// `cap` tokens.
pub open spec fn best(items: Seq<(usize, u64)>, i: int, cap: int) -> int
    decreases i,
{
    if i <= 0 {
        0
    } else {
        let skip = best(items, i - 1, cap);
        let t = items[i - 1].0 as int;
        let v = items[i - 1].1 as int;
        if t > cap {
            skip
        } else {
            let take = best(items, i - 1, cap - t) + v;
            if take > skip { take } else { skip }
        }
    }
}

/// The slots the solver picks among the first `i` within `cap`, read
/// back from the table of best values: slot `i - 1` is taken exactly
/// when it changes the best value.
pub open spec fn trace(items: Seq<(usize, u64)>, i: int, cap: int) -> Seq<usize>
    decreases i,
{
    if i <= 0 {
        Seq::empty()
    } else if best(items, i, cap) != best(items, i - 1, cap) {
        trace(items, i - 1, cap - items[i - 1].0 as int).push((i - 1) as usize)
    } else {
        trace(items, i - 1, cap)
    }
}

/// Total tokens of the slots at indices `s`.
pub open spec fn tokens_of(items: Seq<(usize, u64)>, s: Seq<usize>) -> int
    decreases s.len(),
{
    if s.len() == 0 {
        0
    } else {
        tokens_of(items, s.drop_last()) + items[s.last() as int].0 as int
    }
}

/// Total value of the slots at indices `s`.
pub open spec fn value_of(items: Seq<(usize, u64)>, s: Seq<usize>) -> int
    decreases s.len(),
{
    if s.len() == 0 {
        0
    } else {
        value_of(items, s.drop_last()) + items[s.last() as int].1 as int
    }
}

/// `s` lists distinct indices below `n` in increasing order.
pub open spec fn increasing_below(s: Seq<usize>, n: int) -> bool {
    &&& forall|k: int| 0 <= k < s.len() ==> (s[k] as int) < n
    &&& forall|a: int, b: int| 0 <= a < b < s.len() ==> s[a] < s[b]
}

proof fn lemma_best_bounds(items: Seq<(usize, u64)>, i: int, cap: int)
    requires
        0 <= i <= items.len(),
    ensures
        0 <= best(items, i, cap) <= i * 0xFFFF_FFFF_FFFF_FFFF,
    decreases i,
{
    if i > 0 {
        lemma_best_bounds(items, i - 1, cap);
        lemma_best_bounds(items, i - 1, cap - items[i - 1].0 as int);
    }
}

proof fn lemma_sums_nonneg(items: Seq<(usize, u64)>, s: Seq<usize>)
    ensures
        tokens_of(items, s) >= 0,
        value_of(items, s) >= 0,
    decreases s.len(),
{
    if s.len() > 0 {
        lemma_sums_nonneg(items, s.drop_last());
    }
}

proof fn lemma_best_monotone_in_i(items: Seq<(usize, u64)>, i: int, cap: int)
    requires
        1 <= i <= items.len(),
    ensures
        best(items, i - 1, cap) <= best(items, i, cap),
{
}

/// What the solver picks is well formed: distinct indices in
/// increasing order, within `cap` tokens, worth exactly the best value.
pub proof fn lemma_trace_achieves_best(items: Seq<(usize, u64)>, i: int, cap: int)
    requires
        0 <= i <= items.len() <= usize::MAX,
        cap >= 0,
    ensures
        increasing_below(trace(items, i, cap), i),
        tokens_of(items, trace(items, i, cap)) <= cap,
        value_of(items, trace(items, i, cap)) == best(items, i, cap),
    decreases i,
{
    if i > 0 {
        let t = items[i - 1].0 as int;
        if best(items, i, cap) != best(items, i - 1, cap) {
            assert(t <= cap);
            lemma_trace_achieves_best(items, i - 1, cap - t);
            let s0 = trace(items, i - 1, cap - t);
            let s = s0.push((i - 1) as usize);
            assert(s.drop_last() =~= s0);
            assert(s.last() as int == i - 1);
            assert forall|a: int, b: int| 0 <= a < b < s.len() implies s[a] < s[b] by {
                if b < s0.len() {
                    assert(s[a] == s0[a] && s[b] == s0[b]);
                } else {
                    assert(s[a] == s0[a]);
                }
            }
            assert forall|k: int| 0 <= k < s.len() implies (s[k] as int) < i by {
                if k < s0.len() {
                    assert(s[k] == s0[k]);
                }
            }
        } else {
            lemma_trace_achieves_best(items, i - 1, cap);
        }
    }
}

/// No choice of slots does better: any distinct slots among the first
/// `i` that fit in `cap` tokens are worth at most `best(items, i, cap)`.
pub proof fn lemma_best_is_optimal(items: Seq<(usize, u64)>, s: Seq<usize>, i: int, cap: int)
    requires
        0 <= i <= items.len(),
        increasing_below(s, i),
        tokens_of(items, s) <= cap,
    ensures
        value_of(items, s) <= best(items, i, cap),
    decreases i,
{
    lemma_sums_nonneg(items, s);
    lemma_best_bounds(items, i, cap);
    if i > 0 && s.len() > 0 {
        let s0 = s.drop_last();
        assert(increasing_below(s0, i)) by {
            assert forall|k: int| 0 <= k < s0.len() implies (s0[k] as int) < i by {
                assert(s0[k] == s[k]);
            }
        }
        if s.last() as int == i - 1 {
            let t = items[i - 1].0 as int;
            lemma_sums_nonneg(items, s0);
            assert(increasing_below(s0, i - 1)) by {
                assert forall|k: int| 0 <= k < s0.len() implies (s0[k] as int) < i - 1 by {
                    assert(s0[k] == s[k]);
                    assert(s[k] < s[s.len() - 1]);
                }
            }
            lemma_best_is_optimal(items, s0, i - 1, cap - t);
        } else {
            assert(increasing_below(s, i - 1)) by {
                assert forall|k: int| 0 <= k < s.len() implies (s[k] as int) < i - 1 by {
                    if k < s.len() - 1 {
                        assert(s[k] < s[s.len() - 1]);
                    }
                }
            }
            lemma_best_is_optimal(items, s, i - 1, cap);
            lemma_best_monotone_in_i(items, i, cap);
        }
    } else if i == 0 && s.len() > 0 {
        assert((s[0] as int) < 0);
    }
}

/// Choose slots to maximise total value within the token budget (a 0/1
/// knapsack), returning their indices in increasing order. Nothing is
/// chosen from no slots or for a zero budget.
pub fn select_knapsack(items: &[(usize, u64)], budget_tokens: usize) -> (r: Vec<usize>)
    ensures
        (items@.len() == 0 || budget_tokens == 0) ==> r@.len() == 0,
        items@.len() > 0 && budget_tokens > 0 ==> r@ == trace(items@, items@.len() as int, cap_of(budget_tokens)),
        increasing_below(r@, items@.len() as int),
        tokens_of(items@, r@) <= cap_of(budget_tokens),
        items@.len() > 0 && budget_tokens > 0 ==> value_of(items@, r@) == best(
            items@,
            items@.len() as int,
            cap_of(budget_tokens),
        ),
{
    let n = items.len();
    if n == 0 || budget_tokens == 0 {
        let r: Vec<usize> = Vec::new();
        proof {
            assert(tokens_of(items@, r@) == 0);
        }
        return r;
    }
    let cap0: usize = if budget_tokens < MAX_BUDGET_TOKENS { budget_tokens } else { MAX_BUDGET_TOKENS };
    let ghost s = items@;

    // dp[i][c] == best(items, i, c)
    let mut dp: Vec<Vec<u128>> = Vec::new();
    let mut row0: Vec<u128> = Vec::new();
    let mut c: usize = 0;
    while c <= cap0
        invariant
            c <= cap0 + 1,
            cap0 <= 65535,
            row0@.len() == c,
            forall|k: int| 0 <= k < c ==> row0@[k] == 0,
        decreases cap0 + 1 - c,
    {
        row0.push(0);
        c = c + 1;
    }
    dp.push(row0);
    let mut i: usize = 0;
    while i < n
        invariant
            n == items@.len(),
            s == items@,
            cap0 <= 65535,
            i <= n,
            dp@.len() == i + 1,
            forall|r: int| 0 <= r <= i ==> (#[trigger] dp@[r])@.len() == cap0 + 1,
            forall|r: int, k: int| 0 <= r <= i && 0 <= k <= cap0 ==> (#[trigger] dp@[r]@[k]) as int == best(s, r, k),
        decreases n - i,
    {
        let t = items[i].0;
        let v = items[i].1;
        let w: usize = if t < cap0 + 1 { t } else { cap0 + 1 };
        let mut row: Vec<u128> = Vec::new();
        let mut c: usize = 0;
        while c <= cap0
            invariant
                n == items@.len(),
                s == items@,
                cap0 <= 65535,
                i < n,
                t == s[i as int].0,
                v == s[i as int].1,
                w == (if t < cap0 + 1 { t } else { (cap0 + 1) as usize }),
                c <= cap0 + 1,
                dp@.len() == i + 1,
                forall|r: int| 0 <= r <= i ==> (#[trigger] dp@[r])@.len() == cap0 + 1,
                forall|r: int, k: int| 0 <= r <= i && 0 <= k <= cap0 ==> (#[trigger] dp@[r]@[k]) as int == best(s, r, k),
                row@.len() == c,
                forall|k: int| 0 <= k < c ==> (#[trigger] row@[k]) as int == best(s, i + 1, k),
            decreases cap0 + 1 - c,
        {
            let skip = dp[i][c];
            assert(skip as int == best(s, i as int, c as int));
            let val: u128 = if w > c {
                skip
            } else {
                let below = dp[i][c - w];
                assert(below as int == best(s, i as int, c - w));
                proof {
                    lemma_best_bounds(s, i as int, c - w);
                    assert(i * 0xFFFF_FFFF_FFFF_FFFFint + 0xFFFF_FFFF_FFFF_FFFFint <= 0xFFFF_FFFF_FFFF_FFFF_FFFF_FFFF_FFFF_FFFFint)
                        by (nonlinear_arith)
                        requires
                            i < 0x1_0000_0000_0000_0000int,
                    ;
                }
                let take = below + v as u128;
                if take > skip { take } else { skip }
            };
            row.push(val);
            c = c + 1;
        }
        dp.push(row);
        i = i + 1;
    }

    // read the choice back from the table, last slot first
    let mut sel: Vec<usize> = Vec::new();
    let mut cap: usize = cap0;
    let mut i: usize = n;
    while i > 0
        invariant
            n == items@.len(),
            s == items@,
            cap0 <= 65535,
            i <= n,
            cap <= cap0,
            dp@.len() == n + 1,
            forall|r: int| 0 <= r <= n ==> (#[trigger] dp@[r])@.len() == cap0 + 1,
            forall|r: int, k: int| 0 <= r <= n && 0 <= k <= cap0 ==> (#[trigger] dp@[r]@[k]) as int == best(s, r, k),
            trace(s, n as int, cap0 as int) == trace(s, i as int, cap as int) + sel@,
        decreases i,
    {
        let t = items[i - 1].0;
        let w: usize = if t < cap0 + 1 { t } else { cap0 + 1 };
        let ghost before = sel@;
        if dp[i][cap] != dp[i - 1][cap] {
            assert(best(s, i as int, cap as int) != best(s, i - 1, cap as int));
            if w <= cap {
                sel.insert(0, i - 1);
                proof {
                    assert(sel@ =~= seq![(i - 1) as usize] + before);
                    assert(trace(s, i as int, cap as int) == trace(s, i - 1, cap - t).push((i - 1) as usize));
                    assert(trace(s, i - 1, cap - t).push((i - 1) as usize) + before
                        =~= trace(s, i - 1, cap - t) + (seq![(i - 1) as usize] + before));
                }
                cap = cap - w;
            }
        } else {
            assert(trace(s, i as int, cap as int) == trace(s, i - 1, cap as int));
        }
        i = i - 1;
    }
    proof {
        assert(trace(s, 0, cap as int) =~= Seq::<usize>::empty());
        assert(sel@ =~= trace(s, n as int, cap0 as int));
        lemma_trace_achieves_best(s, n as int, cap0 as int);
    }
    sel
}

} // verus!

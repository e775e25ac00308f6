use vstd::prelude::*;
use crate::rng::{RandomStream, initial};
use crate::pull::{BannerConfig, TrialState, TrialView, PITY5_RESET, start, pull_from, total};
use crate::expr::{Expr, holds};

verus! {

/// A labelled predicate over a trial's state.
#[derive(Debug)]
pub struct Query {
    pub label: String,
    pub expr: Expr,
}

/// State and stream after `n` pulls from `s` and `g`.
pub open spec fn run_pulls(c: BannerConfig, s: TrialView, g: RandomStream, n: nat) -> (TrialView, RandomStream)
    decreases n,
{
    if n == 0 {
        (s, g)
    } else {
        let p = run_pulls(c, s, g, (n - 1) as nat);
        pull_from(c, p.0, p.1)
    }
}

/// The state of the trial of `seed` after `n` pulls.
pub open spec fn state_after(c: BannerConfig, seed: u64, n: nat) -> TrialView {
    run_pulls(c, start(c.width()), initial(seed), n).0
}

/// Pulls in the first `i` segments.
pub open spec fn prefix(cps: Seq<u64>, i: int) -> int
    decreases i,
{
    if i <= 0 { 0 } else { prefix(cps, i - 1) + cps[i - 1] }
}

/// Trials among seeds `first .. first + n` whose state at checkpoint `ci` satisfies `e`.
pub open spec fn hits(c: BannerConfig, cps: Seq<u64>, e: Expr, ci: int, first: int, n: nat) -> nat
    decreases n,
{
    if n == 0 {
        0
    } else {
        hits(c, cps, e, ci, first, (n - 1) as nat) + if holds(e, state_after(c, (first + n - 1) as u64, prefix(cps, ci + 1) as nat)) { 1nat } else { 0nat }
    }
}

/// Whether the pulls of all segments together leave room in the counters.
pub open spec fn pulls_fit(cps: Seq<u64>) -> bool {
    prefix(cps, cps.len() as int) < u64::MAX - PITY5_RESET
}

pub proof fn lemma_prefix_mono(cps: Seq<u64>, i: int, j: int)
    requires
        0 <= i <= j <= cps.len(),
    ensures
        prefix(cps, i) <= prefix(cps, j),
    decreases j - i,
{
    if i < j {
        lemma_prefix_mono(cps, i, j - 1);
    }
}

/// Every state a trial reaches keeps the invariants, and counts its pulls.
pub proof fn lemma_run_wf(c: BannerConfig, s: TrialView, g: RandomStream, n: nat)
    requires
        c.valid(),
        s.wf(c),
        s.pulls + n < u64::MAX - PITY5_RESET + 1,
    ensures
        run_pulls(c, s, g, n).0.wf(c),
        run_pulls(c, s, g, n).0.pulls == s.pulls + n,
    decreases n,
{
    if n > 0 {
        lemma_run_wf(c, s, g, (n - 1) as nat);
        let p = run_pulls(c, s, g, (n - 1) as nat);
        let g1 = crate::rng::step(p.1);
        let g2 = crate::rng::step(g1);
        crate::pull::lemma_pull_keeps_wf(c, p.0, crate::rng::output(p.1), crate::rng::output(g1), crate::rng::output(g2));
    }
}

/// Pulling `a` times and then `b` times is pulling `a + b` times: a checkpoint only samples the
/// state and does not restart the trial.
pub proof fn lemma_run_additive(c: BannerConfig, s: TrialView, g: RandomStream, a: nat, b: nat)
    ensures
        run_pulls(c, run_pulls(c, s, g, a).0, run_pulls(c, s, g, a).1, b) == run_pulls(c, s, g, a + b),
    decreases b,
{
    if b > 0 {
        lemma_run_additive(c, s, g, a, (b - 1) as nat);
    }
}

/// For one seed, running a segment of `a` pulls and then one of `b` pulls gives, at the two
/// checkpoints, the states of one continuous trial after `a` and after `a + b` pulls.
pub proof fn lemma_checkpoint_additivity(c: BannerConfig, seed: u64, a: u64, b: u64)
    ensures
        prefix(seq![a, b], 1) == a,
        prefix(seq![a, b], 2) == a + b,
        run_pulls(c, start(c.width()), initial(seed), a as nat).0 == state_after(c, seed, a as nat),
        run_pulls(
            c,
            run_pulls(c, start(c.width()), initial(seed), a as nat).0,
            run_pulls(c, start(c.width()), initial(seed), a as nat).1,
            b as nat,
        ).0 == state_after(c, seed, (a + b) as nat),
{
    lemma_run_additive(c, start(c.width()), initial(seed), a as nat, b as nat);
    assert(prefix(seq![a, b], 1) == prefix(seq![a, b], 0) + a);
}

/// In every trial, at every number of pulls, the per-item counts of a tier sum to its
/// on-banner count.
pub proof fn lemma_aggregate_consistency(c: BannerConfig, seed: u64, n: nat)
    requires
        c.valid(),
        n < u64::MAX - PITY5_RESET,
    ensures
        total(state_after(c, seed, n).on_item6) == state_after(c, seed, n).on_banner6,
        total(state_after(c, seed, n).on_item5) == state_after(c, seed, n).on_banner5,
{
    crate::pull::lemma_total_zero(start(c.width()).on_item6);
    lemma_run_wf(c, start(c.width()), initial(seed), n);
}

pub proof fn lemma_index(q: int, ci: int, nq: int, nc: int)
    requires
        0 <= q < nq,
        0 <= ci < nc,
    ensures
        0 <= q * nc,
        0 <= q * nc + ci < nq * nc,
{
    assert(0 <= q * nc && 0 <= q * nc + ci < nq * nc) by (nonlinear_arith)
        requires 0 <= q < nq, 0 <= ci < nc;
}

pub proof fn lemma_index_distinct(q: int, ci: int, q2: int, c2: int, nc: int)
    requires
        0 <= q,
        0 <= q2,
        0 <= ci < nc,
        0 <= c2 < nc,
        q2 != q || c2 != ci,
    ensures
        q2 * nc + c2 != q * nc + ci,
{
    if q2 < q {
        assert(q2 * nc + c2 < q * nc + ci) by (nonlinear_arith)
            requires q2 < q, 0 <= c2 < nc, 0 <= ci;
    } else if q2 > q {
        assert(q2 * nc + c2 > q * nc + ci) by (nonlinear_arith)
            requires q2 > q, 0 <= ci < nc, 0 <= c2;
    }
}

/// Runs the trial of `seed` through every segment, and adds one to `counts[q * nc + ci]` for
/// each query `q` that holds at checkpoint `ci`.
pub fn run_trial(c: &BannerConfig, cps: &Vec<u64>, queries: &Vec<Query>, seed: u64, counts: &mut Vec<u64>)
    requires
        c.valid(),
        pulls_fit(cps@),
        old(counts)@.len() == queries@.len() * cps@.len(),
        forall|k: int| 0 <= k < old(counts)@.len() ==> old(counts)@[k] < u64::MAX,
    ensures
        final(counts)@.len() == old(counts)@.len(),
        forall|q: int, ci: int| 0 <= q < queries@.len() && 0 <= ci < cps@.len() ==>
            #[trigger] final(counts)@[q * cps@.len() + ci] == old(counts)@[q * cps@.len() + ci]
                + if holds(queries@[q].expr, state_after(*c, seed, prefix(cps@, ci + 1) as nat)) { 1int } else { 0int },
{
    let nc = cps.len();
    let nq = queries.len();
    let size = counts.len();
    let ghost w = c.width();
    let ghost init = initial(seed);
    let mut st = TrialState::new(c);
    let mut g = RandomStream::new(seed);
    let mut ci: usize = 0;
    while ci < nc
        invariant
            c.valid(),
            pulls_fit(cps@),
            nc == cps@.len(),
            nq == queries@.len(),
            ci <= nc,
            counts@.len() == old(counts)@.len(),
            counts@.len() == nq * nc,
            counts@.len() == size,
            forall|k: int| 0 <= k < old(counts)@.len() ==> old(counts)@[k] < u64::MAX,
            w == c.width(),
            init == initial(seed),
            st@.wf(*c),
            (st@, g) == run_pulls(*c, start(w), init, prefix(cps@, ci as int) as nat),
            st.pulls == prefix(cps@, ci as int),
            forall|q: int, c2: int| 0 <= q < nq && 0 <= c2 < nc ==>
                #[trigger] counts@[q * nc + c2] == old(counts)@[q * nc + c2]
                    + if c2 < ci && holds(queries@[q].expr, state_after(*c, seed, prefix(cps@, c2 + 1) as nat)) { 1int } else { 0int },
        decreases nc - ci,
    {
        proof {
            lemma_prefix_mono(cps@, ci + 1, nc as int);
            crate::pull::lemma_total_zero(start(w).on_item6);
        }
        let n = cps[ci];
        let mut j: u64 = 0;
        while j < n
            invariant
                c.valid(),
                j <= n,
                st@.wf(*c),
                st.pulls == prefix(cps@, ci as int) + j,
                prefix(cps@, ci as int) + n < u64::MAX - PITY5_RESET,
                (st@, g) == run_pulls(*c, start(w), init, (prefix(cps@, ci as int) + j) as nat),
            decreases n - j,
        {
            st.advance_one_pull(c, &mut g);
            j = j + 1;
        }
        assert(prefix(cps@, ci + 1) == prefix(cps@, ci as int) + n);
        let ghost here = st@;
        assert(here == state_after(*c, seed, prefix(cps@, ci + 1) as nat));
        let mut q: usize = 0;
        while q < nq
            invariant
                nc == cps@.len(),
                nq == queries@.len(),
                ci < nc,
                q <= nq,
                st@ == here,
                here == state_after(*c, seed, prefix(cps@, ci + 1) as nat),
                counts@.len() == nq * nc,
                counts@.len() == size,
                counts@.len() == old(counts)@.len(),
                forall|k: int| 0 <= k < old(counts)@.len() ==> old(counts)@[k] < u64::MAX,
                forall|q2: int, c2: int| 0 <= q2 < nq && 0 <= c2 < nc ==>
                    #[trigger] counts@[q2 * nc + c2] == old(counts)@[q2 * nc + c2]
                        + if (c2 < ci || (c2 == ci && q2 < q)) && holds(queries@[q2].expr, state_after(*c, seed, prefix(cps@, c2 + 1) as nat)) { 1int } else { 0int },
            decreases nq - q,
        {
            proof {
                lemma_index(q as int, ci as int, nq as int, nc as int);
                assert(counts@[q * nc + ci] == old(counts)@[q * nc + ci] + 0int);
                assert(old(counts)@[q * nc + ci] < u64::MAX);
            }
            let k = q * nc + ci;
            if queries[q].expr.holds_on(&st) {
                let v = counts[k] + 1;
                counts.set(k, v);
            }
            proof {
                assert forall|q2: int, c2: int| 0 <= q2 < nq && 0 <= c2 < nc implies
                    #[trigger] counts@[q2 * nc + c2] == old(counts)@[q2 * nc + c2]
                        + if (c2 < ci || (c2 == ci && q2 < q + 1)) && holds(queries@[q2].expr, state_after(*c, seed, prefix(cps@, c2 + 1) as nat)) { 1int } else { 0int } by {
                    lemma_index(q2, c2, nq as int, nc as int);
                    if q2 != q || c2 != ci {
                        lemma_index_distinct(q as int, ci as int, q2, c2, nc as int);
                    }
                }
            }
            q = q + 1;
        }
        ci = ci + 1;
    }
}

pub proof fn lemma_hits_le(c: BannerConfig, cps: Seq<u64>, e: Expr, ci: int, first: int, n: nat)
    ensures
        hits(c, cps, e, ci, first, n) <= n,
    decreases n,
{
    if n > 0 {
        lemma_hits_le(c, cps, e, ci, first, (n - 1) as nat);
    }
}

/// Counting over seeds `first .. first + a + b` is counting over `first .. first + a` and over
/// `first + a .. first + a + b` and adding: trials may be run in waves, in any order.
pub proof fn lemma_hits_split(c: BannerConfig, cps: Seq<u64>, e: Expr, ci: int, first: int, a: nat, b: nat)
    ensures
        hits(c, cps, e, ci, first, a + b) == hits(c, cps, e, ci, first, a) + hits(c, cps, e, ci, first + a, b),
    decreases b,
{
    if b > 0 {
        lemma_hits_split(c, cps, e, ci, first, a, (b - 1) as nat);
        assert(first + (a + b) - 1 == (first + a) + b - 1);
    }
}

/// Runs the trials of seeds `first .. first + n` and counts, for each query `q` and checkpoint
/// `ci`, the trials in which the query holds, at `q * cps.len() + ci`.
pub fn simulate(c: &BannerConfig, cps: &Vec<u64>, queries: &Vec<Query>, first: u64, n: u64) -> (r: Vec<u64>)
    requires
        c.valid(),
        pulls_fit(cps@),
        queries@.len() * cps@.len() <= usize::MAX,
        first + n <= u64::MAX,
    ensures
        r@.len() == queries@.len() * cps@.len(),
        forall|q: int, ci: int| 0 <= q < queries@.len() && 0 <= ci < cps@.len() ==>
            #[trigger] r@[q * cps@.len() + ci] == hits(*c, cps@, queries@[q].expr, ci, first as int, n as nat),
{
    let nc = cps.len();
    let nq = queries.len();
    let size = nq * nc;
    let mut counts: Vec<u64> = Vec::new();
    let mut k: usize = 0;
    while k < size
        invariant
            k <= size,
            counts@ == Seq::new(k as nat, |i: int| 0u64),
        decreases size - k,
    {
        counts.push(0);
        k = k + 1;
    }
    proof {
        assert forall|q: int, ci: int| 0 <= q < nq && 0 <= ci < nc implies
            #[trigger] counts@[q * nc + ci] == hits(*c, cps@, queries@[q].expr, ci, first as int, 0) by {
            lemma_index(q, ci, nq as int, nc as int);
        }
    }
    let mut t: u64 = 0;
    while t < n
        invariant
            c.valid(),
            pulls_fit(cps@),
            first + n <= u64::MAX,
            t <= n,
            nc == cps@.len(),
            nq == queries@.len(),
            counts@.len() == nq * nc,
            forall|q: int, ci: int| 0 <= q < nq && 0 <= ci < nc ==>
                #[trigger] counts@[q * nc + ci] == hits(*c, cps@, queries@[q].expr, ci, first as int, t as nat),
        decreases n - t,
    {
        proof {
            assert forall|k2: int| 0 <= k2 < counts@.len() implies counts@[k2] < u64::MAX by {
                let q = k2 / (nc as int);
                let ci = k2 % (nc as int);
                assert(nc > 0) by (nonlinear_arith)
                    requires 0 <= k2 < nq * nc, nc >= 0, nq >= 0;
                assert(k2 == q * nc + ci && 0 <= ci < nc) by (nonlinear_arith)
                    requires nc > 0, q == k2 / (nc as int), ci == k2 % (nc as int);
                assert(0 <= q < nq) by (nonlinear_arith)
                    requires k2 == q * nc + ci, 0 <= ci < nc, 0 <= k2 < nq * nc;
                assert(counts@[q * nc + ci] == hits(*c, cps@, queries@[q].expr, ci, first as int, t as nat));
                lemma_hits_le(*c, cps@, queries@[q].expr, ci, first as int, t as nat);
            }
        }
        let ghost before = counts@;
        run_trial(c, cps, queries, first + t, &mut counts);
        proof {
            assert forall|q: int, ci: int| 0 <= q < nq && 0 <= ci < nc implies
                #[trigger] counts@[q * nc + ci] == hits(*c, cps@, queries@[q].expr, ci, first as int, (t + 1) as nat) by {
                assert(before[q * nc + ci] == hits(*c, cps@, queries@[q].expr, ci, first as int, t as nat));
                assert(hits(*c, cps@, queries@[q].expr, ci, first as int, (t + 1) as nat)
                    == hits(*c, cps@, queries@[q].expr, ci, first as int, t as nat)
                        + if holds(queries@[q].expr, state_after(*c, (first + t) as u64, prefix(cps@, ci + 1) as nat)) { 1nat } else { 0nat });
            }
        }
        t = t + 1;
    }
    counts
}

} // verus!

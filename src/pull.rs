use vstd::prelude::*;
use crate::rng::{RandomStream, output, step};

verus! {

/// Largest number of rate-up items a tier may have.
pub const MAX_POOL: u64 = 16;

/// Value of `pity5` after any top- or second-tier hit; above the hard-pity trigger.
pub const PITY5_RESET: u64 = 10;

/// The `pity5` value at which the next pull is at least second tier.
pub const PITY5_HARD: u64 = 9;

/// The reward-tier configuration of a banner.
#[derive(Clone, Copy, Debug, PartialEq, Eq, Structural)]
pub struct BannerConfig {
    /// Rate-up items at the top tier.
    pub n6: u64,
    /// Rate-up items at the second tier.
    pub n5: u64,
    /// Earlier limited items; carried, not read by the draw.
    pub n6p: u64,
    /// Percent chance that a top-tier hit is on-banner.
    pub rate6b: u64,
    /// Percent chance that a second-tier hit is on-banner.
    pub rate5b: u64,
    /// Size of the standard pool; carried, not read by the draw.
    pub stdpool: u64,
}

/// Why a configuration is refused.
#[derive(Clone, Copy, Debug, PartialEq, Eq, Structural)]
pub enum ConfigError {
    RateOutOfRange,
    EmptyPool,
    PoolTooLarge,
}

impl BannerConfig {
    pub open spec fn valid(&self) -> bool {
        &&& self.rate6b <= 100
        &&& self.rate5b <= 100
        &&& 1 <= self.n6 <= MAX_POOL
        &&& 1 <= self.n5 <= MAX_POOL
    }

    /// Number of per-item slots a trial keeps for each tier.
    pub open spec fn width(&self) -> nat {
        if self.n6 >= self.n5 { self.n6 as nat } else { self.n5 as nat }
    }

    /// The error that `validate` gives, if any.
    pub open spec fn error(&self) -> Option<ConfigError> {
        if self.rate6b > 100 || self.rate5b > 100 {
            Some(ConfigError::RateOutOfRange)
        } else if self.n6 == 0 || self.n5 == 0 {
            Some(ConfigError::EmptyPool)
        } else if self.n6 > MAX_POOL || self.n5 > MAX_POOL {
            Some(ConfigError::PoolTooLarge)
        } else {
            None
        }
    }

    /// Accepts a configuration with rates in [0,100] and pool sizes in [1, MAX_POOL].
    pub fn validate(&self) -> (r: Result<(), ConfigError>)
        ensures
            r is Ok <==> self.valid(),
            self.error() is None <==> self.valid(),
            r is Err ==> r == Err::<(), ConfigError>(self.error().unwrap()),
    {
        if self.rate6b > 100 || self.rate5b > 100 {
            Err(ConfigError::RateOutOfRange)
        } else if self.n6 == 0 || self.n5 == 0 {
            Err(ConfigError::EmptyPool)
        } else if self.n6 > MAX_POOL || self.n5 > MAX_POOL {
            Err(ConfigError::PoolTooLarge)
        } else {
            Ok(())
        }
    }

    /// Number of per-item slots a trial keeps for each tier.
    pub fn slots(&self) -> (r: usize)
        requires
            self.valid(),
        ensures
            r == self.width(),
    {
        if self.n6 >= self.n5 { self.n6 as usize } else { self.n5 as usize }
    }
}

/// The percentage-point threshold below which a pull is top tier.
pub open spec fn threshold(pity6: int) -> int {
    if 2 * (pity6 - 49) > 2 { 2 * (pity6 - 49) } else { 2 }
}

/// `max(2, 2 * (pity6 - 49))`.
pub fn top_tier_threshold(pity6: u64) -> (r: u64)
    requires
        2 * (pity6 - 49) <= u64::MAX,
    ensures
        r == threshold(pity6 as int),
{
    if pity6 > 50 { 2 * (pity6 - 49) } else { 2 }
}

/// The sum of a sequence of counts.
pub open spec fn total(s: Seq<u64>) -> int
    decreases s.len(),
{
    if s.len() == 0 { 0 } else { total(s.drop_last()) + s.last() }
}

/// The counters of one trial.
pub struct TrialView {
    pub pity6: u64,
    pub pity5: u64,
    pub pulls: u64,
    pub on_item6: Seq<u64>,
    pub on_item5: Seq<u64>,
    pub on_banner6: u64,
    pub off_banner6: u64,
    pub on_banner5: u64,
    pub off_banner5: u64,
}

/// The state of one trial.
#[derive(Clone, Debug)]
pub struct TrialState {
    pub pity6: u64,
    pub pity5: u64,
    /// Pulls made so far.
    pub pulls: u64,
    pub on_item6: Vec<u64>,
    pub on_item5: Vec<u64>,
    pub on_banner6: u64,
    pub off_banner6: u64,
    pub on_banner5: u64,
    pub off_banner5: u64,
}

impl View for TrialState {
    type V = TrialView;

    open spec fn view(&self) -> TrialView {
        TrialView {
            pity6: self.pity6,
            pity5: self.pity5,
            pulls: self.pulls,
            on_item6: self.on_item6@,
            on_item5: self.on_item5@,
            on_banner6: self.on_banner6,
            off_banner6: self.off_banner6,
            on_banner5: self.on_banner5,
            off_banner5: self.off_banner5,
        }
    }
}

/// The state at the start of a trial.
pub open spec fn start(width: nat) -> TrialView {
    TrialView {
        pity6: 0,
        pity5: 0,
        pulls: 0,
        on_item6: Seq::new(width, |i: int| 0u64),
        on_item5: Seq::new(width, |i: int| 0u64),
        on_banner6: 0,
        off_banner6: 0,
        on_banner5: 0,
        off_banner5: 0,
    }
}

impl TrialView {
    /// What holds of every state a trial reaches.
    pub open spec fn wf(&self, c: BannerConfig) -> bool {
        &&& self.on_item6.len() == c.width()
        &&& self.on_item5.len() == c.width()
        &&& self.pity6 <= 99
        &&& self.pity5 <= self.pulls + PITY5_RESET
        &&& total(self.on_item6) == self.on_banner6
        &&& total(self.on_item5) == self.on_banner5
        &&& self.on_banner6 + self.off_banner6 + self.on_banner5 + self.off_banner5 <= self.pulls
    }

    /// Whether the tier-decision draw `r1` gives a top-tier hit.
    pub open spec fn is_top(&self, r1: u64) -> bool {
        (r1 % 100) < threshold(self.pity6 as int)
    }

    /// Whether the draw `r1` gives a second-tier hit.
    pub open spec fn is_second(&self, r1: u64) -> bool {
        !self.is_top(r1) && ((r1 % 100) < threshold(self.pity6 as int) + 8 || self.pity5 == PITY5_HARD)
    }
}

/// The state after one pull with the draws `r1` (tier), `r2` (rate-up) and `r3` (item).
pub open spec fn pull_with(c: BannerConfig, s: TrialView, r1: u64, r2: u64, r3: u64) -> TrialView {
    let pulls = (s.pulls + 1) as u64;
    if s.is_top(r1) {
        if (r2 % 100) < c.rate6b {
            let i = (r3 % c.n6) as int;
            TrialView {
                pity6: 0,
                pity5: PITY5_RESET,
                pulls,
                on_item6: s.on_item6.update(i, (s.on_item6[i] + 1) as u64),
                on_banner6: (s.on_banner6 + 1) as u64,
                ..s
            }
        } else {
            TrialView { pity6: 0, pity5: PITY5_RESET, pulls, off_banner6: (s.off_banner6 + 1) as u64, ..s }
        }
    } else if s.is_second(r1) {
        if (r2 % 100) < c.rate5b {
            let i = (r3 % c.n5) as int;
            TrialView {
                pity5: PITY5_RESET,
                pulls,
                on_item5: s.on_item5.update(i, (s.on_item5[i] + 1) as u64),
                on_banner5: (s.on_banner5 + 1) as u64,
                ..s
            }
        } else {
            TrialView { pity5: PITY5_RESET, pulls, off_banner5: (s.off_banner5 + 1) as u64, ..s }
        }
    } else {
        TrialView { pity6: (s.pity6 + 1) as u64, pity5: (s.pity5 + 1) as u64, pulls, ..s }
    }
}

/// The state and stream after one pull that draws its three values from `g`.
pub open spec fn pull_from(c: BannerConfig, s: TrialView, g: RandomStream) -> (TrialView, RandomStream) {
    let g1 = step(g);
    let g2 = step(g1);
    (pull_with(c, s, output(g), output(g1), output(g2)), step(g2))
}

/// Adding one to slot `i` adds one to the sum.
pub proof fn lemma_total_bump(s: Seq<u64>, i: int)
    requires
        0 <= i < s.len(),
        s[i] < u64::MAX,
    ensures
        total(s.update(i, (s[i] + 1) as u64)) == total(s) + 1,
    decreases s.len(),
{
    let u = s.update(i, (s[i] + 1) as u64);
    if i == s.len() - 1 {
        assert(u.drop_last() =~= s.drop_last());
    } else {
        lemma_total_bump(s.drop_last(), i);
        assert(u.drop_last() =~= s.drop_last().update(i, (s[i] + 1) as u64));
    }
}

/// A slot never exceeds the sum.
pub proof fn lemma_slot_le_total(s: Seq<u64>, i: int)
    requires
        0 <= i < s.len(),
    ensures
        s[i] <= total(s),
    decreases s.len(),
{
    if i < s.len() - 1 {
        lemma_slot_le_total(s.drop_last(), i);
    }
    lemma_total_nonneg(s.drop_last());
}

/// A sum of counts is not negative.
pub proof fn lemma_total_nonneg(s: Seq<u64>)
    ensures
        total(s) >= 0,
    decreases s.len(),
{
    if s.len() > 0 {
        lemma_total_nonneg(s.drop_last());
    }
}

/// One pull keeps every state invariant.
pub proof fn lemma_pull_keeps_wf(c: BannerConfig, s: TrialView, r1: u64, r2: u64, r3: u64)
    requires
        c.valid(),
        s.wf(c),
        s.pulls < u64::MAX - PITY5_RESET,
    ensures
        pull_with(c, s, r1, r2, r3).wf(c),
        pull_with(c, s, r1, r2, r3).pulls == s.pulls + 1,
{
    if s.is_top(r1) {
        if (r2 % 100) < c.rate6b {
            let i = (r3 % c.n6) as int;
            lemma_slot_le_total(s.on_item6, i);
            lemma_total_bump(s.on_item6, i);
        }
    } else if s.is_second(r1) {
        if (r2 % 100) < c.rate5b {
            let i = (r3 % c.n5) as int;
            lemma_slot_le_total(s.on_item5, i);
            lemma_total_bump(s.on_item5, i);
        }
    }
}

impl TrialState {
    /// A fresh trial for configuration `c`: every counter zero.
    pub fn new(c: &BannerConfig) -> (r: TrialState)
        requires
            c.valid(),
        ensures
            r@ == start(c.width()),
            r@.wf(*c),
    {
        let w = c.slots();
        let mut a: Vec<u64> = Vec::new();
        let mut i: usize = 0;
        while i < w
            invariant
                i <= w,
                a@ == Seq::new(i as nat, |j: int| 0u64),
            decreases w - i,
        {
            a.push(0);
            i = i + 1;
        }
        proof {
            assert(total(a@) == 0) by {
                lemma_total_zero(a@);
            }
        }
        TrialState {
            pity6: 0,
            pity5: 0,
            pulls: 0,
            on_item6: a.clone(),
            on_item5: a,
            on_banner6: 0,
            off_banner6: 0,
            on_banner5: 0,
            off_banner5: 0,
        }
    }

    /// One pull with the given draws: `r1` decides the tier, `r2` on- or off-banner, `r3` the item.
    pub fn apply_pull(&mut self, c: &BannerConfig, r1: u64, r2: u64, r3: u64)
        requires
            c.valid(),
            old(self)@.wf(*c),
            old(self).pulls < u64::MAX - PITY5_RESET,
        ensures
            final(self)@ == pull_with(*c, old(self)@, r1, r2, r3),
            final(self)@.wf(*c),
    {
        proof {
            lemma_pull_keeps_wf(*c, self@, r1, r2, r3);
        }
        let add6 = top_tier_threshold(self.pity6);
        let t = r1 % 100;
        let b = r2 % 100;
        self.pulls = self.pulls + 1;
        if t < add6 {
            self.pity6 = 0;
            self.pity5 = PITY5_RESET;
            if b < c.rate6b {
                let i = (r3 % c.n6) as usize;
                proof { lemma_slot_le_total(self.on_item6@, i as int); }
                let v = self.on_item6[i] + 1;
                self.on_item6.set(i, v);
                self.on_banner6 = self.on_banner6 + 1;
            } else {
                self.off_banner6 = self.off_banner6 + 1;
            }
        } else if t < add6 + 8 || self.pity5 == PITY5_HARD {
            self.pity5 = PITY5_RESET;
            if b < c.rate5b {
                let i = (r3 % c.n5) as usize;
                proof { lemma_slot_le_total(self.on_item5@, i as int); }
                let v = self.on_item5[i] + 1;
                self.on_item5.set(i, v);
                self.on_banner5 = self.on_banner5 + 1;
            } else {
                self.off_banner5 = self.off_banner5 + 1;
            }
        } else {
            self.pity6 = self.pity6 + 1;
            self.pity5 = self.pity5 + 1;
        }
    }

    /// One pull that draws its three values from `g`, in order.
    pub fn advance_one_pull(&mut self, c: &BannerConfig, g: &mut RandomStream)
        requires
            c.valid(),
            old(self)@.wf(*c),
            old(self).pulls < u64::MAX - PITY5_RESET,
        ensures
            (final(self)@, *final(g)) == pull_from(*c, old(self)@, *old(g)),
            final(self)@.wf(*c),
    {
        let r1 = g.next_u64();
        let r2 = g.next_u64();
        let r3 = g.next_u64();
        self.apply_pull(c, r1, r2, r3);
    }
}

/// A sequence of zeros sums to zero.
pub proof fn lemma_total_zero(s: Seq<u64>)
    requires
        forall|i: int| 0 <= i < s.len() ==> s[i] == 0,
    ensures
        total(s) == 0,
    decreases s.len(),
{
    if s.len() > 0 {
        lemma_total_zero(s.drop_last());
    }
}

/// Whether the pull with tier draw `r1` from `s` is a miss: neither top nor second tier.
pub open spec fn is_miss(s: TrialView, r1: u64) -> bool {
    !s.is_top(r1) && !s.is_second(r1)
}

/// The state after the first `n` pulls from `s`, pull `i` using draws `r1[i]`, `r2[i]`, `r3[i]`.
pub open spec fn pulls_with(c: BannerConfig, s: TrialView, r1: Seq<u64>, r2: Seq<u64>, r3: Seq<u64>, n: nat) -> TrialView
    decreases n,
{
    if n == 0 {
        s
    } else {
        let p = pulls_with(c, s, r1, r2, r3, (n - 1) as nat);
        pull_with(c, p, r1[n - 1], r2[n - 1], r3[n - 1])
    }
}

/// A trial whose first nine pulls are all misses gets at least a second-tier hit on the
/// tenth, whatever its tier draw.
pub proof fn lemma_hard_second_tier_pity(c: BannerConfig, r1: Seq<u64>, r2: Seq<u64>, r3: Seq<u64>)
    requires
        r1.len() == 10,
        r2.len() == 10,
        r3.len() == 10,
        forall|i: int| 0 <= i < 9 ==> #[trigger] is_miss(pulls_with(c, start(c.width()), r1, r2, r3, i as nat), r1[i]),
    ensures
        !is_miss(pulls_with(c, start(c.width()), r1, r2, r3, 9), r1[9]),
        pulls_with(c, start(c.width()), r1, r2, r3, 10).pity5 == PITY5_RESET,
{
    let s0 = start(c.width());
    assert forall|n: nat| n <= 9 implies #[trigger] pulls_with(c, s0, r1, r2, r3, n).pity5 == n by {
        lemma_misses_count(c, s0, r1, r2, r3, n);
    }
    let s9 = pulls_with(c, s0, r1, r2, r3, 9);
    assert(s9.pity5 == PITY5_HARD);
    assert(pulls_with(c, s0, r1, r2, r3, 10) == pull_with(c, s9, r1[9], r2[9], r3[9]));
}

proof fn lemma_misses_count(c: BannerConfig, s0: TrialView, r1: Seq<u64>, r2: Seq<u64>, r3: Seq<u64>, n: nat)
    requires
        n <= 9,
        s0.pity5 == 0,
        forall|i: int| 0 <= i < 9 ==> #[trigger] is_miss(pulls_with(c, s0, r1, r2, r3, i as nat), r1[i]),
    ensures
        pulls_with(c, s0, r1, r2, r3, n).pity5 == n,
    decreases n,
{
    if n > 0 {
        lemma_misses_count(c, s0, r1, r2, r3, (n - 1) as nat);
        assert(is_miss(pulls_with(c, s0, r1, r2, r3, (n - 1) as nat), r1[n - 1]));
    }
}

/// With `rate6b` at 100 every top-tier hit is on-banner; at 0 every one is off-banner.
pub proof fn lemma_rate_up_boundary(c: BannerConfig, s: TrialView, r1: u64, r2: u64, r3: u64)
    requires
        c.valid(),
        s.wf(c),
        s.pulls < u64::MAX,
        s.is_top(r1),
    ensures
        c.rate6b == 100 ==> pull_with(c, s, r1, r2, r3).on_banner6 == s.on_banner6 + 1
            && pull_with(c, s, r1, r2, r3).off_banner6 == s.off_banner6,
        c.rate6b == 0 ==> pull_with(c, s, r1, r2, r3).off_banner6 == s.off_banner6 + 1
            && pull_with(c, s, r1, r2, r3).on_banner6 == s.on_banner6,
{
    assert(r2 % 100 < 100);
    if c.rate6b == 100 && (r2 % 100) < c.rate6b {
        lemma_slot_le_total(s.on_item6, (r3 % c.n6) as int);
    }
}

/// With one top-tier rate-up item, every on-banner top-tier hit goes to item 0 and no other.
pub proof fn lemma_single_item_pool(c: BannerConfig, s: TrialView, r1: u64, r2: u64, r3: u64)
    requires
        c.valid(),
        s.wf(c),
        c.n6 == 1,
        s.is_top(r1),
        (r2 % 100) < c.rate6b,
    ensures
        pull_with(c, s, r1, r2, r3).on_item6 == s.on_item6.update(0, (s.on_item6[0] + 1) as u64),
{
}

} // verus!

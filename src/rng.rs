use vstd::prelude::*;

verus! {

/// First seed-mixing constant: leading hexadecimal digits of pi.
pub const SEED_MIX_A: u64 = 0x243F6A8885A308D3;

/// Second seed-mixing constant: leading hexadecimal digits of e.
pub const SEED_MIX_B: u64 = 0x93C467E37DB0C7A4;

/// Number of steps taken and discarded after seeding.
pub const WARM_UP_STEPS: u64 = 10;

/// A deterministic pseudo-random stream: the four state words of xoshiro256++.
#[derive(Clone, Copy, Debug, PartialEq, Eq, Structural)]
pub struct RandomStream {
    pub s0: u64,
    pub s1: u64,
    pub s2: u64,
    pub s3: u64,
}

/// Left rotation of a 64-bit word by `k` places.
pub open spec fn rotl(x: u64, k: u64) -> u64 {
    (x << k) | (x >> (64 - k) as u64)
}

/// The state that follows `s`.
pub open spec fn step(s: RandomStream) -> RandomStream {
    let t = s.s1 << 17u64;
    let s2 = s.s2 ^ s.s0;
    let s3 = s.s3 ^ s.s1;
    let s1 = s.s1 ^ s2;
    let s0 = s.s0 ^ s3;
    RandomStream { s0, s1, s2: s2 ^ t, s3: rotl(s3, 45) }
}

/// The value that state `s` emits.
pub open spec fn output(s: RandomStream) -> u64 {
    rotl(s.s0.wrapping_add(s.s3), 23).wrapping_add(s.s0)
}

/// `s` advanced by `n` steps.
pub open spec fn steps(s: RandomStream, n: nat) -> RandomStream
    decreases n,
{
    if n == 0 {
        s
    } else {
        step(steps(s, (n - 1) as nat))
    }
}

/// The state that a seed gives before warm-up.
pub open spec fn seeded(seed: u64) -> RandomStream {
    RandomStream { s0: seed, s1: seed ^ SEED_MIX_A, s2: !seed, s3: seed ^ SEED_MIX_B }
}

/// The state that a seed gives, warm-up included.
pub open spec fn initial(seed: u64) -> RandomStream {
    steps(seeded(seed), WARM_UP_STEPS as nat)
}

/// The first `n` values emitted from state `s`.
pub open spec fn emitted(s: RandomStream, n: nat) -> Seq<u64>
    decreases n,
{
    if n == 0 {
        Seq::empty()
    } else {
        emitted(s, (n - 1) as nat).push(output(steps(s, (n - 1) as nat)))
    }
}

/// The first `n` values of the stream of `seed`.
pub open spec fn stream(seed: u64, n: nat) -> Seq<u64> {
    emitted(initial(seed), n)
}

fn rotate(x: u64, k: u64) -> (r: u64)
    requires
        0 < k < 64,
    ensures
        r == rotl(x, k),
{
    (x << k) | (x >> (64 - k))
}

impl RandomStream {
    /// The stream of a seed, after the warm-up steps.
    pub fn new(seed: u64) -> (r: RandomStream)
        ensures
            r == initial(seed),
    {
        let mut s = RandomStream {
            s0: seed,
            s1: seed ^ SEED_MIX_A,
            s2: !seed,
            s3: seed ^ SEED_MIX_B,
        };
        let mut i: u64 = 0;
        while i < WARM_UP_STEPS
            invariant
                i <= WARM_UP_STEPS,
                s == steps(seeded(seed), i as nat),
            decreases WARM_UP_STEPS - i,
        {
            s.advance();
            i = i + 1;
        }
        s
    }

    /// Replaces the state by the one that follows it.
    pub fn advance(&mut self)
        ensures
            *final(self) == step(*old(self)),
    {
        let t = self.s1 << 17u64;
        self.s2 = self.s2 ^ self.s0;
        self.s3 = self.s3 ^ self.s1;
        self.s1 = self.s1 ^ self.s2;
        self.s0 = self.s0 ^ self.s3;
        self.s2 = self.s2 ^ t;
        self.s3 = rotate(self.s3, 45);
    }

    /// The value of the current state, then one step.
    pub fn next_u64(&mut self) -> (r: u64)
        ensures
            r == output(*old(self)),
            *final(self) == step(*old(self)),
    {
        let r = rotate(self.s0.wrapping_add(self.s3), 23).wrapping_add(self.s0);
        self.advance();
        r
    }
}

/// The first `n` values of the stream of `seed`.
pub fn draw_sequence(seed: u64, n: usize) -> (r: Vec<u64>)
    ensures
        r@ == stream(seed, n as nat),
{
    let mut g = RandomStream::new(seed);
    let mut out: Vec<u64> = Vec::new();
    let mut i: usize = 0;
    while i < n
        invariant
            i <= n,
            out@ == stream(seed, i as nat),
            g == steps(initial(seed), i as nat),
        decreases n - i,
    {
        out.push(g.next_u64());
        i = i + 1;
    }
    out
}

/// Two streams started from the same seed emit the same values, however many are drawn.
pub proof fn lemma_same_seed_same_stream(a: u64, b: u64, n: nat)
    requires
        a == b,
    ensures
        stream(a, n) == stream(b, n),
{
}

} // verus!

use vstd::prelude::*;

verus! {

/// State of the xorshift128 generator (Marsaglia) that turns one master seed
/// into the per-trial seed stream.
///
/// Reproducibility of a whole simulation batch rests on this generator being
/// a pure function of the master seed: trial `i` always receives the same
/// sub-seed, no matter how many trials run or how they are scheduled.
#[derive(Clone, Copy, PartialEq, Eq, Structural)]
pub struct XorShift128 {
    pub x: u32,
    pub y: u32,
    pub z: u32,
    pub w: u32,
}

/// One xorshift128 step: the next state after drawing one word.
pub open spec fn xs_step(s: XorShift128) -> XorShift128 {
    let t = s.x ^ (s.x << 11);
    XorShift128 {
        x: s.y,
        y: s.z,
        z: s.w,
        w: (s.w ^ (s.w >> 19)) ^ (t ^ (t >> 8)),
    }
}

/// The word produced by one step: the freshly computed `w`.
pub open spec fn xs_output(s: XorShift128) -> u32 {
    xs_step(s).w
}

/// The state after `n` steps.
pub open spec fn xs_iter(s: XorShift128, n: nat) -> XorShift128
    decreases n,
{
    if n == 0 {
        s
    } else {
        xs_step(xs_iter(s, (n - 1) as nat))
    }
}

/// The low byte of a drawn word; a sub-seed byte keeps only this much.
pub open spec fn low_byte(w: u32) -> u8 {
    (w % 0x100) as u8
}

/// Stepping `a + b` times is stepping `a` times, then `b` more.
pub proof fn lemma_xs_iter_add(s: XorShift128, a: nat, b: nat)
    ensures
        xs_iter(s, a + b) == xs_iter(xs_iter(s, a), b),
    decreases b,
{
    if b > 0 {
        lemma_xs_iter_add(s, a, (b - 1) as nat);
    }
}

/// The little-endian 32-bit word held in bytes `4k .. 4k + 4` of a seed.
pub open spec fn le_word(seed: Seq<u8>, k: int) -> u32 {
    (seed[4 * k] + seed[4 * k + 1] * 0x100 + seed[4 * k + 2] * 0x10000 + seed[4 * k + 3]
        * 0x1000000) as u32
}

/// Replacement state for the all-zero seed, which xorshift cannot use.
pub open spec fn fallback_state() -> XorShift128 {
    XorShift128 { x: 0x0BAD_5EED, y: 0x0BAD_5EED, z: 0x0BAD_5EED, w: 0x0BAD_5EED }
}

/// The generator state seeded from 16 bytes: four little-endian words,
/// with the all-zero seed replaced by a fixed nonzero state.
pub open spec fn seeded_state(seed: Seq<u8>) -> XorShift128 {
    let s = XorShift128 {
        x: le_word(seed, 0),
        y: le_word(seed, 1),
        z: le_word(seed, 2),
        w: le_word(seed, 3),
    };
    if s.x == 0 && s.y == 0 && s.z == 0 && s.w == 0 {
        fallback_state()
    } else {
        s
    }
}

/// Byte `k` of the byte stream drawn from `master`: the low byte of the
/// `k`-th word.
pub open spec fn sub_seed_byte(master: Seq<u8>, k: nat) -> u8 {
    low_byte(xs_output(xs_iter(seeded_state(master), k)))
}

/// The 16-byte seed handed to trial `i`: bytes `16 i .. 16 i + 16` of the
/// byte stream drawn from `master`.
pub open spec fn sub_seed(master: Seq<u8>, i: nat) -> Seq<u8> {
    Seq::new(16, |j: int| sub_seed_byte(master, (16 * i + j) as nat))
}

/// The seeds of trials `0 .. n`, in trial order.
pub open spec fn sub_seeds(master: Seq<u8>, n: nat) -> Seq<Seq<u8>> {
    Seq::new(n, |i: int| sub_seed(master, i as nat))
}

impl XorShift128 {
    /// Builds the generator state from a 16-byte master seed.
    pub fn from_seed_bytes(seed: &[u8; 16]) -> (s: Self)
        ensures
            s == seeded_state(seed@),
    {
        let x: u32 = seed[0] as u32 + seed[1] as u32 * 0x100 + seed[2] as u32 * 0x10000 + seed[3]
            as u32 * 0x1000000;
        let y: u32 = seed[4] as u32 + seed[5] as u32 * 0x100 + seed[6] as u32 * 0x10000 + seed[7]
            as u32 * 0x1000000;
        let z: u32 = seed[8] as u32 + seed[9] as u32 * 0x100 + seed[10] as u32 * 0x10000 + seed[11]
            as u32 * 0x1000000;
        let w: u32 = seed[12] as u32 + seed[13] as u32 * 0x100 + seed[14] as u32 * 0x10000
            + seed[15] as u32 * 0x1000000;
        if x == 0 && y == 0 && z == 0 && w == 0 {
            XorShift128 { x: 0x0BAD_5EED, y: 0x0BAD_5EED, z: 0x0BAD_5EED, w: 0x0BAD_5EED }
        } else {
            XorShift128 { x, y, z, w }
        }
    }

    /// Draws the next 16-byte sub-seed: sixteen words in sequence,
    /// keeping the low byte of each.
    pub fn next_seed(&mut self) -> (r: [u8; 16])
        ensures
            *final(self) == xs_iter(*old(self), 16),
            forall|j: int|
                0 <= j < 16 ==> r@[j] == low_byte(xs_output(xs_iter(*old(self), j as nat))),
    {
        let ghost start: XorShift128 = *self;
        let mut r: [u8; 16] = [0u8; 16];
        for j in 0..16usize
            invariant
                *self == xs_iter(start, j as nat),
                forall|k: int|
                    0 <= k < j ==> r@[k] == low_byte(xs_output(xs_iter(start, k as nat))),
        {
            let word: u32 = self.next_u32();
            r[j] = (word % 0x100) as u8;
            proof {
                assert(xs_step(xs_iter(start, j as nat)) == xs_iter(start, j as nat + 1));
            }
        }
        r
    }

    /// Advances the generator one step and returns the drawn word.
    pub fn next_u32(&mut self) -> (r: u32)
        ensures
            *final(self) == xs_step(*old(self)),
            r == xs_output(*old(self)),
    {
        let x: u32 = self.x;
        let t: u32 = x ^ (x << 11u32);
        self.x = self.y;
        self.y = self.z;
        self.z = self.w;
        self.w = (self.w ^ (self.w >> 19u32)) ^ (t ^ (t >> 8u32));
        self.w
    }
}

/// Derives the per-trial seeds from one master seed, sequentially and
/// deterministically: trial `i` receives `sub_seed(master, i)`, a pure
/// function of the master seed and the trial index alone, so that a batch
/// rerun with the same master seed replays the same random streams however
/// the trials are later scheduled.
pub fn derive_trial_seeds(master: &[u8; 16], count: usize) -> (r: Vec<[u8; 16]>)
    ensures
        r@.len() == count,
        forall|i: int| 0 <= i < count ==> r@[i]@ == sub_seed(master@, i as nat),
{
    let mut rng = XorShift128::from_seed_bytes(master);
    let mut r: Vec<[u8; 16]> = Vec::new();
    for i in 0..count
        invariant
            rng == xs_iter(seeded_state(master@), 16 * (i as nat)),
            r@.len() == i,
            forall|k: int| 0 <= k < i ==> r@[k]@ == sub_seed(master@, k as nat),
    {
        let s = rng.next_seed();
        proof {
            assert forall|j: int| 0 <= j < 16 implies s@[j] == sub_seed(master@, i as nat)[j] by {
                lemma_xs_iter_add(seeded_state(master@), 16 * (i as nat), j as nat);
            }
            assert(s@ =~= sub_seed(master@, i as nat));
            lemma_xs_iter_add(seeded_state(master@), 16 * (i as nat), 16);
        }
        r.push(s);
    }
    r
}

/// Law: the seed of a given trial does not depend on how many trials the
/// batch runs. Together with `derive_trial_seeds` returning exactly
/// `sub_seeds(master, count)`, this is what makes a batch reproducible under
/// re-partitioning: enlarging or shrinking the batch, or reordering its
/// parallel execution, never changes the random stream of an existing trial.
pub proof fn lemma_trial_seeds_prefix_stable(master: Seq<u8>, n1: nat, n2: nat)
    requires
        n1 <= n2,
    ensures
        sub_seeds(master, n1) == sub_seeds(master, n2).take(n1 as int),
{
    assert(sub_seeds(master, n1) =~= sub_seeds(master, n2).take(n1 as int));
}

} // verus!

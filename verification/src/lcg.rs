//! A 64-bit linear congruential generator, the only source of randomness of the dataset.
use vstd::prelude::*;

verus! {

/// Multiplier of the generator.
pub const LCG_MULTIPLIER: u64 = 6364136223846793005;

/// Increment of the generator.
pub const LCG_INCREMENT: u64 = 1442695040888963407;

/// Mask xored into the seed before the first step.
pub const SEED_MASK: u64 = 0xdead_beef_cafe_babe;

/// One past the largest value of `frac_bits`: fractions have 53 significant bits.
pub const UNIT: u64 = 0x20_0000_0000_0000;

/// The state that follows `s`: `s * LCG_MULTIPLIER + LCG_INCREMENT` modulo 2^64.
pub open spec fn lcg_step(s: u64) -> u64 {
    ((s as int * LCG_MULTIPLIER as int + LCG_INCREMENT as int) % 0x1_0000_0000_0000_0000) as u64
}

/// The 53 high bits of the state that follows `s`: the numerator of a fraction in [0, 1)
/// whose denominator is `UNIT`.
pub open spec fn frac_draw(s: u64) -> (u64, u64) {
    (lcg_step(s) >> 11u64, lcg_step(s))
}

/// What `range(lo, hi)` returns from state `s`, with the state it leaves.
pub open spec fn range_draw(s: u64, lo: usize, hi: usize) -> (usize, u64) {
    if hi <= lo {
        (lo, s)
    } else {
        ((lo + (lcg_step(s) as usize) % ((hi - lo) as usize)) as usize, lcg_step(s))
    }
}

/// The size of the hot part of `total` items of which `hot_count` are meant to be hot.
pub open spec fn hot_part(total: usize, hot_count: usize) -> usize {
    if hot_count < total { hot_count } else { total }
}

/// What `biased(total, hot_count, hot_cutoff)` returns from state `s`, with the state it
/// leaves: a fraction is drawn; below the cutoff the index is drawn among the hot items,
/// otherwise among the others.
pub open spec fn biased_draw(s: u64, total: usize, hot_count: usize, hot_cutoff: u64) -> (usize, u64) {
    let hot = hot_part(total, hot_count);
    let (bits, s1) = frac_draw(s);
    if bits < hot_cutoff {
        range_draw(s1, 0, hot)
    } else {
        range_draw(s1, hot, total)
    }
}

/// `n` successive draws of `range(0, hi)` from state `s`, with the state they leave.
pub open spec fn draw_seq(s: u64, n: nat, hi: usize) -> (Seq<usize>, u64)
    decreases n,
{
    if n == 0 {
        (Seq::empty(), s)
    } else {
        let (prev, s1) = draw_seq(s, (n - 1) as nat, hi);
        let (v, s2) = range_draw(s1, 0, hi);
        (prev.push(v), s2)
    }
}

/// `draw_seq` makes `n` draws.
pub proof fn lemma_draw_seq_len(s: u64, n: nat, hi: usize)
    ensures
        draw_seq(s, n, hi).0.len() == n,
    decreases n,
{
    if n > 0 {
        lemma_draw_seq_len(s, (n - 1) as nat, hi);
    }
}

/// Every one of `n` draws of `range(0, hi)` lies below `hi`, for `hi > 0`.
pub proof fn lemma_draw_seq_below(s: u64, n: nat, hi: usize)
    requires
        hi > 0,
    ensures
        forall|k: int| 0 <= k < n ==> #[trigger] draw_seq(s, n, hi).0[k] < hi,
    decreases n,
{
    lemma_draw_seq_len(s, n, hi);
    if n > 0 {
        lemma_draw_seq_below(s, (n - 1) as nat, hi);
        lemma_draw_seq_len(s, (n - 1) as nat, hi);
        let (prev, s1) = draw_seq(s, (n - 1) as nat, hi);
        assert forall|k: int| 0 <= k < n implies #[trigger] draw_seq(s, n, hi).0[k] < hi by {
            if k < n - 1 {
                assert(draw_seq(s, n, hi).0[k] == prev[k]);
            }
        }
    }
}

/// The generator: its whole state is one 64-bit word.
pub struct Lcg(u64);

impl View for Lcg {
    type V = u64;

    closed spec fn view(&self) -> u64 {
        self.0
    }
}

proof fn lemma_step_wrapping(s: u64)
    ensures
        vstd::wrapping::u64_specs::wrapping_add(
            vstd::wrapping::u64_specs::wrapping_mul(s, LCG_MULTIPLIER),
            LCG_INCREMENT,
        ) == lcg_step(s),
{
    let m = (s as nat * LCG_MULTIPLIER as nat) % 0x1_0000_0000_0000_0000nat;
    let full = s as int * LCG_MULTIPLIER as int + LCG_INCREMENT as int;
    assert(full % 0x1_0000_0000_0000_0000 == (m + LCG_INCREMENT as int) % 0x1_0000_0000_0000_0000)
        by {
        vstd::arithmetic::div_mod::lemma_add_mod_noop(
            s as int * LCG_MULTIPLIER as int,
            LCG_INCREMENT as int,
            0x1_0000_0000_0000_0000,
        );
        vstd::arithmetic::div_mod::lemma_mod_twice(LCG_INCREMENT as int, 0x1_0000_0000_0000_0000);
        vstd::arithmetic::div_mod::lemma_small_mod(LCG_INCREMENT as nat, 0x1_0000_0000_0000_0000nat);
    }
    if m + LCG_INCREMENT as int >= 0x1_0000_0000_0000_0000 {
        vstd::arithmetic::div_mod::lemma_fundamental_div_mod_converse(
            m + LCG_INCREMENT as int,
            0x1_0000_0000_0000_0000,
            1,
            m + LCG_INCREMENT as int - 0x1_0000_0000_0000_0000,
        );
    } else {
        vstd::arithmetic::div_mod::lemma_small_mod(
            (m + LCG_INCREMENT as int) as nat,
            0x1_0000_0000_0000_0000nat,
        );
    }
}

impl Lcg {
    /// A generator seeded with `seed`, which is first xored with `SEED_MASK`.
    pub fn new(seed: u64) -> (rng: Lcg)
        ensures
            rng@ == seed ^ SEED_MASK,
    {
        Lcg(seed ^ SEED_MASK)
    }

    /// Advances the state one step and returns the new state.
    pub fn next(&mut self) -> (v: u64)
        ensures
            final(self)@ == lcg_step(old(self)@),
            v == final(self)@,
    {
        proof {
            lemma_step_wrapping(self.0);
        }
        self.0 = self.0.wrapping_mul(LCG_MULTIPLIER).wrapping_add(LCG_INCREMENT);
        self.0
    }

    /// Uniform integer in `[lo, hi)`; `lo` itself, with the state untouched, when `hi <= lo`.
    pub fn range(&mut self, lo: usize, hi: usize) -> (v: usize)
        ensures
            (v, final(self)@) == range_draw(old(self)@, lo, hi),
            hi <= lo ==> v == lo,
            lo < hi ==> lo <= v < hi,
    {
        if hi <= lo {
            return lo;
        }
        let x = self.next() as usize;
        lo + x % (hi - lo)
    }

    /// Draws a fraction in [0, 1) with 53 bits of precision and returns its numerator over
    /// `UNIT`.
    pub fn frac_bits(&mut self) -> (bits: u64)
        ensures
            (bits, final(self)@) == frac_draw(old(self)@),
            bits < UNIT,
    {
        let x = self.next();
        assert(x >> 11u64 < 0x20_0000_0000_0000u64) by (bit_vector);
        x >> 11
    }

    /// Picks an index in `[0, total)`, biased toward the first `hot_count` items: a fraction
    /// is drawn, and if it lies below `hot_cutoff / UNIT` the index is one of the hot items.
    pub fn biased(&mut self, total: usize, hot_count: usize, hot_cutoff: u64) -> (v: usize)
        ensures
            (v, final(self)@) == biased_draw(old(self)@, total, hot_count, hot_cutoff),
            hot_count < total ==> v < total,
            0 < total && hot_cutoff >= UNIT ==> v < total,
    {
        let hot = if hot_count < total { hot_count } else { total };
        if self.frac_bits() < hot_cutoff {
            self.range(0, hot)
        } else {
            self.range(hot, total)
        }
    }
}

} // verus!

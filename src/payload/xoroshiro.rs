//! Xoroshiro128++ payload: a two-word generator state, one output per call.

use vstd::prelude::*;
use crate::measure::{elapsed, now};
use crate::stats::{max_of, mean_of, min_of, std_dev_of, BenchStats};

verus! {

/// `x` rotated left by `k` bits, `0 < k < 64`.
pub open spec fn rotl(x: u64, k: u64) -> u64 {
    (x << k) | (x >> (64 - k) as u64)
}

/// Output for state `(s0, s1)`: `rotl(s0 + s1, 17) + s0`, additions modulo
/// 2^64.
pub open spec fn output_of(s0: u64, s1: u64) -> u64 {
    let sum = ((s0 as int + s1 as int) % 0x1_0000_0000_0000_0000) as u64;
    ((rotl(sum, 17) as int + s0 as int) % 0x1_0000_0000_0000_0000) as u64
}

/// State after one step from `(s0, s1)`: with `t = s0 ^ s1`, the new state is
/// `(rotl(s0, 49) ^ t ^ (t << 21), rotl(t, 28))`.
pub open spec fn next_state(s0: u64, s1: u64) -> (u64, u64) {
    let t = s1 ^ s0;
    (rotl(s0, 49) ^ t ^ (t << 21u64), rotl(t, 28))
}

proof fn lemma_wrapping_add_u64(a: u64, b: u64)
    ensures
        a.wrapping_add(b) == ((a as int + b as int) % 0x1_0000_0000_0000_0000) as u64,
{
    if a as int + b as int > u64::MAX {
        vstd::arithmetic::div_mod::lemma_mod_add_multiples_vanish(
            a as int + b as int - 0x1_0000_0000_0000_0000,
            0x1_0000_0000_0000_0000,
        );
        vstd::arithmetic::div_mod::lemma_small_mod(
            (a as int + b as int - 0x1_0000_0000_0000_0000) as nat,
            0x1_0000_0000_0000_0000,
        );
    } else {
        vstd::arithmetic::div_mod::lemma_small_mod((a + b) as nat, 0x1_0000_0000_0000_0000);
    }
}

/// Reference Xoroshiro128++ step: returns the output for the current state
/// and advances the state.
pub fn xoroshiro_original(seed_lo: &mut u64, seed_hi: &mut u64) -> (r: u64)
    ensures
        r == output_of(*old(seed_lo), *old(seed_hi)),
        (*final(seed_lo), *final(seed_hi)) == next_state(*old(seed_lo), *old(seed_hi)),
{
    let s0 = *seed_lo;
    let s1 = *seed_hi;
    let sum = s0.wrapping_add(s1);
    let result = ((sum << 17u64) | (sum >> 47u64)).wrapping_add(s0);
    proof {
        lemma_wrapping_add_u64(s0, s1);
        lemma_wrapping_add_u64((sum << 17u64) | (sum >> 47u64), s0);
    }
    let t = s1 ^ s0;
    *seed_lo = ((s0 << 49u64) | (s0 >> 15u64)) ^ t ^ (t << 21u64);
    *seed_hi = (t << 28u64) | (t >> 36u64);
    result
}

/// State after `n` steps from `(s0, s1)`.
pub open spec fn state_after(s0: u64, s1: u64, n: nat) -> (u64, u64)
    decreases n,
{
    if n == 0 {
        (s0, s1)
    } else {
        let p = state_after(s0, s1, (n - 1) as nat);
        next_state(p.0, p.1)
    }
}

/// The first `n` outputs from state `(s0, s1)`.
pub open spec fn stream(s0: u64, s1: u64, n: nat) -> Seq<u64> {
    Seq::new(n, |k: int| output_of(state_after(s0, s1, k as nat).0, state_after(s0, s1, k as nat).1))
}

/// The first `count` outputs of the reference generator from state
/// `(seed_lo, seed_hi)`.
pub fn generate_stream(seed_lo: u64, seed_hi: u64, count: usize) -> (r: Vec<u64>)
    ensures
        r@ == stream(seed_lo, seed_hi, count as nat),
{
    let mut out: Vec<u64> = Vec::new();
    let mut s0 = seed_lo;
    let mut s1 = seed_hi;
    let mut i: usize = 0;
    while i < count
        invariant
            i <= count,
            (s0, s1) == state_after(seed_lo, seed_hi, i as nat),
            out@ =~= stream(seed_lo, seed_hi, i as nat),
        decreases count - i,
    {
        let x = xoroshiro_original(&mut s0, &mut s1);
        out.push(x);
        i = i + 1;
    }
    out
}

/// Samples that `benchmark_variant` takes.
pub const BENCH_SAMPLES: usize = 30;

/// Times `func` generating `size` outputs at a time: after a warmup, 30
/// samples, each the time of `max(total_iterations / 30, 1)` batches divided
/// by that batch count; returns their statistics.
pub fn benchmark_variant<F: Fn(&mut u64, &mut u64) -> u64>(
    func: &F,
    size: usize,
    total_iterations: usize,
) -> (r: BenchStats)
    requires
        forall|a: &mut u64, b: &mut u64| func.requires((a, b)),
    ensures
        exists|times: Seq<u64>|
            times.len() == BENCH_SAMPLES && r.avg == mean_of(times) && r.min == min_of(times) && r.max
                == max_of(times) && r.std_dev == std_dev_of(times, mean_of(times)),
{
    let mut s0: u64 = 123456789;
    let mut s1: u64 = 987654321;
    let tenth = total_iterations / 10;
    let warmup_batches = if tenth < 5 {
        5
    } else if tenth > 100 {
        100
    } else {
        tenth
    };
    let mut b: usize = 0;
    while b < warmup_batches
        invariant
            b <= warmup_batches,
            forall|a: &mut u64, c: &mut u64| func.requires((a, c)),
        decreases warmup_batches - b,
    {
        let mut i: usize = 0;
        while i < size
            invariant
                i <= size,
                forall|a: &mut u64, c: &mut u64| func.requires((a, c)),
            decreases size - i,
        {
            let _ = func(&mut s0, &mut s1);
            i = i + 1;
        }
        b = b + 1;
    }
    let per_sample = if total_iterations / BENCH_SAMPLES >= 1 {
        total_iterations / BENCH_SAMPLES
    } else {
        1
    };
    s0 = 123456789;
    s1 = 987654321;
    let mut sample_avgs: Vec<u64> = Vec::new();
    let mut k: usize = 0;
    while k < BENCH_SAMPLES
        invariant
            k <= BENCH_SAMPLES,
            sample_avgs@.len() == k,
            per_sample >= 1,
            forall|a: &mut u64, c: &mut u64| func.requires((a, c)),
        decreases BENCH_SAMPLES - k,
    {
        let start = now();
        let mut it: usize = 0;
        while it < per_sample
            invariant
                it <= per_sample,
                forall|a: &mut u64, c: &mut u64| func.requires((a, c)),
            decreases per_sample - it,
        {
            let mut i: usize = 0;
            while i < size
                invariant
                    i <= size,
                    forall|a: &mut u64, c: &mut u64| func.requires((a, c)),
                decreases size - i,
            {
                let _ = func(&mut s0, &mut s1);
                i = i + 1;
            }
            it = it + 1;
        }
        let total = elapsed(start);
        sample_avgs.push(total / (per_sample as u64));
        k = k + 1;
    }
    BenchStats::from_samples(sample_avgs.as_slice())
}

/// Descriptor of the Xoroshiro128++ benchmark.
pub struct XoroshiroRunner;

/// Seed words of the verification stream.
pub const VERIFY_SEED_LO: u64 = 0xdeadbeef;

pub const VERIFY_SEED_HI: u64 = 0xcafebab;

/// Length of the verification stream.
pub const VERIFY_COUNT: usize = 100;

impl XoroshiroRunner {
    pub fn name(&self) -> (r: &'static str)
        ensures
            r@ == "xoroshiro128++"@,
    {
        "xoroshiro128++"
    }

    pub fn description(&self) -> (r: &'static str)
        ensures
            r@ == "Xoroshiro128++ pseudo-random number generator"@,
    {
        "Xoroshiro128++ pseudo-random number generator"
    }

    pub fn category(&self) -> (r: &'static str)
        ensures
            r@ == "random"@,
    {
        "random"
    }

    /// Reference outputs that every variant must reproduce exactly.
    pub fn reference_stream(&self) -> (r: Vec<u64>)
        ensures
            r@ == stream(VERIFY_SEED_LO, VERIFY_SEED_HI, VERIFY_COUNT as nat),
    {
        generate_stream(VERIFY_SEED_LO, VERIFY_SEED_HI, VERIFY_COUNT)
    }
}

} // verus!

//! Opcode-dispatch payload: an opcode selects the multiplier applied to a
//! value, as an else-if chain, a jump table or branch-free code would.

use vstd::prelude::*;
use crate::rng::{lcg_iterate, SeededRng};
use crate::verify::VerifyFailure;
use crate::measure::{elapsed, now};
use crate::stats::{compute_stats, max_of, mean_of, min_of, std_dev_of};

verus! {

/// Multiplier that an opcode selects: `opcode + 1` for opcodes 0 to 7, and
/// zero for every other (invalid) opcode.
pub open spec fn multiplier(opcode: u8) -> int {
    if opcode <= 7 {
        opcode as int + 1
    } else {
        0
    }
}

/// What dispatching `opcode` on `value` gives: `value * multiplier(opcode)`
/// modulo 2^32.
pub open spec fn dispatch_spec(opcode: u8, value: u32) -> u32 {
    ((value as int * multiplier(opcode)) % 0x1_0000_0000) as u32
}

/// Multiplies `value` by the constant that `opcode` selects (wrapping);
/// an invalid opcode gives zero.
pub fn dispatch_operation(opcode: u8, value: u32) -> (r: u32)
    ensures
        r == dispatch_spec(opcode, value),
{
    let r = match opcode {
        0 => value,
        1 => value.wrapping_mul(2),
        2 => value.wrapping_mul(3),
        3 => value.wrapping_mul(4),
        4 => value.wrapping_mul(5),
        5 => value.wrapping_mul(6),
        6 => value.wrapping_mul(7),
        7 => value.wrapping_mul(8),
        _ => 0,
    };
    proof {
        if opcode == 0 {
            vstd::arithmetic::div_mod::lemma_small_mod(value as nat, 0x1_0000_0000);
        }
    }
    r
}

/// Seed of the generator behind the test data.
pub const DATA_SEED: u64 = 0x87654321;

/// One test case drawn from a generator output `x`: opcode
/// `(x >> 32) % 8` and value `(x >> 40) % 1000 + 1`.
pub open spec fn case_of(x: u64) -> (u8, u32) {
    (((x >> 32u64) % 8) as u8, ((x >> 40u64) % 1000 + 1) as u32)
}

/// Test data: case `k` comes from the generator's `k + 1`-th output from
/// `DATA_SEED`.
pub open spec fn test_data(size: nat) -> Seq<(u8, u32)> {
    Seq::new(size, |k: int| case_of(lcg_iterate(DATA_SEED, (k + 1) as nat)))
}

/// Pseudo-random (opcode, value) pairs with valid opcodes and values in
/// `[1, 1000]`; the same `size` always gives the same data.
pub fn generate_test_data(size: usize) -> (r: Vec<(u8, u32)>)
    ensures
        r@ == test_data(size as nat),
{
    let mut data: Vec<(u8, u32)> = Vec::new();
    let mut rng = SeededRng::new(DATA_SEED);
    let mut i: usize = 0;
    while i < size
        invariant
            i <= size,
            rng.state() == lcg_iterate(DATA_SEED, i as nat),
            data@ =~= test_data(i as nat),
        decreases size - i,
    {
        let x = rng.next_u64();
        let opcode = ((x >> 32u64) % 8) as u8;
        let value = ((x >> 40u64) % 1000) as u32 + 1;
        data.push((opcode, value));
        i = i + 1;
    }
    data
}

/// Reference for the else-if variant: the opcode's multiplier found by
/// testing the opcodes one after another.
pub fn dispatch_elseif(opcode: u8, value: u32) -> (r: u32)
    ensures
        r == dispatch_spec(opcode, value),
{
    let mut k: u8 = 0;
    while k < 8
        invariant
            k <= 8,
            opcode >= k,
        decreases 8 - k,
    {
        if opcode == k {
            let r = value.wrapping_mul(k as u32 + 1);
            proof {
                vstd::arithmetic::div_mod::lemma_small_mod(1nat, 0x1_0000_0000);
            }
            return r;
        }
        k = k + 1;
    }
    0
}

/// Verifies the else-if variant against the reference
/// (`dispatch_operation`) on every opcode, valid and invalid; they agree, so
/// this always succeeds.
pub fn verify_all() -> (r: Result<(), VerifyFailure>)
    ensures
        r is Ok,
{
    let cases: Vec<(u8, u32)> = vec![
        (0, 1),
        (0, 100),
        (1, 1),
        (1, 50),
        (2, 1),
        (2, 33),
        (3, 1),
        (3, 25),
        (4, 1),
        (4, 20),
        (5, 1),
        (5, 16),
        (6, 1),
        (6, 14),
        (7, 1),
        (7, 12),
        (8, 100),
        (255, 100),
    ];
    let mut i: usize = 0;
    while i < cases.len()
        invariant
            i <= cases@.len(),
        decreases cases@.len() - i,
    {
        let (opcode, value) = cases[i];
        let expected = dispatch_operation(opcode, value);
        let actual = dispatch_elseif(opcode, value);
        if actual != expected {
            return Err(
                VerifyFailure {
                    variant: "elseif",
                    input: value as u64,
                    expected: expected as u64,
                    actual: actual as u64,
                },
            );
        }
        i = i + 1;
    }
    Ok(())
}

/// Times `iterations` passes of `func` over `data` after a warmup of up to
/// 100 calls: the mean, minimum, maximum and standard deviation of the pass
/// times (all zero without passes), and the last result of the last pass
/// (zero when nothing ran).
pub fn benchmark_function<F: Fn(u8, u32) -> u32>(func: &F, data: &[(u8, u32)], iterations: usize) -> (r: (
    u64,
    u64,
    u64,
    u64,
    u32,
))
    requires
        forall|op: u8, v: u32| func.requires((op, v)),
    ensures
        exists|times: Seq<u64>|
            times.len() == iterations && r.0 == mean_of(times) && r.1 == min_of(times) && r.2
                == max_of(times) && r.3 == std_dev_of(times, mean_of(times)),
        iterations == 0 || data@.len() == 0 ==> r.4 == 0,
        iterations > 0 && data@.len() > 0 ==> func.ensures((data@.last().0, data@.last().1), r.4),
{
    let n = data.len();
    let warm = if n < 100 {
        n
    } else {
        100
    };
    let mut k: usize = 0;
    while k < warm
        invariant
            k <= warm <= n,
            n == data@.len(),
            forall|op: u8, v: u32| func.requires((op, v)),
        decreases warm - k,
    {
        let (op, val) = data[k];
        let _ = func(op, val);
        k = k + 1;
    }
    let mut times: Vec<u64> = Vec::new();
    let mut last_result: u32 = 0;
    let mut it: usize = 0;
    while it < iterations
        invariant
            it <= iterations,
            n == data@.len(),
            forall|op: u8, v: u32| func.requires((op, v)),
            times@.len() == it,
            it == 0 || n == 0 ==> last_result == 0,
            it > 0 && n > 0 ==> func.ensures((data@.last().0, data@.last().1), last_result),
        decreases iterations - it,
    {
        let start = now();
        let mut j: usize = 0;
        while j < n
            invariant
                j <= n,
                n == data@.len(),
                forall|op: u8, v: u32| func.requires((op, v)),
                it == 0 && j == 0 || n == 0 ==> last_result == 0,
                (it > 0 || j > 0) && n > 0 && j == 0 ==> func.ensures(
                    (data@.last().0, data@.last().1),
                    last_result,
                ),
                j > 0 ==> func.ensures((data@[j - 1].0, data@[j - 1].1), last_result),
            decreases n - j,
        {
            let (op, val) = data[j];
            last_result = func(op, val);
            j = j + 1;
        }
        times.push(elapsed(start));
        it = it + 1;
    }
    let (avg, min, max, std_dev) = compute_stats(times.as_slice());
    (avg, min, max, std_dev, last_result)
}

/// Timing summary of one dispatch variant over the test data, in
/// nanoseconds, with the last result it produced.
pub struct VariantBenchResult {
    pub name: &'static str,
    pub description: &'static str,
    pub avg_time: u64,
    pub min_time: u64,
    pub max_time: u64,
    pub std_dev: u64,
    pub result: u32,
}

/// Descriptor of the else-if versus jump-table benchmark.
pub struct ElseIfVsJumpTableRunner;

impl ElseIfVsJumpTableRunner {
    pub fn name(&self) -> (r: &'static str)
        ensures
            r@ == "elseif_vs_jumptable"@,
    {
        "elseif_vs_jumptable"
    }

    pub fn category(&self) -> (r: &'static str)
        ensures
            r@ == "control_flow"@,
    {
        "control_flow"
    }

    pub fn description(&self) -> (r: &'static str)
        ensures
            r@ == "Comparison between else-if chains and jump tables in x86_64 assembly"@,
    {
        "Comparison between else-if chains and jump tables in x86_64 assembly"
    }

    /// Verifies the variants against the reference; always succeeds.
    pub fn verify(&self) -> (r: Result<(), VerifyFailure>)
        ensures
            r is Ok,
    {
        verify_all()
    }
}

} // verus!

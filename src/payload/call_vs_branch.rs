//! Call-versus-inline payload: `square(add_ten(double(x)))` on `u32`, with
//! wrapping arithmetic, computed through helper calls or written inline.

use vstd::prelude::*;
use crate::rng::{high_word, lcg_iterate, SeededRng};
use crate::verify::VerifyFailure;

verus! {

/// The computation every variant performs: `(2x + 10)^2` modulo 2^32.
pub open spec fn process_spec(x: u32) -> u32 {
    let step1 = (x as int * 2) % 0x1_0000_0000;
    let step2 = (step1 + 10) % 0x1_0000_0000;
    ((step2 * step2) % 0x1_0000_0000) as u32
}

proof fn lemma_wrap_once(a: int)
    requires
        0 <= a < 2 * 0x1_0000_0000,
    ensures
        a % 0x1_0000_0000 == if a >= 0x1_0000_0000 {
            a - 0x1_0000_0000
        } else {
            a
        },
{
    if a >= 0x1_0000_0000 {
        vstd::arithmetic::div_mod::lemma_mod_add_multiples_vanish(a - 0x1_0000_0000, 0x1_0000_0000);
        vstd::arithmetic::div_mod::lemma_small_mod((a - 0x1_0000_0000) as nat, 0x1_0000_0000);
    } else {
        vstd::arithmetic::div_mod::lemma_small_mod(a as nat, 0x1_0000_0000);
    }
}

/// Doubles the value (wrapping).
pub fn double(x: u32) -> (r: u32)
    ensures
        r == (x as int * 2) % 0x1_0000_0000,
{
    x.wrapping_mul(2)
}

/// Adds ten (wrapping).
pub fn add_ten(x: u32) -> (r: u32)
    ensures
        r == (x as int + 10) % 0x1_0000_0000,
{
    let r = x.wrapping_add(10);
    proof {
        lemma_wrap_once(x as int + 10);
    }
    r
}

/// Squares the value (wrapping).
pub fn square(x: u32) -> (r: u32)
    ensures
        r == (x as int * x as int) % 0x1_0000_0000,
{
    x.wrapping_mul(x)
}

/// Processes a value through a chain of helper calls:
/// `square(add_ten(double(value)))`.
pub fn process_with_calls(value: u32) -> (r: u32)
    ensures
        r == process_spec(value),
{
    let step1 = double(value);
    let step2 = add_ten(step1);
    square(step2)
}

/// Processes a value with every step written inline.
pub fn process_inline(value: u32) -> (r: u32)
    ensures
        r == process_spec(value),
{
    let step1 = value.wrapping_mul(2);
    let step2 = step1.wrapping_add(10);
    proof {
        lemma_wrap_once(step1 as int + 10);
    }
    step2.wrapping_mul(step2)
}

/// Seed of the generator behind the test data.
pub const DATA_SEED: u64 = 0x12345678;

/// Test data: element `k` is the upper word of the generator's `k + 1`-th
/// output from `DATA_SEED`, modulo 512.
pub open spec fn test_data(size: nat) -> Seq<u32> {
    Seq::new(size, |k: int| (high_word(lcg_iterate(DATA_SEED, (k + 1) as nat)) % 512) as u32)
}

/// Pseudo-random values in `[0, 512)` that stress branch prediction; the same
/// `size` always gives the same data.
pub fn generate_test_data(size: usize) -> (r: Vec<u32>)
    ensures
        r@ == test_data(size as nat),
{
    let mut data: Vec<u32> = Vec::new();
    let mut rng = SeededRng::new(DATA_SEED);
    let mut i: usize = 0;
    while i < size
        invariant
            i <= size,
            rng.state() == lcg_iterate(DATA_SEED, i as nat),
            data@ =~= test_data(i as nat),
        decreases size - i,
    {
        let v = rng.next_u32_range(512);
        data.push(v);
        i = i + 1;
    }
    data
}

/// Verifies the inline variant against the reference (`process_with_calls`)
/// on the verification inputs; they agree on every input, so this always
/// succeeds.
pub fn verify_all() -> (r: Result<(), VerifyFailure>)
    ensures
        r is Ok,
{
    let inputs: Vec<u32> = vec![0, 1, 2, 5, 10, 50, 100, 255, 500, 1000, 10000];
    let mut i: usize = 0;
    while i < inputs.len()
        invariant
            i <= inputs@.len(),
        decreases inputs@.len() - i,
    {
        let value = inputs[i];
        let expected = process_with_calls(value);
        let actual = process_inline(value);
        if actual != expected {
            return Err(
                VerifyFailure {
                    variant: "inline",
                    input: value as u64,
                    expected: expected as u64,
                    actual: actual as u64,
                },
            );
        }
        i = i + 1;
    }
    Ok(())
}

/// Descriptor of the call-versus-inline benchmark.
pub struct CallVsBranchRunner;

impl CallVsBranchRunner {
    pub fn name(&self) -> (r: &'static str)
        ensures
            r@ == "call_vs_branch"@,
    {
        "call_vs_branch"
    }

    pub fn category(&self) -> (r: &'static str)
        ensures
            r@ == "control_flow"@,
    {
        "control_flow"
    }

    pub fn description(&self) -> (r: &'static str)
        ensures
            r@ == "Comparison between function calls (CALL/RET) and inline code in x86_64 assembly"@,
    {
        "Comparison between function calls (CALL/RET) and inline code in x86_64 assembly"
    }

    /// Verifies the variants against the reference; always succeeds.
    pub fn verify(&self) -> (r: Result<(), VerifyFailure>)
        ensures
            r is Ok,
    {
        verify_all()
    }
}

} // verus!

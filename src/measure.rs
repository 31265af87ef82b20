//! Measurement primitive: readings of the monotonic clock, elapsed time in
//! nanoseconds, and the time-derived seed.
//!
//! This build measures with the monotonic wall clock, so a measurement is a
//! count of nanoseconds. The clock never runs backward; should the platform
//! report an earlier reading anyway, the elapsed time is zero.

use vstd::prelude::*;

verus! {

/// One measurement: elapsed nanoseconds.
pub type Measurement = u64;

/// Seed used when the clock cannot give one.
pub const FALLBACK_SEED: u64 = 0x12345678;

#[verifier::external_type_specification]
#[verifier::external_body]
pub struct ExInstant(std::time::Instant);

#[verifier::external_type_specification]
#[verifier::external_body]
pub struct ExSystemTime(std::time::SystemTime);

/// Reads the monotonic clock.
///
/// Relies on `Instant::now`.
#[verifier::external_body]
pub fn now() -> (r: std::time::Instant) {
    std::time::Instant::now()
}

/// Nanoseconds elapsed since the reading `start` (truncated to 64 bits).
///
/// Relies on `Instant::elapsed`, which returns zero rather than a negative
/// time should the clock report a reading before `start`.
#[verifier::external_body]
pub fn elapsed(start: std::time::Instant) -> (r: Measurement) {
    start.elapsed().as_nanos() as u64
}

/// Relies on `SystemTime::now`: the current reading of the system clock.
#[verifier::external_body]
fn system_now() -> (r: std::time::SystemTime) {
    std::time::SystemTime::now()
}

/// Relies on `SystemTime::duration_since` with `UNIX_EPOCH`: nanoseconds
/// since the epoch (truncated to 64 bits), or `None` for a reading before it.
#[verifier::external_body]
fn nanos_since_epoch(t: std::time::SystemTime) -> (r: Option<u64>) {
    match t.duration_since(std::time::UNIX_EPOCH) {
        Ok(d) => Some(d.as_nanos() as u64),
        Err(_) => None,
    }
}

/// A measurement in nanoseconds; measurements of this build already are.
pub fn to_nanos(m: Measurement) -> (r: u64)
    ensures
        r == m,
{
    m
}

/// Unit in which measurements are reported.
pub fn unit_name() -> (r: &'static str)
    ensures
        r@ == "ns"@,
{
    "ns"
}

/// Runs `f` once between two clock readings and returns the elapsed
/// measurement with its result.
pub fn measure_cycles<F, R>(f: F) -> (r: (u64, R))
    where
        F: FnOnce() -> R,
    requires
        f.requires(()),
    ensures
        f.ensures((), r.1),
{
    let start = now();
    let result = f();
    (elapsed(start), result)
}

/// Seed from a clock reading: the reading itself, or `FALLBACK_SEED` when
/// there is none.
pub fn seed_from_clock(reading: Option<u64>) -> (r: u64)
    ensures
        r == match reading {
            Some(n) => n,
            None => FALLBACK_SEED,
        },
{
    match reading {
        Some(n) => n,
        None => FALLBACK_SEED,
    }
}

/// A seed derived from the current time (nanoseconds since the Unix epoch).
pub fn time_seed() -> (r: u64) {
    seed_from_clock(nanos_since_epoch(system_now()))
}

/// The seed a run uses: the caller's when given, else one from the clock.
pub fn effective_seed(seed: Option<u64>) -> (r: u64)
    ensures
        seed is Some ==> r == seed->0,
{
    match seed {
        Some(s) => s,
        None => time_seed(),
    }
}

} // verus!

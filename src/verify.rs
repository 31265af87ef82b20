//! Correctness verification: outputs of a variant are held against those of
//! the reference variant on the same inputs, and the first difference is
//! reported.

use vstd::prelude::*;

verus! {

/// First position at which two output sequences differ, with the value of
/// each there (`None` where that sequence has already ended).
#[derive(Debug, Clone, Copy, PartialEq, Eq)]
pub struct Mismatch {
    pub index: usize,
    pub expected: Option<u64>,
    pub actual: Option<u64>,
}

/// A variant whose output diverged from the reference's on some input.
#[derive(Debug, Clone, Copy, PartialEq, Eq)]
pub struct VerifyFailure {
    pub variant: &'static str,
    pub input: u64,
    pub expected: u64,
    pub actual: u64,
}

/// The two sequences agree at every position before `i`.
pub open spec fn agree_before(e: Seq<u64>, a: Seq<u64>, i: int) -> bool {
    forall|k: int| 0 <= k < i ==> k < e.len() && k < a.len() && #[trigger] e[k] == a[k]
}

/// The two sequences differ at position `i`: one has ended there and the
/// other has not, or both have an element there and the elements differ.
pub open spec fn differ_at(e: Seq<u64>, a: Seq<u64>, i: int) -> bool {
    0 <= i && (i < e.len() || i < a.len()) && !(i < e.len() && i < a.len() && e[i] == a[i])
}

/// The element of `s` at `i`, if any.
pub open spec fn element_at(s: Seq<u64>, i: int) -> Option<u64> {
    if 0 <= i < s.len() {
        Some(s[i])
    } else {
        None
    }
}

/// Holds `actual` against `expected` exactly: `Ok` when they are equal, else
/// the first position where they differ.
pub fn compare_outputs(expected: &[u64], actual: &[u64]) -> (r: Result<(), Mismatch>)
    ensures
        r is Ok <==> expected@ == actual@,
        r matches Err(m) ==> agree_before(expected@, actual@, m.index as int) && differ_at(
            expected@,
            actual@,
            m.index as int,
        ) && m.expected == element_at(expected@, m.index as int) && m.actual == element_at(
            actual@,
            m.index as int,
        ),
{
    let n = if expected.len() < actual.len() {
        expected.len()
    } else {
        actual.len()
    };
    let mut i: usize = 0;
    while i < n
        invariant
            n <= expected@.len(),
            n <= actual@.len(),
            n == expected@.len() || n == actual@.len(),
            i <= n,
            agree_before(expected@, actual@, i as int),
        decreases n - i,
    {
        if expected[i] != actual[i] {
            return Err(Mismatch { index: i, expected: Some(expected[i]), actual: Some(actual[i]) });
        }
        i = i + 1;
    }
    if expected.len() != actual.len() {
        let e = if n < expected.len() {
            Some(expected[n])
        } else {
            None
        };
        let a = if n < actual.len() {
            Some(actual[n])
        } else {
            None
        };
        return Err(Mismatch { index: n, expected: e, actual: a });
    }
    assert(expected@ =~= actual@);
    Ok(())
}

} // verus!

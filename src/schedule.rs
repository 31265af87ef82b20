//! Task scheduling: the flat list of (variant, repetition) tasks and its
//! seeded Fisher-Yates shuffle.

use vstd::prelude::*;
use crate::rng::{lcg_step, SeededRng};

verus! {

broadcast use vstd::seq_lib::group_to_multiset_ensures, vstd::multiset::group_multiset_axioms;

/// `s` with the elements at `i` and `j` exchanged.
pub open spec fn swapped<T>(s: Seq<T>, i: int, j: int) -> Seq<T> {
    s.update(i, s[j]).update(j, s[i])
}

/// Index drawn for position `i` from a generator output: the output's upper
/// 31 bits modulo `i + 1`.
pub open spec fn draw_index(output: u64, i: int) -> int {
    (output >> 33u64) as int % (i + 1)
}

/// Shuffle steps for positions `i, i - 1, ..., 1`, starting from generator
/// state `state`; yields the permuted sequence and the final state.
pub open spec fn shuffle_steps<T>(s: Seq<T>, state: u64, i: int) -> (Seq<T>, u64)
    decreases i,
{
    if i <= 0 {
        (s, state)
    } else {
        let next = lcg_step(state);
        shuffle_steps(swapped(s, i, draw_index(next, i)), next, i - 1)
    }
}

/// Fisher-Yates shuffle of `s` driven by a generator in state `state`.
pub open spec fn shuffled<T>(s: Seq<T>, state: u64) -> (Seq<T>, u64) {
    shuffle_steps(s, state, s.len() - 1)
}

/// The unshuffled task list: every variant's repetitions in order.
pub open spec fn task_list(variant_count: nat, repetitions: nat) -> Seq<(usize, usize)> {
    Seq::new(
        variant_count * repetitions,
        |k: int| ((k / repetitions as int) as usize, (k % repetitions as int) as usize),
    )
}

/// The task order that a run with the given seed executes.
pub open spec fn schedule(variant_count: nat, repetitions: nat, seed: u64) -> Seq<(usize, usize)> {
    shuffled(task_list(variant_count, repetitions), seed).0
}

/// `s` holds each pair `(v, r)` with `v < variant_count` and
/// `r < repetitions` exactly once, and nothing else.
pub open spec fn covers_exactly_once(
    s: Seq<(usize, usize)>,
    variant_count: nat,
    repetitions: nat,
) -> bool {
    &&& s.len() == variant_count * repetitions
    &&& s.no_duplicates()
    &&& forall|k: int| 0 <= k < s.len() ==> (#[trigger] s[k]).0 < variant_count && s[k].1 < repetitions
    &&& forall|v: usize, r: usize|
        v < variant_count && r < repetitions ==> #[trigger] s.contains((v, r))
}

proof fn lemma_swapped_multiset<T>(s: Seq<T>, i: int, j: int)
    requires
        0 <= i < s.len(),
        0 <= j < s.len(),
    ensures
        swapped(s, i, j).to_multiset() =~= s.to_multiset(),
        swapped(s, i, j).len() == s.len(),
{
    let s1 = s.update(i, s[j]);
    assert(s1.to_multiset() == s.to_multiset().insert(s[j]).remove(s[i]));
    assert(s1.update(j, s[i]).to_multiset() == s1.to_multiset().insert(s[i]).remove(s1[j]));
    if i == j {
        assert(s1 =~= s);
        assert(s1.update(j, s[i]) =~= s);
    } else {
        assert(s1[j] == s[j]);
        assert(s.to_multiset().contains(s[i]));
    }
}

/// A shuffle permutes its input.
pub proof fn lemma_shuffle_steps_permutes<T>(s: Seq<T>, state: u64, i: int)
    requires
        i < s.len(),
    ensures
        shuffle_steps(s, state, i).0.to_multiset() =~= s.to_multiset(),
        shuffle_steps(s, state, i).0.len() == s.len(),
    decreases i,
{
    if i > 0 {
        let next = lcg_step(state);
        let j = draw_index(next, i);
        assert(0 <= j < i + 1) by {
            assert((next >> 33u64) as int >= 0);
        }
        lemma_swapped_multiset(s, i, j);
        lemma_shuffle_steps_permutes(swapped(s, i, j), next, i - 1);
    }
}

/// Exchanges two elements of a slice.
///
/// Relies on `slice::swap`: the elements at `i` and `j` trade places.
#[verifier::external_body]
fn swap_in_slice<T>(s: &mut [T], i: usize, j: usize)
    requires
        i < old(s)@.len(),
        j < old(s)@.len(),
    ensures
        final(s)@ == swapped(old(s)@, i as int, j as int),
{
    s.swap(i, j)
}

/// Fisher-Yates shuffle driven by an existing generator, so that several
/// shuffles can continue one stream.
pub fn shuffle_with_rng<T>(slice: &mut [T], rng: &mut SeededRng)
    ensures
        final(slice)@ == shuffled(old(slice)@, old(rng).state()).0,
        final(rng).state() == shuffled(old(slice)@, old(rng).state()).1,
        final(slice)@.to_multiset() == old(slice)@.to_multiset(),
{
    let ghost s0 = slice@;
    let ghost st0 = rng.state();
    proof {
        lemma_shuffle_steps_permutes(s0, st0, s0.len() - 1);
    }
    let len = slice.len();
    if len < 2 {
        return;
    }
    let mut i: usize = len - 1;
    while i >= 1
        invariant
            slice@.len() == len,
            len == s0.len(),
            i < len,
            shuffle_steps(slice@, rng.state(), i as int) == shuffled(s0, st0),
        decreases i,
    {
        let ghost before = slice@;
        let ghost st = rng.state();
        let n = rng.next_u64();
        let hi: u64 = n >> 33u64;
        assert(hi <= 0x7fff_ffff) by (bit_vector)
            requires
                hi == n >> 33u64,
        ;
        let j = (hi as usize) % (i + 1);
        assert(j as int == draw_index(n, i as int));
        swap_in_slice(slice, i, j);
        assert(shuffle_steps(before, st, i as int) == shuffle_steps(slice@, rng.state(), i - 1));
        i = i - 1;
    }
}

/// Fisher-Yates shuffle with a fresh generator seeded by `seed`.
pub fn shuffle<T>(slice: &mut [T], seed: u64)
    ensures
        final(slice)@ == shuffled(old(slice)@, seed).0,
        final(slice)@.to_multiset() == old(slice)@.to_multiset(),
{
    let mut rng = SeededRng::new(seed);
    shuffle_with_rng(slice, &mut rng);
}

proof fn lemma_task_list_covers(variant_count: nat, repetitions: nat)
    requires
        variant_count * repetitions <= usize::MAX,
    ensures
        covers_exactly_once(task_list(variant_count, repetitions), variant_count, repetitions),
{
    let s = task_list(variant_count, repetitions);
    let n = variant_count as int;
    let r = repetitions as int;
    assert forall|k: int| 0 <= k < s.len() implies (#[trigger] s[k]).0 < variant_count && s[k].1
        < repetitions by {
        vstd::arithmetic::div_mod::lemma_div_pos_is_pos(k, r);
        vstd::arithmetic::div_mod::lemma_div_by_multiple_is_strongly_ordered(k, n * r, n, r);
        vstd::arithmetic::div_mod::lemma_div_by_multiple(n, r);
        vstd::arithmetic::mul::lemma_mul_is_commutative(n, r);
        vstd::arithmetic::div_mod::lemma_mod_pos_bound(k, r);
    }
    assert forall|v: usize, q: usize| v < variant_count && q < repetitions implies #[trigger] s.contains(
        (v, q),
    ) by {
        let k = v * r + q;
        vstd::arithmetic::mul::lemma_mul_inequality(v as int + 1, n, r);
        vstd::arithmetic::mul::lemma_mul_is_distributive_add_other_way(r, v as int, 1);
        vstd::arithmetic::div_mod::lemma_fundamental_div_mod_converse(k, r, v as int, q as int);
        assert(s[k] == (v, q));
    }
    assert forall|i: int, j: int| 0 <= i < s.len() && 0 <= j < s.len() && i != j implies s[i]
        != s[j] by {
        vstd::arithmetic::div_mod::lemma_div_is_ordered_by_denominator(i, 1, r);
        vstd::arithmetic::div_mod::lemma_div_is_ordered_by_denominator(j, 1, r);
        vstd::arithmetic::div_mod::lemma_fundamental_div_mod(i, r);
        vstd::arithmetic::div_mod::lemma_fundamental_div_mod(j, r);
        vstd::arithmetic::div_mod::lemma_div_pos_is_pos(i, r);
        vstd::arithmetic::div_mod::lemma_div_pos_is_pos(j, r);
        vstd::arithmetic::div_mod::lemma_mod_pos_bound(i, r);
        vstd::arithmetic::div_mod::lemma_mod_pos_bound(j, r);
    }
}

proof fn lemma_covers_by_multiset(
    a: Seq<(usize, usize)>,
    b: Seq<(usize, usize)>,
    variant_count: nat,
    repetitions: nat,
)
    requires
        covers_exactly_once(a, variant_count, repetitions),
        a.to_multiset() == b.to_multiset(),
    ensures
        covers_exactly_once(b, variant_count, repetitions),
{
    assert(a.len() == a.to_multiset().len());
    assert(b.len() == b.to_multiset().len());
    a.lemma_multiset_has_no_duplicates();
    b.lemma_multiset_has_no_duplicates_conv();
    assert forall|k: int| 0 <= k < b.len() implies (#[trigger] b[k]).0 < variant_count && b[k].1
        < repetitions by {
        assert(b.contains(b[k]));
        assert(b.to_multiset().count(b[k]) > 0);
        assert(a.contains(b[k]));
    }
    assert forall|v: usize, q: usize| v < variant_count && q < repetitions implies #[trigger] b.contains(
        (v, q),
    ) by {
        assert(a.contains((v, q)));
        assert(a.to_multiset().count((v, q)) > 0);
    }
}

/// The same seed gives the same task order: two schedules built from equal
/// inputs are identical.
pub proof fn lemma_schedule_deterministic(
    variant_count: nat,
    repetitions: nat,
    seed_a: u64,
    seed_b: u64,
)
    requires
        seed_a == seed_b,
    ensures
        schedule(variant_count, repetitions, seed_a) == schedule(
            variant_count,
            repetitions,
            seed_b,
        ),
{
}

/// Both the task list and its shuffle hold every (variant, repetition) pair
/// exactly once: `variant_count * repetitions` tasks, `repetitions` of each
/// variant.
pub proof fn lemma_schedule_coverage(variant_count: nat, repetitions: nat, seed: u64)
    requires
        variant_count * repetitions <= usize::MAX,
    ensures
        covers_exactly_once(task_list(variant_count, repetitions), variant_count, repetitions),
        covers_exactly_once(schedule(variant_count, repetitions, seed), variant_count, repetitions),
{
    let t = task_list(variant_count, repetitions);
    lemma_task_list_covers(variant_count, repetitions);
    lemma_shuffle_steps_permutes(t, seed, t.len() - 1);
    lemma_covers_by_multiset(t, schedule(variant_count, repetitions, seed), variant_count, repetitions);
}

/// Shuffling is a permutation: the shuffled sequence holds the same multiset
/// of elements as the input.
pub proof fn lemma_shuffle_is_permutation<T>(s: Seq<T>, seed: u64)
    ensures
        shuffled(s, seed).0.to_multiset() == s.to_multiset(),
        shuffled(s, seed).0.len() == s.len(),
{
    lemma_shuffle_steps_permutes(s, seed, s.len() - 1);
}

/// The variant index of each task.
pub open spec fn variants_of(s: Seq<(usize, usize)>) -> Seq<usize> {
    s.map_values(|t: (usize, usize)| t.0)
}

/// How many tasks of `s` belong to variant `v`.
pub open spec fn occurrences(s: Seq<(usize, usize)>, v: usize) -> nat {
    variants_of(s).to_multiset().count(v)
}

proof fn lemma_variants_of_shuffle(s: Seq<(usize, usize)>, state: u64, i: int)
    requires
        i < s.len(),
    ensures
        variants_of(shuffle_steps(s, state, i).0) == shuffle_steps(variants_of(s), state, i).0,
    decreases i,
{
    if i > 0 {
        let next = lcg_step(state);
        let j = draw_index(next, i);
        assert(0 <= j < i + 1) by {
            assert((next >> 33u64) as int >= 0);
        }
        assert(variants_of(swapped(s, i, j)) =~= swapped(variants_of(s), i, j));
        lemma_variants_of_shuffle(swapped(s, i, j), next, i - 1);
    } else {
    }
}

proof fn lemma_constant_count(x: usize, m: nat, v: usize)
    ensures
        Seq::new(m, |k: int| x).to_multiset().count(v) == if v == x {
            m
        } else {
            0
        },
    decreases m,
{
    if m > 0 {
        lemma_constant_count(x, (m - 1) as nat, v);
        assert(Seq::new(m, |k: int| x) =~= Seq::new((m - 1) as nat, |k: int| x).push(x));
    } else {
        assert(Seq::new(m, |k: int| x) =~= Seq::<usize>::empty());
    }
}

proof fn lemma_task_list_occurrences(variant_count: nat, repetitions: nat, v: usize)
    requires
        variant_count * repetitions <= usize::MAX,
    ensures
        occurrences(task_list(variant_count, repetitions), v) == if v < variant_count {
            repetitions
        } else {
            0
        },
    decreases variant_count,
{
    let r = repetitions as int;
    if variant_count == 0 || repetitions == 0 {
        vstd::arithmetic::mul::lemma_mul_basics(r);
        vstd::arithmetic::mul::lemma_mul_basics(variant_count as int);
        assert(variants_of(task_list(variant_count, repetitions)) =~= Seq::<usize>::empty());
        assert(Seq::<usize>::empty().to_multiset() =~= vstd::multiset::Multiset::<usize>::empty());
    } else {
        let n = (variant_count - 1) as nat;
        vstd::arithmetic::mul::lemma_mul_is_distributive_add_other_way(r, n as int, 1);
        vstd::arithmetic::mul::lemma_mul_inequality(1, r, variant_count as int);
        vstd::arithmetic::mul::lemma_mul_is_commutative(r, variant_count as int);
        vstd::arithmetic::mul::lemma_mul_nonnegative(n as int, r);
        lemma_task_list_occurrences(n, repetitions, v);
        let head = task_list(n, repetitions);
        let whole = task_list(variant_count, repetitions);
        let block = Seq::new(repetitions, |k: int| (n as usize, k as usize));
        assert forall|k: int| n * r <= k < variant_count * r implies #[trigger] whole[k] == (
            n as usize,
            (k - n * r) as usize,
        ) by {
            vstd::arithmetic::div_mod::lemma_fundamental_div_mod_converse(k, r, n as int, k - n * r);
        }
        assert(whole =~= head + block);
        assert(variants_of(whole) =~= variants_of(head) + variants_of(block));
        assert(variants_of(block) =~= Seq::new(repetitions, |k: int| n as usize));
        lemma_constant_count(n as usize, repetitions, v);
        vstd::seq_lib::lemma_multiset_commutative(variants_of(head), variants_of(block));
    }
}

/// Every variant index occurs exactly `repetitions` times in the task list
/// and in every shuffle of it; no other index occurs.
pub proof fn lemma_schedule_occurrences(variant_count: nat, repetitions: nat, seed: u64, v: usize)
    requires
        variant_count * repetitions <= usize::MAX,
    ensures
        occurrences(task_list(variant_count, repetitions), v) == if v < variant_count {
            repetitions
        } else {
            0
        },
        occurrences(schedule(variant_count, repetitions, seed), v) == occurrences(
            task_list(variant_count, repetitions),
            v,
        ),
{
    let t = task_list(variant_count, repetitions);
    lemma_task_list_occurrences(variant_count, repetitions, v);
    lemma_variants_of_shuffle(t, seed, t.len() - 1);
    lemma_shuffle_steps_permutes(variants_of(t), seed, t.len() - 1);
}

/// Builds the task list: for each variant in order, its repetitions in order.
pub fn generate_tasks(variant_count: usize, repetitions: usize) -> (r: Vec<(usize, usize)>)
    requires
        variant_count * repetitions <= usize::MAX,
    ensures
        r@ == task_list(variant_count as nat, repetitions as nat),
{
    let mut tasks: Vec<(usize, usize)> = Vec::new();
    let mut v: usize = 0;
    while v < variant_count
        invariant
            v <= variant_count,
            variant_count * repetitions <= usize::MAX,
            tasks@ =~= task_list(v as nat, repetitions as nat),
        decreases variant_count - v,
    {
        let mut q: usize = 0;
        while q < repetitions
            invariant
                v < variant_count,
                q <= repetitions,
                tasks@.len() == v * repetitions + q,
                forall|k: int| 0 <= k < v * repetitions + q ==> #[trigger] tasks@[k] == (
                    (k / repetitions as int) as usize,
                    (k % repetitions as int) as usize,
                ),
            decreases repetitions - q,
        {
            proof {
                let k = v * repetitions + q;
                vstd::arithmetic::div_mod::lemma_fundamental_div_mod_converse(
                    k as int,
                    repetitions as int,
                    v as int,
                    q as int,
                );
            }
            tasks.push((v, q));
            q = q + 1;
        }
        proof {
            vstd::arithmetic::mul::lemma_mul_is_distributive_add_other_way(
                repetitions as int,
                v as int,
                1,
            );
        }
        v = v + 1;
        assert(tasks@ =~= task_list(v as nat, repetitions as nat));
    }
    tasks
}

/// Builds the task list for `variant_count` variants of `repetitions`
/// repetitions each and shuffles it with a generator seeded by `seed`.
pub fn generate_shuffled_tasks(variant_count: usize, repetitions: usize, seed: u64) -> (r: Vec<
    (usize, usize),
>)
    requires
        variant_count * repetitions <= usize::MAX,
    ensures
        r@ == schedule(variant_count as nat, repetitions as nat, seed),
        covers_exactly_once(r@, variant_count as nat, repetitions as nat),
{
    let mut tasks = generate_tasks(variant_count, repetitions);
    shuffle(tasks.as_mut_slice(), seed);
    proof {
        lemma_schedule_coverage(variant_count as nat, repetitions as nat, seed);
    }
    tasks
}

} // verus!

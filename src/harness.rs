//! Variant execution: run configuration, and the record of a run that walks
//! the shuffled task list and files each measurement under its variant.
//!
//! Executing a trial is outside work: the caller asks `next_variant` which
//! variant to run, runs it, and hands the measurement (and the optional
//! result sample) to `record`.

use vstd::prelude::*;
use crate::schedule::{generate_shuffled_tasks, lemma_schedule_occurrences, occurrences, schedule, variants_of};
use crate::stats::{aggregate, summary_of, SummaryStats};
use crate::affinity::CpuPinGuard;
use crate::measure::time_seed;

verus! {

broadcast use vstd::seq_lib::group_to_multiset_ensures, vstd::multiset::group_multiset_axioms;

/// When the thread is pinned during measurement.
#[derive(Debug, Clone, Copy, PartialEq, Eq)]
pub enum PinStrategy {
    /// Pin once around the whole batch of measurements.
    Global,
    /// Pin and unpin around every single measurement.
    PerExecution,
}

impl Default for PinStrategy {
    fn default() -> (r: PinStrategy)
        ensures
            r == PinStrategy::PerExecution,
    {
        PinStrategy::PerExecution
    }
}

/// Configuration of a measurement run.
#[derive(Debug, Clone, Copy)]
pub struct TimingConfig {
    /// Samples collected per variant.
    pub runs_per_variant: usize,
    /// Untimed trials per variant before measurement.
    pub warmup_iterations: usize,
    /// When the thread is pinned.
    pub pin_strategy: PinStrategy,
}

impl Default for TimingConfig {
    fn default() -> (r: TimingConfig)
        ensures
            r.runs_per_variant == 30,
            r.warmup_iterations == 10,
            r.pin_strategy == PinStrategy::PerExecution,
    {
        TimingConfig { runs_per_variant: 30, warmup_iterations: 10, pin_strategy: PinStrategy::PerExecution }
    }
}

/// Whether a pin guard is taken once for the whole batch.
pub fn pins_globally(config: &TimingConfig) -> (r: bool)
    ensures
        r == (config.pin_strategy == PinStrategy::Global),
{
    match config.pin_strategy {
        PinStrategy::Global => true,
        PinStrategy::PerExecution => false,
    }
}

/// Record of one run: the shuffled tasks, how many have been executed, and
/// per variant its measurements and its last result sample.
pub struct Execution<T> {
    tasks: Vec<(usize, usize)>,
    next: usize,
    samples: Vec<Vec<u64>>,
    results: Vec<Option<T>>,
}

impl<T> Execution<T> {
    /// The task order.
    pub closed spec fn tasks(&self) -> Seq<(usize, usize)> {
        self.tasks@
    }

    /// Number of tasks executed so far.
    pub closed spec fn executed(&self) -> nat {
        self.next as nat
    }

    /// Measurements per variant, in the order they were recorded.
    pub closed spec fn samples(&self) -> Seq<Seq<u64>> {
        Seq::new(self.samples@.len(), |v: int| self.samples@[v]@)
    }

    /// Last result sample per variant.
    pub closed spec fn results(&self) -> Seq<Option<T>> {
        self.results@
    }

    /// Number of variants.
    pub closed spec fn variant_count(&self) -> nat {
        self.samples@.len()
    }

    pub closed spec fn wf(&self) -> bool {
        &&& self.next <= self.tasks@.len()
        &&& self.results@.len() == self.samples@.len()
        &&& forall|k: int| 0 <= k < self.tasks@.len() ==> (#[trigger] self.tasks@[k]).0 < self.samples@.len()
        &&& forall|v: int|
            0 <= v < self.samples@.len() ==> (#[trigger] self.samples@[v])@.len() == occurrences(
                self.tasks@.subrange(0, self.next as int),
                v as usize,
            )
    }

    /// Starts a run of `variant_count` variants with `repetitions` samples
    /// each, in the task order that `seed` gives; nothing recorded yet.
    pub fn new(variant_count: usize, repetitions: usize, seed: u64) -> (r: Execution<T>)
        requires
            variant_count * repetitions <= usize::MAX,
        ensures
            r.wf(),
            r.tasks() == schedule(variant_count as nat, repetitions as nat, seed),
            r.executed() == 0,
            r.variant_count() == variant_count,
            r.samples().len() == variant_count,
            r.results().len() == variant_count,
            forall|v: int| 0 <= v < variant_count ==> (#[trigger] r.samples()[v]).len() == 0,
            forall|v: int| 0 <= v < variant_count ==> (#[trigger] r.results()[v]) is None,
    {
        let tasks = generate_shuffled_tasks(variant_count, repetitions, seed);
        let mut samples: Vec<Vec<u64>> = Vec::new();
        let mut results: Vec<Option<T>> = Vec::new();
        let mut v: usize = 0;
        while v < variant_count
            invariant
                v <= variant_count,
                samples@.len() == v,
                results@.len() == v,
                forall|i: int| 0 <= i < v ==> (#[trigger] samples@[i])@.len() == 0,
                forall|i: int| 0 <= i < v ==> (#[trigger] results@[i]) is None,
            decreases variant_count - v,
        {
            samples.push(Vec::new());
            results.push(None);
            v = v + 1;
        }
        proof {
            assert(variants_of(tasks@.subrange(0, 0)) =~= Seq::<usize>::empty());
            assert(Seq::<usize>::empty().to_multiset() =~= vstd::multiset::Multiset::<usize>::empty());
        }
        Execution { tasks, next: 0, samples, results }
    }

    /// Shape of a well-formed record: one sample list and one result slot
    /// per variant, and every task names one of the variants.
    pub proof fn lemma_shape(&self)
        requires
            self.wf(),
        ensures
            self.samples().len() == self.variant_count(),
            self.results().len() == self.variant_count(),
            self.executed() <= self.tasks().len(),
            forall|k: int|
                0 <= k < self.tasks().len() ==> (#[trigger] self.tasks()[k]).0 < self.variant_count(),
    {
    }

    /// Whether every task has been executed.
    pub fn is_done(&self) -> (r: bool)
        requires
            self.wf(),
        ensures
            r == (self.executed() == self.tasks().len()),
    {
        self.next == self.tasks.len()
    }

    /// Variant of the next task, or `None` when every task has run.
    pub fn next_variant(&self) -> (r: Option<usize>)
        requires
            self.wf(),
        ensures
            self.executed() < self.tasks().len() ==> r == Some(self.tasks()[self.executed() as int].0),
            self.executed() == self.tasks().len() ==> r is None,
            r matches Some(v) ==> v < self.variant_count(),
    {
        if self.next < self.tasks.len() {
            Some(self.tasks[self.next].0)
        } else {
            None
        }
    }

    /// Records the outcome of the next task: its measurement is appended to
    /// its variant's samples, and a result sample, when there is one,
    /// replaces that variant's stored one (last write wins).
    pub fn record(&mut self, measurement: u64, result: Option<T>)
        requires
            old(self).wf(),
            old(self).executed() < old(self).tasks().len(),
        ensures
            final(self).wf(),
            final(self).tasks() == old(self).tasks(),
            final(self).executed() == old(self).executed() + 1,
            final(self).variant_count() == old(self).variant_count(),
            final(self).samples().len() == final(self).variant_count(),
            final(self).results().len() == final(self).variant_count(),
            old(self).tasks()[old(self).executed() as int].0 < old(self).variant_count(),
            ({
                let v = old(self).tasks()[old(self).executed() as int].0 as int;
                &&& final(self).samples() == old(self).samples().update(
                    v,
                    old(self).samples()[v].push(measurement),
                )
                &&& final(self).results() == match result {
                    Some(_) => old(self).results().update(v, result),
                    None => old(self).results(),
                }
            }),
    {
        let task_count = self.tasks.len();
        let sample_count = self.samples.len();
        let v = self.tasks[self.next].0;
        assert(self.next < task_count);
        let following = self.next + 1;
        let ghost old_samples = self.samples();
        let ghost prior = self.samples@;
        let ghost before = self.tasks@.subrange(0, self.next as int);
        let ghost t = self.tasks@[self.next as int];
        let mut list = Vec::new();
        std::mem::swap(&mut list, &mut self.samples[v]);
        list.push(measurement);
        self.samples.set(v, list);
        assert(self.samples() =~= old_samples.update(v as int, old_samples[v as int].push(measurement)));
        match result {
            Some(_) => {
                self.results.set(v, result);
            },
            None => {},
        }
        self.next = following;
        proof {
            assert(self.tasks@.subrange(0, self.next as int) =~= before.push(t));
            assert(variants_of(before.push(t)) =~= variants_of(before).push(t.0));
            vstd::seq_lib::to_multiset_build(variants_of(before), t.0);
            assert forall|w: int| 0 <= w < self.samples@.len() implies (
            #[trigger] self.samples@[w])@.len() == occurrences(
                self.tasks@.subrange(0, self.next as int),
                w as usize,
            ) by {
                assert(self.samples()[w] == self.samples@[w]@);
                assert(old_samples[w] == prior[w]@);
                assert(prior[w]@.len() == occurrences(before, w as usize));
                let grown = variants_of(before).push(t.0);
                assert(variants_of(self.tasks@.subrange(0, self.next as int)) == grown);
                assert(grown.to_multiset() == variants_of(before).to_multiset().insert(t.0));
                if w == v as int {
                    assert(self.samples()[w] == old_samples[w].push(measurement));
                    assert(grown.to_multiset().count(w as usize) == variants_of(before).to_multiset().count(
                        w as usize,
                    ) + 1);
                } else {
                    assert(w < sample_count);
                    assert(w as usize != t.0);
                    assert(self.samples()[w] == old_samples[w]);
                    assert(grown.to_multiset().count(w as usize) == variants_of(before).to_multiset().count(
                        w as usize,
                    ));
                }
            }
        }
    }

    /// Ends the run: the measurements and last result sample of each
    /// variant.
    pub fn into_parts(self) -> (r: (Vec<Vec<u64>>, Vec<Option<T>>))
        requires
            self.wf(),
        ensures
            r.0@.len() == self.variant_count(),
            forall|v: int| 0 <= v < r.0@.len() ==> (#[trigger] r.0@[v])@ == self.samples()[v],
            r.1@ == self.results(),
            forall|v: int|
                0 <= v < r.0@.len() ==> (#[trigger] r.0@[v])@.len() == occurrences(
                    self.tasks().subrange(0, self.executed() as int),
                    v as usize,
                ),
    {
        (self.samples, self.results)
    }
}

/// A finished run of `variant_count` variants with `repetitions` samples
/// each holds exactly `repetitions` measurements for every variant.
pub proof fn lemma_finished_run_samples<T>(
    run: Execution<T>,
    variant_count: nat,
    repetitions: nat,
    seed: u64,
)
    requires
        run.wf(),
        run.tasks() == schedule(variant_count, repetitions, seed),
        run.variant_count() == variant_count,
        run.executed() == run.tasks().len(),
        variant_count * repetitions <= usize::MAX,
    ensures
        forall|v: int| 0 <= v < variant_count ==> (#[trigger] run.samples()[v]).len() == repetitions,
{
    assert(run.tasks().subrange(0, run.executed() as int) =~= run.tasks());
    assert forall|v: int| 0 <= v < variant_count implies (#[trigger] run.samples()[v]).len()
        == repetitions by {
        lemma_schedule_occurrences(variant_count, repetitions, seed, v as usize);
    }
}

/// Interval, in tasks, between progress reports: a tenth of the total, at
/// least one.
pub open spec fn report_interval(total: int) -> int {
    if total / 10 >= 1 {
        total / 10
    } else {
        1
    }
}

/// Progress to report once `completed` of `total` tasks are done: the
/// percentage done (rounded down) when `completed` is a multiple of the
/// report interval, else nothing.
pub fn progress_report(completed: usize, total: usize) -> (r: Option<usize>)
    requires
        0 < completed <= total,
    ensures
        completed as int % report_interval(total as int) == 0 ==> r == Some(
            ((completed as int * 100) / total as int) as usize,
        ),
        completed as int % report_interval(total as int) != 0 ==> r is None,
        r matches Some(p) ==> p <= 100,
{
    let interval = if total / 10 >= 1 {
        total / 10
    } else {
        1
    };
    if completed % interval == 0 {
        let pct = (completed as u128) * 100 / (total as u128);
        assert(pct <= 100) by (nonlinear_arith)
            requires
                pct == (completed as int) * 100 / (total as int),
                0 < completed <= total,
        ;
        Some(pct as usize)
    } else {
        None
    }
}

/// Items of `entries` filed under slot `(a, s)`, in their order.
pub open spec fn bucket<T>(entries: Seq<(usize, usize, T)>, a: int, s: int) -> Seq<T>
    decreases entries.len(),
{
    if entries.len() == 0 {
        Seq::empty()
    } else {
        let last = entries.last();
        let rest = bucket(entries.drop_last(), a, s);
        if last.0 == a && last.1 == s {
            rest.push(last.2)
        } else {
            rest
        }
    }
}

/// Groups items by slot: entry `(a, s, x)` goes to `r[a][s]`, keeping the
/// order of the entries within each slot.
pub fn group_by_slot<T>(entries: Vec<(usize, usize, T)>, rows: usize, columns: usize) -> (r: Vec<
    Vec<Vec<T>>,
>)
    requires
        forall|k: int| 0 <= k < entries@.len() ==> (#[trigger] entries@[k]).0 < rows && entries@[k].1
            < columns,
    ensures
        r@.len() == rows,
        forall|a: int| 0 <= a < rows ==> (#[trigger] r@[a])@.len() == columns,
        forall|a: int, s: int|
            0 <= a < rows && 0 <= s < columns ==> (#[trigger] r@[a]@[s])@ == bucket(entries@, a, s),
{
    let ghost all = entries@;
    let mut grouped: Vec<Vec<Vec<T>>> = Vec::new();
    let mut a: usize = 0;
    while a < rows
        invariant
            a <= rows,
            grouped@.len() == a,
            forall|i: int| 0 <= i < a ==> (#[trigger] grouped@[i])@.len() == columns,
            forall|i: int, j: int|
                0 <= i < a && 0 <= j < columns ==> (#[trigger] grouped@[i]@[j])@.len() == 0,
        decreases rows - a,
    {
        let mut row: Vec<Vec<T>> = Vec::new();
        let mut s: usize = 0;
        while s < columns
            invariant
                s <= columns,
                row@.len() == s,
                forall|j: int| 0 <= j < s ==> (#[trigger] row@[j])@.len() == 0,
            decreases columns - s,
        {
            row.push(Vec::new());
            s = s + 1;
        }
        grouped.push(row);
        a = a + 1;
    }
    let mut entries = entries;
    let n = entries.len();
    let mut k: usize = 0;
    proof {
        assert forall|i: int, j: int| 0 <= i < rows && 0 <= j < columns implies (
        #[trigger] grouped@[i]@[j])@ == bucket(all.subrange(0, 0), i, j) by {
            assert((grouped@[i]@[j])@ =~= Seq::<T>::empty());
        }
    }
    while k < n
        invariant
            n == all.len(),
            k <= n,
            entries@ == all.subrange(k as int, n as int),
            forall|i: int| 0 <= i < all.len() ==> (#[trigger] all[i]).0 < rows && all[i].1 < columns,
            grouped@.len() == rows,
            forall|i: int| 0 <= i < rows ==> (#[trigger] grouped@[i])@.len() == columns,
            forall|i: int, j: int|
                0 <= i < rows && 0 <= j < columns ==> (#[trigger] grouped@[i]@[j])@ == bucket(
                    all.subrange(0, k as int),
                    i,
                    j,
                ),
        decreases n - k,
    {
        let ghost before = grouped@;
        let (ea, es, x) = entries.remove(0);
        assert(all[k as int] == (ea, es, x));
        let mut row: Vec<Vec<T>> = Vec::new();
        std::mem::swap(&mut row, &mut grouped[ea]);
        let mut cell: Vec<T> = Vec::new();
        std::mem::swap(&mut cell, &mut row[es]);
        cell.push(x);
        row.set(es, cell);
        grouped.set(ea, row);
        proof {
            let prefix = all.subrange(0, k as int + 1);
            assert(prefix.drop_last() =~= all.subrange(0, k as int));
            assert(prefix.last() == (ea, es, x));
            assert forall|i: int, j: int| 0 <= i < rows && 0 <= j < columns implies (
            #[trigger] grouped@[i]@[j])@ == bucket(prefix, i, j) by {
                if i == ea as int && j == es as int {
                } else if i == ea as int {
                    assert(grouped@[i]@[j] == before[i]@[j]);
                } else {
                    assert(grouped@[i] == before[i]);
                }
            }
        }
        k = k + 1;
        assert(entries@ =~= all.subrange(k as int, n as int));
    }
    assert(all.subrange(0, n as int) =~= all);
    grouped
}

/// Aggregated outcome of one variant: its identity, statistics, the number
/// of iterations reported, and its last result sample.
pub struct VariantSummary<T> {
    pub name: &'static str,
    pub description: &'static str,
    pub stats: SummaryStats,
    pub iterations: usize,
    pub result_sample: Option<T>,
}

/// Aggregates one variant's measurements (trimming outliers when
/// `filter_outliers` is set) into its summary.
pub fn compute_result<T>(
    values: &[u64],
    name: &'static str,
    description: &'static str,
    iterations: usize,
    result_sample: Option<T>,
    filter_outliers: bool,
) -> (r: VariantSummary<T>)
    ensures
        r.name == name,
        r.description == description,
        r.stats == summary_of(values@, filter_outliers),
        r.iterations == iterations,
        r.result_sample == result_sample,
{
    VariantSummary {
        name,
        description,
        stats: aggregate(values, filter_outliers),
        iterations,
        result_sample,
    }
}

/// The measurements of a sequence of trial outputs.
pub open spec fn measurements_of<T>(outs: Seq<(u64, Option<T>)>) -> Seq<u64> {
    Seq::new(outs.len(), |j: int| outs[j].0)
}

/// The last result sample among trial outputs, `None` when no trial
/// returned one: a trial without a result leaves the stored one in place.
pub open spec fn last_result<T>(outs: Seq<(u64, Option<T>)>) -> Option<T>
    decreases outs.len(),
{
    if outs.len() == 0 {
        None
    } else if outs.last().1 is Some {
        outs.last().1
    } else {
        last_result(outs.drop_last())
    }
}

/// `s` summarizes `runs` outputs of the trial `run`: there are `runs`
/// outputs, each one `run` can return, `s.stats` are the untrimmed
/// statistics of their measurements and `s.result_sample` is their last
/// result sample.
pub open spec fn measured_by<T, F: Fn() -> (u64, Option<T>)>(
    s: VariantSummary<T>,
    run: F,
    runs: nat,
) -> bool {
    exists|outs: Seq<(u64, Option<T>)>|
        outs.len() == runs && (forall|j: int| 0 <= j < outs.len() ==> run.ensures((), #[trigger] outs[j]))
            && s.stats == summary_of(measurements_of(outs), false) && s.result_sample == last_result(
            outs,
        )
}

/// A variant to measure: its name, description, and the trial it runs. A
/// trial times itself and returns the measurement with an optional result
/// sample.
pub struct Variant<F> {
    pub name: &'static str,
    pub description: &'static str,
    pub run: F,
}

/// Measures variants in a randomized order: every variant first runs
/// `warmup_iterations` untimed trials, then `runs_per_variant` trials of
/// each run in the order a time-derived seed gives, each under a pin guard
/// taken per the configured strategy (on the library's portable platform the
/// guards do not pin). Each variant's measurements are aggregated without
/// trimming, and its last result sample is kept.
pub fn measure_variants<T, F: Fn() -> (u64, Option<T>)>(
    variants: Vec<Variant<F>>,
    iterations: usize,
    config: &TimingConfig,
) -> (r: Vec<VariantSummary<T>>)
    requires
        forall|i: int| 0 <= i < variants@.len() ==> (#[trigger] variants@[i]).run.requires(()),
        variants@.len() * config.runs_per_variant <= usize::MAX,
    ensures
        r@.len() == variants@.len(),
        forall|i: int|
            0 <= i < r@.len() ==> (#[trigger] r@[i]).name == variants@[i].name && r@[i].description
                == variants@[i].description && r@[i].iterations == iterations,
        forall|i: int|
            0 <= i < r@.len() ==> measured_by(
                #[trigger] r@[i],
                variants@[i].run,
                config.runs_per_variant as nat,
            ),
{
    let n = variants.len();
    if n == 0 {
        return Vec::new();
    }
    let mut v: usize = 0;
    while v < n
        invariant
            v <= n,
            n == variants@.len(),
            forall|i: int| 0 <= i < variants@.len() ==> (#[trigger] variants@[i]).run.requires(()),
        decreases n - v,
    {
        let mut w: usize = 0;
        while w < config.warmup_iterations
            invariant
                v < n,
                n == variants@.len(),
                w <= config.warmup_iterations,
                forall|i: int| 0 <= i < variants@.len() ==> (#[trigger] variants@[i]).run.requires(()),
            decreases config.warmup_iterations - w,
        {
            let _ = (variants[v].run)();
            w = w + 1;
        }
        v = v + 1;
    }
    let runs = config.runs_per_variant;
    let seed = time_seed();
    let mut run: Execution<T> = Execution::new(n, runs, seed);
    let ghost mut outs: Seq<Seq<(u64, Option<T>)>> = Seq::new(
        n as nat,
        |i: int| Seq::<(u64, Option<T>)>::empty(),
    );
    proof {
        assert forall|i: int| 0 <= i < n implies measurements_of(#[trigger] outs[i]) == run.samples()[i] by {
            assert(measurements_of(outs[i]) =~= run.samples()[i]);
        }
    }
    let _global_pin = if pins_globally(config) {
        Some(CpuPinGuard::new())
    } else {
        None
    };
    loop
        invariant
            run.wf(),
            run.tasks() == schedule(n as nat, runs as nat, seed),
            run.variant_count() == n,
            n == variants@.len(),
            outs.len() == n,
            forall|i: int| 0 <= i < variants@.len() ==> (#[trigger] variants@[i]).run.requires(()),
            forall|i: int| 0 <= i < n ==> measurements_of(#[trigger] outs[i]) == run.samples()[i],
            forall|i: int| 0 <= i < n ==> last_result(#[trigger] outs[i]) == run.results()[i],
            forall|i: int, j: int|
                0 <= i < n && 0 <= j < outs[i].len() ==> variants@[i].run.ensures((), #[trigger] outs[i][j]),
        ensures
            run.wf(),
            run.tasks() == schedule(n as nat, runs as nat, seed),
            run.variant_count() == n,
            run.executed() == run.tasks().len(),
            outs.len() == n,
            forall|i: int| 0 <= i < n ==> measurements_of(#[trigger] outs[i]) == run.samples()[i],
            forall|i: int| 0 <= i < n ==> last_result(#[trigger] outs[i]) == run.results()[i],
            forall|i: int, j: int|
                0 <= i < n && 0 <= j < outs[i].len() ==> variants@[i].run.ensures((), #[trigger] outs[i][j]),
        decreases run.tasks().len() - run.executed(),
    {
        match run.next_variant() {
            None => {
                break;
            },
            Some(idx) => {
                let _per_call_pin = if pins_globally(config) {
                    None
                } else {
                    Some(CpuPinGuard::new())
                };
                let out = (variants[idx].run)();
                let ghost before = outs;
                let ghost old_run = run;
                proof {
                    outs = outs.update(idx as int, outs[idx as int].push(out));
                }
                let (measurement, result) = out;
                run.record(measurement, result);
                proof {
                    assert forall|i: int| 0 <= i < n implies measurements_of(#[trigger] outs[i])
                        == run.samples()[i] by {
                        if i == idx as int {
                            assert(measurements_of(outs[i]) =~= measurements_of(before[i]).push(
                                out.0,
                            ));
                        }
                    }
                    assert forall|i: int| 0 <= i < n implies last_result(#[trigger] outs[i])
                        == run.results()[i] by {
                        if i == idx as int {
                            assert(outs[i].drop_last() =~= before[i]);
                        }
                    }
                    assert forall|i: int, j: int|
                        0 <= i < n && 0 <= j < outs[i].len() implies variants@[i].run.ensures(
                        (),
                        #[trigger] outs[i][j],
                    ) by {
                        if i == idx as int && j == before[i].len() {
                        } else {
                            assert(outs[i][j] == before[i][j]);
                        }
                    }
                }
            },
        }
    }
    proof {
        lemma_finished_run_samples(run, n as nat, runs as nat, seed);
    }
    let ghost final_samples = run.samples();
    let ghost final_results = run.results();
    let (samples, mut results) = run.into_parts();
    let mut out: Vec<VariantSummary<T>> = Vec::new();
    let mut i: usize = 0;
    while i < n
        invariant
            i <= n,
            samples@.len() == n,
            results@.len() == n,
            n == variants@.len(),
            outs.len() == n,
            runs == config.runs_per_variant,
            forall|k: int| 0 <= k < n ==> (#[trigger] samples@[k])@ == measurements_of(outs[k]),
            forall|k: int| 0 <= k < n ==> (#[trigger] samples@[k])@.len() == runs,
            forall|k: int| i <= k < n ==> (#[trigger] results@[k]) == last_result(outs[k]),
            forall|k: int, j: int|
                0 <= k < n && 0 <= j < outs[k].len() ==> variants@[k].run.ensures((), #[trigger] outs[k][j]),
            out@.len() == i,
            forall|k: int|
                0 <= k < i ==> (#[trigger] out@[k]).name == variants@[k].name && out@[k].description
                    == variants@[k].description && out@[k].iterations == iterations,
            forall|k: int|
                0 <= k < i ==> measured_by(#[trigger] out@[k], variants@[k].run, runs as nat),
        decreases n - i,
    {
        let mut sample: Option<T> = None;
        std::mem::swap(&mut sample, &mut results[i]);
        let summary = compute_result(
            samples[i].as_slice(),
            variants[i].name,
            variants[i].description,
            iterations,
            sample,
            false,
        );
        proof {
            let w = outs[i as int];
            assert(measurements_of(w).len() == runs);
            assert(w.len() == runs as nat);
            assert(measured_by(summary, variants@[i as int].run, runs as nat));
        }
        out.push(summary);
        i = i + 1;
    }
    out
}

/// Measurements of one variant from `run_generic_benchmark`, in the order
/// taken, with the result of its last trial.
pub struct VariantTiming<R> {
    pub name: String,
    pub description: String,
    pub times: Vec<u64>,
    pub result_sample: Option<R>,
}

/// The measurements of a sequence of `(measurement, result)` outputs.
pub open spec fn times_of<R>(outs: Seq<(u64, R)>) -> Seq<u64> {
    Seq::new(outs.len(), |j: int| outs[j].0)
}

/// The result of the last output, if any.
pub open spec fn last_of<R>(outs: Seq<(u64, R)>) -> Option<R> {
    if outs.len() == 0 {
        None
    } else {
        Some(outs.last().1)
    }
}

/// Benchmarks `variants` (name, description, variant) in a randomized order:
/// `warmup_fn` runs once on each variant, then `execute_fn` runs
/// `samples_per_variant` times on each, in the order a time-derived seed
/// gives. Each variant gets the measurements its runs returned, in order,
/// and the result of its last run.
pub fn run_generic_benchmark<V, R, W: Fn(&V), E: Fn(&V) -> (u64, R)>(
    variants: &[(String, String, V)],
    samples_per_variant: usize,
    warmup_fn: W,
    execute_fn: E,
) -> (r: Vec<VariantTiming<R>>)
    requires
        forall|v: &V| #[trigger] warmup_fn.requires((v,)),
        forall|v: &V| #[trigger] execute_fn.requires((v,)),
        variants@.len() * samples_per_variant <= usize::MAX,
    ensures
        r@.len() == variants@.len(),
        forall|i: int|
            0 <= i < r@.len() ==> (#[trigger] r@[i]).name@ == variants@[i].0@ && r@[i].description@
                == variants@[i].1@,
        forall|i: int|
            0 <= i < r@.len() ==> exists|outs: Seq<(u64, R)>|
                outs.len() == samples_per_variant && (forall|j: int|
                    0 <= j < outs.len() ==> execute_fn.ensures((&variants@[i].2,), #[trigger] outs[j]))
                    && (#[trigger] r@[i]).times@ == times_of(outs) && r@[i].result_sample == last_of(
                    outs,
                ),
{
    let n = variants.len();
    if n == 0 {
        return Vec::new();
    }
    let mut v: usize = 0;
    while v < n
        invariant
            v <= n,
            n == variants@.len(),
            forall|x: &V| #[trigger] warmup_fn.requires((x,)),
        decreases n - v,
    {
        warmup_fn(&variants[v].2);
        v = v + 1;
    }
    let seed = time_seed();
    let mut run: Execution<R> = Execution::new(n, samples_per_variant, seed);
    let ghost mut outs: Seq<Seq<(u64, R)>> = Seq::new(n as nat, |i: int| Seq::<(u64, R)>::empty());
    proof {
        assert forall|i: int| 0 <= i < n implies times_of(#[trigger] outs[i]) == run.samples()[i] by {
            assert(times_of(outs[i]) =~= run.samples()[i]);
        }
    }
    loop
        invariant
            run.wf(),
            run.tasks() == schedule(n as nat, samples_per_variant as nat, seed),
            run.variant_count() == n,
            n == variants@.len(),
            outs.len() == n,
            forall|x: &V| #[trigger] execute_fn.requires((x,)),
            forall|i: int| 0 <= i < n ==> times_of(#[trigger] outs[i]) == run.samples()[i],
            forall|i: int| 0 <= i < n ==> last_of(#[trigger] outs[i]) == run.results()[i],
            forall|i: int, j: int|
                0 <= i < n && 0 <= j < outs[i].len() ==> execute_fn.ensures(
                    (&variants@[i].2,),
                    #[trigger] outs[i][j],
                ),
        ensures
            run.wf(),
            run.tasks() == schedule(n as nat, samples_per_variant as nat, seed),
            run.variant_count() == n,
            run.executed() == run.tasks().len(),
            outs.len() == n,
            forall|i: int| 0 <= i < n ==> times_of(#[trigger] outs[i]) == run.samples()[i],
            forall|i: int| 0 <= i < n ==> last_of(#[trigger] outs[i]) == run.results()[i],
            forall|i: int, j: int|
                0 <= i < n && 0 <= j < outs[i].len() ==> execute_fn.ensures(
                    (&variants@[i].2,),
                    #[trigger] outs[i][j],
                ),
        decreases run.tasks().len() - run.executed(),
    {
        match run.next_variant() {
            None => {
                break;
            },
            Some(idx) => {
                let out = execute_fn(&variants[idx].2);
                let ghost before = outs;
                proof {
                    outs = outs.update(idx as int, outs[idx as int].push(out));
                }
                let (measurement, result) = out;
                run.record(measurement, Some(result));
                proof {
                    assert forall|i: int| 0 <= i < n implies times_of(#[trigger] outs[i])
                        == run.samples()[i] by {
                        if i == idx as int {
                            assert(times_of(outs[i]) =~= times_of(before[i]).push(out.0));
                        }
                    }
                    assert forall|i: int, j: int|
                        0 <= i < n && 0 <= j < outs[i].len() implies execute_fn.ensures(
                        (&variants@[i].2,),
                        #[trigger] outs[i][j],
                    ) by {
                        if i == idx as int && j == before[i].len() {
                        } else {
                            assert(outs[i][j] == before[i][j]);
                        }
                    }
                }
            },
        }
    }
    proof {
        lemma_finished_run_samples(run, n as nat, samples_per_variant as nat, seed);
    }
    let (samples, mut results) = run.into_parts();
    let mut samples = samples;
    let mut out: Vec<VariantTiming<R>> = Vec::new();
    let mut i: usize = 0;
    while i < n
        invariant
            i <= n,
            samples@.len() == n,
            results@.len() == n,
            n == variants@.len(),
            outs.len() == n,
            forall|k: int| i <= k < n ==> (#[trigger] samples@[k])@ == times_of(outs[k]),
            forall|k: int| 0 <= k < n ==> (#[trigger] outs[k]).len() == samples_per_variant,
            forall|k: int| i <= k < n ==> (#[trigger] results@[k]) == last_of(outs[k]),
            forall|k: int, j: int|
                0 <= k < n && 0 <= j < outs[k].len() ==> execute_fn.ensures(
                    (&variants@[k].2,),
                    #[trigger] outs[k][j],
                ),
            out@.len() == i,
            forall|k: int|
                0 <= k < i ==> (#[trigger] out@[k]).name@ == variants@[k].0@ && out@[k].description@
                    == variants@[k].1@,
            forall|k: int|
                0 <= k < i ==> (#[trigger] out@[k]).times@ == times_of(outs[k]) && out@[k].result_sample
                    == last_of(outs[k]),
        decreases n - i,
    {
        let mut sample: Option<R> = None;
        std::mem::swap(&mut sample, &mut results[i]);
        let mut times: Vec<u64> = Vec::new();
        std::mem::swap(&mut times, &mut samples[i]);
        let name = variants[i].0.clone();
        let description = variants[i].1.clone();
        out.push(VariantTiming { name, description, times, result_sample: sample });
        i = i + 1;
    }
    proof {
        assert forall|k: int| 0 <= k < n implies exists|o: Seq<(u64, R)>|
            o.len() == samples_per_variant && (forall|j: int|
                0 <= j < o.len() ==> execute_fn.ensures((&variants@[k].2,), #[trigger] o[j]))
                && (#[trigger] out@[k]).times@ == times_of(o) && out@[k].result_sample == last_of(o) by {
            let o = outs[k];
            assert(o.len() == samples_per_variant);
        }
    }
    out
}

} // verus!

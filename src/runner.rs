//! The two-phase calibrated timing loop.
use vstd::prelude::*;
use std::time::Instant;
use crate::report::BenchmarkResult;

verus! {

/// Length of the calibration phase, in nanoseconds.
pub const CALIBRATION_NANOS: u128 = 100_000_000;
/// Length of the measurement phase, in nanoseconds.
pub const MEASUREMENT_NANOS: u128 = 5_000_000_000;

/// A unit of measured work: `setup` builds a fresh state for a phase, and
/// each `step` advances it once, returning `false` when the work has run out.
///
/// A workload may state a model of itself (`modeled()`): then `calls(s)`
/// counts the `step` calls that state `s` has seen since `setup`, and the
/// `n`th call (counting from 1) returns `more_at(n)`. A workload that states
/// none promises nothing.
pub trait Workload {
    type State;

    /// Whether this workload states its model.
    open spec fn modeled(&self) -> bool {
        false
    }

    /// What the `n`th `step` call on a fresh state returns.
    open spec fn more_at(&self, n: nat) -> bool {
        true
    }

    /// How many `step` calls `s` has seen since `setup`.
    open spec fn calls(&self, s: Self::State) -> nat {
        0
    }

    /// What holds of every state that `setup` and `step` produce.
    open spec fn inv(&self, s: Self::State) -> bool {
        true
    }

    fn setup(&self) -> (s: Self::State)
        ensures
            self.modeled() ==> self.inv(s) && self.calls(s) == 0,
    ;

    fn step(&self, state: &mut Self::State) -> (more: bool)
        requires
            self.modeled() ==> self.inv(*old(state)) && self.calls(*old(state)) < usize::MAX,
        ensures
            self.modeled() ==> {
                &&& self.inv(*final(state))
                &&& self.calls(*final(state)) == self.calls(*old(state)) + 1
                &&& more == self.more_at(self.calls(*final(state)))
            },
    ;
}

/// A per-core counter of processor cycles.
pub trait CycleCounter {
    fn read_cycles(&self) -> u64;
}

/// The size of the next batch once `done` steps have run: the first batch
/// has `first` steps; a growing phase then runs as many as it has run so
/// far, a fixed one `first` again; never past `usize::MAX` steps in all.
pub open spec fn planned_batch(first: nat, growing: bool, done: nat) -> nat {
    let want = if growing && done > 0 {
        done
    } else {
        first
    };
    let room = (usize::MAX - done) as nat;
    if want <= room {
        want
    } else {
        room
    }
}

/// What one phase did.
pub struct Phase {
    /// Number of `step` calls made.
    pub iterations: usize,
    /// Whether a `step` call returned `false`.
    pub finished: bool,
    /// What each `step` call returned, in order.
    pub outcomes: Ghost<Seq<bool>>,
    /// Elapsed nanoseconds read at each time check, in order.
    pub checks: Ghost<Seq<u128>>,
    /// Number of steps done when each batch began, in order.
    pub starts: Ghost<Seq<nat>>,
    /// The elapsed nanoseconds read at the last time check.
    pub last_check: u128,
}

impl Phase {
    /// The phase ran batches of `planned_batch(first, growing, ..)` steps,
    /// each begun only after a time check under `target`; it stopped at the
    /// first `step` that returned `false`, counting that call, or at the
    /// first check at or over `target`.
    pub open spec fn follows(self, first: nat, growing: bool, target: u128) -> bool {
        let outcomes = self.outcomes@;
        let checks = self.checks@;
        let starts = self.starts@;
        &&& self.iterations == outcomes.len()
        &&& forall|i: int| 0 <= i < outcomes.len() - 1 ==> #[trigger] outcomes[i]
        &&& self.finished == (outcomes.len() > 0 && !outcomes.last())
        &&& checks.len() >= 1
        &&& checks.last() == self.last_check
        &&& starts.len() == if self.finished {
            checks.len()
        } else {
            (checks.len() - 1) as nat
        }
        &&& forall|k: int| 0 <= k < starts.len() ==> #[trigger] checks[k] < target
        &&& !self.finished ==> (checks.last() >= target || planned_batch(first, growing, self.iterations as nat) == 0)
        &&& starts.len() > 0 ==> starts[0] == 0
        &&& forall|k: int| 0 <= k < starts.len() - 1 ==> #[trigger] starts[k + 1] == starts[k] + planned_batch(first, growing, starts[k])
        &&& starts.len() == 0 ==> self.iterations == 0
        &&& (starts.len() > 0 && !self.finished) ==> self.iterations == starts.last() + planned_batch(first, growing, starts.last())
        &&& (starts.len() > 0 && self.finished) ==> starts.last() < self.iterations <= starts.last() + planned_batch(first, growing, starts.last())
    }
}

fn elapsed_nanos(since: &Instant) -> u128 {
    since.elapsed().as_nanos()
}

/// The step results that `p` records are those of `workload`'s model, when
/// it states one.
pub open spec fn tied_to<W: Workload>(p: Phase, workload: &W) -> bool {
    workload.modeled() ==> forall|i: int| 0 <= i < p.outcomes@.len() ==> #[trigger] p.outcomes@[i] == workload.more_at((i + 1) as nat)
}

/// The decision at a time check, once `done` steps have run and `elapsed`
/// nanoseconds have passed: `None` ends the phase, `Some(n)` runs a batch
/// of `n` steps.
pub fn after_check(first: usize, growing: bool, target: u128, done: usize, elapsed: u128) -> (r: Option<usize>)
    ensures
        r == (if elapsed >= target || planned_batch(first as nat, growing, done as nat) == 0 {
            None::<usize>
        } else {
            Some(planned_batch(first as nat, growing, done as nat) as usize)
        }),
{
    if elapsed >= target {
        return None;
    }
    let want = if growing && done > 0 {
        done
    } else {
        first
    };
    let room = usize::MAX - done;
    let size = if want <= room {
        want
    } else {
        room
    };
    if size == 0 {
        None
    } else {
        Some(size)
    }
}

/// The decision after a `step` call that returned `more`, once `done` steps
/// had run: the new count, which counts this call, and whether the phase
/// ends here.
pub fn after_step(done: usize, more: bool) -> (r: (usize, bool))
    requires
        done < usize::MAX,
    ensures
        r.0 == done + 1,
        r.1 == !more,
{
    (done + 1, !more)
}

/// Runs one phase on the fresh `state`: batches of
/// `planned_batch(first, growing, ..)` steps, with a time check before each
/// batch against `target` nanoseconds since `started`.
pub fn run_phase<W: Workload>(
    workload: &W,
    state: &mut W::State,
    first: usize,
    growing: bool,
    target: u128,
    started: &Instant,
) -> (p: Phase)
    requires
        first >= 1,
        workload.modeled() ==> workload.inv(*old(state)) && workload.calls(*old(state)) == 0,
    ensures
        p.follows(first as nat, growing, target),
        tied_to(p, workload),
        workload.modeled() ==> workload.inv(*final(state)) && workload.calls(*final(state)) == p.iterations,
{
    let mut iterations: usize = 0;
    let mut finished = false;
    let ghost mut outcomes: Seq<bool> = seq![];
    let ghost mut checks: Seq<u128> = seq![];
    let ghost mut starts: Seq<nat> = seq![];
    let ghost first_n = first as nat;
    let mut last_check: u128 = 0;
    loop
        invariant_except_break
            !finished,
            forall|i: int| 0 <= i < outcomes.len() ==> #[trigger] outcomes[i],
            starts.len() == checks.len(),
            starts.len() > 0 ==> iterations == starts.last() + planned_batch(first_n, growing, starts.last()),
        invariant
            first >= 1,
            first_n == first,
            iterations == outcomes.len(),
            workload.modeled() ==> workload.inv(*state) && workload.calls(*state) == iterations,
            workload.modeled() ==> forall|i: int| 0 <= i < outcomes.len() ==> #[trigger] outcomes[i] == workload.more_at((i + 1) as nat),
            forall|k: int| 0 <= k < starts.len() ==> #[trigger] checks[k] < target,
            starts.len() > 0 ==> starts[0] == 0,
            forall|k: int| 0 <= k < starts.len() - 1 ==> #[trigger] starts[k + 1] == starts[k] + planned_batch(first_n, growing, starts[k]),
            starts.len() == 0 ==> iterations == 0,
            checks.len() > 0 ==> last_check == checks.last(),
        ensures
            (Phase { iterations, finished, outcomes: Ghost(outcomes), checks: Ghost(checks), starts: Ghost(starts), last_check }).follows(first_n, growing, target),
            workload.modeled() ==> workload.inv(*state) && workload.calls(*state) == iterations,
            workload.modeled() ==> forall|i: int| 0 <= i < outcomes.len() ==> #[trigger] outcomes[i] == workload.more_at((i + 1) as nat),
        decreases usize::MAX - iterations,
    {
        let elapsed = elapsed_nanos(started);
        last_check = elapsed;
        proof {
            checks = checks.push(elapsed);
        }
        let batch = match after_check(first, growing, target, iterations, elapsed) {
            None => break,
            Some(size) => size,
        };
        let ghost begun = iterations as nat;
        proof {
            starts = starts.push(begun);
        }
        let mut k: usize = 0;
        while k < batch
            invariant_except_break
                !finished,
                forall|i: int| 0 <= i < outcomes.len() ==> #[trigger] outcomes[i],
            invariant
                k <= batch,
                batch == planned_batch(first_n, growing, begun),
                begun + batch <= usize::MAX,
                iterations == begun + k,
                iterations == outcomes.len(),
                workload.modeled() ==> workload.inv(*state) && workload.calls(*state) == iterations,
                workload.modeled() ==> forall|i: int| 0 <= i < outcomes.len() ==> #[trigger] outcomes[i] == workload.more_at((i + 1) as nat),
            ensures
                finished ==> (begun < iterations <= begun + batch && outcomes.len() == iterations && !outcomes.last()
                    && forall|i: int| 0 <= i < outcomes.len() - 1 ==> #[trigger] outcomes[i]),
                !finished ==> (iterations == begun + batch && iterations == outcomes.len()
                    && forall|i: int| 0 <= i < outcomes.len() ==> #[trigger] outcomes[i]),
            decreases batch - k,
        {
            let more = workload.step(state);
            let (done, stop) = after_step(iterations, more);
            iterations = done;
            k = k + 1;
            proof {
                outcomes = outcomes.push(more);
            }
            if stop {
                finished = true;
                break;
            }
        }
        if finished {
            break;
        }
    }
    Phase { iterations, finished, outcomes: Ghost(outcomes), checks: Ghost(checks), starts: Ghost(starts), last_check }
}

/// `r` reports a measurement phase of `workload` that began with batches
/// of the calibration's step count (at least one), after a growing
/// calibration phase that began with one step; each phase stepped a fresh
/// state of its own; `r` counts the measurement's calls and is built from
/// the clock reading `elapsed` that ended it (its last time check, or a
/// reading after the `step` that returned `false`) and the cycle counter
/// readings `before` and `after` taken around it.
pub open spec fn measured_by<W: Workload>(
    workload: &W,
    r: BenchmarkResult,
    calibration: Phase,
    measurement: Phase,
    calibration_nanos: u128,
    measurement_nanos: u128,
    elapsed: u128,
    before: u64,
    after: u64,
) -> bool {
    let batch = if calibration.iterations > 0 {
        calibration.iterations as nat
    } else {
        1
    };
    &&& calibration.follows(1, true, calibration_nanos)
    &&& measurement.follows(batch, false, measurement_nanos)
    &&& tied_to(calibration, workload)
    &&& tied_to(measurement, workload)
    &&& !measurement.finished ==> elapsed == measurement.last_check
    &&& r == result_of(measurement.iterations, elapsed, before, after)
}

/// The result of a measurement phase of `iterations` steps that took
/// `elapsed` nanoseconds, with cycle counter readings `before` and `after`:
/// the duration saturates at `u64::MAX`, the cycle count wraps as the
/// counter does.
pub open spec fn result_of(iterations: usize, elapsed: u128, before: u64, after: u64) -> BenchmarkResult {
    BenchmarkResult {
        iterations,
        duration_nanos: if elapsed > u64::MAX as u128 {
            u64::MAX
        } else {
            elapsed as u64
        },
        cycles: ((after as int - before as int) % 0x1_0000_0000_0000_0000) as u64,
    }
}

/// Builds the result of a measurement phase from its step count, its
/// elapsed nanoseconds and the cycle counter readings around it.
pub fn measured_result(iterations: usize, elapsed: u128, before: u64, after: u64) -> (r: BenchmarkResult)
    ensures
        r == result_of(iterations, elapsed, before, after),
{
    let duration_nanos = if elapsed > u64::MAX as u128 {
        u64::MAX
    } else {
        elapsed as u64
    };
    BenchmarkResult { iterations, duration_nanos, cycles: after.wrapping_sub(before) }
}

/// Measures `workload`: a calibration phase of `calibration_nanos` sets the
/// batch size of a measurement phase of `measurement_nanos`, each on a fresh
/// state; the cycle counter is read just before and just after measuring.
pub fn benchmark_for<W: Workload, C: CycleCounter>(
    workload: &W,
    counter: &C,
    calibration_nanos: u128,
    measurement_nanos: u128,
) -> (r: BenchmarkResult)
    ensures
        exists|calibration: Phase, measurement: Phase, elapsed: u128, before: u64, after: u64|
            #[trigger] measured_by(workload, r, calibration, measurement, calibration_nanos, measurement_nanos, elapsed, before, after),
{
    let mut state = workload.setup();
    let started = Instant::now();
    let calibration = run_phase(workload, &mut state, 1, true, calibration_nanos, &started);

    let batch = if calibration.iterations > 0 {
        calibration.iterations
    } else {
        1
    };
    let mut state = workload.setup();
    let started = Instant::now();
    let before = counter.read_cycles();
    let measurement = run_phase(workload, &mut state, batch, false, measurement_nanos, &started);
    let elapsed = if measurement.finished {
        elapsed_nanos(&started)
    } else {
        measurement.last_check
    };
    let after = counter.read_cycles();

    let r = measured_result(measurement.iterations, elapsed, before, after);
    assert(measured_by(workload, r, calibration, measurement, calibration_nanos, measurement_nanos, elapsed, before, after));
    r
}

/// Measures `workload` with a 100 ms calibration phase and a 5 s measurement
/// phase.
pub fn benchmark<W: Workload, C: CycleCounter>(workload: &W, counter: &C) -> (r: BenchmarkResult)
    ensures
        exists|calibration: Phase, measurement: Phase, elapsed: u128, before: u64, after: u64|
            #[trigger] measured_by(workload, r, calibration, measurement, CALIBRATION_NANOS, MEASUREMENT_NANOS, elapsed, before, after),
{
    benchmark_for(workload, counter, CALIBRATION_NANOS, MEASUREMENT_NANOS)
}

/// Early completion is counted exactly: when the `n`th `step` call of a
/// phase returns `false` after `n - 1` calls that returned `true`, the
/// phase ends there with exactly `n` iterations.
pub proof fn lemma_stops_at_first_false(p: Phase, first: nat, growing: bool, target: u128, n: nat)
    requires
        p.follows(first, growing, target),
        1 <= n <= p.outcomes@.len(),
        !p.outcomes@[n - 1],
        forall|i: int| 0 <= i < n - 1 ==> #[trigger] p.outcomes@[i],
    ensures
        p.iterations == n,
        p.finished,
{
    if n < p.outcomes@.len() {
        assert(p.outcomes@[n - 1]);
    }
}

/// A workload whose `n`th `step` returns `false` after `n - 1` calls that
/// returned `true` runs at most `n` steps in a phase, and exactly `n` when
/// the phase ends by that `false` rather than by time.
pub proof fn lemma_workload_stops_at_first_false<W: Workload>(
    p: Phase,
    workload: &W,
    first: nat,
    growing: bool,
    target: u128,
    n: nat,
)
    requires
        p.follows(first, growing, target),
        tied_to(p, workload),
        workload.modeled(),
        n >= 1,
        !workload.more_at(n),
        forall|k: nat| 1 <= k < n ==> #[trigger] workload.more_at(k),
    ensures
        p.iterations <= n,
        p.finished <==> p.iterations == n,
{
    let o = p.outcomes@;
    if p.iterations > n {
        assert(o[n - 1] == workload.more_at(n));
        assert(o[n - 1]);
    }
    if p.finished {
        assert(o[o.len() - 1] == workload.more_at(o.len()));
        if o.len() < n {
            assert(workload.more_at(o.len()));
        }
    }
    if p.iterations == n {
        assert(o[n - 1] == workload.more_at(n));
    }
}

/// Early completion is counted exactly: when the `n`th `step` is the first
/// to return `false` and the phase's target time is not reached first (no
/// time check reads the target), the phase makes exactly `n` steps.
pub proof fn lemma_counts_exactly_n<W: Workload>(
    p: Phase,
    workload: &W,
    first: nat,
    growing: bool,
    target: u128,
    n: nat,
)
    requires
        p.follows(first, growing, target),
        tied_to(p, workload),
        workload.modeled(),
        first >= 1,
        1 <= n < usize::MAX,
        !workload.more_at(n),
        forall|k: nat| 1 <= k < n ==> #[trigger] workload.more_at(k),
        forall|i: int| 0 <= i < p.checks@.len() ==> #[trigger] p.checks@[i] < target,
    ensures
        p.iterations == n,
        p.finished,
{
    lemma_workload_stops_at_first_false(p, workload, first, growing, target, n);
    if !p.finished {
        assert(p.checks@[p.checks@.len() - 1] < target);
        assert(planned_batch(first, growing, p.iterations as nat) > 0);
    }
}

/// A workload that never runs out is never cut short: its phases end by
/// time (or by the step count reaching `usize::MAX`).
pub proof fn lemma_endless_workload_runs_to_target<W: Workload>(
    p: Phase,
    workload: &W,
    first: nat,
    growing: bool,
    target: u128,
)
    requires
        p.follows(first, growing, target),
        tied_to(p, workload),
        workload.modeled(),
        forall|k: nat| k >= 1 ==> #[trigger] workload.more_at(k),
    ensures
        !p.finished,
        p.checks@.last() >= target || planned_batch(first, growing, p.iterations as nat) == 0,
{
    let o = p.outcomes@;
    if p.finished {
        assert(o[o.len() - 1] == workload.more_at(o.len()));
    }
}

/// A phase never starts a batch once its target time has been reached, so
/// it overruns the target by at most the one batch under way at that time:
/// every time check that let a batch begin read less than the target.
pub proof fn lemma_batches_begin_before_target(p: Phase, first: nat, growing: bool, target: u128, k: int)
    requires
        p.follows(first, growing, target),
        0 <= k < p.starts@.len(),
    ensures
        p.checks@[k] < target,
        k + 1 < p.checks@.len() || p.finished,
{
}

} // verus!

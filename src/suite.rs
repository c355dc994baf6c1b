//! The workloads that need nothing but memory and the clock, and the
//! functions that measure and report each of them.
use vstd::prelude::*;
use crate::barrier::black_box;
use crate::memory::{BLOCKS_PER_GB, BLOCK_BYTES, MemoryReadTest, SequentialState, memory_read_random_iteration};
use crate::report::{BenchmarkResult, report_lines};
use crate::runner::{CycleCounter, Phase, Workload, benchmark, measured_by, lemma_workload_stops_at_first_false, lemma_endless_workload_runs_to_target, CALIBRATION_NANOS, MEASUREMENT_NANOS};

verus! {

/// Relies on rand's `random`: a value drawn from the thread-local generator.
pub assume_specification<T>[ rand::random::<T> ]() -> T
    where
        rand::distributions::Standard: rand::distributions::Distribution<T>,
;

/// Relies on the slice's `sort_unstable`: the same values, in ascending order.
#[verifier::external_body]
fn sort_values(v: &mut Vec<u64>)
    ensures
        final(v)@.len() == old(v)@.len(),
        final(v)@.to_multiset() == old(v)@.to_multiset(),
        forall|i: int, j: int| 0 <= i <= j < final(v)@.len() ==> final(v)@[i] <= final(v)@[j],
{
    v.sort_unstable()
}

/// Writes each block of a buffer once, front to back.
pub struct SequentialWrite {
    pub elements: usize,
}

/// Reads each block of a buffer once, front to back.
pub struct SequentialRead {
    pub elements: usize,
}

/// Writes each block of a buffer once, in a random order.
pub struct RandomWrite {
    pub elements: usize,
}

/// Reads each block of a buffer once, in a random order.
pub struct RandomRead {
    pub elements: usize,
}

/// Reads the calendar clock.
pub struct SystemTimeRead;

/// Sorts `elements` random numbers once.
pub struct Sort {
    pub elements: usize,
}

/// The numbers to sort, how many times `step` has run on them, and the
/// numbers as they were drawn.
pub struct SortState {
    pub values: Vec<u64>,
    pub calls: usize,
    pub drawn: Ghost<Seq<u64>>,
}

/// `s` is in ascending order.
pub open spec fn ascending(s: Seq<u64>) -> bool {
    forall|i: int, j: int| 0 <= i <= j < s.len() ==> s[i] <= s[j]
}

impl Workload for SequentialWrite {
    type State = SequentialState;

    open spec fn modeled(&self) -> bool {
        true
    }

    open spec fn more_at(&self, n: nat) -> bool {
        n < self.elements
    }

    open spec fn calls(&self, s: SequentialState) -> nat {
        s.i as nat
    }

    open spec fn inv(&self, s: SequentialState) -> bool {
        s.vec@.len() == self.elements
    }

    fn setup(&self) -> SequentialState {
        SequentialState::new(self.elements)
    }

    fn step(&self, state: &mut SequentialState) -> bool {
        state.write_next()
    }
}

impl Workload for SequentialRead {
    type State = SequentialState;

    open spec fn modeled(&self) -> bool {
        true
    }

    open spec fn more_at(&self, n: nat) -> bool {
        n < self.elements
    }

    open spec fn calls(&self, s: SequentialState) -> nat {
        s.i as nat
    }

    open spec fn inv(&self, s: SequentialState) -> bool {
        s.vec@.len() == self.elements
    }

    fn setup(&self) -> SequentialState {
        SequentialState::numbered(self.elements)
    }

    fn step(&self, state: &mut SequentialState) -> bool {
        state.read_next()
    }
}

/// `t` walks `elements` blocks in an order that names each of them.
pub open spec fn random_walk_inv(t: MemoryReadTest, elements: usize) -> bool {
    &&& t.vec@.len() == elements
    &&& t.order@.len() == elements
    &&& forall|k: int| 0 <= k < elements ==> #[trigger] t.order@[k] < elements
}

impl Workload for RandomWrite {
    type State = MemoryReadTest;

    open spec fn modeled(&self) -> bool {
        true
    }

    open spec fn more_at(&self, n: nat) -> bool {
        n < self.elements
    }

    open spec fn calls(&self, s: MemoryReadTest) -> nat {
        s.i as nat
    }

    open spec fn inv(&self, s: MemoryReadTest) -> bool {
        random_walk_inv(s, self.elements)
    }

    fn setup(&self) -> MemoryReadTest {
        MemoryReadTest::new(self.elements)
    }

    fn step(&self, state: &mut MemoryReadTest) -> bool {
        state.write_next()
    }
}

impl Workload for RandomRead {
    type State = MemoryReadTest;

    open spec fn modeled(&self) -> bool {
        true
    }

    open spec fn more_at(&self, n: nat) -> bool {
        n < self.elements
    }

    open spec fn calls(&self, s: MemoryReadTest) -> nat {
        s.i as nat
    }

    open spec fn inv(&self, s: MemoryReadTest) -> bool {
        random_walk_inv(s, self.elements)
    }

    fn setup(&self) -> MemoryReadTest {
        MemoryReadTest::new(self.elements)
    }

    fn step(&self, state: &mut MemoryReadTest) -> bool {
        memory_read_random_iteration(state)
    }
}

impl Workload for SystemTimeRead {
    type State = usize;

    open spec fn modeled(&self) -> bool {
        true
    }

    open spec fn more_at(&self, n: nat) -> bool {
        true
    }

    open spec fn calls(&self, s: usize) -> nat {
        s as nat
    }

    open spec fn inv(&self, s: usize) -> bool {
        true
    }

    fn setup(&self) -> usize {
        0
    }

    fn step(&self, calls: &mut usize) -> bool {
        black_box(std::time::SystemTime::now());
        *calls = *calls + 1;
        true
    }
}

/// `elements` random numbers.
pub fn random_values(elements: usize) -> (v: Vec<u64>)
    ensures
        v@.len() == elements,
{
    let mut v: Vec<u64> = Vec::new();
    let mut k: usize = 0;
    while k < elements
        invariant
            k <= elements,
            v@.len() == k,
        decreases elements - k,
    {
        v.push(rand::random::<u64>());
        k = k + 1;
    }
    v
}

impl Workload for Sort {
    type State = SortState;

    open spec fn modeled(&self) -> bool {
        true
    }

    open spec fn more_at(&self, n: nat) -> bool {
        false
    }

    open spec fn calls(&self, s: SortState) -> nat {
        s.calls as nat
    }

    open spec fn inv(&self, s: SortState) -> bool {
        &&& s.values@.len() == self.elements
        &&& s.values@.to_multiset() == s.drawn@.to_multiset()
        &&& s.calls > 0 ==> ascending(s.values@)
    }

    fn setup(&self) -> SortState {
        let values = random_values(self.elements);
        let ghost drawn = values@;
        SortState { values, calls: 0, drawn: Ghost(drawn) }
    }

    fn step(&self, state: &mut SortState) -> bool {
        sort_values(&mut state.values);
        state.calls = state.calls + 1;
        false
    }
}

/// `lines` report a full benchmark of `workload` under `name`, with `size`
/// bytes per iteration, in which at most `most` iterations were measured.
pub open spec fn reports_benchmark<W: Workload>(workload: &W, lines: Vec<String>, name: Seq<char>, size: usize, most: nat) -> bool {
    exists|r: BenchmarkResult, calibration: Phase, measurement: Phase, elapsed: u128, before: u64, after: u64|
        #[trigger] measured_by(workload, r, calibration, measurement, CALIBRATION_NANOS, MEASUREMENT_NANOS, elapsed, before, after)
            && lines@.map_values(|s: String| s@) == report_lines(r, name, size)
            && r.iterations <= most
}

/// `lines` report a full benchmark of `workload` under `name`, with `size`
/// bytes per iteration, whose measurement phase ran until its target time.
pub open spec fn reports_timed_benchmark<W: Workload>(workload: &W, lines: Vec<String>, name: Seq<char>, size: usize) -> bool {
    exists|r: BenchmarkResult, calibration: Phase, measurement: Phase, elapsed: u128, before: u64, after: u64|
        #[trigger] measured_by(workload, r, calibration, measurement, CALIBRATION_NANOS, MEASUREMENT_NANOS, elapsed, before, after)
            && lines@.map_values(|s: String| s@) == report_lines(r, name, size)
            && !measurement.finished
            && (r.duration_nanos >= MEASUREMENT_NANOS || r.iterations == usize::MAX)
}

/// Sequential writes over 1 GB of memory.
pub fn memory_write_sequential<C: CycleCounter>(counter: &C) -> (lines: Vec<String>)
    ensures
        reports_benchmark(&SequentialWrite { elements: BLOCKS_PER_GB }, lines, "Write Seq Vec"@, BLOCK_BYTES, BLOCKS_PER_GB as nat),
{
    let w = SequentialWrite { elements: BLOCKS_PER_GB };
    let r = benchmark(&w, counter);
    let lines = r.report("Write Seq Vec", BLOCK_BYTES);
    proof {
        let (c, m, e, b, a) = choose|c: Phase, m: Phase, e: u128, b: u64, a: u64|
            measured_by(&w, r, c, m, CALIBRATION_NANOS, MEASUREMENT_NANOS, e, b, a);
        lemma_workload_stops_at_first_false(m, &w, if c.iterations > 0 { c.iterations as nat } else { 1 }, false, MEASUREMENT_NANOS, BLOCKS_PER_GB as nat);
    }
    lines
}

/// Sequential reads over 1 GB of memory.
pub fn memory_read_sequential<C: CycleCounter>(counter: &C) -> (lines: Vec<String>)
    ensures
        reports_benchmark(&SequentialRead { elements: BLOCKS_PER_GB }, lines, "Read Seq Vec"@, BLOCK_BYTES, BLOCKS_PER_GB as nat),
{
    let w = SequentialRead { elements: BLOCKS_PER_GB };
    let r = benchmark(&w, counter);
    let lines = r.report("Read Seq Vec", BLOCK_BYTES);
    proof {
        let (c, m, e, b, a) = choose|c: Phase, m: Phase, e: u128, b: u64, a: u64|
            measured_by(&w, r, c, m, CALIBRATION_NANOS, MEASUREMENT_NANOS, e, b, a);
        lemma_workload_stops_at_first_false(m, &w, if c.iterations > 0 { c.iterations as nat } else { 1 }, false, MEASUREMENT_NANOS, BLOCKS_PER_GB as nat);
    }
    lines
}

/// Random writes over 1 GB of memory, each block once.
pub fn memory_write_random<C: CycleCounter>(counter: &C) -> (lines: Vec<String>)
    ensures
        reports_benchmark(&RandomWrite { elements: BLOCKS_PER_GB }, lines, "Random Write Vec"@, BLOCK_BYTES, BLOCKS_PER_GB as nat),
{
    let w = RandomWrite { elements: BLOCKS_PER_GB };
    let r = benchmark(&w, counter);
    let lines = r.report("Random Write Vec", BLOCK_BYTES);
    proof {
        let (c, m, e, b, a) = choose|c: Phase, m: Phase, e: u128, b: u64, a: u64|
            measured_by(&w, r, c, m, CALIBRATION_NANOS, MEASUREMENT_NANOS, e, b, a);
        lemma_workload_stops_at_first_false(m, &w, if c.iterations > 0 { c.iterations as nat } else { 1 }, false, MEASUREMENT_NANOS, BLOCKS_PER_GB as nat);
    }
    lines
}

/// Random reads over 1 GB of memory, each block once.
pub fn memory_read_random<C: CycleCounter>(counter: &C) -> (lines: Vec<String>)
    ensures
        reports_benchmark(&RandomRead { elements: BLOCKS_PER_GB }, lines, "Random Read Vec"@, BLOCK_BYTES, BLOCKS_PER_GB as nat),
{
    let w = RandomRead { elements: BLOCKS_PER_GB };
    let r = benchmark(&w, counter);
    let lines = r.report("Random Read Vec", BLOCK_BYTES);
    proof {
        let (c, m, e, b, a) = choose|c: Phase, m: Phase, e: u128, b: u64, a: u64|
            measured_by(&w, r, c, m, CALIBRATION_NANOS, MEASUREMENT_NANOS, e, b, a);
        lemma_workload_stops_at_first_false(m, &w, if c.iterations > 0 { c.iterations as nat } else { 1 }, false, MEASUREMENT_NANOS, BLOCKS_PER_GB as nat);
    }
    lines
}

/// Reads of the calendar clock, which often need no system call, for the
/// whole measurement time.
pub fn syscall_time<C: CycleCounter>(counter: &C) -> (lines: Vec<String>)
    ensures
        reports_timed_benchmark(&SystemTimeRead, lines, "Sycall gettimeofday(2)"@, 0),
{
    let w = SystemTimeRead;
    let r = benchmark(&w, counter);
    let lines = r.report("Sycall gettimeofday(2)", 0);
    proof {
        let (c, m, e, b, a) = choose|c: Phase, m: Phase, e: u128, b: u64, a: u64|
            measured_by(&w, r, c, m, CALIBRATION_NANOS, MEASUREMENT_NANOS, e, b, a);
        lemma_endless_workload_runs_to_target(m, &w, if c.iterations > 0 { c.iterations as nat } else { 1 }, false, MEASUREMENT_NANOS);
        assert(measured_by(&w, r, c, m, CALIBRATION_NANOS, MEASUREMENT_NANOS, e, b, a));
    }
    lines
}

/// Sorting 1 MiB of random 64-bit numbers, once per phase.
pub fn sort<C: CycleCounter>(counter: &C) -> (lines: Vec<String>)
    ensures
        reports_benchmark(&Sort { elements: 131_072 }, lines, "Sort"@, 1_048_576, 1),
{
    let w = Sort { elements: 131_072 };
    let r = benchmark(&w, counter);
    let lines = r.report("Sort", 1_048_576);
    proof {
        let (c, m, e, b, a) = choose|c: Phase, m: Phase, e: u128, b: u64, a: u64|
            measured_by(&w, r, c, m, CALIBRATION_NANOS, MEASUREMENT_NANOS, e, b, a);
        lemma_workload_stops_at_first_false(m, &w, if c.iterations > 0 { c.iterations as nat } else { 1 }, false, MEASUREMENT_NANOS, 1);
    }
    lines
}

} // verus!

//! The state that the control loop carries from one input to the next, and
//! its decisions.
use vstd::prelude::*;
use vstd::hash_set::StringHashSet;

use crate::config::AflShowmapResult;
use crate::corpus::TestcaseDir;
use crate::coverage::{or_merge, AflMap};
use crate::error::FormatError;
use crate::executor::SymCCResult;
use crate::paths::{join_path, path_join};

verus! {

/// Seconds between two writes of the statistics.
pub const STATS_INTERVAL_SECS: u64 = 60;

/// Seconds to wait before looking at the fuzzer's queue again when it has
/// nothing new.
pub const IDLE_WAIT_SECS: u64 = 5;

/// Nanoseconds in a millisecond.
pub const NANOS_PER_MILLI: u128 = 1_000_000;

/// Nanoseconds in a second.
pub const NANOS_PER_SEC: u128 = 1_000_000_000;

/// Whether the statistics are due to be written, `elapsed_secs` seconds
/// after they were last written.
pub fn stats_due(elapsed_secs: u64) -> (r: bool)
    ensures
        r == (elapsed_secs > STATS_INTERVAL_SECS),
{
    elapsed_secs > STATS_INTERVAL_SECS
}

/// Execution statistics; times are in nanoseconds.
pub struct Stats {
    /// Number of successful executions.
    pub total_count: u32,
    /// Time spent in successful executions of the backend.
    pub total_time: u128,
    /// Time spent in the solver as part of successful executions.
    pub solver_time: Option<u128>,
    /// Number of failed executions.
    pub failed_count: u32,
    /// Time spent in failed executions.
    pub failed_time: u128,
}

/// The sum of two optional solver times; nothing only when both are
/// nothing.
pub open spec fn add_solver_time(a: Option<u128>, b: Option<u128>) -> Option<int> {
    match (a, b) {
        (None, None) => None,
        (Some(t), None) => Some(t as int),
        (None, Some(t)) => Some(t as int),
        (Some(x), Some(y)) => Some(x + y),
    }
}

/// An optional time as an optional integer.
pub open spec fn opt_int(t: Option<u128>) -> Option<int> {
    match t {
        Some(x) => Some(x as int),
        None => None,
    }
}

/// The figures that the statistics report, in milliseconds.
pub struct StatsReport {
    /// Number of successful executions.
    pub total_count: u32,
    /// Time in successful executions.
    pub total_ms: u128,
    /// Average time per successful execution, when there was one.
    pub avg_ms: Option<u128>,
    /// Solver time in successful executions, when the backend reported any.
    pub solver_ms: Option<u128>,
    /// Average solver time per successful execution; present when solver
    /// time is known, successful executions took at least a second, and
    /// there was one. The solver's share of the time is reported along
    /// with it.
    pub avg_solver_ms: Option<u128>,
    /// Number of failed executions.
    pub failed_count: u32,
    /// Time spent in failed executions.
    pub failed_ms: u128,
    /// Average time per failed execution, when there was one.
    pub avg_failed_ms: Option<u128>,
}

/// The average of `total` over `count` runs, in milliseconds, if there was
/// a run.
pub open spec fn avg_millis(total: u128, count: u32) -> Option<u128> {
    if count > 0 {
        Some(((total / count as u128) / NANOS_PER_MILLI) as u128)
    } else {
        None
    }
}

impl Stats {
    /// No executions yet.
    pub fn new() -> (s: Stats)
        ensures
            s.total_count == 0,
            s.total_time == 0,
            s.solver_time is None,
            s.failed_count == 0,
            s.failed_time == 0,
    {
        Stats { total_count: 0, total_time: 0, solver_time: None, failed_count: 0, failed_time: 0 }
    }

    /// Whether the counters can take in `result` without overflowing.
    pub open spec fn can_add_spec(&self, result: &SymCCResult) -> bool {
        if result.killed {
            self.failed_count < u32::MAX && self.failed_time + result.time <= u128::MAX
        } else {
            &&& self.total_count < u32::MAX
            &&& self.total_time + result.time <= u128::MAX
            &&& add_solver_time(self.solver_time, result.solver_time) matches Some(t) ==> t
                <= u128::MAX
        }
    }

    /// Whether the counters can take in `result` without overflowing.
    pub fn can_add(&self, result: &SymCCResult) -> (r: bool)
        ensures
            r == self.can_add_spec(result),
    {
        if result.killed {
            self.failed_count < u32::MAX && self.failed_time <= u128::MAX - result.time
        } else {
            self.total_count < u32::MAX && self.total_time <= u128::MAX - result.time && match (
                self.solver_time,
                result.solver_time,
            ) {
                (Some(a), Some(b)) => a <= u128::MAX - b,
                _ => true,
            }
        }
    }

    /// Whether `next` is these statistics after accounting for `result`:
    /// a killed execution counts as failed, any other as successful, with
    /// its solver time added.
    pub open spec fn added(&self, next: Stats, result: &SymCCResult) -> bool {
        if result.killed {
            &&& next.failed_count == self.failed_count + 1
            &&& next.failed_time == self.failed_time + result.time
            &&& next.total_count == self.total_count
            &&& next.total_time == self.total_time
            &&& next.solver_time == self.solver_time
        } else {
            &&& next.total_count == self.total_count + 1
            &&& next.total_time == self.total_time + result.time
            &&& opt_int(next.solver_time) == add_solver_time(self.solver_time, result.solver_time)
            &&& next.failed_count == self.failed_count
            &&& next.failed_time == self.failed_time
        }
    }

    /// Account for one execution of the backend.
    pub fn add_execution(&mut self, result: &SymCCResult)
        requires
            old(self).can_add_spec(result),
        ensures
            old(self).added(*final(self), result),
    {
        if result.killed {
            self.failed_count = self.failed_count + 1;
            self.failed_time = self.failed_time + result.time;
        } else {
            self.total_count = self.total_count + 1;
            self.total_time = self.total_time + result.time;
            self.solver_time = match (self.solver_time, result.solver_time) {
                (None, None) => None,
                (Some(t), None) => Some(t),
                (None, Some(t)) => Some(t),
                (Some(a), Some(b)) => Some(a + b),
            };
        }
    }

    /// The figures to report.
    pub fn report(&self) -> (r: StatsReport)
        ensures
            r.total_count == self.total_count,
            r.total_ms == self.total_time / NANOS_PER_MILLI,
            r.avg_ms == avg_millis(self.total_time, self.total_count),
            r.solver_ms == match self.solver_time {
                Some(t) => Some((t / NANOS_PER_MILLI) as u128),
                None => None::<u128>,
            },
            r.avg_solver_ms == match self.solver_time {
                Some(t) => if self.total_time >= NANOS_PER_SEC {
                    avg_millis(t, self.total_count)
                } else {
                    None::<u128>
                },
                None => None::<u128>,
            },
            r.failed_count == self.failed_count,
            r.failed_ms == self.failed_time / NANOS_PER_MILLI,
            r.avg_failed_ms == avg_millis(self.failed_time, self.failed_count),
    {
        let avg_ms = average_millis(self.total_time, self.total_count);
        let solver_ms = match self.solver_time {
            Some(t) => Some(t / NANOS_PER_MILLI),
            None => None,
        };
        let avg_solver_ms = match self.solver_time {
            Some(t) => if self.total_time >= NANOS_PER_SEC {
                average_millis(t, self.total_count)
            } else {
                None
            },
            None => None,
        };
        StatsReport {
            total_count: self.total_count,
            total_ms: self.total_time / NANOS_PER_MILLI,
            avg_ms,
            solver_ms,
            avg_solver_ms,
            failed_count: self.failed_count,
            failed_ms: self.failed_time / NANOS_PER_MILLI,
            avg_failed_ms: average_millis(self.failed_time, self.failed_count),
        }
    }
}

fn average_millis(total: u128, count: u32) -> (r: Option<u128>)
    ensures
        r == avg_millis(total, count),
{
    if count > 0 {
        Some((total / count as u128) / NANOS_PER_MILLI)
    } else {
        None
    }
}

/// The possible outcomes of evaluating a generated test case.
#[derive(Debug, Clone, Copy, PartialEq, Eq, Structural)]
pub enum TestcaseResult {
    /// It adds no coverage.
    Uninteresting,
    /// It adds coverage.
    New,
    /// The probe timed out on it.
    Hang,
    /// It crashes the target.
    Crash,
    /// Nothing could be said of it.
    Ignored,
}

/// The output directories of the helper.
#[derive(Debug, Clone, Copy, PartialEq, Eq, Structural)]
pub enum Corpus {
    /// New and useful test cases.
    Queue,
    /// Inputs on which the backend was killed.
    Hangs,
    /// Test cases that crash the target.
    Crashes,
}

/// The directories that a test case with result `r` is copied to, in order.
pub open spec fn destinations_spec(r: TestcaseResult) -> Seq<Corpus> {
    match r {
        TestcaseResult::New => seq![Corpus::Queue],
        TestcaseResult::Crash => seq![Corpus::Crashes, Corpus::Queue],
        _ => Seq::empty(),
    }
}

/// The directories that the selected input itself is copied to after the
/// backend ran on it: the hangs when the backend was killed, else none.
pub open spec fn input_destinations_spec(killed: bool) -> Seq<Corpus> {
    if killed {
        seq![Corpus::Hangs]
    } else {
        Seq::empty()
    }
}

/// Mutable run-time state: what the control loop updates as it goes.
pub struct State {
    /// The cumulative coverage of all test cases generated so far.
    pub current_bitmap: AflMap,
    /// The paths of the fuzzer's test cases that have been analyzed so far.
    pub processed_files: StringHashSet,
    /// The place to put new and useful test cases.
    pub queue: TestcaseDir,
    /// The place for inputs on which the backend was killed.
    pub hangs: TestcaseDir,
    /// The place for new test cases that crash.
    pub crashes: TestcaseDir,
    /// Run-time statistics.
    pub stats: Stats,
}

impl State {
    /// The directory that `c` names.
    pub open spec fn dir(&self, c: Corpus) -> TestcaseDir {
        match c {
            Corpus::Queue => self.queue,
            Corpus::Hangs => self.hangs,
            Corpus::Crashes => self.crashes,
        }
    }

    /// The initial state for the output directory `output_dir`: empty
    /// coverage, nothing processed, and the directories `queue`, `hangs`
    /// and `crashes` inside it, numbered from 0. The directories themselves
    /// are created by the caller.
    pub fn new(output_dir: &str) -> (s: State)
        ensures
            s.current_bitmap@ == Seq::new(crate::coverage::MAP_SIZE as nat, |i: int| 0u8),
            s.processed_files@ == Set::<Seq<char>>::empty(),
            s.queue.dir_path() == path_join(output_dir@, "queue"@),
            s.hangs.dir_path() == path_join(output_dir@, "hangs"@),
            s.crashes.dir_path() == path_join(output_dir@, "crashes"@),
            s.queue.next_id() == 0,
            s.hangs.next_id() == 0,
            s.crashes.next_id() == 0,
            s.stats.total_count == 0,
            s.stats.total_time == 0,
            s.stats.solver_time is None,
            s.stats.failed_count == 0,
            s.stats.failed_time == 0,
    {
        State {
            current_bitmap: AflMap::new(),
            processed_files: StringHashSet::new(),
            queue: TestcaseDir::new(join_path(output_dir, "queue")),
            hangs: TestcaseDir::new(join_path(output_dir, "hangs")),
            crashes: TestcaseDir::new(join_path(output_dir, "crashes")),
            stats: Stats::new(),
        }
    }

    /// Classify a generated test case by the probe's verdict on it, merging
    /// its coverage into the cumulative map on success: it is new exactly
    /// when the map changes.
    pub fn process_new_testcase(&mut self, outcome: AflShowmapResult) -> (r: TestcaseResult)
        ensures
            final(self).processed_files@ == old(self).processed_files@,
            final(self).queue == old(self).queue,
            final(self).hangs == old(self).hangs,
            final(self).crashes == old(self).crashes,
            final(self).stats == old(self).stats,
            match outcome {
                AflShowmapResult::Success(m) => {
                    &&& final(self).current_bitmap@ == or_merge(old(self).current_bitmap@, m@)
                    &&& r == if final(self).current_bitmap@ != old(self).current_bitmap@ {
                        TestcaseResult::New
                    } else {
                        TestcaseResult::Uninteresting
                    }
                },
                AflShowmapResult::Hang => final(self).current_bitmap@ == old(self).current_bitmap@
                    && r == TestcaseResult::Hang,
                AflShowmapResult::Crash => final(self).current_bitmap@ == old(
                    self,
                ).current_bitmap@ && r == TestcaseResult::Crash,
                AflShowmapResult::Ignore => final(self).current_bitmap@ == old(
                    self,
                ).current_bitmap@ && r == TestcaseResult::Ignored,
            },
    {
        match outcome {
            AflShowmapResult::Success(m) => {
                if self.current_bitmap.merge(&m) {
                    TestcaseResult::New
                } else {
                    TestcaseResult::Uninteresting
                }
            },
            AflShowmapResult::Hang => TestcaseResult::Hang,
            AflShowmapResult::Crash => TestcaseResult::Crash,
            AflShowmapResult::Ignore => TestcaseResult::Ignored,
        }
    }

    /// The directories that a test case with result `r` is copied to, in
    /// order: a new one to the queue, a crashing one to the crashes and
    /// then to the queue, any other nowhere.
    pub fn destinations(r: TestcaseResult) -> (d: Vec<Corpus>)
        ensures
            d@ == destinations_spec(r),
    {
        let d = match r {
            TestcaseResult::New => vec![Corpus::Queue],
            TestcaseResult::Crash => vec![Corpus::Crashes, Corpus::Queue],
            _ => Vec::new(),
        };
        assert(d@ =~= destinations_spec(r));
        d
    }

    /// The directories that the selected input itself is copied to after
    /// the run `result`: the hangs when the backend was killed, else none.
    /// Generated test cases never go to the hangs.
    pub fn input_destinations(result: &SymCCResult) -> (d: Vec<Corpus>)
        ensures
            d@ == input_destinations_spec(result.killed),
    {
        let d = if result.killed {
            vec![Corpus::Hangs]
        } else {
            Vec::new()
        };
        assert(d@ =~= input_destinations_spec(result.killed));
        d
    }

    /// Give up on a selected input whose run failed: it is never selected
    /// again, and nothing else changes.
    pub fn abandon_input(&mut self, input: String)
        ensures
            final(self).processed_files@ == old(self).processed_files@.insert(input@),
            final(self).current_bitmap == old(self).current_bitmap,
            final(self).queue == old(self).queue,
            final(self).hangs == old(self).hangs,
            final(self).crashes == old(self).crashes,
            final(self).stats == old(self).stats,
    {
        self.processed_files.insert(input);
    }

    /// The directory that `c` names.
    pub fn dir_of(&self, c: Corpus) -> (d: &TestcaseDir)
        ensures
            *d == self.dir(c),
    {
        match c {
            Corpus::Queue => &self.queue,
            Corpus::Hangs => &self.hangs,
            Corpus::Crashes => &self.crashes,
        }
    }

    /// The name under which the next test case derived from `parent` is
    /// filed in `c`.
    pub fn filing_name(&self, c: Corpus, parent: &str) -> (r: Result<String, FormatError>)
        ensures
            r is Ok <==> crate::corpus::name_for_parent(self.dir(c).next_id(), parent@) is Ok,
            r matches Ok(n) ==> crate::corpus::name_for_parent(self.dir(c).next_id(), parent@)
                == Ok::<Seq<char>, FormatError>(n@),
            r matches Err(e) ==> crate::corpus::name_for_parent(self.dir(c).next_id(), parent@)
                == Err::<Seq<char>, FormatError>(e),
    {
        self.dir_of(c).testcase_name(parent)
    }

    /// Whether `next` is this state after a test case was copied into `c`:
    /// that directory's next ID has advanced by one, and nothing else has
    /// changed.
    pub open spec fn filed_into(&self, next: State, c: Corpus) -> bool {
        &&& next.dir(c).next_id() == self.dir(c).next_id() + 1
        &&& next.dir(c).dir_path() == self.dir(c).dir_path()
        &&& forall|o: Corpus| o != c ==> #[trigger] next.dir(o) == self.dir(o)
        &&& next.current_bitmap == self.current_bitmap
        &&& next.processed_files@ == self.processed_files@
        &&& next.stats == self.stats
    }

    /// Record that a test case was copied into `c`: that directory's next
    /// ID advances by one; nothing else changes.
    pub fn record_filing(&mut self, c: Corpus)
        requires
            old(self).dir(c).next_id() < u64::MAX,
        ensures
            old(self).filed_into(*final(self), c),
    {
        match c {
            Corpus::Queue => self.queue.advance(),
            Corpus::Hangs => self.hangs.advance(),
            Corpus::Crashes => self.crashes.advance(),
        }
    }

    /// Finish with a selected input: it is never selected again, and its
    /// execution is accounted for.
    pub fn finish_input(&mut self, input: String, result: &SymCCResult)
        requires
            old(self).stats.can_add_spec(result),
        ensures
            final(self).processed_files@ == old(self).processed_files@.insert(input@),
            final(self).current_bitmap == old(self).current_bitmap,
            final(self).queue == old(self).queue,
            final(self).hangs == old(self).hangs,
            final(self).crashes == old(self).crashes,
            old(self).stats.added(final(self).stats, result),
    {
        self.processed_files.insert(input);
        self.stats.add_execution(result);
    }
}

/// A crashing test case is filed twice, into the crashes directory and then
/// into the queue, and each directory numbers it with its own counter:
/// filing it into the crashes leaves the queue's next ID as it was, and
/// after both filings each of the two has advanced by exactly one.
pub proof fn lemma_crash_filed_twice(s0: State, s1: State, s2: State)
    requires
        s0.filed_into(s1, destinations_spec(TestcaseResult::Crash)[0]),
        s1.filed_into(s2, destinations_spec(TestcaseResult::Crash)[1]),
    ensures
        destinations_spec(TestcaseResult::Crash) == seq![Corpus::Crashes, Corpus::Queue],
        s1.queue.next_id() == s0.queue.next_id(),
        s2.crashes.next_id() == s0.crashes.next_id() + 1,
        s2.queue.next_id() == s0.queue.next_id() + 1,
        s2.hangs == s0.hangs,
        s2.current_bitmap == s0.current_bitmap,
{
    assert(s1.dir(Corpus::Queue) == s0.dir(Corpus::Queue));
    assert(s2.dir(Corpus::Crashes) == s1.dir(Corpus::Crashes));
    assert(s1.dir(Corpus::Hangs) == s0.dir(Corpus::Hangs));
    assert(s2.dir(Corpus::Hangs) == s1.dir(Corpus::Hangs));
}

/// The hangs directory only ever receives selected inputs on which the
/// backend was killed: a generated test case is never filed there, whatever
/// its result, and the selected input goes there exactly when its run was
/// killed.
pub proof fn lemma_hangs_hold_killed_inputs(r: TestcaseResult, killed: bool)
    ensures
        !destinations_spec(r).contains(Corpus::Hangs),
        input_destinations_spec(killed).contains(Corpus::Hangs) <==> killed,
{
    if killed {
        assert(input_destinations_spec(killed)[0] == Corpus::Hangs);
    }
}

} // verus!

//! The sampling tracker: running peaks, a timeline and the process tree at
//! the peak, reduced from the readings of a probe one sample at a time.

use vstd::prelude::*;
use crate::monitor::{can_build, get_process_tree, MemoryMonitor};
use crate::tree::{checked_sum_memory, measure, sum_memory, total, Metric};
use crate::types::{clone_timeline, MemoryUsage, PeakMemError, ProcessMemoryInfo, ProcessNode};

verus! {

/// What one successful probe call hands the tracker.
#[derive(Debug)]
pub enum Sample {
    /// The reading of the target process alone.
    Usage(MemoryUsage),
    /// The target process and its descendants.
    Tree(ProcessMemoryInfo),
}

/// The mathematical model of a tracker, the probe it owns left aside.
pub ghost struct TrackerState {
    pub pid: u32,
    pub track_children: bool,
    pub running: bool,
    pub peak_rss: u64,
    pub peak_vsz: u64,
    pub sample_count: u64,
    pub timeline: Seq<MemoryUsage>,
    pub peak_tree: Option<ProcessNode>,
}

/// The largest value of one figure over a sequence of readings, 0 where
/// there is none.
pub open spec fn max_of(readings: Seq<MemoryUsage>, metric: Metric) -> nat
    decreases readings.len(),
{
    if readings.len() == 0 {
        0
    } else {
        let rest = max_of(readings.drop_last(), metric);
        let last = measure(readings.last(), metric);
        if last > rest {
            last
        } else {
            rest
        }
    }
}

/// Whether a sample is of the kind that a tracker with this setting asks
/// for: a tree where descendants are tracked, a single reading otherwise.
pub open spec fn matches_mode(sample: Sample, track_children: bool) -> bool {
    (sample is Tree) == track_children
}

/// The timeline entry that a sample stands for: the reading itself, or for
/// a tree its whole-tree totals at the root's timestamp. A tree whose
/// totals do not fit in 64 bits stands for none.
pub open spec fn entry_of(sample: Sample) -> Option<MemoryUsage> {
    match sample {
        Sample::Usage(usage) => Some(usage),
        Sample::Tree(tree) => if total(tree@, Metric::Rss) <= u64::MAX && total(tree@, Metric::Vsz)
            <= u64::MAX {
            Some(
                MemoryUsage {
                    rss_bytes: total(tree@, Metric::Rss) as u64,
                    vsz_bytes: total(tree@, Metric::Vsz) as u64,
                    timestamp: tree.memory.timestamp,
                },
            )
        } else {
            None
        },
    }
}

/// Whether `reading` is an outcome that the probe can give a tracker of
/// `pid`: where descendants are tracked, the tree that the probe can build
/// for `pid`, or the error that building it can fail with; where they are
/// not, the reading that the probe can give for `pid`, or the error that
/// reading it can fail with.
pub open spec fn can_probe<M: MemoryMonitor>(
    monitor: &M,
    pid: u32,
    track_children: bool,
    reading: Result<Sample, PeakMemError>,
) -> bool {
    if track_children {
        match reading {
            Ok(Sample::Tree(tree)) => can_build(monitor, pid, u32::MAX as nat, Ok(tree)),
            Ok(Sample::Usage(_)) => false,
            Err(e) => can_build(monitor, pid, u32::MAX as nat, Err(e)),
        }
    } else {
        match reading {
            Ok(Sample::Usage(usage)) => monitor.can_read(pid, Ok(usage)),
            Ok(Sample::Tree(_)) => false,
            Err(e) => monitor.can_read(pid, Err(e)),
        }
    }
}

/// Whether the outcome of a probe call counts as a sample: the call
/// succeeded and what it returned stands for a timeline entry.
pub open spec fn accepted(reading: Result<Sample, PeakMemError>) -> bool {
    reading matches Ok(sample) && entry_of(sample) is Some
}

impl TrackerState {
    /// A tracker that has seen nothing yet.
    pub open spec fn fresh(pid: u32, track_children: bool) -> TrackerState {
        TrackerState {
            pid,
            track_children,
            running: false,
            peak_rss: 0,
            peak_vsz: 0,
            sample_count: 0,
            timeline: Seq::empty(),
            peak_tree: None,
        }
    }

    /// The same state, marked as sampling.
    pub open spec fn started(self) -> TrackerState {
        TrackerState { running: true, ..self }
    }

    /// The same state, asked to stop sampling.
    pub open spec fn stopped(self) -> TrackerState {
        TrackerState { running: false, ..self }
    }

    /// The state after one sample was taken in. Each peak is reduced with
    /// the new value by maximum, the entry is appended to the timeline,
    /// and the tree at the peak is replaced only where none was held or the
    /// new resident total is strictly above the old peak.
    pub open spec fn absorb(self, sample: Sample) -> TrackerState
        recommends
            entry_of(sample) is Some,
    {
        let entry = entry_of(sample)->0;
        TrackerState {
            peak_rss: if entry.rss_bytes > self.peak_rss {
                entry.rss_bytes
            } else {
                self.peak_rss
            },
            peak_vsz: if entry.vsz_bytes > self.peak_vsz {
                entry.vsz_bytes
            } else {
                self.peak_vsz
            },
            sample_count: (self.sample_count + 1) as u64,
            timeline: self.timeline.push(entry),
            peak_tree: match sample {
                Sample::Tree(tree) => if self.peak_tree is None || entry.rss_bytes > self.peak_rss {
                    Some(tree@)
                } else {
                    self.peak_tree
                },
                Sample::Usage(_) => self.peak_tree,
            },
            ..self
        }
    }

    /// The state after the outcome of one probe call: a sample is taken
    /// in, anything else leaves the state as it was.
    pub open spec fn recorded(self, reading: Result<Sample, PeakMemError>) -> TrackerState {
        if accepted(reading) {
            self.absorb(reading->Ok_0)
        } else {
            self
        }
    }

    /// The state after one turn of the sampling loop: a tracker that was
    /// asked to stop takes nothing in.
    pub open spec fn ticked(self, reading: Result<Sample, PeakMemError>) -> TrackerState {
        if self.running {
            self.recorded(reading)
        } else {
            self
        }
    }

    /// What holds of every tracker: one timeline entry per sample, each
    /// peak the maximum over the timeline, and a tree held exactly where
    /// descendants are tracked and a sample has completed, its resident
    /// total being the resident peak.
    pub open spec fn wf(self) -> bool {
        &&& self.sample_count == self.timeline.len()
        &&& self.peak_rss == max_of(self.timeline, Metric::Rss)
        &&& self.peak_vsz == max_of(self.timeline, Metric::Vsz)
        &&& (self.peak_tree is Some <==> self.track_children && self.timeline.len() > 0)
        &&& (self.peak_tree matches Some(tree) ==> total(tree, Metric::Rss) == self.peak_rss)
    }
}

/// The maximum over a timeline with one more entry.
pub proof fn lemma_max_push(readings: Seq<MemoryUsage>, reading: MemoryUsage, metric: Metric)
    ensures
        max_of(readings.push(reading), metric) == if measure(reading, metric) > max_of(
            readings,
            metric,
        ) {
            measure(reading, metric)
        } else {
            max_of(readings, metric)
        },
{
    assert(readings.push(reading).drop_last() =~= readings);
}

/// Taking a sample in keeps a tracker well formed.
pub proof fn lemma_absorb_wf(state: TrackerState, sample: Sample)
    requires
        state.wf(),
        entry_of(sample) is Some,
        matches_mode(sample, state.track_children),
        state.sample_count < u64::MAX,
    ensures
        state.absorb(sample).wf(),
{
    let entry = entry_of(sample)->0;
    lemma_max_push(state.timeline, entry, Metric::Rss);
    lemma_max_push(state.timeline, entry, Metric::Vsz);
}

/// Tracks the memory of one process, or of one process and its
/// descendants, by reducing the readings of the probe it owns.
pub struct MemoryTracker<M: MemoryMonitor> {
    monitor: M,
    pid: u32,
    peak_rss: u64,
    peak_vsz: u64,
    timeline: Vec<MemoryUsage>,
    running: bool,
    track_children: bool,
    sample_count: u64,
    peak_process_tree: Option<ProcessMemoryInfo>,
}

impl<M: MemoryMonitor> View for MemoryTracker<M> {
    type V = TrackerState;

    closed spec fn view(&self) -> TrackerState {
        TrackerState {
            pid: self.pid,
            track_children: self.track_children,
            running: self.running,
            peak_rss: self.peak_rss,
            peak_vsz: self.peak_vsz,
            sample_count: self.sample_count,
            timeline: self.timeline@,
            peak_tree: match self.peak_process_tree {
                Some(tree) => Some(tree@),
                None => None,
            },
        }
    }
}

impl<M: MemoryMonitor> MemoryTracker<M> {
    /// The probe that the tracker owns.
    pub closed spec fn monitor(&self) -> M {
        self.monitor
    }

    /// A tracker for `pid` that has taken no sample yet. With
    /// `track_children` it samples the whole process tree below `pid`,
    /// without it the process alone.
    pub fn new(monitor: M, pid: u32, track_children: bool) -> (tracker: Self)
        ensures
            tracker@ == TrackerState::fresh(pid, track_children),
            tracker.monitor() == monitor,
            tracker@.wf(),
    {
        MemoryTracker {
            monitor,
            pid,
            peak_rss: 0,
            peak_vsz: 0,
            timeline: Vec::new(),
            running: false,
            track_children,
            sample_count: 0,
            peak_process_tree: None,
        }
    }

    /// Asks the probe for one reading of the kind this tracker reduces:
    /// the process tree of its pid where descendants are tracked, the
    /// memory usage of its pid where they are not. A query that fails is
    /// handed on with its error.
    pub fn probe(&self) -> (reading: Result<Sample, PeakMemError>)
        ensures
            can_probe(&self.monitor(), self@.pid, self@.track_children, reading),
            reading matches Ok(sample) ==> matches_mode(sample, self@.track_children),
            reading matches Ok(Sample::Tree(tree)) ==> tree@.pid == self@.pid,
    {
        if self.track_children {
            match get_process_tree(&self.monitor, self.pid) {
                Ok(tree) => Ok(Sample::Tree(tree)),
                Err(e) => Err(e),
            }
        } else {
            match self.monitor.get_memory_usage(self.pid) {
                Ok(usage) => Ok(Sample::Usage(usage)),
                Err(e) => Err(e),
            }
        }
    }

    /// Takes the outcome of one probe call in, and says whether it counted
    /// as a sample. A failed call, the sign that the process has ended,
    /// changes nothing.
    pub fn record(&mut self, reading: Result<Sample, PeakMemError>) -> (sampled: bool)
        requires
            old(self)@.wf(),
            reading matches Ok(sample) ==> matches_mode(sample, old(self)@.track_children),
        ensures
            final(self)@ == old(self)@.recorded(reading),
            sampled == accepted(reading),
            final(self).monitor() == old(self).monitor(),
            final(self)@.wf(),
    {
        let sample = match reading {
            Ok(sample) => sample,
            Err(_) => {
                return false;
            },
        };
        match sample {
            Sample::Usage(usage) => {
                let ghost before = self@;
                self.timeline.push(usage);
                proof {
                    assert(self.timeline.len() == before.timeline.len() + 1);
                    lemma_absorb_wf(before, sample);
                }
                if usage.rss_bytes > self.peak_rss {
                    self.peak_rss = usage.rss_bytes;
                }
                if usage.vsz_bytes > self.peak_vsz {
                    self.peak_vsz = usage.vsz_bytes;
                }
                self.sample_count = self.sample_count + 1;
                true
            },
            Sample::Tree(tree) => {
                let (total_rss, total_vsz) = match checked_sum_memory(&tree) {
                    Some(sums) => sums,
                    None => {
                        return false;
                    },
                };
                let ghost before = self@;
                let entry = MemoryUsage {
                    rss_bytes: total_rss,
                    vsz_bytes: total_vsz,
                    timestamp: tree.memory.timestamp,
                };
                self.timeline.push(entry);
                proof {
                    assert(self.timeline.len() == before.timeline.len() + 1);
                    lemma_absorb_wf(before, sample);
                }
                if self.peak_process_tree.is_none() || total_rss > self.peak_rss {
                    self.peak_process_tree = Some(tree);
                }
                if total_rss > self.peak_rss {
                    self.peak_rss = total_rss;
                }
                if total_vsz > self.peak_vsz {
                    self.peak_vsz = total_vsz;
                }
                self.sample_count = self.sample_count + 1;
                true
            },
        }
    }

    /// Begins sampling: marks the tracker as running, asks the probe once
    /// and takes what it gave as the first sample. A first probe call that
    /// fails is passed over; the loop that follows decides when sampling
    /// ends.
    pub fn start(&mut self)
        requires
            old(self)@.wf(),
        ensures
            exists|reading: Result<Sample, PeakMemError>|
                {
                    &&& can_probe(
                        &old(self).monitor(),
                        old(self)@.pid,
                        old(self)@.track_children,
                        reading,
                    )
                    &&& reading matches Ok(sample)
                        ==> matches_mode(sample, old(self)@.track_children)
                    &&& final(self)@ == #[trigger] old(self)@.started().recorded(reading)
                },
            final(self)@.running,
            final(self).monitor() == old(self).monitor(),
            final(self)@.wf(),
    {
        self.running = true;
        let reading = self.probe();
        let ghost seen = reading;
        let _ = self.record(reading);
        assert(self@ == old(self)@.started().recorded(seen));
    }

    /// One turn of the sampling loop, to be taken at each tick of the
    /// timer: a tracker that was asked to stop changes nothing and ends
    /// the loop; otherwise the probe is asked once, and the loop goes on
    /// exactly where that call counted as a sample.
    pub fn tick(&mut self) -> (keep_going: bool)
        requires
            old(self)@.wf(),
        ensures
            !old(self)@.running ==> !keep_going && final(self)@ == old(self)@,
            old(self)@.running ==> exists|reading: Result<Sample, PeakMemError>|
                {
                    &&& can_probe(
                        &old(self).monitor(),
                        old(self)@.pid,
                        old(self)@.track_children,
                        reading,
                    )
                    &&& reading matches Ok(sample)
                        ==> matches_mode(sample, old(self)@.track_children)
                    &&& final(self)@ == #[trigger] old(self)@.recorded(reading)
                    &&& keep_going == accepted(reading)
                },
            final(self).monitor() == old(self).monitor(),
            final(self)@.wf(),
    {
        if !self.running {
            return false;
        }
        let reading = self.probe();
        let ghost seen = reading;
        let keep_going = self.record(reading);
        assert(self@ == old(self)@.recorded(seen));
        keep_going
    }

    /// Asks the sampling loop to end. Nothing else changes: the loop sees
    /// the request at its next turn.
    pub fn stop(&mut self)
        ensures
            final(self)@ == old(self)@.stopped(),
            final(self).monitor() == old(self).monitor(),
    {
        self.running = false;
    }

    /// Whether sampling was started and not yet asked to stop.
    pub fn is_running(&self) -> (running: bool)
        ensures
            running == self@.running,
    {
        self.running
    }

    /// The pid this tracker samples.
    pub fn pid(&self) -> (pid: u32)
        ensures
            pid == self@.pid,
    {
        self.pid
    }

    /// The highest resident total seen so far, in bytes.
    pub fn peak_rss(&self) -> (peak: u64)
        ensures
            peak == self@.peak_rss,
    {
        self.peak_rss
    }

    /// The highest virtual total seen so far, in bytes.
    pub fn peak_vsz(&self) -> (peak: u64)
        ensures
            peak == self@.peak_vsz,
    {
        self.peak_vsz
    }

    /// A copy of every sample taken so far, oldest first.
    pub fn timeline(&self) -> (samples: Vec<MemoryUsage>)
        ensures
            samples@ == self@.timeline,
    {
        clone_timeline(&self.timeline)
    }

    /// How many samples were taken so far.
    pub fn sample_count(&self) -> (count: u64)
        ensures
            count == self@.sample_count,
    {
        self.sample_count
    }

    /// A copy of the process tree captured at the resident peak, or
    /// `NoTreeAvailable` where none is held: where descendants are not
    /// tracked, or no sample has completed yet.
    pub fn get_process_tree(&self) -> (tree: Result<ProcessMemoryInfo, PeakMemError>)
        ensures
            match self@.peak_tree {
                Some(held) => tree matches Ok(copy) && copy@ == held,
                None => tree matches Err(PeakMemError::NoTreeAvailable),
            },
            self@.wf() ==> (tree is Err <==> !self@.track_children || self@.sample_count == 0),
    {
        match &self.peak_process_tree {
            Some(held) => Ok(held.clone()),
            None => Err(PeakMemError::NoTreeAvailable),
        }
    }

    /// Adds the whole-tree totals of `info` to the two accumulators.
    pub fn sum_tree_memory(info: &ProcessMemoryInfo, rss: &mut u64, vsz: &mut u64)
        requires
            *old(rss) + total(info@, Metric::Rss) <= u64::MAX,
            *old(vsz) + total(info@, Metric::Vsz) <= u64::MAX,
        ensures
            *final(rss) == *old(rss) + total(info@, Metric::Rss),
            *final(vsz) == *old(vsz) + total(info@, Metric::Vsz),
    {
        let (tree_rss, tree_vsz) = sum_memory(info);
        *rss = *rss + tree_rss;
        *vsz = *vsz + tree_vsz;
    }
}

/// The maximum over a timeline is at least every entry, and is the value
/// of one of them where there is any.
pub proof fn lemma_max_of(readings: Seq<MemoryUsage>, metric: Metric)
    ensures
        forall|i: int| 0 <= i < readings.len()
            ==> measure(#[trigger] readings[i], metric) <= max_of(readings, metric),
        readings.len() > 0
            ==> exists|i: int| 0 <= i < readings.len()
                && measure(#[trigger] readings[i], metric) == max_of(readings, metric),
        readings.len() == 0 ==> max_of(readings, metric) == 0,
    decreases readings.len(),
{
    if readings.len() > 0 {
        let rest = readings.drop_last();
        lemma_max_of(rest, metric);
        assert forall|i: int| 0 <= i < readings.len() implies
            measure(#[trigger] readings[i], metric) <= max_of(readings, metric) by {
            if i < rest.len() {
                assert(rest[i] == readings[i]);
            }
        }
        if measure(readings.last(), metric) > max_of(rest, metric) || rest.len() == 0 {
            assert(measure(readings[readings.len() - 1], metric) == max_of(readings, metric));
        } else {
            let i = choose|i: int| 0 <= i < rest.len()
                && measure(#[trigger] rest[i], metric) == max_of(rest, metric);
            assert(readings[i] == rest[i]);
        }
    }
}

/// The maximum does not depend on the order of the entries.
pub proof fn lemma_max_permutation(a: Seq<MemoryUsage>, b: Seq<MemoryUsage>, metric: Metric)
    requires
        a.to_multiset() == b.to_multiset(),
    ensures
        max_of(a, metric) == max_of(b, metric),
{
    broadcast use vstd::seq_lib::to_multiset_len;
    broadcast use vstd::seq_lib::to_multiset_contains;
    lemma_max_of(a, metric);
    lemma_max_of(b, metric);
    assert(a.len() == a.to_multiset().len());
    assert(b.len() == b.to_multiset().len());
    if a.len() > 0 {
        let i = choose|i: int| 0 <= i < a.len()
            && measure(#[trigger] a[i], metric) == max_of(a, metric);
        assert(a.contains(a[i]));
        assert(b.to_multiset().count(a[i]) > 0);
        assert(b.contains(a[i]));
        let j = choose|j: int| 0 <= j < b.len()
            && measure(#[trigger] b[j], metric) == max_of(b, metric);
        assert(b.contains(b[j]));
        assert(a.to_multiset().count(b[j]) > 0);
        assert(a.contains(b[j]));
    }
}

/// Each peak never decreases: after the outcome of a probe call it is the
/// larger of what it was and what the new sample holds, and what it was
/// where the call did not count.
pub proof fn lemma_peaks_never_decrease(state: TrackerState, reading: Result<Sample, PeakMemError>)
    ensures
        state.recorded(reading).peak_rss >= state.peak_rss,
        state.recorded(reading).peak_vsz >= state.peak_vsz,
        accepted(reading)
            ==> state.recorded(reading).peak_rss >= entry_of(reading->Ok_0)->0.rss_bytes,
        accepted(reading)
            ==> state.recorded(reading).peak_vsz >= entry_of(reading->Ok_0)->0.vsz_bytes,
        !accepted(reading) ==> state.recorded(reading) == state,
{
}

/// Each peak is the maximum of all samples taken: no sample of the
/// timeline is above it, and where a sample was taken, one of them has
/// exactly that value.
pub proof fn lemma_peaks_are_maxima(state: TrackerState)
    requires
        state.wf(),
    ensures
        forall|i: int| 0 <= i < state.timeline.len()
            ==> (#[trigger] state.timeline[i]).rss_bytes <= state.peak_rss,
        forall|i: int| 0 <= i < state.timeline.len()
            ==> (#[trigger] state.timeline[i]).vsz_bytes <= state.peak_vsz,
        state.timeline.len() > 0
            ==> exists|i: int| 0 <= i < state.timeline.len()
                && (#[trigger] state.timeline[i]).rss_bytes == state.peak_rss,
        state.timeline.len() > 0
            ==> exists|i: int| 0 <= i < state.timeline.len()
                && (#[trigger] state.timeline[i]).vsz_bytes == state.peak_vsz,
        state.timeline.len() == 0 ==> state.peak_rss == 0 && state.peak_vsz == 0,
{
    lemma_max_of(state.timeline, Metric::Rss);
    lemma_max_of(state.timeline, Metric::Vsz);
    assert forall|i: int| 0 <= i < state.timeline.len() implies
        (#[trigger] state.timeline[i]).rss_bytes <= state.peak_rss by {
        assert(measure(state.timeline[i], Metric::Rss) <= max_of(state.timeline, Metric::Rss));
    }
    assert forall|i: int| 0 <= i < state.timeline.len() implies
        (#[trigger] state.timeline[i]).vsz_bytes <= state.peak_vsz by {
        assert(measure(state.timeline[i], Metric::Vsz) <= max_of(state.timeline, Metric::Vsz));
    }
    if state.timeline.len() > 0 {
        let i = choose|i: int| 0 <= i < state.timeline.len()
            && measure(#[trigger] state.timeline[i], Metric::Rss)
                == max_of(state.timeline, Metric::Rss);
        assert(state.timeline[i].rss_bytes == state.peak_rss);
        let j = choose|j: int| 0 <= j < state.timeline.len()
            && measure(#[trigger] state.timeline[j], Metric::Vsz)
                == max_of(state.timeline, Metric::Vsz);
        assert(state.timeline[j].vsz_bytes == state.peak_vsz);
    }
}

/// The state after the outcomes of a sequence of probe calls, taken in
/// order.
pub open spec fn run(
    state: TrackerState,
    readings: Seq<Result<Sample, PeakMemError>>,
) -> TrackerState
    decreases readings.len(),
{
    if readings.len() == 0 {
        state
    } else {
        run(state, readings.drop_last()).recorded(readings.last())
    }
}

/// The state after a sequence of turns of the sampling loop.
pub open spec fn run_ticks(
    state: TrackerState,
    readings: Seq<Result<Sample, PeakMemError>>,
) -> TrackerState
    decreases readings.len(),
{
    if readings.len() == 0 {
        state
    } else {
        run_ticks(state, readings.drop_last()).ticked(readings.last())
    }
}

/// Along a run each peak only grows and samples are only added: the
/// state after some of the outcomes never shows a higher peak or a larger
/// count than the state after more of them, and its timeline is the
/// beginning of the later one. So whenever a reader looks, it sees values
/// that no later look contradicts.
pub proof fn lemma_run_only_grows(
    state: TrackerState,
    readings: Seq<Result<Sample, PeakMemError>>,
    n: int,
)
    requires
        0 <= n <= readings.len(),
        state.sample_count + readings.len() <= u64::MAX,
    ensures
        run(state, readings.take(n)).peak_rss <= run(state, readings).peak_rss,
        run(state, readings.take(n)).peak_vsz <= run(state, readings).peak_vsz,
        run(state, readings.take(n)).sample_count <= run(state, readings).sample_count,
        run(state, readings).sample_count <= state.sample_count + readings.len(),
        run(state, readings.take(n)).timeline.is_prefix_of(run(state, readings).timeline),
    decreases readings.len(),
{
    if readings.len() == 0 {
        assert(readings.take(n) =~= readings);
    } else if n == readings.len() {
        assert(readings.take(n) =~= readings);
        lemma_run_only_grows(state, readings.drop_last(), 0);
    } else {
        let before = readings.drop_last();
        lemma_run_only_grows(state, before, n);
        assert(before.take(n) =~= readings.take(n));
    }
}

/// The timeline entries of the probe calls that counted as samples, in
/// order.
pub open spec fn samples_of(readings: Seq<Result<Sample, PeakMemError>>) -> Seq<MemoryUsage>
    decreases readings.len(),
{
    if readings.len() == 0 {
        Seq::empty()
    } else if accepted(readings.last()) {
        samples_of(readings.drop_last()).push(entry_of(readings.last()->Ok_0)->0)
    } else {
        samples_of(readings.drop_last())
    }
}

/// The samples never outnumber the probe calls.
pub proof fn lemma_samples_len(readings: Seq<Result<Sample, PeakMemError>>)
    ensures
        samples_of(readings).len() <= readings.len(),
    decreases readings.len(),
{
    if readings.len() > 0 {
        lemma_samples_len(readings.drop_last());
    }
}

/// From a fresh tracker, whatever the probe calls returned: the sample
/// count is exactly the number of calls that counted as samples, the
/// timeline holds exactly their entries in order, and each peak is the
/// maximum over them.
pub proof fn lemma_run_from_fresh(
    pid: u32,
    track_children: bool,
    readings: Seq<Result<Sample, PeakMemError>>,
)
    requires
        readings.len() <= u64::MAX,
        forall|i: int| 0 <= i < readings.len()
            ==> ((#[trigger] readings[i]) matches Ok(sample)
                ==> matches_mode(sample, track_children)),
    ensures
        ({
            let end = run(TrackerState::fresh(pid, track_children), readings);
            &&& end.wf()
            &&& end.pid == pid
            &&& end.track_children == track_children
            &&& end.timeline == samples_of(readings)
            &&& end.sample_count == samples_of(readings).len()
            &&& end.peak_rss == max_of(samples_of(readings), Metric::Rss)
            &&& end.peak_vsz == max_of(samples_of(readings), Metric::Vsz)
        }),
    decreases readings.len(),
{
    if readings.len() > 0 {
        let before = readings.drop_last();
        lemma_run_from_fresh(pid, track_children, before);
        lemma_samples_len(before);
        let state = run(TrackerState::fresh(pid, track_children), before);
        if accepted(readings.last()) {
            assert(readings[readings.len() - 1] == readings.last());
            lemma_absorb_wf(state, readings.last()->Ok_0);
        }
    }
}

/// How many of a sequence of probe calls succeeded.
pub open spec fn successes(readings: Seq<Result<Sample, PeakMemError>>) -> nat
    decreases readings.len(),
{
    if readings.len() == 0 {
        0
    } else if readings.last() is Ok {
        successes(readings.drop_last()) + 1
    } else {
        successes(readings.drop_last())
    }
}

/// From a fresh tracker the sample count is exactly the number of probe
/// calls that succeeded, the first one included, as long as no tree among
/// them has totals beyond 64 bits.
pub proof fn lemma_sample_count_is_successes(
    pid: u32,
    track_children: bool,
    readings: Seq<Result<Sample, PeakMemError>>,
)
    requires
        readings.len() <= u64::MAX,
        forall|i: int| 0 <= i < readings.len()
            ==> ((#[trigger] readings[i]) matches Ok(sample)
                ==> matches_mode(sample, track_children) && entry_of(sample) is Some),
    ensures
        run(TrackerState::fresh(pid, track_children), readings).sample_count == successes(readings),
        run(TrackerState::fresh(pid, track_children), readings).timeline.len()
            == successes(readings),
{
    lemma_run_from_fresh(pid, track_children, readings);
    lemma_samples_are_successes(readings);
}

/// Where every successful call stands for an entry, there are as many
/// samples as successful calls.
proof fn lemma_samples_are_successes(readings: Seq<Result<Sample, PeakMemError>>)
    requires
        forall|i: int| 0 <= i < readings.len()
            ==> ((#[trigger] readings[i]) matches Ok(sample) ==> entry_of(sample) is Some),
    ensures
        samples_of(readings).len() == successes(readings),
    decreases readings.len(),
{
    if readings.len() > 0 {
        let before = readings.drop_last();
        assert forall|i: int| 0 <= i < before.len() implies
            ((#[trigger] before[i]) matches Ok(sample) ==> entry_of(sample) is Some) by {
            assert(before[i] == readings[i]);
        }
        lemma_samples_are_successes(before);
        assert(readings.last() == readings[readings.len() - 1]);
    }
}

/// The peaks do not depend on the order in which the samples came: two
/// runs whose samples are the same up to order end with the same peaks
/// and the same sample count.
pub proof fn lemma_peaks_order_independent(
    pid: u32,
    track_children: bool,
    a: Seq<Result<Sample, PeakMemError>>,
    b: Seq<Result<Sample, PeakMemError>>,
)
    requires
        a.len() <= u64::MAX,
        b.len() <= u64::MAX,
        forall|i: int| 0 <= i < a.len()
            ==> ((#[trigger] a[i]) matches Ok(sample) ==> matches_mode(sample, track_children)),
        forall|i: int| 0 <= i < b.len()
            ==> ((#[trigger] b[i]) matches Ok(sample) ==> matches_mode(sample, track_children)),
        samples_of(a).to_multiset() == samples_of(b).to_multiset(),
    ensures
        run(TrackerState::fresh(pid, track_children), a).peak_rss
            == run(TrackerState::fresh(pid, track_children), b).peak_rss,
        run(TrackerState::fresh(pid, track_children), a).peak_vsz
            == run(TrackerState::fresh(pid, track_children), b).peak_vsz,
        run(TrackerState::fresh(pid, track_children), a).sample_count
            == run(TrackerState::fresh(pid, track_children), b).sample_count,
{
    lemma_run_from_fresh(pid, track_children, a);
    lemma_run_from_fresh(pid, track_children, b);
    lemma_max_permutation(samples_of(a), samples_of(b), Metric::Rss);
    lemma_max_permutation(samples_of(a), samples_of(b), Metric::Vsz);
    broadcast use vstd::seq_lib::to_multiset_len;
    assert(samples_of(a).len() == samples_of(a).to_multiset().len());
    assert(samples_of(b).len() == samples_of(b).to_multiset().len());
}

/// Once a tracker was asked to stop, no turn of the sampling loop changes
/// it, whatever the probe would return: the peaks, the sample count, the
/// timeline and the tree at the peak stay what they were at the request.
pub proof fn lemma_stopped_is_stable(
    state: TrackerState,
    readings: Seq<Result<Sample, PeakMemError>>,
)
    ensures
        run_ticks(state.stopped(), readings) == state.stopped(),
        state.stopped().peak_rss == state.peak_rss,
        state.stopped().peak_vsz == state.peak_vsz,
        state.stopped().sample_count == state.sample_count,
        state.stopped().timeline == state.timeline,
        state.stopped().peak_tree == state.peak_tree,
        state.wf() ==> state.stopped().wf(),
    decreases readings.len(),
{
    if readings.len() > 0 {
        lemma_stopped_is_stable(state, readings.drop_last());
    }
}

} // verus!

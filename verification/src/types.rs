//! Core data types: memory readings, process-tree snapshots, the final
//! summary of a monitoring session, and the error taxonomy.

use vstd::prelude::*;
use vstd::string::*;
use crate::text::{byte_size_text, human_size};

verus! {

/// An instant in UTC, as whole seconds since the Unix epoch plus the
/// nanoseconds into that second.
#[derive(Clone, Copy, Debug, PartialEq, Eq, Structural)]
pub struct Timestamp {
    pub secs: i64,
    pub nanos: u32,
}

/// One instantaneous memory reading.
#[derive(Clone, Copy, Debug)]
pub struct MemoryUsage {
    /// Resident set size, in bytes.
    pub rss_bytes: u64,
    /// Virtual size, in bytes.
    pub vsz_bytes: u64,
    /// When the reading was taken.
    pub timestamp: Timestamp,
}

/// A process and, recursively, its children, each with its own reading.
#[derive(Debug)]
pub struct ProcessMemoryInfo {
    pub pid: u32,
    pub name: String,
    pub memory: MemoryUsage,
    pub children: Vec<ProcessMemoryInfo>,
}

/// The mathematical model of a [`ProcessMemoryInfo`]: the same tree, with
/// the name as a sequence of characters and the children as a sequence.
pub ghost struct ProcessNode {
    pub pid: u32,
    pub name: Seq<char>,
    pub memory: MemoryUsage,
    pub children: Seq<ProcessNode>,
}

/// The model of one tree.
pub open spec fn node_of(tree: ProcessMemoryInfo) -> ProcessNode
    decreases tree, 0nat,
{
    ProcessNode {
        pid: tree.pid,
        name: tree.name@,
        memory: tree.memory,
        children: nodes_of(tree.children, tree.children.len() as nat),
    }
}

/// The models of the first `n` trees of `trees`, in order.
pub open spec fn nodes_of(trees: Vec<ProcessMemoryInfo>, n: nat) -> Seq<ProcessNode>
    decreases trees, n,
{
    if n == 0 || n > trees.len() {
        Seq::empty()
    } else {
        nodes_of(trees, (n - 1) as nat).push(node_of(trees[n - 1]))
    }
}

impl View for ProcessMemoryInfo {
    type V = ProcessNode;

    open spec fn view(&self) -> ProcessNode {
        node_of(*self)
    }
}

/// `nodes_of` lists the models of the trees one for one.
pub proof fn lemma_nodes_of(trees: Vec<ProcessMemoryInfo>, n: nat)
    requires
        n <= trees.len(),
    ensures
        nodes_of(trees, n).len() == n,
        forall|j: int| 0 <= j < n ==> #[trigger] nodes_of(trees, n)[j] == trees[j]@,
    decreases n,
{
    if n > 0 {
        lemma_nodes_of(trees, (n - 1) as nat);
    }
}

/// The children of a tree's model are the models of its children.
pub proof fn lemma_children_view(tree: ProcessMemoryInfo)
    ensures
        tree@.children.len() == tree.children.len(),
        forall|j: int| 0 <= j < tree.children.len()
            ==> #[trigger] tree@.children[j] == tree.children[j]@,
{
    lemma_nodes_of(tree.children, tree.children.len() as nat);
}

impl Clone for ProcessMemoryInfo {
    /// A deep copy: the same tree, owned independently of the one it was
    /// taken from.
    fn clone(&self) -> (copy: Self)
        ensures
            copy@ == self@,
        decreases self,
    {
        let mut children: Vec<ProcessMemoryInfo> = Vec::new();
        let mut i: usize = 0;
        while i < self.children.len()
            invariant
                i <= self.children.len(),
                children.len() == i,
                forall|j: int| 0 <= j < i ==> children[j]@ == self.children[j]@,
            decreases self.children.len() - i,
        {
            let child = self.children[i].clone();
            children.push(child);
            i += 1;
        }
        let copy = ProcessMemoryInfo {
            pid: self.pid,
            name: self.name.clone(),
            memory: self.memory,
            children,
        };
        proof {
            lemma_children_view(copy);
            lemma_children_view(*self);
            assert(copy@.children =~= self@.children);
        }
        copy
    }
}

/// The mathematical model of an optional tree.
pub open spec fn tree_view(tree: Option<ProcessMemoryInfo>) -> Option<ProcessNode> {
    match tree {
        Some(t) => Some(t@),
        None => None,
    }
}

/// The mathematical model of an optional timeline.
pub open spec fn timeline_view(timeline: Option<Vec<MemoryUsage>>) -> Option<Seq<MemoryUsage>> {
    match timeline {
        Some(t) => Some(t@),
        None => None,
    }
}

/// A copy of a sequence of readings.
pub fn clone_timeline(timeline: &Vec<MemoryUsage>) -> (copy: Vec<MemoryUsage>)
    ensures
        copy@ == timeline@,
{
    let mut copy: Vec<MemoryUsage> = Vec::new();
    let mut i: usize = 0;
    while i < timeline.len()
        invariant
            i <= timeline.len(),
            copy@ == timeline@.subrange(0, i as int),
        decreases timeline.len() - i,
    {
        copy.push(timeline[i]);
        assert(copy@ =~= timeline@.subrange(0, i + 1));
        i += 1;
    }
    assert(timeline@.subrange(0, timeline.len() as int) =~= timeline@);
    copy
}

/// The final summary of a monitoring session.
#[derive(Debug)]
pub struct MonitorResult {
    /// The command that was run.
    pub command: String,
    /// Peak resident set size observed, in bytes.
    pub peak_rss_bytes: u64,
    /// Peak virtual size observed, in bytes.
    pub peak_vsz_bytes: u64,
    /// How long the session lasted, in milliseconds.
    pub duration_ms: u64,
    /// Exit code of the monitored process, if it had one.
    pub exit_code: Option<i32>,
    /// Whether the peak went over the configured threshold.
    pub threshold_exceeded: bool,
    /// When the session ended.
    pub timestamp: Timestamp,
    /// The process tree at the peak, when it was asked for.
    pub process_tree: Option<ProcessMemoryInfo>,
    /// Every sample taken, when the timeline was asked for.
    pub timeline: Option<Vec<MemoryUsage>>,
    /// When the session started.
    pub start_time: Option<Timestamp>,
    /// How many samples were taken.
    pub sample_count: Option<u64>,
    /// The pid of the monitored process.
    pub main_pid: Option<u32>,
}

/// The mathematical model of a [`MonitorResult`].
pub ghost struct MonitorSummary {
    pub command: Seq<char>,
    pub peak_rss_bytes: u64,
    pub peak_vsz_bytes: u64,
    pub duration_ms: u64,
    pub exit_code: Option<i32>,
    pub threshold_exceeded: bool,
    pub timestamp: Timestamp,
    pub process_tree: Option<ProcessNode>,
    pub timeline: Option<Seq<MemoryUsage>>,
    pub start_time: Option<Timestamp>,
    pub sample_count: Option<u64>,
    pub main_pid: Option<u32>,
}

impl View for MonitorResult {
    type V = MonitorSummary;

    open spec fn view(&self) -> MonitorSummary {
        MonitorSummary {
            command: self.command@,
            peak_rss_bytes: self.peak_rss_bytes,
            peak_vsz_bytes: self.peak_vsz_bytes,
            duration_ms: self.duration_ms,
            exit_code: self.exit_code,
            threshold_exceeded: self.threshold_exceeded,
            timestamp: self.timestamp,
            process_tree: tree_view(self.process_tree),
            timeline: timeline_view(self.timeline),
            start_time: self.start_time,
            sample_count: self.sample_count,
            main_pid: self.main_pid,
        }
    }
}

/// The duration of a whole number of milliseconds.
pub uninterp spec fn duration_of_millis(millis: u64) -> core::time::Duration;

/// `Duration::from_millis` makes the duration of that many milliseconds.
/// What is inside a duration cannot be seen here, so the duration is
/// named by the number it was made from; no more is claimed of it.
pub assume_specification[ core::time::Duration::from_millis ](millis: u64) -> (duration:
    core::time::Duration)
    ensures
        duration == duration_of_millis(millis),
;

impl MonitorResult {
    /// The peak resident set size, written for people.
    pub fn peak_rss(&self) -> (text: String)
        ensures
            text@ == byte_size_text(self.peak_rss_bytes),
    {
        human_size(self.peak_rss_bytes)
    }

    /// The peak virtual size, written for people.
    pub fn peak_vsz(&self) -> (text: String)
        ensures
            text@ == byte_size_text(self.peak_vsz_bytes),
    {
        human_size(self.peak_vsz_bytes)
    }

    /// How long the session lasted: the duration of `duration_ms`
    /// milliseconds.
    pub fn duration(&self) -> (duration: core::time::Duration)
        ensures
            duration == duration_of_millis(self.duration_ms),
    {
        core::time::Duration::from_millis(self.duration_ms)
    }
}

impl Clone for MonitorResult {
    fn clone(&self) -> (copy: Self)
        ensures
            copy@ == self@,
    {
        let process_tree = match &self.process_tree {
            Some(tree) => Some(tree.clone()),
            None => None,
        };
        let timeline = match &self.timeline {
            Some(samples) => Some(clone_timeline(samples)),
            None => None,
        };
        MonitorResult {
            command: self.command.clone(),
            peak_rss_bytes: self.peak_rss_bytes,
            peak_vsz_bytes: self.peak_vsz_bytes,
            duration_ms: self.duration_ms,
            exit_code: self.exit_code,
            threshold_exceeded: self.threshold_exceeded,
            timestamp: self.timestamp,
            process_tree,
            timeline,
            start_time: self.start_time,
            sample_count: self.sample_count,
            main_pid: self.main_pid,
        }
    }
}

/// What can go wrong while a process is spawned, probed or compared.
#[derive(Debug)]
pub enum PeakMemError {
    /// The target process could not be spawned.
    ProcessSpawn(String),
    /// The queried pid no longer exists.
    ProcessNotFound(String),
    /// The operating system refused access to the process.
    PermissionDenied(String),
    /// The operating system gave malformed or unexpected data.
    ProbeFailure(String),
    /// No probe exists for this platform.
    UnsupportedPlatform(String),
    /// No process tree was captured: descendants are not tracked, or no
    /// sample has completed yet.
    NoTreeAvailable,
    /// No baseline of this name exists.
    NotFound(String),
    /// Reading or writing durable storage failed.
    Io(String),
    /// A stored baseline could not be encoded or decoded.
    Serialization(String),
}

impl PeakMemError {
    /// The error in words: what kind of failure it is, then its details.
    pub open spec fn text(self) -> Seq<char> {
        match self {
            PeakMemError::ProcessSpawn(details) => "Failed to spawn process: "@ + details@,
            PeakMemError::ProcessNotFound(details) => "Process not found: "@ + details@,
            PeakMemError::PermissionDenied(details) => "Permission denied: "@ + details@,
            PeakMemError::ProbeFailure(details) => "Failed to monitor process: "@ + details@,
            PeakMemError::UnsupportedPlatform(details) => "Platform not supported: "@ + details@,
            PeakMemError::NoTreeAvailable => "No process tree available"@,
            PeakMemError::NotFound(details) => "Baseline not found: "@ + details@,
            PeakMemError::Io(details) => "IO error: "@ + details@,
            PeakMemError::Serialization(details) => "Parse error: "@ + details@,
        }
    }

    /// The error in words, as it is shown to the user.
    pub fn message(&self) -> (message: String)
        ensures
            message@ == self.text(),
    {
        let (kind, details) = match self {
            PeakMemError::ProcessSpawn(details) => ("Failed to spawn process: ", details.as_str()),
            PeakMemError::ProcessNotFound(details) => ("Process not found: ", details.as_str()),
            PeakMemError::PermissionDenied(details) => ("Permission denied: ", details.as_str()),
            PeakMemError::ProbeFailure(details) => ("Failed to monitor process: ",
                details.as_str()),
            PeakMemError::UnsupportedPlatform(details) => ("Platform not supported: ",
                details.as_str()),
            PeakMemError::NoTreeAvailable => {
                return "No process tree available".to_owned();
            },
            PeakMemError::NotFound(details) => ("Baseline not found: ", details.as_str()),
            PeakMemError::Io(details) => ("IO error: ", details.as_str()),
            PeakMemError::Serialization(details) => ("Parse error: ", details.as_str()),
        };
        let mut message = kind.to_owned();
        message.append(details);
        message
    }
}

} // verus!

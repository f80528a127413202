//! The probe: the operations every platform's monitor offers, and the
//! process tree built from them.

use vstd::prelude::*;
use crate::monitor::freebsd::FreeBSDMonitor;
use crate::monitor::linux::LinuxMonitor;
use crate::monitor::macos::MacOSMonitor;
use crate::monitor::windows::WindowsMonitor;
use crate::text::same_text;
use crate::types::{lemma_children_view, MemoryUsage, PeakMemError, ProcessMemoryInfo, ProcessNode};

pub mod freebsd;
pub mod linux;
pub mod macos;
pub mod tracker;
pub mod windows;

verus! {

/// A source of point-in-time readings for processes of the running system.
///
/// Of a running system nothing can be promised of what a query returns:
/// processes come and go between any two calls. So each probe says for
/// itself which answers it may give, and may give any where it says
/// nothing. A query for a pid that has exited fails; it does not panic.
pub trait MemoryMonitor {
    /// Whether the probe may answer a query for the memory usage of `pid`
    /// with `reading`. A probe of a running system may answer with
    /// anything; a probe that knows more of its answers says so here.
    open spec fn can_read(&self, pid: u32, reading: Result<MemoryUsage, PeakMemError>) -> bool {
        true
    }

    /// Whether the probe may give `name` as the name of `pid`.
    open spec fn can_name(&self, pid: u32, name: Seq<char>) -> bool {
        true
    }

    /// Whether the probe may answer a query for the children of `pid`
    /// with `listed`.
    open spec fn can_list(&self, pid: u32, listed: Result<Vec<u32>, PeakMemError>) -> bool {
        true
    }

    /// The current memory usage of one process.
    fn get_memory_usage(&self, pid: u32) -> (reading: Result<MemoryUsage, PeakMemError>)
        ensures
            self.can_read(pid, reading),
    ;

    /// The name of one process, or a stand-in where it cannot be read.
    fn get_process_name(&self, pid: u32) -> (name: String)
        ensures
            self.can_name(pid, name@),
    ;

    /// The pids of the direct children of one process. A process without
    /// children gives an empty list, not an error.
    fn get_child_pids(&self, pid: u32) -> (listed: Result<Vec<u32>, PeakMemError>)
        ensures
            self.can_list(pid, listed),
    ;
}

/// How many levels a tree has: 1 for a process without children.
pub open spec fn height(node: ProcessNode) -> nat
    decreases node, 0nat,
{
    1 + forest_height(node.children, node.children.len())
}

/// The height of the tallest of the first `n` trees of `nodes`.
pub open spec fn forest_height(nodes: Seq<ProcessNode>, n: nat) -> nat
    decreases nodes, n,
{
    if n == 0 || n > nodes.len() {
        0
    } else {
        let rest = forest_height(nodes, (n - 1) as nat);
        let last = height(nodes[n - 1]);
        if last > rest {
            last
        } else {
            rest
        }
    }
}

/// A bound on every tree of a forest bounds the forest.
proof fn lemma_forest_height_bound(nodes: Seq<ProcessNode>, n: nat, bound: nat)
    requires
        n <= nodes.len(),
        forall|j: int| 0 <= j < n ==> height(#[trigger] nodes[j]) <= bound,
    ensures
        forest_height(nodes, n) <= bound,
    decreases n,
{
    if n > 0 {
        lemma_forest_height_bound(nodes, (n - 1) as nat, bound);
    }
}

/// Takes the outcome of building one child's subtree into the children
/// built so far: a subtree that was built is appended, one that failed is
/// left out.
pub fn push_child(
    children: &mut Vec<ProcessMemoryInfo>,
    outcome: Result<ProcessMemoryInfo, PeakMemError>,
)
    ensures
        match outcome {
            Ok(subtree) => final(children)@ == old(children)@.push(subtree),
            Err(_) => final(children)@ == old(children)@,
        },
{
    match outcome {
        Ok(subtree) => {
            children.push(subtree);
        },
        Err(_) => {},
    }
}

/// The outcome of building a tree, the tree taken as its model.
pub open spec fn built(tree: Result<ProcessMemoryInfo, PeakMemError>) -> Result<
    ProcessNode,
    PeakMemError,
> {
    match tree {
        Ok(t) => Ok(t@),
        Err(e) => Err(e),
    }
}

/// The trees of a list, each as its model.
pub open spec fn models(trees: Seq<ProcessMemoryInfo>) -> Seq<ProcessNode> {
    trees.map_values(|t: ProcessMemoryInfo| t@)
}

/// The subtrees that were built among the outcomes for a list of
/// children, in the order of the list; those that failed are left out.
pub open spec fn kept(outcomes: Seq<Result<ProcessMemoryInfo, PeakMemError>>) -> Seq<ProcessNode>
    decreases outcomes.len(),
{
    if outcomes.len() == 0 {
        Seq::empty()
    } else if outcomes.last() is Ok {
        kept(outcomes.drop_last()).push(outcomes.last()->Ok_0@)
    } else {
        kept(outcomes.drop_last())
    }
}

/// The tree of `pid` that the answers of a probe give: the error of the
/// reading where the process could not be read, the error of the listing
/// where its children could not be listed, and else the process with its
/// reading and name, and below it the subtrees that were built for its
/// children.
pub open spec fn tree_from(
    pid: u32,
    memory: Result<MemoryUsage, PeakMemError>,
    name: Seq<char>,
    listed: Result<Vec<u32>, PeakMemError>,
    below: Seq<Result<ProcessMemoryInfo, PeakMemError>>,
) -> Result<ProcessNode, PeakMemError> {
    match memory {
        Err(e) => Err(e),
        Ok(reading) => match listed {
            Err(e) => Err(e),
            Ok(_) => Ok(ProcessNode { pid, name, memory: reading, children: kept(below) }),
        },
    }
}

/// Whether these are answers of the probe for `pid` of which `tree` is
/// composed, with `depth` levels explored below it. The reading is an
/// answer for `pid`; where it succeeded, so are the name and the listing;
/// where both succeeded, there is one outcome for each listed child, in
/// order, and none where `depth` is 0.
pub open spec fn composed<M: MemoryMonitor>(
    monitor: &M,
    pid: u32,
    depth: nat,
    memory: Result<MemoryUsage, PeakMemError>,
    name: Seq<char>,
    listed: Result<Vec<u32>, PeakMemError>,
    below: Seq<Result<ProcessMemoryInfo, PeakMemError>>,
    tree: Result<ProcessMemoryInfo, PeakMemError>,
) -> bool {
    &&& monitor.can_read(pid, memory)
    &&& memory is Ok ==> monitor.can_name(pid, name) && monitor.can_list(pid, listed)
    &&& memory is Ok && listed is Ok ==> below.len() == (if depth > 0 {
        listed->Ok_0.len()
    } else {
        0
    })
    &&& built(tree) == tree_from(pid, memory, name, listed, below)
}

/// Whether `tree` is an outcome that the probe can give for the tree of
/// `pid` with `depth` levels explored below it: there are answers of the
/// probe of which it is composed, and each outcome for a child is one
/// that the probe can give for the tree of that child, one level further
/// down.
pub open spec fn can_build<M: MemoryMonitor>(
    monitor: &M,
    pid: u32,
    depth: nat,
    tree: Result<ProcessMemoryInfo, PeakMemError>,
) -> bool
    decreases depth,
{
    exists|
        memory: Result<MemoryUsage, PeakMemError>,
        name: Seq<char>,
        listed: Result<Vec<u32>, PeakMemError>,
        below: Seq<Result<ProcessMemoryInfo, PeakMemError>>,
    |
        {
            &&& #[trigger] composed(monitor, pid, depth, memory, name, listed, below, tree)
            &&& forall|i: int|
                0 <= i < below.len() && depth > 0 && listed is Ok && i < listed->Ok_0.len()
                    ==> can_build(
                    monitor,
                    listed->Ok_0[i],
                    (depth - 1) as nat,
                    #[trigger] below[i],
                )
        }
}

/// The subtrees kept after one more outcome.
proof fn lemma_kept_push(
    outcomes: Seq<Result<ProcessMemoryInfo, PeakMemError>>,
    outcome: Result<ProcessMemoryInfo, PeakMemError>,
)
    ensures
        kept(outcomes.push(outcome)) == match outcome {
            Ok(subtree) => kept(outcomes).push(subtree@),
            Err(_) => kept(outcomes),
        },
{
    assert(outcomes.push(outcome).drop_last() =~= outcomes);
}

/// The probe can only fail to read `pid`.
pub open spec fn cannot_read<M: MemoryMonitor>(monitor: &M, pid: u32) -> bool {
    forall|reading: Result<MemoryUsage, PeakMemError>|
        #[trigger] monitor.can_read(pid, reading) ==> reading is Err
}

/// The probe can only succeed in reading `pid`.
pub open spec fn always_reads<M: MemoryMonitor>(monitor: &M, pid: u32) -> bool {
    forall|reading: Result<MemoryUsage, PeakMemError>|
        #[trigger] monitor.can_read(pid, reading) ==> reading is Ok
}

/// The probe can only succeed in listing the children of `pid`.
pub open spec fn always_lists<M: MemoryMonitor>(monitor: &M, pid: u32) -> bool {
    forall|listed: Result<Vec<u32>, PeakMemError>|
        #[trigger] monitor.can_list(pid, listed) ==> listed is Ok
}

/// A tree follows its root: where the probe can only fail to read the
/// root, no tree is built; where it can only succeed in reading the root
/// and in listing its children, a tree is built; and a tree that is built
/// has `pid` at its root.
pub proof fn lemma_tree_follows_root<M: MemoryMonitor>(
    monitor: &M,
    pid: u32,
    depth: nat,
    tree: Result<ProcessMemoryInfo, PeakMemError>,
)
    requires
        can_build(monitor, pid, depth, tree),
    ensures
        cannot_read(monitor, pid) ==> tree is Err,
        always_reads(monitor, pid) && always_lists(monitor, pid) ==> tree is Ok,
        tree matches Ok(t) ==> t@.pid == pid,
{
    let (memory, name, listed, below) = choose|
        memory: Result<MemoryUsage, PeakMemError>,
        name: Seq<char>,
        listed: Result<Vec<u32>, PeakMemError>,
        below: Seq<Result<ProcessMemoryInfo, PeakMemError>>,
    | #[trigger]
        composed(monitor, pid, depth, memory, name, listed, below, tree);
    assert(built(tree) == tree_from(pid, memory, name, listed, below));
}

/// The process tree rooted at `pid`, explored at most `depth` levels below
/// the root.
///
/// Fails where the root itself cannot be read or its children cannot be
/// listed, with the error of that query. Below the root the snapshot is
/// best effort: a child whose own subtree fails is left out of its
/// parent's children.
pub fn process_tree_within<M: MemoryMonitor>(
    monitor: &M,
    pid: u32,
    depth: u32,
) -> (tree: Result<ProcessMemoryInfo, PeakMemError>)
    ensures
        can_build(monitor, pid, depth as nat, tree),
        tree matches Ok(t) ==> t@.pid == pid && height(t@) <= depth + 1,
    decreases depth,
{
    let reading = monitor.get_memory_usage(pid);
    let ghost read = reading;
    let memory = match reading {
        Ok(memory) => memory,
        Err(e) => {
            let tree = Err(e);
            proof {
                // Neither the name nor the children were asked for.
                let unasked: Result<Vec<u32>, PeakMemError> = arbitrary();
                assert(composed(
                    monitor,
                    pid,
                    depth as nat,
                    read,
                    Seq::empty(),
                    unasked,
                    Seq::empty(),
                    tree,
                ));
            }
            return tree;
        },
    };
    let name = monitor.get_process_name(pid);
    let listing = monitor.get_child_pids(pid);
    let ghost listed = listing;
    let child_pids = match listing {
        Ok(pids) => pids,
        Err(e) => {
            let tree = Err(e);
            assert(composed(monitor, pid, depth as nat, read, name@, listed, Seq::empty(), tree));
            return tree;
        },
    };
    let mut children: Vec<ProcessMemoryInfo> = Vec::new();
    let ghost mut below = Seq::<Result<ProcessMemoryInfo, PeakMemError>>::empty();
    assert(models(children@) =~= kept(below));
    if depth > 0 {
        let mut i: usize = 0;
        while i < child_pids.len()
            invariant
                i <= child_pids.len(),
                depth > 0,
                below.len() == i,
                models(children@) == kept(below),
                forall|j: int|
                    0 <= j < i ==> can_build(
                        monitor,
                        child_pids[j],
                        (depth - 1) as nat,
                        #[trigger] below[j],
                    ),
                forall|j: int| 0 <= j < children.len() ==> height(#[trigger] children[j]@) <= depth,
            decreases child_pids.len() - i,
        {
            let outcome = process_tree_within(monitor, child_pids[i], depth - 1);
            let ghost built_before = children@;
            proof {
                lemma_kept_push(below, outcome);
                below = below.push(outcome);
            }
            push_child(&mut children, outcome);
            assert(models(children@) =~= kept(below)) by {
                if let Ok(subtree) = outcome {
                    assert(models(children@) =~= models(built_before).push(subtree@));
                }
            }
            i += 1;
        }
    }
    let tree = ProcessMemoryInfo { pid, name, memory, children };
    proof {
        lemma_children_view(tree);
        lemma_forest_height_bound(tree@.children, tree@.children.len(), depth as nat);
        assert(tree@.children =~= kept(below));
        assert(composed(monitor, pid, depth as nat, read, name@, listed, below, Ok(tree)));
    }
    Ok(tree)
}

/// The process tree rooted at `pid`: its own reading and name, and below it
/// the tree of each child that could be read.
pub fn get_process_tree<M: MemoryMonitor>(
    monitor: &M,
    pid: u32,
) -> (tree: Result<ProcessMemoryInfo, PeakMemError>)
    ensures
        can_build(monitor, pid, u32::MAX as nat, tree),
        tree matches Ok(t) ==> t@.pid == pid,
{
    process_tree_within(monitor, pid, u32::MAX)
}

/// The probe of one of the supported platforms.
#[derive(Clone, Copy, Debug)]
pub enum PlatformMonitor {
    Linux(LinuxMonitor),
    MacOS(MacOSMonitor),
    Windows(WindowsMonitor),
    FreeBSD(FreeBSDMonitor),
}

/// Which probe the operating system of this name has, `None` where it
/// has none.
pub open spec fn monitor_for(os: Seq<char>) -> Option<PlatformMonitor> {
    if os == "linux"@ {
        Some(PlatformMonitor::Linux(LinuxMonitor))
    } else if os == "macos"@ {
        Some(PlatformMonitor::MacOS(MacOSMonitor))
    } else if os == "windows"@ {
        Some(PlatformMonitor::Windows(WindowsMonitor))
    } else if os == "freebsd"@ {
        Some(PlatformMonitor::FreeBSD(FreeBSDMonitor))
    } else {
        None
    }
}

/// Selects the probe for the operating system the program runs on, given
/// by its name: `linux`, `macos`, `windows` or `freebsd`. Any other
/// platform is `UnsupportedPlatform`, with its name.
pub fn create_monitor(os: &str) -> (monitor: Result<PlatformMonitor, PeakMemError>)
    ensures
        match monitor_for(os@) {
            Some(probe) => monitor == Ok::<PlatformMonitor, PeakMemError>(probe),
            None => monitor matches Err(PeakMemError::UnsupportedPlatform(name)) && name@ == os@,
        },
{
    if same_text(os, "linux") {
        Ok(PlatformMonitor::Linux(LinuxMonitor))
    } else if same_text(os, "macos") {
        Ok(PlatformMonitor::MacOS(MacOSMonitor))
    } else if same_text(os, "windows") {
        Ok(PlatformMonitor::Windows(WindowsMonitor))
    } else if same_text(os, "freebsd") {
        Ok(PlatformMonitor::FreeBSD(FreeBSDMonitor))
    } else {
        Err(PeakMemError::UnsupportedPlatform(os.to_owned()))
    }
}

} // verus!

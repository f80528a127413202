//! The process-tree aggregator: whole-tree memory as the sum over every
//! process in a snapshot, and the number of processes in it.

use vstd::prelude::*;
use crate::types::{lemma_children_view, MemoryUsage, ProcessMemoryInfo, ProcessNode};

verus! {

/// Which of the two figures of a reading is meant.
pub ghost enum Metric {
    Rss,
    Vsz,
}

/// One figure of a reading.
pub open spec fn measure(reading: MemoryUsage, metric: Metric) -> nat {
    match metric {
        Metric::Rss => reading.rss_bytes as nat,
        Metric::Vsz => reading.vsz_bytes as nat,
    }
}

/// The sum of one figure over a sequence of readings.
pub open spec fn sum_of(readings: Seq<MemoryUsage>, metric: Metric) -> nat
    decreases readings.len(),
{
    if readings.len() == 0 {
        0
    } else {
        sum_of(readings.drop_last(), metric) + measure(readings.last(), metric)
    }
}

/// The readings of every process of a tree: the root's first, then those
/// of each child's subtree in turn.
pub open spec fn readings(node: ProcessNode) -> Seq<MemoryUsage>
    decreases node, 0nat,
{
    seq![node.memory] + forest_readings(node.children, node.children.len())
}

/// The readings of the first `n` trees of `nodes`.
pub open spec fn forest_readings(nodes: Seq<ProcessNode>, n: nat) -> Seq<MemoryUsage>
    decreases nodes, n,
{
    if n == 0 || n > nodes.len() {
        Seq::empty()
    } else {
        forest_readings(nodes, (n - 1) as nat) + readings(nodes[n - 1])
    }
}

/// Whole-tree memory: one figure summed over every process of the tree.
pub open spec fn total(node: ProcessNode, metric: Metric) -> nat {
    sum_of(readings(node), metric)
}

/// How many processes a tree holds.
pub open spec fn node_count(node: ProcessNode) -> nat {
    readings(node).len()
}

/// The sum over a sequence with one more reading at its end.
pub proof fn lemma_sum_push(readings: Seq<MemoryUsage>, reading: MemoryUsage, metric: Metric)
    ensures
        sum_of(readings.push(reading), metric)
            == sum_of(readings, metric) + measure(reading, metric),
{
    assert(readings.push(reading).drop_last() =~= readings);
}

/// The sum over two sequences joined is the sum of their sums.
pub proof fn lemma_sum_concat(a: Seq<MemoryUsage>, b: Seq<MemoryUsage>, metric: Metric)
    ensures
        sum_of(a + b, metric) == sum_of(a, metric) + sum_of(b, metric),
    decreases b.len(),
{
    if b.len() == 0 {
        assert(a + b =~= a);
    } else {
        lemma_sum_concat(a, b.drop_last(), metric);
        assert((a + b).drop_last() =~= a + b.drop_last());
    }
}

/// A tree's total is its root's own figure plus the totals of the
/// subtrees below it.
pub proof fn lemma_total_unfold(node: ProcessNode, metric: Metric)
    ensures
        total(node, metric) == measure(node.memory, metric) + sum_of(
            forest_readings(node.children, node.children.len()),
            metric,
        ),
        node_count(node) == 1 + forest_readings(node.children, node.children.len()).len(),
{
    let rest = forest_readings(node.children, node.children.len());
    lemma_sum_concat(seq![node.memory], rest, metric);
    assert(seq![node.memory] =~= Seq::<MemoryUsage>::empty().push(node.memory));
    lemma_sum_push(Seq::empty(), node.memory, metric);
}

/// Taking one more subtree adds that subtree's total and its processes.
pub proof fn lemma_forest_step(nodes: Seq<ProcessNode>, n: nat, metric: Metric)
    requires
        0 < n <= nodes.len(),
    ensures
        sum_of(forest_readings(nodes, n), metric) == sum_of(
            forest_readings(nodes, (n - 1) as nat),
            metric,
        ) + total(nodes[n - 1], metric),
        forest_readings(nodes, n).len() == forest_readings(nodes, (n - 1) as nat).len()
            + node_count(nodes[n - 1]),
{
    lemma_sum_concat(forest_readings(nodes, (n - 1) as nat), readings(nodes[n - 1]), metric);
}

/// The subtrees taken so far never weigh more, nor hold more processes,
/// than all of them together.
pub proof fn lemma_forest_monotone(nodes: Seq<ProcessNode>, n: nat, m: nat, metric: Metric)
    requires
        n <= m <= nodes.len(),
    ensures
        sum_of(forest_readings(nodes, n), metric) <= sum_of(forest_readings(nodes, m), metric),
        forest_readings(nodes, n).len() <= forest_readings(nodes, m).len(),
    decreases m,
{
    if n < m {
        lemma_forest_monotone(nodes, n, (m - 1) as nat, metric);
        lemma_forest_step(nodes, m, metric);
    }
}

/// Over a tree with no children, the total is that process's own reading.
pub proof fn lemma_leaf_total(node: ProcessNode, metric: Metric)
    requires
        node.children.len() == 0,
    ensures
        total(node, metric) == measure(node.memory, metric),
        node_count(node) == 1,
{
    lemma_total_unfold(node, metric);
}

/// `sum_of` is the left fold of addition over the readings.
proof fn lemma_sum_is_fold(
    readings: Seq<MemoryUsage>,
    metric: Metric,
    f: spec_fn(int, MemoryUsage) -> int,
)
    requires
        forall|acc: int, reading: MemoryUsage|
            #[trigger] f(acc, reading) == acc + measure(reading, metric),
    ensures
        sum_of(readings, metric) == readings.fold_left(0int, f),
    decreases readings.len(),
{
    if readings.len() > 0 {
        lemma_sum_is_fold(readings.drop_last(), metric, f);
    }
}

/// The sum does not depend on the order of the readings.
pub proof fn lemma_sum_permutation(a: Seq<MemoryUsage>, b: Seq<MemoryUsage>, metric: Metric)
    requires
        a.to_multiset() == b.to_multiset(),
    ensures
        sum_of(a, metric) == sum_of(b, metric),
{
    let f = |acc: int, reading: MemoryUsage| acc + measure(reading, metric);
    lemma_sum_is_fold(a, metric, f);
    lemma_sum_is_fold(b, metric, f);
    assert(vstd::seq_lib::commutative_foldl(f));
    vstd::seq_lib::lemma_fold_left_permutation(a, b, f, 0int);
}

/// Whole-tree memory is independent of the tree's shape: two trees that
/// hold the same readings, however they are arranged, have the same total
/// and the same number of processes.
pub proof fn lemma_total_shape_independent(a: ProcessNode, b: ProcessNode, metric: Metric)
    requires
        readings(a).to_multiset() == readings(b).to_multiset(),
    ensures
        total(a, metric) == total(b, metric),
        node_count(a) == node_count(b),
{
    lemma_sum_permutation(readings(a), readings(b), metric);
    broadcast use vstd::seq_lib::to_multiset_len;
    assert(readings(a).len() == readings(a).to_multiset().len());
    assert(readings(b).len() == readings(b).to_multiset().len());
}

/// Whole-tree resident and virtual memory, or `None` where one of the two
/// sums does not fit in 64 bits.
pub fn checked_sum_memory(tree: &ProcessMemoryInfo) -> (sums: Option<(u64, u64)>)
    ensures
        match sums {
            Some((rss, vsz)) => rss == total(tree@, Metric::Rss)
                && vsz == total(tree@, Metric::Vsz),
            None => total(tree@, Metric::Rss) > u64::MAX || total(tree@, Metric::Vsz) > u64::MAX,
        },
    decreases tree,
{
    let mut rss: u64 = tree.memory.rss_bytes;
    let mut vsz: u64 = tree.memory.vsz_bytes;
    let mut i: usize = 0;
    proof {
        lemma_children_view(*tree);
        lemma_total_unfold(tree@, Metric::Rss);
        lemma_total_unfold(tree@, Metric::Vsz);
    }
    while i < tree.children.len()
        invariant
            i <= tree.children.len(),
            tree@.children.len() == tree.children.len(),
            forall|j: int| 0 <= j < tree.children.len()
                ==> #[trigger] tree@.children[j] == tree.children[j]@,
            rss == measure(tree.memory, Metric::Rss) + sum_of(
                forest_readings(tree@.children, i as nat),
                Metric::Rss,
            ),
            vsz == measure(tree.memory, Metric::Vsz) + sum_of(
                forest_readings(tree@.children, i as nat),
                Metric::Vsz,
            ),
            total(tree@, Metric::Rss) == measure(tree.memory, Metric::Rss) + sum_of(
                forest_readings(tree@.children, tree@.children.len()),
                Metric::Rss,
            ),
            total(tree@, Metric::Vsz) == measure(tree.memory, Metric::Vsz) + sum_of(
                forest_readings(tree@.children, tree@.children.len()),
                Metric::Vsz,
            ),
        decreases tree.children.len() - i,
    {
        proof {
            lemma_forest_step(tree@.children, (i + 1) as nat, Metric::Rss);
            lemma_forest_step(tree@.children, (i + 1) as nat, Metric::Vsz);
            lemma_forest_monotone(
                tree@.children,
                (i + 1) as nat,
                tree@.children.len(),
                Metric::Rss,
            );
            lemma_forest_monotone(
                tree@.children,
                (i + 1) as nat,
                tree@.children.len(),
                Metric::Vsz,
            );
        }
        let (child_rss, child_vsz) = match checked_sum_memory(&tree.children[i]) {
            Some(sums) => sums,
            None => {
                return None;
            },
        };
        rss = match rss.checked_add(child_rss) {
            Some(sum) => sum,
            None => {
                return None;
            },
        };
        vsz = match vsz.checked_add(child_vsz) {
            Some(sum) => sum,
            None => {
                return None;
            },
        };
        i += 1;
    }
    Some((rss, vsz))
}

/// Whole-tree memory `(total_rss, total_vsz)`: each process's own reading
/// added up over the whole tree.
pub fn sum_memory(tree: &ProcessMemoryInfo) -> (sums: (u64, u64))
    requires
        total(tree@, Metric::Rss) <= u64::MAX,
        total(tree@, Metric::Vsz) <= u64::MAX,
    ensures
        sums.0 == total(tree@, Metric::Rss),
        sums.1 == total(tree@, Metric::Vsz),
{
    match checked_sum_memory(tree) {
        Some(sums) => sums,
        None => (0, 0),
    }
}

/// The number of processes in a tree, or `None` where it does not fit in a
/// `usize`.
pub fn checked_count_processes(tree: &ProcessMemoryInfo) -> (count: Option<usize>)
    ensures
        match count {
            Some(n) => n == node_count(tree@),
            None => node_count(tree@) > usize::MAX,
        },
    decreases tree,
{
    let mut count: usize = 1;
    let mut i: usize = 0;
    proof {
        lemma_children_view(*tree);
        lemma_total_unfold(tree@, Metric::Rss);
    }
    while i < tree.children.len()
        invariant
            i <= tree.children.len(),
            tree@.children.len() == tree.children.len(),
            forall|j: int| 0 <= j < tree.children.len()
                ==> #[trigger] tree@.children[j] == tree.children[j]@,
            count == 1 + forest_readings(tree@.children, i as nat).len(),
            node_count(tree@) == 1 + forest_readings(tree@.children, tree@.children.len()).len(),
        decreases tree.children.len() - i,
    {
        proof {
            lemma_forest_step(tree@.children, (i + 1) as nat, Metric::Rss);
            lemma_forest_monotone(
                tree@.children,
                (i + 1) as nat,
                tree@.children.len(),
                Metric::Rss,
            );
        }
        let below = match checked_count_processes(&tree.children[i]) {
            Some(n) => n,
            None => {
                return None;
            },
        };
        count = match count.checked_add(below) {
            Some(sum) => sum,
            None => {
                return None;
            },
        };
        i += 1;
    }
    Some(count)
}

/// The number of processes in a tree.
pub fn count_processes(tree: &ProcessMemoryInfo) -> (count: usize)
    requires
        node_count(tree@) <= usize::MAX,
    ensures
        count == node_count(tree@),
{
    match checked_count_processes(tree) {
        Some(count) => count,
        None => 0,
    }
}

} // verus!

//! The rules behind what is written out: which rendering a run gets, and
//! the figures and words that the renderings show.

use vstd::prelude::*;
use vstd::string::*;
use crate::cli::OutputFormat;
use crate::text::{byte_size_text, chars_of, decimal, human_size, push_decimal, text_of, texts};
use crate::tree::{checked_count_processes, node_count};
use crate::types::{lemma_children_view, ProcessMemoryInfo, ProcessNode};

verus! {

/// The ways a run can be written out.
#[derive(Clone, Copy, Debug, PartialEq, Eq, Structural)]
pub enum Rendering {
    Human,
    Verbose,
    Json,
    Csv,
    Quiet,
}

/// The rendering that a format gives: the detailed one where the format
/// for people is asked for together with `verbose`, else the format's own.
pub open spec fn rendering_of(format: OutputFormat, verbose: bool) -> Rendering {
    match format {
        OutputFormat::Human => if verbose {
            Rendering::Verbose
        } else {
            Rendering::Human
        },
        OutputFormat::Json => Rendering::Json,
        OutputFormat::Csv => Rendering::Csv,
        OutputFormat::Quiet => Rendering::Quiet,
    }
}

/// A process name as it is shown: names of more than 40 characters are
/// cut to their first 37, followed by three dots.
pub open spec fn shown_name(name: Seq<char>) -> Seq<char> {
    if name.len() > 40 {
        name.take(37) + "..."@
    } else {
        name
    }
}

/// The first place at or after `from` in `order` whose key is below
/// `key`; the length of `order` where there is none.
pub open spec fn first_below(order: Seq<int>, keys: Seq<u64>, key: u64, from: nat) -> nat
    decreases order.len() - from,
{
    if from >= order.len() {
        order.len()
    } else if keys[order[from as int]] < key {
        from
    } else {
        first_below(order, keys, key, from + 1)
    }
}

/// The order in which the first `n` of a list of siblings are shown,
/// given the resident size of each: their indices, each one put behind
/// all earlier ones that are at least as large.
pub open spec fn display_order(keys: Seq<u64>, n: nat) -> Seq<int>
    decreases n,
{
    if n == 0 || n > keys.len() {
        Seq::empty()
    } else {
        let before = display_order(keys, (n - 1) as nat);
        before.insert(first_below(before, keys, keys[n - 1], 0) as int, n - 1)
    }
}

/// The resident sizes of a list of siblings.
pub open spec fn rss_keys(children: Seq<ProcessNode>) -> Seq<u64> {
    children.map_values(|child: ProcessNode| child.memory.rss_bytes)
}

/// The line that shows one process: its name, its pid, and its resident
/// size written for people.
pub open spec fn line_of(node: ProcessNode) -> Seq<char> {
    shown_name(node.name) + " (PID: "@ + decimal(node.pid as nat) + ") - Peak: "@ + byte_size_text(
        node.memory.rss_bytes,
    )
}

/// The lines that show a tree: the root's, then the lines of each child's
/// subtree, the children taken by falling resident size, children of
/// equal size in the order in which they stand.
pub open spec fn tree_lines(node: ProcessNode) -> Seq<Seq<char>>
    decreases node, 0nat,
{
    seq![line_of(node)] + children_lines(
        node.children,
        display_order(rss_keys(node.children), node.children.len()),
        node.children.len(),
    )
}

/// The lines of the subtrees of the first `n` children in display order.
pub open spec fn children_lines(
    children: Seq<ProcessNode>,
    order: Seq<int>,
    n: nat,
) -> Seq<Seq<char>>
    decreases children, n,
{
    if n == 0 || n > order.len() {
        Seq::empty()
    } else {
        let before = children_lines(children, order, (n - 1) as nat);
        let at = order[n - 1];
        if 0 <= at < children.len() {
            before + tree_lines(children[at])
        } else {
            before
        }
    }
}

/// Where `first_below` points: everything before it, from `from` on, is
/// at least `key`, and what stands there, if anything, is below `key`.
proof fn lemma_first_below(order: Seq<int>, keys: Seq<u64>, key: u64, from: nat)
    requires
        from <= order.len(),
    ensures
        from <= first_below(order, keys, key, from) <= order.len(),
        forall|q: int| from <= q < first_below(order, keys, key, from)
            ==> keys[#[trigger] order[q]] >= key,
        first_below(order, keys, key, from) < order.len() ==> keys[order[first_below(
            order,
            keys,
            key,
            from,
        ) as int]] < key,
    decreases order.len() - from,
{
    if from < order.len() && !(keys[order[from as int]] < key) {
        lemma_first_below(order, keys, key, from + 1);
    }
}

/// The display order is the stable sort by falling resident size: it
/// holds each index once, no process stands before a larger one, and of
/// two equally large the one that stood first stays first.
pub proof fn lemma_display_order(keys: Seq<u64>, n: nat)
    requires
        n <= keys.len(),
    ensures
        display_order(keys, n).len() == n,
        forall|a: int| 0 <= a < n ==> 0 <= #[trigger] display_order(keys, n)[a] < n,
        forall|a: int, b: int| 0 <= a < b < n
            ==> display_order(keys, n)[a] != display_order(keys, n)[b],
        forall|a: int, b: int| 0 <= a < b < n
            ==> keys[display_order(keys, n)[a]] >= keys[display_order(keys, n)[b]],
        forall|a: int, b: int| 0 <= a < b < n
            && keys[display_order(keys, n)[a]] == keys[display_order(keys, n)[b]]
            ==> display_order(keys, n)[a] < display_order(keys, n)[b],
    decreases n,
{
    if n > 0 {
        let before = display_order(keys, (n - 1) as nat);
        lemma_display_order(keys, (n - 1) as nat);
        let key = keys[n - 1];
        let at = first_below(before, keys, key, 0) as int;
        lemma_first_below(before, keys, key, 0);
        let after = before.insert(at, n - 1);
        assert(after == display_order(keys, n));
        assert forall|a: int| 0 <= a < n implies 0 <= #[trigger] after[a] < n by {
            if a < at {
                assert(after[a] == before[a]);
            } else if a > at {
                assert(after[a] == before[a - 1]);
            }
        }
        assert forall|a: int, b: int| 0 <= a < b < n implies
            after[a] != after[b] && keys[after[a]] >= keys[after[b]]
            && (keys[after[a]] == keys[after[b]] ==> after[a] < after[b]) by {
            let from_a = if a < at { a } else { a - 1 };
            let from_b = if b < at { b } else { b - 1 };
            if a != at {
                assert(after[a] == before[from_a]);
            }
            if b != at {
                assert(after[b] == before[from_b]);
            }
            if a == at {
                // What follows the new index was below its key already.
                if at < before.len() {
                    assert(keys[before[at]] < key);
                    if from_b > at {
                        assert(keys[before[at]] >= keys[before[from_b]]);
                    }
                }
            } else if b == at {
                assert(keys[before[from_a]] >= key);
            }
        }
    }
}

/// The rules of the renderings.
#[derive(Clone, Copy, Debug)]
pub struct OutputFormatter;

impl OutputFormatter {
    /// Which rendering a run is written in.
    pub fn format(format: OutputFormat, verbose: bool) -> (rendering: Rendering)
        ensures
            rendering == rendering_of(format, verbose),
    {
        match format {
            OutputFormat::Human => {
                if verbose {
                    Rendering::Verbose
                } else {
                    Rendering::Human
                }
            },
            OutputFormat::Json => Rendering::Json,
            OutputFormat::Csv => Rendering::Csv,
            OutputFormat::Quiet => Rendering::Quiet,
        }
    }

    /// How many processes a tree holds, the root included.
    pub fn count_processes(tree: &ProcessMemoryInfo) -> (count: usize)
        requires
            node_count(tree@) <= usize::MAX,
        ensures
            count == node_count(tree@),
    {
        crate::tree::count_processes(tree)
    }

    /// How many processes a tree holds, or `None` where the number does
    /// not fit in a `usize`.
    pub fn checked_count_processes(tree: &ProcessMemoryInfo) -> (count: Option<usize>)
        ensures
            match count {
                Some(n) => n == node_count(tree@),
                None => node_count(tree@) > usize::MAX,
            },
    {
        checked_count_processes(tree)
    }

    /// The mean time between two samples, in whole milliseconds: the
    /// duration divided by the number of samples, a run without samples
    /// counting as one of one sample.
    pub fn sampling_interval_ms(duration_ms: u64, sample_count: Option<u64>) -> (interval: u64)
        ensures
            interval == match sample_count {
                Some(count) if count > 0 => duration_ms / count,
                _ => duration_ms,
            },
    {
        let samples = match sample_count {
            Some(count) => if count > 0 {
                count
            } else {
                1
            },
            None => 1,
        };
        duration_ms / samples
    }

    /// The word for an exit code: `success` for 0, `failed` for any other.
    pub fn exit_status(exit_code: i32) -> (word: &'static str)
        ensures
            exit_code == 0 ==> word@ == "success"@,
            exit_code != 0 ==> word@ == "failed"@,
    {
        if exit_code == 0 {
            "success"
        } else {
            "failed"
        }
    }

    /// The one word of the quiet rendering of a comparison.
    pub fn format_comparison_quiet(regression_detected: bool) -> (word: &'static str)
        ensures
            regression_detected ==> word@ == "regression"@,
            !regression_detected ==> word@ == "ok"@,
    {
        if regression_detected {
            "regression"
        } else {
            "ok"
        }
    }

    /// A process name as it is shown in the tree.
    pub fn display_name(name: &str) -> (shown: String)
        ensures
            shown@ == shown_name(name@),
    {
        let chars = chars_of(name);
        if chars.len() <= 40 {
            return text_of(&chars);
        }
        let mut kept: Vec<char> = Vec::new();
        let mut i: usize = 0;
        while i < 37
            invariant
                i <= 37,
                chars.len() > 40,
                kept@ == chars@.take(i as int),
            decreases 37 - i,
        {
            kept.push(chars[i]);
            assert(kept@ =~= chars@.take(i + 1));
            i += 1;
        }
        let mut shown = text_of(&kept);
        shown.append("...");
        shown
    }

    /// The order in which siblings of these resident sizes are shown.
    pub fn children_by_rss(keys: &Vec<u64>) -> (order: Vec<usize>)
        ensures
            order@.map_values(|i: usize| i as int) == display_order(keys@, keys.len() as nat),
            order.len() == keys.len(),
            forall|k: int| 0 <= k < order.len() ==> #[trigger] order[k] < keys.len(),
    {
        let mut order: Vec<usize> = Vec::new();
        let mut i: usize = 0;
        assert(order@.map_values(|i: usize| i as int) =~= display_order(keys@, 0));
        while i < keys.len()
            invariant
                i <= keys.len(),
                order.len() == i,
                order@.map_values(|i: usize| i as int) == display_order(keys@, i as nat),
                forall|k: int| 0 <= k < order.len() ==> #[trigger] order[k] < i,
            decreases keys.len() - i,
        {
            let key = keys[i];
            let ghost before = order@.map_values(|i: usize| i as int);
            let mut at: usize = 0;
            while at < order.len() && keys[order[at]] >= key
                invariant
                    at <= order.len(),
                    i < keys.len(),
                    key == keys[i as int],
                    before == order@.map_values(|i: usize| i as int),
                    forall|k: int| 0 <= k < order.len() ==> #[trigger] order[k] < i,
                    first_below(before, keys@, key, 0)
                        == first_below(before, keys@, key, at as nat),
                decreases order.len() - at,
            {
                assert(before[at as int] == order[at as int] as int);
                at += 1;
            }
            proof {
                if at < order.len() {
                    assert(before[at as int] == order[at as int] as int);
                }
                assert(first_below(before, keys@, key, 0) == at);
            }
            order.insert(at, i);
            assert(order@.map_values(|i: usize| i as int) =~= before.insert(at as int, i as int));
            i += 1;
        }
        order
    }

    /// The lines that show a process tree, one line per process.
    pub fn print_process_tree(tree: &ProcessMemoryInfo) -> (lines: Vec<String>)
        ensures
            texts(lines@) == tree_lines(tree@),
        decreases tree,
    {
        let mut line = OutputFormatter::display_name(tree.name.as_str());
        line.append(" (PID: ");
        push_decimal(&mut line, tree.pid as u64);
        line.append(") - Peak: ");
        line.append(human_size(tree.memory.rss_bytes).as_str());
        let mut lines: Vec<String> = Vec::new();
        lines.push(line);
        let mut keys: Vec<u64> = Vec::new();
        let mut i: usize = 0;
        proof {
            lemma_children_view(*tree);
        }
        while i < tree.children.len()
            invariant
                i <= tree.children.len(),
                tree@.children.len() == tree.children.len(),
                forall|j: int| 0 <= j < tree.children.len()
                    ==> #[trigger] tree@.children[j] == tree.children[j]@,
                keys@ == rss_keys(tree@.children).take(i as int),
            decreases tree.children.len() - i,
        {
            keys.push(tree.children[i].memory.rss_bytes);
            assert(keys@ =~= rss_keys(tree@.children).take(i + 1));
            i += 1;
        }
        assert(rss_keys(tree@.children).take(tree.children.len() as int)
            =~= rss_keys(tree@.children));
        let order = OutputFormatter::children_by_rss(&keys);
        let ghost shown = display_order(rss_keys(tree@.children), tree@.children.len());
        let mut k: usize = 0;
        assert(texts(lines@) =~= seq![line_of(tree@)] + children_lines(tree@.children, shown, 0));
        while k < order.len()
            invariant
                k <= order.len(),
                order.len() == tree.children.len(),
                tree@.children.len() == tree.children.len(),
                forall|j: int| 0 <= j < tree.children.len()
                    ==> #[trigger] tree@.children[j] == tree.children[j]@,
                forall|j: int| 0 <= j < order.len() ==> #[trigger] order[j] < tree.children.len(),
                shown == order@.map_values(|i: usize| i as int),
                texts(lines@)
                    == seq![line_of(tree@)] + children_lines(tree@.children, shown, k as nat),
            decreases order.len() - k,
        {
            let at = order[k];
            assert(shown[k as int] == at as int);
            let mut below = OutputFormatter::print_process_tree(&tree.children[at]);
            let ghost before = lines@;
            let ghost added = below@;
            lines.append(&mut below);
            proof {
                assert(texts(lines@) =~= texts(before) + texts(added));
                assert(children_lines(tree@.children, shown, (k + 1) as nat) == children_lines(
                    tree@.children,
                    shown,
                    k as nat,
                ) + tree_lines(tree@.children[at as int]));
                assert(texts(lines@) =~= seq![line_of(tree@)] + children_lines(
                    tree@.children,
                    shown,
                    (k + 1) as nat,
                ));
            }
            k += 1;
        }
        lines
    }

    /// The size by which resident memory grew or shrank against the
    /// baseline, written for people, and whether it grew; `None` where it
    /// did neither.
    pub fn absolute_change(baseline_rss: u64, current_rss: u64) -> (change: Option<(bool, String)>)
        ensures
            current_rss == baseline_rss ==> change is None,
            current_rss > baseline_rss ==> (change matches Some((grew, size)) && grew && size@
                == byte_size_text((current_rss - baseline_rss) as u64)),
            current_rss < baseline_rss ==> (change matches Some((grew, size)) && !grew && size@
                == byte_size_text((baseline_rss - current_rss) as u64)),
    {
        if current_rss > baseline_rss {
            Some((true, human_size(current_rss - baseline_rss)))
        } else if current_rss < baseline_rss {
            Some((false, human_size(baseline_rss - current_rss)))
        } else {
            None
        }
    }
}

/// What the live display has on the screen.
#[derive(Clone, Copy, Debug)]
pub struct RealtimeDisplay {
    last_line_count: usize,
}

impl RealtimeDisplay {
    /// How many lines of the display stand on the screen.
    pub closed spec fn shown_lines(&self) -> nat {
        self.last_line_count as nat
    }

    /// A display that has shown nothing yet.
    pub fn new() -> (display: Self)
        ensures
            display.shown_lines() == 0,
    {
        RealtimeDisplay { last_line_count: 0 }
    }

    /// The two lines of one update, and how many lines of the update
    /// before it have to be cleared first. After it two lines stand on
    /// the screen.
    pub fn update(
        &mut self,
        current_rss: u64,
        peak_rss: u64,
        current_vsz: u64,
        peak_vsz: u64,
    ) -> (shown: (usize, String, String))
        ensures
            shown.0 == old(self).shown_lines(),
            shown.1@ == "Current RSS: "@ + byte_size_text(current_rss) + " | Peak RSS: "@
                + byte_size_text(peak_rss),
            shown.2@ == "Current VSZ: "@ + byte_size_text(current_vsz) + " | Peak VSZ: "@
                + byte_size_text(peak_vsz),
            final(self).shown_lines() == 2,
    {
        let to_clear = self.last_line_count;
        let mut rss_line = "Current RSS: ".to_owned();
        rss_line.append(human_size(current_rss).as_str());
        rss_line.append(" | Peak RSS: ");
        rss_line.append(human_size(peak_rss).as_str());
        let mut vsz_line = "Current VSZ: ".to_owned();
        vsz_line.append(human_size(current_vsz).as_str());
        vsz_line.append(" | Peak VSZ: ");
        vsz_line.append(human_size(peak_vsz).as_str());
        self.last_line_count = 2;
        (to_clear, rss_line, vsz_line)
    }

    /// How many lines have to be cleared to take the display off the
    /// screen. After it nothing stands there.
    pub fn clear(&mut self) -> (to_clear: usize)
        ensures
            to_clear == old(self).shown_lines(),
            final(self).shown_lines() == 0,
    {
        let to_clear = self.last_line_count;
        self.last_line_count = 0;
        to_clear
    }
}

} // verus!

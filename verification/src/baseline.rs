//! Baselines: a named summary of one run, and the comparison of a later
//! run against it.

use vstd::prelude::*;
use vstd::string::*;
use crate::text::{chars_of, decimal, decimal_string, in_order, same_text, sort_strings, text_of,
    texts};
use crate::types::{MonitorResult, MonitorSummary, PeakMemError, Timestamp};

verus! {

/// Whether a character is one that file systems treat specially.
pub open spec fn is_hostile(c: char) -> bool {
    c == '/' || c == '\\' || c == ':' || c == '*' || c == '?' || c == '"' || c == '<' || c == '>'
        || c == '|'
}

/// A baseline name made safe for use as a file name: every hostile
/// character is replaced by an underscore, all others stay.
pub open spec fn sanitized(name: Seq<char>) -> Seq<char> {
    name.map_values(|c: char| if is_hostile(c) { '_' } else { c })
}

/// Replaces each of `/ \ : * ? " < > |` in a baseline name by `_`.
pub fn sanitize_filename(name: &str) -> (safe: String)
    ensures
        safe@ == sanitized(name@),
{
    let mut safe = String::new();
    for c in it: name.chars()
        invariant
            it.seq() == name@,
            safe@ == sanitized(name@.take(it.index() as int)),
    {
        let kept = match c {
            '/' | '\\' | ':' | '*' | '?' | '"' | '<' | '>' | '|' => '_',
            _ => c,
        };
        safe.push(kept);
        assert(safe@ =~= sanitized(name@.take(it.index() + 1)));
    }
    assert(name@.take(name@.len() as int) =~= name@);
    safe
}

/// A sanitized name has the length of the name, holds no hostile
/// character, and sanitizing it again changes nothing.
pub proof fn lemma_sanitized(name: Seq<char>)
    ensures
        sanitized(name).len() == name.len(),
        forall|i: int| 0 <= i < name.len() ==> !is_hostile(#[trigger] sanitized(name)[i]),
        forall|i: int| 0 <= i < name.len() && !is_hostile(name[i])
            ==> #[trigger] sanitized(name)[i] == name[i],
        sanitized(sanitized(name)) == sanitized(name),
{
    assert(sanitized(sanitized(name)) =~= sanitized(name));
}

/// Two names that differ only in hostile characters have the same
/// sanitized name, and so share a file.
pub proof fn lemma_sanitized_collision(a: Seq<char>, b: Seq<char>)
    requires
        a.len() == b.len(),
        forall|i: int| 0 <= i < a.len() ==> a[i] == b[i] || (is_hostile(a[i]) && is_hostile(b[i])),
    ensures
        sanitized(a) == sanitized(b),
{
    assert(sanitized(a) =~= sanitized(b));
}

/// The map that a list of key and value pairs stands for, a later pair
/// replacing an earlier one of the same key.
pub open spec fn map_of(pairs: Seq<(Seq<char>, Seq<char>)>) -> Map<Seq<char>, Seq<char>>
    decreases pairs.len(),
{
    if pairs.len() == 0 {
        Map::empty()
    } else {
        map_of(pairs.drop_last()).insert(pairs.last().0, pairs.last().1)
    }
}

/// The pairs of a list of entries, each string taken as its characters.
pub open spec fn pairs_of(entries: Seq<(String, String)>) -> Seq<(Seq<char>, Seq<char>)> {
    entries.map_values(|entry: (String, String)| (entry.0@, entry.1@))
}

/// No key occurs twice.
pub open spec fn distinct_keys(pairs: Seq<(Seq<char>, Seq<char>)>) -> bool {
    forall|i: int, j: int| 0 <= i < j < pairs.len()
        ==> (#[trigger] pairs[i]).0 != (#[trigger] pairs[j]).0
}

/// A key that no pair holds is not in the map.
proof fn lemma_map_of_absent(pairs: Seq<(Seq<char>, Seq<char>)>, key: Seq<char>)
    requires
        forall|i: int| 0 <= i < pairs.len() ==> (#[trigger] pairs[i]).0 != key,
    ensures
        !map_of(pairs).contains_key(key),
    decreases pairs.len(),
{
    if pairs.len() > 0 {
        assert(pairs.last() == pairs[pairs.len() - 1]);
        assert forall|i: int| 0 <= i < pairs.drop_last().len() implies
            (#[trigger] pairs.drop_last()[i]).0 != key by {
            assert(pairs.drop_last()[i] == pairs[i]);
        }
        lemma_map_of_absent(pairs.drop_last(), key);
    }
}

/// Where no key occurs twice, the map gives each pair's key its value.
proof fn lemma_map_of_present(pairs: Seq<(Seq<char>, Seq<char>)>, at: int)
    requires
        distinct_keys(pairs),
        0 <= at < pairs.len(),
    ensures
        map_of(pairs).contains_key(pairs[at].0),
        map_of(pairs)[pairs[at].0] == pairs[at].1,
    decreases pairs.len(),
{
    let rest = pairs.drop_last();
    if at < pairs.len() - 1 {
        assert forall|i: int, j: int| 0 <= i < j < rest.len() implies
            (#[trigger] rest[i]).0 != (#[trigger] rest[j]).0 by {
            assert(rest[i] == pairs[i]);
            assert(rest[j] == pairs[j]);
        }
        assert(rest[at] == pairs[at]);
        lemma_map_of_present(rest, at);
        assert(pairs[at].0 != pairs[pairs.len() - 1].0);
    }
}

/// Where no key occurs twice, putting a new value at a pair's place is
/// inserting it under that pair's key.
proof fn lemma_map_of_update(pairs: Seq<(Seq<char>, Seq<char>)>, at: int, value: Seq<char>)
    requires
        distinct_keys(pairs),
        0 <= at < pairs.len(),
    ensures
        map_of(pairs.update(at, (pairs[at].0, value))) == map_of(pairs).insert(pairs[at].0, value),
        distinct_keys(pairs.update(at, (pairs[at].0, value))),
    decreases pairs.len(),
{
    let key = pairs[at].0;
    let updated = pairs.update(at, (key, value));
    let rest = pairs.drop_last();
    assert forall|i: int, j: int| 0 <= i < j < updated.len() implies
        (#[trigger] updated[i]).0 != (#[trigger] updated[j]).0 by {
        assert(updated[i].0 == pairs[i].0);
        assert(updated[j].0 == pairs[j].0);
    }
    if at == pairs.len() - 1 {
        assert(updated.drop_last() =~= rest);
        assert(map_of(updated) =~= map_of(pairs).insert(key, value));
    } else {
        assert forall|i: int, j: int| 0 <= i < j < rest.len() implies
            (#[trigger] rest[i]).0 != (#[trigger] rest[j]).0 by {
            assert(rest[i] == pairs[i]);
            assert(rest[j] == pairs[j]);
        }
        assert(rest[at] == pairs[at]);
        lemma_map_of_update(rest, at, value);
        assert(updated.drop_last() =~= rest.update(at, (key, value)));
        assert(updated.last() == pairs.last());
        assert(pairs[at].0 != pairs[pairs.len() - 1].0);
        assert(map_of(updated) =~= map_of(pairs).insert(key, value));
    }
}

/// Where no key occurs twice, the map holds as many keys as there are
/// pairs.
proof fn lemma_map_of_len(pairs: Seq<(Seq<char>, Seq<char>)>)
    requires
        distinct_keys(pairs),
    ensures
        map_of(pairs).dom().finite(),
        map_of(pairs).dom().len() == pairs.len(),
    decreases pairs.len(),
{
    if pairs.len() > 0 {
        let rest = pairs.drop_last();
        assert forall|i: int, j: int| 0 <= i < j < rest.len() implies
            (#[trigger] rest[i]).0 != (#[trigger] rest[j]).0 by {
            assert(rest[i] == pairs[i]);
            assert(rest[j] == pairs[j]);
        }
        lemma_map_of_len(rest);
        assert forall|i: int| 0 <= i < rest.len() implies (#[trigger] rest[i]).0 != pairs.last().0 by {
            assert(rest[i] == pairs[i]);
            assert(pairs.last() == pairs[pairs.len() - 1]);
        }
        lemma_map_of_absent(rest, pairs.last().0);
    }
}

/// Free-form facts about the environment a baseline was taken in: a
/// mapping from string to string.
#[derive(Debug)]
pub struct Metadata {
    entries: Vec<(String, String)>,
}

impl View for Metadata {
    type V = Map<Seq<char>, Seq<char>>;

    closed spec fn view(&self) -> Map<Seq<char>, Seq<char>> {
        map_of(pairs_of(self.entries@))
    }
}

impl Metadata {
    /// Each key is held once.
    pub closed spec fn wf(&self) -> bool {
        distinct_keys(pairs_of(self.entries@))
    }

    /// The empty mapping.
    pub fn new() -> (metadata: Self)
        ensures
            metadata@ == Map::<Seq<char>, Seq<char>>::empty(),
            metadata.wf(),
    {
        Metadata { entries: Vec::new() }
    }

    /// Where among the entries `key` stands, if it does.
    fn position(&self, key: &str) -> (at: Option<usize>)
        ensures
            match at {
                Some(i) => i < self.entries.len() && self.entries[i as int].0@ == key@,
                None => forall|i: int| 0 <= i < self.entries.len()
                    ==> (#[trigger] self.entries[i]).0@ != key@,
            },
    {
        let mut i: usize = 0;
        while i < self.entries.len()
            invariant
                i <= self.entries.len(),
                forall|j: int| 0 <= j < i ==> (#[trigger] self.entries[j]).0@ != key@,
            decreases self.entries.len() - i,
        {
            if same_text(self.entries[i].0.as_str(), key) {
                return Some(i);
            }
            i += 1;
        }
        None
    }

    /// Whether a value is held under `key`.
    pub fn contains_key(&self, key: &str) -> (held: bool)
        requires
            self.wf(),
        ensures
            held == self@.contains_key(key@),
    {
        let at = self.position(key);
        proof {
            let pairs = pairs_of(self.entries@);
            match at {
                Some(i) => {
                    lemma_map_of_present(pairs, i as int);
                },
                None => {
                    assert forall|i: int| 0 <= i < pairs.len() implies
                        (#[trigger] pairs[i]).0 != key@ by {
                        assert(pairs[i].0 == self.entries[i].0@);
                    }
                    lemma_map_of_absent(pairs, key@);
                },
            }
        }
        at.is_some()
    }

    /// The value held under `key`, if there is one.
    pub fn get(&self, key: &str) -> (value: Option<&String>)
        requires
            self.wf(),
        ensures
            match value {
                Some(v) => self@.contains_key(key@) && self@[key@] == v@,
                None => !self@.contains_key(key@),
            },
    {
        let at = self.position(key);
        proof {
            let pairs = pairs_of(self.entries@);
            match at {
                Some(i) => {
                    lemma_map_of_present(pairs, i as int);
                },
                None => {
                    assert forall|i: int| 0 <= i < pairs.len() implies
                        (#[trigger] pairs[i]).0 != key@ by {
                        assert(pairs[i].0 == self.entries[i].0@);
                    }
                    lemma_map_of_absent(pairs, key@);
                },
            }
        }
        match at {
            Some(i) => Some(&self.entries[i].1),
            None => None,
        }
    }

    /// Puts `value` under `key`, in place of what was held there.
    pub fn insert(&mut self, key: String, value: String)
        requires
            old(self).wf(),
        ensures
            final(self)@ == old(self)@.insert(key@, value@),
            final(self).wf(),
    {
        let at = self.position(key.as_str());
        let ghost before = pairs_of(self.entries@);
        match at {
            Some(i) => {
                self.entries.set(i, (key, value));
                proof {
                    assert(before[i as int].0 == key@);
                    lemma_map_of_update(before, i as int, value@);
                    assert(pairs_of(self.entries@) =~= before.update(i as int, (key@, value@)));
                }
            },
            None => {
                self.entries.push((key, value));
                proof {
                    let after = pairs_of(self.entries@);
                    assert(after =~= before.push((key@, value@)));
                    assert(after.drop_last() =~= before);
                    assert forall|i: int, j: int| 0 <= i < j < after.len() implies
                        (#[trigger] after[i]).0 != (#[trigger] after[j]).0 by {
                        assert(after[i] == before[i]);
                        if j < before.len() {
                            assert(after[j] == before[j]);
                        } else {
                            assert(before[i].0 == old(self).entries[i].0@);
                        }
                    }
                }
            },
        }
    }

    /// How many keys are held.
    pub fn len(&self) -> (count: usize)
        ensures
            count == self.entries().len(),
            self.wf() ==> self@.dom().finite() && count == self@.dom().len(),
    {
        proof {
            if self.wf() {
                lemma_map_of_len(pairs_of(self.entries@));
            }
        }
        self.entries.len()
    }

    /// The entries, one per key, in the order in which the keys were first
    /// put in.
    pub closed spec fn entries(&self) -> Seq<(String, String)> {
        self.entries@
    }

    /// The key and the value of the entry at `index`.
    pub fn entry(&self, index: usize) -> (pair: (&String, &String))
        requires
            index < self.entries().len(),
        ensures
            *pair.0 == self.entries()[index as int].0,
            *pair.1 == self.entries()[index as int].1,
            self.wf() ==> self@.contains_key(pair.0@) && self@[pair.0@] == pair.1@,
    {
        proof {
            if self.wf() {
                lemma_map_of_present(pairs_of(self.entries@), index as int);
            }
        }
        (&self.entries[index].0, &self.entries[index].1)
    }
}

/// A saved summary of one run, the reference point of later comparisons.
#[derive(Debug)]
pub struct Baseline {
    /// The version of the program that wrote the baseline.
    pub version: String,
    /// When the baseline was taken.
    pub created_at: Timestamp,
    /// The command that was monitored.
    pub command: String,
    /// Peak resident set size, in bytes.
    pub peak_rss_bytes: u64,
    /// Peak virtual size, in bytes.
    pub peak_vsz_bytes: u64,
    /// How long the run took, in milliseconds.
    pub duration_ms: u64,
    /// The platform, the architecture and the like.
    pub metadata: Metadata,
}

/// The mathematical model of a [`Baseline`].
pub ghost struct BaselineView {
    pub version: Seq<char>,
    pub created_at: Timestamp,
    pub command: Seq<char>,
    pub peak_rss_bytes: u64,
    pub peak_vsz_bytes: u64,
    pub duration_ms: u64,
    pub metadata: Map<Seq<char>, Seq<char>>,
}

impl View for Baseline {
    type V = BaselineView;

    open spec fn view(&self) -> BaselineView {
        BaselineView {
            version: self.version@,
            created_at: self.created_at,
            command: self.command@,
            peak_rss_bytes: self.peak_rss_bytes,
            peak_vsz_bytes: self.peak_vsz_bytes,
            duration_ms: self.duration_ms,
            metadata: self.metadata@,
        }
    }
}

/// The metadata of a baseline taken on the given platform and
/// architecture: both under their keys, and the pid of the monitored
/// process, in decimal, where the summary holds it.
pub open spec fn metadata_of(
    main_pid: Option<u32>,
    platform: Seq<char>,
    arch: Seq<char>,
) -> Map<Seq<char>, Seq<char>> {
    let base = Map::<Seq<char>, Seq<char>>::empty().insert("platform"@, platform).insert(
        "arch"@,
        arch,
    );
    match main_pid {
        Some(pid) => base.insert("main_pid"@, decimal(pid as nat)),
        None => base,
    }
}

/// The baseline that a summary gives: its command, peaks and duration,
/// with the version, the time and the environment it is taken in.
pub open spec fn baseline_of(
    result: MonitorSummary,
    version: Seq<char>,
    platform: Seq<char>,
    arch: Seq<char>,
    created_at: Timestamp,
) -> BaselineView {
    BaselineView {
        version,
        created_at,
        command: result.command,
        peak_rss_bytes: result.peak_rss_bytes,
        peak_vsz_bytes: result.peak_vsz_bytes,
        duration_ms: result.duration_ms,
        metadata: metadata_of(result.main_pid, platform, arch),
    }
}

impl Baseline {
    /// Derives a baseline from the summary of a run. The caller supplies
    /// what the summary does not hold: the program's version, the platform
    /// and the architecture it runs on, and the current time.
    pub fn from_result(
        result: &MonitorResult,
        version: &str,
        platform: &str,
        arch: &str,
        created_at: Timestamp,
    ) -> (baseline: Baseline)
        ensures
            baseline@ == baseline_of(result@, version@, platform@, arch@, created_at),
            baseline.metadata.wf(),
    {
        let mut metadata = Metadata::new();
        metadata.insert("platform".to_owned(), platform.to_owned());
        metadata.insert("arch".to_owned(), arch.to_owned());
        match result.main_pid {
            Some(pid) => {
                metadata.insert("main_pid".to_owned(), decimal_string(pid as u64));
            },
            None => {},
        }
        Baseline {
            version: version.to_owned(),
            created_at,
            command: result.command.clone(),
            peak_rss_bytes: result.peak_rss_bytes,
            peak_vsz_bytes: result.peak_vsz_bytes,
            duration_ms: result.duration_ms,
            metadata,
        }
    }
}

/// A percentage held exactly, as the fraction `numerator / denominator`.
#[derive(Clone, Copy, Debug)]
pub struct Percent {
    pub numerator: i128,
    pub denominator: u64,
}

/// A regression threshold in percent, in steps of a millionth of a
/// percent.
#[derive(Clone, Copy, Debug, PartialEq, Eq, Structural)]
pub struct PercentThreshold {
    pub micro_percent: i64,
}

impl Default for PercentThreshold {
    /// The threshold where none is given: ten percent.
    fn default() -> (threshold: Self)
        ensures
            threshold.micro_percent == 10_000_000,
    {
        PercentThreshold { micro_percent: 10_000_000 }
    }
}

impl PercentThreshold {
    /// A threshold of a whole number of percent.
    pub fn from_whole(percent: i32) -> (threshold: Self)
        ensures
            threshold.micro_percent == percent * 1_000_000,
    {
        PercentThreshold { micro_percent: (percent as i64) * 1_000_000 }
    }

    /// A threshold given in millionths of a percent.
    pub fn from_micro_percent(micro_percent: i64) -> (threshold: Self)
        ensures
            threshold.micro_percent == micro_percent,
    {
        PercentThreshold { micro_percent }
    }
}

impl Percent {
    /// A fraction that can be compared: the denominator is positive, and
    /// the numerator no larger than a hundred times a 64-bit difference.
    pub open spec fn wf(self) -> bool {
        &&& self.denominator > 0
        &&& -100 * u64::MAX <= self.numerator <= 100 * u64::MAX
    }

    /// Zero percent.
    pub open spec fn zero() -> Percent {
        Percent { numerator: 0, denominator: 1 }
    }

    /// The change from `from` to `to`, in percent of `from`:
    /// `(to - from) / from * 100`, and zero where `from` is zero.
    pub open spec fn change(from: u64, to: u64) -> Percent {
        if from == 0 {
            Percent::zero()
        } else {
            Percent { numerator: ((to - from) * 100) as i128, denominator: from }
        }
    }

    /// Whether the percentage is exactly zero.
    pub open spec fn is_zero(self) -> bool {
        self.numerator == 0
    }

    /// Whether the percentage is exactly the whole number `percent`.
    pub open spec fn is_whole(self, percent: int) -> bool {
        self.numerator == percent * self.denominator
    }

    /// Whether the percentage is strictly above the threshold.
    pub open spec fn exceeds(self, threshold: PercentThreshold) -> bool {
        self.numerator * 1_000_000 > threshold.micro_percent * self.denominator
    }

    /// The change from `from` to `to`, in percent of `from`.
    pub fn of_change(from: u64, to: u64) -> (percent: Percent)
        ensures
            percent == Percent::change(from, to),
            percent.wf(),
    {
        if from == 0 {
            Percent { numerator: 0, denominator: 1 }
        } else {
            let diff: i128 = to as i128 - from as i128;
            Percent { numerator: diff * 100, denominator: from }
        }
    }

    /// Whether the percentage is exactly zero.
    pub fn equals_zero(&self) -> (zero: bool)
        ensures
            zero == self.is_zero(),
    {
        self.numerator == 0
    }

    /// Whether the percentage is exactly the whole number `percent`.
    pub fn equals_whole(&self, percent: i32) -> (equal: bool)
        ensures
            equal == self.is_whole(percent as int),
    {
        let whole: i128 = percent as i128;
        let denominator: i128 = self.denominator as i128;
        assert(-0x8000_0000 * 0xffff_ffff_ffff_ffff <= whole * denominator <= 0x8000_0000
            * 0xffff_ffff_ffff_ffff) by (nonlinear_arith)
            requires
                -0x8000_0000 <= whole <= 0x8000_0000,
                0 <= denominator <= 0xffff_ffff_ffff_ffff,
        ;
        self.numerator == whole * denominator
    }

    /// Whether the percentage is strictly above the threshold.
    pub fn is_above(&self, threshold: PercentThreshold) -> (above: bool)
        ensures
            above == self.exceeds(threshold),
    {
        let limit: i128 = threshold.micro_percent as i128;
        let denominator: i128 = self.denominator as i128;
        assert(-0x8000_0000_0000_0000 * 0xffff_ffff_ffff_ffff <= limit * denominator
            <= 0x7fff_ffff_ffff_ffff * 0xffff_ffff_ffff_ffff) by (nonlinear_arith)
            requires
                -0x8000_0000_0000_0000 <= limit <= 0x7fff_ffff_ffff_ffff,
                0 <= denominator <= 0xffff_ffff_ffff_ffff,
        ;
        match self.numerator.checked_mul(1_000_000) {
            Some(scaled) => scaled > limit * denominator,
            // A numerator this large is beyond every threshold on its side of zero.
            None => self.numerator > 0,
        }
    }
}

/// A fresh run held against a baseline.
#[derive(Debug)]
pub struct ComparisonResult {
    /// The baseline compared against.
    pub baseline: Baseline,
    /// The run that was compared.
    pub current: MonitorResult,
    /// Peak resident size of the run minus that of the baseline, in bytes.
    pub rss_diff_bytes: i128,
    /// That difference in percent of the baseline's.
    pub rss_diff_percent: Percent,
    /// Peak virtual size of the run minus that of the baseline, in bytes.
    pub vsz_diff_bytes: i128,
    /// That difference in percent of the baseline's.
    pub vsz_diff_percent: Percent,
    /// Duration of the run minus that of the baseline, in milliseconds.
    pub duration_diff_ms: i128,
    /// That difference in percent of the baseline's.
    pub duration_diff_percent: Percent,
    /// Whether resident memory grew by more than the threshold.
    pub regression_detected: bool,
}

/// The mathematical model of a [`ComparisonResult`].
pub ghost struct Comparison {
    pub baseline: BaselineView,
    pub current: MonitorSummary,
    pub rss_diff_bytes: int,
    pub rss_diff_percent: Percent,
    pub vsz_diff_bytes: int,
    pub vsz_diff_percent: Percent,
    pub duration_diff_ms: int,
    pub duration_diff_percent: Percent,
    pub regression_detected: bool,
}

impl View for ComparisonResult {
    type V = Comparison;

    open spec fn view(&self) -> Comparison {
        Comparison {
            baseline: self.baseline@,
            current: self.current@,
            rss_diff_bytes: self.rss_diff_bytes as int,
            rss_diff_percent: self.rss_diff_percent,
            vsz_diff_bytes: self.vsz_diff_bytes as int,
            vsz_diff_percent: self.vsz_diff_percent,
            duration_diff_ms: self.duration_diff_ms as int,
            duration_diff_percent: self.duration_diff_percent,
            regression_detected: self.regression_detected,
        }
    }
}

/// What comparing a run against a baseline gives. For resident size,
/// virtual size and duration alike the difference is the run's value
/// minus the baseline's, and the percentage is that difference in percent
/// of the baseline's value, zero where the baseline's value is zero. A
/// regression is a resident percentage strictly above the threshold;
/// virtual size and duration are reported and never decide.
pub open spec fn comparison(
    baseline: BaselineView,
    current: MonitorSummary,
    threshold: PercentThreshold,
) -> Comparison {
    Comparison {
        baseline,
        current,
        rss_diff_bytes: current.peak_rss_bytes - baseline.peak_rss_bytes,
        rss_diff_percent: Percent::change(baseline.peak_rss_bytes, current.peak_rss_bytes),
        vsz_diff_bytes: current.peak_vsz_bytes - baseline.peak_vsz_bytes,
        vsz_diff_percent: Percent::change(baseline.peak_vsz_bytes, current.peak_vsz_bytes),
        duration_diff_ms: current.duration_ms - baseline.duration_ms,
        duration_diff_percent: Percent::change(baseline.duration_ms, current.duration_ms),
        regression_detected: Percent::change(
            baseline.peak_rss_bytes,
            current.peak_rss_bytes,
        ).exceeds(threshold),
    }
}

impl ComparisonResult {
    /// Compares a run against a baseline, with the percentage of resident
    /// growth above which the run counts as a regression.
    pub fn new(
        baseline: Baseline,
        current: MonitorResult,
        threshold_percent: PercentThreshold,
    ) -> (result: ComparisonResult)
        ensures
            result@ == comparison(baseline@, current@, threshold_percent),
            result.rss_diff_percent.wf(),
            result.vsz_diff_percent.wf(),
            result.duration_diff_percent.wf(),
    {
        let rss_diff_bytes: i128 = current.peak_rss_bytes as i128 - baseline.peak_rss_bytes as i128;
        let rss_diff_percent = Percent::of_change(baseline.peak_rss_bytes, current.peak_rss_bytes);
        let vsz_diff_bytes: i128 = current.peak_vsz_bytes as i128 - baseline.peak_vsz_bytes as i128;
        let vsz_diff_percent = Percent::of_change(baseline.peak_vsz_bytes, current.peak_vsz_bytes);
        let duration_diff_ms: i128 = current.duration_ms as i128 - baseline.duration_ms as i128;
        let duration_diff_percent = Percent::of_change(baseline.duration_ms, current.duration_ms);
        let regression_detected = rss_diff_percent.is_above(threshold_percent);
        ComparisonResult {
            baseline,
            current,
            rss_diff_bytes,
            rss_diff_percent,
            vsz_diff_bytes,
            vsz_diff_percent,
            duration_diff_ms,
            duration_diff_percent,
            regression_detected,
        }
    }
}

/// Comparing a run against the baseline taken from that same run finds no
/// difference: every percentage is zero, and with a threshold that is not
/// negative no regression is reported.
pub proof fn lemma_compare_with_own_baseline(
    result: MonitorSummary,
    version: Seq<char>,
    platform: Seq<char>,
    arch: Seq<char>,
    created_at: Timestamp,
    threshold: PercentThreshold,
)
    requires
        threshold.micro_percent >= 0,
    ensures
        ({
            let outcome = comparison(
                baseline_of(result, version, platform, arch, created_at),
                result,
                threshold,
            );
            &&& outcome.rss_diff_bytes == 0
            &&& outcome.vsz_diff_bytes == 0
            &&& outcome.duration_diff_ms == 0
            &&& outcome.rss_diff_percent.is_zero()
            &&& outcome.vsz_diff_percent.is_zero()
            &&& outcome.duration_diff_percent.is_zero()
            &&& !outcome.regression_detected
        }),
{
    let baseline = baseline_of(result, version, platform, arch, created_at);
    let percent = Percent::change(baseline.peak_rss_bytes, result.peak_rss_bytes);
    assert(percent.numerator == 0);
    assert(threshold.micro_percent * percent.denominator >= 0) by (nonlinear_arith)
        requires
            threshold.micro_percent >= 0,
            percent.denominator >= 0,
    ;
}

/// Division is guarded: every percentage of a comparison has a positive
/// denominator, and against a baseline value of zero it is exactly zero.
pub proof fn lemma_percent_is_guarded(from: u64, to: u64)
    ensures
        Percent::change(from, to).wf(),
        from == 0 ==> Percent::change(from, to) == Percent::zero(),
        Percent::zero().is_zero(),
{
}

/// A run is a regression exactly where its resident peak, less the
/// baseline's, is more than the threshold's share of the baseline's.
pub proof fn lemma_regression_rule(
    baseline: BaselineView,
    current: MonitorSummary,
    threshold: PercentThreshold,
)
    ensures
        baseline.peak_rss_bytes > 0
            ==> (comparison(baseline, current, threshold).regression_detected
            <==> (current.peak_rss_bytes - baseline.peak_rss_bytes) * 100 * 1_000_000
            > threshold.micro_percent * baseline.peak_rss_bytes),
        baseline.peak_rss_bytes == 0
            ==> (comparison(baseline, current, threshold).regression_detected
            <==> threshold.micro_percent < 0),
{
    if baseline.peak_rss_bytes == 0 {
        assert(threshold.micro_percent * 1 == threshold.micro_percent);
    }
}

/// Whether a file of this name holds a baseline: the name ends in
/// `.json` and has at least one character before that.
pub open spec fn is_baseline_file(file_name: Seq<char>) -> bool {
    file_name.len() > 5 && file_name.skip(file_name.len() - 5) == ".json"@
}

/// The name of a baseline file without its `.json`.
pub open spec fn stem(file_name: Seq<char>) -> Seq<char> {
    file_name.take(file_name.len() - 5)
}

/// The stems of the baseline files among `file_names`, in the order of
/// the files.
pub open spec fn stems_of(file_names: Seq<Seq<char>>) -> Seq<Seq<char>>
    decreases file_names.len(),
{
    if file_names.len() == 0 {
        Seq::empty()
    } else if is_baseline_file(file_names.last()) {
        stems_of(file_names.drop_last()).push(stem(file_names.last()))
    } else {
        stems_of(file_names.drop_last())
    }
}

/// How an attempt to reach a stored baseline failed.
#[derive(Debug)]
pub enum StorageFailure {
    /// No file of that name exists.
    Missing,
    /// The file could not be read, written or removed.
    Unreadable(String),
    /// The file does not hold a baseline.
    Malformed(String),
}

/// Names the files that baselines are kept in, and holds runs against
/// what was loaded from them.
#[derive(Debug)]
pub struct BaselineManager {
    baselines_dir: String,
}

impl BaselineManager {
    /// The directory the baselines are kept in.
    pub closed spec fn dir(&self) -> Seq<char> {
        self.baselines_dir@
    }

    /// A manager for the baselines kept in `baselines_dir`.
    pub fn new(baselines_dir: String) -> (manager: Self)
        ensures
            manager.dir() == baselines_dir@,
    {
        BaselineManager { baselines_dir }
    }

    /// The directory the baselines are kept in.
    pub fn baselines_dir(&self) -> (dir: &String)
        ensures
            dir@ == self.dir(),
    {
        &self.baselines_dir
    }

    /// The name of the file that holds the baseline `name`: the sanitized
    /// name followed by `.json`. Two names that differ only in hostile
    /// characters share one file.
    pub fn file_name(&self, name: &str) -> (file_name: String)
        ensures
            file_name@ == sanitized(name@) + ".json"@,
    {
        let mut file_name = sanitize_filename(name);
        file_name.append(".json");
        file_name
    }

    /// The name of the file that a baseline is written to before it takes
    /// its final name, so that a reader never meets a baseline that is
    /// only partly written: the final name followed by `.tmp`.
    pub fn temp_file_name(&self, name: &str) -> (file_name: String)
        ensures
            file_name@ == sanitized(name@) + ".json"@ + ".tmp"@,
    {
        let mut file_name = self.file_name(name);
        file_name.append(".tmp");
        file_name
    }

    /// The parts of the path of the directory that holds the baselines
    /// where the settings name none: `peak-mem` and `baselines` below the
    /// user's cache directory, or `.peak-mem-baselines` below the working
    /// directory where the user has no cache directory.
    pub fn default_dir(cache_dir: Option<String>) -> (parts: Vec<String>)
        ensures
            texts(parts@) == match cache_dir {
                Some(dir) => seq![dir@, "peak-mem"@, "baselines"@],
                None => seq![".peak-mem-baselines"@],
            },
    {
        let mut parts: Vec<String> = Vec::new();
        match cache_dir {
            Some(dir) => {
                parts.push(dir);
                parts.push("peak-mem".to_owned());
                parts.push("baselines".to_owned());
                assert(texts(parts@) =~= seq![dir@, "peak-mem"@, "baselines"@]);
            },
            None => {
                parts.push(".peak-mem-baselines".to_owned());
                assert(texts(parts@) =~= seq![".peak-mem-baselines"@]);
            },
        }
        parts
    }

    /// What is to be written to save the summary of a run under `name`:
    /// the name of the file, and the baseline derived from the summary.
    pub fn save_baseline(
        &self,
        name: &str,
        result: &MonitorResult,
        version: &str,
        platform: &str,
        arch: &str,
        created_at: Timestamp,
    ) -> (saved: (String, Baseline))
        ensures
            saved.0@ == sanitized(name@) + ".json"@,
            saved.1@ == baseline_of(result@, version@, platform@, arch@, created_at),
            saved.1.metadata.wf(),
    {
        (self.file_name(name), Baseline::from_result(result, version, platform, arch, created_at))
    }

    /// The outcome of loading the baseline `name`, given what reading its
    /// file gave: the baseline that was read, `NotFound` with the name
    /// where the file does not exist, and the read or decoding failure
    /// otherwise.
    pub fn load_baseline(
        &self,
        name: &str,
        read: Result<Baseline, StorageFailure>,
    ) -> (loaded: Result<Baseline, PeakMemError>)
        ensures
            match read {
                Ok(baseline) => loaded == Ok::<Baseline, PeakMemError>(baseline),
                Err(StorageFailure::Missing) => loaded matches Err(PeakMemError::NotFound(n)) && n@
                    == name@,
                Err(StorageFailure::Unreadable(reason)) => loaded matches Err(PeakMemError::Io(r))
                    && r@ == reason@,
                Err(StorageFailure::Malformed(reason)) => loaded matches Err(
                    PeakMemError::Serialization(r),
                ) && r@ == "Failed to parse baseline: "@ + reason@,
            },
    {
        match read {
            Ok(baseline) => Ok(baseline),
            Err(StorageFailure::Missing) => Err(PeakMemError::NotFound(name.to_owned())),
            Err(StorageFailure::Unreadable(reason)) => Err(PeakMemError::Io(reason)),
            Err(StorageFailure::Malformed(reason)) => {
                let mut message = "Failed to parse baseline: ".to_owned();
                message.append(reason.as_str());
                Err(PeakMemError::Serialization(message))
            },
        }
    }

    /// The outcome of deleting the baseline `name`, given what removing
    /// its file gave: success, `NotFound` with the name where the file
    /// does not exist, and the failure otherwise.
    pub fn delete_baseline(
        &self,
        name: &str,
        removed: Result<(), StorageFailure>,
    ) -> (deleted: Result<(), PeakMemError>)
        ensures
            match removed {
                Ok(_) => deleted is Ok,
                Err(StorageFailure::Missing) => deleted matches Err(PeakMemError::NotFound(n)) && n@
                    == name@,
                Err(StorageFailure::Unreadable(reason)) => deleted matches Err(PeakMemError::Io(r))
                    && r@ == reason@,
                Err(StorageFailure::Malformed(reason)) => deleted matches Err(PeakMemError::Io(r))
                    && r@ == reason@,
            },
    {
        match removed {
            Ok(_) => Ok(()),
            Err(StorageFailure::Missing) => Err(PeakMemError::NotFound(name.to_owned())),
            Err(StorageFailure::Unreadable(reason)) => Err(PeakMemError::Io(reason)),
            Err(StorageFailure::Malformed(reason)) => Err(PeakMemError::Io(reason)),
        }
    }

    /// The names of the saved baselines, sorted, given the names of the
    /// files found in the directory: the stem of each file whose
    /// extension is `json`.
    pub fn list_baselines(&self, file_names: &Vec<String>) -> (names: Vec<String>)
        ensures
            in_order(texts(names@)),
            texts(names@).to_multiset() == stems_of(texts(file_names@)).to_multiset(),
    {
        let mut stems: Vec<String> = Vec::new();
        let mut i: usize = 0;
        proof {
            assert(texts(file_names@).take(0) =~= Seq::<Seq<char>>::empty());
            assert(texts(stems@) =~= Seq::<Seq<char>>::empty());
        }
        while i < file_names.len()
            invariant
                i <= file_names.len(),
                texts(stems@) == stems_of(texts(file_names@).take(i as int)),
            decreases file_names.len() - i,
        {
            let ghost stems_before = stems@;
            match baseline_stem(file_names[i].as_str()) {
                Some(found) => {
                    stems.push(found);
                    assert(texts(stems@) =~= texts(stems_before).push(found@));
                },
                None => {},
            }
            proof {
                let upto = texts(file_names@).take(i + 1);
                assert(upto.drop_last() =~= texts(file_names@).take(i as int));
                assert(upto.last() == file_names[i as int]@);
            }
            i += 1;
        }
        assert(texts(file_names@).take(file_names.len() as int) =~= texts(file_names@));
        sort_strings(stems)
    }

    /// Compares a run against the baseline that loading gave. A load that
    /// failed fails the comparison with the same error.
    pub fn compare(
        &self,
        loaded: Result<Baseline, PeakMemError>,
        current: &MonitorResult,
        threshold_percent: PercentThreshold,
    ) -> (outcome: Result<ComparisonResult, PeakMemError>)
        ensures
            match loaded {
                Ok(baseline) => outcome matches Ok(c) && c@ == comparison(
                    baseline@,
                    current@,
                    threshold_percent,
                ) && c.rss_diff_percent.wf() && c.vsz_diff_percent.wf()
                    && c.duration_diff_percent.wf(),
                Err(e) => outcome matches Err(same) && same == e,
            },
    {
        match loaded {
            Ok(baseline) => Ok(ComparisonResult::new(baseline, current.clone(), threshold_percent)),
            Err(e) => Err(e),
        }
    }
}

/// The stem of a file name that names a baseline file, `None` for any
/// other file name.
pub fn baseline_stem(file_name: &str) -> (found: Option<String>)
    ensures
        match found {
            Some(s) => is_baseline_file(file_name@) && s@ == stem(file_name@),
            None => !is_baseline_file(file_name@),
        },
{
    let chars = chars_of(file_name);
    let n = chars.len();
    proof {
        reveal_strlit(".json");
    }
    if n <= 5 {
        return None;
    }
    let ghost tail = file_name@.skip(n - 5);
    assert(tail.len() == 5);
    assert(tail[0] == chars[n - 5]);
    assert(tail[1] == chars[n - 4]);
    assert(tail[2] == chars[n - 3]);
    assert(tail[3] == chars[n - 2]);
    assert(tail[4] == chars[n - 1]);
    if chars[n - 5] != '.' || chars[n - 4] != 'j' || chars[n - 3] != 's' || chars[n - 2] != 'o'
        || chars[n - 1] != 'n' {
        return None;
    }
    assert(tail =~= ".json"@);
    let mut kept: Vec<char> = Vec::new();
    let mut i: usize = 0;
    while i < n - 5
        invariant
            n == chars.len(),
            n > 5,
            i <= n - 5,
            kept@ == chars@.take(i as int),
        decreases n - 5 - i,
    {
        kept.push(chars[i]);
        assert(kept@ =~= chars@.take(i + 1));
        i += 1;
    }
    Some(text_of(&kept))
}

/// A baseline saved under a name that is not empty is found again when
/// the directory is listed, under its sanitized name.
pub proof fn lemma_saved_is_listed(name: Seq<char>)
    requires
        name.len() > 0,
    ensures
        is_baseline_file(sanitized(name) + ".json"@),
        stem(sanitized(name) + ".json"@) == sanitized(name),
{
    reveal_strlit(".json");
    let file_name = sanitized(name) + ".json"@;
    assert(file_name.skip(file_name.len() - 5) =~= ".json"@);
    assert(file_name.take(file_name.len() - 5) =~= sanitized(name));
}

/// A baseline that is still being written is never listed: the name of
/// its temporary file is not that of a baseline file.
pub proof fn lemma_temp_file_is_not_listed(name: Seq<char>)
    ensures
        !is_baseline_file(sanitized(name) + ".json"@ + ".tmp"@),
{
    reveal_strlit(".json");
    reveal_strlit(".tmp");
    let file_name = sanitized(name) + ".json"@ + ".tmp"@;
    let tail = file_name.skip(file_name.len() - 5);
    assert(tail[4] == 'p');
    assert(".json"@[4] == 'n');
}

} // verus!

use peak_mem::monitor::tracker::{MemoryTracker, Sample};
use peak_mem::monitor::MemoryMonitor;
use peak_mem::types::{MemoryUsage, PeakMemError, ProcessMemoryInfo, Timestamp};
use std::cell::{Cell, RefCell};
use std::collections::VecDeque;

fn at(secs: i64) -> Timestamp {
    Timestamp { secs, nanos: 0 }
}

fn usage(rss: u64, vsz: u64, secs: i64) -> MemoryUsage {
    MemoryUsage { rss_bytes: rss, vsz_bytes: vsz, timestamp: at(secs) }
}

fn node(pid: u32, rss: u64, vsz: u64, secs: i64, children: Vec<ProcessMemoryInfo>)
    -> ProcessMemoryInfo {
    ProcessMemoryInfo { pid, name: format!("p{}", pid), memory: usage(rss, vsz, secs), children }
}

/// A probe that is never asked.
struct Silent;

impl MemoryMonitor for Silent {
    fn get_memory_usage(&self, pid: u32) -> Result<MemoryUsage, PeakMemError> {
        panic!("unexpected query for {}", pid)
    }

    fn get_process_name(&self, pid: u32) -> String {
        panic!("unexpected query for {}", pid)
    }

    fn get_child_pids(&self, pid: u32) -> Result<Vec<u32>, PeakMemError> {
        panic!("unexpected query for {}", pid)
    }
}

/// A probe of one process whose readings are scripted: each query takes
/// the next one, and the process has exited when none is left.
struct Scripted {
    pid: u32,
    readings: RefCell<VecDeque<(u64, u64)>>,
    children: Vec<(u32, u64, u64)>,
    calls: Cell<u64>,
}

impl Scripted {
    fn new(pid: u32, readings: &[(u64, u64)]) -> Self {
        Scripted {
            pid,
            readings: RefCell::new(readings.iter().copied().collect()),
            children: vec![],
            calls: Cell::new(0),
        }
    }
}

impl MemoryMonitor for Scripted {
    fn get_memory_usage(&self, pid: u32) -> Result<MemoryUsage, PeakMemError> {
        if pid == self.pid {
            self.calls.set(self.calls.get() + 1);
            match self.readings.borrow_mut().pop_front() {
                Some((rss, vsz)) => Ok(usage(rss, vsz, self.calls.get() as i64)),
                None => Err(PeakMemError::ProcessNotFound(format!("Process {} not found", pid))),
            }
        } else {
            match self.children.iter().find(|c| c.0 == pid) {
                Some(&(_, rss, vsz)) => Ok(usage(rss, vsz, 0)),
                None => Err(PeakMemError::ProcessNotFound(format!("Process {} not found", pid))),
            }
        }
    }

    fn get_process_name(&self, pid: u32) -> String {
        format!("p{}", pid)
    }

    fn get_child_pids(&self, pid: u32) -> Result<Vec<u32>, PeakMemError> {
        if pid == self.pid {
            Ok(self.children.iter().map(|c| c.0).collect())
        } else {
            Ok(vec![])
        }
    }
}

#[test]
fn a_fresh_tracker_has_seen_nothing() {
    let tracker = MemoryTracker::new(Silent, 42, true);
    assert_eq!(tracker.pid(), 42);
    assert!(!tracker.is_running());
    assert_eq!(tracker.peak_rss(), 0);
    assert_eq!(tracker.peak_vsz(), 0);
    assert_eq!(tracker.sample_count(), 0);
    assert!(tracker.timeline().is_empty());
    assert!(matches!(tracker.get_process_tree(), Err(PeakMemError::NoTreeAvailable)));
}

#[test]
fn peaks_are_the_maximum_of_all_samples() {
    let mut tracker = MemoryTracker::new(Silent, 1, false);
    let samples = [(10, 500), (30, 100), (20, 900), (30, 50), (5, 5)];
    let mut last = (0, 0);
    for (i, &(rss, vsz)) in samples.iter().enumerate() {
        assert!(tracker.record(Ok(Sample::Usage(usage(rss, vsz, i as i64)))));
        assert!(tracker.peak_rss() >= last.0);
        assert!(tracker.peak_vsz() >= last.1);
        last = (tracker.peak_rss(), tracker.peak_vsz());
    }
    assert_eq!(tracker.peak_rss(), 30);
    assert_eq!(tracker.peak_vsz(), 900);
    assert_eq!(tracker.sample_count(), 5);
    let timeline = tracker.timeline();
    assert_eq!(timeline.len(), 5);
    for (i, &(rss, vsz)) in samples.iter().enumerate() {
        assert_eq!((timeline[i].rss_bytes, timeline[i].vsz_bytes), (rss, vsz));
        assert_eq!(timeline[i].timestamp, at(i as i64));
    }
}

#[test]
fn peaks_do_not_depend_on_the_order_of_the_samples() {
    let samples = [(7, 70), (3, 90), (9, 10), (9, 20), (1, 1)];
    let orders: [[usize; 5]; 4] = [[0, 1, 2, 3, 4], [4, 3, 2, 1, 0], [2, 0, 4, 1, 3],
        [3, 4, 0, 2, 1]];
    for order in orders.iter() {
        let mut tracker = MemoryTracker::new(Silent, 1, false);
        for &i in order.iter() {
            tracker.record(Ok(Sample::Usage(usage(samples[i].0, samples[i].1, 0))));
        }
        assert_eq!((tracker.peak_rss(), tracker.peak_vsz(), tracker.sample_count()), (9, 90, 5));
    }
}

#[test]
fn a_failed_probe_call_is_no_sample() {
    let mut tracker = MemoryTracker::new(Silent, 1, false);
    assert!(tracker.record(Ok(Sample::Usage(usage(10, 20, 1)))));
    assert!(!tracker.record(Err(PeakMemError::ProcessNotFound("Process 1 not found".to_string()))));
    assert!(!tracker.record(Err(PeakMemError::PermissionDenied("Cannot access process 1".to_string()))));
    assert_eq!(tracker.sample_count(), 1);
    assert_eq!((tracker.peak_rss(), tracker.peak_vsz()), (10, 20));
    assert_eq!(tracker.timeline().len(), 1);
    assert!(tracker.record(Ok(Sample::Usage(usage(0, 0, 2)))));
    assert_eq!(tracker.sample_count(), 2);
    assert_eq!((tracker.peak_rss(), tracker.peak_vsz()), (10, 20));
}

#[test]
fn a_tree_sample_is_reduced_by_its_totals() {
    let mut tracker = MemoryTracker::new(Silent, 1, true);
    let tree = node(1, 100, 1000, 7, vec![node(2, 20, 200, 8, vec![node(3, 3, 30, 9, vec![])])]);
    assert!(tracker.record(Ok(Sample::Tree(tree))));
    assert_eq!(tracker.peak_rss(), 123);
    assert_eq!(tracker.peak_vsz(), 1230);
    assert_eq!(tracker.sample_count(), 1);
    let timeline = tracker.timeline();
    assert_eq!((timeline[0].rss_bytes, timeline[0].vsz_bytes), (123, 1230));
    assert_eq!(timeline[0].timestamp, at(7));
    let held = tracker.get_process_tree().unwrap();
    assert_eq!(held.pid, 1);
    assert_eq!(held.children[0].children[0].pid, 3);
}

#[test]
fn the_tree_is_replaced_only_by_a_strictly_higher_resident_total() {
    let mut tracker = MemoryTracker::new(Silent, 1, true);
    tracker.record(Ok(Sample::Tree(node(1, 50, 10, 0, vec![node(10, 50, 10, 0, vec![])]))));
    assert_eq!(tracker.get_process_tree().unwrap().children[0].pid, 10);

    // A tie does not replace the tree.
    tracker.record(Ok(Sample::Tree(node(1, 100, 10, 1, vec![node(11, 0, 0, 1, vec![])]))));
    assert_eq!(tracker.peak_rss(), 100);
    assert_eq!(tracker.get_process_tree().unwrap().children[0].pid, 10);

    // A lower total does not replace it, and its higher virtual total still counts.
    tracker.record(Ok(Sample::Tree(node(1, 99, 5000, 2, vec![node(12, 0, 0, 2, vec![])]))));
    assert_eq!(tracker.peak_rss(), 100);
    assert_eq!(tracker.peak_vsz(), 5000);
    assert_eq!(tracker.get_process_tree().unwrap().children[0].pid, 10);

    // A strictly higher total replaces it; the virtual peak stays the maximum.
    tracker.record(Ok(Sample::Tree(node(1, 101, 1, 3, vec![node(13, 0, 0, 3, vec![])]))));
    assert_eq!(tracker.peak_rss(), 101);
    assert_eq!(tracker.peak_vsz(), 5000);
    assert_eq!(tracker.get_process_tree().unwrap().children[0].pid, 13);
    assert_eq!(tracker.sample_count(), 4);
}

#[test]
fn the_first_tree_is_held_even_when_it_weighs_nothing() {
    let mut tracker = MemoryTracker::new(Silent, 1, true);
    assert!(tracker.record(Ok(Sample::Tree(node(1, 0, 0, 0, vec![])))));
    assert_eq!(tracker.peak_rss(), 0);
    assert_eq!(tracker.get_process_tree().unwrap().pid, 1);
}

#[test]
fn a_tree_whose_totals_overflow_is_no_sample() {
    let mut tracker = MemoryTracker::new(Silent, 1, true);
    tracker.record(Ok(Sample::Tree(node(1, 5, 6, 0, vec![]))));
    let too_big = node(1, u64::MAX, 0, 1, vec![node(2, 1, 0, 1, vec![])]);
    assert!(!tracker.record(Ok(Sample::Tree(too_big))));
    assert_eq!((tracker.peak_rss(), tracker.peak_vsz(), tracker.sample_count()), (5, 6, 1));
    assert_eq!(tracker.timeline().len(), 1);
}

#[test]
fn without_descendants_no_tree_is_held() {
    let mut tracker = MemoryTracker::new(Silent, 1, false);
    tracker.record(Ok(Sample::Usage(usage(10, 20, 0))));
    assert!(matches!(tracker.get_process_tree(), Err(PeakMemError::NoTreeAvailable)));
}

#[test]
fn start_takes_the_first_sample_at_once() {
    let mut tracker = MemoryTracker::new(Scripted::new(9, &[(11, 22), (33, 44)]), 9, false);
    tracker.start();
    assert!(tracker.is_running());
    assert_eq!(tracker.sample_count(), 1);
    assert_eq!((tracker.peak_rss(), tracker.peak_vsz()), (11, 22));
    assert!(tracker.tick());
    assert_eq!(tracker.sample_count(), 2);
    assert_eq!((tracker.peak_rss(), tracker.peak_vsz()), (33, 44));
    // The process has exited: the loop ends, and the failure is not a sample.
    assert!(!tracker.tick());
    assert_eq!(tracker.sample_count(), 2);
    assert!(tracker.is_running());
}

#[test]
fn the_sample_count_is_the_number_of_successful_probe_calls() {
    let readings: Vec<(u64, u64)> = (1..=25).map(|i| (i * 3 % 17, i * 5 % 13)).collect();
    let mut tracker = MemoryTracker::new(Scripted::new(9, &readings), 9, false);
    tracker.start();
    let mut turns = 0;
    while tracker.tick() {
        turns += 1;
    }
    assert_eq!(turns, 24);
    assert_eq!(tracker.sample_count(), 25);
    assert_eq!(tracker.timeline().len(), 25);
    assert_eq!(tracker.peak_rss(), readings.iter().map(|r| r.0).max().unwrap());
    assert_eq!(tracker.peak_vsz(), readings.iter().map(|r| r.1).max().unwrap());
}

#[test]
fn a_failed_first_sample_is_passed_over() {
    let mut tracker = MemoryTracker::new(Scripted::new(9, &[]), 9, false);
    tracker.start();
    assert!(tracker.is_running());
    assert_eq!(tracker.sample_count(), 0);
    assert!(!tracker.tick());
    assert_eq!(tracker.sample_count(), 0);
}

#[test]
fn after_stop_nothing_changes() {
    let readings: Vec<(u64, u64)> = (1..=10).map(|i| (i, 100 - i)).collect();
    let mut tracker = MemoryTracker::new(Scripted::new(9, &readings), 9, false);
    tracker.start();
    assert!(tracker.tick());
    assert!(tracker.tick());
    tracker.stop();
    assert!(!tracker.is_running());
    let seen = (tracker.peak_rss(), tracker.peak_vsz(), tracker.sample_count(),
        tracker.timeline().len());
    assert_eq!(seen, (3, 99, 3, 3));
    for _ in 0..5 {
        assert!(!tracker.tick());
        assert_eq!(
            (tracker.peak_rss(), tracker.peak_vsz(), tracker.sample_count(),
                tracker.timeline().len()),
            seen
        );
    }
}

#[test]
fn tracking_descendants_samples_the_whole_tree() {
    let mut probe = Scripted::new(9, &[(100, 1000), (50, 5000)]);
    probe.children = vec![(10, 7, 70), (11, 8, 80)];
    let mut tracker = MemoryTracker::new(probe, 9, true);
    tracker.start();
    assert_eq!((tracker.peak_rss(), tracker.peak_vsz()), (115, 1150));
    let tree = tracker.get_process_tree().unwrap();
    assert_eq!(tree.pid, 9);
    assert_eq!(tree.name, "p9");
    assert_eq!(tree.children.len(), 2);
    assert_eq!((tree.children[0].pid, tree.children[1].pid), (10, 11));
    assert!(tracker.tick());
    assert_eq!((tracker.peak_rss(), tracker.peak_vsz()), (115, 5150));
    let timeline = tracker.timeline();
    assert_eq!((timeline[1].rss_bytes, timeline[1].vsz_bytes), (65, 5150));
    assert_eq!(timeline[1].timestamp, at(2));
    assert_eq!(tracker.get_process_tree().unwrap().memory.rss_bytes, 100);
    assert!(!tracker.tick());
}

#[test]
fn the_tree_totals_are_added_to_the_accumulators() {
    let tree = node(1, 1000, 2000, 0,
        vec![node(2, 100, 200, 0, vec![]), node(3, 10, 20, 0, vec![])]);
    let mut rss = 0u64;
    let mut vsz = 0u64;
    MemoryTracker::<Silent>::sum_tree_memory(&tree, &mut rss, &mut vsz);
    assert_eq!((rss, vsz), (1110, 2220));
    MemoryTracker::<Silent>::sum_tree_memory(&tree, &mut rss, &mut vsz);
    assert_eq!((rss, vsz), (2220, 4440));
}

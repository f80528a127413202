use peak_mem::application::{Application, BaselineOnly};
use peak_mem::baseline::PercentThreshold;
use peak_mem::cli::Cli;
use peak_mem::monitor::tracker::{MemoryTracker, Sample};
use peak_mem::monitor::MemoryMonitor;
use peak_mem::types::{MemoryUsage, MonitorResult, PeakMemError, ProcessMemoryInfo, Timestamp};

struct Silent;

impl MemoryMonitor for Silent {
    fn get_memory_usage(&self, pid: u32) -> Result<MemoryUsage, PeakMemError> {
        panic!("unexpected query for {}", pid)
    }

    fn get_process_name(&self, pid: u32) -> String {
        panic!("unexpected query for {}", pid)
    }

    fn get_child_pids(&self, pid: u32) -> Result<Vec<u32>, PeakMemError> {
        panic!("unexpected query for {}", pid)
    }
}

fn at(secs: i64) -> Timestamp {
    Timestamp { secs, nanos: 0 }
}

fn settings() -> Cli {
    Cli {
        command: vec!["true".to_string()],
        json: false,
        csv: false,
        quiet: false,
        verbose: false,
        watch: false,
        threshold: None,
        no_children: false,
        timeline: None,
        interval: 100,
        units: None,
        save_baseline: None,
        compare_baseline: None,
        regression_threshold: PercentThreshold::from_whole(10),
        baseline_dir: None,
        list_baselines: false,
        delete_baseline: None,
        short_version: false,
        long_version: false,
    }
}

fn application(change: impl FnOnce(&mut Cli)) -> Application {
    let mut cli = settings();
    change(&mut cli);
    Application::new(cli, "cache/peak-mem/baselines".to_string())
}

fn finished(exit_code: Option<i32>, threshold_exceeded: bool) -> MonitorResult {
    MonitorResult {
        command: "true".to_string(),
        peak_rss_bytes: 1,
        peak_vsz_bytes: 2,
        duration_ms: 3,
        exit_code,
        threshold_exceeded,
        timestamp: at(0),
        process_tree: None,
        timeline: None,
        start_time: None,
        sample_count: None,
        main_pid: None,
    }
}

fn tree(rss: u64) -> ProcessMemoryInfo {
    ProcessMemoryInfo {
        pid: 7,
        name: "seven".to_string(),
        memory: MemoryUsage { rss_bytes: rss, vsz_bytes: rss * 2, timestamp: at(1) },
        children: vec![],
    }
}

#[test]
fn the_baseline_directory_is_the_named_one_or_the_default() {
    let default = application(|_| {});
    assert_eq!(default.baseline_manager.baselines_dir(), "cache/peak-mem/baselines");
    let named = application(|cli| cli.baseline_dir = Some("/srv/baselines".to_string()));
    assert_eq!(named.baseline_manager.baselines_dir(), "/srv/baselines");
    assert_eq!(named.args.interval, 100);
}

#[test]
fn listing_comes_before_deleting_and_running() {
    assert!(matches!(application(|_| {}).handle_baseline_only_operations(), BaselineOnly::Run));
    assert!(matches!(
        application(|cli| cli.list_baselines = true).handle_baseline_only_operations(),
        BaselineOnly::List
    ));
    assert!(matches!(
        application(|cli| cli.delete_baseline = Some("old".to_string())).handle_baseline_only_operations(),
        BaselineOnly::Delete(name) if name == "old"
    ));
    assert!(matches!(
        application(|cli| {
            cli.list_baselines = true;
            cli.delete_baseline = Some("old".to_string());
        })
        .handle_baseline_only_operations(),
        BaselineOnly::List
    ));
}

#[test]
fn the_saved_baselines_are_listed_one_per_line() {
    let app = application(|_| {});
    assert_eq!(app.list_baselines(&vec![]), vec!["No baselines found."]);
    assert_eq!(
        app.list_baselines(&vec!["a".to_string(), "test1".to_string()]),
        vec!["Saved baselines:", "  a", "  test1"]
    );
}

#[test]
fn the_threshold_is_exceeded_only_above_it() {
    let none = application(|_| {});
    assert!(!none.check_threshold(u64::MAX));
    let limited = application(|cli| cli.threshold = Some(1_000));
    assert!(!limited.check_threshold(999));
    assert!(!limited.check_threshold(1_000));
    assert!(limited.check_threshold(1_001));
    let zero = application(|cli| cli.threshold = Some(0));
    assert!(!zero.check_threshold(0));
    assert!(zero.check_threshold(1));
}

#[test]
fn verbose_data_is_handed_on_only_with_verbose() {
    let plain = application(|_| {});
    assert_eq!(plain.get_verbose_data(at(9), 5, 77), (None, None, None));
    let verbose = application(|cli| cli.verbose = true);
    assert_eq!(verbose.get_verbose_data(at(9), 5, 77), (Some(at(9)), Some(5), Some(77)));
}

#[test]
fn exit_codes() {
    let app = application(|_| {});
    assert_eq!(app.handle_normal_output(&finished(Some(0), false)), Some(0));
    assert_eq!(app.handle_normal_output(&finished(Some(3), false)), Some(3));
    assert_eq!(app.handle_normal_output(&finished(None, false)), None);
    assert_eq!(app.handle_normal_output(&finished(Some(0), true)), Some(1));
    assert_eq!(app.handle_normal_output(&finished(None, true)), Some(1));
    assert_eq!(app.handle_comparison(false, &finished(Some(0), true)), Some(0));
    assert_eq!(app.handle_comparison(false, &finished(Some(9), false)), Some(9));
    assert_eq!(app.handle_comparison(false, &finished(None, false)), None);
    assert_eq!(app.handle_comparison(true, &finished(Some(0), false)), Some(1));
    assert_eq!(app.handle_comparison(true, &finished(None, false)), Some(1));
}

#[test]
fn a_plain_summary_holds_the_peaks_only() {
    let mut tracker = MemoryTracker::new(Silent, 7, true);
    tracker.record(Ok(Sample::Tree(tree(500))));
    tracker.record(Ok(Sample::Tree(tree(300))));
    let app = application(|cli| cli.threshold = Some(499));
    let (result, warning) =
        app.build_monitor_result("make all".to_string(), &tracker, 1234, at(10), at(20), Some(2),
            7);
    assert!(warning.is_none());
    assert_eq!(result.command, "make all");
    assert_eq!(result.peak_rss_bytes, 500);
    assert_eq!(result.peak_vsz_bytes, 1000);
    assert_eq!(result.duration_ms, 1234);
    assert_eq!(result.exit_code, Some(2));
    assert!(result.threshold_exceeded);
    assert_eq!(result.timestamp, at(20));
    assert!(result.process_tree.is_none());
    assert!(result.timeline.is_none());
    assert_eq!(result.start_time, None);
    assert_eq!(result.sample_count, None);
    assert_eq!(result.main_pid, None);
}

#[test]
fn a_verbose_summary_holds_the_tree_and_the_counts() {
    let mut tracker = MemoryTracker::new(Silent, 7, true);
    tracker.record(Ok(Sample::Tree(tree(500))));
    tracker.record(Ok(Sample::Tree(tree(300))));
    let app = application(|cli| {
        cli.verbose = true;
        cli.timeline = Some("timeline.json".to_string());
        cli.threshold = Some(500);
    });
    let (result, warning) =
        app.build_monitor_result("make all".to_string(), &tracker, 1234, at(10), at(20), None, 7);
    assert!(warning.is_none());
    assert!(!result.threshold_exceeded);
    assert_eq!(result.process_tree.as_ref().unwrap().memory.rss_bytes, 500);
    let timeline = result.timeline.as_ref().unwrap();
    assert_eq!(timeline.iter().map(|m| m.rss_bytes).collect::<Vec<_>>(), vec![500, 300]);
    assert_eq!(result.start_time, Some(at(10)));
    assert_eq!(result.sample_count, Some(2));
    assert_eq!(result.main_pid, Some(7));
    assert_eq!(result.exit_code, None);
}

#[test]
fn a_missing_tree_is_a_warning() {
    let tracker = MemoryTracker::new(Silent, 7, true);
    let app = application(|cli| cli.verbose = true);
    let (result, warning) =
        app.build_monitor_result("true".to_string(), &tracker, 0, at(10), at(20), Some(0), 7);
    assert!(result.process_tree.is_none());
    assert!(matches!(warning, Some(PeakMemError::NoTreeAvailable)));
    assert_eq!(result.sample_count, Some(0));

    let alone = application(|cli| {
        cli.verbose = true;
        cli.no_children = true;
    });
    let (found, warning) = alone.get_process_tree_if_verbose(&tracker);
    assert!(found.is_none());
    assert!(warning.is_none());
    assert!(alone.get_timeline_if_requested(&tracker).is_none());
}

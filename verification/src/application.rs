//! The decisions of one run: what is asked of the tracker, how the final
//! summary is put together, and which exit code the run ends with.

use vstd::prelude::*;
use vstd::string::*;
use crate::baseline::BaselineManager;
use crate::cli::Cli;
use crate::monitor::tracker::MemoryTracker;
use crate::monitor::MemoryMonitor;
use crate::text::texts;
use crate::types::{
    timeline_view, tree_view, MemoryUsage, MonitorResult, PeakMemError, ProcessMemoryInfo,
        Timestamp,
};

verus! {

/// What a run is asked to do with the baselines before, or in place of,
/// running a command.
#[derive(Debug)]
pub enum BaselineOnly {
    /// List the saved baselines, and run nothing.
    List,
    /// Delete the baseline of this name, and run nothing.
    Delete(String),
    /// Neither: run the command.
    Run,
}

/// The settings of a run, and the baselines it works on.
#[derive(Debug)]
pub struct Application {
    pub args: Cli,
    pub baseline_manager: BaselineManager,
}

/// The lines that list the saved baselines: one line that says there are
/// none, or a heading followed by each name, indented by two spaces.
pub open spec fn listing_of(names: Seq<Seq<char>>) -> Seq<Seq<char>> {
    if names.len() == 0 {
        seq!["No baselines found."@]
    } else {
        seq!["Saved baselines:"@] + names.map_values(|name: Seq<char>| "  "@ + name)
    }
}

impl Application {
    /// The directory that holds the baselines: the one the settings name,
    /// or `default_dir` where they name none.
    pub fn baseline_dir(args: &Cli, default_dir: String) -> (dir: String)
        ensures
            match args.baseline_dir {
                Some(named) => dir@ == named@,
                None => dir@ == default_dir@,
            },
    {
        match &args.baseline_dir {
            Some(named) => named.clone(),
            None => default_dir,
        }
    }

    /// An application with these settings, working on the baselines of
    /// the directory that `baseline_dir` chooses.
    pub fn new(args: Cli, default_dir: String) -> (application: Self)
        ensures
            application.args == args,
            match args.baseline_dir {
                Some(named) => application.baseline_manager.dir() == named@,
                None => application.baseline_manager.dir() == default_dir@,
            },
    {
        let dir = Application::baseline_dir(&args, default_dir);
        Application { args, baseline_manager: BaselineManager::new(dir) }
    }

    /// Which of the operations that run no command is asked for: listing
    /// comes before deleting.
    pub fn handle_baseline_only_operations(&self) -> (operation: BaselineOnly)
        ensures
            self.args.list_baselines ==> operation is List,
            !self.args.list_baselines ==> match self.args.delete_baseline {
                Some(name) => operation matches BaselineOnly::Delete(n) && n@ == name@,
                None => operation is Run,
            },
    {
        if self.args.list_baselines {
            return BaselineOnly::List;
        }
        match &self.args.delete_baseline {
            Some(name) => BaselineOnly::Delete(name.clone()),
            None => BaselineOnly::Run,
        }
    }

    /// The lines that list the saved baselines.
    pub fn list_baselines(&self, names: &Vec<String>) -> (lines: Vec<String>)
        ensures
            texts(lines@) == listing_of(texts(names@)),
    {
        let mut lines: Vec<String> = Vec::new();
        if names.len() == 0 {
            lines.push("No baselines found.".to_owned());
            assert(texts(lines@) =~= listing_of(texts(names@)));
            return lines;
        }
        lines.push("Saved baselines:".to_owned());
        let mut i: usize = 0;
        assert(texts(lines@) =~= seq!["Saved baselines:"@] + texts(names@).take(0).map_values(
            |name: Seq<char>| "  "@ + name,
        ));
        while i < names.len()
            invariant
                i <= names.len(),
                names.len() > 0,
                texts(lines@)
                    == seq!["Saved baselines:"@] + texts(names@).take(i as int).map_values(
                    |name: Seq<char>| "  "@ + name,
                ),
            decreases names.len() - i,
        {
            let ghost before = lines@;
            let mut line = "  ".to_owned();
            line.append(names[i].as_str());
            lines.push(line);
            assert(texts(lines@) =~= texts(before).push(line@));
            assert(texts(lines@)
                =~= seq!["Saved baselines:"@] + texts(names@).take(i + 1).map_values(
                |name: Seq<char>| "  "@ + name,
            ));
            i += 1;
        }
        assert(texts(names@).take(names.len() as int) =~= texts(names@));
        lines
    }

    /// Whether the resident peak went over the threshold of the settings.
    /// Without a threshold nothing goes over it.
    pub fn check_threshold(&self, peak_rss_bytes: u64) -> (exceeded: bool)
        ensures
            exceeded == match self.args.threshold {
                Some(threshold) => peak_rss_bytes > threshold,
                None => false,
            },
    {
        match self.args.threshold {
            Some(threshold) => peak_rss_bytes > threshold,
            None => false,
        }
    }

    /// The process tree at the peak, where the settings ask for it: with
    /// `verbose`, and with descendants tracked. Where the tracker holds no
    /// tree the summary goes without one, and the error is handed back to
    /// be reported as a warning.
    pub fn get_process_tree_if_verbose<M: MemoryMonitor>(
        &self,
        tracker: &MemoryTracker<M>,
    ) -> (found: (Option<ProcessMemoryInfo>, Option<PeakMemError>))
        ensures
            tree_view(found.0) == (if self.args.verbose && !self.args.no_children {
                tracker@.peak_tree
            } else {
                None
            }),
            found.1 is Some
                <==> self.args.verbose && !self.args.no_children && tracker@.peak_tree is None,
            found.1 matches Some(e) ==> e is NoTreeAvailable,
    {
        if self.args.verbose && !self.args.no_children {
            match tracker.get_process_tree() {
                Ok(tree) => (Some(tree), None),
                Err(e) => (None, Some(e)),
            }
        } else {
            (None, None)
        }
    }

    /// The timeline, where the settings name a file to write it to.
    pub fn get_timeline_if_requested<M: MemoryMonitor>(
        &self,
        tracker: &MemoryTracker<M>,
    ) -> (timeline: Option<Vec<MemoryUsage>>)
        ensures
            timeline_view(timeline) == (if self.args.timeline is Some {
                Some(tracker@.timeline)
            } else {
                None
            }),
    {
        if self.args.timeline.is_some() {
            Some(tracker.timeline())
        } else {
            None
        }
    }

    /// The start time, the sample count and the pid, each handed on only
    /// with `verbose`.
    pub fn get_verbose_data(
        &self,
        start_timestamp: Timestamp,
        sample_count: u64,
        pid: u32,
    ) -> (data: (Option<Timestamp>, Option<u64>, Option<u32>))
        ensures
            self.args.verbose ==> data == (Some(start_timestamp), Some(sample_count), Some(pid)),
            !self.args.verbose ==> data == (None::<Timestamp>, None::<u64>, None::<u32>),
    {
        if self.args.verbose {
            (Some(start_timestamp), Some(sample_count), Some(pid))
        } else {
            (None, None, None)
        }
    }

    /// The final summary of a run, from what the tracker holds once
    /// sampling has ended, together with the warning to report where a
    /// process tree was asked for and none is held.
    pub fn build_monitor_result<M: MemoryMonitor>(
        &self,
        command: String,
        tracker: &MemoryTracker<M>,
        duration_ms: u64,
        start_timestamp: Timestamp,
        timestamp: Timestamp,
        exit_code: Option<i32>,
        pid: u32,
    ) -> (built: (MonitorResult, Option<PeakMemError>))
        ensures
            built.0@.command == command@,
            built.0@.peak_rss_bytes == tracker@.peak_rss,
            built.0@.peak_vsz_bytes == tracker@.peak_vsz,
            built.0@.duration_ms == duration_ms,
            built.0@.exit_code == exit_code,
            built.0@.threshold_exceeded == match self.args.threshold {
                Some(threshold) => tracker@.peak_rss > threshold,
                None => false,
            },
            built.0@.timestamp == timestamp,
            built.0@.process_tree == (if self.args.verbose && !self.args.no_children {
                tracker@.peak_tree
            } else {
                None
            }),
            built.0@.timeline == (if self.args.timeline is Some {
                Some(tracker@.timeline)
            } else {
                None
            }),
            built.0@.start_time == (if self.args.verbose {
                Some(start_timestamp)
            } else {
                None
            }),
            built.0@.sample_count == (if self.args.verbose {
                Some(tracker@.sample_count)
            } else {
                None
            }),
            built.0@.main_pid == (if self.args.verbose {
                Some(pid)
            } else {
                None
            }),
            built.1 is Some
                <==> self.args.verbose && !self.args.no_children && tracker@.peak_tree is None,
    {
        let peak_rss_bytes = tracker.peak_rss();
        let peak_vsz_bytes = tracker.peak_vsz();
        let threshold_exceeded = self.check_threshold(peak_rss_bytes);
        let (process_tree, warning) = self.get_process_tree_if_verbose(tracker);
        let timeline = self.get_timeline_if_requested(tracker);
        let (start_time, sample_count, main_pid) = self.get_verbose_data(
            start_timestamp,
            tracker.sample_count(),
            pid,
        );
        (
            MonitorResult {
                command,
                peak_rss_bytes,
                peak_vsz_bytes,
                duration_ms,
                exit_code,
                threshold_exceeded,
                timestamp,
                process_tree,
                timeline,
                start_time,
                sample_count,
                main_pid,
            },
            warning,
        )
    }

    /// The exit code after a comparison: 1 for a regression, else that of
    /// the monitored process.
    pub fn handle_comparison(
        &self,
        regression_detected: bool,
        result: &MonitorResult,
    ) -> (exit_code: Option<i32>)
        ensures
            regression_detected ==> exit_code == Some(1i32),
            !regression_detected ==> exit_code == result.exit_code,
    {
        if regression_detected {
            Some(1)
        } else {
            result.exit_code
        }
    }

    /// The exit code after a run without comparison: 1 where the
    /// threshold was exceeded, else that of the monitored process.
    pub fn handle_normal_output(&self, result: &MonitorResult) -> (exit_code: Option<i32>)
        ensures
            result.threshold_exceeded ==> exit_code == Some(1i32),
            !result.threshold_exceeded ==> exit_code == result.exit_code,
    {
        if result.threshold_exceeded {
            Some(1)
        } else {
            result.exit_code
        }
    }
}

} // verus!

use peak_mem::monitor::freebsd::{FreeBSDMonitor, ProcessInfo, TableEntry};
use peak_mem::monitor::linux::{LinuxMonitor, ProcFailure, ProcStat, ProcStatus};
use peak_mem::monitor::macos::{BsdInfo, MacOSMonitor};
use peak_mem::monitor::windows::WindowsMonitor;
use peak_mem::monitor::{
    create_monitor, get_process_tree, process_tree_within, push_child, MemoryMonitor,
        PlatformMonitor,
};
use peak_mem::types::{MemoryUsage, PeakMemError, ProcessMemoryInfo, Timestamp};
use std::cell::RefCell;

fn now() -> Timestamp {
    Timestamp { secs: 5, nanos: 6 }
}

/// A probe over a fixed process table: pid, parent, resident size.
/// Processes of the list `unreadable` are listed as children, and fail
/// when they are read themselves.
struct Table {
    rows: Vec<(u32, u32, u64)>,
    unreadable: Vec<u32>,
    unlistable: Vec<u32>,
    asked: RefCell<Vec<u32>>,
}

impl Table {
    fn new(rows: &[(u32, u32, u64)]) -> Self {
        Table { rows: rows.to_vec(), unreadable: vec![], unlistable: vec![],
            asked: RefCell::new(vec![]) }
    }
}

impl MemoryMonitor for Table {
    fn get_memory_usage(&self, pid: u32) -> Result<MemoryUsage, PeakMemError> {
        self.asked.borrow_mut().push(pid);
        if self.unreadable.contains(&pid) {
            return Err(PeakMemError::PermissionDenied(format!("Cannot access process {}", pid)));
        }
        match self.rows.iter().find(|r| r.0 == pid) {
            Some(r) => Ok(MemoryUsage { rss_bytes: r.2, vsz_bytes: r.2 * 10, timestamp: now() }),
            None => Err(PeakMemError::ProcessNotFound(format!("Process {} not found", pid))),
        }
    }

    fn get_process_name(&self, pid: u32) -> String {
        format!("proc-{}", pid)
    }

    fn get_child_pids(&self, pid: u32) -> Result<Vec<u32>, PeakMemError> {
        if self.unlistable.contains(&pid) {
            return Err(PeakMemError::ProbeFailure("Failed to get process list".to_string()));
        }
        Ok(self.rows.iter().filter(|r| r.1 == pid).map(|r| r.0).collect())
    }
}

fn pids(tree: &ProcessMemoryInfo) -> Vec<u32> {
    let mut all = vec![tree.pid];
    for child in &tree.children {
        all.extend(pids(child));
    }
    all
}

#[test]
fn the_tree_is_built_from_readings_and_children() {
    let table = Table::new(&[(1, 0, 10), (2, 1, 20), (3, 1, 30), (4, 2, 40), (5, 4, 50),
        (6, 9, 60)]);
    let tree = get_process_tree(&table, 1).unwrap();
    assert_eq!(tree.pid, 1);
    assert_eq!(tree.name, "proc-1");
    assert_eq!(tree.memory.rss_bytes, 10);
    assert_eq!(tree.memory.vsz_bytes, 100);
    assert_eq!(tree.memory.timestamp, now());
    assert_eq!(pids(&tree), vec![1, 2, 4, 5, 3]);
    assert_eq!(tree.children[0].children[0].children[0].memory.rss_bytes, 50);

    let leaf = get_process_tree(&table, 6).unwrap();
    assert_eq!(leaf.pid, 6);
    assert!(leaf.children.is_empty());
}

#[test]
fn a_root_that_cannot_be_read_fails_the_tree() {
    let table = Table::new(&[(1, 0, 10)]);
    assert!(matches!(get_process_tree(&table, 7), Err(PeakMemError::ProcessNotFound(_))));

    let mut denied = Table::new(&[(1, 0, 10)]);
    denied.unreadable = vec![1];
    assert!(matches!(get_process_tree(&denied, 1), Err(PeakMemError::PermissionDenied(_))));

    let mut unlistable = Table::new(&[(1, 0, 10)]);
    unlistable.unlistable = vec![1];
    assert!(matches!(get_process_tree(&unlistable, 1), Err(PeakMemError::ProbeFailure(_))));
}

#[test]
fn a_child_that_fails_is_left_out() {
    let mut table = Table::new(&[(1, 0, 10), (2, 1, 20), (3, 1, 30), (4, 2, 40), (5, 3, 50)]);
    table.unreadable = vec![2];
    let tree = get_process_tree(&table, 1).unwrap();
    // Process 2 is gone, and with it the subtree below it.
    assert_eq!(pids(&tree), vec![1, 3, 5]);

    let mut table = Table::new(&[(1, 0, 10), (2, 1, 20), (3, 1, 30), (4, 2, 40)]);
    table.unlistable = vec![2];
    let tree = get_process_tree(&table, 1).unwrap();
    assert_eq!(pids(&tree), vec![1, 3]);
}

#[test]
fn the_depth_bounds_the_exploration() {
    let table = Table::new(&[(1, 0, 10), (2, 1, 20), (3, 2, 30), (4, 3, 40)]);
    assert_eq!(pids(&process_tree_within(&table, 1, 0).unwrap()), vec![1]);
    assert_eq!(pids(&process_tree_within(&table, 1, 1).unwrap()), vec![1, 2]);
    assert_eq!(pids(&process_tree_within(&table, 1, 2).unwrap()), vec![1, 2, 3]);
    assert_eq!(pids(&process_tree_within(&table, 1, 3).unwrap()), vec![1, 2, 3, 4]);
    assert_eq!(pids(&process_tree_within(&table, 1, 100).unwrap()), vec![1, 2, 3, 4]);
}

#[test]
fn a_subtree_is_appended_and_a_failure_dropped() {
    let mut children: Vec<ProcessMemoryInfo> = vec![];
    let table = Table::new(&[(1, 0, 10), (2, 0, 20)]);
    push_child(&mut children, get_process_tree(&table, 1));
    push_child(&mut children, get_process_tree(&table, 99));
    push_child(&mut children, get_process_tree(&table, 2));
    assert_eq!(children.iter().map(|c| c.pid).collect::<Vec<_>>(), vec![1, 2]);
}

#[test]
fn the_monitor_is_chosen_by_platform() {
    assert!(matches!(create_monitor("linux"), Ok(PlatformMonitor::Linux(_))));
    assert!(matches!(create_monitor("macos"), Ok(PlatformMonitor::MacOS(_))));
    assert!(matches!(create_monitor("windows"), Ok(PlatformMonitor::Windows(_))));
    assert!(matches!(create_monitor("freebsd"), Ok(PlatformMonitor::FreeBSD(_))));
    assert!(matches!(
        create_monitor("solaris"),
        Err(PeakMemError::UnsupportedPlatform(os)) if os == "solaris"
    ));
    assert!(matches!(create_monitor("Linux"), Err(PeakMemError::UnsupportedPlatform(_))));
    assert!(matches!(create_monitor(""),
        Err(PeakMemError::UnsupportedPlatform(os)) if os.is_empty()));
}

#[test]
fn every_monitor_can_be_made() {
    assert!(LinuxMonitor::new().is_ok());
    assert!(MacOSMonitor::new().is_ok());
    assert!(WindowsMonitor::new().is_ok());
    assert!(FreeBSDMonitor::new().is_ok());
}

#[test]
fn windows_is_not_supported_yet() {
    let monitor = WindowsMonitor::new().unwrap();
    assert!(matches!(
        monitor.get_memory_usage(1),
        Err(PeakMemError::UnsupportedPlatform(m)) if m == "Windows support not yet implemented"
    ));
    assert!(matches!(
        monitor.get_child_pids(1),
        Err(PeakMemError::UnsupportedPlatform(m)) if m == "Windows support not yet implemented"
    ));
    assert!(matches!(get_process_tree(&monitor, 1), Err(PeakMemError::UnsupportedPlatform(_))));
    assert_eq!(monitor.get_process_name(17), "pid:17");
}

#[test]
fn linux_status_is_in_kibibytes() {
    let monitor = LinuxMonitor::new().unwrap();
    let status = ProcStatus { vmrss: Some(2048), vmsize: Some(4096) };
    assert_eq!(monitor.read_proc_status(1, Ok(status)).unwrap(), (2048 * 1024, 4096 * 1024));
    let usage = monitor.get_memory_usage(1, Ok(status), now()).unwrap();
    assert_eq!((usage.rss_bytes, usage.vsz_bytes, usage.timestamp), (2_097_152, 4_194_304, now()));

    let absent = ProcStatus { vmrss: None, vmsize: Some(1) };
    assert_eq!(monitor.read_proc_status(1, Ok(absent)).unwrap(), (0, 1024));
    let none = ProcStatus { vmrss: None, vmsize: None };
    assert_eq!(monitor.read_proc_status(1, Ok(none)).unwrap(), (0, 0));

    let largest = ProcStatus { vmrss: Some(u64::MAX / 1024), vmsize: Some(0) };
    assert_eq!(monitor.read_proc_status(1, Ok(largest)).unwrap(), (u64::MAX / 1024 * 1024, 0));
    let too_large = ProcStatus { vmrss: Some(u64::MAX / 1024 + 1), vmsize: Some(0) };
    assert!(matches!(
        monitor.read_proc_status(12, Ok(too_large)),
        Err(PeakMemError::ProbeFailure(m)) if m == "Process 12 reports a size beyond 64 bits"
    ));
    let too_large = ProcStatus { vmrss: Some(0), vmsize: Some(u64::MAX) };
    assert!(matches!(monitor.get_memory_usage(12, Ok(too_large), now()),
        Err(PeakMemError::ProbeFailure(_))));
}

#[test]
fn linux_failures_are_told_apart() {
    let monitor = LinuxMonitor::new().unwrap();
    assert!(matches!(
        monitor.read_proc_status(4242, Err(ProcFailure::NotFound)),
        Err(PeakMemError::ProcessNotFound(m)) if m == "Process 4242 not found"
    ));
    assert!(matches!(
        monitor.read_proc_status(1, Err(ProcFailure::PermissionDenied)),
        Err(PeakMemError::PermissionDenied(m)) if m == "Cannot access process 1"
    ));
    assert!(matches!(
        monitor.read_proc_status(0, Err(ProcFailure::Other("bad".to_string()))),
        Err(PeakMemError::ProbeFailure(m)) if m == "Failed to access process 0: bad"
    ));
    assert!(matches!(
        monitor.read_proc_status(u32::MAX, Err(ProcFailure::Status("eof".to_string()))),
        Err(PeakMemError::ProbeFailure(m)) if m == "Failed to read process 4294967295 status: eof"
    ));
    assert!(matches!(
        monitor.get_memory_usage(7, Err(ProcFailure::NotFound), now()),
        Err(PeakMemError::ProcessNotFound(_))
    ));
}

#[test]
fn linux_names_and_children() {
    let monitor = LinuxMonitor::new().unwrap();
    assert_eq!(monitor.get_process_name(5, Some("bash".to_string())), "bash");
    assert_eq!(monitor.get_process_name(5, None), "pid:5");
    assert_eq!(monitor.get_process_name(1234567890, None), "pid:1234567890");

    let table = vec![
        ProcStat { pid: 1, ppid: 0 },
        ProcStat { pid: 20, ppid: 10 },
        ProcStat { pid: 10, ppid: 1 },
        ProcStat { pid: 30, ppid: 10 },
        ProcStat { pid: 31, ppid: 30 },
        ProcStat { pid: -5, ppid: 10 },
    ];
    assert_eq!(monitor.get_child_pids(10, &table), vec![20, 30, (-5i32) as u32]);
    assert_eq!(monitor.get_child_pids(0, &table), vec![1]);
    assert_eq!(monitor.get_child_pids(31, &table), Vec::<u32>::new());
    assert_eq!(monitor.get_child_pids(10, &vec![]), Vec::<u32>::new());
    // A pid beyond the signed range is held against the parent as the kernel writes it.
    let wrapped = vec![ProcStat { pid: 7, ppid: -1 }];
    assert_eq!(monitor.get_child_pids(u32::MAX, &wrapped), vec![7]);
}

#[test]
fn macos_task_info() {
    let monitor = MacOSMonitor::new().unwrap();
    assert_eq!(monitor.get_memory_for_pid(1, 96, 1000, 2000).unwrap(), (1000, 2000));
    let usage = monitor.get_memory_usage(1, 1, 3, 4, now()).unwrap();
    assert_eq!((usage.rss_bytes, usage.vsz_bytes, usage.timestamp), (3, 4, now()));
    assert!(matches!(
        monitor.get_memory_for_pid(77, 0, 1000, 2000),
        Err(PeakMemError::PermissionDenied(m)) if m == "Cannot access process 77 memory info"
    ));
    assert!(matches!(
        monitor.get_memory_usage(77, -1, 1000, 2000, now()),
        Err(PeakMemError::PermissionDenied(_))
    ));
}

#[test]
fn macos_process_list() {
    let monitor = MacOSMonitor::new().unwrap();
    assert_eq!(monitor.listed_pids(4096, 4, "Failed to get process list size").unwrap(), 1024);
    assert_eq!(monitor.listed_pids(7, 4, "x").unwrap(), 1);
    assert_eq!(monitor.listed_pids(3, 4, "x").unwrap(), 0);
    assert!(matches!(
        monitor.listed_pids(0, 4, "Failed to get process list size"),
        Err(PeakMemError::ProbeFailure(m)) if m == "Failed to get process list size"
    ));
    assert!(matches!(
        monitor.listed_pids(-1, 4, "Failed to get process list"),
        Err(PeakMemError::ProbeFailure(m)) if m == "Failed to get process list"
    ));

    let listed = vec![
        BsdInfo { pid: 100, returned: 136, ppid: 50 },
        BsdInfo { pid: 0, returned: 136, ppid: 50 },
        BsdInfo { pid: 101, returned: 0, ppid: 50 },
        BsdInfo { pid: 102, returned: 136, ppid: 51 },
        BsdInfo { pid: 103, returned: 136, ppid: 50 },
        BsdInfo { pid: 104, returned: 135, ppid: 50 },
    ];
    assert_eq!(monitor.get_child_pids(50, &listed, 136), vec![100, 103]);
    assert_eq!(monitor.get_child_pids(51, &listed, 136), vec![102]);
    assert_eq!(monitor.get_child_pids(52, &listed, 136), Vec::<u32>::new());
    assert_eq!(monitor.get_child_pids(50, &listed, 135), vec![104]);
}

#[test]
fn macos_process_names() {
    let monitor = MacOSMonitor::new().unwrap();
    assert_eq!(monitor.get_process_name(9, 14, "/usr/bin/cargo"), "cargo");
    assert_eq!(monitor.get_process_name(9, 5, "cargo"), "cargo");
    assert_eq!(monitor.get_process_name(9, 5, "/usr/bin/"), "");
    assert_eq!(monitor.get_process_name(9, 5, "/"), "");
    assert_eq!(monitor.get_process_name(9, 5, ""), "");
    assert_eq!(monitor.get_process_name(9, 5, "/Applications/Ünï Cödé.app/Contents/MacOS/Ünï"),
        "Ünï");
    assert_eq!(monitor.get_process_name(9, 0, "/usr/bin/cargo"), "pid:9");
    assert_eq!(monitor.get_process_name(9, -3, ""), "pid:9");
}

#[test]
fn freebsd_table() {
    let monitor = FreeBSDMonitor::new().unwrap();
    assert!(monitor.refresh_process(3, true).is_ok());
    assert!(matches!(
        monitor.refresh_process(3, false),
        Err(PeakMemError::ProcessNotFound(m)) if m == "Process 3 not found"
    ));
    let info = || ProcessInfo { name: "sh".to_string(), rss_bytes: 10, vsz_bytes: 20 };
    let found = monitor.get_process_info(3, Some(info())).unwrap();
    assert_eq!((found.name.as_str(), found.rss_bytes, found.vsz_bytes), ("sh", 10, 20));
    assert!(matches!(
        monitor.get_process_info(3, None),
        Err(PeakMemError::ProcessNotFound(m)) if m == "Process 3 not found"
    ));
    let usage = monitor.get_memory_usage(3, true, Some(info()), now()).unwrap();
    assert_eq!((usage.rss_bytes, usage.vsz_bytes, usage.timestamp), (10, 20, now()));
    assert!(matches!(
        monitor.get_memory_usage(3, false, Some(info()), now()),
        Err(PeakMemError::ProcessNotFound(_))
    ));
    assert!(matches!(monitor.get_memory_usage(3, true, None, now()),
        Err(PeakMemError::ProcessNotFound(_))));

    assert_eq!(monitor.get_process_name(3, Some(info())), "sh");
    assert_eq!(monitor.get_process_name(3, None), "pid:3");

    let table = vec![
        TableEntry { pid: 1, parent: None },
        TableEntry { pid: 5, parent: Some(1) },
        TableEntry { pid: 3, parent: Some(2) },
        TableEntry { pid: 4, parent: Some(1) },
        TableEntry { pid: 0, parent: Some(0) },
    ];
    assert_eq!(monitor.get_child_pids(1, &table), vec![5, 4]);
    assert_eq!(monitor.get_child_pids(2, &table), vec![3]);
    assert_eq!(monitor.get_child_pids(0, &table), vec![0]);
    assert_eq!(monitor.get_child_pids(9, &table), Vec::<u32>::new());
}

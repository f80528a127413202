//! The rules of the Linux probe: what the figures of `/proc` mean, once
//! they were read.

use vstd::prelude::*;
use vstd::string::*;
use crate::text::{decimal, message_for_pid, message_with_pid};
use crate::types::{MemoryUsage, PeakMemError, Timestamp};

verus! {

/// The two figures of a process's status, in kibibytes, each absent where
/// the kernel does not report it.
#[derive(Clone, Copy, Debug)]
pub struct ProcStatus {
    pub vmrss: Option<u64>,
    pub vmsize: Option<u64>,
}

/// One line of the process table: a process and its parent.
#[derive(Clone, Copy, Debug)]
pub struct ProcStat {
    pub pid: i32,
    pub ppid: i32,
}

/// How reading a process's entry failed.
#[derive(Debug)]
pub enum ProcFailure {
    /// The process has no entry: it has exited.
    NotFound,
    /// The entry may not be read.
    PermissionDenied,
    /// The entry could not be opened for another reason.
    Other(String),
    /// The entry was opened, and its status could not be read.
    Status(String),
}

/// A figure in kibibytes, absent meaning zero, as bytes.
pub open spec fn kib_to_bytes(kib: Option<u64>) -> nat {
    match kib {
        Some(k) => k as nat * 1024,
        None => 0,
    }
}

/// The children of `pid` among the first `n` lines of a process table, in
/// the order of the table: the processes whose parent is `pid`.
pub open spec fn children_in(pid: u32, table: Seq<ProcStat>, n: nat) -> Seq<u32>
    decreases n,
{
    if n == 0 || n > table.len() {
        Seq::empty()
    } else if table[n - 1].ppid == pid as i32 {
        children_in(pid, table, (n - 1) as nat).push(table[n - 1].pid as u32)
    } else {
        children_in(pid, table, (n - 1) as nat)
    }
}

/// The Linux probe.
#[derive(Clone, Copy, Debug)]
pub struct LinuxMonitor;

impl LinuxMonitor {
    /// The probe. Nothing has to be set up, so this never fails.
    pub fn new() -> (monitor: Result<Self, PeakMemError>)
        ensures
            monitor is Ok,
    {
        Ok(LinuxMonitor)
    }

    /// Resident and virtual size in bytes from what reading a process's
    /// status gave. A process that has exited is `ProcessNotFound`, one
    /// that may not be read `PermissionDenied`; any other failure, and a
    /// figure too large for 64 bits, is `ProbeFailure`.
    pub fn read_proc_status(
        &self,
        pid: u32,
        status: Result<ProcStatus, ProcFailure>,
    ) -> (sizes: Result<(u64, u64), PeakMemError>)
        ensures
            match status {
                Ok(s) => if kib_to_bytes(s.vmrss) <= u64::MAX
                    && kib_to_bytes(s.vmsize) <= u64::MAX {
                    sizes matches Ok((rss, vsz)) && rss == kib_to_bytes(s.vmrss) && vsz
                        == kib_to_bytes(s.vmsize)
                } else {
                    sizes matches Err(PeakMemError::ProbeFailure(m)) && m@ == "Process "@ + decimal(
                        pid as nat,
                    ) + " reports a size beyond 64 bits"@
                },
                Err(ProcFailure::NotFound) => sizes matches Err(PeakMemError::ProcessNotFound(m))
                    && m@ == "Process "@ + decimal(pid as nat) + " not found"@,
                Err(ProcFailure::PermissionDenied) => sizes matches Err(
                    PeakMemError::PermissionDenied(m),
                ) && m@ == "Cannot access process "@ + decimal(pid as nat),
                Err(ProcFailure::Other(reason)) => sizes matches Err(PeakMemError::ProbeFailure(m))
                    && m@ == "Failed to access process "@ + decimal(pid as nat) + ": "@ + reason@,
                Err(ProcFailure::Status(reason)) => sizes matches Err(PeakMemError::ProbeFailure(m))
                    && m@ == "Failed to read process "@ + decimal(pid as nat) + " status: "@
                    + reason@,
            },
    {
        match status {
            Ok(s) => {
                let rss = match s.vmrss {
                    Some(kib) => kib.checked_mul(1024),
                    None => Some(0),
                };
                let vsz = match s.vmsize {
                    Some(kib) => kib.checked_mul(1024),
                    None => Some(0),
                };
                match (rss, vsz) {
                    (Some(rss_bytes), Some(vsz_bytes)) => Ok((rss_bytes, vsz_bytes)),
                    _ => Err(
                        PeakMemError::ProbeFailure(
                            message_with_pid("Process ", pid, " reports a size beyond 64 bits"),
                        ),
                    ),
                }
            },
            Err(ProcFailure::NotFound) => Err(
                PeakMemError::ProcessNotFound(message_with_pid("Process ", pid, " not found")),
            ),
            Err(ProcFailure::PermissionDenied) => Err(
                PeakMemError::PermissionDenied(message_for_pid("Cannot access process ", pid)),
            ),
            Err(ProcFailure::Other(reason)) => {
                let mut message = message_with_pid("Failed to access process ", pid, ": ");
                message.append(reason.as_str());
                Err(PeakMemError::ProbeFailure(message))
            },
            Err(ProcFailure::Status(reason)) => {
                let mut message = message_with_pid("Failed to read process ", pid, " status: ");
                message.append(reason.as_str());
                Err(PeakMemError::ProbeFailure(message))
            },
        }
    }

    /// The reading of a process from what reading its status gave, taken
    /// at `timestamp`.
    pub fn get_memory_usage(
        &self,
        pid: u32,
        status: Result<ProcStatus, ProcFailure>,
        timestamp: Timestamp,
    ) -> (usage: Result<MemoryUsage, PeakMemError>)
        ensures
            match status {
                Ok(s) => if kib_to_bytes(s.vmrss) <= u64::MAX
                    && kib_to_bytes(s.vmsize) <= u64::MAX {
                    usage matches Ok(u) && u.rss_bytes == kib_to_bytes(s.vmrss) && u.vsz_bytes
                        == kib_to_bytes(s.vmsize) && u.timestamp == timestamp
                } else {
                    usage matches Err(PeakMemError::ProbeFailure(_))
                },
                Err(ProcFailure::NotFound) => usage matches Err(PeakMemError::ProcessNotFound(_)),
                Err(ProcFailure::PermissionDenied) => usage matches Err(
                    PeakMemError::PermissionDenied(_),
                ),
                Err(ProcFailure::Other(_)) => usage matches Err(PeakMemError::ProbeFailure(_)),
                Err(ProcFailure::Status(_)) => usage matches Err(PeakMemError::ProbeFailure(_)),
            },
    {
        match self.read_proc_status(pid, status) {
            Ok((rss_bytes, vsz_bytes)) => Ok(MemoryUsage { rss_bytes, vsz_bytes, timestamp }),
            Err(e) => Err(e),
        }
    }

    /// The name of a process: the command name that was read, or `pid:`
    /// and the pid where none could be read.
    pub fn get_process_name(&self, pid: u32, comm: Option<String>) -> (name: String)
        ensures
            match comm {
                Some(c) => name@ == c@,
                None => name@ == "pid:"@ + decimal(pid as nat),
            },
    {
        match comm {
            Some(c) => c,
            None => message_for_pid("pid:", pid),
        }
    }

    /// The direct children of `pid` in a process table.
    pub fn get_child_pids(&self, pid: u32, table: &Vec<ProcStat>) -> (children: Vec<u32>)
        ensures
            children@ == children_in(pid, table@, table.len() as nat),
    {
        let mut children: Vec<u32> = Vec::new();
        let mut i: usize = 0;
        while i < table.len()
            invariant
                i <= table.len(),
                children@ == children_in(pid, table@, i as nat),
            decreases table.len() - i,
        {
            if table[i].ppid == pid as i32 {
                children.push(table[i].pid as u32);
            }
            i += 1;
        }
        children
    }
}

} // verus!

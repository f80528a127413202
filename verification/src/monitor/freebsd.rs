//! The rules of the FreeBSD probe: what the process table means, once it
//! was refreshed.

use vstd::prelude::*;
use crate::text::{decimal, message_for_pid, message_with_pid};
use crate::types::{MemoryUsage, PeakMemError, Timestamp};

verus! {

/// One process of the table: its pid and, where it has one, its parent's.
#[derive(Clone, Copy, Debug)]
pub struct TableEntry {
    pub pid: u32,
    pub parent: Option<u32>,
}

/// What the table holds of one process.
#[derive(Debug)]
pub struct ProcessInfo {
    pub name: String,
    pub rss_bytes: u64,
    pub vsz_bytes: u64,
}

/// The children of `pid` among the first `n` processes of the table, in
/// the order of the table: the processes whose parent is `pid`.
pub open spec fn children_in(pid: u32, table: Seq<TableEntry>, n: nat) -> Seq<u32>
    decreases n,
{
    if n == 0 || n > table.len() {
        Seq::empty()
    } else if table[n - 1].parent == Some(pid) {
        children_in(pid, table, (n - 1) as nat).push(table[n - 1].pid)
    } else {
        children_in(pid, table, (n - 1) as nat)
    }
}

/// The FreeBSD probe.
#[derive(Clone, Copy, Debug)]
pub struct FreeBSDMonitor;

impl FreeBSDMonitor {
    /// The probe. Nothing has to be set up here, so this never fails.
    pub fn new() -> (monitor: Result<Self, PeakMemError>)
        ensures
            monitor is Ok,
    {
        Ok(FreeBSDMonitor)
    }

    /// The outcome of refreshing one process: a process that could not be
    /// refreshed has exited, which is `ProcessNotFound`.
    pub fn refresh_process(&self, pid: u32, refreshed: bool) -> (outcome: Result<(), PeakMemError>)
        ensures
            refreshed ==> outcome is Ok,
            !refreshed
                ==> (outcome matches Err(PeakMemError::ProcessNotFound(m)) && m@ == "Process "@
                + decimal(pid as nat) + " not found"@),
    {
        if !refreshed {
            return Err(PeakMemError::ProcessNotFound(message_with_pid("Process ", pid,
                " not found")));
        }
        Ok(())
    }

    /// What the table holds of one process, or `ProcessNotFound` where it
    /// holds nothing.
    pub fn get_process_info(
        &self,
        pid: u32,
        found: Option<ProcessInfo>,
    ) -> (info: Result<ProcessInfo, PeakMemError>)
        ensures
            match found {
                Some(held) => info == Ok::<ProcessInfo, PeakMemError>(held),
                None => info matches Err(PeakMemError::ProcessNotFound(m)) && m@ == "Process "@
                    + decimal(pid as nat) + " not found"@,
            },
    {
        match found {
            Some(held) => Ok(held),
            None => Err(PeakMemError::ProcessNotFound(message_with_pid("Process ", pid,
                " not found"))),
        }
    }

    /// The reading of a process from the outcome of refreshing it and
    /// what the table then holds of it, taken at `timestamp`.
    pub fn get_memory_usage(
        &self,
        pid: u32,
        refreshed: bool,
        found: Option<ProcessInfo>,
        timestamp: Timestamp,
    ) -> (usage: Result<MemoryUsage, PeakMemError>)
        ensures
            match found {
                Some(held) if refreshed => usage matches Ok(u) && u.rss_bytes == held.rss_bytes
                    && u.vsz_bytes == held.vsz_bytes && u.timestamp == timestamp,
                _ => usage matches Err(PeakMemError::ProcessNotFound(_)),
            },
    {
        match self.refresh_process(pid, refreshed) {
            Ok(_) => {},
            Err(e) => {
                return Err(e);
            },
        }
        match self.get_process_info(pid, found) {
            Ok(held) => Ok(
                MemoryUsage { rss_bytes: held.rss_bytes, vsz_bytes: held.vsz_bytes, timestamp },
            ),
            Err(e) => Err(e),
        }
    }

    /// The name of a process: the one the table holds, or `pid:` and the
    /// pid where it holds none.
    pub fn get_process_name(&self, pid: u32, found: Option<ProcessInfo>) -> (name: String)
        ensures
            match found {
                Some(held) => name@ == held.name@,
                None => name@ == "pid:"@ + decimal(pid as nat),
            },
    {
        match found {
            Some(held) => held.name,
            None => message_for_pid("pid:", pid),
        }
    }

    /// The direct children of `pid` in the process table.
    pub fn get_child_pids(&self, pid: u32, table: &Vec<TableEntry>) -> (children: Vec<u32>)
        ensures
            children@ == children_in(pid, table@, table.len() as nat),
    {
        let mut children: Vec<u32> = Vec::new();
        let mut i: usize = 0;
        while i < table.len()
            invariant
                i <= table.len(),
                children@ == children_in(pid, table@, i as nat),
            decreases table.len() - i,
        {
            let entry = table[i];
            match entry.parent {
                Some(parent) => {
                    if parent == pid {
                        children.push(entry.pid);
                    }
                },
                None => {},
            }
            i += 1;
        }
        children
    }
}

} // verus!

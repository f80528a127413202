//! The rules of the macOS probe: what the answers of the process
//! information calls mean, once they were made.

use vstd::prelude::*;
use crate::text::{chars_of, decimal, message_for_pid, message_with_pid, text_of};
use crate::types::{MemoryUsage, PeakMemError, Timestamp};

verus! {

/// What asking for the record of one listed process gave: the listed
/// pid, the number of bytes the call returned, and the parent pid that
/// the record holds.
#[derive(Clone, Copy, Debug)]
pub struct BsdInfo {
    pub pid: i32,
    pub returned: i32,
    pub ppid: u32,
}

/// Whether a listed process is a child of `pid`: it is not the empty slot
/// 0, its record came back whole, and the record names `pid` as parent.
pub open spec fn is_child_of(pid: u32, record: BsdInfo, record_size: i32) -> bool {
    record.pid != 0 && record.returned == record_size && record.ppid == pid
}

/// The children of `pid` among the first `n` listed processes, in the
/// order of the list.
pub open spec fn children_in(pid: u32, listed: Seq<BsdInfo>, record_size: i32, n: nat) -> Seq<u32>
    decreases n,
{
    if n == 0 || n > listed.len() {
        Seq::empty()
    } else if is_child_of(pid, listed[n - 1], record_size) {
        children_in(pid, listed, record_size, (n - 1) as nat).push(listed[n - 1].pid as u32)
    } else {
        children_in(pid, listed, record_size, (n - 1) as nat)
    }
}

/// What follows the last `/` of a path; the whole path where it has none.
pub open spec fn last_segment(path: Seq<char>) -> Seq<char>
    decreases path.len(),
{
    if path.len() == 0 || path.last() == '/' {
        Seq::empty()
    } else {
        last_segment(path.drop_last()).push(path.last())
    }
}

/// The last segment of a path is what follows a `/` with none after it,
/// or the whole path where `at` is 0 and the path holds none.
proof fn lemma_last_segment(path: Seq<char>, at: int)
    requires
        0 <= at <= path.len(),
        at > 0 ==> path[at - 1] == '/',
        forall|i: int| at <= i < path.len() ==> path[i] != '/',
    ensures
        last_segment(path) == path.skip(at),
    decreases path.len(),
{
    if at == path.len() {
        assert(path.skip(at) =~= Seq::<char>::empty());
    } else {
        lemma_last_segment(path.drop_last(), at);
        assert(path.skip(at) =~= path.drop_last().skip(at).push(path.last()));
    }
}

/// The macOS probe.
#[derive(Clone, Copy, Debug)]
pub struct MacOSMonitor;

impl MacOSMonitor {
    /// The probe. Nothing has to be set up, so this never fails.
    pub fn new() -> (monitor: Result<Self, PeakMemError>)
        ensures
            monitor is Ok,
    {
        Ok(MacOSMonitor)
    }

    /// Resident and virtual size from the answer of the task information
    /// call: `returned` is what the call returned, the two sizes what it
    /// filled in. A call that returned nothing is `PermissionDenied`.
    pub fn get_memory_for_pid(
        &self,
        pid: u32,
        returned: i32,
        resident: u64,
        virtual_size: u64,
    ) -> (sizes: Result<(u64, u64), PeakMemError>)
        ensures
            returned > 0
                ==> (sizes matches Ok((rss, vsz)) && rss == resident && vsz == virtual_size),
            returned <= 0 ==> (sizes matches Err(PeakMemError::PermissionDenied(m)) && m@
                == "Cannot access process "@ + decimal(pid as nat) + " memory info"@),
    {
        if returned <= 0 {
            return Err(
                PeakMemError::PermissionDenied(
                    message_with_pid("Cannot access process ", pid, " memory info"),
                ),
            );
        }
        Ok((resident, virtual_size))
    }

    /// The reading of a process from the answer of the task information
    /// call, taken at `timestamp`.
    pub fn get_memory_usage(
        &self,
        pid: u32,
        returned: i32,
        resident: u64,
        virtual_size: u64,
        timestamp: Timestamp,
    ) -> (usage: Result<MemoryUsage, PeakMemError>)
        ensures
            returned > 0 ==> (usage matches Ok(u) && u.rss_bytes == resident && u.vsz_bytes
                == virtual_size && u.timestamp == timestamp),
            returned <= 0 ==> (usage matches Err(PeakMemError::PermissionDenied(_))),
    {
        match self.get_memory_for_pid(pid, returned, resident, virtual_size) {
            Ok((rss_bytes, vsz_bytes)) => Ok(MemoryUsage { rss_bytes, vsz_bytes, timestamp }),
            Err(e) => Err(e),
        }
    }

    /// How many pids a buffer of `bytes` bytes holds, `pid_size` being
    /// the size of one pid. A size that is not positive is the sign that
    /// the list could not be had, and a `ProbeFailure` with `failure` as
    /// its message.
    pub fn listed_pids(
        &self,
        bytes: i32,
        pid_size: usize,
        failure: &str,
    ) -> (count: Result<usize, PeakMemError>)
        requires
            pid_size > 0,
        ensures
            bytes > 0 ==> (count matches Ok(n) && n == bytes as int / pid_size as int),
            bytes <= 0 ==> (count matches Err(PeakMemError::ProbeFailure(m)) && m@ == failure@),
    {
        if bytes <= 0 {
            return Err(PeakMemError::ProbeFailure(failure.to_owned()));
        }
        Ok((bytes as usize) / pid_size)
    }

    /// The direct children of `pid` among the listed processes, each
    /// given with the answer to the question for its record;
    /// `record_size` is the size of a whole record.
    pub fn get_child_pids(
        &self,
        pid: u32,
        listed: &Vec<BsdInfo>,
        record_size: i32,
    ) -> (children: Vec<u32>)
        ensures
            children@ == children_in(pid, listed@, record_size, listed.len() as nat),
    {
        let mut children: Vec<u32> = Vec::new();
        let mut i: usize = 0;
        while i < listed.len()
            invariant
                i <= listed.len(),
                children@ == children_in(pid, listed@, record_size, i as nat),
            decreases listed.len() - i,
        {
            let record = listed[i];
            if record.pid != 0 && record.returned == record_size && record.ppid == pid {
                children.push(record.pid as u32);
            }
            i += 1;
        }
        children
    }

    /// The name of a process from the answer of the path call: the file
    /// name at the end of the path, or `pid:` and the pid where the call
    /// returned nothing.
    pub fn get_process_name(&self, pid: u32, returned: i32, path: &str) -> (name: String)
        ensures
            returned > 0 ==> name@ == last_segment(path@),
            returned <= 0 ==> name@ == "pid:"@ + decimal(pid as nat),
    {
        if returned <= 0 {
            return message_for_pid("pid:", pid);
        }
        let chars = chars_of(path);
        let mut start: usize = chars.len();
        while start > 0 && chars[start - 1] != '/'
            invariant
                start <= chars.len(),
                forall|i: int| start <= i < chars.len() ==> chars[i] != '/',
            decreases start,
        {
            start -= 1;
        }
        let mut kept: Vec<char> = Vec::new();
        let mut i: usize = start;
        while i < chars.len()
            invariant
                start <= i <= chars.len(),
                kept@ == chars@.subrange(start as int, i as int),
            decreases chars.len() - i,
        {
            kept.push(chars[i]);
            assert(kept@ =~= chars@.subrange(start as int, i + 1));
            i += 1;
        }
        proof {
            lemma_last_segment(path@, start as int);
            assert(chars@.subrange(start as int, chars.len() as int) =~= path@.skip(start as int));
        }
        text_of(&kept)
    }
}

} // verus!

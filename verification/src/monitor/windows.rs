//! The Windows probe, which is not supported yet: every query fails.

use vstd::prelude::*;
use crate::monitor::MemoryMonitor;
use crate::text::{decimal, message_for_pid};
use crate::types::{MemoryUsage, PeakMemError};

verus! {

/// The Windows probe.
#[derive(Clone, Copy, Debug)]
pub struct WindowsMonitor;

/// The error of every query of the Windows probe.
fn unsupported() -> (e: PeakMemError)
    ensures
        e matches PeakMemError::UnsupportedPlatform(m)
            && m@ == "Windows support not yet implemented"@,
{
    PeakMemError::UnsupportedPlatform("Windows support not yet implemented".to_owned())
}

impl WindowsMonitor {
    /// The probe. Nothing has to be set up, so this never fails.
    pub fn new() -> (monitor: Result<Self, PeakMemError>)
        ensures
            monitor is Ok,
    {
        Ok(WindowsMonitor)
    }
}

impl MemoryMonitor for WindowsMonitor {
    open spec fn can_read(&self, pid: u32, reading: Result<MemoryUsage, PeakMemError>) -> bool {
        reading matches Err(PeakMemError::UnsupportedPlatform(m)) && m@
            == "Windows support not yet implemented"@
    }

    open spec fn can_name(&self, pid: u32, name: Seq<char>) -> bool {
        name == "pid:"@ + decimal(pid as nat)
    }

    open spec fn can_list(&self, pid: u32, listed: Result<Vec<u32>, PeakMemError>) -> bool {
        listed matches Err(PeakMemError::UnsupportedPlatform(m)) && m@
            == "Windows support not yet implemented"@
    }

    fn get_memory_usage(&self, pid: u32) -> (usage: Result<MemoryUsage, PeakMemError>)
        ensures
            usage matches Err(PeakMemError::UnsupportedPlatform(m)) && m@
                == "Windows support not yet implemented"@,
    {
        Err(unsupported())
    }

    fn get_process_name(&self, pid: u32) -> (name: String)
        ensures
            name@ == "pid:"@ + decimal(pid as nat),
    {
        message_for_pid("pid:", pid)
    }

    fn get_child_pids(&self, pid: u32) -> (children: Result<Vec<u32>, PeakMemError>)
        ensures
            children matches Err(PeakMemError::UnsupportedPlatform(m)) && m@
                == "Windows support not yet implemented"@,
    {
        Err(unsupported())
    }
}

} // verus!

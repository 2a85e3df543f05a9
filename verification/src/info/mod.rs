//! Raw system information, as plain data.
//!
//! The data is deliberately kept raw (bytes as `u64`, durations as seconds,
//! absent values as `None`) so that the formatting and rendering layers decide
//! how to present it.
use vstd::prelude::*;

use crate::text::{trim, trimmed};

verus! {

/// Raw, unformatted snapshot of the host system.
#[derive(Debug, Clone)]
pub struct SystemInfo {
    pub host_name: Option<String>,
    pub os_name: Option<String>,
    pub os_version: Option<String>,
    pub kernel_version: Option<String>,
    pub shell: Option<String>,
    pub uptime_secs: u64,
    pub cpu_model: Option<String>,
    pub cpu_count: usize,
    pub memory: MemoryInfo,
    pub disks: Vec<DiskInfo>,
}

/// Memory and swap usage, in bytes.
#[derive(Debug, Clone, PartialEq, Eq)]
pub struct MemoryInfo {
    pub total: u64,
    pub used: u64,
    pub swap_total: u64,
    pub swap_used: u64,
}

impl Default for MemoryInfo {
    fn default() -> (m: MemoryInfo)
        ensures
            m == (MemoryInfo { total: 0, used: 0, swap_total: 0, swap_used: 0 }),
    {
        MemoryInfo { total: 0, used: 0, swap_total: 0, swap_used: 0 }
    }
}

/// A single mounted disk.
#[derive(Debug, Clone, PartialEq, Eq)]
pub struct DiskInfo {
    pub mount_point: String,
    pub total: u64,
    pub available: u64,
    pub file_system: String,
}

/// The CPU model from the first CPU's brand string: the brand with
/// surrounding whitespace trimmed, absent when there is no CPU or the trimmed
/// brand is empty.
pub fn cpu_model_from(first_brand: Option<&str>) -> (model: Option<String>)
    ensures
        first_brand is None ==> model is None,
        first_brand matches Some(b) ==> (if trim(b@).len() == 0 { model is None } else { model matches Some(m) && m@ == trim(b@) }),
{
    match first_brand {
        Some(b) => {
            let t = trimmed(b);
            if t.as_str().unicode_len() == 0 { None } else { Some(t) }
        },
        None => None,
    }
}

/// The login shell from the value of `$SHELL`: absent when unset or empty.
pub fn shell_from(var: Option<String>) -> (shell: Option<String>)
    ensures
        shell == (match var {
            Some(s) => if s@.len() == 0 { None } else { Some(s) },
            None => None,
        }),
{
    match var {
        Some(s) => if s.as_str().unicode_len() == 0 { None } else { Some(s) },
        None => None,
    }
}

} // verus!

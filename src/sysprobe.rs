use vstd::prelude::*;
use crate::types::SystemInfo;

verus! {

/// Bytes in one megabyte (binary).
pub const BYTES_PER_MB: u64 = 1048576;

/// A byte count in whole megabytes, rounded down.
pub open spec fn megabytes(bytes: u64) -> u64 {
    bytes / BYTES_PER_MB
}

impl SystemInfo {
    /// The snapshot made of raw host readings: the long OS description
    /// (`"Unknown"` where the host gives none), the architecture, memory in
    /// bytes and the number of logical CPUs.
    pub fn from_readings(
        os: Option<String>,
        arch: String,
        total_memory_bytes: u64,
        available_memory_bytes: u64,
        cpu_count: usize,
    ) -> (r: SystemInfo)
        ensures
            r.os@ == match os {
                Some(s) => s@,
                None => "Unknown"@,
            },
            r.arch@ == arch@,
            r.total_memory_mb == megabytes(total_memory_bytes),
            r.available_memory_mb == megabytes(available_memory_bytes),
            r.cpu_count == cpu_count,
    {
        let os = match os {
            Some(s) => s,
            None => String::from_str("Unknown"),
        };
        SystemInfo {
            os,
            arch,
            total_memory_mb: total_memory_bytes / BYTES_PER_MB,
            available_memory_mb: available_memory_bytes / BYTES_PER_MB,
            cpu_count,
        }
    }
}

/// Converting to megabytes keeps the order of two byte counts: a host that
/// reports no more memory available than it has in total gets a snapshot
/// whose available figure does not exceed its total figure.
pub proof fn lemma_memory_figures_ordered(total_memory_bytes: u64, available_memory_bytes: u64)
    requires
        available_memory_bytes <= total_memory_bytes,
    ensures
        megabytes(available_memory_bytes) <= megabytes(total_memory_bytes),
{
    vstd::arithmetic::div_mod::lemma_div_is_ordered(
        available_memory_bytes as int,
        total_memory_bytes as int,
        BYTES_PER_MB as int,
    );
}

} // verus!

use vstd::prelude::*;

verus! {

/// What a caller asks to run: a program, its arguments, and an optional
/// time limit in seconds.
#[derive(Debug)]
pub struct CommandRequest {
    pub command: String,
    pub args: Vec<String>,
    pub timeout_seconds: Option<u64>,
}

/// The single result of one execution.
///
/// `error` is present only when it holds text; `exit_code` is absent when the
/// process could not be started, was abandoned, or ended without a code.
#[derive(Debug)]
pub struct CommandResponse {
    pub success: bool,
    pub output: String,
    pub error: Option<String>,
    pub exit_code: Option<i32>,
    pub execution_time_ms: u64,
}

/// The registry's record of one execution in flight.
#[derive(Debug)]
pub struct ProcessInfo {
    pub pid: u32,
    pub name: String,
    pub command: String,
    pub start_time: String,
}

impl Clone for ProcessInfo {
    fn clone(&self) -> (r: ProcessInfo)
        ensures
            r == *self,
    {
        ProcessInfo {
            pid: self.pid,
            name: self.name.clone(),
            command: self.command.clone(),
            start_time: self.start_time.clone(),
        }
    }
}

/// A point-in-time description of the host.
#[derive(Debug)]
pub struct SystemInfo {
    pub os: String,
    pub arch: String,
    pub total_memory_mb: u64,
    pub available_memory_mb: u64,
    pub cpu_count: usize,
}

} // verus!

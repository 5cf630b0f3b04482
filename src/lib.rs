//! Bounded-time execution of external commands, with a registry of the
//! executions in flight and a snapshot of host metrics.
//!
//! The library holds the decisions: what an execution registers, what it
//! reports for each way it can end, and how host readings become a snapshot.
//! Spawning processes, waiting on timers and querying the operating system
//! are left to the caller, which hands the outcomes back as plain values.

mod types;
mod registry;
mod text;
mod executor;
mod sysprobe;

pub use types::{CommandRequest, CommandResponse, ProcessInfo, SystemInfo};
pub use registry::{
    ProcessRegistry, RegistryEvent, after_events, registrations, mentions, ends_registered,
    lemma_execution_leaves_table_unchanged, lemma_size_bounded_by_registrations,
    lemma_keys_after_events, lemma_finished_executions_leave_no_entry,
};
pub use text::{digit_char, decimal, joined, texts, command_line_of, decimal_string, command_line};
pub use executor::{
    ExecutionOutcome, DEFAULT_TIMEOUT_SECS, lossy_text, launch_failure_message, timeout_message,
    is_record_for, is_completed_response, is_failure_response, answers, effective_timeout, new_process_record,
    register_request, begin_execution, completed_response, response_for, finish_execution,
};
pub use sysprobe::{BYTES_PER_MB, megabytes, lemma_memory_figures_ordered};

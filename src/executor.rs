use vstd::prelude::*;
use crate::types::{CommandRequest, CommandResponse, ProcessInfo};
use crate::registry::ProcessRegistry;
use crate::text::{command_line, command_line_of, decimal, decimal_string, texts};

verus! {

/// The time limit, in seconds, of a request that names none.
pub const DEFAULT_TIMEOUT_SECS: u64 = 30;

/// How the spawn-and-wait of one execution ended, as the caller observed it.
pub enum ExecutionOutcome {
    /// The process ran to its end; its streams are the raw captured bytes.
    Exited { success: bool, exit_code: Option<i32>, stdout: Vec<u8>, stderr: Vec<u8> },
    /// The program could not be started; `cause` describes why.
    LaunchFailed { cause: String },
    /// The time limit passed before the process ended.
    TimedOut,
}

/// The text that `String::from_utf8_lossy` makes of a byte sequence.
pub uninterp spec fn lossy_text(b: Seq<u8>) -> Seq<char>;

/// Relies on `String::from_utf8_lossy`: the result depends on the bytes alone,
/// and each byte yields at least one character, so it is empty exactly when
/// the bytes are.
#[verifier::external_body]
fn decode_lossy(b: &Vec<u8>) -> (r: String)
    ensures
        r@ == lossy_text(b@),
        r@.len() == 0 <==> b@.len() == 0,
{
    String::from_utf8_lossy(b).into_owned()
}

/// Relies on `uuid::Uuid::new_v4` and its `Display`: a random id in the
/// hyphenated form, which is 36 characters long.
#[verifier::external_body]
fn fresh_execution_id() -> (r: String)
    ensures
        r@.len() == 36,
{
    uuid::Uuid::new_v4().to_string()
}

/// Relies on `chrono::Utc::now` and `DateTime::to_rfc3339`: the current time
/// as RFC 3339 text.
#[verifier::external_body]
fn now_rfc3339() -> (r: String) {
    chrono::Utc::now().to_rfc3339()
}

/// The error text of a program that could not be started.
pub open spec fn launch_failure_message(cause: Seq<char>) -> Seq<char> {
    "Failed to execute command: "@ + cause
}

/// The error text of an execution abandoned after `secs` seconds.
pub open spec fn timeout_message(secs: nat) -> Seq<char> {
    "Command timed out after "@ + decimal(secs) + " seconds"@
}

/// The record that an execution of `request` registers, started at `started_at`.
pub open spec fn is_record_for(
    info: ProcessInfo,
    request: CommandRequest,
    started_at: Seq<char>,
) -> bool {
    &&& info.pid == 0
    &&& info.name@ == request.command@
    &&& info.command@ == command_line_of(request.command@, texts(request.args@))
    &&& info.start_time@ == started_at
}

/// `r` reports a process that ran to its end with these decoded streams:
/// the error text is present exactly when it is not empty.
pub open spec fn is_completed_response(
    r: CommandResponse,
    success: bool,
    exit_code: Option<i32>,
    stdout: Seq<char>,
    stderr: Seq<char>,
    elapsed_ms: u64,
) -> bool {
    &&& r.success == success
    &&& r.output@ == stdout
    &&& (if stderr.len() == 0 {
        r.error is None
    } else {
        r.error is Some && r.error->0@ == stderr
    })
    &&& r.exit_code == exit_code
    &&& r.execution_time_ms == elapsed_ms
}

/// `r` reports a failure with error text `message`, no output and no exit code.
pub open spec fn is_failure_response(r: CommandResponse, message: Seq<char>, elapsed_ms: u64) -> bool {
    &&& !r.success
    &&& r.output@.len() == 0
    &&& r.error is Some && r.error->0@ == message
    &&& r.exit_code is None
    &&& r.execution_time_ms == elapsed_ms
}

/// `r` is the response owed for `outcome` under a limit of `timeout_secs`.
pub open spec fn answers(
    r: CommandResponse,
    outcome: ExecutionOutcome,
    timeout_secs: u64,
    elapsed_ms: u64,
) -> bool {
    match outcome {
        ExecutionOutcome::Exited { success, exit_code, stdout, stderr } => is_completed_response(
            r,
            success,
            exit_code,
            lossy_text(stdout@),
            lossy_text(stderr@),
            elapsed_ms,
        ),
        ExecutionOutcome::LaunchFailed { cause } => is_failure_response(
            r,
            launch_failure_message(cause@),
            elapsed_ms,
        ),
        ExecutionOutcome::TimedOut => is_failure_response(
            r,
            timeout_message(timeout_secs as nat),
            elapsed_ms,
        ),
    }
}

/// The time limit of `request`, in seconds.
pub fn effective_timeout(request: &CommandRequest) -> (r: u64)
    ensures
        r == match request.timeout_seconds {
            Some(t) => t,
            None => DEFAULT_TIMEOUT_SECS,
        },
{
    match request.timeout_seconds {
        Some(t) => t,
        None => DEFAULT_TIMEOUT_SECS,
    }
}

/// The registry record of an execution of `request` started at `started_at`.
pub fn new_process_record(request: &CommandRequest, started_at: String) -> (r: ProcessInfo)
    ensures
        is_record_for(r, *request, started_at@),
{
    ProcessInfo {
        pid: 0,
        name: request.command.clone(),
        command: command_line(&request.command, &request.args),
        start_time: started_at,
    }
}

/// Registers an execution of `request` under `id`, started at `started_at`.
pub fn register_request(
    registry: &mut ProcessRegistry,
    request: &CommandRequest,
    id: String,
    started_at: String,
)
    requires
        old(registry).wf(),
    ensures
        final(registry).wf(),
        final(registry)@.contains_key(id@),
        is_record_for(final(registry)@[id@], *request, started_at@),
        final(registry)@ == old(registry)@.insert(id@, final(registry)@[id@]),
{
    let info = new_process_record(request, started_at);
    registry.register(id, info);
}

/// Starts the bookkeeping of one execution: draws a fresh id and registers a
/// record of `request` under it, stamped with the current time.
pub fn begin_execution(registry: &mut ProcessRegistry, request: &CommandRequest) -> (id: String)
    requires
        old(registry).wf(),
    ensures
        final(registry).wf(),
        id@.len() == 36,
        final(registry)@.contains_key(id@),
        is_record_for(final(registry)@[id@], *request, final(registry)@[id@].start_time@),
        final(registry)@ == old(registry)@.insert(id@, final(registry)@[id@]),
{
    let id = fresh_execution_id();
    let started_at = now_rfc3339();
    let key = id.clone();
    register_request(registry, request, key, started_at);
    id
}

/// The response of a process that ran to its end, from its decoded streams.
pub fn completed_response(
    success: bool,
    exit_code: Option<i32>,
    stdout: String,
    stderr: String,
    elapsed_ms: u64,
) -> (r: CommandResponse)
    ensures
        is_completed_response(r, success, exit_code, stdout@, stderr@, elapsed_ms),
{
    let error = if stderr.as_str().is_empty() {
        None
    } else {
        Some(stderr)
    };
    CommandResponse { success, output: stdout, error, exit_code, execution_time_ms: elapsed_ms }
}

fn failure_response(message: String, elapsed_ms: u64) -> (r: CommandResponse)
    ensures
        is_failure_response(r, message@, elapsed_ms),
{
    CommandResponse {
        success: false,
        output: String::new(),
        error: Some(message),
        exit_code: None,
        execution_time_ms: elapsed_ms,
    }
}

/// The response owed for `outcome` under a limit of `timeout_secs` seconds.
pub fn response_for(outcome: ExecutionOutcome, timeout_secs: u64, elapsed_ms: u64) -> (r:
    CommandResponse)
    ensures
        answers(r, outcome, timeout_secs, elapsed_ms),
{
    match outcome {
        ExecutionOutcome::Exited { success, exit_code, stdout, stderr } => {
            let out = decode_lossy(&stdout);
            let err = decode_lossy(&stderr);
            completed_response(success, exit_code, out, err, elapsed_ms)
        },
        ExecutionOutcome::LaunchFailed { cause } => {
            let mut message = String::from_str("Failed to execute command: ");
            message.append(cause.as_str());
            failure_response(message, elapsed_ms)
        },
        ExecutionOutcome::TimedOut => {
            let mut message = String::from_str("Command timed out after ");
            let secs = decimal_string(timeout_secs);
            message.append(secs.as_str());
            message.append(" seconds");
            failure_response(message, elapsed_ms)
        },
    }
}

/// Ends the bookkeeping of execution `id`: removes its record, whatever the
/// outcome, and returns the response owed for that outcome.
pub fn finish_execution(
    registry: &mut ProcessRegistry,
    id: &String,
    outcome: ExecutionOutcome,
    timeout_secs: u64,
    elapsed_ms: u64,
) -> (r: CommandResponse)
    requires
        old(registry).wf(),
    ensures
        final(registry).wf(),
        final(registry)@ == old(registry)@.remove(id@),
        answers(r, outcome, timeout_secs, elapsed_ms),
{
    registry.deregister(id);
    response_for(outcome, timeout_secs, elapsed_ms)
}

} // verus!

//! Background jobs: the job record and its life cycle, validation of new jobs,
//! and the decisions the worker makes around each run.

use vstd::prelude::*;
use crate::config::{agent_not_found, agent_not_found_message, Config};
use crate::agent::agent_lookup;
use crate::path_policy::{path_starts_with, path_starts_with_exec};
use crate::text::{append_i64, clone_opt, opt_chars, signed_decimal, str_eq};

verus! {

/// What a job asks an agent to do.
#[derive(Debug, Clone)]
pub struct JobPayload {
    pub agent_id: String,
    pub message: String,
    pub system_prompt: Option<String>,
    pub file_path: Option<String>,
    pub session_id: Option<String>,
}

/// A stored background job (cron or one-off).
#[derive(Debug, Clone)]
pub struct BackgroundJob {
    pub id: Option<i64>,
    pub name: String,
    /// `"cron"` or `"once"`.
    pub schedule_type: String,
    pub cron_expression: Option<String>,
    pub priority: i32,
    pub max_cpu_percent: i32,
    /// `"pending"`, `"running"`, `"completed"`, `"failed"` or `"cancelled"`.
    pub status: String,
    pub last_run: Option<String>,
    pub next_run: Option<String>,
    pub retries: i32,
    pub max_retries: i32,
    /// The payload as JSON text.
    pub payload: String,
    pub result: Option<String>,
    pub error_message: Option<String>,
    pub is_active: bool,
    /// Seconds a run may take; 0 means no limit.
    pub timeout_seconds: i64,
}

/// A request to run a job, carrying everything the run needs.
#[derive(Debug, Clone)]
pub struct JobExecutionRequest {
    pub job_id: i64,
    pub job_name: String,
    pub payload: JobPayload,
    pub max_cpu_percent: i32,
    pub max_retries: i32,
    /// `"cron"` or `"once"`.
    pub schedule_type: String,
    /// 0 means no timeout.
    pub timeout_seconds: i64,
}

/// Sent to listeners when a job's status changes.
#[derive(Debug, Clone)]
pub struct JobStatusEvent {
    pub job_id: i64,
    pub job_name: String,
    pub status: String,
    pub result: Option<String>,
    pub error: Option<String>,
    pub timestamp: i64,
}

/// A request to create a job.
#[derive(Debug, Clone)]
pub struct CreateJobRequest {
    pub name: String,
    /// `"cron"` or `"once"`.
    pub schedule_type: String,
    pub cron_expression: Option<String>,
    pub priority: Option<i32>,
    pub max_cpu_percent: Option<i32>,
    pub max_retries: Option<i32>,
    pub timeout_seconds: Option<i64>,
    pub payload: JobPayload,
}

/// The name given to whether the cron parser of `tokio_cron_scheduler` accepts an
/// expression (six fields with seconds; day of month and day of week both apply).
pub uninterp spec fn cron_accepts(expr: Seq<char>) -> bool;

/// Parses a schedule with `tokio_cron_scheduler::Job::new`. Claimed: it succeeds
/// exactly when the parser accepts the expression (named `cron_accepts`; the result
/// does not depend on the time or on the job id drawn), and its only error reads
/// `ParseSchedule` (the error's `Display` prints its `Debug` form).
#[verifier::external_body]
fn parse_cron(expr: &str) -> (r: Result<(), String>)
    ensures
        r is Ok == cron_accepts(expr@),
        r matches Err(m) ==> m@ == "ParseSchedule"@,
{
    match tokio_cron_scheduler::Job::new(expr, |_uuid, _lock| {}) {
        Ok(_) => Ok(()),
        Err(e) => Err(e.to_string()),
    }
}

/// The error for a schedule the parser refuses.
pub open spec fn cron_error_message() -> Seq<char> {
    "Invalid cron expression: "@ + "ParseSchedule"@
        + ". Expected format: 'sec min hour day month dayofweek' (e.g., '0 0 9 * * Mon-Fri' for weekdays at 9 AM)"@
}

/// Checks a cron expression; the error explains the expected format.
pub fn validate_cron_expression(expr: &str) -> (r: Result<(), String>)
    ensures
        r is Ok == cron_accepts(expr@),
        r matches Err(m) ==> m@ == cron_error_message(),
{
    match parse_cron(expr) {
        Ok(()) => Ok(()),
        Err(e) => {
            let mut m = String::from_str("Invalid cron expression: ");
            m.append(e.as_str());
            m.append(
                ". Expected format: 'sec min hour day month dayofweek' (e.g., '0 0 9 * * Mon-Fri' for weekdays at 9 AM)",
            );
            Err(m)
        },
    }
}

/// Why a create request is refused, in the order the checks are made: the
/// schedule type, the cron expression of a cron job, then the agent.
pub open spec fn create_job_error(req: CreateJobRequest, agent_known: bool) -> Option<Seq<char>> {
    if req.schedule_type@ != "cron"@ && req.schedule_type@ != "once"@ {
        Some("schedule_type must be 'cron' or 'once'"@)
    } else if req.schedule_type@ == "cron"@ && req.cron_expression is None {
        Some("cron_expression is required for cron jobs"@)
    } else if req.schedule_type@ == "cron"@ && !cron_accepts(req.cron_expression->0@) {
        Some(cron_error_message())
    } else if !agent_known {
        Some(agent_not_found_message(req.payload.agent_id@))
    } else {
        None
    }
}

/// A create request is accepted exactly when its schedule type is `once`, or
/// `cron` with a cron expression the parser takes, and its agent exists; a
/// one-off job is never refused for its cron expression.
pub proof fn law_create_job_accepted(req: CreateJobRequest, agent_known: bool)
    ensures
        create_job_error(req, agent_known) is None <==> (agent_known && (req.schedule_type@ == "once"@ || (
        req.schedule_type@ == "cron"@ && req.cron_expression is Some && cron_accepts(req.cron_expression->0@)))),
        (req.schedule_type@ == "once"@ && agent_known) ==> create_job_error(req, agent_known) is None,
        !agent_known ==> create_job_error(req, agent_known) is Some,
{
    reveal_strlit("cron");
    reveal_strlit("once");
    if req.schedule_type@ == "once"@ {
        assert(req.schedule_type@[0] == 'o');
    }
}

/// Validates a request to create a job against the configured agents.
pub fn validate_create_job(req: &CreateJobRequest, config: &Config) -> (r: Result<(), String>)
    ensures
        match create_job_error(*req, agent_lookup(config.agents.agents@, req.payload.agent_id@) is Some) {
            None => r is Ok,
            Some(m) => r matches Err(e) && e@ == m,
        },
{
    let is_cron = str_eq(req.schedule_type.as_str(), "cron");
    if !is_cron && !str_eq(req.schedule_type.as_str(), "once") {
        return Err(String::from_str("schedule_type must be 'cron' or 'once'"));
    }
    if is_cron {
        match &req.cron_expression {
            None => {
                return Err(String::from_str("cron_expression is required for cron jobs"));
            },
            Some(expr) => {
                match validate_cron_expression(expr.as_str()) {
                    Ok(()) => {},
                    Err(e) => {
                        return Err(e);
                    },
                }
            },
        }
    }
    if config.get_agent(req.payload.agent_id.as_str()).is_none() {
        return Err(agent_not_found(req.payload.agent_id.as_str()));
    }
    Ok(())
}

/// The job stored for a valid create request: priority 5, a 50% CPU limit and 3
/// retries unless given, the default timeout unless given, pending and active.
pub fn new_background_job(req: &CreateJobRequest, payload_json: String, default_timeout_seconds: i64) -> (job: BackgroundJob)
    ensures
        job.id is None,
        job.name@ == req.name@,
        job.schedule_type@ == req.schedule_type@,
        opt_chars(job.cron_expression) == opt_chars(req.cron_expression),
        job.priority == (match req.priority { Some(p) => p, None => 5 }),
        job.max_cpu_percent == (match req.max_cpu_percent { Some(p) => p, None => 50 }),
        job.status@ == "pending"@,
        job.last_run is None,
        job.next_run is None,
        job.retries == 0,
        job.max_retries == (match req.max_retries { Some(n) => n, None => 3 }),
        job.payload@ == payload_json@,
        job.result is None,
        job.error_message is None,
        job.is_active,
        job.timeout_seconds == (match req.timeout_seconds { Some(t) => t, None => default_timeout_seconds }),
{
    BackgroundJob {
        id: None,
        name: req.name.clone(),
        schedule_type: req.schedule_type.clone(),
        cron_expression: clone_opt(&req.cron_expression),
        priority: match req.priority { Some(p) => p, None => 5 },
        max_cpu_percent: match req.max_cpu_percent { Some(p) => p, None => 50 },
        status: String::from_str("pending"),
        last_run: None,
        next_run: None,
        retries: 0,
        max_retries: match req.max_retries { Some(n) => n, None => 3 },
        payload: payload_json,
        result: None,
        error_message: None,
        is_active: true,
        timeout_seconds: match req.timeout_seconds { Some(t) => t, None => default_timeout_seconds },
    }
}

/// The run request for a stored job and its parsed payload.
pub fn request_for_job(job: &BackgroundJob, job_id: i64, payload: JobPayload) -> (r: JobExecutionRequest)
    ensures
        r.job_id == job_id,
        r.job_name@ == job.name@,
        r.payload == payload,
        r.max_cpu_percent == job.max_cpu_percent,
        r.max_retries == job.max_retries,
        r.schedule_type@ == job.schedule_type@,
        r.timeout_seconds == job.timeout_seconds,
{
    JobExecutionRequest {
        job_id,
        job_name: job.name.clone(),
        payload,
        max_cpu_percent: job.max_cpu_percent,
        max_retries: job.max_retries,
        schedule_type: job.schedule_type.clone(),
        timeout_seconds: job.timeout_seconds,
    }
}

/// Whether a stored job can be run now by hand: only cron jobs can.
pub fn check_trigger(job: &BackgroundJob) -> (r: Result<(), String>)
    ensures
        r is Ok == (job.schedule_type@ == "cron"@),
        r matches Err(m) ==> m@ == "Only cron jobs can be manually triggered"@,
{
    if str_eq(job.schedule_type.as_str(), "cron") {
        Ok(())
    } else {
        Err(String::from_str("Only cron jobs can be manually triggered"))
    }
}

/// Whether a pending job is re-queued at start-up: one-off jobs are (cron jobs
/// are scheduled instead).
pub fn restores_as_one_off(job: &BackgroundJob) -> (r: bool)
    ensures
        r == (job.schedule_type@ == "once"@),
{
    str_eq(job.schedule_type.as_str(), "once")
}

/// Whether the worker may start a job: the measured CPU usage (whole percent) is
/// below the job's limit.
pub fn check_cpu_usage(cpu_usage: i32, max_cpu_percent: i32) -> (r: bool)
    ensures
        r == (cpu_usage < max_cpu_percent),
{
    cpu_usage < max_cpu_percent
}

/// The time limit of a run, in seconds: none when the job's timeout is not positive.
pub fn run_timeout(timeout_seconds: i64) -> (r: Option<u64>)
    ensures
        timeout_seconds > 0 ==> r == Some(timeout_seconds as u64),
        timeout_seconds <= 0 ==> r is None,
{
    if timeout_seconds > 0 {
        Some(timeout_seconds as u64)
    } else {
        None
    }
}

/// The error of a run that ran out of time.
pub fn timeout_message(timeout_seconds: i64) -> (r: String)
    ensures
        r@ == "Job timed out after "@ + signed_decimal(timeout_seconds as int) + " seconds"@,
{
    let mut m = String::from_str("Job timed out after ");
    append_i64(&mut m, timeout_seconds);
    m.append(" seconds");
    m
}

/// The session a run is recorded in: the payload's own, or `job-AGENT-TIMESTAMP`.
pub fn job_session_id(payload: &JobPayload, started_at: i64) -> (r: String)
    ensures
        r@ == (match payload.session_id {
            Some(s) => s@,
            None => "job-"@ + payload.agent_id@ + "-"@ + signed_decimal(started_at as int),
        }),
{
    match &payload.session_id {
        Some(s) => s.clone(),
        None => {
            let mut r = String::from_str("job-");
            r.append(payload.agent_id.as_str());
            r.append("-");
            append_i64(&mut r, started_at);
            r
        },
    }
}

/// Where the system prompt of a run comes from.
pub enum PromptSource {
    /// The payload's own prompt, used as it is.
    Custom(String),
    /// The agent's prompt, combined with the persona.
    Agent(String),
    /// The default prompt for questions.
    DefaultAsk,
}

/// Chooses the system prompt of a run: the payload's, else the agent's, else the
/// default one.
pub fn select_system_prompt(payload: &JobPayload, agent_prompt: &Option<String>) -> (r: PromptSource)
    ensures
        match payload.system_prompt {
            Some(p) => r matches PromptSource::Custom(x) && x@ == p@,
            None => match *agent_prompt {
                Some(a) => r matches PromptSource::Agent(x) && x@ == a@,
                None => r is DefaultAsk,
            },
        },
{
    match &payload.system_prompt {
        Some(p) => PromptSource::Custom(p.clone()),
        None => match agent_prompt {
            Some(a) => PromptSource::Agent(a.clone()),
            None => PromptSource::DefaultAsk,
        },
    }
}

/// How a run starts. A job whose agent is not configured fails at once with
/// "Agent '<id>' not found" and is not retried; otherwise the run goes on with
/// the agent's model and the system prompt chosen by `select_system_prompt`.
pub enum RunStart {
    /// The job is marked failed with this error; no retry follows.
    Fail { error: String },
    /// The run goes on.
    Run { model: String, prompt: PromptSource },
}

/// The first decision of a run (see `RunStart`).
pub fn start_run(config: &Config, payload: &JobPayload) -> (r: RunStart)
    ensures
        match agent_lookup(config.agents.agents@, payload.agent_id@) {
            None => r matches RunStart::Fail { error } && error@ == agent_not_found_message(payload.agent_id@),
            Some(a) => r matches RunStart::Run { model, prompt } && model@ == a.model@ && match payload.system_prompt {
                Some(p) => prompt matches PromptSource::Custom(x) && x@ == p@,
                None => match a.prompt {
                    Some(ap) => prompt matches PromptSource::Agent(x) && x@ == ap@,
                    None => prompt is DefaultAsk,
                },
            },
        },
{
    match config.get_agent(payload.agent_id.as_str()) {
        None => RunStart::Fail { error: agent_not_found(payload.agent_id.as_str()) },
        Some(a) => RunStart::Run { model: a.model.clone(), prompt: select_system_prompt(payload, &a.prompt) },
    }
}

/// The error of a run whose file path was refused; the job fails with it and is
/// not retried.
pub fn invalid_file_path_message(error: &str) -> (r: String)
    ensures
        r@ == "Invalid file path: "@ + error@,
{
    let mut m = String::from_str("Invalid file path: ");
    m.append(error);
    m
}

/// Where a run of a job stands between two pieces of outside work.
pub enum RunState {
    /// Nothing done yet.
    Starting,
    /// The payload's file is being checked and read.
    AwaitingFile { model: String, prompt: PromptSource },
    /// The model is being asked.
    AwaitingAnswer,
    /// The run failed with `error`; the retry count is being increased and read back.
    AwaitingRetryCount { error: String },
    /// Nothing more to do.
    Finished,
}

/// What the outside work of a run reports.
pub enum RunEvent {
    /// The run begins.
    Begin,
    /// The payload's file: refused with the validation error, or its content
    /// (`None` when it could not be read, and the run goes on without it).
    FileChecked(Result<Option<String>, String>),
    /// The model's answer, or why asking failed (a time-out included).
    Answered(Result<String, String>),
    /// The job's retry count after it was increased (`None` when the job is gone).
    RetriesCounted(Option<i32>),
}

/// What the runner does next.
pub enum RunAction {
    /// Mark the job failed with `error` and report it; no retry follows.
    Fail { error: String },
    /// Check and read the payload's file.
    CheckFile { path: String },
    /// Ask the agent's model with the chosen system prompt and the file's content.
    Ask { model: String, prompt: PromptSource, file_content: Option<String> },
    /// Record the run, complete the job with the response and report it.
    Complete { response: String },
    /// Increase the job's retry count and read it back.
    CountRetry,
    /// Put the job back to pending, report `message` and queue the job again.
    Retry { message: String },
    /// Record the failed run, mark the job failed with `error` and report it.
    GiveUp { error: String },
    /// Nothing.
    Stop,
}

/// A run's next state and action given its state and what happened. A missing
/// agent or a refused file path fails the job at once; a failed answer is retried
/// while the increased retry count is below the job's limit.
pub fn run_step(state: RunState, event: RunEvent, config: &Config, payload: &JobPayload, max_retries: i32) -> (r: (RunState, RunAction))
    ensures
        match (state, event) {
            (RunState::Starting, RunEvent::Begin) => match agent_lookup(config.agents.agents@, payload.agent_id@) {
                None => r.0 is Finished && (r.1 matches RunAction::Fail { error } && error@ == agent_not_found_message(
                    payload.agent_id@,
                )),
                Some(a) => match payload.file_path {
                    Some(p) => (r.0 matches RunState::AwaitingFile { model, prompt } && model@ == a.model@
                        && prompt_chosen(prompt, payload.system_prompt, a.prompt)) && (r.1 matches RunAction::CheckFile {
                        path,
                    } && path@ == p@),
                    None => r.0 is AwaitingAnswer && (r.1 matches RunAction::Ask { model, prompt, file_content }
                        && model@ == a.model@ && prompt_chosen(prompt, payload.system_prompt, a.prompt)
                        && file_content is None),
                },
            },
            (RunState::AwaitingFile { model, prompt }, RunEvent::FileChecked(checked)) => match checked {
                Err(e) => r.0 is Finished && (r.1 matches RunAction::Fail { error } && error@ == "Invalid file path: "@ + e@),
                Ok(content) => r.0 is AwaitingAnswer && r.1 == (RunAction::Ask { model, prompt, file_content: content }),
            },
            (RunState::AwaitingAnswer, RunEvent::Answered(answer)) => match answer {
                Ok(response) => r.0 is Finished && r.1 == (RunAction::Complete { response }),
                Err(e) => r.0 == (RunState::AwaitingRetryCount { error: e }) && r.1 is CountRetry,
            },
            (RunState::AwaitingRetryCount { error }, RunEvent::RetriesCounted(count)) => match count {
                None => r.0 is Finished && r.1 is Stop,
                Some(n) => r.0 is Finished && if n < max_retries {
                    r.1 matches RunAction::Retry { message } && message@ == "Retrying ("@ + signed_decimal(n as int) + "/"@
                        + signed_decimal(max_retries as int) + ")"@
                } else {
                    r.1 == (RunAction::GiveUp { error })
                },
            },
            (st, _) => r.0 == st && r.1 is Stop,
        },
{
    match (state, event) {
        (RunState::Starting, RunEvent::Begin) => match start_run(config, payload) {
            RunStart::Fail { error } => (RunState::Finished, RunAction::Fail { error }),
            RunStart::Run { model, prompt } => match &payload.file_path {
                Some(p) => (RunState::AwaitingFile { model, prompt }, RunAction::CheckFile { path: p.clone() }),
                None => (RunState::AwaitingAnswer, RunAction::Ask { model, prompt, file_content: None }),
            },
        },
        (RunState::AwaitingFile { model, prompt }, RunEvent::FileChecked(checked)) => match checked {
            Err(e) => (RunState::Finished, RunAction::Fail { error: invalid_file_path_message(e.as_str()) }),
            Ok(content) => (RunState::AwaitingAnswer, RunAction::Ask { model, prompt, file_content: content }),
        },
        (RunState::AwaitingAnswer, RunEvent::Answered(answer)) => match answer {
            Ok(response) => (RunState::Finished, RunAction::Complete { response }),
            Err(e) => (RunState::AwaitingRetryCount { error: e }, RunAction::CountRetry),
        },
        (RunState::AwaitingRetryCount { error }, RunEvent::RetriesCounted(count)) => match count {
            None => (RunState::Finished, RunAction::Stop),
            Some(n) => match after_failure(n, max_retries) {
                RetryDecision::Retry { message } => (RunState::Finished, RunAction::Retry { message }),
                RetryDecision::GiveUp => (RunState::Finished, RunAction::GiveUp { error }),
            },
        },
        (st, _) => (st, RunAction::Stop),
    }
}

/// Whether `prompt` is the system prompt chosen from the payload's and the
/// agent's prompts (see `select_system_prompt`).
pub open spec fn prompt_chosen(prompt: PromptSource, payload_prompt: Option<String>, agent_prompt: Option<String>) -> bool {
    match payload_prompt {
        Some(p) => prompt matches PromptSource::Custom(x) && x@ == p@,
        None => match agent_prompt {
            Some(ap) => prompt matches PromptSource::Agent(x) && x@ == ap@,
            None => prompt is DefaultAsk,
        },
    }
}

/// The tokens a run used: input, output and reasoning tokens together.
pub fn total_tokens(input_tokens: i64, output_tokens: i64, reasoning_tokens: i64) -> (r: i64)
    requires
        i64::MIN <= input_tokens + output_tokens <= i64::MAX,
        i64::MIN <= input_tokens + output_tokens + reasoning_tokens <= i64::MAX,
    ensures
        r == input_tokens + output_tokens + reasoning_tokens,
{
    input_tokens + output_tokens + reasoning_tokens
}

/// What happens after a failed run, once its retry count has been increased.
pub enum RetryDecision {
    /// The job goes back to pending and is queued again; `message` tells why.
    Retry { message: String },
    /// The job is marked failed.
    GiveUp,
}

/// Retries while the retry count is below the job's limit.
pub fn after_failure(retries: i32, max_retries: i32) -> (r: RetryDecision)
    ensures
        retries < max_retries ==> (r matches RetryDecision::Retry { message } && message@ == "Retrying ("@
            + signed_decimal(retries as int) + "/"@ + signed_decimal(max_retries as int) + ")"@),
        retries >= max_retries ==> r is GiveUp,
{
    if retries < max_retries {
        let mut m = String::from_str("Retrying (");
        append_i64(&mut m, retries as i64);
        m.append("/");
        append_i64(&mut m, max_retries as i64);
        m.append(")");
        RetryDecision::Retry { message: m }
    } else {
        RetryDecision::GiveUp
    }
}

/// A status event.
pub fn status_event(
    job_id: i64,
    job_name: String,
    status: &str,
    result: Option<String>,
    error: Option<String>,
    timestamp: i64,
) -> (e: JobStatusEvent)
    ensures
        e.job_id == job_id,
        e.job_name@ == job_name@,
        e.status@ == status@,
        opt_chars(e.result) == opt_chars(result),
        opt_chars(e.error) == opt_chars(error),
        e.timestamp == timestamp,
{
    JobStatusEvent { job_id, job_name, status: String::from_str(status), result, error, timestamp }
}

/// Checks that a resolved file path lies within the working directory (component
/// by component); the error names the path as it was given.
pub fn check_within_workspace(canonical_path: &str, current_dir: &str, requested: &str) -> (r: Result<(), String>)
    ensures
        r is Ok == path_starts_with(canonical_path@, current_dir@),
        r matches Err(m) ==> m@ == "Access denied: path '"@ + requested@ + "' is outside workspace"@,
{
    if path_starts_with_exec(canonical_path, current_dir) {
        Ok(())
    } else {
        let mut m = String::from_str("Access denied: path '");
        m.append(requested);
        m.append("' is outside workspace");
        Err(m)
    }
}

/// Validates a job's file path from what the file system reported: the path
/// resolved (made absolute against the working directory and canonicalized), or
/// why resolving failed. The resolved path must lie within the working directory.
pub fn validate_file_path_outcome(
    requested: &str,
    current_dir: &str,
    resolved: Result<String, String>,
) -> (r: Result<String, String>)
    ensures
        match resolved {
            Err(e) => r matches Err(m) && m@ == "Failed to canonicalize path: "@ + e@,
            Ok(p) => if path_starts_with(p@, current_dir@) {
                r matches Ok(q) && q@ == p@
            } else {
                r matches Err(m) && m@ == "Access denied: path '"@ + requested@ + "' is outside workspace"@
            },
        },
{
    match resolved {
        Err(e) => {
            let mut m = String::from_str("Failed to canonicalize path: ");
            m.append(e.as_str());
            Err(m)
        },
        Ok(p) => match check_within_workspace(p.as_str(), current_dir, requested) {
            Ok(()) => Ok(p),
            Err(m) => Err(m),
        },
    }
}

/// The job as a run marks it: running.
pub fn mark_running(job: &mut BackgroundJob)
    ensures
        final(job).status@ == "running"@,
        *final(job) == (BackgroundJob { status: final(job).status, ..*old(job) }),
{
    job.status = String::from_str("running");
}

/// The job after a successful run: completed with its result; it stays active
/// when the run's schedule type is `cron`, a one-off job does not.
pub fn complete_job(job: &mut BackgroundJob, schedule_type: &str, result: Option<String>, error_message: Option<String>)
    ensures
        final(job).status@ == "completed"@,
        *final(job) == (BackgroundJob {
            status: final(job).status,
            result,
            error_message,
            is_active: schedule_type@ == "cron"@,
            ..*old(job)
        }),
{
    job.is_active = str_eq(schedule_type, "cron");
    job.status = String::from_str("completed");
    job.result = result;
    job.error_message = error_message;
}

/// The job after a run failed for good: failed, with the error.
pub fn fail_job(job: &mut BackgroundJob, error_message: String)
    ensures
        final(job).status@ == "failed"@,
        *final(job) == (BackgroundJob {
            status: final(job).status,
            result: None,
            error_message: Some(error_message),
            ..*old(job)
        }),
{
    job.status = String::from_str("failed");
    job.result = None;
    job.error_message = Some(error_message);
}

/// One more failed attempt.
pub fn increment_retries(job: &mut BackgroundJob)
    requires
        old(job).retries < i32::MAX,
    ensures
        *final(job) == (BackgroundJob { retries: (old(job).retries + 1) as i32, ..*old(job) }),
{
    job.retries = job.retries + 1;
}

/// The job after it is cancelled: cancelled and inactive.
pub fn cancel_job(job: &mut BackgroundJob)
    ensures
        final(job).status@ == "cancelled"@,
        *final(job) == (BackgroundJob { status: final(job).status, is_active: false, ..*old(job) }),
{
    job.status = String::from_str("cancelled");
    job.is_active = false;
}

/// A job as the API shows it, with the payload and the result as JSON text.
#[derive(Debug, Clone)]
pub struct JobResponse {
    pub id: i64,
    pub name: String,
    pub schedule_type: String,
    pub cron_expression: Option<String>,
    pub priority: i32,
    pub max_cpu_percent: i32,
    pub status: String,
    pub last_run: Option<String>,
    pub next_run: Option<String>,
    pub retries: i32,
    pub max_retries: i32,
    /// The stored payload when it is JSON, else `{}`.
    pub payload: String,
    /// The stored result when it is JSON.
    pub result: Option<String>,
    pub error_message: Option<String>,
    pub is_active: bool,
    pub timeout_seconds: i64,
}

/// A stored text kept only when it is JSON.
pub open spec fn json_only(o: Option<String>) -> Option<Seq<char>> {
    match o {
        Some(t) => if crate::schema::json_error(t@) is None { Some(t@) } else { None },
        None => None,
    }
}

impl JobResponse {
    /// The API view of a stored job: an unsaved job shows id 0, a payload that is
    /// not JSON shows as `{}`, a result that is not JSON is left out.
    pub fn from(job: &BackgroundJob) -> (r: Self)
        ensures
            r.id == (match job.id { Some(i) => i, None => 0 }),
            r.name@ == job.name@,
            r.schedule_type@ == job.schedule_type@,
            opt_chars(r.cron_expression) == opt_chars(job.cron_expression),
            r.priority == job.priority,
            r.max_cpu_percent == job.max_cpu_percent,
            r.status@ == job.status@,
            opt_chars(r.last_run) == opt_chars(job.last_run),
            opt_chars(r.next_run) == opt_chars(job.next_run),
            r.retries == job.retries,
            r.max_retries == job.max_retries,
            r.payload@ == (if crate::schema::json_error(job.payload@) is None { job.payload@ } else { "{}"@ }),
            opt_chars(r.result) == json_only(job.result),
            opt_chars(r.error_message) == opt_chars(job.error_message),
            r.is_active == job.is_active,
            r.timeout_seconds == job.timeout_seconds,
    {
        let payload = if crate::schema::is_json(job.payload.as_str()) {
            job.payload.clone()
        } else {
            String::from_str("{}")
        };
        let result = match &job.result {
            Some(t) => if crate::schema::is_json(t.as_str()) { Some(t.clone()) } else { None },
            None => None,
        };
        JobResponse {
            id: match job.id { Some(i) => i, None => 0 },
            name: job.name.clone(),
            schedule_type: job.schedule_type.clone(),
            cron_expression: clone_opt(&job.cron_expression),
            priority: job.priority,
            max_cpu_percent: job.max_cpu_percent,
            status: job.status.clone(),
            last_run: clone_opt(&job.last_run),
            next_run: clone_opt(&job.next_run),
            retries: job.retries,
            max_retries: job.max_retries,
            payload,
            result,
            error_message: clone_opt(&job.error_message),
            is_active: job.is_active,
            timeout_seconds: job.timeout_seconds,
        }
    }
}

/// A cron job after it is paused: inactive, otherwise unchanged; pausing leaves
/// a one-off job as it is.
pub open spec fn paused(job: BackgroundJob) -> BackgroundJob {
    if job.schedule_type@ == "cron"@ {
        BackgroundJob { is_active: false, ..job }
    } else {
        job
    }
}

/// A cron job after it is resumed: active, otherwise unchanged; resuming leaves
/// a one-off job as it is.
pub open spec fn resumed(job: BackgroundJob) -> BackgroundJob {
    if job.schedule_type@ == "cron"@ {
        BackgroundJob { is_active: true, ..job }
    } else {
        job
    }
}

/// Pauses a job (only cron jobs are affected).
pub fn pause_job(job: &mut BackgroundJob)
    ensures
        *final(job) == paused(*old(job)),
{
    if str_eq(job.schedule_type.as_str(), "cron") {
        job.is_active = false;
    }
}

/// Resumes a job (only cron jobs are affected).
pub fn resume_job(job: &mut BackgroundJob)
    ensures
        *final(job) == resumed(*old(job)),
{
    if str_eq(job.schedule_type.as_str(), "cron") {
        job.is_active = true;
    }
}

/// Resuming a paused job gives back the job as it was, when it was active.
pub proof fn law_pause_then_resume(job: BackgroundJob)
    requires
        job.is_active,
    ensures
        resumed(paused(job)) == job,
{
}

/// Pausing never touches a one-off job.
pub proof fn law_pause_only_cron(job: BackgroundJob)
    requires
        job.schedule_type@ != "cron"@,
    ensures
        paused(job) == job,
        resumed(job) == job,
{
}

} // verus!

//! A single job: its state, its output and how it ended.

use crate::jobs::output::{
    appended, output_items, output_wf, JobOutputRingBuffer, Output, OutputStream,
};
use crate::json::{
    json_str, json_view, make_value, new_object, no_members, object_insert, text_value, Json,
    JsonNumber, Node,
};
use crate::text::byte_length;
use serde_json::Value;
use vstd::prelude::*;

verus! {

pub const JOB_START_NEXT_ACTION_HINT: &'static str =
    "This job is running in the background. Continue other useful work if available, then poll status or read output later when needed.";

/// How far a job is.
#[derive(Debug, Clone, Copy, PartialEq, Eq, Structural)]
pub enum JobState {
    Starting,
    Running,
    Completed,
    Failed,
    Cancelled,
}

/// How a job ended.
#[derive(Debug, Clone, Copy, PartialEq, Eq, Structural)]
pub enum JobTerminalState {
    Completed,
    Failed,
    Cancelled,
}

/// The name of an end.
pub open spec fn terminal_name(state: JobTerminalState) -> Seq<char> {
    match state {
        JobTerminalState::Completed => "completed"@,
        JobTerminalState::Failed => "failed"@,
        JobTerminalState::Cancelled => "cancelled"@,
    }
}

impl JobTerminalState {
    /// The name of the end.
    pub fn as_str(self) -> (name: &'static str)
        ensures
            name@ == terminal_name(self),
    {
        match self {
            JobTerminalState::Completed => "completed",
            JobTerminalState::Failed => "failed",
            JobTerminalState::Cancelled => "cancelled",
        }
    }
}

/// The name of a state.
pub open spec fn state_name(state: JobState) -> Seq<char> {
    match state {
        JobState::Starting => "starting"@,
        JobState::Running => "running"@,
        JobState::Completed => "completed"@,
        JobState::Failed => "failed"@,
        JobState::Cancelled => "cancelled"@,
    }
}

/// The end that a state stands for.
pub open spec fn terminal_of(state: JobState) -> Option<JobTerminalState> {
    match state {
        JobState::Completed => Some(JobTerminalState::Completed),
        JobState::Failed => Some(JobTerminalState::Failed),
        JobState::Cancelled => Some(JobTerminalState::Cancelled),
        _ => None,
    }
}

/// Whether a job has ended.
pub open spec fn is_ended(state: JobState) -> bool {
    terminal_of(state) is Some
}

impl JobState {
    /// The name of the state.
    pub fn as_str(self) -> (name: &'static str)
        ensures
            name@ == state_name(self),
    {
        match self {
            JobState::Starting => "starting",
            JobState::Running => "running",
            JobState::Completed => "completed",
            JobState::Failed => "failed",
            JobState::Cancelled => "cancelled",
        }
    }

    pub fn is_terminal(self) -> (ended: bool)
        ensures
            ended == is_ended(self),
    {
        matches!(self, JobState::Completed | JobState::Failed | JobState::Cancelled)
    }

    pub fn terminal_state(self) -> (end: Option<JobTerminalState>)
        ensures
            end == terminal_of(self),
    {
        match self {
            JobState::Completed => Some(JobTerminalState::Completed),
            JobState::Failed => Some(JobTerminalState::Failed),
            JobState::Cancelled => Some(JobTerminalState::Cancelled),
            JobState::Starting | JobState::Running => None,
        }
    }
}

/// Why a job failed.
#[derive(Debug, Clone)]
pub struct JobFailurePayload {
    pub code: &'static str,
    pub message: String,
}

/// The contents of a [`JobFailurePayload`].
#[verifier::ext_equal]
pub struct Failure {
    pub code: Seq<char>,
    pub message: Seq<char>,
}

/// A job. Points in time are counted in nanoseconds.
#[derive(Debug)]
pub struct JobEntry {
    pub job_id: String,
    pub name: String,
    pub state: JobState,
    pub output: JobOutputRingBuffer,
    pub result: Option<Value>,
    pub error: Option<JobFailurePayload>,
    pub cancel_requested: bool,
    pub has_child: bool,
    pub finished_at: Option<u64>,
    pub execution_finished: bool,
}

/// The contents of a [`JobEntry`].
#[verifier::ext_equal]
pub struct Job {
    pub job_id: Seq<char>,
    pub name: Seq<char>,
    pub state: JobState,
    pub output: Output,
    pub result: Option<Json>,
    pub error: Option<Failure>,
    pub cancel_requested: bool,
    pub has_child: bool,
    pub finished_at: Option<u64>,
    pub execution_finished: bool,
}

/// The view of an optional failure.
pub open spec fn failure_view(failure: Option<JobFailurePayload>) -> Option<Failure> {
    match failure {
        Some(payload) => Some(Failure { code: payload.code@, message: payload.message@ }),
        None => None,
    }
}

/// The view of an optional result.
pub open spec fn result_view(result: Option<Value>) -> Option<Json> {
    match result {
        Some(value) => Some(json_view(value)),
        None => None,
    }
}

impl View for JobEntry {
    type V = Job;

    open spec fn view(&self) -> Job {
        Job {
            job_id: self.job_id@,
            name: self.name@,
            state: self.state,
            output: self.output@,
            result: result_view(self.result),
            error: failure_view(self.error),
            cancel_requested: self.cancel_requested,
            has_child: self.has_child,
            finished_at: self.finished_at,
            execution_finished: self.execution_finished,
        }
    }
}

/// A job has a time of its end exactly when it has ended.
pub open spec fn job_wf(job: Job) -> bool {
    &&& output_wf(job.output)
    &&& job.finished_at is Some <==> is_ended(job.state)
}

/// A new job.
pub open spec fn new_job(job_id: Seq<char>, name: Seq<char>, limit: nat) -> Job {
    Job {
        job_id,
        name,
        state: JobState::Starting,
        output: Output { limit, next_offset: 0, truncated_before: 0, segments: Seq::empty() },
        result: None,
        error: None,
        cancel_requested: false,
        has_child: false,
        finished_at: None,
        execution_finished: false,
    }
}

/// A job whose work has begun.
pub open spec fn job_running(job: Job) -> Job {
    if job.state == JobState::Starting {
        Job { state: JobState::Running, ..job }
    } else {
        job
    }
}

/// A job after it wrote something. A job that has ended writes nothing.
pub open spec fn job_output(job: Job, stream: OutputStream, text: Seq<char>) -> Job {
    if is_ended(job.state) {
        job
    } else {
        Job { output: appended(job.output, stream, text), ..job }
    }
}

/// A job after it completed. The first end of a job is the one that counts.
pub open spec fn job_completed(job: Job, result: Json, now: u64) -> Job {
    if is_ended(job.state) {
        job
    } else {
        Job {
            state: JobState::Completed,
            result: Some(result),
            error: None,
            has_child: false,
            finished_at: Some(now),
            ..job
        }
    }
}

/// A job after it failed.
pub open spec fn job_failed(job: Job, failure: Failure, now: u64) -> Job {
    if is_ended(job.state) {
        job
    } else {
        Job {
            state: JobState::Failed,
            result: None,
            error: Some(failure),
            has_child: false,
            finished_at: Some(now),
            ..job
        }
    }
}

/// Why a cancelled job has no result.
pub open spec fn cancelled_failure() -> Failure {
    Failure { code: "job_cancelled"@, message: "The Threadline job was cancelled."@ }
}

/// Why a job failed that never said how it ended.
pub open spec fn unfinished_failure() -> Failure {
    Failure {
        code: "job_did_not_finalize"@,
        message: "The Threadline job ended without reporting a terminal state."@,
    }
}

/// A job after someone asked to cancel it.
pub open spec fn job_cancelled(job: Job, now: u64) -> Job {
    if is_ended(job.state) {
        Job { cancel_requested: true, ..job }
    } else {
        Job {
            cancel_requested: true,
            state: JobState::Cancelled,
            result: None,
            error: Some(cancelled_failure()),
            finished_at: Some(now),
            ..job
        }
    }
}

/// A job after a process was started for it.
pub open spec fn job_with_child(job: Job) -> Job {
    if is_ended(job.state) {
        job
    } else {
        Job { has_child: true, ..job }
    }
}

/// A job whose worker is gone.
pub open spec fn job_execution_finished(job: Job, now: u64) -> Job {
    Job { execution_finished: true, ..job_failed(job, unfinished_failure(), now) }
}

/// What a job says of itself.
pub open spec fn snapshot_json(job: Job) -> Json {
    Json::Object(
        no_members().insert("ok"@, Json::Bool(true)).insert("job_id"@, Json::Str(job.job_id)).insert(
            "name"@,
            Json::Str(job.name),
        ).insert("status"@, Json::Str(state_name(job.state))).insert(
            "finished"@,
            Json::Bool(is_ended(job.state)),
        ).insert("cancel_requested"@, Json::Bool(job.cancel_requested)).insert(
            "terminal_state"@,
            match terminal_of(job.state) {
                Some(end) => Json::Str(terminal_name(end)),
                None => Json::Null,
            },
        ),
    )
}

/// What a job has written, from an offset on.
pub open spec fn output_json(job: Job, offset: u64) -> Json {
    Json::Object(
        no_members().insert("ok"@, Json::Bool(true)).insert("job_id"@, Json::Str(job.job_id)).insert(
            "status"@,
            Json::Str(state_name(job.state)),
        ).insert("items"@, Json::Array(output_items(job.output, offset as int))).insert(
            "next_offset"@,
            Json::Number(JsonNumber::Unsigned(job.output.next_offset as u64)),
        ).insert(
            "truncated_before"@,
            Json::Number(JsonNumber::Unsigned(job.output.truncated_before as u64)),
        ),
    )
}

/// What came of a job.
pub open spec fn result_json(job: Job) -> Json {
    Json::Object(
        no_members().insert("ok"@, Json::Bool(true)).insert("job_id"@, Json::Str(job.job_id)).insert(
            "status"@,
            Json::Str(state_name(job.state)),
        ).insert(
            "result"@,
            match job.result {
                Some(result) => result,
                None => Json::Null,
            },
        ).insert(
            "error"@,
            match job.error {
                Some(failure) => Json::Object(
                    no_members().insert("code"@, Json::Str(failure.code)).insert(
                        "message"@,
                        Json::Str(failure.message),
                    ),
                ),
                None => Json::Null,
            },
        ),
    )
}

/// The answer for a job that is not there.
pub open spec fn not_found_json(job_id: Seq<char>) -> Json {
    Json::Object(
        no_members().insert("ok"@, Json::Bool(false)).insert("code"@, json_str("job_not_found")).insert(
            "message"@,
            json_str("Threadline could not find a job with that job_id."),
        ).insert("job_id"@, Json::Str(job_id)),
    )
}

/// The answer for a request that is refused.
pub open spec fn stable_error_json(code: Seq<char>, message: Seq<char>) -> Json {
    Json::Object(
        no_members().insert("ok"@, Json::Bool(false)).insert("code"@, Json::Str(code)).insert(
            "message"@,
            Json::Str(message),
        ),
    )
}

/// The answer for a job that was started.
pub open spec fn started_json(job_id: Seq<char>) -> Json {
    Json::Object(
        no_members().insert("ok"@, Json::Bool(true)).insert("job_id"@, Json::Str(job_id)).insert(
            "status"@,
            json_str("starting"),
        ).insert("next_action_hint"@, Json::Str(JOB_START_NEXT_ACTION_HINT@)),
    )
}

fn answer(ok: bool) -> (document: serde_json::Map<String, Value>)
    ensures
        crate::json::object_view(document) == no_members().insert("ok"@, Json::Bool(ok)),
{
    let mut document = new_object();
    object_insert(&mut document, "ok", make_value(Node::Bool(ok)));
    document
}

/// The answer for a job that is not there.
pub fn job_not_found(job_id: &str) -> (document: Value)
    ensures
        json_view(document) == not_found_json(job_id@),
{
    let mut document = answer(false);
    object_insert(&mut document, "code", text_value("job_not_found"));
    object_insert(
        &mut document,
        "message",
        text_value("Threadline could not find a job with that job_id."),
    );
    object_insert(&mut document, "job_id", text_value(job_id));
    make_value(Node::Object(document))
}

/// The answer for a request that is refused.
pub fn stable_error(code: &str, message: &str) -> (document: Value)
    ensures
        json_view(document) == stable_error_json(code@, message@),
{
    let mut document = answer(false);
    object_insert(&mut document, "code", text_value(code));
    object_insert(&mut document, "message", text_value(message));
    make_value(Node::Object(document))
}

/// The answer for a job that was started.
pub fn job_started_json(job_id: &str) -> (document: Value)
    ensures
        json_view(document) == started_json(job_id@),
{
    let mut document = answer(true);
    object_insert(&mut document, "job_id", text_value(job_id));
    object_insert(&mut document, "status", text_value("starting"));
    object_insert(&mut document, "next_action_hint", text_value(JOB_START_NEXT_ACTION_HINT));
    make_value(Node::Object(document))
}

impl JobEntry {
    /// The contents obey the rules of a job.
    pub open spec fn wf(&self) -> bool {
        job_wf(self@)
    }

    /// A new job.
    pub fn new(job_id: String, name: &str, output_limit: usize) -> (job: Self)
        ensures
            job.wf(),
            job@ == new_job(job_id@, name@, output_limit as nat),
    {
        JobEntry {
            job_id,
            name: name.to_owned(),
            state: JobState::Starting,
            output: JobOutputRingBuffer::new(output_limit),
            result: None,
            error: None,
            cancel_requested: false,
            has_child: false,
            finished_at: None,
            execution_finished: false,
        }
    }

    /// Takes note that the work has begun.
    pub fn mark_running(&mut self)
        requires
            old(self).wf(),
        ensures
            final(self).wf(),
            final(self)@ == job_running(old(self)@),
    {
        if let JobState::Starting = self.state {
            self.state = JobState::Running;
        }
    }

    /// Takes note of what the job wrote.
    pub fn push_output(&mut self, stream: OutputStream, text: &str)
        requires
            old(self).wf(),
            old(self).output.next_offset + byte_length(text@) <= u64::MAX,
        ensures
            final(self).wf(),
            final(self)@ == job_output(old(self)@, stream, text@),
    {
        if self.state.is_terminal() {
            return ;
        }
        self.output.append(stream, text);
    }

    /// Takes note that the job completed.
    pub fn complete(&mut self, result: Value, now: u64)
        requires
            old(self).wf(),
        ensures
            final(self).wf(),
            final(self)@ == job_completed(old(self)@, json_view(result), now),
    {
        if self.state.is_terminal() {
            return ;
        }
        self.state = JobState::Completed;
        self.result = Some(result);
        self.error = None;
        self.has_child = false;
        self.finished_at = Some(now);
    }

    /// Takes note that the job failed.
    pub fn fail(&mut self, code: &'static str, message: String, now: u64)
        requires
            old(self).wf(),
        ensures
            final(self).wf(),
            final(self)@ == job_failed(
                old(self)@,
                Failure { code: code@, message: message@ },
                now,
            ),
    {
        if self.state.is_terminal() {
            return ;
        }
        self.state = JobState::Failed;
        self.result = None;
        self.error = Some(JobFailurePayload { code, message });
        self.has_child = false;
        self.finished_at = Some(now);
    }

    /// Takes note that someone asked to cancel the job. Its process, if it has one, is to be killed.
    pub fn cancel(&mut self, now: u64) -> (kill_child: bool)
        requires
            old(self).wf(),
        ensures
            final(self).wf(),
            final(self)@ == job_cancelled(old(self)@, now),
            kill_child == old(self)@.has_child,
    {
        self.cancel_requested = true;
        if !self.state.is_terminal() {
            self.state = JobState::Cancelled;
            self.result = None;
            self.error = Some(
                JobFailurePayload {
                    code: "job_cancelled",
                    message: "The Threadline job was cancelled.".to_owned(),
                },
            );
            self.finished_at = Some(now);
        }
        self.has_child
    }

    /// Takes note that a process was started for the job.
    pub fn attach_child(&mut self)
        requires
            old(self).wf(),
        ensures
            final(self).wf(),
            final(self)@ == job_with_child(old(self)@),
    {
        if !self.state.is_terminal() {
            self.has_child = true;
        }
    }

    /// Takes note that the process of the job is gone.
    pub fn clear_child(&mut self)
        requires
            old(self).wf(),
        ensures
            final(self).wf(),
            final(self)@ == (Job { has_child: false, ..old(self)@ }),
    {
        self.has_child = false;
    }

    /// Fails the job unless it has ended.
    pub fn fail_if_unresolved(&mut self, now: u64)
        requires
            old(self).wf(),
        ensures
            final(self).wf(),
            final(self)@ == job_failed(old(self)@, unfinished_failure(), now),
    {
        self.fail(
            "job_did_not_finalize",
            "The Threadline job ended without reporting a terminal state.".to_owned(),
            now,
        )
    }

    /// Takes note that the worker of the job is gone.
    pub fn finish_execution(&mut self, now: u64)
        requires
            old(self).wf(),
        ensures
            final(self).wf(),
            final(self)@ == job_execution_finished(old(self)@, now),
    {
        self.fail_if_unresolved(now);
        self.execution_finished = true;
    }

    /// What the job says of itself.
    pub fn snapshot(&self) -> (document: Value)
        ensures
            json_view(document) == snapshot_json(self@),
    {
        let mut document = answer(true);
        object_insert(&mut document, "job_id", text_value(self.job_id.as_str()));
        object_insert(&mut document, "name", text_value(self.name.as_str()));
        object_insert(&mut document, "status", text_value(self.state.as_str()));
        object_insert(
            &mut document,
            "finished",
            make_value(Node::Bool(self.state.is_terminal())),
        );
        object_insert(
            &mut document,
            "cancel_requested",
            make_value(Node::Bool(self.cancel_requested)),
        );
        let terminal_state = match self.state.terminal_state() {
            Some(end) => text_value(end.as_str()),
            None => make_value(Node::Null),
        };
        object_insert(&mut document, "terminal_state", terminal_state);
        make_value(Node::Object(document))
    }

    /// What the job has written, from an offset on.
    pub fn output_document(&self, offset: u64) -> (document: Value)
        requires
            self.wf(),
        ensures
            json_view(document) == output_json(self@, offset),
    {
        let mut document = answer(true);
        object_insert(&mut document, "job_id", text_value(self.job_id.as_str()));
        object_insert(&mut document, "status", text_value(self.state.as_str()));
        object_insert(&mut document, "items", make_value(Node::Array(self.output.read_from(offset))));
        object_insert(
            &mut document,
            "next_offset",
            make_value(Node::Unsigned(self.output.next_offset)),
        );
        object_insert(
            &mut document,
            "truncated_before",
            make_value(Node::Unsigned(self.output.truncated_before)),
        );
        make_value(Node::Object(document))
    }

    /// What came of the job.
    pub fn result_document(&self) -> (document: Value)
        ensures
            json_view(document) == result_json(self@),
    {
        let mut document = answer(true);
        object_insert(&mut document, "job_id", text_value(self.job_id.as_str()));
        object_insert(&mut document, "status", text_value(self.state.as_str()));
        let result = match &self.result {
            Some(value) => value.clone(),
            None => make_value(Node::Null),
        };
        object_insert(&mut document, "result", result);
        let error = match &self.error {
            Some(failure) => {
                let mut described = new_object();
                object_insert(&mut described, "code", text_value(failure.code));
                object_insert(&mut described, "message", text_value(failure.message.as_str()));
                make_value(Node::Object(described))
            },
            None => make_value(Node::Null),
        };
        object_insert(&mut document, "error", error);
        make_value(Node::Object(document))
    }
}

/// What a job did once it has ended stays as it is: its state, its result, its error, its output
/// and the time of its end, whatever is reported later.
pub proof fn law_ended_job_stays_as_it_is(
    job: Job,
    stream: OutputStream,
    text: Seq<char>,
    result: Json,
    failure: Failure,
    now: u64,
)
    requires
        is_ended(job.state),
    ensures
        job_running(job) == job,
        job_output(job, stream, text) == job,
        job_completed(job, result, now) == job,
        job_failed(job, failure, now) == job,
        job_cancelled(job, now) == (Job { cancel_requested: true, ..job }),
        job_execution_finished(job, now) == (Job { execution_finished: true, ..job }),
{
}

} // verus!

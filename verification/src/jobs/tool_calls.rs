//! Calls of the bridge's own tools, carried out against the job manager.

use crate::codex_ws::is_uuid_text;
use crate::errors::ThreadlineError;
use crate::jobs::entry::{
    job_cancelled, new_job, output_json, result_json, snapshot_json, stable_error,
    stable_error_json, started_json, Job,
};
use crate::jobs::manager::{
    admits_job, answer_for, command_refusal, job_of, pruned, with_job, without_job,
    ThreadlineJobManager, ThreadlineJobManagerConfig,
};
use crate::json::{
    array_of, array_view, field, field_text, field_text_view, json_array, json_field, json_u64,
    json_view, optional_json, serialized_json, u64_of, value_str, value_text, Json,
};
use crate::text::{same_text, texts};
use crate::tools::{
    InternalToolCall, PendingInternalToolOutput, ToolCall, ToolOutput, CANCEL_JOB_TOOL_NAME,
    ECHO_TOOL_NAME, GET_JOB_RESULT_TOOL_NAME, POLL_JOB_TOOL_NAME, READ_JOB_OUTPUT_TOOL_NAME,
    START_JOB_TOOL_NAME,
};
use serde_json::Value;
use vstd::prelude::*;

verus! {

/// What a tool call asks for.
pub enum ToolRequest {
    Echo(Seq<char>),
    StartJob(Seq<Seq<char>>),
    PollJob(Seq<char>),
    ReadJobOutput(Seq<char>, u64),
    GetJobResult(Seq<char>),
    CancelJob(Seq<char>),
    /// The arguments do not fit the tool.
    Invalid(Seq<char>),
    /// There is no such tool.
    Unknown,
}

/// The texts in a list that holds nothing else.
pub open spec fn text_list(document: Option<Json>) -> Option<Seq<Seq<char>>> {
    match json_array(document) {
        Some(items) => if forall|i: int| 0 <= i < items.len() ==> (#[trigger] items[i]) is Str {
            Some(items.map_values(|item: Json| item->Str_0))
        } else {
            None
        },
        None => None,
    }
}

/// The offset that arguments name; the start where they name none.
pub open spec fn offset_argument(arguments: Json) -> u64 {
    match json_u64(json_field(arguments, "offset"@)) {
        Some(offset) => offset,
        None => 0,
    }
}

/// What is echoed: the value, or else the arguments as they are.
pub open spec fn echoed_text(arguments: Json) -> Seq<char> {
    match field_text_view(arguments, "value"@) {
        Some(text) => text,
        None => serialized_json(arguments),
    }
}

/// What a tool call asks for.
pub open spec fn tool_request(call: ToolCall) -> ToolRequest {
    let arguments = call.arguments;
    let job_id = field_text_view(arguments, "job_id"@);
    if call.name == ECHO_TOOL_NAME@ {
        ToolRequest::Echo(echoed_text(arguments))
    } else if call.name == START_JOB_TOOL_NAME@ {
        match text_list(json_field(arguments, "command"@)) {
            Some(command) => ToolRequest::StartJob(command),
            None => ToolRequest::Invalid(
                "threadline_start_job requires a command array of strings."@,
            ),
        }
    } else if call.name == POLL_JOB_TOOL_NAME@ {
        match job_id {
            Some(id) => ToolRequest::PollJob(id),
            None => ToolRequest::Invalid("threadline_poll_job requires a job_id string."@),
        }
    } else if call.name == READ_JOB_OUTPUT_TOOL_NAME@ {
        match job_id {
            Some(id) => ToolRequest::ReadJobOutput(id, offset_argument(arguments)),
            None => ToolRequest::Invalid("threadline_read_job_output requires a job_id string."@),
        }
    } else if call.name == GET_JOB_RESULT_TOOL_NAME@ {
        match job_id {
            Some(id) => ToolRequest::GetJobResult(id),
            None => ToolRequest::Invalid("threadline_get_job_result requires a job_id string."@),
        }
    } else if call.name == CANCEL_JOB_TOOL_NAME@ {
        match job_id {
            Some(id) => ToolRequest::CancelJob(id),
            None => ToolRequest::Invalid("threadline_cancel_job requires a job_id string."@),
        }
    } else {
        ToolRequest::Unknown
    }
}

/// What carrying out a tool call comes to.
#[derive(Debug, Clone)]
pub enum ToolExecution {
    /// The output of the tool.
    Output(PendingInternalToolOutput),
    /// A worker is to be launched for a job; the output follows then.
    LaunchCommand { call_id: String, job_id: String, command: Vec<String> },
    /// The output of the tool, and the process of a job is to be killed.
    KillCommand { output: PendingInternalToolOutput, job_id: String },
}

/// The output of a tool call with a document.
pub open spec fn document_output(call_id: Seq<char>, document: Json) -> ToolOutput {
    ToolOutput { call_id, output: serialized_json(document) }
}

/// What a tool call comes to.
pub open spec fn is_execution(
    call: ToolCall,
    before: Seq<Job>,
    after: Seq<Job>,
    config: ThreadlineJobManagerConfig,
    now: u64,
    executed: Result<ToolExecution, ThreadlineError>,
) -> bool {
    let kept = pruned(before, now, config.retention_ttl);
    match tool_request(call) {
        ToolRequest::Unknown => executed == Err::<ToolExecution, _>(
            ThreadlineError::InternalToolFailed,
        ) && after == before,
        ToolRequest::Echo(text) => after == before && (executed matches Ok(ToolExecution::Output(
            output,
        )) && output@ == (ToolOutput { call_id: call.call_id, output: text })),
        ToolRequest::Invalid(message) => after == before && (executed matches Ok(
            ToolExecution::Output(output),
        ) && output@ == document_output(
            call.call_id,
            stable_error_json("invalid_job_request"@, message),
        )),
        ToolRequest::PollJob(id) => after == kept && (executed matches Ok(ToolExecution::Output(
            output,
        )) && output@ == document_output(
            call.call_id,
            answer_for(job_of(kept, id), id, |job: Job| snapshot_json(job)),
        )),
        ToolRequest::ReadJobOutput(id, offset) => after == kept && (executed matches Ok(
            ToolExecution::Output(output),
        ) && output@ == document_output(
            call.call_id,
            answer_for(job_of(kept, id), id, |job: Job| output_json(job, offset)),
        )),
        ToolRequest::GetJobResult(id) => after == kept && (executed matches Ok(
            ToolExecution::Output(output),
        ) && output@ == document_output(
            call.call_id,
            answer_for(job_of(kept, id), id, |job: Job| result_json(job)),
        )),
        ToolRequest::CancelJob(id) => {
            let document = answer_for(
                job_of(kept, id),
                id,
                |job: Job| snapshot_json(job_cancelled(job, now)),
            );
            &&& after == with_job(kept, id, |job: Job| job_cancelled(job, now))
            &&& if job_of(kept, id) matches Some(job) && job.has_child {
                executed matches Ok(ToolExecution::KillCommand { output, job_id }) && output@
                    == document_output(call.call_id, document) && job_id@ == id
            } else {
                executed matches Ok(ToolExecution::Output(output)) && output@ == document_output(
                    call.call_id,
                    document,
                )
            }
        },
        ToolRequest::StartJob(command) => match command_refusal(kept, config, command) {
            Some(document) => after == kept && (executed matches Ok(ToolExecution::Output(output))
                && output@ == document_output(call.call_id, document)),
            None => executed matches Ok(
                ToolExecution::LaunchCommand { call_id, job_id, command: parts },
            ) && call_id@ == call.call_id && texts(parts@) == command && is_uuid_text(job_id@)
                && admits_job(
                kept,
                after,
                config,
                new_job(job_id@, "command"@, config.output_buffer_limit_bytes as nat),
            ),
        },
    }
}

fn extract_string_list(value: Option<&Value>) -> (list: Option<Vec<String>>)
    ensures
        match list {
            Some(parts) => text_list(optional_json(value)) == Some(texts(parts@)),
            None => text_list(optional_json(value)) is None,
        },
{
    let items = match array_of(value) {
        Some(items) => items,
        None => return None,
    };
    let ghost documents = array_view(items@);
    let mut parts: Vec<String> = Vec::new();
    let mut i: usize = 0;
    while i < items.len()
        invariant
            i <= items@.len(),
            documents == array_view(items@),
            json_array(optional_json(value)) == Some(documents),
            parts@.len() == i,
            forall|j: int| 0 <= j < i ==> (#[trigger] documents[j]) is Str,
            forall|j: int| 0 <= j < i ==> (#[trigger] parts@[j])@ == documents[j]->Str_0,
        decreases items@.len() - i,
    {
        assert(documents[i as int] == json_view(items@[i as int]));
        match value_str(&items[i]) {
            Some(text) => parts.push(text.to_owned()),
            None => {
                assert(!(documents[i as int] is Str));
                return None;
            },
        }
        i += 1;
    }
    assert(texts(parts@) =~= documents.map_values(|item: Json| item->Str_0));
    Some(parts)
}

fn document_text(call_id: String, document: &Value) -> (output: PendingInternalToolOutput)
    ensures
        output@ == document_output(call_id@, json_view(*document)),
{
    PendingInternalToolOutput { call_id, output: value_text(document) }
}

fn invalid_job_request(call_id: String, message: &str) -> (output: PendingInternalToolOutput)
    ensures
        output@ == document_output(
            call_id@,
            stable_error_json("invalid_job_request"@, message@),
        ),
{
    document_text(call_id, &stable_error("invalid_job_request", message))
}

proof fn lemma_tool_names_differ()
    ensures
        ECHO_TOOL_NAME@.len() == 15,
        START_JOB_TOOL_NAME@.len() == 20,
        POLL_JOB_TOOL_NAME@.len() == 19,
        READ_JOB_OUTPUT_TOOL_NAME@.len() == 26,
        GET_JOB_RESULT_TOOL_NAME@.len() == 25,
        CANCEL_JOB_TOOL_NAME@.len() == 21,
{
    reveal_strlit("threadline_echo");
    reveal_strlit("threadline_start_job");
    reveal_strlit("threadline_poll_job");
    reveal_strlit("threadline_read_job_output");
    reveal_strlit("threadline_get_job_result");
    reveal_strlit("threadline_cancel_job");
}

impl InternalToolCall {
    /// Carries the call out.
    pub fn execute_with_job_manager(self, manager: &mut ThreadlineJobManager, now: u64) -> (executed:
        Result<ToolExecution, ThreadlineError>)
        requires
            old(manager).wf(),
        ensures
            final(manager).wf(),
            final(manager).config == old(manager).config,
            is_execution(
                self@,
                old(manager)@,
                final(manager)@,
                old(manager).config,
                now,
                executed,
            ),
    {
        let name = self.name.as_str();
        let call_id = self.call_id.clone();
        proof {
            lemma_tool_names_differ();
        }
        if same_text(name, ECHO_TOOL_NAME) {
            let output = match field_text(&self.arguments, "value") {
                Some(text) => text.to_owned(),
                None => value_text(&self.arguments),
            };
            return Ok(ToolExecution::Output(PendingInternalToolOutput { call_id, output }));
        }
        if same_text(name, START_JOB_TOOL_NAME) {
            let command = match extract_string_list(field(&self.arguments, "command")) {
                Some(command) => command,
                None => return Ok(
                    ToolExecution::Output(
                        invalid_job_request(
                            call_id,
                            "threadline_start_job requires a command array of strings.",
                        ),
                    ),
                ),
            };
            return match manager.start_command_json(&command, now) {
                Ok(job_id) => Ok(ToolExecution::LaunchCommand { call_id, job_id, command }),
                Err(document) => Ok(ToolExecution::Output(document_text(call_id, &document))),
            };
        }
        let missing = if same_text(name, POLL_JOB_TOOL_NAME) {
            "threadline_poll_job requires a job_id string."
        } else if same_text(name, READ_JOB_OUTPUT_TOOL_NAME) {
            "threadline_read_job_output requires a job_id string."
        } else if same_text(name, GET_JOB_RESULT_TOOL_NAME) {
            "threadline_get_job_result requires a job_id string."
        } else if same_text(name, CANCEL_JOB_TOOL_NAME) {
            "threadline_cancel_job requires a job_id string."
        } else {
            return Err(ThreadlineError::InternalToolFailed);
        };
        let job_id = match field_text(&self.arguments, "job_id") {
            Some(job_id) => job_id,
            None => return Ok(ToolExecution::Output(invalid_job_request(call_id, missing))),
        };
        if same_text(name, CANCEL_JOB_TOOL_NAME) {
            let outcome = manager.cancel_json(job_id, now);
            let output = document_text(call_id, &outcome.document);
            return if outcome.kill_child {
                Ok(ToolExecution::KillCommand { output, job_id: job_id.to_owned() })
            } else {
                Ok(ToolExecution::Output(output))
            };
        }
        let document = if same_text(name, POLL_JOB_TOOL_NAME) {
            manager.poll_json(job_id, now)
        } else if same_text(name, READ_JOB_OUTPUT_TOOL_NAME) {
            let offset = match u64_of(field(&self.arguments, "offset")) {
                Some(offset) => offset,
                None => 0,
            };
            manager.read_output_json(job_id, offset, now)
        } else {
            manager.get_result_json(job_id, now)
        };
        Ok(ToolExecution::Output(document_text(call_id, &document)))
    }
}

/// The output of a call that started a job, once it is known whether a worker was launched.
pub fn launched_output(
    manager: &mut ThreadlineJobManager,
    call_id: String,
    job_id: &str,
    launched: bool,
) -> (output: PendingInternalToolOutput)
    requires
        old(manager).wf(),
    ensures
        final(manager).wf(),
        final(manager).config == old(manager).config,
        if launched {
            final(manager)@ == old(manager)@ && output@ == document_output(
                call_id@,
                started_json(job_id@),
            )
        } else {
            final(manager)@ == without_job(old(manager)@, job_id@) && output@ == document_output(
                call_id@,
                stable_error_json(
                    "job_worker_spawn_failed"@,
                    "Threadline could not start the job worker."@,
                ),
            )
        },
{
    let document = manager.command_launched_json(job_id, launched);
    document_text(call_id, &document)
}

/// As long as jobs are disabled, no call starts one, and there is nothing for a worker to do.
pub proof fn law_disabled_jobs_are_never_started(
    call: ToolCall,
    before: Seq<Job>,
    after: Seq<Job>,
    config: ThreadlineJobManagerConfig,
    now: u64,
    executed: Result<ToolExecution, ThreadlineError>,
)
    requires
        is_execution(call, before, after, config, now, executed),
        !config.jobs_enabled,
    ensures
        !(executed matches Ok(ToolExecution::LaunchCommand { .. })),
        tool_request(call) is StartJob ==> after == pruned(before, now, config.retention_ttl),
{
}

} // verus!

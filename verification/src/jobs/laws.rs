//! What holds of every job.

use crate::errors::ThreadlineError;
use crate::jobs::command::{job_command_ended, job_not_spawned, CommandEnding};
use crate::jobs::entry::{
    job_cancelled, job_completed, job_execution_finished, job_failed, job_output, job_running,
    job_with_child, new_job, output_json, result_json, snapshot_json, stable_error_json,
    started_json, Failure, Job,
    JobState, JOB_START_NEXT_ACTION_HINT,
};
use crate::jobs::manager::{
    active_count, admits_job, answer_for, command_refusal, has_job, ids_unique, is_expired, is_full,
    is_oldest_removable, is_removable, job_of, jobs_wf, pruned, room_made, with_job, without_job,
    ThreadlineJobManagerConfig,
};
use crate::jobs::output::{
    appended, output_items, output_wf, read_start, segment_json, visible_segments, Output,
    OutputStream, Segment,
};
use crate::jobs::tool_calls::{is_execution, tool_request, ToolExecution, ToolRequest};
use crate::json::{json_integer, member, serialized_json, Json, JsonNumber};
use crate::text::{text_before, texts};
use crate::tools::{
    ToolCall, ToolOutput, CANCEL_JOB_TOOL_NAME, ECHO_TOOL_NAME, GET_JOB_RESULT_TOOL_NAME,
    POLL_JOB_TOOL_NAME, READ_JOB_OUTPUT_TOOL_NAME, START_JOB_TOOL_NAME,
};
use vstd::prelude::*;

verus! {

/// Whether a job is over: it was completed, failed or was cancelled.
pub open spec fn is_over(job: Job) -> bool {
    job.state == JobState::Completed || job.state == JobState::Failed || job.state
        == JobState::Cancelled
}

/// The word for how far a job is.
pub open spec fn status_word(job: Job) -> Seq<char> {
    match job.state {
        JobState::Starting => "starting"@,
        JobState::Running => "running"@,
        JobState::Completed => "completed"@,
        JobState::Failed => "failed"@,
        JobState::Cancelled => "cancelled"@,
    }
}

proof fn lemma_answer_keys()
    ensures
        "ok"@.len() == 2,
        "job_id"@.len() == 6,
        "name"@.len() == 4,
        "code"@.len() == 4,
        "name"@[0] == 'n',
        "code"@[0] == 'c',
        "text"@.len() == 4,
        "text"@[0] == 't',
        "kind"@.len() == 4,
        "kind"@[0] == 'k',
        "status"@.len() == 6,
        "status"@[0] == 's',
        "job_id"@[0] == 'j',
        "result"@.len() == 6,
        "result"@[0] == 'r',
        "offset"@.len() == 6,
        "offset"@[0] == 'o',
        "stream"@.len() == 6,
        "stream"@[0] == 's',
        "finished"@.len() == 8,
        "cancel_requested"@.len() == 16,
        "cancel_requested"@[0] == 'c',
        "next_action_hint"@.len() == 16,
        "next_action_hint"@[0] == 'n',
        "truncated_before"@.len() == 16,
        "truncated_before"@[0] == 't',
        "terminal_state"@.len() == 14,
        "items"@.len() == 5,
        "items"@[0] == 'i',
        "error"@.len() == 5,
        "error"@[0] == 'e',
        "next_offset"@.len() == 11,
        "message"@.len() == 7,
        "message"@[0] == 'm',
        "command"@.len() == 7,
        "command"@[0] == 'c',
        "success"@.len() == 7,
        "success"@[0] == 's',
        "exit_code"@.len() == 9,
{
    reveal_strlit("ok");
    reveal_strlit("job_id");
    reveal_strlit("name");
    reveal_strlit("code");
    reveal_strlit("text");
    reveal_strlit("kind");
    reveal_strlit("status");
    reveal_strlit("result");
    reveal_strlit("offset");
    reveal_strlit("stream");
    reveal_strlit("finished");
    reveal_strlit("cancel_requested");
    reveal_strlit("next_action_hint");
    reveal_strlit("truncated_before");
    reveal_strlit("terminal_state");
    reveal_strlit("items");
    reveal_strlit("error");
    reveal_strlit("next_offset");
    reveal_strlit("message");
    reveal_strlit("command");
    reveal_strlit("success");
    reveal_strlit("exit_code");
}

/// Whether a document answers for a job and says how far it is.
pub open spec fn answers_for(document: Json, job: Job) -> bool {
    document matches Json::Object(members) && {
        &&& member(members, "ok"@) == Some(Json::Bool(true))
        &&& member(members, "job_id"@) == Some(Json::Str(job.job_id))
        &&& member(members, "status"@) == Some(Json::Str(status_word(job)))
    }
}

/// A poll says how far the job is: it is finished exactly when it was completed, failed or was
/// cancelled, and exactly then it has a terminal state, which is its status. Whether it was asked to
/// stop is said apart from that.
pub proof fn law_polls_tell_how_far_a_job_is(job: Job)
    ensures
        answers_for(snapshot_json(job), job),
        snapshot_json(job) matches Json::Object(members) && {
            &&& member(members, "name"@) == Some(Json::Str(job.name))
            &&& member(members, "finished"@) == Some(Json::Bool(is_over(job)))
            &&& member(members, "terminal_state"@) == Some(
                if is_over(job) {
                    Json::Str(status_word(job))
                } else {
                    Json::Null
                },
            )
            &&& member(members, "cancel_requested"@) == Some(Json::Bool(job.cancel_requested))
        },
{
    lemma_answer_keys();
}

/// A result says what came of the job: its result and its error, each null while there is none.
pub proof fn law_results_tell_what_came_of_a_job(job: Job)
    ensures
        answers_for(result_json(job), job),
        result_json(job) matches Json::Object(members) && {
            &&& member(members, "result"@) == Some(
                match job.result {
                    Some(result) => result,
                    None => Json::Null,
                },
            )
            &&& match job.error {
                Some(failure) => member(members, "error"@) matches Some(Json::Object(error)) && {
                    &&& member(error, "code"@) == Some(Json::Str(failure.code))
                    &&& member(error, "message"@) == Some(Json::Str(failure.message))
                },
                None => member(members, "error"@) == Some(Json::Null),
            }
        },
{
    lemma_answer_keys();
}

/// A read says from where to read on and how much is gone, and its items are what is there from the
/// offset on, or from the first byte that is left where the offset lies before it. Each item names
/// its stream, its text and where the text begins.
pub proof fn law_reads_tell_where_to_read_on(job: Job, offset: u64)
    requires
        output_wf(job.output),
    ensures
        answers_for(output_json(job, offset), job),
        output_json(job, offset) matches Json::Object(members) && {
            &&& member(members, "next_offset"@) == Some(
                Json::Number(JsonNumber::Unsigned(job.output.next_offset as u64)),
            )
            &&& member(members, "truncated_before"@) == Some(
                Json::Number(JsonNumber::Unsigned(job.output.truncated_before as u64)),
            )
            &&& member(members, "items"@) matches Some(Json::Array(items)) && {
                let shown = visible_segments(
                    job.output.segments,
                    if offset < job.output.truncated_before {
                        job.output.truncated_before
                    } else {
                        offset as int
                    },
                );
                &&& items.len() == shown.len()
                &&& forall|i: int|
                    0 <= i < shown.len() ==> is_item_for(#[trigger] items[i], shown[i])
            }
        },
{
    lemma_answer_keys();
    let shown = visible_segments(job.output.segments, read_start(job.output, offset as int));
    assert forall|i: int| 0 <= i < shown.len() implies is_item_for(
        #[trigger] output_items(job.output, offset as int)[i],
        shown[i],
    ) by {
        assert(output_items(job.output, offset as int)[i] == segment_json(shown[i]));
    }
}

/// Whether an item of a read shows a piece of output.
pub open spec fn is_item_for(item: Json, segment: Segment) -> bool {
    item matches Json::Object(members) && {
        &&& member(members, "offset"@) == Some(
            Json::Number(JsonNumber::Unsigned(segment.offset as u64)),
        )
        &&& member(members, "stream"@) == Some(
            Json::Str(
                match segment.stream {
                    OutputStream::Stdout => "stdout"@,
                    OutputStream::Stderr => "stderr"@,
                },
            ),
        )
        &&& member(members, "text"@) == Some(Json::Str(segment.text))
    }
}

/// A refusal says that nothing was done, and why.
pub open spec fn is_refusal(document: Json, code: Seq<char>) -> bool {
    document matches Json::Object(members) && {
        &&& member(members, "ok"@) == Some(Json::Bool(false))
        &&& member(members, "code"@) == Some(Json::Str(code))
        &&& member(members, "message"@) matches Some(Json::Str(_))
    }
}

/// Of a job that is not there, every request says so, with the id that was asked for; and of one
/// that is there, every request says what its answer is.
pub proof fn law_missing_jobs_are_reported(
    jobs: Seq<Job>,
    job_id: Seq<char>,
    answer: spec_fn(Job) -> Json,
)
    ensures
        (forall|i: int| 0 <= i < jobs.len() ==> (#[trigger] jobs[i]).job_id != job_id) ==> {
            let document = answer_for(job_of(jobs, job_id), job_id, answer);
            &&& is_refusal(document, "job_not_found"@)
            &&& member(document->Object_0, "job_id"@) == Some(Json::Str(job_id))
        },
        forall|i: int|
            ids_unique(jobs) && 0 <= i < jobs.len() && (#[trigger] jobs[i]).job_id == job_id
                ==> answer_for(job_of(jobs, job_id), job_id, answer) == answer(jobs[i]),
{
    lemma_answer_keys();
    assert forall|i: int|
        ids_unique(jobs) && 0 <= i < jobs.len() && (
        #[trigger] jobs[i]).job_id == job_id implies answer_for(
        job_of(jobs, job_id),
        job_id,
        answer,
    ) == answer(jobs[i]) by {
        assert(has_job(jobs, job_id));
        let k = choose|k: int| 0 <= k < jobs.len() && (#[trigger] jobs[k]).job_id == job_id;
        if k != i {
            assert(jobs[k].job_id != jobs[i].job_id);
        }
    }
}

/// A job that is not over ends as it is reported: completed with the given result and no error,
/// failed with the given error and no result, or cancelled with an error that says so. It ends at
/// the given time, and its id, name and output stay. A job that starts has nothing of all this.
pub proof fn law_jobs_end_as_reported(job: Job, result: Json, failure: Failure, now: u64)
    requires
        !is_over(job),
    ensures
        job_completed(job, result, now) == (Job {
            state: JobState::Completed,
            result: Some(result),
            error: None,
            has_child: false,
            finished_at: Some(now),
            ..job
        }),
        job_failed(job, failure, now) == (Job {
            state: JobState::Failed,
            result: None,
            error: Some(failure),
            has_child: false,
            finished_at: Some(now),
            ..job
        }),
        job_cancelled(job, now) == (Job {
            state: JobState::Cancelled,
            result: None,
            error: Some(
                Failure {
                    code: "job_cancelled"@,
                    message: "The Threadline job was cancelled."@,
                },
            ),
            cancel_requested: true,
            finished_at: Some(now),
            ..job
        }),
        job_execution_finished(job, now) == (Job {
            state: JobState::Failed,
            result: None,
            error: Some(
                Failure {
                    code: "job_did_not_finalize"@,
                    message: "The Threadline job ended without reporting a terminal state."@,
                },
            ),
            has_child: false,
            finished_at: Some(now),
            execution_finished: true,
            ..job
        }),
        job_running(job) == (Job { state: JobState::Running, ..job }),
        job_with_child(job) == (Job { has_child: true, ..job }),
{
}

/// A job that is over stays over: nothing that is reported later changes how it ended, what came of
/// it, what it put out or when it ended.
pub proof fn law_jobs_end_once(
    job: Job,
    result: Json,
    failure: Failure,
    stream: OutputStream,
    text: Seq<char>,
    now: u64,
)
    requires
        is_over(job),
    ensures
        job_running(job) == job,
        job_with_child(job) == job,
        job_output(job, stream, text) == job,
        job_completed(job, result, now) == job,
        job_failed(job, failure, now) == job,
        job_cancelled(job, now) == (Job { cancel_requested: true, ..job }),
        job_execution_finished(job, now) == (Job { execution_finished: true, ..job }),
{
}

/// Output of a job that is not over is added to what it put out before, and changes nothing else.
pub proof fn law_output_is_added(job: Job, stream: OutputStream, text: Seq<char>)
    requires
        !is_over(job),
    ensures
        job_output(job, stream, text) == (Job { output: appended(job.output, stream, text), ..job }),
{
}

/// What is reported of one job is told of that job, and changes no other.
pub proof fn law_reports_reach_their_job(
    jobs: Seq<Job>,
    job_id: Seq<char>,
    change: spec_fn(Job) -> Job,
    index: int,
)
    requires
        0 <= index < jobs.len(),
    ensures
        with_job(jobs, job_id, change).len() == jobs.len(),
        jobs[index].job_id != job_id ==> with_job(jobs, job_id, change)[index] == jobs[index],
        jobs[index].job_id == job_id ==> with_job(jobs, job_id, change)[index] == change(
            jobs[index],
        ),
{
}

/// A poll after a job was completed, failed or cancelled answers that it is finished.
pub proof fn law_ended_jobs_are_polled_as_finished(
    jobs: Seq<Job>,
    index: int,
    result: Json,
    failure: Failure,
    now: u64,
)
    requires
        ids_unique(jobs),
        0 <= index < jobs.len(),
    ensures
        ({
            let id = jobs[index].job_id;
            let poll = |after: Seq<Job>|
                answer_for(job_of(after, id), id, |job: Job| snapshot_json(job));
            &&& says_finished(poll(with_job(jobs, id, |job: Job| job_completed(job, result, now))))
            &&& says_finished(poll(with_job(jobs, id, |job: Job| job_failed(job, failure, now))))
            &&& says_finished(poll(with_job(jobs, id, |job: Job| job_cancelled(job, now))))
            &&& says_finished(poll(with_job(jobs, id, |job: Job| job_execution_finished(job, now))))
        }),
{
    let id = jobs[index].job_id;
    lemma_polled_after(jobs, index, |job: Job| job_completed(job, result, now));
    lemma_polled_after(jobs, index, |job: Job| job_failed(job, failure, now));
    lemma_polled_after(jobs, index, |job: Job| job_cancelled(job, now));
    lemma_polled_after(jobs, index, |job: Job| job_execution_finished(job, now));
}

/// Whether an answer says that a job is finished.
pub open spec fn says_finished(document: Json) -> bool {
    document matches Json::Object(members) && member(members, "finished"@) == Some(Json::Bool(true))
}

proof fn lemma_polled_after(jobs: Seq<Job>, index: int, change: spec_fn(Job) -> Job)
    requires
        ids_unique(jobs),
        0 <= index < jobs.len(),
        forall|job: Job| (#[trigger] change(job)).job_id == job.job_id && is_over(change(job)),
    ensures
        says_finished(
            answer_for(
                job_of(with_job(jobs, jobs[index].job_id, change), jobs[index].job_id),
                jobs[index].job_id,
                |job: Job| snapshot_json(job),
            ),
        ),
{
    let id = jobs[index].job_id;
    let after = with_job(jobs, id, change);
    assert(after[index] == change(jobs[index]));
    assert forall|i: int, j: int|
        0 <= i < after.len() && 0 <= j < after.len() && i != j implies (#[trigger] after[i]).job_id
        != (#[trigger] after[j]).job_id by {
        assert(jobs[i].job_id != jobs[j].job_id);
    }
    law_missing_jobs_are_reported(after, id, |job: Job| snapshot_json(job));
    law_polls_tell_how_far_a_job_is(after[index]);
}

/// Whether a job has been kept long enough to be forgotten: it is over, its worker is gone, and the
/// retention time has passed since its end.
pub open spec fn is_past_retention(job: Job, now: u64, ttl: u128) -> bool {
    &&& is_over(job)
    &&& job.execution_finished
    &&& job.finished_at matches Some(end) && (if now >= end {
        now - end
    } else {
        0
    }) >= ttl
}

/// Exactly the jobs that have been kept long enough are forgotten. All others stay as they are, in
/// their order.
pub proof fn law_jobs_are_kept_for_their_time(jobs: Seq<Job>, now: u64, ttl: u128)
    ensures
        pruned(jobs, now, ttl) == jobs.filter(|job: Job| !is_past_retention(job, now, ttl)),
    decreases jobs.len(),
{
    reveal(Seq::filter);
    if jobs.len() > 0 {
        law_jobs_are_kept_for_their_time(jobs.drop_last(), now, ttl);
        assert(is_expired(jobs.last(), now, ttl) == is_past_retention(jobs.last(), now, ttl));
    }
}

proof fn lemma_active_jobs(jobs: Seq<Job>)
    ensures
        active_count(jobs) == jobs.filter(|job: Job| !job.execution_finished).len(),
    decreases jobs.len(),
{
    reveal(Seq::filter);
    if jobs.len() > 0 {
        lemma_active_jobs(jobs.drop_last());
    }
}

/// A job is refused for want of room exactly when as many workers are there as may be, or when as
/// many jobs are known as may be and none of them is over with its worker gone.
pub proof fn law_jobs_are_refused_for_want_of_room(
    jobs: Seq<Job>,
    config: ThreadlineJobManagerConfig,
)
    requires
        jobs_wf(jobs, config),
    ensures
        is_full(jobs, config) <==> {
            ||| jobs.filter(|job: Job| !job.execution_finished).len() >= config.max_active_jobs
            ||| jobs.len() >= config.max_retained_jobs && forall|i: int|
                0 <= i < jobs.len() ==> !(is_over(#[trigger] jobs[i]) && jobs[i].execution_finished)
        },
{
    lemma_active_jobs(jobs);
    assert forall|i: int| 0 <= i < jobs.len() implies is_removable(#[trigger] jobs[i]) == (is_over(
        jobs[i],
    ) && jobs[i].execution_finished) by {
        assert(crate::jobs::entry::job_wf(jobs[i]));
    }
}

proof fn lemma_without_absent(jobs: Seq<Job>, job_id: Seq<char>)
    requires
        forall|i: int| 0 <= i < jobs.len() ==> (#[trigger] jobs[i]).job_id != job_id,
    ensures
        without_job(jobs, job_id) == jobs,
    decreases jobs.len(),
{
    if jobs.len() > 0 {
        assert(jobs.last() == jobs[jobs.len() - 1]);
        assert forall|i: int| 0 <= i < jobs.len() - 1 implies (
        #[trigger] jobs.drop_last()[i]).job_id != job_id by {
            assert(jobs.drop_last()[i] == jobs[i]);
        }
        lemma_without_absent(jobs.drop_last(), job_id);
        assert(jobs.drop_last().push(jobs.last()) =~= jobs);
    }
}

/// A new job comes behind the others. While there is room, all others stay; otherwise one of them
/// makes room, which is over, whose worker is gone, and which ended before every other such job, or
/// at the same time and with an id that comes first.
pub proof fn law_new_jobs_come_behind_the_others(
    jobs: Seq<Job>,
    after: Seq<Job>,
    config: ThreadlineJobManagerConfig,
    added: Job,
)
    requires
        jobs_wf(jobs, config),
        forall|i: int| 0 <= i < jobs.len() ==> (#[trigger] jobs[i]).job_id != added.job_id,
        admits_job(jobs, after, config, added),
    ensures
        jobs.len() < config.max_retained_jobs ==> after == jobs.push(added),
        jobs.len() >= config.max_retained_jobs ==> exists|index: int| #[trigger]
            makes_room(jobs, index) && after == jobs.remove(index).push(added),
{
    let room = choose|room: Seq<Job>| #[trigger]
        room_made(jobs, room, config.max_retained_jobs as nat) && after == without_job(
            room,
            added.job_id,
        ).push(added);
    if jobs.len() < config.max_retained_jobs {
        lemma_without_absent(jobs, added.job_id);
    } else {
        let index = choose|index: int| #[trigger]
            is_oldest_removable(jobs, index) && room == jobs.remove(index);
        assert forall|i: int| 0 <= i < room.len() implies (#[trigger] room[i]).job_id
            != added.job_id by {
            assert(room[i] == if i < index {
                jobs[i]
            } else {
                jobs[i + 1]
            });
        }
        lemma_without_absent(room, added.job_id);
        assert forall|other: int|
            0 <= other < jobs.len() && other != index && is_over(
                #[trigger] jobs[other],
            ) && jobs[other].execution_finished implies jobs[index].finished_at->0
            < jobs[other].finished_at->0 || (jobs[index].finished_at->0
            == jobs[other].finished_at->0 && text_before(
            jobs[index].job_id,
            jobs[other].job_id,
        )) by {
            assert(crate::jobs::entry::job_wf(jobs[other]));
            assert(is_removable(jobs[other]));
        }
        assert(makes_room(jobs, index));
    }
}

/// Whether a job can make room for a new one, and comes before every other that can.
pub open spec fn makes_room(jobs: Seq<Job>, index: int) -> bool {
    &&& 0 <= index < jobs.len()
    &&& is_over(jobs[index])
    &&& jobs[index].execution_finished
    &&& forall|other: int|
        0 <= other < jobs.len() && other != index && is_over(#[trigger] jobs[other])
            && jobs[other].execution_finished ==> jobs[index].finished_at->0
            < jobs[other].finished_at->0 || (jobs[index].finished_at->0
            == jobs[other].finished_at->0 && text_before(jobs[index].job_id, jobs[other].job_id))
}

/// A command is started exactly when jobs are switched on, it names a program, that program is
/// among the allowed ones, letter for letter, and there is room. Otherwise the answer says which of
/// these does not hold, the first of them in this order.
pub proof fn law_commands_are_refused_in_order(
    jobs: Seq<Job>,
    config: ThreadlineJobManagerConfig,
    command: Seq<Seq<char>>,
)
    ensures
        match command_refusal(jobs, config, command) {
            None => {
                &&& config.jobs_enabled
                &&& command.len() > 0
                &&& exists|i: int|
                    0 <= i < config.allowed_commands@.len() && (
                    #[trigger] config.allowed_commands@[i])@ == command[0]
                &&& !is_full(jobs, config)
            },
            Some(document) => if !config.jobs_enabled {
                is_refusal(document, "jobs_disabled"@)
            } else if command.len() == 0 {
                is_refusal(document, "invalid_job_request"@)
            } else if forall|i: int|
                0 <= i < config.allowed_commands@.len() ==> (
                #[trigger] config.allowed_commands@[i])@ != command[0] {
                is_refusal(document, "job_command_not_allowed"@)
            } else {
                is_refusal(document, "job_capacity_exceeded"@) && is_full(jobs, config)
            },
        },
{
    lemma_answer_keys();
    let allowed = texts(config.allowed_commands@);
    if command.len() > 0 && allowed.contains(command.first()) {
        let i = choose|i: int| 0 <= i < allowed.len() && allowed[i] == command.first();
        assert(config.allowed_commands@[i]@ == command[0]);
    } else if command.len() > 0 {
        assert forall|i: int| 0 <= i < config.allowed_commands@.len() implies (
        #[trigger] config.allowed_commands@[i])@ != command[0] by {
            assert(allowed[i] == config.allowed_commands@[i]@);
        }
    }
}

/// A job that was started is answered with its id, under which it can be asked for.
pub proof fn law_started_jobs_are_answered_with_their_id(job_id: Seq<char>)
    ensures
        started_json(job_id) matches Json::Object(members) && {
            &&& member(members, "ok"@) == Some(Json::Bool(true))
            &&& member(members, "job_id"@) == Some(Json::Str(job_id))
            &&& member(members, "status"@) == Some(Json::Str("starting"@))
            &&& member(members, "next_action_hint"@) == Some(Json::Str(JOB_START_NEXT_ACTION_HINT@))
        },
{
    lemma_answer_keys();
}

/// What a command comes to, for a job that is not over and was not cancelled: a clean end with
/// success completes the job with the command and its exit code; any other end fails it, with a
/// code that says why.
pub proof fn law_commands_come_to_what_they_did(
    job: Job,
    command: Seq<Seq<char>>,
    ending: CommandEnding,
    cleaned_up: bool,
    now: u64,
)
    requires
        !is_over(job),
        !job.cancel_requested,
    ensures
        ({
            let ended = job_command_ended(job, command, ending, cleaned_up, now);
            let code = |failed: Job| failed.error->0.code;
            &&& ended == Job {
                state: ended.state,
                result: ended.result,
                error: ended.error,
                has_child: false,
                finished_at: Some(now),
                ..job
            }
            &&& match ending {
                CommandEnding::Exited { success, code: exit_code } => if cleaned_up && success {
                    &&& ended.state == JobState::Completed
                    &&& ended.error is None
                    &&& ended.result matches Some(Json::Object(result)) && {
                        &&& member(result, "kind"@) == Some(Json::Str("command"@))
                        &&& member(result, "success"@) == Some(Json::Bool(true))
                        &&& member(result, "exit_code"@) == Some(
                            match exit_code {
                                Some(value) => json_integer(value as int),
                                None => Json::Null,
                            },
                        )
                        &&& member(result, "command"@) matches Some(Json::Array(parts))
                            && parts.len() == command.len() && forall|i: int|
                            0 <= i < parts.len() ==> #[trigger] parts[i] == Json::Str(command[i])
                    }
                } else {
                    &&& ended.state == JobState::Failed
                    &&& ended.result is None
                    &&& ended.error is Some
                    &&& code(ended) == if cleaned_up {
                        "job_command_failed"@
                    } else {
                        "job_worker_cleanup_incomplete"@
                    }
                },
                CommandEnding::ReaderFailed => {
                    &&& ended.state == JobState::Failed
                    &&& ended.result is None
                    &&& ended.error is Some
                    &&& code(ended) == "job_output_reader_spawn_failed"@
                },
                CommandEnding::ObservationFailed(_) => {
                    &&& ended.state == JobState::Failed
                    &&& ended.result is None
                    &&& ended.error is Some
                    &&& code(ended) == "job_command_failed"@
                },
            }
        }),
{
    lemma_answer_keys();
}

/// A command that could not be started fails its job, and the failure says why.
pub proof fn law_commands_that_do_not_start_fail(job: Job, error: Seq<char>, now: u64)
    requires
        !is_over(job),
    ensures
        ({
            let failed = job_not_spawned(job, error, now);
            &&& failed.state == JobState::Failed
            &&& failed.error matches Some(failure) && failure.code == "job_command_spawn_failed"@
                && exists|said: Seq<char>| failure.message == #[trigger] (said + error)
            &&& failed.finished_at == Some(now)
            &&& failed.job_id == job.job_id
            &&& failed.output == job.output
        }),
{
    assert("Threadline could not start the requested command: "@ + error
        == job_not_spawned(job, error, now).error->0.message);
}

proof fn lemma_tool_names()
    ensures
        "threadline_echo"@.len() == 15,
        "threadline_start_job"@.len() == 20,
        "threadline_poll_job"@.len() == 19,
        "threadline_read_job_output"@.len() == 26,
        "threadline_get_job_result"@.len() == 25,
        "threadline_cancel_job"@.len() == 21,
        ECHO_TOOL_NAME@ == "threadline_echo"@,
        START_JOB_TOOL_NAME@ == "threadline_start_job"@,
        POLL_JOB_TOOL_NAME@ == "threadline_poll_job"@,
        READ_JOB_OUTPUT_TOOL_NAME@ == "threadline_read_job_output"@,
        GET_JOB_RESULT_TOOL_NAME@ == "threadline_get_job_result"@,
        CANCEL_JOB_TOOL_NAME@ == "threadline_cancel_job"@,
{
    reveal_strlit("threadline_echo");
    reveal_strlit("threadline_start_job");
    reveal_strlit("threadline_poll_job");
    reveal_strlit("threadline_read_job_output");
    reveal_strlit("threadline_get_job_result");
    reveal_strlit("threadline_cancel_job");
}

/// Each tool does what it is named for, with the arguments of the call.
pub proof fn law_tools_take_their_arguments(call: ToolCall, arguments: Map<Seq<char>, Json>)
    requires
        call.arguments == Json::Object(arguments),
    ensures
        ({
            let request = tool_request(call);
            let job_id = member(arguments, "job_id"@);
            let offset = match member(arguments, "offset"@) {
                Some(Json::Number(JsonNumber::Unsigned(value))) => value,
                _ => 0,
            };
            &&& call.name == "threadline_echo"@ ==> request == ToolRequest::Echo(
                match member(arguments, "value"@) {
                    Some(Json::Str(text)) => text,
                    _ => serialized_json(call.arguments),
                },
            )
            &&& call.name == "threadline_start_job"@ ==> match request {
                ToolRequest::StartJob(command) => member(arguments, "command"@) matches Some(
                    Json::Array(parts),
                ) && parts.len() == command.len() && forall|i: int|
                    0 <= i < parts.len() ==> #[trigger] parts[i] == Json::Str(command[i]),
                ToolRequest::Invalid(_) => member(arguments, "command"@) matches Some(
                    Json::Array(parts),
                ) ==> exists|i: int| 0 <= i < parts.len() && !(#[trigger] parts[i] is Str),
                _ => false,
            }
            &&& job_id matches Some(Json::Str(id)) ==> {
                &&& call.name == "threadline_poll_job"@ ==> request == ToolRequest::PollJob(id)
                &&& call.name == "threadline_read_job_output"@ ==> request
                    == ToolRequest::ReadJobOutput(id, offset)
                &&& call.name == "threadline_get_job_result"@ ==> request
                    == ToolRequest::GetJobResult(id)
                &&& call.name == "threadline_cancel_job"@ ==> request == ToolRequest::CancelJob(id)
            }
            &&& !(job_id matches Some(Json::Str(_))) && (call.name == "threadline_poll_job"@
                || call.name == "threadline_read_job_output"@ || call.name
                == "threadline_get_job_result"@ || call.name == "threadline_cancel_job"@)
                ==> request is Invalid
            &&& request is Unknown <==> (call.name != "threadline_echo"@ && call.name
                != "threadline_start_job"@ && call.name != "threadline_poll_job"@ && call.name
                != "threadline_read_job_output"@ && call.name != "threadline_get_job_result"@
                && call.name != "threadline_cancel_job"@)
        }),
{
    lemma_tool_names();
}

/// The output of a tool, whoever hands it over.
pub open spec fn output_of(executed: Result<ToolExecution, ThreadlineError>) -> Option<ToolOutput> {
    match executed {
        Ok(ToolExecution::Output(output)) => Some(output@),
        Ok(ToolExecution::KillCommand { output, .. }) => Some(output@),
        _ => None,
    }
}

/// Whether a tool answered a call with a document.
pub open spec fn answered_with(
    executed: Result<ToolExecution, ThreadlineError>,
    call: ToolCall,
    document: Json,
) -> bool {
    output_of(executed) == Some(
        ToolOutput { call_id: call.call_id, output: serialized_json(document) },
    )
}

/// Whether a tool answered a call with a refusal.
pub open spec fn is_refused(
    executed: Result<ToolExecution, ThreadlineError>,
    call: ToolCall,
    code: Seq<char>,
) -> bool {
    exists|document: Json| #[trigger]
        answered_with(executed, call, document) && is_refusal(document, code)
}

/// Every question on a job that is not there is answered with the refusal that says so, and none
/// changes anything but that old jobs are forgotten.
pub proof fn law_questions_on_missing_jobs_are_refused(
    call: ToolCall,
    before: Seq<Job>,
    after: Seq<Job>,
    config: ThreadlineJobManagerConfig,
    now: u64,
    executed: Result<ToolExecution, ThreadlineError>,
    job_id: Seq<char>,
    offset: u64,
)
    requires
        is_execution(call, before, after, config, now, executed),
        forall|i: int|
            0 <= i < pruned(before, now, config.retention_ttl).len() ==> (#[trigger] pruned(
                before,
                now,
                config.retention_ttl,
            )[i]).job_id != job_id,
        tool_request(call) == ToolRequest::PollJob(job_id) || tool_request(call)
            == ToolRequest::GetJobResult(job_id) || tool_request(call) == ToolRequest::CancelJob(
            job_id,
        ) || tool_request(call) == ToolRequest::ReadJobOutput(job_id, offset),
    ensures
        after == pruned(before, now, config.retention_ttl),
        is_refused(executed, call, "job_not_found"@),
{
    let kept = pruned(before, now, config.retention_ttl);
    law_missing_jobs_are_reported(kept, job_id, |job: Job| snapshot_json(job));
    let document = answer_for(job_of(kept, job_id), job_id, |job: Job| snapshot_json(job));
    assert(job_of(kept, job_id) is None);
    assert(answered_with(executed, call, document));
    assert(with_job(kept, job_id, |job: Job| job_cancelled(job, now)) =~= kept);
}

/// Every call is answered under its own id: an echo with its text and a question on a job with what
/// is known of that job after old ones were forgotten. Questions change nothing else. Cancelling
/// ends the job, and its process is killed where it has one.
pub proof fn law_calls_are_answered(
    call: ToolCall,
    before: Seq<Job>,
    after: Seq<Job>,
    config: ThreadlineJobManagerConfig,
    now: u64,
    executed: Result<ToolExecution, ThreadlineError>,
    index: int,
)
    requires
        is_execution(call, before, after, config, now, executed),
        ids_unique(pruned(before, now, config.retention_ttl)),
        0 <= index < pruned(before, now, config.retention_ttl).len(),
    ensures
        ({
            let kept = pruned(before, now, config.retention_ttl);
            let job = kept[index];
            match tool_request(call) {
                ToolRequest::Echo(text) => after == before && output_of(executed) == Some(
                    ToolOutput { call_id: call.call_id, output: text },
                ),
                ToolRequest::PollJob(id) => after == kept && (id == job.job_id ==> answered_with(
                    executed,
                    call,
                    snapshot_json(job),
                )),
                ToolRequest::ReadJobOutput(id, offset) => after == kept && (id == job.job_id
                    ==> answered_with(executed, call, output_json(job, offset))),
                ToolRequest::GetJobResult(id) => after == kept && (id == job.job_id
                    ==> answered_with(executed, call, result_json(job))),
                ToolRequest::CancelJob(id) => {
                    &&& after.len() == kept.len()
                    &&& id == job.job_id ==> {
                        &&& after[index] == job_cancelled(job, now)
                        &&& answered_with(executed, call, snapshot_json(after[index]))
                        &&& job.has_child <==> executed matches Ok(ToolExecution::KillCommand { .. })
                    }
                    &&& id != job.job_id ==> after[index] == job
                },
                ToolRequest::StartJob(command) => match command_refusal(kept, config, command) {
                    Some(document) => after == kept && answered_with(executed, call, document),
                    None => executed matches Ok(
                        ToolExecution::LaunchCommand { call_id, job_id, command: parts },
                    ) && {
                        &&& call_id@ == call.call_id
                        &&& texts(parts@) == command
                        &&& after.len() > 0
                        &&& after.last() == new_job(
                            job_id@,
                            "command"@,
                            config.output_buffer_limit_bytes as nat,
                        )
                        &&& admits_job(kept, after, config, after.last())
                    },
                },
                ToolRequest::Invalid(_) => after == before && is_refused(
                    executed,
                    call,
                    "invalid_job_request"@,
                ),
                ToolRequest::Unknown => after == before && executed == Err::<ToolExecution, _>(
                    ThreadlineError::InternalToolFailed,
                ),
            }
        }),
{
    lemma_answer_keys();
    let kept = pruned(before, now, config.retention_ttl);
    let job = kept[index];
    let id = job.job_id;
    if let ToolRequest::Invalid(message) = tool_request(call) {
        let document = stable_error_json("invalid_job_request"@, message);
        assert(is_refusal(document, "invalid_job_request"@));
        assert(answered_with(executed, call, document));
    }
    law_missing_jobs_are_reported(kept, id, |job: Job| snapshot_json(job));
    law_missing_jobs_are_reported(kept, id, |job: Job| result_json(job));
    law_missing_jobs_are_reported(kept, id, |job: Job| snapshot_json(job_cancelled(job, now)));
    if let ToolRequest::ReadJobOutput(_, offset) = tool_request(call) {
        law_missing_jobs_are_reported(kept, id, |job: Job| output_json(job, offset));
    }
    assert(has_job(kept, id));
    let k = choose|k: int| 0 <= k < kept.len() && (#[trigger] kept[k]).job_id == id;
    if k != index {
        assert(kept[k].job_id != kept[index].job_id);
    }
    assert(job_of(kept, id) == Some(job));
}

/// A new job is starting: nothing was put out, nothing came of it, and nobody asked it to stop.
pub proof fn law_new_jobs_are_starting(job_id: Seq<char>, name: Seq<char>, limit: nat)
    ensures
        ({
            let job = new_job(job_id, name, limit);
            &&& job.job_id == job_id
            &&& job.name == name
            &&& job.state == JobState::Starting
            &&& !is_over(job)
            &&& job.output.limit == limit
            &&& job.output.segments.len() == 0
            &&& job.output.next_offset == 0
            &&& job.output.truncated_before == 0
            &&& job.result is None
            &&& job.error is None
            &&& !job.cancel_requested
            &&& !job.has_child
            &&& job.finished_at is None
            &&& !job.execution_finished
        }),
{
}

} // verus!

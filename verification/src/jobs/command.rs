//! The run of a command: what its worker does, step by step.

use crate::jobs::entry::{job_completed, job_failed, job_running, job_with_child, Failure, Job};
use crate::jobs::manager::{
    is_cancel_requested, job_of, with_job, ManagedJobContext, ThreadlineJobManager,
};
use crate::json::{
    array_view, json_integer, json_str, json_view, make_value, new_object, no_members,
    object_insert, text_value, Json, Node,
};
use crate::text::{decimal, joined, optional_text, signed_decimal_text, texts};
use serde_json::Value;
use vstd::prelude::*;

verus! {

/// How the watch over a process ended.
#[derive(Debug, Clone)]
pub enum CommandEnding {
    /// A reader for its output could not be started.
    ReaderFailed,
    /// It could not be observed.
    ObservationFailed(String),
    /// It exited.
    Exited { success: bool, code: Option<i32> },
}

/// What the worker sees when it looks at the process.
#[derive(Debug, Clone)]
pub enum CommandObservation {
    Running,
    Failed(String),
    Exited { success: bool, code: Option<i32> },
}

/// What the worker does next.
#[derive(Debug, Clone)]
pub enum CommandStep {
    /// Start a reader for each output stream.
    StartReaders,
    /// Look at the process again after a short wait.
    Observe,
    /// Kill the process, wait for it and for the readers.
    CleanUp(CommandEnding),
    /// Nothing more is to be done. `release` tells whether the job's place may be given up.
    Done { release: bool },
}

/// An exit code in words.
pub open spec fn exit_code_text(code: Option<i32>) -> Seq<char> {
    match code {
        Some(value) => "Some("@ + signed_decimal_text(value as int) + ")"@,
        None => "None"@,
    }
}

/// The result of a command that succeeded.
pub open spec fn command_result(command: Seq<Seq<char>>, code: Option<i32>) -> Json {
    Json::Object(
        no_members().insert("kind"@, json_str("command")).insert(
            "command"@,
            Json::Array(command.map_values(|part: Seq<char>| Json::Str(part))),
        ).insert(
            "exit_code"@,
            match code {
                Some(value) => json_integer(value as int),
                None => Json::Null,
            },
        ).insert("success"@, Json::Bool(true)),
    )
}

/// A job whose command could not be started.
pub open spec fn job_not_spawned(job: Job, error: Seq<char>, now: u64) -> Job {
    job_failed(
        job,
        Failure {
            code: "job_command_spawn_failed"@,
            message: "Threadline could not start the requested command: "@ + error,
        },
        now,
    )
}

/// The failure that an ending stands for, when it is one whatever else happened.
pub open spec fn ending_failure(ending: CommandEnding, cleaned_up: bool) -> Option<Failure> {
    match ending {
        CommandEnding::ReaderFailed => Some(
            Failure {
                code: "job_output_reader_spawn_failed"@,
                message: "Threadline could not start a job output reader."@,
            },
        ),
        CommandEnding::ObservationFailed(error) => Some(
            Failure {
                code: "job_command_failed"@,
                message: "Threadline could not observe the command status: "@ + error@,
            },
        ),
        CommandEnding::Exited { .. } => if cleaned_up {
            None
        } else {
            Some(cleanup_failure())
        },
    }
}

/// The failure of a worker that could not clean up.
pub open spec fn cleanup_failure() -> Failure {
    Failure {
        code: "job_worker_cleanup_incomplete"@,
        message: "Threadline could not confirm job worker cleanup."@,
    }
}

/// A job whose process is gone.
pub open spec fn job_command_ended(
    job: Job,
    command: Seq<Seq<char>>,
    ending: CommandEnding,
    cleaned_up: bool,
    now: u64,
) -> Job {
    let detached = Job { has_child: false, ..job };
    match ending_failure(ending, cleaned_up) {
        Some(failure) => job_failed(detached, failure, now),
        None => if job.cancel_requested {
            detached
        } else if ending->success {
            job_completed(detached, command_result(command, ending->code), now)
        } else {
            job_failed(
                detached,
                Failure {
                    code: "job_command_failed"@,
                    message: "The Threadline job command exited unsuccessfully with code "@
                        + exit_code_text(ending->code) + "."@,
                },
                now,
            )
        },
    }
}

/// A command that runs for a job.
#[derive(Debug, Clone)]
pub struct CommandRun {
    pub context: ManagedJobContext,
    pub command: Vec<String>,
}

fn exit_code_words(code: Option<i32>) -> (text: String)
    ensures
        text@ == exit_code_text(code),
{
    match code {
        Some(value) => {
            let mut text = "Some(".to_owned();
            let ghost opening = text@;
            if value < 0 {
                text.append("-");
                let magnitude: u64 = (-(value as i64)) as u64;
                text.append(decimal(magnitude).as_str());
            } else {
                text.append(decimal(value as u64).as_str());
            }
            proof {
                assert(text@ =~= opening + signed_decimal_text(value as int));
            }
            text.append(")");
            text
        },
        None => "None".to_owned(),
    }
}

fn command_value(command: &Vec<String>) -> (value: Value)
    ensures
        json_view(value) == Json::Array(
            texts(command@).map_values(|part: Seq<char>| Json::Str(part)),
        ),
{
    let mut parts: Vec<Value> = Vec::new();
    let ghost expected = texts(command@).map_values(|part: Seq<char>| Json::Str(part));
    for i in 0..command.len()
        invariant
            expected == texts(command@).map_values(|part: Seq<char>| Json::Str(part)),
            array_view(parts@) == expected.take(i as int),
    {
        let ghost listed = array_view(parts@);
        let part = text_value(command[i].as_str());
        parts.push(part);
        proof {
            assert(array_view(parts@) =~= listed.push(json_view(part)));
            assert(expected.take(i + 1) =~= expected.take(i as int).push(expected[i as int]));
        }
    }
    assert(expected.take(expected.len() as int) =~= expected);
    make_value(Node::Array(parts))
}

fn command_result_value(command: &Vec<String>, code: Option<i32>) -> (value: Value)
    ensures
        json_view(value) == command_result(texts(command@), code),
{
    let mut document = new_object();
    object_insert(&mut document, "kind", text_value("command"));
    object_insert(&mut document, "command", command_value(command));
    let exit_code = match code {
        Some(value) => make_value(Node::Signed(value as i64)),
        None => make_value(Node::Null),
    };
    object_insert(&mut document, "exit_code", exit_code);
    object_insert(&mut document, "success", make_value(Node::Bool(true)));
    make_value(Node::Object(document))
}

proof fn lemma_two_changes(
    jobs: Seq<Job>,
    job_id: Seq<char>,
    first: spec_fn(Job) -> Job,
    second: spec_fn(Job) -> Job,
    both: spec_fn(Job) -> Job,
)
    requires
        forall|job: Job| (#[trigger] first(job)).job_id == job.job_id,
        forall|i: int|
            0 <= i < jobs.len() && (#[trigger] jobs[i]).job_id == job_id ==> both(jobs[i])
                == second(first(jobs[i])),
    ensures
        with_job(with_job(jobs, job_id, first), job_id, second) == with_job(jobs, job_id, both),
{
    let left = with_job(with_job(jobs, job_id, first), job_id, second);
    let right = with_job(jobs, job_id, both);
    assert forall|i: int| 0 <= i < jobs.len() implies left[i] == right[i] by {
        assert(first(jobs[i]).job_id == jobs[i].job_id);
    }
    assert(left =~= right);
}

impl CommandRun {
    /// Takes note that the worker has begun.
    pub fn begin(&self, manager: &mut ThreadlineJobManager)
        requires
            old(manager).wf(),
        ensures
            final(manager).wf(),
            final(manager).config == old(manager).config,
            final(manager)@ == with_job(
                old(manager)@,
                self.context.job_id@,
                |job: Job| job_running(job),
            ),
    {
        self.context.mark_running(manager)
    }

    /// The step after the command was started, or could not be. A command that could not be started
    /// leaves nothing behind, so its job's place is given up.
    pub fn on_spawned(
        &self,
        manager: &mut ThreadlineJobManager,
        error: Option<String>,
        now: u64,
    ) -> (step: CommandStep)
        requires
            old(manager).wf(),
        ensures
            final(manager).wf(),
            final(manager).config == old(manager).config,
            match optional_text(error) {
                Some(text) => step == (CommandStep::Done { release: true }) && final(manager)@ == with_job(
                    old(manager)@,
                    self.context.job_id@,
                    |job: Job| job_not_spawned(job, text, now),
                ),
                None => step == CommandStep::StartReaders && final(manager)@ == with_job(
                    old(manager)@,
                    self.context.job_id@,
                    |job: Job| job_with_child(job),
                ),
            },
    {
        match error {
            Some(text) => {
                let message = joined(
                    "Threadline could not start the requested command: ",
                    text.as_str(),
                );
                let ghost before = manager@;
                let ghost id = self.context.job_id@;
                let ghost change = |job: Job|
                    job_failed(
                        job,
                        Failure { code: "job_command_spawn_failed"@, message: message@ },
                        now,
                    );
                self.context.fail(manager, "job_command_spawn_failed", message, now);
                proof {
                    let expected = |job: Job| job_not_spawned(job, text@, now);
                    assert(with_job(before, id, change) =~= with_job(before, id, expected));
                }
                CommandStep::Done { release: true }
            },
            None => {
                self.context.attach_child(manager);
                CommandStep::StartReaders
            },
        }
    }

    /// The step after the readers were started, or one could not be.
    pub fn on_readers(&self, started: bool) -> (step: CommandStep)
        ensures
            step == if started {
                CommandStep::Observe
            } else {
                CommandStep::CleanUp(CommandEnding::ReaderFailed)
            },
    {
        if started {
            CommandStep::Observe
        } else {
            CommandStep::CleanUp(CommandEnding::ReaderFailed)
        }
    }

    /// Whether the process is to be killed before it is looked at.
    pub fn kill_before_observing(&self, manager: &ThreadlineJobManager) -> (kill: bool)
        requires
            manager.wf(),
        ensures
            kill == is_cancel_requested(manager@, self.context.job_id@),
    {
        self.context.is_cancelled(manager)
    }

    /// The step after a look at the process.
    pub fn on_observed(&self, observation: CommandObservation) -> (step: CommandStep)
        ensures
            step == match observation {
                CommandObservation::Running => CommandStep::Observe,
                CommandObservation::Failed(error) => CommandStep::CleanUp(
                    CommandEnding::ObservationFailed(error),
                ),
                CommandObservation::Exited { success, code } => CommandStep::CleanUp(
                    CommandEnding::Exited { success, code },
                ),
            },
    {
        match observation {
            CommandObservation::Running => CommandStep::Observe,
            CommandObservation::Failed(error) => CommandStep::CleanUp(
                CommandEnding::ObservationFailed(error),
            ),
            CommandObservation::Exited { success, code } => CommandStep::CleanUp(
                CommandEnding::Exited { success, code },
            ),
        }
    }

    /// Ends the job after the clean-up, and says whether its place may be given up: only a clean-up
    /// that is confirmed does.
    pub fn on_cleaned_up(
        &self,
        manager: &mut ThreadlineJobManager,
        ending: CommandEnding,
        confirmed: bool,
        now: u64,
    ) -> (release: bool)
        requires
            old(manager).wf(),
        ensures
            final(manager).wf(),
            final(manager).config == old(manager).config,
            final(manager)@ == with_job(
                old(manager)@,
                self.context.job_id@,
                |job: Job| job_command_ended(job, texts(self.command@), ending, confirmed, now),
            ),
            release == confirmed,
    {
        let ghost before = manager@;
        let ghost id = self.context.job_id@;
        let ghost command = texts(self.command@);
        let ghost clear = |job: Job| Job { has_child: false, ..job };
        let ghost both = |job: Job| job_command_ended(job, command, ending, confirmed, now);
        let ghost expected = ending;
        self.context.clear_child(manager);
        let ghost cleared = manager@;
        let cancelled = self.context.is_cancelled(manager);
        proof {
            assert(cleared == with_job(before, id, clear));
            assert forall|i: int| 0 <= i < before.len() && (#[trigger] before[i]).job_id
                == id implies cancelled == before[i].cancel_requested by {
                lemma_found(before, cleared, id, i);
            }
        }
        let (code, message) = match ending {
            CommandEnding::ReaderFailed => (
                "job_output_reader_spawn_failed",
                "Threadline could not start a job output reader.".to_owned(),
            ),
            CommandEnding::ObservationFailed(error) => (
                "job_command_failed",
                joined("Threadline could not observe the command status: ", error.as_str()),
            ),
            CommandEnding::Exited { success, code } => {
                if !confirmed {
                    (
                        "job_worker_cleanup_incomplete",
                        "Threadline could not confirm job worker cleanup.".to_owned(),
                    )
                } else if cancelled {
                    proof {
                        let keep = |job: Job| job;
                        assert(with_job(cleared, id, keep) =~= cleared);
                        lemma_two_changes(before, id, clear, keep, both);
                    }
                    return true;
                } else if success {
                    let result = command_result_value(&self.command, code);
                    proof {
                        let finish = |job: Job| job_completed(job, json_view(result), now);
                        lemma_two_changes(before, id, clear, finish, both);
                    }
                    self.context.complete(manager, result, now);
                    return true;
                } else {
                    let mut message = joined(
                        "The Threadline job command exited unsuccessfully with code ",
                        exit_code_words(code).as_str(),
                    );
                    message.append(".");
                    ("job_command_failed", message)
                }
            },
        };
        proof {
            let failing = |job: Job|
                job_failed(job, Failure { code: code@, message: message@ }, now);
            lemma_two_changes(before, id, clear, failing, both);
        }
        self.context.fail(manager, code, message, now);
        confirmed
    }

    /// Fails a job whose worker broke down. Its place is not given up.
    pub fn on_worker_broken(&self, manager: &mut ThreadlineJobManager, now: u64)
        requires
            old(manager).wf(),
        ensures
            final(manager).wf(),
            final(manager).config == old(manager).config,
            final(manager)@ == with_job(
                old(manager)@,
                self.context.job_id@,
                |job: Job| job_failed(job, cleanup_failure(), now),
            ),
    {
        let ghost before = manager@;
        let ghost id = self.context.job_id@;
        let message = "Threadline could not confirm job worker cleanup.".to_owned();
        let ghost change = |job: Job|
            job_failed(
                job,
                Failure { code: "job_worker_cleanup_incomplete"@, message: message@ },
                now,
            );
        self.context.fail(manager, "job_worker_cleanup_incomplete", message, now);
        assert(with_job(before, id, change) =~= with_job(
            before,
            id,
            |job: Job| job_failed(job, cleanup_failure(), now),
        ));
    }
}

proof fn lemma_found(before: Seq<Job>, cleared: Seq<Job>, id: Seq<char>, index: int)
    requires
        crate::jobs::manager::ids_unique(before),
        cleared == with_job(before, id, |job: Job| Job { has_child: false, ..job }),
        0 <= index < before.len(),
        before[index].job_id == id,
    ensures
        is_cancel_requested(cleared, id) == before[index].cancel_requested,
{
    assert(cleared[index].job_id == id);
    let found = choose|i: int| 0 <= i < cleared.len() && (#[trigger] cleared[i]).job_id == id;
    assert(before[found].job_id == id);
    if found != index {
        assert(before[found].job_id != before[index].job_id);
    }
    assert(job_of(cleared, id) == Some(cleared[index]));
}

/// Cancelling wins over how the process exits: a job that was cancelled while its command ran stays
/// cancelled.
pub proof fn law_cancelled_command_stays_cancelled(
    job: Job,
    command: Seq<Seq<char>>,
    ending: CommandEnding,
    cleaned_up: bool,
    cancelled_at: u64,
    now: u64,
)
    requires
        !crate::jobs::entry::is_ended(job.state),
    ensures
        job_command_ended(
            crate::jobs::entry::job_cancelled(job, cancelled_at),
            command,
            ending,
            cleaned_up,
            now,
        ) == (Job { has_child: false, ..crate::jobs::entry::job_cancelled(job, cancelled_at) }),
{
}

} // verus!

use serde_json::Value;
use threadline::jobs::command::{CommandEnding, CommandObservation, CommandRun, CommandStep};
use threadline::jobs::entry::{job_started_json, JobEntry};
use threadline::jobs::manager::{
    ManagedJobContext, ThreadlineJobManager, ThreadlineJobManagerConfig,
};
use threadline::jobs::output::{trim_front_bytes, JobOutputRingBuffer, OutputStream};
use threadline::jobs::reader::{flush_output_chunks, remaining_output};
use threadline::jobs::tool_calls::{launched_output, ToolExecution};
use threadline::jobs::{JobState, JobTerminalState};
use threadline::tools::{InternalToolCall, PendingInternalToolOutput};

const SECOND: u64 = 1_000_000_000;

fn document(text: &str) -> Value {
    serde_json::from_str(text).expect("document")
}

fn manager(max_active_jobs: usize) -> ThreadlineJobManager {
    ThreadlineJobManager::new(ThreadlineJobManagerConfig {
        jobs_enabled: true,
        output_buffer_limit_bytes: 1024,
        retention_ttl: 60 * u128::from(SECOND),
        max_active_jobs,
        max_retained_jobs: 4,
        allowed_commands: Vec::new(),
    })
}

fn command_manager(max_active_jobs: usize) -> ThreadlineJobManager {
    ThreadlineJobManager::new(ThreadlineJobManagerConfig {
        jobs_enabled: true,
        output_buffer_limit_bytes: 1024,
        retention_ttl: 60 * u128::from(SECOND),
        max_active_jobs,
        max_retained_jobs: 4,
        allowed_commands: vec!["sh".to_string()],
    })
}

fn ttl_zero_manager() -> ThreadlineJobManager {
    ThreadlineJobManager::new(ThreadlineJobManagerConfig {
        jobs_enabled: true,
        output_buffer_limit_bytes: 1024,
        retention_ttl: 0,
        max_active_jobs: 4,
        max_retained_jobs: 16,
        allowed_commands: Vec::new(),
    })
}

fn test_command() -> Vec<String> {
    vec![
        "sh".to_string(),
        "-lc".to_string(),
        "printf stdout; printf stderr >&2".to_string(),
    ]
}

fn seed_entry(
    manager: &mut ThreadlineJobManager,
    job_id: &str,
    state: JobState,
    execution_finished: bool,
    finished_at: u64,
) -> String {
    let mut entry = JobEntry::new(job_id.to_string(), "seeded", 1024);
    entry.state = state;
    entry.finished_at = if state.is_terminal() {
        Some(finished_at)
    } else {
        None
    };
    entry.execution_finished = execution_finished;
    manager.entries.push(entry);
    job_id.to_string()
}

fn registry_contains(manager: &ThreadlineJobManager, job_id: &str) -> bool {
    manager.entries.iter().any(|entry| entry.job_id == job_id)
}

fn context(job_id: &str) -> ManagedJobContext {
    ManagedJobContext {
        job_id: job_id.to_string(),
    }
}

fn finished_at(manager: &ThreadlineJobManager, job_id: &str) -> Option<u64> {
    manager
        .entries
        .iter()
        .find(|entry| entry.job_id == job_id)
        .expect("entry")
        .finished_at
}

#[test]
fn expiry_uses_exact_ttl_boundary_and_tolerates_future_terminal_timestamps() {
    let mut manager = manager(3);
    let scan_time = 1000 * SECOND;

    let ids: Vec<String> = ["exact-boundary", "just-before", "future"]
        .iter()
        .map(|name| manager.admit_job(name, 0).expect("job"))
        .collect();
    for (id, time) in [
        (&ids[0], scan_time - 60 * SECOND),
        (&ids[1], scan_time - 59 * SECOND),
        (&ids[2], scan_time + 60 * SECOND),
    ] {
        context(id).complete(&mut manager, document(r#"{"summary": "done"}"#), time);
        context(id).finish_execution(&mut manager, time);
    }

    assert_eq!(manager.prune_expired(scan_time), 1);
    assert_eq!(manager.entries.len(), 2);
    assert!(registry_contains(&manager, &ids[1]));
    assert!(registry_contains(&manager, &ids[2]));
}

#[test]
fn lazy_expiry_removes_eligible_entries_at_each_public_boundary() {
    #[derive(Debug, Clone, Copy, PartialEq)]
    enum Boundary {
        SpawnJob,
        StartCommand,
        DisabledStart,
        InvalidStart,
        DisallowedStart,
        PollMissing,
        ReadMissing,
        ResultMissing,
        CancelMissing,
    }

    for boundary in [
        Boundary::SpawnJob,
        Boundary::StartCommand,
        Boundary::DisabledStart,
        Boundary::InvalidStart,
        Boundary::DisallowedStart,
        Boundary::PollMissing,
        Boundary::ReadMissing,
        Boundary::ResultMissing,
        Boundary::CancelMissing,
    ] {
        let command = test_command();
        let mut manager = ttl_zero_manager();
        match boundary {
            Boundary::StartCommand => manager.config.allowed_commands = vec![command[0].clone()],
            Boundary::DisabledStart => manager.config.jobs_enabled = false,
            _ => {}
        }
        let expired_id = seed_entry(&mut manager, "expired", JobState::Completed, true, 5);

        let response = match boundary {
            Boundary::SpawnJob => {
                let job_id = manager.admit_job("test", 5).expect("admitted");
                job_started_json(&job_id)
            }
            Boundary::StartCommand => {
                let job_id = manager.start_command_json(&command, 5).expect("admitted");
                manager.command_launched_json(&job_id, true)
            }
            Boundary::DisabledStart | Boundary::DisallowedStart => {
                manager.start_command_json(&command, 5).expect_err("refused")
            }
            Boundary::InvalidStart => manager
                .start_command_json(&Vec::new(), 5)
                .expect_err("refused"),
            Boundary::PollMissing => manager.poll_json("missing", 5),
            Boundary::ReadMissing => manager.read_output_json("missing", 0, 5),
            Boundary::ResultMissing => manager.get_result_json("missing", 5),
            Boundary::CancelMissing => manager.cancel_json("missing", 5).document,
        };

        assert!(
            !registry_contains(&manager, &expired_id),
            "expired entry survived {boundary:?}"
        );
        match boundary {
            Boundary::SpawnJob | Boundary::StartCommand => {
                assert_eq!(response["ok"], true);
                let job_id = response["job_id"].as_str().expect("job id");
                assert!(registry_contains(&manager, job_id));
            }
            Boundary::DisabledStart => assert_eq!(response["code"], "jobs_disabled"),
            Boundary::InvalidStart => assert_eq!(response["code"], "invalid_job_request"),
            Boundary::DisallowedStart => {
                assert_eq!(response["code"], "job_command_not_allowed")
            }
            Boundary::PollMissing
            | Boundary::ReadMissing
            | Boundary::ResultMissing
            | Boundary::CancelMissing => assert_eq!(response["code"], "job_not_found"),
        }
    }
}

#[test]
fn terminal_lookups_and_repeat_cancellation_preserve_finished_at() {
    let mut manager = manager(4);
    for (job_id, state) in [
        ("a", JobState::Completed),
        ("b", JobState::Failed),
        ("c", JobState::Cancelled),
    ] {
        let job_id = seed_entry(&mut manager, job_id, state, true, 7);

        let _ = manager.poll_json(&job_id, 8);
        let _ = manager.poll_json(&job_id, 9);
        let _ = manager.read_output_json(&job_id, 0, 10);
        let _ = manager.read_output_json(&job_id, 0, 11);
        let _ = manager.get_result_json(&job_id, 12);
        let _ = manager.get_result_json(&job_id, 13);
        let _ = manager.cancel_json(&job_id, 14);
        let _ = manager.cancel_json(&job_id, 15);

        assert_eq!(finished_at(&manager, &job_id), Some(7));
    }
}

#[test]
fn ttl_zero_preserves_unfinished_entries_regardless_of_public_state() {
    let mut manager = ttl_zero_manager();
    for (job_id, state) in [
        ("a", JobState::Starting),
        ("b", JobState::Running),
        ("c", JobState::Cancelled),
        ("d", JobState::Completed),
    ] {
        let job_id = seed_entry(&mut manager, job_id, state, false, 5);
        let _ = manager.poll_json(&job_id, 6);
        assert!(
            registry_contains(&manager, &job_id),
            "unfinished {state:?} entry was removed"
        );
    }
}

#[test]
fn explicit_prune_returns_the_eligible_removal_count_without_prior_cleanup() {
    let mut manager = ttl_zero_manager();
    for (job_id, state) in [
        ("a", JobState::Completed),
        ("b", JobState::Failed),
        ("c", JobState::Cancelled),
    ] {
        seed_entry(&mut manager, job_id, state, true, 5);
    }

    assert_eq!(manager.prune_expired(5), 3);
    assert!(manager.entries.is_empty());
}

#[test]
fn retained_eviction_breaks_equal_completion_times_by_job_id() {
    let mut manager = ThreadlineJobManager::new(ThreadlineJobManagerConfig {
        jobs_enabled: true,
        max_active_jobs: 3,
        max_retained_jobs: 2,
        ..ThreadlineJobManagerConfig::default()
    });
    let first = manager.admit_job("first", 1).expect("first admitted");
    let second = manager.admit_job("second", 1).expect("second admitted");
    for id in [&first, &second] {
        context(id).complete(&mut manager, Value::Null, 2);
        context(id).finish_execution(&mut manager, 2);
    }
    let expected_evicted = first.clone().min(second.clone());

    manager.admit_job("third", 3).expect("third admitted");

    assert!(!registry_contains(&manager, &expected_evicted));
    assert!(registry_contains(&manager, &first.max(second)));
}

#[test]
fn active_capacity_rejection_prunes_expired_history_without_evicting_fresh_history() {
    let scan_time = 1000 * SECOND;
    let mut manager = ThreadlineJobManager::new(ThreadlineJobManagerConfig {
        max_active_jobs: 1,
        max_retained_jobs: 3,
        retention_ttl: 60 * u128::from(SECOND),
        ..ThreadlineJobManagerConfig::default()
    });
    let fresh_id = seed_entry(
        &mut manager,
        "fresh",
        JobState::Completed,
        true,
        scan_time - 59 * SECOND,
    );
    manager
        .admit_job("active", scan_time)
        .expect("active job admitted");
    let expired_id = seed_entry(
        &mut manager,
        "expired",
        JobState::Completed,
        true,
        scan_time - 60 * SECOND,
    );

    assert_eq!(
        manager.admit_job("rejected", scan_time).unwrap_err()["code"],
        "job_capacity_exceeded"
    );
    assert!(!registry_contains(&manager, &expired_id));
    assert!(registry_contains(&manager, &fresh_id));
}

#[test]
fn retained_admission_prunes_expired_history_without_removing_unfinished_or_fresh_entries() {
    let scan_time = 1000 * SECOND;
    let mut manager = ThreadlineJobManager::new(ThreadlineJobManagerConfig {
        max_active_jobs: 3,
        max_retained_jobs: 2,
        retention_ttl: 60 * u128::from(SECOND),
        ..ThreadlineJobManagerConfig::default()
    });
    let expired_id = seed_entry(
        &mut manager,
        "expired",
        JobState::Completed,
        true,
        scan_time - 60 * SECOND,
    );
    let fresh_id = seed_entry(
        &mut manager,
        "fresh",
        JobState::Completed,
        true,
        scan_time - 59 * SECOND,
    );

    manager
        .admit_job("after-expiry", scan_time)
        .expect("admitted after pruning");
    assert!(!registry_contains(&manager, &expired_id));
    assert!(registry_contains(&manager, &fresh_id));

    let mut unfinished_manager = ThreadlineJobManager::new(ThreadlineJobManagerConfig {
        max_active_jobs: 3,
        max_retained_jobs: 2,
        ..ThreadlineJobManagerConfig::default()
    });
    let running_id = seed_entry(&mut unfinished_manager, "r", JobState::Running, false, 0);
    let cancelled_id = seed_entry(&mut unfinished_manager, "c", JobState::Cancelled, false, 0);

    assert_eq!(
        unfinished_manager
            .admit_job("retained-rejected", 1)
            .unwrap_err()["code"],
        "job_capacity_exceeded"
    );
    assert!(registry_contains(&unfinished_manager, &running_id));
    assert!(registry_contains(&unfinished_manager, &cancelled_id));

    let mut zero_manager = ThreadlineJobManager::new(ThreadlineJobManagerConfig {
        max_active_jobs: 1,
        max_retained_jobs: 0,
        ..ThreadlineJobManagerConfig::default()
    });

    assert_eq!(
        zero_manager
            .admit_job("zero-retained-rejected", 1)
            .unwrap_err()["code"],
        "job_capacity_exceeded"
    );
    assert!(zero_manager.entries.is_empty());
}

#[test]
fn allowed_command_capacity_rejection_does_not_reach_the_worker_executor() {
    let mut manager = command_manager(1);
    manager.admit_job("active", 1).expect("active job admitted");

    let rejected = manager
        .start_command_json(&test_command(), 2)
        .expect_err("no room");

    assert_eq!(rejected["code"], "job_capacity_exceeded");
    assert_eq!(rejected["message"], "Threadline job capacity is exhausted.");
    assert_eq!(manager.entries.len(), 1);
}

#[test]
fn command_worker_launch_failure_rolls_back_entry_and_reservation() {
    let mut manager = command_manager(1);
    let job_id = manager
        .start_command_json(&test_command(), 1)
        .expect("job admitted");

    let document = manager.command_launched_json(&job_id, false);

    assert_eq!(document["ok"], false);
    assert_eq!(document["code"], "job_worker_spawn_failed");
    assert_eq!(
        document["message"],
        "Threadline could not start the job worker."
    );
    assert!(manager.entries.is_empty());
    assert!(manager.admit_job("next", 2).is_ok());
}

#[test]
fn commands_are_refused_with_a_stable_reason() {
    let mut disabled = ThreadlineJobManager::new(ThreadlineJobManagerConfig::default());
    assert_eq!(
        disabled
            .start_command_json(&test_command(), 1)
            .unwrap_err()
            .to_string(),
        r#"{"code":"jobs_disabled","message":"Threadline jobs are disabled.","ok":false}"#
    );

    let mut manager = command_manager(1);
    assert_eq!(
        manager.start_command_json(&Vec::new(), 1).unwrap_err()["message"],
        "threadline_start_job requires a non-empty command array."
    );
    assert_eq!(
        manager
            .start_command_json(&vec!["rm".to_string()], 1)
            .unwrap_err()["code"],
        "job_command_not_allowed"
    );
}

#[test]
fn started_job_says_so() {
    let mut manager = command_manager(1);
    let job_id = manager
        .start_command_json(&test_command(), 1)
        .expect("job admitted");
    let document = manager.command_launched_json(&job_id, true);

    assert_eq!(document["ok"], true);
    assert_eq!(document["job_id"], Value::String(job_id.clone()));
    assert_eq!(document["status"], "starting");
    assert_eq!(document["next_action_hint"], "This job is running in the background. Continue other useful work if available, then poll status or read output later when needed.");
    let snapshot = manager.poll_json(&job_id, 2);
    assert_eq!(snapshot["name"], "command");
    assert_eq!(snapshot["finished"], false);
    assert_eq!(snapshot["terminal_state"], Value::Null);
}

fn started_run(manager: &mut ThreadlineJobManager) -> CommandRun {
    let job_id = manager
        .start_command_json(&test_command(), 1)
        .expect("job admitted");
    let run = CommandRun {
        context: context(&job_id),
        command: test_command(),
    };
    run.begin(manager);
    assert!(matches!(
        run.on_spawned(manager, None, 2),
        CommandStep::StartReaders
    ));
    run
}

fn result_of(manager: &mut ThreadlineJobManager, run: &CommandRun) -> Value {
    manager.get_result_json(&run.context.job_id, 9)
}

#[test]
fn successful_command_completes_its_job() {
    let mut manager = command_manager(1);
    let run = started_run(&mut manager);
    assert!(matches!(run.on_readers(true), CommandStep::Observe));
    assert!(matches!(
        run.on_observed(CommandObservation::Running),
        CommandStep::Observe
    ));
    let ending = match run.on_observed(CommandObservation::Exited {
        success: true,
        code: Some(0),
    }) {
        CommandStep::CleanUp(ending) => ending,
        other => panic!("unexpected step: {other:?}"),
    };
    assert!(run.on_cleaned_up(&mut manager, ending, true, 3));
    run.context.finish_execution(&mut manager, 4);

    let result = result_of(&mut manager, &run);
    assert_eq!(result["status"], "completed");
    assert_eq!(
        result["result"],
        document(
            r#"{"kind": "command", "command": ["sh", "-lc", "printf stdout; printf stderr >&2"], "exit_code": 0, "success": true}"#
        )
    );
    assert_eq!(result["error"], Value::Null);
    assert!(manager.admit_job("next", 5).is_ok());
}

#[test]
fn failed_command_reports_its_exit_code() {
    for (code, words) in [
        (Some(3), "Some(3)"),
        (Some(-7), "Some(-7)"),
        (Some(i32::MIN), "Some(-2147483648)"),
        (None, "None"),
    ] {
        let mut manager = command_manager(1);
        let run = started_run(&mut manager);
        let ending = CommandEnding::Exited {
            success: false,
            code,
        };
        assert!(run.on_cleaned_up(&mut manager, ending, true, 3));
        let result = result_of(&mut manager, &run);
        assert_eq!(result["status"], "failed");
        assert_eq!(result["error"]["code"], "job_command_failed");
        assert_eq!(
            result["error"]["message"],
            Value::String(format!(
                "The Threadline job command exited unsuccessfully with code {words}."
            ))
        );
    }
}

#[test]
fn command_that_cannot_start_fails_its_job() {
    let mut manager = command_manager(1);
    let job_id = manager
        .start_command_json(&test_command(), 1)
        .expect("job admitted");
    let run = CommandRun {
        context: context(&job_id),
        command: test_command(),
    };
    run.begin(&mut manager);
    assert!(matches!(
        run.on_spawned(&mut manager, Some("no such file".to_string()), 2),
        CommandStep::Done { release: true }
    ));
    assert_eq!(
        result_of(&mut manager, &run)["error"],
        document(
            r#"{"code": "job_command_spawn_failed", "message": "Threadline could not start the requested command: no such file"}"#
        )
    );
}

fn after_reader_failure(manager: &mut ThreadlineJobManager) -> (CommandRun, CommandEnding) {
    let run = started_run(manager);
    match run.on_readers(false) {
        CommandStep::CleanUp(ending) => (run, ending),
        other => panic!("unexpected step: {other:?}"),
    }
}

#[test]
fn output_reader_failures_cleanup_before_reservation_reuse() {
    for fail_attempt in [0, 1] {
        let mut manager = command_manager(1);
        let (run, ending) = after_reader_failure(&mut manager);
        if fail_attempt == 1 {
            run.context.push_stdout(&mut manager, "from the first reader");
        }
        assert!(manager.admit_job("early", 3).is_err());
        assert!(run.on_cleaned_up(&mut manager, ending, true, 3));
        run.context.finish_execution(&mut manager, 4);

        let result = result_of(&mut manager, &run);
        assert_eq!(result["status"], "failed");
        assert_eq!(result["error"]["code"], "job_output_reader_spawn_failed");
        assert_eq!(
            result["error"]["message"],
            "Threadline could not start a job output reader."
        );
        let output = manager.read_output_json(&run.context.job_id, 0, 5);
        assert_eq!(output["items"].as_array().map(Vec::len), Some(fail_attempt));
        assert!(manager.admit_job("reused-after-cleanup", 5).is_ok());
    }
}

#[test]
fn unconfirmed_command_cleanup_keeps_execution_reservation_fail_closed() {
    let mut manager = command_manager(1);
    let (run, ending) = after_reader_failure(&mut manager);
    assert!(!run.on_cleaned_up(&mut manager, ending, false, 3));

    assert_eq!(
        result_of(&mut manager, &run)["error"]["code"],
        "job_output_reader_spawn_failed"
    );
    assert!(!manager.entries[0].execution_finished);
    assert_eq!(
        manager
            .admit_job("must-remain-rejected", u64::MAX)
            .unwrap_err()["code"],
        "job_capacity_exceeded"
    );
    assert!(registry_contains(&manager, &run.context.job_id));
}

#[test]
fn unconfirmed_cleanup_after_an_exit_fails_the_job() {
    let mut manager = command_manager(1);
    let run = started_run(&mut manager);
    let ending = CommandEnding::Exited {
        success: true,
        code: Some(0),
    };
    assert!(!run.on_cleaned_up(&mut manager, ending, false, 3));

    let result = result_of(&mut manager, &run);
    assert_eq!(result["status"], "failed");
    assert_eq!(result["error"]["code"], "job_worker_cleanup_incomplete");
    assert!(manager.admit_job("next", u64::MAX).is_err());
}

#[test]
fn injected_command_observation_error_cleans_resources_before_releasing_or_fail_closing_reservation()
{
    for confirmed in [true, false] {
        let mut manager = command_manager(1);
        let run = started_run(&mut manager);
        let ending = match run.on_observed(CommandObservation::Failed(
            "injected command observation failure".to_string(),
        )) {
            CommandStep::CleanUp(ending) => ending,
            other => panic!("unexpected step: {other:?}"),
        };
        let release = run.on_cleaned_up(&mut manager, ending, confirmed, 3);
        assert_eq!(release, confirmed);
        if release {
            run.context.finish_execution(&mut manager, 4);
        }
        let result = result_of(&mut manager, &run);
        assert_eq!(result["error"]["code"], "job_command_failed");
        assert_eq!(
            result["error"]["message"],
            "Threadline could not observe the command status: injected command observation failure"
        );
        assert_eq!(manager.admit_job("next", 5).is_ok(), confirmed);
    }
}

#[test]
fn broken_worker_keeps_its_place() {
    let mut manager = command_manager(1);
    let run = started_run(&mut manager);
    run.on_worker_broken(&mut manager, 3);
    assert_eq!(
        result_of(&mut manager, &run)["error"]["code"],
        "job_worker_cleanup_incomplete"
    );
    assert!(manager.admit_job("next", 4).is_err());
}

#[test]
fn cancelled_command_stays_cancelled() {
    let mut manager = command_manager(1);
    let run = started_run(&mut manager);
    assert!(!run.kill_before_observing(&manager));
    let outcome = manager.cancel_json(&run.context.job_id, 3);
    assert!(outcome.kill_child);
    assert_eq!(outcome.document["status"], "cancelled");
    assert_eq!(outcome.document["cancel_requested"], true);
    assert_eq!(outcome.document["terminal_state"], "cancelled");
    assert!(run.kill_before_observing(&manager));

    let ending = CommandEnding::Exited {
        success: true,
        code: Some(0),
    };
    assert!(run.on_cleaned_up(&mut manager, ending, true, 4));
    let result = result_of(&mut manager, &run);
    assert_eq!(result["status"], "cancelled");
    assert_eq!(result["error"]["code"], "job_cancelled");
    assert_eq!(result["error"]["message"], "The Threadline job was cancelled.");
    assert!(manager.admit_job("next", 5).is_err());
    run.context.finish_execution(&mut manager, 6);
    assert!(manager.admit_job("next", 7).is_ok());
}

#[test]
fn unresolved_ready_execution_future_finalizes_before_releasing_its_reservation() {
    let mut manager = manager(1);
    let job_id = manager.admit_job("unresolved", 1).expect("admitted");
    context(&job_id).mark_running(&mut manager);
    context(&job_id).fail_if_unresolved(&mut manager, 2);
    assert!(manager.admit_job("early", 2).is_err());
    context(&job_id).finish_execution(&mut manager, 3);

    let result = manager.get_result_json(&job_id, 3);
    assert_eq!(result["status"], "failed");
    assert_eq!(result["error"]["code"], "job_did_not_finalize");
    assert_eq!(
        result["error"]["message"],
        "The Threadline job ended without reporting a terminal state."
    );
    assert_eq!(finished_at(&manager, &job_id), Some(2));
    assert!(manager.admit_job("next", 4).is_ok());
}

#[test]
fn never_polled_execution_future_releases_its_reservation_after_dropping_user_future() {
    let mut manager = manager(1);
    let job_id = manager.admit_job("never-polled", 1).expect("admitted");
    context(&job_id).finish_execution(&mut manager, 2);

    assert_eq!(
        manager.get_result_json(&job_id, 2)["error"]["code"],
        "job_did_not_finalize"
    );
    assert!(manager.admit_job("next", 3).is_ok());
}

#[test]
fn first_end_of_a_job_counts() {
    let mut manager = manager(1);
    let job_id = manager.admit_job("job", 1).expect("admitted");
    let context = context(&job_id);
    context.complete(&mut manager, document(r#"{"answer": 42}"#), 2);
    context.fail(&mut manager, "late", "too late".to_string(), 3);
    context.push_stdout(&mut manager, "too late");
    let result = manager.get_result_json(&job_id, 4);
    assert_eq!(result["status"], "completed");
    assert_eq!(result["result"]["answer"], 42);
    assert_eq!(context.next_offset(&manager), 0);
    assert_eq!(context.job_id(), job_id);
    assert_eq!(JobTerminalState::Completed.as_str(), "completed");
    assert_eq!(JobTerminalState::Failed.as_str(), "failed");
    assert_eq!(JobTerminalState::Cancelled.as_str(), "cancelled");
}

#[test]
fn output_is_read_by_offset() {
    let mut manager = manager(1);
    let job_id = manager.admit_job("job", 1).expect("admitted");
    let context = context(&job_id);
    context.push_stdout(&mut manager, "hello ");
    context.push_stderr(&mut manager, "");
    context.push_stderr(&mut manager, "w\u{f6}rld");

    assert_eq!(
        manager.read_output_json(&job_id, 0, 2)["items"],
        document(
            r#"[{"offset": 0, "stream": "stdout", "text": "hello "}, {"offset": 6, "stream": "stderr", "text": "wörld"}]"#
        )
    );
    let later = manager.read_output_json(&job_id, 8, 2);
    assert_eq!(
        later["items"],
        document(r#"[{"offset": 9, "stream": "stderr", "text": "rld"}]"#)
    );
    assert_eq!(later["next_offset"], 12);
    assert_eq!(later["truncated_before"], 0);
    assert_eq!(
        manager.read_output_json(&job_id, 12, 2)["items"],
        document("[]")
    );
}

#[test]
fn output_keeps_the_latest_text_within_its_limit() {
    let mut output = JobOutputRingBuffer::new(4);
    output.append(OutputStream::Stdout, "ab");
    output.append(OutputStream::Stderr, "cde");
    assert_eq!(output.truncated_before, 1);
    assert_eq!(
        Value::Array(output.read_from(0)),
        document(
            r#"[{"offset": 1, "stream": "stdout", "text": "b"}, {"offset": 2, "stream": "stderr", "text": "cde"}]"#
        )
    );
    output.append(OutputStream::Stdout, "\u{20ac}\u{20ac}");
    assert_eq!(output.next_offset, 11);
    assert_eq!(output.truncated_before, 8);
    assert_eq!(
        Value::Array(output.read_from(0)),
        document(r#"[{"offset": 8, "stream": "stdout", "text": "€"}]"#)
    );

    let mut nothing = JobOutputRingBuffer::new(0);
    nothing.append(OutputStream::Stdout, "gone");
    assert_eq!(nothing.next_offset, 4);
    assert_eq!(nothing.truncated_before, 4);
    assert!(nothing.read_from(0).is_empty());
}

#[test]
fn reads_give_back_a_series_of_writes() {
    let mut output = JobOutputRingBuffer::new(5);
    for (stream, text) in [
        (OutputStream::Stdout, "abc"),
        (OutputStream::Stderr, ""),
        (OutputStream::Stderr, "d\u{e9}"),
        (OutputStream::Stdout, "fg"),
    ] {
        output.append(stream, text);
    }
    assert_eq!(output.next_offset, 8);
    assert_eq!(output.truncated_before, 3);
    assert_eq!(
        Value::Array(output.read_from(0)),
        document(
            r#"[{"offset": 3, "stream": "stderr", "text": "dé"}, {"offset": 6, "stream": "stdout", "text": "fg"}]"#
        )
    );
    assert_eq!(
        Value::Array(output.read_from(5)),
        document(r#"[{"offset": 6, "stream": "stdout", "text": "fg"}]"#)
    );
    assert!(output.read_from(8).is_empty());
    assert!(output.read_from(u64::MAX).is_empty());
}

#[test]
fn trimming_keeps_characters_whole() {
    assert_eq!(trim_front_bytes("abc", 0), (0, "abc".to_string()));
    assert_eq!(trim_front_bytes("abc", 2), (2, "c".to_string()));
    assert_eq!(trim_front_bytes("abc", 9), (3, String::new()));
    assert_eq!(trim_front_bytes("\u{1f600}x", 1), (4, "x".to_string()));
}

#[test]
fn pending_bytes_become_text_piece_by_piece() {
    let mut pending = b"one\ntwo\nthr".to_vec();
    assert_eq!(
        flush_output_chunks(&mut pending),
        vec!["one\n", "two\n", "thr"]
    );
    assert!(pending.is_empty());

    let mut pending = b"ok\xe2\x82".to_vec();
    assert_eq!(flush_output_chunks(&mut pending), vec!["ok"]);
    assert_eq!(pending, b"\xe2\x82");
    pending.push(0xac);
    assert_eq!(flush_output_chunks(&mut pending), vec!["\u{20ac}"]);

    let mut pending = b"a\nb\xc3\xa9\xf0\x9f".to_vec();
    let texts = flush_output_chunks(&mut pending);
    assert_eq!([texts.concat().as_bytes(), &pending].concat(), b"a\nb\xc3\xa9\xf0\x9f");

    let mut pending = b"ok\n\xff".to_vec();
    assert_eq!(flush_output_chunks(&mut pending), vec!["ok\n", "\u{fffd}"]);

    let mut pending = b"\xffrest".to_vec();
    assert_eq!(flush_output_chunks(&mut pending), vec!["\u{fffd}rest"]);
    assert!(pending.is_empty());

    let mut pending = b"a\xff\n".to_vec();
    assert_eq!(flush_output_chunks(&mut pending), vec!["a\u{fffd}\n"]);

    assert_eq!(remaining_output(&Vec::new()), None);
    assert_eq!(
        remaining_output(&b"\xe2\x82".to_vec()),
        Some("\u{fffd}".to_string())
    );
}

fn call(name: &str, arguments: &str) -> InternalToolCall {
    InternalToolCall {
        call_id: "call-1".to_string(),
        name: name.to_string(),
        arguments: document(arguments),
    }
}

fn output(execution: ToolExecution) -> PendingInternalToolOutput {
    match execution {
        ToolExecution::Output(output) => output,
        other => panic!("unexpected execution: {other:?}"),
    }
}

fn run_tool(manager: &mut ThreadlineJobManager, name: &str, arguments: &str) -> Value {
    let executed = call(name, arguments)
        .execute_with_job_manager(manager, 5)
        .expect("tool runs");
    let pending = output(executed);
    assert_eq!(pending.call_id, "call-1");
    document(&pending.output)
}

#[test]
fn echo_tool_returns_its_value() {
    let mut manager = ThreadlineJobManager::new(ThreadlineJobManagerConfig::default());
    let echoed = output(
        call("threadline_echo", r#"{"value": "hello"}"#)
            .execute_with_job_manager(&mut manager, 1)
            .expect("echo"),
    );
    assert_eq!(echoed.output, "hello");
    let whole = output(
        call("threadline_echo", r#"{"other": 1}"#)
            .execute_with_job_manager(&mut manager, 1)
            .expect("echo"),
    );
    assert_eq!(whole.output, r#"{"other":1}"#);
    assert!(call("threadline_unknown", "{}")
        .execute_with_job_manager(&mut manager, 1)
        .is_err());
}

#[test]
fn job_tools_reject_wrong_arguments() {
    let mut manager = command_manager(1);
    for (name, arguments, message) in [
        (
            "threadline_start_job",
            r#"{"command": ["sh", 1]}"#,
            "threadline_start_job requires a command array of strings.",
        ),
        (
            "threadline_poll_job",
            "{}",
            "threadline_poll_job requires a job_id string.",
        ),
        (
            "threadline_read_job_output",
            r#"{"job_id": 1}"#,
            "threadline_read_job_output requires a job_id string.",
        ),
        (
            "threadline_get_job_result",
            "{}",
            "threadline_get_job_result requires a job_id string.",
        ),
        (
            "threadline_cancel_job",
            "{}",
            "threadline_cancel_job requires a job_id string.",
        ),
    ] {
        let answer = run_tool(&mut manager, name, arguments);
        assert_eq!(answer["ok"], false);
        assert_eq!(answer["code"], "invalid_job_request");
        assert_eq!(answer["message"], message);
    }
}

#[test]
fn job_tools_work_on_the_manager() {
    let mut manager = command_manager(1);
    let started = call("threadline_start_job", r#"{"command": ["sh", "-c", "true"]}"#)
        .execute_with_job_manager(&mut manager, 1)
        .expect("start");
    let (call_id, job_id, command) = match started {
        ToolExecution::LaunchCommand {
            call_id,
            job_id,
            command,
        } => (call_id, job_id, command),
        other => panic!("unexpected execution: {other:?}"),
    };
    assert_eq!(command, vec!["sh", "-c", "true"]);
    let launched = launched_output(&mut manager, call_id, &job_id, true);
    assert_eq!(document(&launched.output)["status"], "starting");

    context(&job_id).push_stdout(&mut manager, "abcdef");
    let arguments = format!(r#"{{"job_id": "{job_id}", "offset": 2}}"#);
    assert_eq!(
        run_tool(&mut manager, "threadline_poll_job", &arguments)["status"],
        "starting"
    );
    assert_eq!(
        run_tool(&mut manager, "threadline_read_job_output", &arguments)["items"][0]["text"],
        "cdef"
    );
    assert_eq!(
        run_tool(&mut manager, "threadline_get_job_result", &arguments)["result"],
        Value::Null
    );
    context(&job_id).attach_child(&mut manager);
    let cancelled = call("threadline_cancel_job", &arguments)
        .execute_with_job_manager(&mut manager, 6)
        .expect("cancel");
    match cancelled {
        ToolExecution::KillCommand { output, job_id: id } => {
            assert_eq!(id, job_id);
            assert_eq!(document(&output.output)["status"], "cancelled");
        }
        other => panic!("unexpected execution: {other:?}"),
    }
    assert_eq!(
        run_tool(&mut manager, "threadline_poll_job", r#"{"job_id": "missing"}"#),
        document(
            r#"{"ok": false, "code": "job_not_found", "message": "Threadline could not find a job with that job_id.", "job_id": "missing"}"#
        )
    );
}

#[test]
fn disabled_jobs_are_never_started() {
    let mut manager = ThreadlineJobManager::new(ThreadlineJobManagerConfig::default());
    let refused = output(
        call("threadline_start_job", r#"{"command": ["sh"]}"#)
            .execute_with_job_manager(&mut manager, 1)
            .expect("answer"),
    );
    assert_eq!(document(&refused.output)["code"], "jobs_disabled");
}

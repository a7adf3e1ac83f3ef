//! The job manager: admission, retention and lookup.

use crate::codex_ws::{is_uuid_text, new_request_id};
use crate::jobs::entry::{
    is_ended, job_cancelled, job_completed, job_execution_finished, job_failed, job_not_found,
    job_output, job_running, job_started_json, job_wf, job_with_child, new_job, not_found_json,
    output_json, result_json, snapshot_json, stable_error, stable_error_json, started_json,
    unfinished_failure, Failure, Job, JobEntry,
};
use crate::jobs::output::OutputStream;
use crate::json::{json_view, Json};
use crate::text::{byte_length, same_text, text_before, text_precedes, texts};
use serde_json::Value;
use vstd::prelude::*;

verus! {

pub const DEFAULT_MAX_ACTIVE_JOBS: usize = 16;

pub const DEFAULT_MAX_RETAINED_JOBS: usize = 128;

pub const DEFAULT_OUTPUT_BUFFER_LIMIT_BYTES: usize = 32_768;

/// How long an ended job is kept, in nanoseconds: five minutes.
pub const DEFAULT_RETENTION_TTL: u128 = 300_000_000_000;

/// What jobs may do.
#[derive(Debug, Clone)]
pub struct ThreadlineJobManagerConfig {
    pub jobs_enabled: bool,
    pub output_buffer_limit_bytes: usize,
    pub retention_ttl: u128,
    pub max_active_jobs: usize,
    pub max_retained_jobs: usize,
    pub allowed_commands: Vec<String>,
}

impl Default for ThreadlineJobManagerConfig {
    fn default() -> (config: Self)
        ensures
            !config.jobs_enabled,
            config.output_buffer_limit_bytes == DEFAULT_OUTPUT_BUFFER_LIMIT_BYTES,
            config.retention_ttl == DEFAULT_RETENTION_TTL,
            config.max_active_jobs == DEFAULT_MAX_ACTIVE_JOBS,
            config.max_retained_jobs == DEFAULT_MAX_RETAINED_JOBS,
            config.allowed_commands@.len() == 0,
    {
        ThreadlineJobManagerConfig {
            jobs_enabled: false,
            output_buffer_limit_bytes: DEFAULT_OUTPUT_BUFFER_LIMIT_BYTES,
            retention_ttl: DEFAULT_RETENTION_TTL,
            max_active_jobs: DEFAULT_MAX_ACTIVE_JOBS,
            max_retained_jobs: DEFAULT_MAX_RETAINED_JOBS,
            allowed_commands: Vec::new(),
        }
    }
}

/// A job that may be forgotten: it has ended, and its worker is gone.
pub open spec fn is_removable(job: Job) -> bool {
    is_ended(job.state) && job.execution_finished && job.finished_at is Some
}

/// A job that was kept long enough.
pub open spec fn is_expired(job: Job, now: u64, ttl: u128) -> bool {
    is_removable(job) && (if now >= job.finished_at->0 {
        now - job.finished_at->0
    } else {
        0
    }) >= ttl
}

/// The jobs without those that were kept long enough.
pub open spec fn pruned(jobs: Seq<Job>, now: u64, ttl: u128) -> Seq<Job>
    decreases jobs.len(),
{
    if jobs.len() == 0 {
        Seq::empty()
    } else {
        let earlier = pruned(jobs.drop_last(), now, ttl);
        if is_expired(jobs.last(), now, ttl) {
            earlier
        } else {
            earlier.push(jobs.last())
        }
    }
}

/// How many jobs have a worker.
pub open spec fn active_count(jobs: Seq<Job>) -> nat
    decreases jobs.len(),
{
    if jobs.len() == 0 {
        0
    } else if jobs.last().execution_finished {
        active_count(jobs.drop_last())
    } else {
        active_count(jobs.drop_last()) + 1
    }
}

/// Whether a job goes before another when room is needed: the one that ended earlier, and of two
/// that ended at the same time the one with the smaller id.
pub open spec fn goes_before(first: Job, second: Job) -> bool {
    ||| first.finished_at->0 < second.finished_at->0
    ||| first.finished_at->0 == second.finished_at->0 && text_before(first.job_id, second.job_id)
}

/// The job that goes first when room is needed.
pub open spec fn is_oldest_removable(jobs: Seq<Job>, index: int) -> bool {
    &&& 0 <= index < jobs.len()
    &&& is_removable(jobs[index])
    &&& forall|other: int|
        0 <= other < jobs.len() && other != index && is_removable(#[trigger] jobs[other])
            ==> goes_before(jobs[index], jobs[other])
}

/// No job may be forgotten.
pub open spec fn none_removable(jobs: Seq<Job>) -> bool {
    forall|i: int| 0 <= i < jobs.len() ==> !is_removable(#[trigger] jobs[i])
}

/// No two jobs have the same id.
pub open spec fn ids_unique(jobs: Seq<Job>) -> bool {
    forall|i: int, j: int|
        0 <= i < jobs.len() && 0 <= j < jobs.len() && i != j ==> (#[trigger] jobs[i]).job_id != (
        #[trigger] jobs[j]).job_id
}

/// A job has this id.
pub open spec fn has_job(jobs: Seq<Job>, job_id: Seq<char>) -> bool {
    exists|i: int| 0 <= i < jobs.len() && (#[trigger] jobs[i]).job_id == job_id
}

/// The job with an id.
pub open spec fn job_of(jobs: Seq<Job>, job_id: Seq<char>) -> Option<Job> {
    if has_job(jobs, job_id) {
        Some(jobs[choose|i: int| 0 <= i < jobs.len() && (#[trigger] jobs[i]).job_id == job_id])
    } else {
        None
    }
}

/// The jobs after something happened to the one with an id.
pub open spec fn with_job(jobs: Seq<Job>, job_id: Seq<char>, change: spec_fn(Job) -> Job) -> Seq<
    Job,
> {
    jobs.map_values(
        |job: Job|
            if job.job_id == job_id {
                change(job)
            } else {
                job
            },
    )
}

/// The jobs without the one with an id.
pub open spec fn without_job(jobs: Seq<Job>, job_id: Seq<char>) -> Seq<Job>
    decreases jobs.len(),
{
    if jobs.len() == 0 {
        Seq::empty()
    } else {
        let earlier = without_job(jobs.drop_last(), job_id);
        if jobs.last().job_id == job_id {
            earlier
        } else {
            earlier.push(jobs.last())
        }
    }
}

/// The jobs after room was made for one more, when there is a way to make it: without those that
/// were kept long enough and, where that does not suffice, without the one that goes first.
pub open spec fn room_made(before: Seq<Job>, room: Seq<Job>, max_retained: nat) -> bool {
    if before.len() < max_retained {
        room == before
    } else {
        exists|index: int| #[trigger]
            is_oldest_removable(before, index) && room == before.remove(index)
    }
}

/// There is no room for one more job among those that are left after pruning.
pub open spec fn is_full(jobs: Seq<Job>, config: ThreadlineJobManagerConfig) -> bool {
    ||| active_count(jobs) >= config.max_active_jobs
    ||| config.max_retained_jobs == 0
    ||| jobs.len() >= config.max_retained_jobs && none_removable(jobs)
}

/// The answer when there is no room.
pub open spec fn capacity_error() -> Json {
    stable_error_json("job_capacity_exceeded"@, "Threadline job capacity is exhausted."@)
}

/// `after` holds a new job besides those for which there is room.
pub open spec fn admits_job(
    pruned_jobs: Seq<Job>,
    after: Seq<Job>,
    config: ThreadlineJobManagerConfig,
    job: Job,
) -> bool {
    exists|room: Seq<Job>| #[trigger]
        room_made(pruned_jobs, room, config.max_retained_jobs as nat) && after == without_job(
            room,
            job.job_id,
        ).push(job)
}

/// The job manager.
#[derive(Debug)]
pub struct ThreadlineJobManager {
    pub config: ThreadlineJobManagerConfig,
    pub entries: Vec<JobEntry>,
}

/// The views of the jobs.
pub open spec fn jobs_view(entries: Seq<JobEntry>) -> Seq<Job> {
    entries.map_values(|entry: JobEntry| entry@)
}

impl View for ThreadlineJobManager {
    type V = Seq<Job>;

    open spec fn view(&self) -> Seq<Job> {
        jobs_view(self.entries@)
    }
}

/// The rules that the jobs of a manager obey.
pub open spec fn jobs_wf(jobs: Seq<Job>, config: ThreadlineJobManagerConfig) -> bool {
    &&& ids_unique(jobs)
    &&& jobs.len() <= config.max_retained_jobs
    &&& active_count(jobs) <= config.max_active_jobs
    &&& forall|i: int| 0 <= i < jobs.len() ==> job_wf(#[trigger] jobs[i])
}

proof fn lemma_pruned(jobs: Seq<Job>, now: u64, ttl: u128)
    ensures
        pruned(jobs, now, ttl).len() <= jobs.len(),
        active_count(pruned(jobs, now, ttl)) == active_count(jobs),
        forall|i: int|
            0 <= i < pruned(jobs, now, ttl).len() ==> jobs.contains(
                #[trigger] pruned(jobs, now, ttl)[i],
            ) && !is_expired(pruned(jobs, now, ttl)[i], now, ttl),
        forall|i: int|
            0 <= i < jobs.len() && !is_expired(#[trigger] jobs[i], now, ttl) ==> pruned(
                jobs,
                now,
                ttl,
            ).contains(jobs[i]),
    decreases jobs.len(),
{
    if jobs.len() > 0 {
        let init = jobs.drop_last();
        let earlier = pruned(init, now, ttl);
        let all = pruned(jobs, now, ttl);
        lemma_pruned(init, now, ttl);
        if !is_expired(jobs.last(), now, ttl) {
            assert(all.drop_last() =~= earlier);
            assert(all[earlier.len() as int] == jobs.last());
        }
        assert forall|i: int| 0 <= i < all.len() implies jobs.contains(#[trigger] all[i])
            && !is_expired(all[i], now, ttl) by {
            if i < earlier.len() {
                assert(all[i] == earlier[i]);
                let j = choose|j: int| 0 <= j < init.len() && init[j] == earlier[i];
                assert(jobs[j] == all[i]);
            } else {
                assert(jobs[jobs.len() - 1] == all[i]);
            }
        }
        assert forall|i: int|
            0 <= i < jobs.len() && !is_expired(#[trigger] jobs[i], now, ttl) implies all.contains(
            jobs[i],
        ) by {
            if i < init.len() {
                assert(init[i] == jobs[i]);
                assert(earlier.contains(init[i]));
                let j = choose|j: int| 0 <= j < earlier.len() && earlier[j] == init[i];
                assert(all[j] == jobs[i]);
            }
        }
    }
}

proof fn lemma_pruned_unique(jobs: Seq<Job>, now: u64, ttl: u128)
    requires
        ids_unique(jobs),
    ensures
        ids_unique(pruned(jobs, now, ttl)),
    decreases jobs.len(),
{
    if jobs.len() > 0 {
        let init = jobs.drop_last();
        let earlier = pruned(init, now, ttl);
        let all = pruned(jobs, now, ttl);
        assert(ids_unique(init)) by {
            assert forall|i: int, j: int|
                0 <= i < init.len() && 0 <= j < init.len() && i != j implies (
            #[trigger] init[i]).job_id != (#[trigger] init[j]).job_id by {
                assert(init[i] == jobs[i] && init[j] == jobs[j]);
            }
        }
        lemma_pruned_unique(init, now, ttl);
        lemma_pruned(init, now, ttl);
        assert forall|i: int, j: int|
            0 <= i < all.len() && 0 <= j < all.len() && i != j implies (#[trigger] all[i]).job_id
            != (#[trigger] all[j]).job_id by {
            if i < earlier.len() && j < earlier.len() {
                assert(all[i] == earlier[i] && all[j] == earlier[j]);
            } else {
                let k = if i < earlier.len() {
                    i
                } else {
                    j
                };
                assert(all[k] == earlier[k]);
                let m = choose|m: int| 0 <= m < init.len() && init[m] == earlier[k];
                assert(jobs[m] == all[k]);
                assert(jobs[jobs.len() - 1] == jobs.last());
            }
        }
    }
}

/// Pruning keeps the rules.
proof fn lemma_pruned_wf(jobs: Seq<Job>, config: ThreadlineJobManagerConfig, now: u64, ttl: u128)
    requires
        jobs_wf(jobs, config),
    ensures
        jobs_wf(pruned(jobs, now, ttl), config),
{
    lemma_pruned(jobs, now, ttl);
    lemma_pruned_unique(jobs, now, ttl);
    let kept = pruned(jobs, now, ttl);
    assert forall|i: int| 0 <= i < kept.len() implies job_wf(#[trigger] kept[i]) by {
        let j = choose|j: int| 0 <= j < jobs.len() && jobs[j] == kept[i];
        assert(job_wf(jobs[j]));
    }
}

proof fn lemma_removed(jobs: Seq<Job>, index: int)
    requires
        0 <= index < jobs.len(),
    ensures
        active_count(jobs.remove(index)) == active_count(jobs) - (if jobs[index].execution_finished {
            0int
        } else {
            1
        }),
    decreases jobs.len(),
{
    let removed = jobs.remove(index);
    if index == jobs.len() - 1 {
        assert(removed =~= jobs.drop_last());
    } else {
        lemma_removed(jobs.drop_last(), index);
        assert(removed.drop_last() =~= jobs.drop_last().remove(index));
        assert(removed.last() == jobs.last());
    }
}

proof fn lemma_removed_wf(jobs: Seq<Job>, config: ThreadlineJobManagerConfig, index: int)
    requires
        jobs_wf(jobs, config),
        0 <= index < jobs.len(),
    ensures
        jobs_wf(jobs.remove(index), config),
{
    let removed = jobs.remove(index);
    lemma_removed(jobs, index);
    assert forall|i: int| 0 <= i < removed.len() implies job_wf(#[trigger] removed[i]) by {
        assert(removed[i] == jobs[if i < index {
            i
        } else {
            i + 1
        }]);
    }
    assert forall|i: int, j: int|
        0 <= i < removed.len() && 0 <= j < removed.len() && i != j implies (
    #[trigger] removed[i]).job_id != (#[trigger] removed[j]).job_id by {
        let p = if i < index {
            i
        } else {
            i + 1
        };
        let q = if j < index {
            j
        } else {
            j + 1
        };
        assert(removed[i] == jobs[p] && removed[j] == jobs[q]);
    }
}

proof fn lemma_without_job(jobs: Seq<Job>, job_id: Seq<char>)
    requires
        ids_unique(jobs),
    ensures
        !has_job(jobs, job_id) ==> without_job(jobs, job_id) == jobs,
        forall|index: int|
            0 <= index < jobs.len() && (#[trigger] jobs[index]).job_id == job_id ==> without_job(
                jobs,
                job_id,
            ) == jobs.remove(index),
    decreases jobs.len(),
{
    if jobs.len() == 0 {
        assert(without_job(jobs, job_id) =~= jobs);
    } else {
        let init = jobs.drop_last();
        assert forall|i: int, j: int|
            0 <= i < init.len() && 0 <= j < init.len() && i != j implies (
        #[trigger] init[i]).job_id != (#[trigger] init[j]).job_id by {
            assert(init[i] == jobs[i] && init[j] == jobs[j]);
        }
        lemma_without_job(init, job_id);
        assert(init.push(jobs.last()) =~= jobs);
        assert(jobs[jobs.len() - 1] == jobs.last());
        assert forall|i: int| 0 <= i < init.len() implies #[trigger] init[i] == jobs[i] by {}
        if !has_job(jobs, job_id) {
            assert(!has_job(init, job_id));
        }
        assert forall|index: int|
            0 <= index < jobs.len() && (#[trigger] jobs[index]).job_id
                == job_id implies without_job(jobs, job_id) == jobs.remove(index) by {
            if index == jobs.len() - 1 {
                if has_job(init, job_id) {
                    let i = choose|i: int| 0 <= i < init.len() && (#[trigger] init[i]).job_id
                        == job_id;
                    assert(jobs[i].job_id == jobs[index].job_id);
                }
                assert(jobs.remove(index) =~= init);
            } else {
                assert(init[index].job_id == job_id);
                assert(jobs.last().job_id != job_id);
                assert(jobs.remove(index) =~= init.remove(index).push(jobs.last()));
            }
        }
    }
}

proof fn lemma_job_of(jobs: Seq<Job>, index: int)
    requires
        ids_unique(jobs),
        0 <= index < jobs.len(),
    ensures
        job_of(jobs, jobs[index].job_id) == Some(jobs[index]),
{
    let id = jobs[index].job_id;
    let found = choose|i: int| 0 <= i < jobs.len() && (#[trigger] jobs[i]).job_id == id;
    assert(has_job(jobs, id));
    if found != index {
        assert(jobs[found].job_id != jobs[index].job_id);
    }
}

proof fn lemma_with_job(jobs: Seq<Job>, index: int, change: spec_fn(Job) -> Job)
    requires
        ids_unique(jobs),
        0 <= index < jobs.len(),
    ensures
        with_job(jobs, jobs[index].job_id, change) == jobs.update(index, change(jobs[index])),
{
    let id = jobs[index].job_id;
    assert forall|i: int| 0 <= i < jobs.len() implies with_job(jobs, id, change)[i] == jobs.update(
        index,
        change(jobs[index]),
    )[i] by {
        if i != index {
            assert(jobs[i].job_id != jobs[index].job_id);
        }
    }
    assert(with_job(jobs, id, change) =~= jobs.update(index, change(jobs[index])));
}

proof fn lemma_active_update(jobs: Seq<Job>, index: int, job: Job)
    requires
        0 <= index < jobs.len(),
        jobs[index].execution_finished ==> job.execution_finished,
    ensures
        active_count(jobs.update(index, job)) <= active_count(jobs),
    decreases jobs.len(),
{
    let updated = jobs.update(index, job);
    if index == jobs.len() - 1 {
        assert(updated.drop_last() =~= jobs.drop_last());
    } else {
        lemma_active_update(jobs.drop_last(), index, job);
        assert(updated.drop_last() =~= jobs.drop_last().update(index, job));
    }
}

proof fn lemma_update_wf(
    jobs: Seq<Job>,
    config: ThreadlineJobManagerConfig,
    index: int,
    job: Job,
)
    requires
        jobs_wf(jobs, config),
        0 <= index < jobs.len(),
        job_wf(job),
        job.job_id == jobs[index].job_id,
        jobs[index].execution_finished ==> job.execution_finished,
    ensures
        jobs_wf(jobs.update(index, job), config),
{
    lemma_active_update(jobs, index, job);
    let updated = jobs.update(index, job);
    assert forall|i: int, j: int|
        0 <= i < updated.len() && 0 <= j < updated.len() && i != j implies (
    #[trigger] updated[i]).job_id != (#[trigger] updated[j]).job_id by {
        assert(jobs[i].job_id != jobs[j].job_id);
    }
}

/// An answer for a job, or that it is not there.
pub open spec fn answer_for(job: Option<Job>, job_id: Seq<char>, answer: spec_fn(Job) -> Json) -> Json {
    match job {
        Some(found) => answer(found),
        None => not_found_json(job_id),
    }
}

/// What cancelling a job comes to.
#[derive(Debug, Clone)]
pub struct CancelOutcome {
    /// The answer to the request.
    pub document: Value,
    /// Whether the process of the job is to be killed.
    pub kill_child: bool,
}

impl ThreadlineJobManager {
    /// The jobs obey the rules.
    pub open spec fn wf(&self) -> bool {
        jobs_wf(self@, self.config)
    }

    /// A manager without jobs.
    pub fn new(config: ThreadlineJobManagerConfig) -> (manager: Self)
        ensures
            manager.wf(),
            manager.config == config,
            manager@ == Seq::<Job>::empty(),
    {
        let manager = ThreadlineJobManager { config, entries: Vec::new() };
        assert(manager@ =~= Seq::empty());
        manager
    }

    /// Forgets the jobs that were kept long enough, and counts them.
    pub fn prune_expired(&mut self, now: u64) -> (removed: usize)
        requires
            old(self).wf(),
        ensures
            final(self).wf(),
            final(self).config == old(self).config,
            final(self)@ == pruned(old(self)@, now, old(self).config.retention_ttl),
            removed == old(self)@.len() - final(self)@.len(),
    {
        let ghost before = self@;
        let ttl = self.config.retention_ttl;
        let original_count = self.entries.len();
        let mut i: usize = 0;
        let ghost mut seen: int = 0;
        assert(before.take(0) =~= Seq::empty());
        assert(self@ =~= pruned(before.take(0), now, ttl) + before.skip(0));
        while i < self.entries.len()
            invariant
                self.config == old(self).config,
                ttl == self.config.retention_ttl,
                0 <= seen <= before.len(),
                i == pruned(before.take(seen), now, ttl).len(),
                self@ == pruned(before.take(seen), now, ttl) + before.skip(seen),
                i <= self.entries@.len(),
            decreases self.entries@.len() - i,
        {
            let entry = &self.entries[i];
            let ghost job = self@[i as int];
            let ghost current = self@;
            proof {
                assert(job == entry@);
                assert(job == before[seen]);
                assert(before.take(seen + 1).drop_last() =~= before.take(seen));
                assert(before.take(seen + 1).last() == job);
            }
            let expired = match entry.finished_at {
                Some(finished_at) => entry.state.is_terminal() && entry.execution_finished
                    && now.saturating_sub(finished_at) as u128 >= ttl,
                None => false,
            };
            if expired {
                self.entries.remove(i);
                assert(self@ =~= current.remove(i as int));
                assert(self@ =~= pruned(before.take(seen), now, ttl) + before.skip(seen + 1));
            } else {
                i += 1;
                assert(self@ =~= pruned(before.take(seen + 1), now, ttl) + before.skip(seen + 1));
            }
            proof {
                seen = seen + 1;
            }
        }
        proof {
            assert(before.skip(seen).len() == 0);
            assert(before.take(seen) =~= before);
            assert(self@ =~= pruned(before, now, ttl));
            lemma_pruned(before, now, ttl);
            lemma_pruned_wf(before, self.config, now, ttl);
        }
        original_count - self.entries.len()
    }

    fn find(&self, job_id: &str) -> (found: Option<usize>)
        requires
            self.wf(),
        ensures
            match found {
                Some(index) => index < self@.len() && self@[index as int].job_id == job_id@
                    && job_of(self@, job_id@) == Some(self@[index as int]),
                None => !has_job(self@, job_id@),
            },
    {
        let mut i: usize = 0;
        while i < self.entries.len()
            invariant
                self.wf(),
                i <= self.entries@.len(),
                forall|j: int| 0 <= j < i ==> (#[trigger] self@[j]).job_id != job_id@,
            decreases self.entries@.len() - i,
        {
            assert(self@[i as int] == self.entries@[i as int]@);
            if same_text(self.entries[i].job_id.as_str(), job_id) {
                proof {
                    lemma_job_of(self@, i as int);
                }
                return Some(i);
            }
            i += 1;
        }
        None
    }

    fn active_jobs(&self) -> (count: usize)
        ensures
            count == active_count(self@),
    {
        let mut count: usize = 0;
        let mut i: usize = 0;
        let ghost jobs = self@;
        assert(jobs.take(0) =~= Seq::empty());
        while i < self.entries.len()
            invariant
                jobs == self@,
                i <= self.entries@.len(),
                count <= i,
                count == active_count(jobs.take(i as int)),
            decreases self.entries@.len() - i,
        {
            proof {
                assert(jobs[i as int] == self.entries@[i as int]@);
                assert(jobs.take(i + 1).drop_last() =~= jobs.take(i as int));
                assert(jobs.take(i + 1).last() == jobs[i as int]);
            }
            if !self.entries[i].execution_finished {
                count += 1;
            }
            i += 1;
        }
        assert(jobs.take(i as int) =~= jobs);
        count
    }

    fn oldest_removable_entry(&self) -> (found: Option<usize>)
        requires
            self.wf(),
        ensures
            match found {
                Some(index) => is_oldest_removable(self@, index as int),
                None => none_removable(self@),
            },
    {
        let mut best: Option<(usize, u64)> = None;
        let mut i: usize = 0;
        let ghost jobs = self@;
        while i < self.entries.len()
            invariant
                self.wf(),
                jobs == self@,
                i <= self.entries@.len(),
                match best {
                    Some((index, finished_at)) => {
                        &&& index < i
                        &&& is_removable(jobs[index as int])
                        &&& jobs[index as int].finished_at == Some(finished_at)
                        &&& forall|other: int|
                            0 <= other < i && other != index && is_removable(#[trigger] jobs[other])
                                ==> goes_before(jobs[index as int], jobs[other])
                    },
                    None => forall|other: int|
                        0 <= other < i ==> !is_removable(#[trigger] jobs[other]),
                },
            decreases self.entries@.len() - i,
        {
            let entry = &self.entries[i];
            let ghost job = jobs[i as int];
            assert(job == entry@);
            if entry.state.is_terminal() && entry.execution_finished {
                if let Some(finished_at) = entry.finished_at {
                    match best {
                        None => {
                            best = Some((i, finished_at));
                        },
                        Some((index, earliest)) => {
                            assert(jobs[index as int] == self.entries@[index as int]@);
                            let goes_first = finished_at < earliest || (finished_at == earliest
                                && text_precedes(
                                entry.job_id.as_str(),
                                self.entries[index].job_id.as_str(),
                            ));
                            proof {
                                let held = jobs[index as int];
                                assert(job.job_id != held.job_id);
                                crate::text::law_texts_are_ordered(job.job_id, held.job_id);
                                assert forall|other: int|
                                    0 <= other < i && other != index && is_removable(
                                        #[trigger] jobs[other],
                                    ) && goes_before(job, held) implies goes_before(
                                    job,
                                    jobs[other],
                                ) by {
                                    let rival = jobs[other];
                                    assert(goes_before(held, rival));
                                    if job.finished_at == held.finished_at && held.finished_at
                                        == rival.finished_at {
                                        crate::text::law_text_order_is_transitive(
                                            job.job_id,
                                            held.job_id,
                                            rival.job_id,
                                        );
                                    }
                                }
                            }
                            if goes_first {
                                best = Some((i, finished_at));
                            }
                        },
                    }
                }
            }
            i += 1;
        }
        match best {
            Some((index, _)) => Some(index),
            None => None,
        }
    }

    /// Forgets a job.
    pub fn remove_entry(&mut self, job_id: &str)
        requires
            old(self).wf(),
        ensures
            final(self).wf(),
            final(self).config == old(self).config,
            final(self)@ == without_job(old(self)@, job_id@),
    {
        let ghost before = self@;
        proof {
            lemma_without_job(before, job_id@);
        }
        if let Some(index) = self.find(job_id) {
            self.entries.remove(index);
            assert(self@ =~= before.remove(index as int));
            proof {
                lemma_removed_wf(before, self.config, index as int);
            }
        }
    }

    /// Takes up a new job with the given id, or says that there is no room.
    pub fn admit_job_with_id(&mut self, job_id: String, name: &str, now: u64) -> (admitted: Result<
        String,
        Value,
    >)
        requires
            old(self).wf(),
        ensures
            final(self).wf(),
            final(self).config == old(self).config,
            ({
                let kept = pruned(old(self)@, now, old(self).config.retention_ttl);
                let limit = old(self).config.output_buffer_limit_bytes as nat;
                match admitted {
                    Ok(id) => id@ == job_id@ && !is_full(kept, old(self).config) && admits_job(
                        kept,
                        final(self)@,
                        old(self).config,
                        new_job(job_id@, name@, limit),
                    ),
                    Err(document) => is_full(kept, old(self).config) && json_view(document)
                        == capacity_error() && final(self)@ == kept,
                }
            }),
    {
        self.prune_expired(now);
        let ghost kept = self@;
        let active = self.active_jobs();
        if active >= self.config.max_active_jobs || self.config.max_retained_jobs == 0 {
            return Err(job_capacity_exceeded());
        }
        if self.entries.len() >= self.config.max_retained_jobs {
            match self.oldest_removable_entry() {
                Some(index) => {
                    self.entries.remove(index);
                    proof {
                        assert(self@ =~= kept.remove(index as int));
                        lemma_removed_wf(kept, self.config, index as int);
                        lemma_removed(kept, index as int);
                        assert(is_oldest_removable(kept, index as int));
                    }
                },
                None => return Err(job_capacity_exceeded()),
            }
        }
        let ghost room = self@;
        assert(room_made(kept, room, self.config.max_retained_jobs as nat));
        self.remove_entry(job_id.as_str());
        let ghost others = self@;
        let id = job_id.clone();
        let entry = JobEntry::new(job_id, name, self.config.output_buffer_limit_bytes);
        let ghost job = entry@;
        proof {
            lemma_without_job(room, id@);
            if has_job(room, id@) {
                let index = choose|i: int| 0 <= i < room.len() && (#[trigger] room[i]).job_id
                    == id@;
                assert(others == room.remove(index));
                lemma_removed(room, index);
            }
            assert forall|i: int| 0 <= i < others.len() implies (#[trigger] others[i]).job_id
                != id@ by {
                lemma_without_job_lacks(room, id@);
            }
        }
        self.entries.push(entry);
        proof {
            let after = others.push(job);
            assert(self@ =~= after);
            assert(after.drop_last() =~= others);
            assert forall|i: int| 0 <= i < after.len() implies job_wf(#[trigger] after[i]) by {
                if i < others.len() {
                    assert(after[i] == others[i]);
                }
            }
            assert forall|i: int, j: int|
                0 <= i < after.len() && 0 <= j < after.len() && i != j implies (
            #[trigger] after[i]).job_id != (#[trigger] after[j]).job_id by {
                if i < others.len() {
                    assert(after[i] == others[i]);
                }
                if j < others.len() {
                    assert(after[j] == others[j]);
                }
            }
        }
        Ok(id)
    }

    /// Takes up a new job under a new id, or says that there is no room.
    pub fn admit_job(&mut self, name: &str, now: u64) -> (admitted: Result<String, Value>)
        requires
            old(self).wf(),
        ensures
            final(self).wf(),
            final(self).config == old(self).config,
            ({
                let kept = pruned(old(self)@, now, old(self).config.retention_ttl);
                let limit = old(self).config.output_buffer_limit_bytes as nat;
                match admitted {
                    Ok(id) => is_uuid_text(id@) && !is_full(kept, old(self).config) && admits_job(
                        kept,
                        final(self)@,
                        old(self).config,
                        new_job(id@, name@, limit),
                    ),
                    Err(document) => is_full(kept, old(self).config) && json_view(document)
                        == capacity_error() && final(self)@ == kept,
                }
            }),
    {
        self.admit_job_with_id(new_request_id(), name, now)
    }

    fn command_allowed(&self, program: &str) -> (allowed: bool)
        ensures
            allowed == texts(self.config.allowed_commands@).contains(program@),
    {
        let commands = &self.config.allowed_commands;
        let mut i: usize = 0;
        while i < commands.len()
            invariant
                *commands == self.config.allowed_commands,
                i <= commands@.len(),
                forall|j: int| 0 <= j < i ==> (#[trigger] commands@[j])@ != program@,
            decreases commands@.len() - i,
        {
            if same_text(commands[i].as_str(), program) {
                assert(texts(commands@)[i as int] == program@);
                return true;
            }
            i += 1;
        }
        assert forall|j: int| 0 <= j < texts(commands@).len() implies texts(commands@)[j]
            != program@ by {
            assert(texts(commands@)[j] == commands@[j]@);
        }
        false
    }

    /// Decides on a request to run a command, with the given id for the job. When the command is
    /// accepted, a worker is to be launched for it.
    pub fn start_command_with_id(
        &mut self,
        command: &Vec<String>,
        job_id: String,
        now: u64,
    ) -> (started: Result<String, Value>)
        requires
            old(self).wf(),
        ensures
            final(self).wf(),
            final(self).config == old(self).config,
            ({
                let kept = pruned(old(self)@, now, old(self).config.retention_ttl);
                let limit = old(self).config.output_buffer_limit_bytes as nat;
                match started {
                    Ok(id) => id@ == job_id@ && command_refusal(
                        kept,
                        old(self).config,
                        texts(command@),
                    ) is None && admits_job(
                        kept,
                        final(self)@,
                        old(self).config,
                        new_job(job_id@, "command"@, limit),
                    ),
                    Err(document) => command_refusal(kept, old(self).config, texts(command@))
                        == Some(json_view(document)) && final(self)@ == kept,
                }
            }),
    {
        let ghost before = self@;
        self.prune_expired(now);
        if !self.config.jobs_enabled {
            return Err(stable_error("jobs_disabled", "Threadline jobs are disabled."));
        }
        if command.len() == 0 {
            return Err(
                stable_error(
                    "invalid_job_request",
                    "threadline_start_job requires a non-empty command array.",
                ),
            );
        }
        assert(texts(command@).first() == command@[0]@);
        if !self.command_allowed(command[0].as_str()) {
            return Err(
                stable_error(
                    "job_command_not_allowed",
                    "The requested command is not allowed by the configured Threadline job policy.",
                ),
            );
        }
        proof {
            lemma_pruned_twice(before, now, self.config.retention_ttl);
        }
        self.admit_job_with_id(job_id, "command", now)
    }

    /// Decides on a request to run a command. When the command is accepted, a worker is to be
    /// launched for the job.
    pub fn start_command_json(&mut self, command: &Vec<String>, now: u64) -> (started: Result<
        String,
        Value,
    >)
        requires
            old(self).wf(),
        ensures
            final(self).wf(),
            final(self).config == old(self).config,
            ({
                let kept = pruned(old(self)@, now, old(self).config.retention_ttl);
                let limit = old(self).config.output_buffer_limit_bytes as nat;
                match started {
                    Ok(id) => is_uuid_text(id@) && command_refusal(
                        kept,
                        old(self).config,
                        texts(command@),
                    ) is None && admits_job(
                        kept,
                        final(self)@,
                        old(self).config,
                        new_job(id@, "command"@, limit),
                    ),
                    Err(document) => command_refusal(kept, old(self).config, texts(command@))
                        == Some(json_view(document)) && final(self)@ == kept,
                }
            }),
    {
        self.start_command_with_id(command, new_request_id(), now)
    }

    /// The answer to a request to run a command, once it is known whether a worker was launched. A
    /// job without a worker is forgotten.
    pub fn command_launched_json(&mut self, job_id: &str, launched: bool) -> (document: Value)
        requires
            old(self).wf(),
        ensures
            final(self).wf(),
            final(self).config == old(self).config,
            if launched {
                final(self)@ == old(self)@ && json_view(document) == started_json(job_id@)
            } else {
                final(self)@ == without_job(old(self)@, job_id@) && json_view(document)
                    == stable_error_json(
                    "job_worker_spawn_failed"@,
                    "Threadline could not start the job worker."@,
                )
            },
    {
        if launched {
            job_started_json(job_id)
        } else {
            self.remove_entry(job_id);
            stable_error("job_worker_spawn_failed", "Threadline could not start the job worker.")
        }
    }

    /// What a job says of itself.
    pub fn poll_json(&mut self, job_id: &str, now: u64) -> (document: Value)
        requires
            old(self).wf(),
        ensures
            final(self).wf(),
            final(self).config == old(self).config,
            final(self)@ == pruned(old(self)@, now, old(self).config.retention_ttl),
            json_view(document) == answer_for(
                job_of(final(self)@, job_id@),
                job_id@,
                |job: Job| snapshot_json(job),
            ),
    {
        self.prune_expired(now);
        match self.find(job_id) {
            Some(index) => {
                assert(self@[index as int] == self.entries@[index as int]@);
                self.entries[index].snapshot()
            },
            None => job_not_found(job_id),
        }
    }

    /// What a job has written, from an offset on.
    pub fn read_output_json(&mut self, job_id: &str, offset: u64, now: u64) -> (document: Value)
        requires
            old(self).wf(),
        ensures
            final(self).wf(),
            final(self).config == old(self).config,
            final(self)@ == pruned(old(self)@, now, old(self).config.retention_ttl),
            json_view(document) == answer_for(
                job_of(final(self)@, job_id@),
                job_id@,
                |job: Job| output_json(job, offset),
            ),
    {
        self.prune_expired(now);
        match self.find(job_id) {
            Some(index) => {
                assert(self@[index as int] == self.entries@[index as int]@);
                self.entries[index].output_document(offset)
            },
            None => job_not_found(job_id),
        }
    }

    /// What came of a job.
    pub fn get_result_json(&mut self, job_id: &str, now: u64) -> (document: Value)
        requires
            old(self).wf(),
        ensures
            final(self).wf(),
            final(self).config == old(self).config,
            final(self)@ == pruned(old(self)@, now, old(self).config.retention_ttl),
            json_view(document) == answer_for(
                job_of(final(self)@, job_id@),
                job_id@,
                |job: Job| result_json(job),
            ),
    {
        self.prune_expired(now);
        match self.find(job_id) {
            Some(index) => {
                assert(self@[index as int] == self.entries@[index as int]@);
                self.entries[index].result_document()
            },
            None => job_not_found(job_id),
        }
    }

    /// Cancels a job.
    pub fn cancel_json(&mut self, job_id: &str, now: u64) -> (outcome: CancelOutcome)
        requires
            old(self).wf(),
        ensures
            final(self).wf(),
            final(self).config == old(self).config,
            ({
                let kept = pruned(old(self)@, now, old(self).config.retention_ttl);
                &&& final(self)@ == with_job(kept, job_id@, |job: Job| job_cancelled(job, now))
                &&& json_view(outcome.document) == answer_for(
                    job_of(kept, job_id@),
                    job_id@,
                    |job: Job| snapshot_json(job_cancelled(job, now)),
                )
                &&& outcome.kill_child == (job_of(kept, job_id@) matches Some(job)
                    && job.has_child)
            }),
    {
        self.prune_expired(now);
        let ghost kept = self@;
        let ghost change = |job: Job| job_cancelled(job, now);
        match self.find(job_id) {
            Some(index) => {
                assert(kept[index as int] == self.entries@[index as int]@);
                let kill_child = self.entries[index].cancel(now);
                proof {
                    assert(self@ =~= kept.update(index as int, change(kept[index as int])));
                    lemma_with_job(kept, index as int, change);
                    lemma_update_wf(kept, self.config, index as int, self@[index as int]);
                }
                CancelOutcome { document: self.entries[index].snapshot(), kill_child }
            },
            None => {
                proof {
                    lemma_with_absent_job(kept, job_id@, change);
                }
                CancelOutcome { document: job_not_found(job_id), kill_child: false }
            },
        }
    }
}

proof fn lemma_with_absent_job(jobs: Seq<Job>, job_id: Seq<char>, change: spec_fn(Job) -> Job)
    requires
        !has_job(jobs, job_id),
    ensures
        with_job(jobs, job_id, change) == jobs,
{
    assert forall|i: int| 0 <= i < jobs.len() implies with_job(jobs, job_id, change)[i]
        == jobs[i] by {
        assert(jobs[i].job_id != job_id);
    }
    assert(with_job(jobs, job_id, change) =~= jobs);
}

proof fn lemma_without_job_lacks(jobs: Seq<Job>, job_id: Seq<char>)
    ensures
        forall|i: int|
            0 <= i < without_job(jobs, job_id).len() ==> (#[trigger] without_job(
                jobs,
                job_id,
            )[i]).job_id != job_id,
    decreases jobs.len(),
{
    if jobs.len() > 0 {
        lemma_without_job_lacks(jobs.drop_last(), job_id);
        let earlier = without_job(jobs.drop_last(), job_id);
        let all = without_job(jobs, job_id);
        assert forall|i: int| 0 <= i < all.len() implies (#[trigger] all[i]).job_id != job_id by {
            if i < earlier.len() {
                assert(all[i] == earlier[i]);
            }
        }
    }
}

proof fn lemma_pruned_twice(jobs: Seq<Job>, now: u64, ttl: u128)
    ensures
        pruned(pruned(jobs, now, ttl), now, ttl) == pruned(jobs, now, ttl),
    decreases jobs.len(),
{
    if jobs.len() > 0 {
        let earlier = pruned(jobs.drop_last(), now, ttl);
        lemma_pruned_twice(jobs.drop_last(), now, ttl);
        if !is_expired(jobs.last(), now, ttl) {
            assert(earlier.push(jobs.last()).drop_last() =~= earlier);
        }
    }
}

/// Why a command is not started.
pub open spec fn command_refusal(
    jobs: Seq<Job>,
    config: ThreadlineJobManagerConfig,
    command: Seq<Seq<char>>,
) -> Option<Json> {
    if !config.jobs_enabled {
        Some(stable_error_json("jobs_disabled"@, "Threadline jobs are disabled."@))
    } else if command.len() == 0 {
        Some(
            stable_error_json(
                "invalid_job_request"@,
                "threadline_start_job requires a non-empty command array."@,
            ),
        )
    } else if !texts(config.allowed_commands@).contains(command.first()) {
        Some(
            stable_error_json(
                "job_command_not_allowed"@,
                "The requested command is not allowed by the configured Threadline job policy."@,
            ),
        )
    } else if is_full(jobs, config) {
        Some(capacity_error())
    } else {
        None
    }
}

/// The answer when there is no room.
fn job_capacity_exceeded() -> (document: Value)
    ensures
        json_view(document) == capacity_error(),
{
    stable_error("job_capacity_exceeded", "Threadline job capacity is exhausted.")
}

/// What a worker has of its job.
#[derive(Debug, Clone)]
pub struct ManagedJobContext {
    pub job_id: String,
}

/// The offsets of a job's output have room for a text.
pub open spec fn output_fits(jobs: Seq<Job>, job_id: Seq<char>, text: Seq<char>) -> bool {
    job_of(jobs, job_id) matches Some(job) ==> job.output.next_offset + byte_length(text)
        <= u64::MAX
}

impl ManagedJobContext {
    /// Takes note that the work has begun.
    pub fn mark_running(&self, manager: &mut ThreadlineJobManager)
        requires
            old(manager).wf(),
        ensures
            final(manager).wf(),
            final(manager).config == old(manager).config,
            final(manager)@ == with_job(old(manager)@, self.job_id@, |job: Job| job_running(job)),
    {
        let ghost before = manager@;
        let ghost change = |job: Job| job_running(job);
        match manager.find(self.job_id.as_str()) {
            Some(index) => {
                assert(before[index as int] == manager.entries@[index as int]@);
                manager.entries[index].mark_running();
                proof {
                    assert(manager@ =~= before.update(index as int, change(before[index as int])));
                    lemma_with_job(before, index as int, change);
                    lemma_update_wf(before, manager.config, index as int, manager@[index as int]);
                }
            },
            None => {
                proof {
                    lemma_with_absent_job(before, self.job_id@, change);
                }
            },
        }
    }

    /// Takes note of what the job wrote.
    pub fn push_output(
        &self,
        manager: &mut ThreadlineJobManager,
        stream: OutputStream,
        text: &str,
    )
        requires
            old(manager).wf(),
            output_fits(old(manager)@, self.job_id@, text@),
        ensures
            final(manager).wf(),
            final(manager).config == old(manager).config,
            final(manager)@ == with_job(
                old(manager)@,
                self.job_id@,
                |job: Job| job_output(job, stream, text@),
            ),
    {
        let ghost before = manager@;
        let ghost change = |job: Job| job_output(job, stream, text@);
        match manager.find(self.job_id.as_str()) {
            Some(index) => {
                assert(before[index as int] == manager.entries@[index as int]@);
                manager.entries[index].push_output(stream, text);
                proof {
                    assert(manager@ =~= before.update(index as int, change(before[index as int])));
                    lemma_with_job(before, index as int, change);
                    lemma_update_wf(before, manager.config, index as int, manager@[index as int]);
                }
            },
            None => {
                proof {
                    lemma_with_absent_job(before, self.job_id@, change);
                }
            },
        }
    }

    /// Takes note of what the job wrote to its standard output.
    pub fn push_stdout(&self, manager: &mut ThreadlineJobManager, text: &str)
        requires
            old(manager).wf(),
            output_fits(old(manager)@, self.job_id@, text@),
        ensures
            final(manager).wf(),
            final(manager).config == old(manager).config,
            final(manager)@ == with_job(
                old(manager)@,
                self.job_id@,
                |job: Job| job_output(job, OutputStream::Stdout, text@),
            ),
    {
        self.push_output(manager, OutputStream::Stdout, text)
    }

    /// Takes note of what the job wrote to its standard error.
    pub fn push_stderr(&self, manager: &mut ThreadlineJobManager, text: &str)
        requires
            old(manager).wf(),
            output_fits(old(manager)@, self.job_id@, text@),
        ensures
            final(manager).wf(),
            final(manager).config == old(manager).config,
            final(manager)@ == with_job(
                old(manager)@,
                self.job_id@,
                |job: Job| job_output(job, OutputStream::Stderr, text@),
            ),
    {
        self.push_output(manager, OutputStream::Stderr, text)
    }

    /// Takes note that the job completed.
    pub fn complete(&self, manager: &mut ThreadlineJobManager, result: Value, now: u64)
        requires
            old(manager).wf(),
        ensures
            final(manager).wf(),
            final(manager).config == old(manager).config,
            final(manager)@ == with_job(
                old(manager)@,
                self.job_id@,
                |job: Job| job_completed(job, json_view(result), now),
            ),
    {
        let ghost before = manager@;
        let ghost change = |job: Job| job_completed(job, json_view(result), now);
        match manager.find(self.job_id.as_str()) {
            Some(index) => {
                assert(before[index as int] == manager.entries@[index as int]@);
                manager.entries[index].complete(result, now);
                proof {
                    assert(manager@ =~= before.update(index as int, change(before[index as int])));
                    lemma_with_job(before, index as int, change);
                    lemma_update_wf(before, manager.config, index as int, manager@[index as int]);
                }
            },
            None => {
                proof {
                    lemma_with_absent_job(before, self.job_id@, change);
                }
            },
        }
    }

    /// Takes note that the job failed.
    pub fn fail(
        &self,
        manager: &mut ThreadlineJobManager,
        code: &'static str,
        message: String,
        now: u64,
    )
        requires
            old(manager).wf(),
        ensures
            final(manager).wf(),
            final(manager).config == old(manager).config,
            final(manager)@ == with_job(
                old(manager)@,
                self.job_id@,
                |job: Job| job_failed(job, Failure { code: code@, message: message@ }, now),
            ),
    {
        let ghost before = manager@;
        let ghost change = |job: Job|
            job_failed(job, Failure { code: code@, message: message@ }, now);
        match manager.find(self.job_id.as_str()) {
            Some(index) => {
                assert(before[index as int] == manager.entries@[index as int]@);
                manager.entries[index].fail(code, message, now);
                proof {
                    assert(manager@ =~= before.update(index as int, change(before[index as int])));
                    lemma_with_job(before, index as int, change);
                    lemma_update_wf(before, manager.config, index as int, manager@[index as int]);
                }
            },
            None => {
                proof {
                    lemma_with_absent_job(before, self.job_id@, change);
                }
            },
        }
    }

    /// Takes note that a process was started for the job.
    pub fn attach_child(&self, manager: &mut ThreadlineJobManager)
        requires
            old(manager).wf(),
        ensures
            final(manager).wf(),
            final(manager).config == old(manager).config,
            final(manager)@ == with_job(
                old(manager)@,
                self.job_id@,
                |job: Job| job_with_child(job),
            ),
    {
        let ghost before = manager@;
        let ghost change = |job: Job| job_with_child(job);
        match manager.find(self.job_id.as_str()) {
            Some(index) => {
                assert(before[index as int] == manager.entries@[index as int]@);
                manager.entries[index].attach_child();
                proof {
                    assert(manager@ =~= before.update(index as int, change(before[index as int])));
                    lemma_with_job(before, index as int, change);
                    lemma_update_wf(before, manager.config, index as int, manager@[index as int]);
                }
            },
            None => {
                proof {
                    lemma_with_absent_job(before, self.job_id@, change);
                }
            },
        }
    }

    /// Takes note that the process of the job is gone.
    pub fn clear_child(&self, manager: &mut ThreadlineJobManager)
        requires
            old(manager).wf(),
        ensures
            final(manager).wf(),
            final(manager).config == old(manager).config,
            final(manager)@ == with_job(
                old(manager)@,
                self.job_id@,
                |job: Job| Job { has_child: false, ..job },
            ),
    {
        let ghost before = manager@;
        let ghost change = |job: Job| Job { has_child: false, ..job };
        match manager.find(self.job_id.as_str()) {
            Some(index) => {
                assert(before[index as int] == manager.entries@[index as int]@);
                manager.entries[index].clear_child();
                proof {
                    assert(manager@ =~= before.update(index as int, change(before[index as int])));
                    lemma_with_job(before, index as int, change);
                    lemma_update_wf(before, manager.config, index as int, manager@[index as int]);
                }
            },
            None => {
                proof {
                    lemma_with_absent_job(before, self.job_id@, change);
                }
            },
        }
    }

    /// Fails the job unless it has ended.
    pub fn fail_if_unresolved(&self, manager: &mut ThreadlineJobManager, now: u64)
        requires
            old(manager).wf(),
        ensures
            final(manager).wf(),
            final(manager).config == old(manager).config,
            final(manager)@ == with_job(
                old(manager)@,
                self.job_id@,
                |job: Job| job_failed(job, unfinished_failure(), now),
            ),
    {
        let ghost before = manager@;
        let ghost change = |job: Job| job_failed(job, unfinished_failure(), now);
        match manager.find(self.job_id.as_str()) {
            Some(index) => {
                assert(before[index as int] == manager.entries@[index as int]@);
                manager.entries[index].fail_if_unresolved(now);
                proof {
                    assert(manager@ =~= before.update(index as int, change(before[index as int])));
                    lemma_with_job(before, index as int, change);
                    lemma_update_wf(before, manager.config, index as int, manager@[index as int]);
                }
            },
            None => {
                proof {
                    lemma_with_absent_job(before, self.job_id@, change);
                }
            },
        }
    }

    /// Takes note that the worker of the job is gone. From then on the job may be forgotten.
    pub fn finish_execution(&self, manager: &mut ThreadlineJobManager, now: u64)
        requires
            old(manager).wf(),
        ensures
            final(manager).wf(),
            final(manager).config == old(manager).config,
            final(manager)@ == with_job(
                old(manager)@,
                self.job_id@,
                |job: Job| job_execution_finished(job, now),
            ),
    {
        let ghost before = manager@;
        let ghost change = |job: Job| job_execution_finished(job, now);
        match manager.find(self.job_id.as_str()) {
            Some(index) => {
                assert(before[index as int] == manager.entries@[index as int]@);
                manager.entries[index].finish_execution(now);
                proof {
                    assert(manager@ =~= before.update(index as int, change(before[index as int])));
                    lemma_with_job(before, index as int, change);
                    lemma_update_wf(before, manager.config, index as int, manager@[index as int]);
                }
            },
            None => {
                proof {
                    lemma_with_absent_job(before, self.job_id@, change);
                }
            },
        }
    }

    /// Whether someone asked to cancel the job.
    pub fn is_cancelled(&self, manager: &ThreadlineJobManager) -> (cancelled: bool)
        requires
            manager.wf(),
        ensures
            cancelled == is_cancel_requested(manager@, self.job_id@),
    {
        match manager.find(self.job_id.as_str()) {
            Some(index) => {
                assert(manager@[index as int] == manager.entries@[index as int]@);
                manager.entries[index].cancel_requested
            },
            None => false,
        }
    }

    /// How far the job's output goes.
    pub fn next_offset(&self, manager: &ThreadlineJobManager) -> (offset: u64)
        requires
            manager.wf(),
        ensures
            match job_of(manager@, self.job_id@) {
                Some(job) => offset == job.output.next_offset,
                None => offset == 0,
            },
    {
        match manager.find(self.job_id.as_str()) {
            Some(index) => {
                assert(manager@[index as int] == manager.entries@[index as int]@);
                manager.entries[index].output.next_offset
            },
            None => 0,
        }
    }

    pub fn job_id(&self) -> (id: String)
        ensures
            id@ == self.job_id@,
    {
        self.job_id.clone()
    }
}

/// Whether someone asked to cancel a job.
pub open spec fn is_cancel_requested(jobs: Seq<Job>, job_id: Seq<char>) -> bool {
    job_of(jobs, job_id) matches Some(job) && job.cancel_requested
}

/// A job whose worker is still there is never forgotten, neither for its age nor to make room: it
/// is there after pruning, and it is there after a new job took its place among the others.
pub proof fn law_active_jobs_are_kept(
    jobs: Seq<Job>,
    after: Seq<Job>,
    config: ThreadlineJobManagerConfig,
    added: Job,
    index: int,
    now: u64,
)
    requires
        jobs_wf(jobs, config),
        0 <= index < jobs.len(),
        !jobs[index].execution_finished,
        jobs[index].job_id != added.job_id,
        admits_job(pruned(jobs, now, config.retention_ttl), after, config, added),
    ensures
        pruned(jobs, now, config.retention_ttl).contains(jobs[index]),
        after.contains(jobs[index]),
{
    let job = jobs[index];
    let kept = pruned(jobs, now, config.retention_ttl);
    lemma_pruned(jobs, now, config.retention_ttl);
    lemma_pruned_wf(jobs, config, now, config.retention_ttl);
    assert(!is_expired(job, now, config.retention_ttl));
    let room = choose|room: Seq<Job>| #[trigger]
        room_made(kept, room, config.max_retained_jobs as nat) && after == without_job(
            room,
            added.job_id,
        ).push(added);
    let at = choose|i: int| 0 <= i < kept.len() && kept[i] == job;
    if kept.len() >= config.max_retained_jobs {
        let evicted = choose|i: int| #[trigger]
            is_oldest_removable(kept, i) && room == kept.remove(i);
        assert(evicted != at);
        assert(room[if at < evicted {
            at
        } else {
            at - 1
        }] == job);
    } else {
        assert(room[at] == job);
    }
    lemma_without_job_keeps(room, added.job_id, job);
    let others = without_job(room, added.job_id);
    let found = choose|i: int| 0 <= i < others.len() && others[i] == job;
    assert(after[found] == job);
}

proof fn lemma_without_job_keeps(jobs: Seq<Job>, job_id: Seq<char>, job: Job)
    requires
        jobs.contains(job),
        job.job_id != job_id,
    ensures
        without_job(jobs, job_id).contains(job),
    decreases jobs.len(),
{
    let init = jobs.drop_last();
    let earlier = without_job(init, job_id);
    let all = without_job(jobs, job_id);
    let at = choose|i: int| 0 <= i < jobs.len() && jobs[i] == job;
    if at == jobs.len() - 1 {
        assert(all[earlier.len() as int] == job);
    } else {
        assert(init[at] == job);
        lemma_without_job_keeps(init, job_id, job);
        let found = choose|i: int| 0 <= i < earlier.len() && earlier[i] == job;
        assert(all[found] == job);
    }
}

/// What is left after pruning was not kept long enough, or may not be forgotten.
pub proof fn law_expired_jobs_are_gone(jobs: Seq<Job>, now: u64, ttl: u128, index: int)
    requires
        0 <= index < pruned(jobs, now, ttl).len(),
    ensures
        !is_expired(pruned(jobs, now, ttl)[index], now, ttl),
        jobs.contains(pruned(jobs, now, ttl)[index]),
{
    lemma_pruned(jobs, now, ttl);
}

/// A limit of zero refuses every job.
pub proof fn law_zero_capacity_refuses_jobs(jobs: Seq<Job>, config: ThreadlineJobManagerConfig)
    requires
        config.max_active_jobs == 0 || config.max_retained_jobs == 0,
    ensures
        is_full(jobs, config),
{
}

/// A job that was removed is not found any more.
pub proof fn law_removed_jobs_are_not_found(jobs: Seq<Job>, job_id: Seq<char>)
    ensures
        job_of(without_job(jobs, job_id), job_id) is None,
{
    lemma_without_job_lacks(jobs, job_id);
}

/// A job that was cancelled or has completed keeps its place among the active jobs as long as its
/// worker is there.
pub proof fn law_ended_jobs_keep_their_place(
    jobs: Seq<Job>,
    job_id: Seq<char>,
    result: Json,
    failure: Failure,
    now: u64,
)
    ensures
        active_count(with_job(jobs, job_id, |job: Job| job_cancelled(job, now))) == active_count(
            jobs,
        ),
        active_count(with_job(jobs, job_id, |job: Job| job_completed(job, result, now)))
            == active_count(jobs),
        active_count(with_job(jobs, job_id, |job: Job| job_failed(job, failure, now)))
            == active_count(jobs),
{
    lemma_active_unchanged(jobs, job_id, |job: Job| job_cancelled(job, now));
    lemma_active_unchanged(jobs, job_id, |job: Job| job_completed(job, result, now));
    lemma_active_unchanged(jobs, job_id, |job: Job| job_failed(job, failure, now));
}

proof fn lemma_active_unchanged(jobs: Seq<Job>, job_id: Seq<char>, change: spec_fn(Job) -> Job)
    requires
        forall|job: Job| (#[trigger] change(job)).execution_finished == job.execution_finished,
    ensures
        active_count(with_job(jobs, job_id, change)) == active_count(jobs),
    decreases jobs.len(),
{
    let changed = with_job(jobs, job_id, change);
    if jobs.len() > 0 {
        lemma_active_unchanged(jobs.drop_last(), job_id, change);
        assert(changed.drop_last() =~= with_job(jobs.drop_last(), job_id, change));
        assert(change(jobs.last()).execution_finished == jobs.last().execution_finished);
    }
}

} // verus!

//! What holds of every registry of retained sessions.

use crate::codex_ws::{is_uuid_text, new_session, window_id_of, Session};
use crate::registry::{
    acquires_new, acquisition, admits_session, is_evictable, is_exhausted, is_new_lease,
    lease_released, marker_recorded, new_entry, registry_wf, removed, turn_recovered,
    turn_state_updated, turn_timed_out, upstream_replaced, window_advanced, with_new_session,
    without_entry, Entry, Lease, Registry, RegistryAcquireError, RetainedSessionLease,
};
use crate::responses::session::effect_applied;
use crate::responses::translation;
use crate::text::is_blank;
use crate::ws_pump::Terminal;
use vstd::prelude::*;

verus! {

/// Whether two registries differ in nothing but one entry: all other entries, all markers and the
/// capacity are the same.
pub open spec fn differ_only_in<U>(before: Registry<U>, after: Registry<U>, id: u64) -> bool {
    &&& after.capacity == before.capacity
    &&& after.next_entry_id == before.next_entry_id
    &&& after.markers == before.markers
    &&& after.entries.dom() == before.entries.dom()
    &&& forall|other: u64| #[trigger]
        before.entries.contains_key(other) && other != id ==> after.entries[other]
            == before.entries[other]
}

/// A response is continued in the session that completed it, exactly when that session is known, not
/// in use and not lost: neither to an overflow nor to a timeout. The session is then in use; it keeps
/// all that it had but a connection that was closed. Nothing else changes, and every refusal says
/// which of these did not hold.
pub proof fn law_responses_are_continued_in_their_session<U>(
    registry: Registry<U>,
    marker: Seq<char>,
    state: Terminal,
    now: u64,
)
    requires
        registry_wf(registry),
    ensures
        ({
            let (after, found) = acquisition(registry, marker, state, now);
            let id = registry.markers[marker];
            let entry = registry.entries[id];
            let overflowed = !entry.recoverable || (!entry.liveness_timed_out && entry.upstream is Some
                && state is InboundBufferOverflow);
            let timed_out = entry.liveness_timed_out || (entry.upstream is Some
                && state is LivenessTimeout);
            if !registry.markers.contains_key(marker) {
                &&& found == Err::<u64, _>(RegistryAcquireError::PreviousResponseNotFound)
                &&& after == registry
            } else {
                &&& differ_only_in(registry, after, id)
                &&& after.entries[id].session == entry.session
                &&& after.entries[id].markers == entry.markers
                &&& after.entries[id].window_generation == entry.window_generation
                &&& if entry.in_use {
                    found == Err::<u64, _>(RegistryAcquireError::RetainedSessionConflict) && after
                        == registry
                } else if overflowed {
                    found == Err::<u64, _>(RegistryAcquireError::UpstreamInboundBufferOverflow)
                        && !after.entries[id].recoverable && !after.entries[id].in_use
                } else if timed_out {
                    found == Err::<u64, _>(RegistryAcquireError::PreviousResponseNotFound)
                        && after.entries[id].liveness_timed_out && !after.entries[id].in_use
                } else {
                    &&& found == Ok::<u64, RegistryAcquireError>(id)
                    &&& after.entries[id].in_use
                    &&& after.entries[id].last_used == now
                    &&& after.entries[id].recoverable
                    &&& !after.entries[id].liveness_timed_out
                    &&& after.entries[id].upstream == (if state is Closed {
                        None
                    } else {
                        entry.upstream
                    })
                }
            }
        }),
{
    let (after, _) = acquisition(registry, marker, state, now);
    assert(after.entries.dom() =~= registry.entries.dom());
    if registry.markers.contains_key(marker) {
        assert(registry.entries.contains_key(registry.markers[marker]));
    }
}

/// A new session is in use, has no connection yet and completed nothing. All other sessions stay
/// while there is room; otherwise exactly one is forgotten, which nobody uses and which was used no
/// later than any other that nobody uses. The markers of the sessions that stay still lead to them.
pub proof fn law_new_sessions_leave_the_others<U>(
    before: Registry<U>,
    after: Registry<U>,
    session: Session,
    now: u64,
)
    requires
        registry_wf(before),
        before.next_entry_id < u64::MAX,
        admits_session(before, after, session, now),
    ensures
        ({
            let id = before.next_entry_id;
            &&& after.capacity == before.capacity
            &&& after.next_entry_id > before.next_entry_id
            &&& !before.entries.contains_key(id)
            &&& after.entries.contains_key(id)
            &&& after.entries[id].session == session
            &&& after.entries[id].in_use
            &&& after.entries[id].recoverable
            &&& !after.entries[id].liveness_timed_out
            &&& after.entries[id].upstream is None
            &&& after.entries[id].markers.len() == 0
            &&& after.entries[id].window_generation == 0
            &&& after.entries[id].last_used == now
            &&& before.entries.len() < before.capacity ==> after.markers == before.markers
                && after.entries.remove(id) == before.entries
            &&& before.entries.len() >= before.capacity ==> exists|evicted: u64| #[trigger]
                is_least_recently_used(before, evicted) && after.entries.remove(id)
                    == before.entries.remove(evicted) && forgets_markers_of(before, after, evicted)
        }),
{
    let id = before.next_entry_id;
    if before.entries.contains_key(id) {
        assert(id < before.next_entry_id);
    }
    if before.entries.len() < before.capacity {
        assert(after.entries.remove(id) =~= before.entries);
    } else {
        let evicted = choose|evicted: u64| #[trigger]
            is_evictable(before, evicted) && after == with_new_session(
                without_entry(before, evicted),
                session,
                now,
            );
        assert(is_least_recently_used(before, evicted));
        assert(evicted < before.next_entry_id);
        assert(after.entries.remove(id) =~= before.entries.remove(evicted));
        assert(forgets_markers_of(before, after, evicted));
    }
}

/// Whether nobody uses a session, and no other such session was last used before it.
pub open spec fn is_least_recently_used<U>(registry: Registry<U>, id: u64) -> bool {
    &&& registry.entries.contains_key(id)
    &&& !registry.entries[id].in_use
    &&& forall|other: u64| #[trigger]
        registry.entries.contains_key(other) && !registry.entries[other].in_use
            ==> registry.entries[id].last_used <= registry.entries[other].last_used
}

/// Whether exactly the markers that lead to a session are gone.
pub open spec fn forgets_markers_of<U>(before: Registry<U>, after: Registry<U>, id: u64) -> bool {
    forall|marker: Seq<char>|
        {
            &&& #[trigger] after.markers.contains_key(marker) <==> before.markers.contains_key(marker)
                && before.markers[marker] != id
            &&& after.markers.contains_key(marker) ==> after.markers[marker]
                == before.markers[marker]
        }
}

/// There is no room for a new session exactly when there is none at all, or when as many sessions as
/// there may be are all in use.
pub proof fn law_sessions_are_refused_for_want_of_room<U>(registry: Registry<U>)
    requires
        registry_wf(registry),
    ensures
        is_exhausted(registry) <==> (registry.entries.len() == registry.capacity && forall|id: u64|
         #[trigger]
            registry.entries.contains_key(id) ==> registry.entries[id].in_use),
{
    if registry.capacity == 0 {
        assert forall|id: u64| !(#[trigger] registry.entries.contains_key(id)) by {
            if registry.entries.contains_key(id) {
                assert(registry.entries.dom().contains(id));
                registry.entries.dom().lemma_len0_is_empty();
            }
        }
    }
}

/// A completed response leads to its session from then on, and so does every response that did
/// before, unless it has the same id. The session stays as it is, and the turn may end without
/// taking it along.
pub proof fn law_completed_responses_lead_to_their_session<U>(
    registry: Registry<U>,
    lease: Lease<U>,
    marker: Seq<char>,
    now: u64,
    other: Seq<char>,
)
    requires
        registry_wf(registry),
        registry.entries.contains_key(lease.entry_id),
    ensures
        ({
            let id = lease.entry_id;
            let (after, holder) = marker_recorded(registry, lease, marker, now);
            &&& after.markers.contains_key(marker)
            &&& after.markers[marker] == id
            &&& other != marker ==> (after.markers.contains_key(other)
                <==> registry.markers.contains_key(other))
            &&& other != marker && after.markers.contains_key(other) ==> after.markers[other]
                == registry.markers[other]
            &&& after.entries.dom() == registry.entries.dom()
            &&& forall|one: u64| #[trigger]
                registry.entries.contains_key(one) && one != id ==> after.entries[one]
                    == registry.entries[one]
            &&& after.entries[id] == Entry {
                markers: after.entries[id].markers,
                last_used: now,
                ..registry.entries[id]
            }
            &&& after.entries[id].markers.contains(marker)
            &&& registry.entries[id].markers.is_prefix_of(after.entries[id].markers)
            &&& holder == Lease { armed: false, ..lease }
            &&& after.capacity == registry.capacity
        }),
{
    let id = lease.entry_id;
    let (after, _) = marker_recorded(registry, lease, marker, now);
    let markers = registry.entries[id].markers;
    assert(after.entries.dom() =~= registry.entries.dom());
    if !markers.contains(marker) {
        assert(markers.push(marker)[markers.len() as int] == marker);
    }
}

/// A lease that is given back frees the session: its markers still lead to it and its connection
/// stays. A turn that was under way takes its session along. A lease is given back once.
pub proof fn law_released_sessions_are_free<U>(registry: Registry<U>, lease: Lease<U>, now: u64)
    requires
        registry_wf(registry),
        registry.entries.contains_key(lease.entry_id),
    ensures
        ({
            let id = lease.entry_id;
            let (after, holder) = lease_released(registry, lease, now);
            if lease.removed || lease.released {
                after == registry && holder == lease
            } else if lease.armed {
                &&& after.entries == registry.entries.remove(id)
                &&& forgets_markers_of(registry, after, id)
                &&& holder.removed
                &&& holder.released
            } else {
                &&& differ_only_in(registry, after, id)
                &&& after.entries[id] == Entry {
                    in_use: false,
                    last_used: now,
                    ..registry.entries[id]
                }
                &&& holder == Lease { released: true, upstream: None, ..lease }
            }
        }),
{
    let (after, _) = lease_released(registry, lease, now);
    if !lease.removed && !lease.released && !lease.armed {
        assert(after.entries.dom() =~= registry.entries.dom());
    }
}

/// A session that is given up is forgotten, with exactly the responses that lead to it. The others
/// stay.
pub proof fn law_sessions_that_are_given_up_are_forgotten<U>(registry: Registry<U>, lease: Lease<U>)
    requires
        registry_wf(registry),
        !lease.removed,
    ensures
        ({
            let (after, holder) = removed(registry, lease);
            &&& after.entries == registry.entries.remove(lease.entry_id)
            &&& forgets_markers_of(registry, after, lease.entry_id)
            &&& after.capacity == registry.capacity
            &&& after.next_entry_id == registry.next_entry_id
            &&& holder.removed
            &&& holder.released
            &&& holder.upstream is None
        }),
{
    let id = lease.entry_id;
    if !registry.entries.contains_key(id) {
        assert(registry.entries.remove(id) =~= registry.entries);
        assert forall|marker: Seq<char>| #[trigger]
            registry.markers.contains_key(marker) implies registry.markers[marker] != id by {
            assert(registry.entries.contains_key(registry.markers[marker]));
        }
    }
}

/// A turn whose connection is lost leaves a session that completed something: it has no connection,
/// and is otherwise as it was. A session that completed nothing is forgotten.
pub proof fn law_lost_connections_leave_the_session<U>(
    registry: Registry<U>,
    lease: Lease<U>,
    now: u64,
)
    requires
        registry_wf(registry),
        registry.entries.contains_key(lease.entry_id),
        !lease.removed,
    ensures
        ({
            let id = lease.entry_id;
            let entry = registry.entries[id];
            let (recovered, holder) = turn_recovered(registry, lease, now);
            let (timed_out, late_holder) = turn_timed_out(registry, lease, now);
            if entry.markers.len() == 0 {
                &&& recovered.entries == registry.entries.remove(id)
                &&& timed_out.entries == registry.entries.remove(id)
                &&& holder.removed
                &&& late_holder.removed
            } else {
                &&& differ_only_in(registry, recovered, id)
                &&& differ_only_in(registry, timed_out, id)
                &&& recovered.entries[id] == Entry {
                    upstream: None,
                    recoverable: true,
                    last_used: now,
                    ..entry
                }
                &&& timed_out.entries[id] == Entry {
                    upstream: None,
                    recoverable: true,
                    liveness_timed_out: true,
                    last_used: now,
                    ..entry
                }
                &&& !holder.removed
                &&& !holder.armed
                &&& holder.upstream is None
                &&& holder.session == entry.session
                &&& !late_holder.armed
            }
        }),
{
    let id = lease.entry_id;
    let (recovered, _) = turn_recovered(registry, lease, now);
    let (timed_out, _) = turn_timed_out(registry, lease, now);
    if registry.entries[id].markers.len() == 0 {
        assert(recovered.entries =~= registry.entries.remove(id));
        assert(timed_out.entries =~= registry.entries.remove(id));
    } else {
        assert(recovered.entries.dom() =~= registry.entries.dom());
        assert(timed_out.entries.dom() =~= registry.entries.dom());
    }
}

/// A new connection belongs to its session: the session can be continued on it, with the ids it had
/// and the state that came with the connection.
pub proof fn law_new_connections_belong_to_their_session<U>(
    registry: Registry<U>,
    lease: Lease<U>,
    turn_state: Option<Seq<char>>,
    upstream: Option<U>,
    now: u64,
)
    requires
        registry_wf(registry),
        registry.entries.contains_key(lease.entry_id),
    ensures
        ({
            let id = lease.entry_id;
            let entry = registry.entries[id];
            let (updated, holder) = turn_state_updated(registry, lease, turn_state, now);
            let connected = upstream_replaced(registry, id, upstream, now);
            &&& differ_only_in(registry, updated, id)
            &&& updated.entries[id] == Entry {
                session: Session { turn_state, ..entry.session },
                last_used: now,
                ..entry
            }
            &&& holder == Lease { session: Session { turn_state, ..lease.session }, ..lease }
            &&& differ_only_in(registry, connected, id)
            &&& connected.entries[id] == Entry {
                upstream,
                recoverable: true,
                liveness_timed_out: false,
                last_used: now,
                ..entry
            }
        }),
{
    let (updated, _) = turn_state_updated(registry, lease, turn_state, now);
    let connected = upstream_replaced(registry, lease.entry_id, upstream, now);
    assert(updated.entries.dom() =~= registry.entries.dom());
    assert(connected.entries.dom() =~= registry.entries.dom());
}

/// A window that is advanced is the next one of the same thread.
pub proof fn law_windows_are_numbered<U>(registry: Registry<U>, lease: Lease<U>, now: u64)
    requires
        registry_wf(registry),
        registry.entries.contains_key(lease.entry_id),
        registry.entries[lease.entry_id].window_generation < u64::MAX,
    ensures
        ({
            let id = lease.entry_id;
            let entry = registry.entries[id];
            let (after, holder) = window_advanced(registry, lease, now);
            &&& differ_only_in(registry, after, id)
            &&& after.entries[id].window_generation == entry.window_generation + 1
            &&& after.entries[id].session == Session {
                window_id: window_id_of(
                    entry.session.thread_id,
                    after.entries[id].window_generation,
                ),
                ..entry.session
            }
            &&& after.entries[id].upstream == entry.upstream
            &&& after.entries[id].in_use == entry.in_use
            &&& after.entries[id].markers == entry.markers
            &&& holder.session == after.entries[id].session
        }),
{
    let (after, _) = window_advanced(registry, lease, now);
    assert(after.entries.dom() =~= registry.entries.dom());
}

/// What the end of a turn does to its session: a completed response leads to the session, which is
/// free and keeps its connection; one without an id leads nowhere, and takes along a session whose
/// turn was under way; a lost connection leaves a session that completed something; and a
/// session that is given up is forgotten, with its responses. Nothing happens to the others.
pub proof fn law_turns_end_as_told<U>(
    registry: Registry<U>,
    lease: Lease<U>,
    marker: Seq<char>,
    now: u64,
)
    requires
        registry_wf(registry),
        registry.entries.contains_key(lease.entry_id),
        !lease.removed,
        !lease.released,
    ensures
        ({
            let id = lease.entry_id;
            let entry = registry.entries[id];
            let kept = effect_applied(registry, lease, translation::Lease::Keep, now);
            let completed = effect_applied(
                registry,
                lease,
                translation::Lease::CompleteAndRelease(Some(marker)),
                now,
            ).0;
            let recovered = effect_applied(
                registry,
                lease,
                translation::Lease::RecoverAndRelease,
                now,
            ).0;
            let released = effect_applied(
                registry,
                lease,
                translation::Lease::TerminateAndRelease,
                now,
            ).0;
            let terminated = effect_applied(registry, lease, translation::Lease::Terminate, now).0;
            let unnamed = effect_applied(
                registry,
                lease,
                translation::Lease::CompleteAndRelease(None),
                now,
            ).0;
            &&& kept == (registry, lease)
            &&& !lease.armed ==> {
                &&& unnamed.markers == registry.markers
                &&& unnamed.entries == registry.entries.insert(
                    id,
                    Entry { in_use: false, last_used: now, ..entry },
                )
            }
            &&& lease.armed ==> unnamed.entries == registry.entries.remove(id)
                && forgets_markers_of(registry, unnamed, id)
            &&& completed.markers == registry.markers.insert(marker, id)
            &&& completed.entries.dom() == registry.entries.dom()
            &&& !completed.entries[id].in_use
            &&& completed.entries[id].upstream == entry.upstream
            &&& completed.entries[id].session == entry.session
            &&& entry.markers.len() > 0 ==> {
                &&& recovered.markers == registry.markers
                &&& recovered.entries.dom() == registry.entries.dom()
                &&& !recovered.entries[id].in_use
                &&& recovered.entries[id].upstream is None
                &&& recovered.entries[id].recoverable
                &&& recovered.entries[id].session == entry.session
            }
            &&& released.entries == registry.entries.remove(id)
            &&& forgets_markers_of(registry, released, id)
            &&& terminated.entries == registry.entries.remove(id)
            &&& forgets_markers_of(registry, terminated, id)
        }),
{
    let id = lease.entry_id;
    law_sessions_that_are_given_up_are_forgotten(registry, lease);
    let completed = effect_applied(
        registry,
        lease,
        translation::Lease::CompleteAndRelease(Some(marker)),
        now,
    ).0;
    let recovered = effect_applied(registry, lease, translation::Lease::RecoverAndRelease, now).0;
    assert(completed.entries.dom() =~= registry.entries.dom());
    if registry.entries[id].markers.len() > 0 {
        assert(recovered.entries.dom() =~= registry.entries.dom());
    }
}

/// A new lease is for the session that was found or made: it has that session's ids and its
/// connection, and nothing has happened to it.
pub proof fn law_leases_are_for_their_session<U: Clone>(lease: Lease<U>, id: u64, entry: Entry<U>)
    requires
        is_new_lease(lease, id, entry),
    ensures
        lease.entry_id == id,
        lease.session == entry.session,
        lease.upstream is Some <==> entry.upstream is Some,
        lease.upstream matches Some(copy) ==> cloned(entry.upstream->0, copy),
        !lease.armed,
        !lease.removed,
        !lease.released,
{
}

/// A new session is made exactly when there is room for it. It belongs to the thread that was asked
/// for, and its lease is for it.
pub proof fn law_new_sessions_are_leased<U: Clone>(
    before: Registry<U>,
    after: Registry<U>,
    thread_id: Option<Seq<char>>,
    now: u64,
    lease: Result<RetainedSessionLease<U>, RegistryAcquireError>,
)
    requires
        registry_wf(before),
        before.next_entry_id < u64::MAX,
        acquires_new(before, after, thread_id, now, lease),
    ensures
        lease is Ok <==> !is_exhausted(before),
        lease matches Err(error) ==> error == RegistryAcquireError::RetainedSessionCapacityExceeded
            && after == before,
        lease matches Ok(acquired) ==> {
            let id = before.next_entry_id;
            &&& acquired@.entry_id == id
            &&& after.entries.contains_key(id)
            &&& after.entries[id].session == acquired@.session
            &&& after.entries[id].in_use
            &&& acquired@.upstream is None
            &&& acquired@.session.turn_state is None
            &&& thread_id matches Some(given) ==> !is_blank(given) ==> acquired@.session.thread_id
                == given
        },
{
    if let Ok(acquired) = lease {
        let (replacement, session_id) = choose|replacement: Seq<char>, session_id: Seq<char>|
            is_uuid_text(replacement) && is_uuid_text(session_id) && is_new_lease(
                acquired@,
                before.next_entry_id,
                new_entry(#[trigger] new_session(thread_id, replacement, session_id), now),
            ) && admits_session(
                before,
                after,
                new_session(thread_id, replacement, session_id),
                now,
            );
        let session = new_session(thread_id, replacement, session_id);
        law_new_sessions_leave_the_others(before, after, session, now);
    }
}

} // verus!

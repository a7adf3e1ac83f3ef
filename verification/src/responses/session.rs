//! What the turns of the `/v1/responses` route do with the retained sessions.

use crate::registry::{
    acquires_new, acquisition, is_handle_copy, is_new_lease, lease_released, marker_recorded,
    registry_wf, removed, turn_recovered, turn_state_updated, upstream_replaced, Lease, Registry,
    RegistryAcquireError, RetainedSessionLease, RetainedSessionRegistry,
};
use crate::responses::translation;
use crate::responses::translation::LeaseEffect;
use crate::text::{optional_str, optional_text};
use crate::ws_pump::{Terminal, UpstreamTerminalState};
use vstd::prelude::*;

verus! {

/// Acquires the session for a turn: the one that a response marker leads to, given how its
/// connection stands, or a new one.
pub fn acquire_lease<U: Clone>(
    registry: &mut RetainedSessionRegistry<U>,
    previous_response_id: Option<&str>,
    upstream_state: &UpstreamTerminalState,
    now: u64,
) -> (lease: Result<RetainedSessionLease<U>, RegistryAcquireError>)
    requires
        old(registry).wf(),
        old(registry).next_entry_id < u64::MAX,
    ensures
        final(registry).wf(),
        match optional_str(previous_response_id) {
            Some(marker) => {
                let (after, found) = acquisition(old(registry)@, marker, upstream_state@, now);
                &&& final(registry)@ == after
                &&& match found {
                    Ok(id) => lease matches Ok(acquired) && is_new_lease(
                        acquired@,
                        id,
                        after.entries[id],
                    ),
                    Err(error) => lease matches Err(refused) && refused == error,
                }
            },
            None => acquires_new(old(registry)@, final(registry)@, None, now, lease),
        },
{
    match previous_response_id {
        Some(marker) => registry.acquire_previous(marker, upstream_state, now),
        None => registry.acquire_new(now),
    }
}

/// The connection of a session that can be used as it is. A connection that is gone is given up, and
/// a new one is to be opened.
pub fn usable_upstream<U: Clone>(
    registry: &mut RetainedSessionRegistry<U>,
    lease: &mut RetainedSessionLease<U>,
    upstream_state: &UpstreamTerminalState,
    now: u64,
) -> (handle: Option<U>)
    requires
        old(registry).wf(),
    ensures
        final(registry).wf(),
        if old(lease)@.upstream is Some && upstream_state@ == Terminal::Open {
            &&& is_handle_copy(old(lease)@.upstream, handle)
            &&& (final(registry)@, final(lease)@) == (old(registry)@, old(lease)@)
        } else {
            &&& handle is None
            &&& (final(registry)@, final(lease)@) == (if old(lease)@.upstream is Some {
                turn_recovered(old(registry)@, old(lease)@, now)
            } else {
                (old(registry)@, old(lease)@)
            })
        },
{
    if !lease.has_live_upstream() {
        return None;
    }
    if lease.has_open_upstream(upstream_state) {
        return lease.upstream();
    }
    lease.mark_upstream_recoverable(registry, now);
    None
}

/// Takes note of a connection that was opened for a session.
pub fn upstream_connected<U: Clone>(
    registry: &mut RetainedSessionRegistry<U>,
    lease: &mut RetainedSessionLease<U>,
    turn_state: Option<String>,
    upstream: U,
    now: u64,
)
    requires
        old(registry).wf(),
    ensures
        final(registry).wf(),
        ({
            let state = match optional_text(turn_state) {
                Some(text) => Some(text),
                None => old(lease)@.session.turn_state,
            };
            let (updated, holder) = turn_state_updated(old(registry)@, old(lease)@, state, now);
            &&& final(registry)@ == upstream_replaced(
                updated,
                old(lease)@.entry_id,
                Some(upstream),
                now,
            )
            &&& is_handle_copy(Some(upstream), final(lease)@.upstream)
            &&& final(lease)@ == (Lease { upstream: final(lease)@.upstream, ..holder })
        }),
{
    let state = crate::responses::route::turn_state_after_connect(
        turn_state,
        &lease.session.turn_state,
    );
    lease.update_turn_state(registry, state, now);
    lease.replace_upstream(registry, Some(upstream), now);
}

/// A registry and a lease after an effect.
pub open spec fn effect_applied<U>(
    registry: Registry<U>,
    lease: Lease<U>,
    effect: translation::Lease,
    now: u64,
) -> (Registry<U>, Lease<U>) {
    match effect {
        translation::Lease::Keep => (registry, lease),
        translation::Lease::RecoverAndRelease => {
            let (after, holder) = turn_recovered(registry, lease, now);
            lease_released(after, holder, now)
        },
        translation::Lease::TerminateAndRelease => {
            let (after, holder) = removed(registry, lease);
            lease_released(after, holder, now)
        },
        translation::Lease::Terminate => removed(registry, lease),
        translation::Lease::CompleteAndRelease(marker) => {
            let (after, holder) = match marker {
                Some(id) => marker_recorded(registry, lease, id, now),
                None => (registry, lease),
            };
            lease_released(after, holder, now)
        },
    }
}

/// Does to a session what a turn has come to.
pub fn apply_lease_effect<U: Clone>(
    registry: &mut RetainedSessionRegistry<U>,
    lease: &mut RetainedSessionLease<U>,
    effect: LeaseEffect,
    now: u64,
)
    requires
        old(registry).wf(),
    ensures
        final(registry).wf(),
        (final(registry)@, final(lease)@) == effect_applied(
            old(registry)@,
            old(lease)@,
            effect@,
            now,
        ),
{
    match effect {
        LeaseEffect::Keep => {},
        LeaseEffect::RecoverAndRelease => {
            lease.mark_upstream_recoverable(registry, now);
            lease.release(registry, now);
        },
        LeaseEffect::TerminateAndRelease => {
            lease.mark_upstream_terminal(registry);
            lease.release(registry, now);
        },
        LeaseEffect::Terminate => {
            lease.mark_upstream_terminal(registry);
        },
        LeaseEffect::CompleteAndRelease(marker) => {
            if let Some(id) = marker {
                lease.record_completed_marker(registry, id, now);
            }
            lease.release(registry, now);
        },
    }
}

/// A turn that has ended holds its session no longer, however it ended: the session is free for the
/// next turn, or it is forgotten.
pub proof fn law_ended_turn_frees_its_session<U>(
    registry: Registry<U>,
    lease: Lease<U>,
    effect: translation::Lease,
    now: u64,
)
    requires
        registry_wf(registry),
        !lease.removed,
        !lease.released,
        effect != translation::Lease::Keep,
    ensures
        ({
            let (after, holder) = effect_applied(registry, lease, effect, now);
            &&& holder.released
            &&& after.entries.contains_key(lease.entry_id)
                ==> !after.entries[lease.entry_id].in_use
        }),
{
}

/// A completed turn can be continued: its response marker leads to its session, on the connection
/// that it used.
pub proof fn law_completed_turn_can_be_continued<U>(
    registry: Registry<U>,
    lease: Lease<U>,
    marker: Seq<char>,
    now: u64,
    later: u64,
)
    requires
        registry_wf(registry),
        registry.entries.contains_key(lease.entry_id),
        registry.entries[lease.entry_id].recoverable,
        !registry.entries[lease.entry_id].liveness_timed_out,
        !lease.removed,
        !lease.released,
    ensures
        ({
            let effect = translation::Lease::CompleteAndRelease(Some(marker));
            let (after, _) = effect_applied(registry, lease, effect, now);
            let (acquired, found) = acquisition(after, marker, Terminal::Open, later);
            &&& found == Ok::<u64, RegistryAcquireError>(lease.entry_id)
            &&& acquired.entries[lease.entry_id].upstream
                == registry.entries[lease.entry_id].upstream
        }),
{
}

} // verus!

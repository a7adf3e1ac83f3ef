use threadline::codex_ws::UpstreamSessionDescriptor;
use threadline::registry::{RegistryAcquireError, RetainedSessionRegistry};
use threadline::responses::session::{
    acquire_lease, apply_lease_effect, upstream_connected, usable_upstream,
};
use threadline::responses::translation::LeaseEffect;
use threadline::ws_pump::{
    InboundBufferOverflow, InboundBufferOverflowCause, UpstreamCloseMetadata,
    UpstreamLivenessTimeout, UpstreamLivenessTimeoutCause, UpstreamTerminalState,
};

const OPEN: UpstreamTerminalState = UpstreamTerminalState::Open;

fn explicit_session() -> UpstreamSessionDescriptor {
    UpstreamSessionDescriptor {
        session_id: "session-known".to_string(),
        thread_id: "thread-known".to_string(),
        window_id: "thread-known:7".to_string(),
        turn_state: Some("turn-state-known".to_string()),
    }
}

fn same_session(left: &UpstreamSessionDescriptor, right: &UpstreamSessionDescriptor) -> bool {
    left.session_id == right.session_id
        && left.thread_id == right.thread_id
        && left.window_id == right.window_id
        && left.turn_state == right.turn_state
}

fn set_entry_metadata(
    registry: &mut RetainedSessionRegistry<u32>,
    entry_id: u64,
    session: UpstreamSessionDescriptor,
) {
    let entry = registry
        .entries
        .get_mut(&entry_id)
        .expect("entry should exist");
    entry.session = session;
    entry.window_generation = 7;
}

fn closed() -> UpstreamTerminalState {
    UpstreamTerminalState::Closed(UpstreamCloseMetadata {
        code: None,
        reason: None,
        error: None,
    })
}

fn timed_out() -> UpstreamTerminalState {
    UpstreamTerminalState::LivenessTimeout(UpstreamLivenessTimeout {
        cause: UpstreamLivenessTimeoutCause::PongDeadline,
        timeout: 1,
        elapsed: 1,
        outbound_kind: None,
    })
}

fn overflowed() -> UpstreamTerminalState {
    UpstreamTerminalState::InboundBufferOverflow(InboundBufferOverflow {
        cause: InboundBufferOverflowCause::MessageCount,
        queued_messages: 1,
        queued_bytes: 1,
        incoming_bytes: 1,
        max_messages: 1,
        max_bytes: 1,
    })
}

#[test]
fn recording_a_completed_marker_refreshes_last_used() {
    let mut registry = RetainedSessionRegistry::<u32>::new(1);
    let mut lease = registry.acquire_new(1).expect("create session");
    let initial = registry.entries[&lease.entry_id].last_used;

    lease.record_completed_marker(&mut registry, "response-1".to_string(), 6);

    assert!(registry.entries[&lease.entry_id].last_used > initial);
}

#[test]
fn new_session_can_use_downstream_thread_identity() {
    let mut registry = RetainedSessionRegistry::<u32>::new(1);
    let thread_id = "48a65359-981b-47c2-9612-e1c64ae07e22".to_string();

    let lease = registry
        .acquire_new_with_thread_id(Some(thread_id.clone()), 1)
        .expect("create session");

    assert_eq!(lease.session().thread_id, thread_id);
    assert_eq!(
        lease.session().window_id,
        format!("{}:0", lease.session().thread_id)
    );
}

#[test]
fn recoverable_close_preserves_window_generation() {
    let mut registry = RetainedSessionRegistry::<u32>::new(1);
    let mut lease = registry.acquire_new(1).expect("create session");
    let original_window_id = lease.session().window_id.clone();

    lease.mark_upstream_recoverable(&mut registry, 2);

    assert_eq!(lease.session().window_id, original_window_id);
}

#[test]
fn explicit_window_generation_advance_updates_window_id() {
    let mut registry = RetainedSessionRegistry::<u32>::new(1);
    let mut lease = registry.acquire_new(1).expect("create session");
    let thread_id = lease.session().thread_id.clone();

    lease.advance_window_generation(&mut registry, 2);

    assert_eq!(lease.session().window_id, format!("{thread_id}:1"));
}

#[test]
fn detached_nonrecoverable_entry_repeats_inbound_overflow_for_its_marker() {
    let mut registry = RetainedSessionRegistry::<u32>::new(1);
    let mut lease = registry.acquire_new(1).expect("create session");
    lease.record_completed_marker(&mut registry, "response-overflow".to_string(), 2);
    lease.release(&mut registry, 3);

    {
        let entry_id = *registry
            .markers
            .get("response-overflow")
            .expect("marker should exist");
        let entry = registry
            .entries
            .get_mut(&entry_id)
            .expect("entry should exist");
        entry.upstream = None;
        entry.recoverable = false;
    }

    for _ in 0..2 {
        assert!(matches!(
            registry.acquire_previous("response-overflow", &OPEN, 4),
            Err(RegistryAcquireError::UpstreamInboundBufferOverflow)
        ));
    }
}

#[test]
fn overflowed_connection_is_refused_again_once_it_is_gone() {
    let mut registry = RetainedSessionRegistry::<u32>::new(1);
    let mut lease = registry.acquire_new(1).expect("create session");
    lease.replace_upstream(&mut registry, Some(9), 1);
    lease.record_completed_marker(&mut registry, "marker".to_string(), 2);
    lease.release(&mut registry, 3);

    for state in [overflowed(), OPEN] {
        assert!(matches!(
            registry.acquire_previous("marker", &state, 4),
            Err(RegistryAcquireError::UpstreamInboundBufferOverflow)
        ));
        assert_eq!(registry.upstream_of("marker"), None);
    }
}

#[test]
fn idle_liveness_timeout_preserves_completed_aliases_and_metadata_after_repeated_acquire() {
    let mut registry = RetainedSessionRegistry::<u32>::new(1);
    let mut lease = registry.acquire_new(1).expect("create session");
    let session = explicit_session();
    set_entry_metadata(&mut registry, lease.entry_id, session.clone());
    lease.record_completed_marker(&mut registry, "response-accepted".to_string(), 2);
    lease.record_completed_marker(&mut registry, "response-alias".to_string(), 3);
    lease.replace_upstream(&mut registry, Some(9), 4);
    lease.release(&mut registry, 5);

    let entry_id = lease.entry_id;
    for _ in 0..2 {
        assert!(matches!(
            registry.acquire_previous("response-accepted", &timed_out(), 6),
            Err(RegistryAcquireError::PreviousResponseNotFound)
        ));
    }

    assert_eq!(registry.markers.get("response-accepted"), Some(&entry_id));
    assert_eq!(registry.markers.get("response-alias"), Some(&entry_id));
    let entry = registry.entries.get(&entry_id).expect("entry should remain");
    assert_eq!(entry.markers, vec!["response-accepted", "response-alias"]);
    assert!(same_session(&entry.session, &session));
    assert_eq!(entry.window_generation, 7);
    assert!(entry.upstream.is_none());
    assert!(entry.recoverable);
    assert!(entry.liveness_timed_out);
    assert!(!entry.in_use);
}

#[test]
fn finalize_liveness_timeout_preserves_completed_metadata_and_reclaims_markerless_entry() {
    let mut registry = RetainedSessionRegistry::<u32>::new(1);
    let mut lease = registry.acquire_new(1).expect("create session");
    let session = explicit_session();
    set_entry_metadata(&mut registry, lease.entry_id, session.clone());
    lease.record_completed_marker(&mut registry, "response-accepted".to_string(), 2);
    lease.record_completed_marker(&mut registry, "response-alias".to_string(), 3);
    lease.arm_active_turn();
    lease.finalize_liveness_timeout_turn(&mut registry, 4);

    let entry_id = lease.entry_id;
    assert_eq!(registry.markers.get("response-accepted"), Some(&entry_id));
    assert_eq!(registry.markers.get("response-alias"), Some(&entry_id));
    assert!(!registry.markers.contains_key("response-unaccepted-final"));
    {
        let entry = registry.entries.get(&entry_id).expect("entry should remain");
        assert_eq!(entry.markers, vec!["response-accepted", "response-alias"]);
        assert!(same_session(&entry.session, &session));
        assert_eq!(entry.window_generation, 7);
        assert!(entry.upstream.is_none());
        assert!(entry.recoverable);
        assert!(entry.liveness_timed_out);
        assert!(entry.in_use);
    }

    lease.release(&mut registry, 5);
    assert!(
        !registry
            .entries
            .get(&entry_id)
            .expect("entry should remain")
            .in_use
    );
    assert!(matches!(
        registry.acquire_previous("response-unaccepted-final", &OPEN, 6),
        Err(RegistryAcquireError::PreviousResponseNotFound)
    ));

    let mut markerless_registry = RetainedSessionRegistry::<u32>::new(1);
    let mut markerless_lease = markerless_registry
        .acquire_new(1)
        .expect("create markerless session");
    markerless_lease.arm_active_turn();
    markerless_lease.finalize_liveness_timeout_turn(&mut markerless_registry, 2);

    assert!(markerless_registry.entries.is_empty());
    assert_eq!(markerless_registry.markers.len(), 0);
    assert!(
        markerless_registry.acquire_new(3).is_ok(),
        "markerless timeout should reclaim capacity"
    );
}

#[test]
fn least_recently_used_session_makes_room() {
    let mut registry = RetainedSessionRegistry::<u32>::new(2);
    let mut first = registry.acquire_new(1).expect("first");
    let mut second = registry.acquire_new(2).expect("second");
    assert!(matches!(
        registry.acquire_new(3),
        Err(RegistryAcquireError::RetainedSessionCapacityExceeded)
    ));
    second.record_completed_marker(&mut registry, "second".to_string(), 4);
    second.release(&mut registry, 5);
    first.record_completed_marker(&mut registry, "first".to_string(), 6);
    first.release(&mut registry, 7);

    let third = registry.acquire_new(8).expect("room was made");
    assert_eq!(third.entry_id, 3);
    assert!(matches!(
        registry.acquire_previous("second", &OPEN, 9),
        Err(RegistryAcquireError::PreviousResponseNotFound)
    ));
    assert!(registry.acquire_previous("first", &OPEN, 9).is_ok());
}

#[test]
fn registry_without_capacity_refuses_every_session() {
    let mut registry = RetainedSessionRegistry::<u32>::new(0);
    assert!(matches!(
        registry.acquire_new(1),
        Err(RegistryAcquireError::RetainedSessionCapacityExceeded)
    ));
}

#[test]
fn session_in_use_is_not_shared() {
    let mut registry = RetainedSessionRegistry::<u32>::new(1);
    let mut lease = registry.acquire_new(1).expect("session");
    lease.replace_upstream(&mut registry, Some(5), 1);
    lease.record_completed_marker(&mut registry, "marker".to_string(), 2);
    assert!(matches!(
        registry.acquire_previous("marker", &OPEN, 3),
        Err(RegistryAcquireError::RetainedSessionConflict)
    ));
    lease.release(&mut registry, 4);
    let again = registry
        .acquire_previous("marker", &OPEN, 5)
        .expect("session is free");
    assert_eq!(again.entry_id, lease.entry_id);
    assert_eq!(again.upstream(), Some(5));
    assert!(again.has_open_upstream(&OPEN));
    assert!(!again.has_open_upstream(&closed()));
}

#[test]
fn closed_connection_is_given_up_on_acquire() {
    let mut registry = RetainedSessionRegistry::<u32>::new(1);
    let mut lease = registry.acquire_new(1).expect("session");
    lease.replace_upstream(&mut registry, Some(5), 1);
    lease.record_completed_marker(&mut registry, "marker".to_string(), 2);
    lease.release(&mut registry, 3);
    assert!(!lease.has_live_upstream());
    let again = registry
        .acquire_previous("marker", &closed(), 4)
        .expect("session is free");
    assert!(!again.has_live_upstream());
}

#[test]
fn abandoned_turn_is_forgotten() {
    let mut registry = RetainedSessionRegistry::<u32>::new(1);
    let mut lease = registry.acquire_new(1).expect("session");
    lease.record_completed_marker(&mut registry, "marker".to_string(), 2);
    lease.arm_active_turn();
    lease.release(&mut registry, 3);
    assert!(registry.entries.is_empty());
    assert!(matches!(
        registry.acquire_previous("marker", &OPEN, 4),
        Err(RegistryAcquireError::PreviousResponseNotFound)
    ));
    lease.disarm_active_turn();
    lease.release(&mut registry, 5);
    assert!(lease.removed && lease.released);
}

#[test]
fn marker_that_moved_on_outlives_its_first_session() {
    let mut registry = RetainedSessionRegistry::<u32>::new(2);
    let mut first = registry.acquire_new(1).expect("first");
    let mut second = registry.acquire_new(1).expect("second");
    first.record_completed_marker(&mut registry, "marker".to_string(), 2);
    second.record_completed_marker(&mut registry, "marker".to_string(), 3);
    first.mark_upstream_terminal(&mut registry);
    second.release(&mut registry, 4);
    let found = registry
        .acquire_previous("marker", &OPEN, 5)
        .expect("second session");
    assert_eq!(found.entry_id, second.entry_id);
}

#[test]
fn turn_state_is_kept_for_the_session() {
    let mut registry = RetainedSessionRegistry::<u32>::new(1);
    let mut lease = registry.acquire_new(1).expect("session");
    assert_eq!(usable_upstream(&mut registry, &mut lease, &OPEN, 2), None);
    upstream_connected(&mut registry, &mut lease, Some("state".to_string()), 4, 2);
    assert_eq!(lease.session().turn_state.as_deref(), Some("state"));
    assert_eq!(
        usable_upstream(&mut registry, &mut lease, &OPEN, 3),
        Some(4)
    );
    lease.record_completed_marker(&mut registry, "marker".to_string(), 3);
    assert_eq!(
        usable_upstream(&mut registry, &mut lease, &closed(), 4),
        None
    );
    upstream_connected(&mut registry, &mut lease, None, 6, 5);
    assert_eq!(lease.session().turn_state.as_deref(), Some("state"));
    assert_eq!(lease.upstream(), Some(6));
}

#[test]
fn ended_turns_free_their_session() {
    for effect in [
        LeaseEffect::RecoverAndRelease,
        LeaseEffect::TerminateAndRelease,
        LeaseEffect::Terminate,
        LeaseEffect::CompleteAndRelease(Some("done".to_string())),
        LeaseEffect::CompleteAndRelease(None),
    ] {
        let mut registry = RetainedSessionRegistry::<u32>::new(1);
        let mut lease = acquire_lease(&mut registry, None, &OPEN, 1).expect("session");
        lease.replace_upstream(&mut registry, Some(1), 1);
        let completed = matches!(effect, LeaseEffect::CompleteAndRelease(Some(_)));
        apply_lease_effect(&mut registry, &mut lease, effect, 2);
        assert!(lease.released);
        assert_eq!(
            acquire_lease(&mut registry, Some("done"), &OPEN, 3).is_ok(),
            completed
        );
    }
    let mut registry = RetainedSessionRegistry::<u32>::new(1);
    let mut lease = acquire_lease(&mut registry, None, &OPEN, 1).expect("session");
    apply_lease_effect(&mut registry, &mut lease, LeaseEffect::Keep, 2);
    assert!(!lease.released);
}

use threadline::ws_pump::{
    payload_fits_inbound_byte_limit, CloseFrame, InboundBufferOverflow,
    InboundBufferOverflowCause, InboundFrame, OutboundFrame, PendingPongChallenge, PumpStep, Received,
    UpstreamCloseMetadata, UpstreamInboundLimits, UpstreamLivenessTimeout,
    UpstreamLivenessTimeoutCause, UpstreamOutboundKind, UpstreamPump, UpstreamTerminalState,
    UpstreamWatchdogPolicy, UpstreamWebSocketError, WriteOperation,
};

const SECOND: u64 = 1_000_000_000;

fn pump_with(max_messages: usize, max_bytes: usize) -> UpstreamPump {
    UpstreamPump::new(
        UpstreamInboundLimits::new(max_messages, max_bytes).expect("valid limits"),
        UpstreamWatchdogPolicy::new(3 * SECOND, 7 * SECOND).expect("valid policy"),
        10 * SECOND,
        0,
    )
}

fn received(pump: &mut UpstreamPump) -> String {
    match pump.receive() {
        Received::Message(text) => text,
        other => panic!("message expected, got {other:?}"),
    }
}

fn start_ping(pump: &mut UpstreamPump, now: u64) -> Vec<u8> {
    match pump.next_step(now) {
        PumpStep::Write(OutboundFrame::Ping(nonce)) => nonce,
        other => panic!("ping expected, got {other:?}"),
    }
}

#[test]
fn watchdog_policy_rejects_timeouts_out_of_range() {
    assert_eq!(
        UpstreamWatchdogPolicy::new(0, 1),
        Err("upstream pong timeout must be greater than zero and at most 3600 seconds")
    );
    assert_eq!(
        UpstreamWatchdogPolicy::new(1, 3600 * SECOND + 1),
        Err("upstream write timeout must be greater than zero and at most 3600 seconds")
    );
    let policy = UpstreamWatchdogPolicy::new(1, 3600 * SECOND).expect("valid policy");
    assert_eq!(policy.pong_timeout(), 1);
    assert_eq!(policy.write_timeout(), 3600 * SECOND);
    assert_eq!(UpstreamWatchdogPolicy::default().pong_timeout(), 60 * SECOND);
}

#[test]
fn inbound_limits_reject_values_out_of_range() {
    assert_eq!(
        UpstreamInboundLimits::new(65_537, 1),
        Err("upstream inbound message limit must be between 1 and 65536")
    );
    assert_eq!(
        UpstreamInboundLimits::new(1, 67_108_865),
        Err("upstream inbound byte limit must be between 1 and 67108864")
    );
    let small = UpstreamInboundLimits::new(1, 4).expect("valid limits");
    assert_eq!(small.max_frame_bytes(), 125);
    let limits = UpstreamInboundLimits::default();
    assert_eq!(limits.max_frame_bytes(), 16 * 1024 * 1024);
    assert_eq!(limits.max_messages(), 256);
    assert_eq!(limits.max_bytes(), 16 * 1024 * 1024);
}

#[test]
fn liveness_timeout_is_sticky_and_logs_once_without_nonce_contents() {
    let mut pump = UpstreamPump::new(
        UpstreamInboundLimits::new(1, 4).expect("valid limits"),
        UpstreamWatchdogPolicy::new(SECOND, 7 * SECOND).expect("valid policy"),
        10 * SECOND,
        0,
    );
    pump.operation = Some(WriteOperation {
        started_at: 0,
        kind: UpstreamOutboundKind::Text,
    });
    assert!(!pump.check_liveness_deadline(8 * SECOND));
    pump.operation = None;
    pump.pending_challenge = Some(PendingPongChallenge {
        nonce: b"current-challenge".to_vec(),
        sent_at: Some(8 * SECOND),
        acknowledged_early: false,
    });
    assert!(!pump.check_liveness_deadline(10 * SECOND));

    let state = pump.terminal_state();
    let timeout = match &state {
        UpstreamTerminalState::LivenessTimeout(timeout) => *timeout,
        other => panic!("timeout expected, got {other:?}"),
    };
    assert_eq!(timeout.cause, UpstreamLivenessTimeoutCause::WriteDeadline);
    assert_eq!(timeout.timeout, 7 * SECOND);
    assert_eq!(timeout.elapsed, 8 * SECOND);
    assert_eq!(timeout.outbound_kind, Some(UpstreamOutboundKind::Text));
    assert_eq!((timeout.timeout / 1_000_000).to_string(), "7000");
    assert_eq!((timeout.elapsed / 1_000_000).to_string(), "8000");
    assert!(!format!("{state:?}").contains("current-challenge"));
}

#[test]
fn liveness_timeout_does_not_replace_inbound_overflow() {
    let mut pump = pump_with(1, 1);
    assert!(pump.try_enqueue_inbound("a".to_string()));
    assert!(!pump.try_enqueue_inbound(String::new()));
    pump.operation = Some(WriteOperation {
        started_at: 0,
        kind: UpstreamOutboundKind::Text,
    });
    assert!(!pump.check_liveness_deadline(7 * SECOND));

    assert_eq!(
        pump.terminal_state(),
        UpstreamTerminalState::InboundBufferOverflow(InboundBufferOverflow {
            cause: InboundBufferOverflowCause::MessageCount,
            queued_messages: 1,
            queued_bytes: 1,
            incoming_bytes: 0,
            max_messages: 1,
            max_bytes: 1,
        })
    );
    assert!(pump.close_metadata().is_none());
    assert_eq!(
        pump.terminal_error(),
        Err(UpstreamWebSocketError::InboundBufferOverflow)
    );
}

#[test]
fn inbound_enqueue_failure_and_envelope_drop_return_byte_permits() {
    let mut pump = pump_with(1, 4);

    assert!(pump.try_enqueue_inbound("four".to_string()));
    assert_eq!(pump.queued_bytes, 4);

    assert!(!pump.try_enqueue_inbound("next".to_string()));
    assert_eq!(pump.queued_bytes, 4);
    assert!(matches!(
        pump.terminal_state(),
        UpstreamTerminalState::InboundBufferOverflow(InboundBufferOverflow {
            cause: InboundBufferOverflowCause::PayloadBytes,
            ..
        })
    ));

    let mut pump = pump_with(1, 4);
    assert!(pump.try_enqueue_inbound("four".to_string()));
    assert_eq!(received(&mut pump), "four");
    assert_eq!(pump.queued_bytes, 0);

    pump.close_receiver();
    assert!(!pump.try_enqueue_inbound("four".to_string()));
    assert_eq!(pump.queued_bytes, 0);
    assert!(matches!(pump.terminal_state(), UpstreamTerminalState::Open));
}

#[test]
fn inbound_payload_size_check_precedes_semaphore_permit_conversion() {
    let limits = UpstreamInboundLimits::new(1, 4).expect("valid limits");

    assert!(payload_fits_inbound_byte_limit(4, limits));
    assert!(!payload_fits_inbound_byte_limit(5, limits));
    assert!(!payload_fits_inbound_byte_limit(usize::MAX, limits));
}

#[test]
fn transport_overflow_classifies_only_message_too_long() {
    let mut pump = pump_with(1, 4);
    assert!(!pump.handle_inbound_message(InboundFrame::Failed("too many headers".to_string()), 1));
    assert_eq!(
        pump.terminal_state(),
        UpstreamTerminalState::Closed(UpstreamCloseMetadata {
            code: None,
            reason: None,
            error: Some("too many headers".to_string()),
        })
    );
}

#[test]
fn transport_overflow_records_pending_queue_occupancy_and_logs_once() {
    let mut pump = pump_with(2, 8);
    assert!(pump.try_enqueue_inbound("four".to_string()));
    assert!(!pump.handle_inbound_message(InboundFrame::TooLong { size: 126 }, 1));
    assert!(!pump.handle_inbound_message(InboundFrame::TooLong { size: 999 }, 2));

    assert!(matches!(
        pump.terminal_state(),
        UpstreamTerminalState::InboundBufferOverflow(InboundBufferOverflow {
            cause: InboundBufferOverflowCause::TransportSize,
            queued_messages: 1,
            queued_bytes: 4,
            incoming_bytes: 126,
            ..
        })
    ));
}

#[test]
fn inbound_overflow_logs_one_structured_event_without_payload_contents() {
    let mut pump = pump_with(1, 4);
    assert!(!pump.try_enqueue_inbound("diagnostic-payload-sentinel".to_string()));

    let state = pump.terminal_state();
    assert_eq!(
        state,
        UpstreamTerminalState::InboundBufferOverflow(InboundBufferOverflow {
            cause: InboundBufferOverflowCause::PayloadBytes,
            queued_messages: 0,
            queued_bytes: 0,
            incoming_bytes: 27,
            max_messages: 1,
            max_bytes: 4,
        })
    );
    assert!(!format!("{state:?}").contains("diagnostic-payload-sentinel"));
}

#[test]
fn websocket_pump_sends_active_ping_after_interval() {
    let mut pump = pump_with(1, 4);
    assert!(matches!(
        pump.next_step(10 * SECOND - 1),
        PumpStep::Wait { deadline: Some(deadline), prefer_inbound: false }
            if deadline == u128::from(10 * SECOND)
    ));
    assert_eq!(start_ping(&mut pump, 10 * SECOND), b"threadline-0");
}

#[test]
fn websocket_pump_times_out_when_a_sent_challenge_never_receives_a_matching_pong() {
    let mut pump = pump_with(1, 4);
    start_ping(&mut pump, 10 * SECOND);
    assert!(pump.on_write_finished(None, 11 * SECOND));
    assert!(matches!(
        pump.next_step(12 * SECOND),
        PumpStep::Wait { deadline: Some(deadline), .. } if deadline == u128::from(14 * SECOND)
    ));
    assert!(matches!(pump.next_step(14 * SECOND), PumpStep::Stop));
    assert_eq!(
        pump.terminal_state(),
        UpstreamTerminalState::LivenessTimeout(UpstreamLivenessTimeout {
            cause: UpstreamLivenessTimeoutCause::PongDeadline,
            timeout: 3 * SECOND,
            elapsed: 3 * SECOND,
            outbound_kind: None,
        })
    );
    assert!(pump.is_closed());
    assert_eq!(
        pump.close_metadata().and_then(|metadata| metadata.error),
        Some("upstream websocket liveness timeout".to_string())
    );
    assert!(matches!(
        pump.receive(),
        Received::Failed(UpstreamWebSocketError::LivenessTimeout)
    ));
    assert_eq!(
        pump.send_result(true),
        Err(UpstreamWebSocketError::LivenessTimeout)
    );
}

#[test]
fn websocket_pump_times_out_a_stalled_ping_write() {
    let mut pump = pump_with(1, 4);
    start_ping(&mut pump, 10 * SECOND);
    assert_eq!(
        pump.earliest_write_deadline(),
        Some(u128::from(17 * SECOND))
    );
    assert!(pump.check_liveness_deadline(17 * SECOND - 1));
    assert!(!pump.check_liveness_deadline(17 * SECOND));
    assert!(matches!(
        pump.terminal_state(),
        UpstreamTerminalState::LivenessTimeout(UpstreamLivenessTimeout {
            cause: UpstreamLivenessTimeoutCause::WriteDeadline,
            outbound_kind: Some(UpstreamOutboundKind::Ping),
            ..
        })
    ));
}

#[test]
fn websocket_pump_processes_delayed_matching_pong_before_deadline_and_schedules_from_ack() {
    let mut pump = pump_with(1, 4);
    let nonce = start_ping(&mut pump, 10 * SECOND);
    assert!(pump.on_write_finished(None, 10 * SECOND));
    assert!(pump.on_inbound(InboundFrame::Pong(nonce), 12 * SECOND));
    assert!(matches!(
        pump.next_step(21 * SECOND),
        PumpStep::Wait { deadline: Some(deadline), .. } if deadline == u128::from(22 * SECOND)
    ));
    assert_eq!(start_ping(&mut pump, 22 * SECOND), b"threadline-1");
}

#[test]
fn websocket_pump_ignores_stale_and_unsolicited_pong_until_the_original_deadline() {
    let sent_at = 100 * SECOND;
    let mut pump = UpstreamPump::new(
        UpstreamInboundLimits::new(2, 16).expect("valid limits"),
        UpstreamWatchdogPolicy::new(5 * SECOND, 8 * SECOND).expect("valid watchdog policy"),
        10 * SECOND,
        0,
    );
    pump.pending_challenge = Some(PendingPongChallenge {
        nonce: b"current-challenge".to_vec(),
        sent_at: Some(sent_at),
        acknowledged_early: false,
    });

    for frame in [
        InboundFrame::Pong(b"stale-challenge".to_vec()),
        InboundFrame::Pong(b"unsolicited-pong".to_vec()),
        InboundFrame::Text("traffic".to_string()),
        InboundFrame::Ping,
    ] {
        assert!(pump.handle_inbound_message(frame, sent_at));
    }
    assert!(pump.control_flush_needed);
    assert!(pump.pending_challenge.is_some());
    assert_eq!(received(&mut pump), "traffic");
    assert!(matches!(
        pump.next_step(sent_at + SECOND),
        PumpStep::Write(OutboundFrame::Flush)
    ));
    assert!(pump.on_write_finished(None, sent_at + SECOND));
    assert!(!pump.control_flush_needed);

    assert!(!pump.check_liveness_deadline(sent_at + 5 * SECOND));
    assert!(matches!(
        pump.terminal_state(),
        UpstreamTerminalState::LivenessTimeout(UpstreamLivenessTimeout {
            cause: UpstreamLivenessTimeoutCause::PongDeadline,
            timeout,
            outbound_kind: None,
            ..
        }) if timeout == 5 * SECOND
    ));
}

#[test]
fn websocket_pump_rejects_matching_pong_at_the_deadline() {
    let mut pump = pump_with(1, 4);
    let nonce = start_ping(&mut pump, 10 * SECOND);
    assert!(pump.on_write_finished(None, 10 * SECOND));
    assert!(pump.on_inbound(InboundFrame::Pong(nonce), 13 * SECOND));
    assert!(pump.pending_challenge.is_some());
    assert!(matches!(pump.next_step(13 * SECOND), PumpStep::Stop));
}

#[test]
fn websocket_pump_latches_matching_pong_before_ping_send_completes() {
    let mut pump = pump_with(1, 4);
    let nonce = start_ping(&mut pump, 10 * SECOND);
    assert!(pump.on_inbound(InboundFrame::Pong(nonce), 10 * SECOND));
    assert!(pump.pending_challenge.is_some());
    assert!(pump.on_write_finished(None, 11 * SECOND));
    assert!(pump.pending_challenge.is_none());
    assert_eq!(pump.next_ping_due, u128::from(21 * SECOND));
}

#[test]
fn websocket_pump_dispatches_due_ping_before_queued_text_under_ready_traffic() {
    let mut pump = pump_with(1, 4);
    pump.on_inbound(InboundFrame::Ping, 1);
    let _ = start_ping(&mut pump, 10 * SECOND);
    assert!(pump.on_write_finished(None, 10 * SECOND));
    assert!(matches!(
        pump.next_step(10 * SECOND),
        PumpStep::Write(OutboundFrame::Flush)
    ));
    assert!(pump.on_write_finished(None, 10 * SECOND));
    assert!(matches!(
        pump.next_step(10 * SECOND),
        PumpStep::Wait { .. }
    ));
}

#[test]
fn websocket_pump_receives_text_while_outbound_write_is_pending() {
    let mut pump = pump_with(2, 64);
    assert!(matches!(
        pump.on_outbound(Some("out".to_string()), 1),
        PumpStep::Write(OutboundFrame::Text(text)) if text == "out"
    ));
    assert!(pump.on_inbound(InboundFrame::Text("in".to_string()), 2));
    assert_eq!(received(&mut pump), "in");
    assert!(pump.prefer_inbound);
    assert!(pump.on_write_finished(None, 3));
    assert!(matches!(
        pump.next_step(4),
        PumpStep::Wait { prefer_inbound: true, .. }
    ));
    assert!(pump.on_inbound(InboundFrame::Raw, 5));
    assert!(matches!(
        pump.next_step(6),
        PumpStep::Wait { prefer_inbound: false, .. }
    ));
}

#[test]
fn websocket_pump_records_metadata_when_outbound_channel_closes() {
    let mut pump = pump_with(1, 4);
    assert!(matches!(pump.on_outbound(None, 1), PumpStep::Stop));
    pump.finish();
    assert_eq!(
        pump.close_metadata(),
        Some(UpstreamCloseMetadata {
            code: None,
            reason: Some("outbound channel closed".to_string()),
            error: None,
        })
    );
}

#[test]
fn closed_connection_hands_out_what_waits() {
    let mut pump = pump_with(2, 64);
    assert!(matches!(pump.receive(), Received::Pending));
    assert!(pump.on_inbound(InboundFrame::Text("one".to_string()), 1));
    assert!(pump.on_inbound(InboundFrame::Binary(b"tw\xc3\xb6".to_vec()), 2));
    assert!(!pump.on_inbound(
        InboundFrame::Close(Some(CloseFrame {
            code: 1000,
            reason: "bye".to_string(),
        })),
        3
    ));
    assert_eq!(received(&mut pump), "one");
    assert_eq!(received(&mut pump), "tw\u{f6}");
    assert!(matches!(pump.receive(), Received::Closed));
    assert_eq!(
        pump.close_metadata(),
        Some(UpstreamCloseMetadata {
            code: Some(1000),
            reason: Some("bye".to_string()),
            error: None,
        })
    );
    assert_eq!(pump.send_result(true), Ok(()));
    assert_eq!(
        pump.send_result(false),
        Err(UpstreamWebSocketError::OutboundQueueClosed)
    );
}

#[test]
fn bytes_that_are_no_text_are_replaced() {
    let mut pump = pump_with(1, 64);
    assert!(pump.on_inbound(InboundFrame::Binary(b"a\xff".to_vec()), 1));
    assert_eq!(received(&mut pump), "a\u{fffd}");
}

#[test]
fn failed_write_closes_the_connection() {
    let mut pump = pump_with(1, 4);
    pump.on_outbound(Some("out".to_string()), 1);
    assert!(!pump.on_write_finished(Some("broken pipe".to_string()), 2));
    assert_eq!(
        pump.close_metadata().and_then(|metadata| metadata.error),
        Some("broken pipe".to_string())
    );
    assert!(!pump.on_inbound(InboundFrame::Close(None), 3));
    assert!(!pump.on_inbound(InboundFrame::Ended, 3));
}

#[test]
fn connection_errors_are_described() {
    assert_eq!(
        UpstreamWebSocketError::OutboundQueueClosed.description(),
        "Threadline could not queue an outbound upstream websocket message."
    );
    assert_eq!(
        UpstreamWebSocketError::InboundBufferOverflow.description(),
        "The upstream websocket inbound buffer overflowed."
    );
    assert_eq!(
        UpstreamWebSocketError::LivenessTimeout.description(),
        "The upstream websocket liveness check timed out."
    );
}

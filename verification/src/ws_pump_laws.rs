//! What holds of every upstream connection.

use crate::text::{byte_length, decimal_text, readable_text};
use crate::ws_pump::{
    after_receive, deadlines_checked, enqueued, frame_handled, frame_received, is_received,
    missed_deadline, next_step_of, outbound_received, pong_received, total_bytes, within_limits,
    write_finished, Challenge, CloseInfo, InboundBufferOverflow, InboundBufferOverflowCause,
    InboundFrame, Pump, Received, Step, Terminal, UpstreamLivenessTimeout,
    UpstreamLivenessTimeoutCause, UpstreamOutboundKind, UpstreamWebSocketError, WriteOperation,
};
use vstd::prelude::*;
use vstd::utf8::encode_utf8;

verus! {

/// The bytes that wait are the bytes of the texts that wait.
pub proof fn law_waiting_bytes_are_counted(list: Seq<Seq<char>>, text: Seq<char>)
    ensures
        total_bytes(Seq::empty()) == 0,
        total_bytes(list.push(text)) == total_bytes(list) + byte_length(text),
{
    assert(list.push(text).drop_last() =~= list);
}

/// The state of a connection that something happened to: the first thing that ends it counts.
pub open spec fn ended_by(before: Terminal, event: Terminal) -> Terminal {
    match before {
        Terminal::Open => event,
        _ => before,
    }
}

/// A message waits behind those that came before it, as long as the bytes and the number of those
/// that wait stay within the limits. A message that would go over one of them ends the connection,
/// which says which limit it was and how full the buffer was; what waited stays, and nothing else
/// changes. Once nobody reads any more, messages are dropped and the connection is over.
pub proof fn law_messages_wait_within_the_limits(pump: Pump, text: Seq<char>)
    requires
        within_limits(pump),
        byte_length(text) <= usize::MAX,
    ensures
        ({
            let (next, open) = enqueued(pump, text);
            let limits = pump.settings.limits;
            let waiting = total_bytes(pump.inbound);
            let overflow = |cause: InboundBufferOverflowCause|
                Terminal::InboundBufferOverflow(
                    InboundBufferOverflow {
                        cause,
                        queued_messages: pump.inbound.len() as usize,
                        queued_bytes: waiting as usize,
                        incoming_bytes: byte_length(text) as usize,
                        max_messages: limits.max_messages,
                        max_bytes: limits.max_bytes,
                    },
                );
            if waiting + byte_length(text) > limits.max_bytes {
                !open && next == Pump {
                    terminal: ended_by(
                        pump.terminal,
                        overflow(InboundBufferOverflowCause::PayloadBytes),
                    ),
                    ..pump
                }
            } else if pump.receiver_closed {
                !open && next == pump
            } else if pump.inbound.len() >= limits.max_messages {
                !open && next == Pump {
                    terminal: ended_by(
                        pump.terminal,
                        overflow(InboundBufferOverflowCause::MessageCount),
                    ),
                    ..pump
                }
            } else {
                open && next == Pump { inbound: pump.inbound.push(text), ..pump }
            }
        }),
{
}

/// What each kind of frame does: messages wait to be read, as text; a ping has to be answered, a pong
/// may answer one; and a close, a failure or an oversized message ends the connection and says why.
pub proof fn law_frames_do_what_they_are_for(pump: Pump, frame: InboundFrame, now: u64)
    requires
        within_limits(pump),
    ensures
        ({
            let (next, open) = frame_handled(pump, frame, now);
            match frame {
                InboundFrame::Text(text) => (next, open) == enqueued(pump, text@),
                InboundFrame::Binary(bytes) => (next, open) == enqueued(
                    pump,
                    readable_text(bytes@),
                ),
                InboundFrame::Ping => open && next == Pump { control_flush_needed: true, ..pump },
                InboundFrame::Pong(_) => open && next == Pump {
                    challenge: next.challenge,
                    ..pump
                },
                InboundFrame::Raw => open && next == pump,
                InboundFrame::Close(closing) => !open && next == Pump {
                    terminal: ended_by(
                        pump.terminal,
                        Terminal::Closed(
                            CloseInfo {
                                code: match closing {
                                    Some(said) => Some(said.code),
                                    None => None,
                                },
                                reason: match closing {
                                    Some(said) => Some(said.reason@),
                                    None => None,
                                },
                                error: None,
                            },
                        ),
                    ),
                    ..pump
                },
                InboundFrame::Failed(error) => !open && next == Pump {
                    terminal: ended_by(
                        pump.terminal,
                        Terminal::Closed(
                            CloseInfo { code: None, reason: None, error: Some(error@) },
                        ),
                    ),
                    ..pump
                },
                InboundFrame::TooLong { size } => !open && next == Pump {
                    terminal: ended_by(
                        pump.terminal,
                        Terminal::InboundBufferOverflow(
                            InboundBufferOverflow {
                                cause: InboundBufferOverflowCause::TransportSize,
                                queued_messages: pump.inbound.len() as usize,
                                queued_bytes: total_bytes(pump.inbound) as usize,
                                incoming_bytes: size,
                                max_messages: pump.settings.limits.max_messages,
                                max_bytes: pump.settings.limits.max_bytes,
                            },
                        ),
                    ),
                    ..pump
                },
                InboundFrame::Ended => !open && next == pump,
            }
        }),
{
}

/// A frame that comes between writes lets the other direction go next; it changes nothing else
/// beyond what it is for, but that an answered ping puts off the next one.
pub proof fn law_received_frames_take_turns(pump: Pump, frame: InboundFrame, now: u64)
    ensures
        ({
            let base = Pump {
                prefer_inbound: pump.prefer_inbound && pump.operation is Some,
                ..pump
            };
            let (handled, stays_open) = frame_handled(base, frame, now);
            let (next, open) = frame_received(pump, frame, now);
            &&& open == stays_open
            &&& next == Pump { next_ping_due: next.next_ping_due, ..handled }
            &&& next.next_ping_due == (if open && pump.challenge is Some && handled.challenge is None {
                (now + pump.settings.ping_interval) as u128
            } else {
                handled.next_ping_due
            })
        }),
{
}

/// Messages are read in the order in which they came, each once. Those that wait can still be read
/// after the connection was closed, but not after an overflow or a timeout, which is what is read
/// then. Nothing else changes.
pub proof fn law_messages_are_read_once(pump: Pump, received: Received)
    requires
        is_received(pump, received),
    ensures
        match pump.terminal {
            Terminal::InboundBufferOverflow(_) => received == Received::Failed(
                UpstreamWebSocketError::InboundBufferOverflow,
            ) && after_receive(pump) == pump,
            Terminal::LivenessTimeout(_) => received == Received::Failed(
                UpstreamWebSocketError::LivenessTimeout,
            ) && after_receive(pump) == pump,
            _ => if pump.inbound.len() > 0 {
                &&& received matches Received::Message(text) && text@ == pump.inbound[0]
                &&& after_receive(pump) == Pump { inbound: pump.inbound.skip(1), ..pump }
            } else {
                &&& received == (if pump.terminal == Terminal::Open {
                    Received::Pending
                } else {
                    Received::Closed
                })
                &&& after_receive(pump) == pump
            },
        },
{
    if pump.inbound.len() > 0 {
        assert(pump.inbound.drop_first() =~= pump.inbound.skip(1));
    }
}

/// A connection is given up exactly when a ping was not answered, or a write not finished, in time.
/// The deadline that came first is the cause, and an unanswered ping where both came at once.
pub proof fn law_missed_deadlines_end_the_connection(pump: Pump, now: u64)
    ensures
        ({
            let policy = pump.settings.policy;
            let pong_due: Option<int> = match pump.challenge {
                Some(challenge) => match challenge.sent_at {
                    Some(sent_at) => Some(sent_at + policy.pong_timeout),
                    None => None,
                },
                None => None,
            };
            let write_due: Option<int> = match pump.operation {
                Some(operation) => Some(operation.started_at + policy.write_timeout),
                None => None,
            };
            let pong_missed = pong_due matches Some(due) && due <= now;
            let write_missed = write_due matches Some(due) && due <= now;
            let (next, open) = deadlines_checked(pump, now);
            &&& open <==> !pong_missed && !write_missed
            &&& open ==> next == pump
            &&& !open ==> next == Pump { terminal: next.terminal, ..pump }
            &&& !open && pump.terminal == Terminal::Open ==> next.terminal == (
            Terminal::LivenessTimeout(
                if pong_missed && (!write_missed || pong_due->0 <= write_due->0) {
                    UpstreamLivenessTimeout {
                        cause: UpstreamLivenessTimeoutCause::PongDeadline,
                        timeout: policy.pong_timeout,
                        elapsed: (now - pump.challenge->0.sent_at->0) as u64,
                        outbound_kind: None,
                    }
                } else {
                    UpstreamLivenessTimeout {
                        cause: UpstreamLivenessTimeoutCause::WriteDeadline,
                        timeout: policy.write_timeout,
                        elapsed: (now - pump.operation->0.started_at) as u64,
                        outbound_kind: Some(pump.operation->0.kind),
                    }
                },
            ))
            &&& pump.terminal != Terminal::Open ==> next.terminal == pump.terminal
        }),
{
}

/// A ping is answered exactly by its own contents, in time. An answer that comes before the ping is
/// known to be sent is remembered; anything else changes nothing.
pub proof fn law_pings_are_answered_by_their_contents(pump: Pump, payload: Seq<u8>, now: u64)
    ensures
        pong_received(pump, payload, now) == (Pump {
            challenge: match pump.challenge {
                Some(challenge) => if challenge.nonce != payload {
                    Some(challenge)
                } else {
                    match challenge.sent_at {
                        None => Some(Challenge { acknowledged_early: true, ..challenge }),
                        Some(sent_at) => if now < sent_at + pump.settings.policy.pong_timeout {
                            None
                        } else {
                            Some(challenge)
                        },
                    }
                },
                None => None,
            },
            ..pump
        }),
{
}

/// The contents of a ping.
pub open spec fn ping_contents(counter: u64) -> Seq<u8> {
    encode_utf8("threadline-"@ + decimal_text(counter as nat))
}

/// What a connection does next, when no deadline was missed: it sends a ping when one is due and none
/// waits for its answer, answers pings that came in, and otherwise waits, until the next ping is due
/// or the answer to the last one.
pub proof fn law_connections_ping_and_wait(pump: Pump, now: u64)
    requires
        missed_deadline(pump, now) is None,
    ensures
        ({
            let (next, step) = next_step_of(pump, now);
            if pump.challenge is None && now >= pump.next_ping_due {
                &&& step == Step::WritePing(ping_contents(pump.next_challenge))
                &&& next == Pump {
                    challenge: Some(
                        Challenge {
                            nonce: ping_contents(pump.next_challenge),
                            sent_at: None,
                            acknowledged_early: false,
                        },
                    ),
                    next_challenge: next.next_challenge,
                    operation: Some(
                        WriteOperation { started_at: now, kind: UpstreamOutboundKind::Ping },
                    ),
                    ..pump
                }
                &&& next.next_challenge == (if pump.next_challenge < u64::MAX {
                    (pump.next_challenge + 1) as u64
                } else {
                    0
                })
            } else if pump.control_flush_needed {
                &&& step == Step::Flush
                &&& next == Pump {
                    control_flush_needed: false,
                    operation: Some(
                        WriteOperation {
                            started_at: now,
                            kind: UpstreamOutboundKind::ControlFlush,
                        },
                    ),
                    ..pump
                }
            } else {
                &&& next == pump
                &&& step == Step::Wait {
                    deadline: match pump.challenge {
                        None => Some(pump.next_ping_due as int),
                        Some(challenge) => match challenge.sent_at {
                            Some(sent_at) => Some(sent_at + pump.settings.policy.pong_timeout),
                            None => None,
                        },
                    },
                    prefer_inbound: pump.prefer_inbound,
                }
            }
        }),
{
}

/// A connection that missed a deadline stops.
pub proof fn law_connections_stop_at_missed_deadlines(pump: Pump, now: u64)
    requires
        missed_deadline(pump, now) is Some,
    ensures
        next_step_of(pump, now) == (deadlines_checked(pump, now).0, Step::Stop),
{
}

/// What is to be sent is sent as it is; once nothing more can come, the connection is closed.
pub proof fn law_messages_are_sent_as_they_are(pump: Pump, text: Option<Seq<char>>, now: u64)
    ensures
        outbound_received(pump, text, now) == (match text {
            Some(message) => (
                Pump {
                    prefer_inbound: true,
                    operation: Some(
                        WriteOperation { started_at: now, kind: UpstreamOutboundKind::Text },
                    ),
                    ..pump
                },
                Step::WriteText(message),
            ),
            None => (
                Pump {
                    terminal: ended_by(
                        pump.terminal,
                        Terminal::Closed(
                            CloseInfo {
                                code: None,
                                reason: Some("outbound channel closed"@),
                                error: None,
                            },
                        ),
                    ),
                    ..pump
                },
                Step::Stop,
            ),
        }),
{
}

/// A finished write leaves the connection free for the next one. The time for the answer to a ping
/// runs from then on, unless the answer is already there. A write that failed closes the connection.
pub proof fn law_finished_writes_start_the_clock(
    pump: Pump,
    error: Option<Seq<char>>,
    now: u64,
)
    ensures
        ({
            let (next, open) = write_finished(pump, error, now);
            let pinged = pump.operation matches Some(operation) && operation.kind
                == UpstreamOutboundKind::Ping;
            match error {
                Some(text) => !open && next == Pump {
                    operation: None,
                    terminal: ended_by(
                        pump.terminal,
                        Terminal::Closed(CloseInfo { code: None, reason: None, error: Some(text) }),
                    ),
                    ..pump
                },
                None => open && next == (if pinged && pump.challenge is Some {
                    if pump.challenge->0.acknowledged_early {
                        Pump {
                            operation: None,
                            challenge: None,
                            next_ping_due: (now + pump.settings.ping_interval) as u128,
                            ..pump
                        }
                    } else {
                        Pump {
                            operation: None,
                            challenge: Some(
                                Challenge { sent_at: Some(now), ..pump.challenge->0 },
                            ),
                            ..pump
                        }
                    }
                } else {
                    Pump { operation: None, ..pump }
                }),
            }
        }),
{
}

} // verus!

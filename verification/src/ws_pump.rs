//! The pump of an upstream connection: bounded buffering, keep-alive challenges and deadlines.
//!
//! Points in time and spans of time are counted in nanoseconds.

use crate::text::{
    byte_length, decimal, decimal_text, joined, optional_text, readable_text, text_from_bytes,
};
use std::collections::VecDeque;
use vstd::prelude::*;
use vstd::utf8::encode_utf8;

verus! {

pub const DEFAULT_UPSTREAM_INBOUND_MAX_MESSAGES: usize = 256;

pub const DEFAULT_UPSTREAM_INBOUND_MAX_BYTES: usize = 16_777_216;

pub const MAX_UPSTREAM_INBOUND_MAX_MESSAGES: usize = 65_536;

pub const MAX_UPSTREAM_INBOUND_MAX_BYTES: usize = 67_108_864;

/// The largest payload of a control frame.
pub const MAX_CONTROL_FRAME_BYTES: usize = 125;

/// The longest timeout of the watchdog: an hour.
pub const MAX_UPSTREAM_WATCHDOG_TIMEOUT: u64 = 3_600_000_000_000;

/// The timeout of the watchdog unless another is set: a minute.
pub const DEFAULT_UPSTREAM_WATCHDOG_TIMEOUT: u64 = 60_000_000_000;

/// The time between keep-alive pings: half a minute.
pub const UPSTREAM_PING_INTERVAL: u64 = 30_000_000_000;

/// How many messages may wait to be sent.
pub const OUTBOUND_CHANNEL_CAPACITY: usize = 32;

/// How a connection was closed.
#[derive(Debug, Clone, PartialEq, Eq)]
pub struct UpstreamCloseMetadata {
    pub code: Option<u16>,
    pub reason: Option<String>,
    pub error: Option<String>,
}

/// The contents of an [`UpstreamCloseMetadata`].
#[verifier::ext_equal]
pub struct CloseInfo {
    pub code: Option<u16>,
    pub reason: Option<Seq<char>>,
    pub error: Option<Seq<char>>,
}

impl View for UpstreamCloseMetadata {
    type V = CloseInfo;

    open spec fn view(&self) -> CloseInfo {
        CloseInfo {
            code: self.code,
            reason: optional_text(self.reason),
            error: optional_text(self.error),
        }
    }
}

impl UpstreamCloseMetadata {
    fn copy(&self) -> (metadata: Self)
        ensures
            metadata@ == self@,
    {
        UpstreamCloseMetadata {
            code: self.code,
            reason: crate::text::copy_text(&self.reason),
            error: crate::text::copy_text(&self.error),
        }
    }
}

/// How long the upstream may take to answer a ping and to accept a message.
#[derive(Debug, Clone, Copy, PartialEq, Eq, Structural)]
pub struct UpstreamWatchdogPolicy {
    pub pong_timeout: u64,
    pub write_timeout: u64,
}

/// A timeout that the watchdog accepts.
pub open spec fn valid_timeout(timeout: u64) -> bool {
    0 < timeout <= MAX_UPSTREAM_WATCHDOG_TIMEOUT
}

impl UpstreamWatchdogPolicy {
    /// Both timeouts are in range.
    pub open spec fn wf(&self) -> bool {
        valid_timeout(self.pong_timeout) && valid_timeout(self.write_timeout)
    }

    /// A policy with the given timeouts. The first one that is out of range is refused.
    pub fn new(pong_timeout: u64, write_timeout: u64) -> (policy: Result<Self, &'static str>)
        ensures
            match policy {
                Ok(made) => made.wf() && made.pong_timeout == pong_timeout && made.write_timeout
                    == write_timeout,
                Err(message) => if !valid_timeout(pong_timeout) {
                    message@
                        == "upstream pong timeout must be greater than zero and at most 3600 seconds"@
                } else {
                    !valid_timeout(write_timeout) && message@
                        == "upstream write timeout must be greater than zero and at most 3600 seconds"@
                },
            },
    {
        if pong_timeout == 0 || pong_timeout > MAX_UPSTREAM_WATCHDOG_TIMEOUT {
            return Err("upstream pong timeout must be greater than zero and at most 3600 seconds");
        }
        if write_timeout == 0 || write_timeout > MAX_UPSTREAM_WATCHDOG_TIMEOUT {
            return Err("upstream write timeout must be greater than zero and at most 3600 seconds");
        }
        Ok(UpstreamWatchdogPolicy { pong_timeout, write_timeout })
    }

    pub fn pong_timeout(self) -> (timeout: u64)
        ensures
            timeout == self.pong_timeout,
    {
        self.pong_timeout
    }

    pub fn write_timeout(self) -> (timeout: u64)
        ensures
            timeout == self.write_timeout,
    {
        self.write_timeout
    }
}

impl Default for UpstreamWatchdogPolicy {
    fn default() -> (policy: Self)
        ensures
            policy.wf(),
            policy.pong_timeout == DEFAULT_UPSTREAM_WATCHDOG_TIMEOUT,
            policy.write_timeout == DEFAULT_UPSTREAM_WATCHDOG_TIMEOUT,
    {
        UpstreamWatchdogPolicy {
            pong_timeout: DEFAULT_UPSTREAM_WATCHDOG_TIMEOUT,
            write_timeout: DEFAULT_UPSTREAM_WATCHDOG_TIMEOUT,
        }
    }
}

/// What timed out.
#[derive(Debug, Clone, Copy, PartialEq, Eq, Structural)]
pub enum UpstreamLivenessTimeoutCause {
    PongDeadline,
    WriteDeadline,
}

/// What was being written.
#[derive(Debug, Clone, Copy, PartialEq, Eq, Structural)]
pub enum UpstreamOutboundKind {
    Text,
    Ping,
    ControlFlush,
}

/// A missed deadline.
#[derive(Debug, Clone, Copy, PartialEq, Eq, Structural)]
pub struct UpstreamLivenessTimeout {
    pub cause: UpstreamLivenessTimeoutCause,
    pub timeout: u64,
    pub elapsed: u64,
    pub outbound_kind: Option<UpstreamOutboundKind>,
}

/// How much may wait to be received.
#[derive(Debug, Clone, Copy, PartialEq, Eq, Structural)]
pub struct UpstreamInboundLimits {
    pub max_messages: usize,
    pub max_bytes: usize,
}

impl UpstreamInboundLimits {
    /// Both limits are in range.
    pub open spec fn wf(&self) -> bool {
        &&& 1 <= self.max_messages <= MAX_UPSTREAM_INBOUND_MAX_MESSAGES
        &&& 1 <= self.max_bytes <= MAX_UPSTREAM_INBOUND_MAX_BYTES
    }

    /// The given limits. The first one that is out of range is refused.
    pub fn new(max_messages: usize, max_bytes: usize) -> (limits: Result<Self, &'static str>)
        ensures
            match limits {
                Ok(made) => made.wf() && made.max_messages == max_messages && made.max_bytes
                    == max_bytes,
                Err(message) => if !(1 <= max_messages <= MAX_UPSTREAM_INBOUND_MAX_MESSAGES) {
                    message@ == "upstream inbound message limit must be between 1 and 65536"@
                } else {
                    !(1 <= max_bytes <= MAX_UPSTREAM_INBOUND_MAX_BYTES) && message@
                        == "upstream inbound byte limit must be between 1 and 67108864"@
                },
            },
    {
        if max_messages < 1 || max_messages > MAX_UPSTREAM_INBOUND_MAX_MESSAGES {
            return Err("upstream inbound message limit must be between 1 and 65536");
        }
        if max_bytes < 1 || max_bytes > MAX_UPSTREAM_INBOUND_MAX_BYTES {
            return Err("upstream inbound byte limit must be between 1 and 67108864");
        }
        Ok(UpstreamInboundLimits { max_messages, max_bytes })
    }

    pub fn max_messages(self) -> (limit: usize)
        ensures
            limit == self.max_messages,
    {
        self.max_messages
    }

    pub fn max_bytes(self) -> (limit: usize)
        ensures
            limit == self.max_bytes,
    {
        self.max_bytes
    }

    /// The largest frame that the transport accepts: a control frame always fits.
    pub fn max_frame_bytes(self) -> (limit: usize)
        ensures
            limit == (if self.max_bytes >= MAX_CONTROL_FRAME_BYTES {
                self.max_bytes
            } else {
                MAX_CONTROL_FRAME_BYTES
            }),
    {
        if self.max_bytes >= MAX_CONTROL_FRAME_BYTES {
            self.max_bytes
        } else {
            MAX_CONTROL_FRAME_BYTES
        }
    }
}

impl Default for UpstreamInboundLimits {
    fn default() -> (limits: Self)
        ensures
            limits.wf(),
            limits.max_messages == DEFAULT_UPSTREAM_INBOUND_MAX_MESSAGES,
            limits.max_bytes == DEFAULT_UPSTREAM_INBOUND_MAX_BYTES,
    {
        UpstreamInboundLimits {
            max_messages: DEFAULT_UPSTREAM_INBOUND_MAX_MESSAGES,
            max_bytes: DEFAULT_UPSTREAM_INBOUND_MAX_BYTES,
        }
    }
}

/// Which limit a message broke.
#[derive(Debug, Clone, Copy, PartialEq, Eq, Structural)]
pub enum InboundBufferOverflowCause {
    MessageCount,
    PayloadBytes,
    TransportSize,
}

/// A message that did not fit, and what was waiting then.
#[derive(Debug, Clone, Copy, PartialEq, Eq, Structural)]
pub struct InboundBufferOverflow {
    pub cause: InboundBufferOverflowCause,
    pub queued_messages: usize,
    pub queued_bytes: usize,
    pub incoming_bytes: usize,
    pub max_messages: usize,
    pub max_bytes: usize,
}

/// Whether a connection is over, and how it ended.
#[derive(Debug, Clone, PartialEq, Eq)]
pub enum UpstreamTerminalState {
    Open,
    Closed(UpstreamCloseMetadata),
    InboundBufferOverflow(InboundBufferOverflow),
    LivenessTimeout(UpstreamLivenessTimeout),
}

/// The contents of an [`UpstreamTerminalState`].
#[verifier::ext_equal]
pub enum Terminal {
    Open,
    Closed(CloseInfo),
    InboundBufferOverflow(InboundBufferOverflow),
    LivenessTimeout(UpstreamLivenessTimeout),
}

impl View for UpstreamTerminalState {
    type V = Terminal;

    open spec fn view(&self) -> Terminal {
        match self {
            UpstreamTerminalState::Open => Terminal::Open,
            UpstreamTerminalState::Closed(metadata) => Terminal::Closed(metadata@),
            UpstreamTerminalState::InboundBufferOverflow(overflow) =>
                Terminal::InboundBufferOverflow(*overflow),
            UpstreamTerminalState::LivenessTimeout(timeout) => Terminal::LivenessTimeout(*timeout),
        }
    }
}

impl UpstreamTerminalState {
    /// A state with the same contents.
    pub fn copy(&self) -> (state: Self)
        ensures
            state@ == self@,
    {
        match self {
            UpstreamTerminalState::Open => UpstreamTerminalState::Open,
            UpstreamTerminalState::Closed(metadata) => UpstreamTerminalState::Closed(
                metadata.copy(),
            ),
            UpstreamTerminalState::InboundBufferOverflow(overflow) =>
                UpstreamTerminalState::InboundBufferOverflow(*overflow),
            UpstreamTerminalState::LivenessTimeout(timeout) =>
                UpstreamTerminalState::LivenessTimeout(*timeout),
        }
    }
}

/// What the user of a connection is told when it failed.
#[derive(Debug, Clone, Copy, PartialEq, Eq, Structural)]
pub enum UpstreamWebSocketError {
    OutboundQueueClosed,
    InboundBufferOverflow,
    LivenessTimeout,
}

/// The description of an error.
pub open spec fn socket_error_description(error: UpstreamWebSocketError) -> Seq<char> {
    match error {
        UpstreamWebSocketError::OutboundQueueClosed =>
            "Threadline could not queue an outbound upstream websocket message."@,
        UpstreamWebSocketError::InboundBufferOverflow =>
            "The upstream websocket inbound buffer overflowed."@,
        UpstreamWebSocketError::LivenessTimeout =>
            "The upstream websocket liveness check timed out."@,
    }
}

impl UpstreamWebSocketError {
    /// The description of the error.
    pub fn description(self) -> (text: &'static str)
        ensures
            text@ == socket_error_description(self),
    {
        match self {
            UpstreamWebSocketError::OutboundQueueClosed =>
                "Threadline could not queue an outbound upstream websocket message.",
            UpstreamWebSocketError::InboundBufferOverflow =>
                "The upstream websocket inbound buffer overflowed.",
            UpstreamWebSocketError::LivenessTimeout =>
                "The upstream websocket liveness check timed out.",
        }
    }
}

/// The error that a terminal state stands for. A plain close is none.
pub open spec fn error_of(state: Terminal) -> Option<UpstreamWebSocketError> {
    match state {
        Terminal::InboundBufferOverflow(_) => Some(UpstreamWebSocketError::InboundBufferOverflow),
        Terminal::LivenessTimeout(_) => Some(UpstreamWebSocketError::LivenessTimeout),
        _ => None,
    }
}

/// A ping that waits for its answer.
#[derive(Debug, Clone)]
pub struct PendingPongChallenge {
    pub nonce: Vec<u8>,
    pub sent_at: Option<u64>,
    pub acknowledged_early: bool,
}

/// The contents of a [`PendingPongChallenge`].
#[verifier::ext_equal]
pub struct Challenge {
    pub nonce: Seq<u8>,
    pub sent_at: Option<u64>,
    pub acknowledged_early: bool,
}

impl View for PendingPongChallenge {
    type V = Challenge;

    open spec fn view(&self) -> Challenge {
        Challenge {
            nonce: self.nonce@,
            sent_at: self.sent_at,
            acknowledged_early: self.acknowledged_early,
        }
    }
}

/// The view of an optional challenge.
pub open spec fn optional_challenge(challenge: Option<PendingPongChallenge>) -> Option<Challenge> {
    match challenge {
        Some(pending) => Some(pending@),
        None => None,
    }
}

/// A write that is under way.
#[derive(Debug, Clone, Copy, PartialEq, Eq, Structural)]
pub struct WriteOperation {
    pub started_at: u64,
    pub kind: UpstreamOutboundKind,
}

/// The frame that closes a connection.
#[derive(Debug, Clone)]
pub struct CloseFrame {
    pub code: u16,
    pub reason: String,
}

/// What came in from the upstream.
#[derive(Debug, Clone)]
pub enum InboundFrame {
    Text(String),
    Binary(Vec<u8>),
    Ping,
    Pong(Vec<u8>),
    Close(Option<CloseFrame>),
    Raw,
    /// The transport refused a message of this size.
    TooLong { size: usize },
    /// The transport failed.
    Failed(String),
    /// Nothing more will come.
    Ended,
}

/// What is to be written.
#[derive(Debug, Clone)]
pub enum OutboundFrame {
    Text(String),
    Ping(Vec<u8>),
    Flush,
}

/// What the pump does next.
#[derive(Debug, Clone)]
pub enum PumpStep {
    /// The pump is over.
    Stop,
    /// Write a frame.
    Write(OutboundFrame),
    /// Wait for a message in either direction, at most until the deadline. When messages in both
    /// directions are ready, `prefer_inbound` decides.
    Wait { deadline: Option<u128>, prefer_inbound: bool },
}

/// The pump of a connection.
pub struct UpstreamPump {
    pub limits: UpstreamInboundLimits,
    pub policy: UpstreamWatchdogPolicy,
    pub ping_interval: u64,
    pub inbound: VecDeque<String>,
    pub queued_bytes: usize,
    pub receiver_closed: bool,
    pub terminal_state: UpstreamTerminalState,
    pub pending_challenge: Option<PendingPongChallenge>,
    pub control_flush_needed: bool,
    pub next_ping_due: u128,
    pub next_challenge: u64,
    pub prefer_inbound: bool,
    pub operation: Option<WriteOperation>,
}

/// What a pump has been set up with.
#[verifier::ext_equal]
pub struct PumpSettings {
    pub limits: UpstreamInboundLimits,
    pub policy: UpstreamWatchdogPolicy,
    pub ping_interval: u64,
}

/// The contents of an [`UpstreamPump`].
#[verifier::ext_equal]
pub struct Pump {
    pub settings: PumpSettings,
    pub inbound: Seq<Seq<char>>,
    pub receiver_closed: bool,
    pub terminal: Terminal,
    pub challenge: Option<Challenge>,
    pub control_flush_needed: bool,
    pub next_ping_due: u128,
    pub next_challenge: u64,
    pub prefer_inbound: bool,
    pub operation: Option<WriteOperation>,
}

impl View for UpstreamPump {
    type V = Pump;

    open spec fn view(&self) -> Pump {
        Pump {
            settings: PumpSettings {
                limits: self.limits,
                policy: self.policy,
                ping_interval: self.ping_interval,
            },
            inbound: crate::text::texts(self.inbound@),
            receiver_closed: self.receiver_closed,
            terminal: self.terminal_state@,
            challenge: optional_challenge(self.pending_challenge),
            control_flush_needed: self.control_flush_needed,
            next_ping_due: self.next_ping_due,
            next_challenge: self.next_challenge,
            prefer_inbound: self.prefer_inbound,
            operation: self.operation,
        }
    }
}

/// The length of a list of texts in bytes.
pub open spec fn total_bytes(list: Seq<Seq<char>>) -> nat
    decreases list.len(),
{
    if list.len() == 0 {
        0
    } else {
        total_bytes(list.drop_last()) + byte_length(list.last())
    }
}

proof fn lemma_total_bytes_first(list: Seq<Seq<char>>)
    requires
        list.len() > 0,
    ensures
        total_bytes(list) == byte_length(list.first()) + total_bytes(list.drop_first()),
    decreases list.len(),
{
    if list.len() > 1 {
        lemma_total_bytes_first(list.drop_last());
        assert(list.drop_last().drop_first() =~= list.drop_first().drop_last());
        assert(list.drop_first().last() == list.last());
        assert(list.drop_last().first() == list.first());
    } else {
        assert(list.drop_last() =~= Seq::empty());
        assert(list.drop_first() =~= Seq::empty());
    }
}

/// What waits in a pump is within its limits.
pub open spec fn within_limits(pump: Pump) -> bool {
    &&& pump.settings.limits.wf()
    &&& pump.settings.policy.wf()
    &&& pump.inbound.len() <= pump.settings.limits.max_messages
    &&& total_bytes(pump.inbound) <= pump.settings.limits.max_bytes
}

/// A terminal state once a new one is recorded: the first one stays.
pub open spec fn recorded(state: Terminal, new: Terminal) -> Terminal {
    if state == Terminal::Open {
        new
    } else {
        state
    }
}

/// The first end of a connection is the one that counts: whatever is recorded later is dropped.
pub proof fn law_first_terminal_state_stays(state: Terminal, first: Terminal, second: Terminal)
    requires
        first != Terminal::Open,
    ensures
        recorded(recorded(state, first), second) == recorded(state, first),
{
}

/// The pump after a new terminal state is recorded.
pub open spec fn with_terminal(pump: Pump, new: Terminal) -> Pump {
    Pump { terminal: recorded(pump.terminal, new), ..pump }
}

/// The close metadata for an error.
pub open spec fn error_close(error: Seq<char>) -> CloseInfo {
    CloseInfo { code: None, reason: None, error: Some(error) }
}

/// The close metadata when nothing is known.
pub open spec fn unexplained_close() -> CloseInfo {
    CloseInfo { code: None, reason: None, error: None }
}

/// The close metadata when nothing more will be sent.
pub open spec fn outbound_closed() -> CloseInfo {
    CloseInfo { code: None, reason: Some("outbound channel closed"@), error: None }
}

/// The close metadata of a missed deadline.
pub open spec fn liveness_close() -> CloseInfo {
    CloseInfo { code: None, reason: None, error: Some("upstream websocket liveness timeout"@) }
}

/// The overflow that a message of a size is, given what waits in a pump.
pub open spec fn overflow_of(
    pump: Pump,
    cause: InboundBufferOverflowCause,
    incoming_bytes: nat,
) -> InboundBufferOverflow {
    InboundBufferOverflow {
        cause,
        queued_messages: pump.inbound.len() as usize,
        queued_bytes: total_bytes(pump.inbound) as usize,
        incoming_bytes: incoming_bytes as usize,
        max_messages: pump.settings.limits.max_messages,
        max_bytes: pump.settings.limits.max_bytes,
    }
}

/// Which limit a message breaks. The bytes are counted first. Where nobody receives any more, the
/// number of messages does not matter.
pub open spec fn overflow_cause(pump: Pump, text: Seq<char>) -> Option<InboundBufferOverflowCause> {
    if total_bytes(pump.inbound) + byte_length(text) > pump.settings.limits.max_bytes {
        Some(InboundBufferOverflowCause::PayloadBytes)
    } else if !pump.receiver_closed && pump.inbound.len() == pump.settings.limits.max_messages {
        Some(InboundBufferOverflowCause::MessageCount)
    } else {
        None
    }
}

/// The pump after a message came in, and whether it goes on.
pub open spec fn enqueued(pump: Pump, text: Seq<char>) -> (Pump, bool) {
    match overflow_cause(pump, text) {
        Some(cause) => (
            with_terminal(
                pump,
                Terminal::InboundBufferOverflow(overflow_of(pump, cause, byte_length(text))),
            ),
            false,
        ),
        None => if pump.receiver_closed {
            (pump, false)
        } else {
            (Pump { inbound: pump.inbound.push(text), ..pump }, true)
        },
    }
}

/// The deadline for the answer to a challenge.
pub open spec fn pong_deadline(pump: Pump) -> Option<int> {
    match pump.challenge {
        Some(Challenge { sent_at: Some(sent_at), .. }) => Some(
            sent_at + pump.settings.policy.pong_timeout,
        ),
        _ => None,
    }
}

/// The deadline for the write under way.
pub open spec fn write_deadline(pump: Pump) -> Option<int> {
    match pump.operation {
        Some(operation) => Some(operation.started_at + pump.settings.policy.write_timeout),
        None => None,
    }
}

/// A deadline that was missed.
pub open spec fn is_due(deadline: Option<int>, now: u64) -> bool {
    deadline matches Some(time) && time <= now
}

/// The time since an earlier point.
pub open spec fn elapsed_since(earlier: u64, now: u64) -> u64 {
    if earlier <= now {
        (now - earlier) as u64
    } else {
        0
    }
}

/// The deadline that a pump has missed. When it has missed both, the earlier one counts, and the
/// pong's where they are equal.
pub open spec fn missed_deadline(pump: Pump, now: u64) -> Option<UpstreamLivenessTimeout> {
    let pong = is_due(pong_deadline(pump), now);
    let write = is_due(write_deadline(pump), now);
    if pong && (!write || pong_deadline(pump)->0 <= write_deadline(pump)->0) {
        Some(
            UpstreamLivenessTimeout {
                cause: UpstreamLivenessTimeoutCause::PongDeadline,
                timeout: pump.settings.policy.pong_timeout,
                elapsed: elapsed_since(pump.challenge->0.sent_at->0, now),
                outbound_kind: None,
            },
        )
    } else if write {
        Some(
            UpstreamLivenessTimeout {
                cause: UpstreamLivenessTimeoutCause::WriteDeadline,
                timeout: pump.settings.policy.write_timeout,
                elapsed: elapsed_since(pump.operation->0.started_at, now),
                outbound_kind: Some(pump.operation->0.kind),
            },
        )
    } else {
        None
    }
}

/// The pump after its deadlines are checked, and whether it goes on.
pub open spec fn deadlines_checked(pump: Pump, now: u64) -> (Pump, bool) {
    match missed_deadline(pump, now) {
        Some(timeout) => (with_terminal(pump, Terminal::LivenessTimeout(timeout)), false),
        None => (pump, true),
    }
}

/// Whether a pong answers the pending challenge in time.
pub open spec fn answers_challenge(pump: Pump, payload: Seq<u8>, now: u64) -> bool {
    &&& pump.challenge matches Some(challenge) && challenge.nonce == payload
    &&& pong_deadline(pump) matches Some(deadline) ==> now < deadline
}

/// The pump after a pong.
pub open spec fn pong_received(pump: Pump, payload: Seq<u8>, now: u64) -> Pump {
    if !answers_challenge(pump, payload, now) {
        pump
    } else if pump.challenge->0.sent_at is Some {
        Pump { challenge: None, ..pump }
    } else {
        Pump {
            challenge: Some(Challenge { acknowledged_early: true, ..pump.challenge->0 }),
            ..pump
        }
    }
}

/// The metadata of a close frame.
pub open spec fn frame_close(frame: Option<CloseFrame>) -> CloseInfo {
    match frame {
        Some(closing) => CloseInfo {
            code: Some(closing.code),
            reason: Some(closing.reason@),
            error: None,
        },
        None => unexplained_close(),
    }
}

/// The pump after a frame came in, and whether it goes on.
pub open spec fn frame_handled(pump: Pump, frame: InboundFrame, now: u64) -> (Pump, bool) {
    match frame {
        InboundFrame::Text(text) => enqueued(pump, text@),
        InboundFrame::Binary(bytes) => enqueued(pump, readable_text(bytes@)),
        InboundFrame::Ping => (Pump { control_flush_needed: true, ..pump }, true),
        InboundFrame::Pong(payload) => (pong_received(pump, payload@, now), true),
        InboundFrame::Close(closing) => (
            with_terminal(pump, Terminal::Closed(frame_close(closing))),
            false,
        ),
        InboundFrame::Raw => (pump, true),
        InboundFrame::TooLong { size } => (
            with_terminal(
                pump,
                Terminal::InboundBufferOverflow(
                    overflow_of(pump, InboundBufferOverflowCause::TransportSize, size as nat),
                ),
            ),
            false,
        ),
        InboundFrame::Failed(error) => (
            with_terminal(pump, Terminal::Closed(error_close(error@))),
            false,
        ),
        InboundFrame::Ended => (pump, false),
    }
}

/// The pump after a frame came in: once a challenge is answered, the next ping is put off.
pub open spec fn frame_received(pump: Pump, frame: InboundFrame, now: u64) -> (Pump, bool) {
    let base = if pump.operation is None {
        Pump { prefer_inbound: false, ..pump }
    } else {
        pump
    };
    let (next, open) = frame_handled(base, frame, now);
    if open && pump.challenge is Some && next.challenge is None {
        (Pump { next_ping_due: ping_due(pump, now), ..next }, open)
    } else {
        (next, open)
    }
}

/// When the next ping is due, counted from a point in time.
pub open spec fn ping_due(pump: Pump, now: u64) -> u128 {
    (now + pump.settings.ping_interval) as u128
}

/// The payload of a ping.
pub open spec fn nonce_of(counter: u64) -> Seq<u8> {
    encode_utf8("threadline-"@ + decimal_text(counter as nat))
}

/// The number after a number; after the largest comes zero.
pub open spec fn next_counter(counter: u64) -> u64 {
    if counter == u64::MAX {
        0
    } else {
        (counter + 1) as u64
    }
}

/// What a step does.
pub enum Step {
    Stop,
    WriteText(Seq<char>),
    WritePing(Seq<u8>),
    Flush,
    Wait { deadline: Option<int>, prefer_inbound: bool },
}

impl View for PumpStep {
    type V = Step;

    open spec fn view(&self) -> Step {
        match self {
            PumpStep::Stop => Step::Stop,
            PumpStep::Write(OutboundFrame::Text(text)) => Step::WriteText(text@),
            PumpStep::Write(OutboundFrame::Ping(nonce)) => Step::WritePing(nonce@),
            PumpStep::Write(OutboundFrame::Flush) => Step::Flush,
            PumpStep::Wait { deadline, prefer_inbound } => Step::Wait {
                deadline: match deadline {
                    Some(time) => Some(*time as int),
                    None => None,
                },
                prefer_inbound: *prefer_inbound,
            },
        }
    }
}

/// A write of a kind that starts now.
pub open spec fn writing(pump: Pump, kind: UpstreamOutboundKind, now: u64) -> Pump {
    Pump { operation: Some(WriteOperation { started_at: now, kind }), ..pump }
}

/// What the pump does next, and how it goes on: it checks its deadlines, sends a ping that is due,
/// flushes what it owes, and waits.
pub open spec fn next_step_of(pump: Pump, now: u64) -> (Pump, Step) {
    let (checked, open) = deadlines_checked(pump, now);
    if !open {
        (checked, Step::Stop)
    } else if now >= pump.next_ping_due && pump.challenge is None {
        (
            writing(
                Pump {
                    challenge: Some(
                        Challenge {
                            nonce: nonce_of(pump.next_challenge),
                            sent_at: None,
                            acknowledged_early: false,
                        },
                    ),
                    next_challenge: next_counter(pump.next_challenge),
                    ..pump
                },
                UpstreamOutboundKind::Ping,
                now,
            ),
            Step::WritePing(nonce_of(pump.next_challenge)),
        )
    } else if pump.control_flush_needed {
        (
            writing(
                Pump { control_flush_needed: false, ..pump },
                UpstreamOutboundKind::ControlFlush,
                now,
            ),
            Step::Flush,
        )
    } else {
        (
            pump,
            Step::Wait {
                deadline: match pump.challenge {
                    Some(_) => pong_deadline(pump),
                    None => Some(pump.next_ping_due as int),
                },
                prefer_inbound: pump.prefer_inbound,
            },
        )
    }
}

/// The pump after something to be sent came, or nothing more will come.
pub open spec fn outbound_received(pump: Pump, text: Option<Seq<char>>, now: u64) -> (Pump, Step) {
    match text {
        Some(message) => (
            writing(Pump { prefer_inbound: true, ..pump }, UpstreamOutboundKind::Text, now),
            Step::WriteText(message),
        ),
        None => (with_terminal(pump, Terminal::Closed(outbound_closed())), Step::Stop),
    }
}

/// The pump after the write under way ended, and whether it goes on. A ping that went out starts
/// the wait for its answer, unless the answer is there already.
pub open spec fn write_finished(pump: Pump, error: Option<Seq<char>>, now: u64) -> (Pump, bool) {
    let idle = Pump { operation: None, ..pump };
    match error {
        Some(text) => (with_terminal(idle, Terminal::Closed(error_close(text))), false),
        None => if pump.operation matches Some(operation) && operation.kind
            == UpstreamOutboundKind::Ping {
            match pump.challenge {
                Some(challenge) => if challenge.acknowledged_early {
                    (Pump { challenge: None, next_ping_due: ping_due(pump, now), ..idle }, true)
                } else {
                    (
                        Pump {
                            challenge: Some(Challenge { sent_at: Some(now), ..challenge }),
                            ..idle
                        },
                        true,
                    )
                },
                None => (idle, true),
            }
        } else {
            (idle, true)
        },
    }
}

/// What the receiver of a connection gets.
#[derive(Debug, Clone)]
pub enum Received {
    Failed(UpstreamWebSocketError),
    Message(String),
    Closed,
    /// Nothing is there yet.
    Pending,
}

/// What the receiver of a connection gets: the error of a failed connection, or the oldest message.
/// A connection that was closed hands out what still waits.
pub open spec fn is_received(pump: Pump, received: Received) -> bool {
    match error_of(pump.terminal) {
        Some(error) => received == Received::Failed(error),
        None => if pump.inbound.len() > 0 {
            received matches Received::Message(text) && text@ == pump.inbound.first()
        } else if pump.terminal == Terminal::Open {
            received == Received::Pending
        } else {
            received == Received::Closed
        },
    }
}

/// The pump after its receiver was served.
pub open spec fn after_receive(pump: Pump) -> Pump {
    if error_of(pump.terminal) is None && pump.inbound.len() > 0 {
        Pump { inbound: pump.inbound.drop_first(), ..pump }
    } else {
        pump
    }
}

fn same_bytes(left: &Vec<u8>, right: &Vec<u8>) -> (same: bool)
    ensures
        same == (left@ == right@),
{
    if left.len() != right.len() {
        return false;
    }
    let mut i: usize = 0;
    while i < left.len()
        invariant
            i <= left@.len(),
            left@.len() == right@.len(),
            left@.take(i as int) =~= right@.take(i as int),
        decreases left@.len() - i,
    {
        if left[i] != right[i] {
            assert(left@ != right@);
            return false;
        }
        assert(left@.take(i + 1) =~= left@.take(i as int).push(left@[i as int]));
        assert(right@.take(i + 1) =~= right@.take(i as int).push(right@[i as int]));
        i += 1;
    }
    assert(left@.take(i as int) =~= left@ && right@.take(i as int) =~= right@);
    true
}

/// The payload of the next ping.
fn next_watchdog_nonce(counter: &mut u64) -> (nonce: Vec<u8>)
    ensures
        nonce@ == nonce_of(*old(counter)),
        *final(counter) == next_counter(*old(counter)),
{
    let text = joined("threadline-", decimal(*counter).as_str());
    *counter = if *counter == u64::MAX {
        0
    } else {
        *counter + 1
    };
    text.as_str().as_bytes_vec()
}

/// Whether a message of a size fits into an empty buffer.
pub fn payload_fits_inbound_byte_limit(incoming_bytes: usize, limits: UpstreamInboundLimits) -> (fits:
    bool)
    ensures
        fits == (incoming_bytes <= limits.max_bytes),
{
    incoming_bytes <= limits.max_bytes
}

fn copy_bytes(bytes: &Vec<u8>) -> (copy: Vec<u8>)
    ensures
        copy@ == bytes@,
{
    let mut copy: Vec<u8> = Vec::new();
    for i in 0..bytes.len()
        invariant
            copy@ == bytes@.take(i as int),
    {
        copy.push(bytes[i]);
        assert(bytes@.take(i + 1) =~= bytes@.take(i as int).push(bytes@[i as int]));
    }
    assert(bytes@.take(bytes@.len() as int) =~= bytes@);
    copy
}

impl UpstreamPump {
    /// What waits is counted right, and within the limits.
    pub open spec fn wf(&self) -> bool {
        within_limits(self@) && self.queued_bytes == total_bytes(self@.inbound)
    }

    /// A pump for a new connection.
    pub fn new(
        limits: UpstreamInboundLimits,
        policy: UpstreamWatchdogPolicy,
        ping_interval: u64,
        now: u64,
    ) -> (pump: Self)
        requires
            limits.wf(),
            policy.wf(),
        ensures
            pump.wf(),
            pump@ == (Pump {
                settings: PumpSettings { limits, policy, ping_interval },
                inbound: Seq::empty(),
                receiver_closed: false,
                terminal: Terminal::Open,
                challenge: None,
                control_flush_needed: false,
                next_ping_due: (now + ping_interval) as u128,
                next_challenge: 0,
                prefer_inbound: false,
                operation: None,
            }),
    {
        let pump = UpstreamPump {
            limits,
            policy,
            ping_interval,
            inbound: VecDeque::new(),
            queued_bytes: 0,
            receiver_closed: false,
            terminal_state: UpstreamTerminalState::Open,
            pending_challenge: None,
            control_flush_needed: false,
            next_ping_due: now as u128 + ping_interval as u128,
            next_challenge: 0,
            prefer_inbound: false,
            operation: None,
        };
        assert(pump@.inbound =~= Seq::empty());
        pump
    }

    /// Whether the connection is over.
    pub fn is_closed(&self) -> (closed: bool)
        ensures
            closed == (self@.terminal != Terminal::Open),
    {
        match self.terminal_state {
            UpstreamTerminalState::Open => false,
            _ => true,
        }
    }

    /// Whether the connection is over, and how it ended.
    pub fn terminal_state(&self) -> (state: UpstreamTerminalState)
        ensures
            state@ == self@.terminal,
    {
        self.terminal_state.copy()
    }

    /// How the connection was closed. An overflow is no close.
    pub fn close_metadata(&self) -> (metadata: Option<UpstreamCloseMetadata>)
        ensures
            match self@.terminal {
                Terminal::Closed(info) => metadata matches Some(found) && found@ == info,
                Terminal::LivenessTimeout(_) => metadata matches Some(found) && found@
                    == liveness_close(),
                _ => metadata is None,
            },
    {
        match &self.terminal_state {
            UpstreamTerminalState::Closed(metadata) => Some(metadata.copy()),
            UpstreamTerminalState::LivenessTimeout(_) => Some(
                UpstreamCloseMetadata {
                    code: None,
                    reason: None,
                    error: Some("upstream websocket liveness timeout".to_owned()),
                },
            ),
            _ => None,
        }
    }

    /// The error that the connection failed with.
    pub fn terminal_error(&self) -> (result: Result<(), UpstreamWebSocketError>)
        ensures
            match error_of(self@.terminal) {
                Some(error) => result == Err::<(), _>(error),
                None => result == Ok::<_, UpstreamWebSocketError>(()),
            },
    {
        match &self.terminal_state {
            UpstreamTerminalState::InboundBufferOverflow(_) => Err(
                UpstreamWebSocketError::InboundBufferOverflow,
            ),
            UpstreamTerminalState::LivenessTimeout(_) => Err(
                UpstreamWebSocketError::LivenessTimeout,
            ),
            _ => Ok(()),
        }
    }

    /// The result of handing a message over to be sent, given whether the queue took it. The error
    /// of a failed connection goes before that of a closed queue.
    pub fn send_result(&self, queued: bool) -> (result: Result<(), UpstreamWebSocketError>)
        ensures
            match error_of(self@.terminal) {
                Some(error) => result == Err::<(), _>(error),
                None => if queued {
                    result == Ok::<_, UpstreamWebSocketError>(())
                } else {
                    result == Err::<(), _>(UpstreamWebSocketError::OutboundQueueClosed)
                },
            },
    {
        match self.terminal_error() {
            Err(error) => Err(error),
            Ok(_) => if queued {
                Ok(())
            } else {
                Err(UpstreamWebSocketError::OutboundQueueClosed)
            },
        }
    }

    /// Serves the receiver of the connection.
    pub fn receive(&mut self) -> (received: Received)
        requires
            old(self).wf(),
        ensures
            final(self).wf(),
            is_received(old(self)@, received),
            final(self)@ == after_receive(old(self)@),
    {
        if let Err(error) = self.terminal_error() {
            return Received::Failed(error);
        }
        let ghost before = self@;
        match self.inbound.pop_front() {
            Some(text) => {
                proof {
                    lemma_total_bytes_first(before.inbound);
                    assert(self@.inbound =~= before.inbound.drop_first());
                    assert(text@ == before.inbound.first());
                }
                self.queued_bytes = self.queued_bytes - text.as_str().as_bytes().len();
                Received::Message(text)
            },
            None => {
                assert(self@.inbound =~= before.inbound);
                if self.is_closed() {
                    Received::Closed
                } else {
                    Received::Pending
                }
            },
        }
    }

    /// Takes note that nobody receives any more. What waits is dropped.
    pub fn close_receiver(&mut self)
        requires
            old(self).wf(),
        ensures
            final(self).wf(),
            final(self)@ == (Pump {
                receiver_closed: true,
                inbound: Seq::empty(),
                ..old(self)@
            }),
    {
        self.receiver_closed = true;
        self.inbound = VecDeque::new();
        self.queued_bytes = 0;
        assert(self@.inbound =~= Seq::empty());
    }

    fn record(&mut self, state: UpstreamTerminalState)
        ensures
            final(self)@ == with_terminal(old(self)@, state@),
            final(self).queued_bytes == old(self).queued_bytes,
    {
        if !self.is_closed() {
            self.terminal_state = state;
        }
    }

    fn record_close(&mut self, metadata: UpstreamCloseMetadata)
        ensures
            final(self)@ == with_terminal(old(self)@, Terminal::Closed(metadata@)),
            final(self).queued_bytes == old(self).queued_bytes,
    {
        self.record(UpstreamTerminalState::Closed(metadata));
    }

    fn record_error(&mut self, error: String)
        ensures
            final(self)@ == with_terminal(old(self)@, Terminal::Closed(error_close(error@))),
            final(self).queued_bytes == old(self).queued_bytes,
    {
        self.record_close(UpstreamCloseMetadata { code: None, reason: None, error: Some(error) });
    }

    fn record_inbound_overflow(&mut self, cause: InboundBufferOverflowCause, incoming_bytes: usize)
        requires
            old(self).wf(),
        ensures
            final(self)@ == with_terminal(
                old(self)@,
                Terminal::InboundBufferOverflow(
                    overflow_of(old(self)@, cause, incoming_bytes as nat),
                ),
            ),
            final(self).queued_bytes == old(self).queued_bytes,
    {
        let overflow = InboundBufferOverflow {
            cause,
            queued_messages: self.inbound.len(),
            queued_bytes: self.queued_bytes,
            incoming_bytes,
            max_messages: self.limits.max_messages,
            max_bytes: self.limits.max_bytes,
        };
        self.record(UpstreamTerminalState::InboundBufferOverflow(overflow));
    }

    /// Puts a message into the buffer, unless it breaks a limit.
    pub fn try_enqueue_inbound(&mut self, payload: String) -> (open: bool)
        requires
            old(self).wf(),
        ensures
            final(self).wf(),
            (final(self)@, open) == enqueued(old(self)@, payload@),
    {
        let incoming_bytes = payload.as_str().as_bytes().len();
        if !payload_fits_inbound_byte_limit(incoming_bytes, self.limits) || incoming_bytes
            > self.limits.max_bytes - self.queued_bytes {
            self.record_inbound_overflow(InboundBufferOverflowCause::PayloadBytes, incoming_bytes);
            return false;
        }
        if self.receiver_closed {
            return false;
        }
        if self.inbound.len() >= self.limits.max_messages {
            self.record_inbound_overflow(InboundBufferOverflowCause::MessageCount, incoming_bytes);
            return false;
        }
        let ghost before = self@;
        let ghost text = payload@;
        self.inbound.push_back(payload);
        self.queued_bytes = self.queued_bytes + incoming_bytes;
        proof {
            assert(self@.inbound =~= before.inbound.push(text));
            assert(self@.inbound.drop_last() =~= before.inbound);
        }
        true
    }

    /// Checks the deadlines of a pending challenge and of the write under way.
    pub fn check_liveness_deadline(&mut self, now: u64) -> (open: bool)
        requires
            old(self).wf(),
        ensures
            final(self).wf(),
            (final(self)@, open) == deadlines_checked(old(self)@, now),
    {
        let pong: Option<(u128, u64)> = match &self.pending_challenge {
            Some(challenge) => match challenge.sent_at {
                Some(sent_at) => {
                    let deadline: u128 = sent_at as u128 + self.policy.pong_timeout as u128;
                    if deadline <= now as u128 {
                        Some((deadline, sent_at))
                    } else {
                        None
                    }
                },
                None => None,
            },
            None => None,
        };
        let write: Option<(u128, WriteOperation)> = match self.operation {
            Some(operation) => {
                let deadline: u128 = operation.started_at as u128
                    + self.policy.write_timeout as u128;
                if deadline <= now as u128 {
                    Some((deadline, operation))
                } else {
                    None
                }
            },
            None => None,
        };
        let timeout = match (pong, write) {
            (None, None) => return true,
            (Some((pong_time, sent_at)), Some((write_time, _))) if pong_time <= write_time =>
                self.missed_pong(sent_at, now),
            (_, Some((_, operation))) => UpstreamLivenessTimeout {
                cause: UpstreamLivenessTimeoutCause::WriteDeadline,
                timeout: self.policy.write_timeout,
                elapsed: now.saturating_sub(operation.started_at),
                outbound_kind: Some(operation.kind),
            },
            (Some((_, sent_at)), None) => self.missed_pong(sent_at, now),
        };
        self.record(UpstreamTerminalState::LivenessTimeout(timeout));
        false
    }

    fn missed_pong(&self, sent_at: u64, now: u64) -> (timeout: UpstreamLivenessTimeout)
        ensures
            timeout == (UpstreamLivenessTimeout {
                cause: UpstreamLivenessTimeoutCause::PongDeadline,
                timeout: self.policy.pong_timeout,
                elapsed: elapsed_since(sent_at, now),
                outbound_kind: None,
            }),
    {
        UpstreamLivenessTimeout {
            cause: UpstreamLivenessTimeoutCause::PongDeadline,
            timeout: self.policy.pong_timeout,
            elapsed: now.saturating_sub(sent_at),
            outbound_kind: None,
        }
    }

    fn handle_pong(&mut self, payload: &Vec<u8>, now: u64)
        ensures
            final(self)@ == pong_received(old(self)@, payload@, now),
            final(self).queued_bytes == old(self).queued_bytes,
    {
        let pending: Option<PendingPongChallenge> = self.pending_challenge.take();
        if let Some(challenge) = pending {
            let in_time = match challenge.sent_at {
                Some(sent_at) => (now as u128) < sent_at as u128
                    + self.policy.pong_timeout as u128,
                None => true,
            };
            if in_time && same_bytes(&challenge.nonce, payload) {
                if challenge.sent_at.is_none() {
                    self.pending_challenge = Some(
                        PendingPongChallenge { acknowledged_early: true, ..challenge },
                    );
                }
            } else {
                self.pending_challenge = Some(challenge);
            }
        }
    }

    /// Handles a frame from the upstream.
    pub fn handle_inbound_message(&mut self, frame: InboundFrame, now: u64) -> (open: bool)
        requires
            old(self).wf(),
        ensures
            final(self).wf(),
            (final(self)@, open) == frame_handled(old(self)@, frame, now),
    {
        match frame {
            InboundFrame::Text(text) => self.try_enqueue_inbound(text),
            InboundFrame::Binary(bytes) => {
                let text = text_from_bytes(bytes.as_slice());
                self.try_enqueue_inbound(text)
            },
            InboundFrame::Ping => {
                self.control_flush_needed = true;
                true
            },
            InboundFrame::Pong(payload) => {
                self.handle_pong(&payload, now);
                true
            },
            InboundFrame::Close(closing) => {
                let metadata = match closing {
                    Some(frame) => UpstreamCloseMetadata {
                        code: Some(frame.code),
                        reason: Some(frame.reason),
                        error: None,
                    },
                    None => UpstreamCloseMetadata { code: None, reason: None, error: None },
                };
                self.record_close(metadata);
                false
            },
            InboundFrame::Raw => true,
            InboundFrame::TooLong { size } => {
                self.record_inbound_overflow(InboundBufferOverflowCause::TransportSize, size);
                false
            },
            InboundFrame::Failed(error) => {
                self.record_error(error);
                false
            },
            InboundFrame::Ended => false,
        }
    }

    /// Handles a frame from the upstream, whether or not a write is under way.
    pub fn on_inbound(&mut self, frame: InboundFrame, now: u64) -> (open: bool)
        requires
            old(self).wf(),
        ensures
            final(self).wf(),
            (final(self)@, open) == frame_received(old(self)@, frame, now),
    {
        if self.operation.is_none() {
            self.prefer_inbound = false;
        }
        let challenge_was_pending = self.pending_challenge.is_some();
        let open = self.handle_inbound_message(frame, now);
        if open && challenge_was_pending && self.pending_challenge.is_none() {
            self.next_ping_due = now as u128 + self.ping_interval as u128;
        }
        open
    }

    /// What to do next when no write is under way.
    pub fn next_step(&mut self, now: u64) -> (step: PumpStep)
        requires
            old(self).wf(),
            old(self).operation is None,
        ensures
            final(self).wf(),
            (final(self)@, step@) == next_step_of(old(self)@, now),
    {
        if !self.check_liveness_deadline(now) {
            return PumpStep::Stop;
        }
        if now as u128 >= self.next_ping_due && self.pending_challenge.is_none() {
            let nonce = next_watchdog_nonce(&mut self.next_challenge);
            let payload = copy_bytes(&nonce);
            self.pending_challenge = Some(
                PendingPongChallenge { nonce, sent_at: None, acknowledged_early: false },
            );
            self.operation = Some(
                WriteOperation { started_at: now, kind: UpstreamOutboundKind::Ping },
            );
            return PumpStep::Write(OutboundFrame::Ping(payload));
        }
        if self.control_flush_needed {
            self.control_flush_needed = false;
            self.operation = Some(
                WriteOperation { started_at: now, kind: UpstreamOutboundKind::ControlFlush },
            );
            return PumpStep::Write(OutboundFrame::Flush);
        }
        let deadline: Option<u128> = match &self.pending_challenge {
            Some(challenge) => match challenge.sent_at {
                Some(sent_at) => Some(sent_at as u128 + self.policy.pong_timeout as u128),
                None => None,
            },
            None => Some(self.next_ping_due),
        };
        PumpStep::Wait { deadline, prefer_inbound: self.prefer_inbound }
    }

    /// What to do with a message that is to be sent, or when nothing more will be sent.
    pub fn on_outbound(&mut self, text: Option<String>, now: u64) -> (step: PumpStep)
        requires
            old(self).wf(),
        ensures
            final(self).wf(),
            (final(self)@, step@) == outbound_received(old(self)@, optional_text(text), now),
    {
        match text {
            Some(message) => {
                self.prefer_inbound = true;
                self.operation = Some(
                    WriteOperation { started_at: now, kind: UpstreamOutboundKind::Text },
                );
                PumpStep::Write(OutboundFrame::Text(message))
            },
            None => {
                self.record_close(
                    UpstreamCloseMetadata {
                        code: None,
                        reason: Some("outbound channel closed".to_owned()),
                        error: None,
                    },
                );
                PumpStep::Stop
            },
        }
    }

    /// The time until which the write under way may be waited for.
    pub fn earliest_write_deadline(&self) -> (deadline: Option<u128>)
        ensures
            match (pong_deadline(self@), write_deadline(self@)) {
                (Some(pong), Some(write)) => deadline matches Some(time) && time == if pong
                    <= write {
                    pong
                } else {
                    write
                },
                (None, Some(write)) => deadline matches Some(time) && time == write,
                (_, None) => deadline is None,
            },
    {
        let operation = match self.operation {
            Some(operation) => operation,
            None => return None,
        };
        let write: u128 = operation.started_at as u128 + self.policy.write_timeout as u128;
        if let Some(challenge) = &self.pending_challenge {
            if let Some(sent_at) = challenge.sent_at {
                let pong: u128 = sent_at as u128 + self.policy.pong_timeout as u128;
                if pong <= write {
                    return Some(pong);
                }
            }
        }
        Some(write)
    }

    /// Takes note of how the write under way ended.
    pub fn on_write_finished(&mut self, error: Option<String>, now: u64) -> (open: bool)
        requires
            old(self).wf(),
        ensures
            final(self).wf(),
            (final(self)@, open) == write_finished(old(self)@, optional_text(error), now),
    {
        let operation = self.operation;
        self.operation = None;
        if let Some(text) = error {
            self.record_error(text);
            return false;
        }
        let was_ping = match operation {
            Some(written) => match written.kind {
                UpstreamOutboundKind::Ping => true,
                _ => false,
            },
            None => false,
        };
        if was_ping {
            let pending: Option<PendingPongChallenge> = self.pending_challenge.take();
            if let Some(challenge) = pending {
                if challenge.acknowledged_early {
                    self.next_ping_due = now as u128 + self.ping_interval as u128;
                } else {
                    self.pending_challenge = Some(
                        PendingPongChallenge { sent_at: Some(now), ..challenge },
                    );
                }
            }
        }
        true
    }

    /// Takes note that the pump is over.
    pub fn finish(&mut self)
        requires
            old(self).wf(),
        ensures
            final(self).wf(),
            final(self)@ == with_terminal(old(self)@, Terminal::Closed(unexplained_close())),
    {
        self.record_close(UpstreamCloseMetadata { code: None, reason: None, error: None });
    }
}

/// A pump never holds more than its limits allow, whatever comes in.
pub proof fn law_buffer_stays_within_limits(pump: Pump, frame: InboundFrame, now: u64)
    requires
        within_limits(pump),
    ensures
        within_limits(frame_received(pump, frame, now).0),
        within_limits(after_receive(pump)),
{
    if let InboundFrame::Text(text) = frame {
        assert(pump.inbound.push(text@).drop_last() =~= pump.inbound);
    }
    if let InboundFrame::Binary(bytes) = frame {
        assert(pump.inbound.push(readable_text(bytes@)).drop_last() =~= pump.inbound);
    }
    if pump.inbound.len() > 0 {
        lemma_total_bytes_first(pump.inbound);
    }
}

/// Messages are handed out in the order in which they came in, and none is lost as long as the
/// connection holds.
pub proof fn law_messages_arrive_in_order(pump: Pump, text: Seq<char>)
    requires
        error_of(pump.terminal) is None,
        overflow_cause(pump, text) is None,
        !pump.receiver_closed,
    ensures
        enqueued(pump, text).0.inbound == pump.inbound.push(text),
        pump.inbound.len() > 0 ==> after_receive(enqueued(pump, text).0).inbound
            == after_receive(pump).inbound.push(text),
        pump.inbound.len() == 0 ==> enqueued(pump, text).0.inbound.first() == text,
{
    if pump.inbound.len() > 0 {
        assert(pump.inbound.push(text).drop_first() =~= pump.inbound.drop_first().push(text));
    }
}

/// A connection whose deadline has passed has failed, and an answer that comes at the deadline or
/// later does not help.
pub proof fn law_late_answers_do_not_count(pump: Pump, payload: Seq<u8>, now: u64)
    requires
        pump.terminal == Terminal::Open,
        is_due(pong_deadline(pump), now),
    ensures
        pong_received(pump, payload, now) == pump,
        deadlines_checked(pump, now).0.terminal is LivenessTimeout,
        !deadlines_checked(pump, now).1,
{
}

/// At most one challenge is pending: no ping goes out before the last one was answered.
pub proof fn law_one_challenge_at_a_time(pump: Pump, now: u64)
    requires
        pump.challenge is Some,
    ensures
        !(next_step_of(pump, now).1 is WritePing),
        next_step_of(pump, now).0.challenge == pump.challenge,
{
}

/// Once an answered challenge is gone, no further ping goes out before the interval has passed.
pub proof fn law_answer_puts_off_the_next_ping(pump: Pump, payload: Vec<u8>, now: u64, later: u64)
    requires
        answers_challenge(pump, payload@, now),
        pump.challenge->0.sent_at is Some,
        pump.operation is None,
        later < now + pump.settings.ping_interval,
    ensures
        ({
            let next = frame_received(pump, InboundFrame::Pong(payload), now).0;
            &&& next.challenge is None
            &&& !(next_step_of(next, later).1 is WritePing)
        }),
{
}

/// Two pings with different numbers carry different payloads.
pub proof fn law_challenges_are_told_apart(first: u64, second: u64)
    requires
        nonce_of(first) == nonce_of(second),
    ensures
        first == second,
{
    let left = "threadline-"@ + decimal_text(first as nat);
    let right = "threadline-"@ + decimal_text(second as nat);
    vstd::utf8::encode_utf8_decode_utf8(left);
    vstd::utf8::encode_utf8_decode_utf8(right);
    let length = "threadline-"@.len() as int;
    assert(left.skip(length) =~= decimal_text(first as nat));
    assert(right.skip(length) =~= decimal_text(second as nat));
    crate::text::law_decimal_text_is_injective(first as nat, second as nat);
}

/// A buffer that is exactly full still takes control frames: only the next message overflows it.
pub proof fn law_full_buffer_takes_control_frames(pump: Pump, payload: Vec<u8>, now: u64)
    ensures
        frame_handled(pump, InboundFrame::Ping, now).1,
        frame_handled(pump, InboundFrame::Ping, now).0.terminal == pump.terminal,
        frame_handled(pump, InboundFrame::Pong(payload), now).1,
        frame_handled(pump, InboundFrame::Pong(payload), now).0.terminal == pump.terminal,
{
}

} // verus!

//! What the HTTP routes answer besides responses.

use crate::errors::ThreadlineError;
use crate::models::{advertised_in, advertised_model_ids_for_profile, catalog, strs, RouteProfile};
use crate::text::optional_text;
use vstd::prelude::*;

verus! {

pub const MODEL_CREATED_UNSPECIFIED: u64 = 0;

pub const DEFAULT_UPSTREAM_URL: &'static str = "wss://chatgpt.com/backend-api/codex/responses";

pub const INTERACTION_TYPE_HEADER: &'static str = "x-interaction-type";

/// What the health route answers.
#[derive(Debug, Clone, Copy, PartialEq, Eq)]
pub struct HealthPayload {
    pub status: &'static str,
    pub service: &'static str,
}

/// A model in the list of models.
#[derive(Debug, Clone, PartialEq, Eq)]
pub struct ModelEntry {
    pub id: String,
    pub object: &'static str,
    pub created: u64,
    pub owned_by: &'static str,
}

/// What the models route answers.
#[derive(Debug, Clone, PartialEq, Eq)]
pub struct ModelListPayload {
    pub object: &'static str,
    pub data: Vec<ModelEntry>,
}

/// The contents of a [`ModelEntry`].
#[verifier::ext_equal]
pub struct ListedModel {
    pub id: Seq<char>,
    pub object: Seq<char>,
    pub created: u64,
    pub owned_by: Seq<char>,
}

impl View for ModelEntry {
    type V = ListedModel;

    open spec fn view(&self) -> ListedModel {
        ListedModel {
            id: self.id@,
            object: self.object@,
            created: self.created,
            owned_by: self.owned_by@,
        }
    }
}

/// The views of a list of models.
pub open spec fn entries_view(entries: Seq<ModelEntry>) -> Seq<ListedModel> {
    entries.map_values(|entry: ModelEntry| entry@)
}

/// The models with the given ids, as the list of models has them.
pub open spec fn listed_models(model_ids: Seq<Seq<char>>) -> Seq<ListedModel> {
    model_ids.map_values(
        |id: Seq<char>|
            ListedModel {
                id,
                object: "model"@,
                created: MODEL_CREATED_UNSPECIFIED,
                owned_by: "threadline"@,
            },
    )
}

/// What the health route answers.
pub fn health_payload() -> (payload: HealthPayload)
    ensures
        payload.status@ == "ok"@,
        payload.service@ == "threadline"@,
{
    HealthPayload { status: "ok", service: "threadline" }
}

/// What the models route answers: the models that are advertised for the profile.
pub fn model_list_payload(profile: RouteProfile) -> (payload: ModelListPayload)
    ensures
        payload.object@ == "list"@,
        entries_view(payload.data@) == listed_models(advertised_in(catalog(), profile)),
{
    let ids = advertised_model_ids_for_profile(profile);
    let ghost expected = listed_models(strs(ids@));
    let mut data: Vec<ModelEntry> = Vec::new();
    let mut i: usize = 0;
    assert(entries_view(data@) =~= expected.take(0));
    while i < ids.len()
        invariant
            i <= ids@.len(),
            expected == listed_models(strs(ids@)),
            entries_view(data@) == expected.take(i as int),
        decreases ids@.len() - i,
    {
        let ghost listed = entries_view(data@);
        let entry = ModelEntry {
            id: ids[i].to_owned(),
            object: "model",
            created: MODEL_CREATED_UNSPECIFIED,
            owned_by: "threadline",
        };
        data.push(entry);
        proof {
            assert(entries_view(data@) =~= listed.push(entry@));
            assert(expected.take(i + 1) =~= expected.take(i as int).push(expected[i as int]));
        }
        i += 1;
    }
    assert(expected.take(i as int) =~= expected);
    ModelListPayload { object: "list", data }
}

/// The address of the upstream: the one that was set, or the usual one.
pub fn upstream_url(configured: Option<String>) -> (url: String)
    ensures
        url@ == match optional_text(configured) {
            Some(address) => address,
            None => DEFAULT_UPSTREAM_URL@,
        },
{
    match configured {
        Some(address) => address,
        None => DEFAULT_UPSTREAM_URL.to_owned(),
    }
}

/// Why a connection to the upstream could not be opened.
#[derive(Debug, Clone, Copy, PartialEq, Eq, Structural)]
pub enum UpstreamConnectFailure {
    /// The upstream answered with a status.
    Rejected { status: u16 },
    /// There was no answer.
    Failed(ConnectFailureKind),
}

/// What went wrong with a connection.
#[derive(Debug, Clone, Copy, PartialEq, Eq, Structural)]
pub enum ConnectFailureKind {
    ConnectionClosed,
    AlreadyClosed,
    Io,
    Tls,
    Capacity,
    Protocol,
    WriteBufferFull,
    Utf8,
    AttackAttempt,
    Url,
    HttpFormat,
}

/// The name of what went wrong.
pub open spec fn connect_failure_name(kind: ConnectFailureKind) -> Seq<char> {
    match kind {
        ConnectFailureKind::ConnectionClosed => "connection_closed"@,
        ConnectFailureKind::AlreadyClosed => "already_closed"@,
        ConnectFailureKind::Io => "io"@,
        ConnectFailureKind::Tls => "tls"@,
        ConnectFailureKind::Capacity => "capacity"@,
        ConnectFailureKind::Protocol => "protocol"@,
        ConnectFailureKind::WriteBufferFull => "write_buffer_full"@,
        ConnectFailureKind::Utf8 => "utf8"@,
        ConnectFailureKind::AttackAttempt => "attack_attempt"@,
        ConnectFailureKind::Url => "url"@,
        ConnectFailureKind::HttpFormat => "http_format"@,
    }
}

/// The name of what went wrong.
pub fn upstream_connect_error_kind(kind: ConnectFailureKind) -> (name: &'static str)
    ensures
        name@ == connect_failure_name(kind),
{
    match kind {
        ConnectFailureKind::ConnectionClosed => "connection_closed",
        ConnectFailureKind::AlreadyClosed => "already_closed",
        ConnectFailureKind::Io => "io",
        ConnectFailureKind::Tls => "tls",
        ConnectFailureKind::Capacity => "capacity",
        ConnectFailureKind::Protocol => "protocol",
        ConnectFailureKind::WriteBufferFull => "write_buffer_full",
        ConnectFailureKind::Utf8 => "utf8",
        ConnectFailureKind::AttackAttempt => "attack_attempt",
        ConnectFailureKind::Url => "url",
        ConnectFailureKind::HttpFormat => "http_format",
    }
}

/// The error for a connection that could not be opened.
pub fn map_upstream_connect_error(failure: UpstreamConnectFailure) -> (error: ThreadlineError)
    ensures
        error == match failure {
            UpstreamConnectFailure::Rejected { status } =>
                ThreadlineError::UpstreamWebSocketHandshakeRejected { status },
            UpstreamConnectFailure::Failed(_) => ThreadlineError::UpstreamWebSocketConnectFailed,
        },
{
    match failure {
        UpstreamConnectFailure::Rejected { status } =>
            ThreadlineError::UpstreamWebSocketHandshakeRejected { status },
        UpstreamConnectFailure::Failed(_) => ThreadlineError::UpstreamWebSocketConnectFailed,
    }
}

/// The list of models has one entry for each id, in order, and every entry is a model of the bridge.
pub proof fn law_listed_models_have_their_ids(model_ids: Seq<Seq<char>>, index: int)
    requires
        0 <= index < model_ids.len(),
    ensures
        listed_models(model_ids).len() == model_ids.len(),
        listed_models(model_ids)[index].id == model_ids[index],
        listed_models(model_ids)[index].object == "model"@,
        listed_models(model_ids)[index].created == 0,
        listed_models(model_ids)[index].owned_by == "threadline"@,
{
}

} // verus!

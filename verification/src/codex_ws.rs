//! Upstream sessions, and the handshake that opens an upstream connection.

use crate::auth::LoadedUpstreamAuth;
use crate::json::{
    make_value, member, new_object, no_members, object_get, object_insert, object_of, object_view,
    text_value, Json, Node,
};
use crate::text::{
    ascii_lowercase, copy_text, decimal, decimal_text, is_blank, joined, optional_text,
    text_is_blank,
};
use serde_json::Value;
use vstd::prelude::*;
use vstd::utf8::encode_utf8;

verus! {

/// The protocol version that the upstream is asked to speak.
pub const RESPONSES_WEBSOCKETS_BETA_HEADER: &'static str = "responses_websockets=2026-02-06";

/// The client version that the upstream is known to accept.
pub const EXPECTED_CODEX_CLIENT_VERSION: &'static str = "0.136.0";

/// The version of the bridge.
pub const BRIDGE_VERSION: &'static str = "0.1.0";

/// A session with the upstream.
#[derive(Debug, Clone, PartialEq, Eq)]
pub struct UpstreamSessionDescriptor {
    pub session_id: String,
    pub thread_id: String,
    pub window_id: String,
    pub turn_state: Option<String>,
}

/// The contents of an [`UpstreamSessionDescriptor`].
#[verifier::ext_equal]
pub struct Session {
    pub session_id: Seq<char>,
    pub thread_id: Seq<char>,
    pub window_id: Seq<char>,
    pub turn_state: Option<Seq<char>>,
}

impl View for UpstreamSessionDescriptor {
    type V = Session;

    open spec fn view(&self) -> Session {
        Session {
            session_id: self.session_id@,
            thread_id: self.thread_id@,
            window_id: self.window_id@,
            turn_state: optional_text(self.turn_state),
        }
    }
}

/// The id of a window of a thread.
pub open spec fn window_id_of(thread_id: Seq<char>, generation: u64) -> Seq<char> {
    thread_id + ":"@ + decimal_text(generation as nat)
}

/// A new session for a thread. A thread id that is absent or blank is replaced.
pub open spec fn new_session(
    thread_id: Option<Seq<char>>,
    replacement: Seq<char>,
    session_id: Seq<char>,
) -> Session {
    let thread = match thread_id {
        Some(id) if !is_blank(id) => id,
        _ => replacement,
    };
    Session { session_id, thread_id: thread, window_id: window_id_of(thread, 0), turn_state: None }
}

/// A text in the form of a UUID: groups of hexadecimal digits, with hyphens between them.
pub open spec fn is_uuid_text(text: Seq<char>) -> bool {
    &&& text.len() == 36
    &&& forall|i: int|
        0 <= i < text.len() ==> {
            let c = #[trigger] text[i];
            if i == 8 || i == 13 || i == 18 || i == 23 {
                c == '-'
            } else {
                ('0' <= c && c <= '9') || ('a' <= c && c <= 'f')
            }
        }
}

/// Wraps `uuid::Uuid::now_v7` and its `to_string`: a new id in hyphenated form. Which one comes is
/// left to time and chance.
#[verifier::external_body]
pub(crate) fn new_request_id() -> (id: String)
    ensures
        is_uuid_text(id@),
{
    uuid::Uuid::now_v7().to_string()
}

fn window_id_for_generation(thread_id: &str, generation: u64) -> (id: String)
    ensures
        id@ == window_id_of(thread_id@, generation),
{
    let mut id = joined(thread_id, ":");
    id.append(decimal(generation).as_str());
    id
}

impl UpstreamSessionDescriptor {
    /// A new session for a thread, with new ids where they are needed.
    pub fn new(thread_id: Option<String>) -> (session: Self)
        ensures
            exists|replacement: Seq<char>, session_id: Seq<char>|
                is_uuid_text(replacement) && is_uuid_text(session_id) && session@
                    == #[trigger] new_session(optional_text(thread_id), replacement, session_id),
    {
        let replacement = new_request_id();
        let session_id = new_request_id();
        let ghost (first, second) = (replacement@, session_id@);
        let ghost thread = optional_text(thread_id);
        let session = UpstreamSessionDescriptor::with_ids(thread_id, replacement, session_id);
        assert(session@ == new_session(thread, first, second));
        session
    }

    /// A new session for a thread, with the given ids.
    pub fn with_ids(thread_id: Option<String>, replacement: String, session_id: String) -> (session:
        Self)
        ensures
            session@ == new_session(optional_text(thread_id), replacement@, session_id@),
    {
        let thread = match thread_id {
            Some(id) => if text_is_blank(id.as_str()) {
                replacement
            } else {
                id
            },
            None => replacement,
        };
        let window_id = window_id_for_generation(thread.as_str(), 0);
        UpstreamSessionDescriptor { session_id, thread_id: thread, window_id, turn_state: None }
    }

    /// A session with the same contents.
    pub fn copy(&self) -> (session: Self)
        ensures
            session@ == self@,
    {
        UpstreamSessionDescriptor {
            session_id: self.session_id.clone(),
            thread_id: self.thread_id.clone(),
            window_id: self.window_id.clone(),
            turn_state: copy_text(&self.turn_state),
        }
    }

    /// Moves on to a window of the same thread.
    pub fn set_window_generation(&mut self, generation: u64)
        ensures
            final(self)@ == (Session {
                window_id: window_id_of(old(self)@.thread_id, generation),
                ..old(self)@
            }),
    {
        self.window_id = window_id_for_generation(self.thread_id.as_str(), generation);
    }
}

/// The client metadata of a request with the session's ids; other entries stay.
pub open spec fn with_session_metadata(
    members: Map<Seq<char>, Json>,
    session: Session,
    installation_id: Seq<char>,
) -> Map<Seq<char>, Json> {
    let metadata = match member(members, "client_metadata"@) {
        Some(Json::Object(existing)) => existing,
        _ => no_members(),
    };
    members.insert(
        "client_metadata"@,
        Json::Object(
            metadata.insert("x-codex-installation-id"@, Json::Str(installation_id)).insert(
                "session_id"@,
                Json::Str(session.session_id),
            ).insert("thread_id"@, Json::Str(session.thread_id)).insert(
                "x-codex-window-id"@,
                Json::Str(session.window_id),
            ),
        ),
    )
}

/// Puts the session's ids into the client metadata of a request.
pub fn apply_session_metadata(
    payload: &mut serde_json::Map<String, Value>,
    session: &UpstreamSessionDescriptor,
    installation_id: &str,
)
    ensures
        object_view(*final(payload)) == with_session_metadata(
            object_view(*old(payload)),
            session@,
            installation_id@,
        ),
{
    let mut metadata = match object_of(object_get(payload, "client_metadata")) {
        Some(existing) => existing.clone(),
        None => new_object(),
    };
    object_insert(&mut metadata, "x-codex-installation-id", text_value(installation_id));
    object_insert(&mut metadata, "session_id", text_value(session.session_id.as_str()));
    object_insert(&mut metadata, "thread_id", text_value(session.thread_id.as_str()));
    object_insert(&mut metadata, "x-codex-window-id", text_value(session.window_id.as_str()));
    object_insert(payload, "client_metadata", make_value(Node::Object(metadata)));
}

/// `http::Request`: the request that opens a websocket connection.
#[verifier::external_type_specification]
#[verifier::external_body]
#[verifier::reject_recursive_types(T)]
pub struct ExternalRequest<T>(tokio_tungstenite::tungstenite::http::Request<T>);

/// `tungstenite::Error`: why a request cannot be built.
#[verifier::external_type_specification]
#[verifier::external_body]
pub struct ExternalWebSocketError(tokio_tungstenite::tungstenite::Error);

/// `http::header::InvalidHeaderValue`: a text that is no header value.
#[verifier::external_type_specification]
#[verifier::external_body]
pub struct ExternalInvalidHeaderValue(
    tokio_tungstenite::tungstenite::http::header::InvalidHeaderValue,
);

/// The headers of a request: the bytes of each value under its name in lower case.
pub uninterp spec fn request_headers(
    request: tokio_tungstenite::tungstenite::http::Request<()>,
) -> Map<Seq<char>, Seq<u8>>;

/// The address of a request, as the text of its URI.
pub uninterp spec fn request_address(
    request: tokio_tungstenite::tungstenite::http::Request<()>,
) -> Seq<char>;

/// The address of the request that `into_client_request` makes of a text; `None` when it refuses the
/// text.
pub uninterp spec fn client_address(text: Seq<char>) -> Option<Seq<char>>;

/// Whether a text may stand in a header: no control characters but the tab.
pub open spec fn is_header_text(text: Seq<char>) -> bool {
    forall|i: int| 0 <= i < text.len() ==> is_header_char(#[trigger] text[i])
}

/// Whether a character may stand in a header.
pub open spec fn is_header_char(c: char) -> bool {
    (c as u32 >= 32 && c as u32 != 127) || c as u32 == 9
}

/// Whether a text names a header: a few letters and hyphens.
pub open spec fn is_header_name(name: Seq<char>) -> bool {
    0 < name.len() <= 100 && forall|i: int|
        0 <= i < name.len() ==> {
            let c = #[trigger] name[i];
            ('a' <= c && c <= 'z') || ('A' <= c && c <= 'Z') || c == '-'
        }
}

/// The headers that ask for a websocket.
pub open spec fn websocket_headers() -> Map<Seq<char>, Seq<u8>> {
    Map::empty().insert("connection"@, encode_utf8("Upgrade"@)).insert(
        "upgrade"@,
        encode_utf8("websocket"@),
    ).insert("sec-websocket-version"@, encode_utf8("13"@))
}

/// The names of all headers that a websocket request has from the start.
pub open spec fn websocket_header_names() -> Set<Seq<char>> {
    set![
        "host"@,
        "connection"@,
        "upgrade"@,
        "sec-websocket-version"@,
        "sec-websocket-key"@,
    ]
}

/// Wraps `IntoClientRequest::into_client_request` for a string: a websocket request for an address
/// with five headers of its own and no others, when it accepts the address. Besides those that ask
/// for a websocket, one names the host and one is a random key; nothing is said of the values of
/// these two.
#[verifier::external_body]
fn client_request(address: &str) -> (request: Result<
    tokio_tungstenite::tungstenite::http::Request<()>,
    tokio_tungstenite::tungstenite::Error,
>)
    ensures
        match request {
            Ok(built) => client_address(address@) == Some(request_address(built)),
            Err(_) => client_address(address@) is None,
        },
        request matches Ok(built) ==> request_headers(built).dom() == websocket_header_names()
            && websocket_headers().submap_of(request_headers(built)),
{
    tokio_tungstenite::tungstenite::client::IntoClientRequest::into_client_request(address)
}

/// Wraps `HeaderValue::from_str` and `HeaderMap::insert`: sets a header when the text may stand in
/// one, and changes nothing otherwise.
#[verifier::external_body]
fn set_header(
    request: &mut tokio_tungstenite::tungstenite::http::Request<()>,
    name: &'static str,
    value: &str,
) -> (result: Result<(), tokio_tungstenite::tungstenite::http::header::InvalidHeaderValue>)
    requires
        is_header_name(name@),
        request_headers(*old(request)).dom().finite(),
        request_headers(*old(request)).dom().len() < 1000,
    ensures
        result is Ok <==> is_header_text(value@),
        request_address(*final(request)) == request_address(*old(request)),
        request_headers(*final(request)) == (if result is Ok {
            request_headers(*old(request)).insert(ascii_lowercase(name@), encode_utf8(value@))
        } else {
            request_headers(*old(request))
        }),
{
    let value = tokio_tungstenite::tungstenite::http::HeaderValue::from_str(value)?;
    request.headers_mut().insert(name, value);
    Ok(())
}

/// A request that opens an upstream connection.
#[derive(Debug)]
pub struct CodexHandshake {
    pub request: tokio_tungstenite::tungstenite::http::Request<()>,
    pub session: UpstreamSessionDescriptor,
    pub client_request_id: String,
}

/// Why a handshake cannot be built.
#[derive(Debug, Clone, Copy, PartialEq, Eq, Structural)]
pub enum HandshakeBuildError {
    RequestBuildFailed,
}

impl HandshakeBuildError {
    /// The description of the error.
    pub fn description(self) -> (text: &'static str)
        ensures
            text@ == "Threadline could not build the upstream websocket request."@,
    {
        "Threadline could not build the upstream websocket request."
    }
}

/// How the bridge names itself.
pub open spec fn user_agent_of(client_version: Seq<char>) -> Seq<char> {
    "codex_vscode/"@ + client_version + " Threadline/"@ + BRIDGE_VERSION@
}

/// The headers of a handshake.
pub open spec fn handshake_headers(
    bearer_token: Seq<char>,
    client_version: Seq<char>,
    installation_id: Seq<char>,
    session: Session,
    client_request_id: Seq<char>,
) -> Map<Seq<char>, Seq<u8>> {
    let headers = Map::empty().insert(
        ascii_lowercase("authorization"@),
        encode_utf8("Bearer "@ + bearer_token),
    ).insert(
        ascii_lowercase("OpenAI-Beta"@),
        encode_utf8(RESPONSES_WEBSOCKETS_BETA_HEADER@),
    ).insert(ascii_lowercase("originator"@), encode_utf8("codex_vscode"@)).insert(
        ascii_lowercase("user-agent"@),
        encode_utf8(user_agent_of(client_version)),
    ).insert(ascii_lowercase("version"@), encode_utf8(client_version)).insert(
        ascii_lowercase("x-codex-installation-id"@),
        encode_utf8(installation_id),
    ).insert(ascii_lowercase("session-id"@), encode_utf8(session.session_id)).insert(
        ascii_lowercase("thread-id"@),
        encode_utf8(session.thread_id),
    ).insert(ascii_lowercase("x-codex-window-id"@), encode_utf8(session.window_id)).insert(
        ascii_lowercase("x-client-request-id"@),
        encode_utf8(client_request_id),
    );
    match session.turn_state {
        Some(turn_state) => headers.insert(
            ascii_lowercase("x-codex-turn-state"@),
            encode_utf8(turn_state),
        ),
        None => headers,
    }
}

/// Whether the credentials and versions of a handshake may stand in headers.
pub open spec fn credential_texts_ok(
    bearer_token: Seq<char>,
    client_version: Seq<char>,
    installation_id: Seq<char>,
) -> bool {
    &&& is_header_text("Bearer "@ + bearer_token)
    &&& is_header_text(user_agent_of(client_version))
    &&& is_header_text(client_version)
    &&& is_header_text(installation_id)
}

/// Whether what a session puts into a handshake may stand in headers.
pub open spec fn session_texts_ok(session: Session) -> bool {
    &&& is_header_text(session.session_id)
    &&& is_header_text(session.thread_id)
    &&& is_header_text(session.window_id)
    &&& session.turn_state matches Some(turn_state) ==> is_header_text(turn_state)
}

/// A request has exactly the headers of a handshake for a session, on top of those that every
/// websocket request has. The state of a turn is sent exactly when the session has one.
pub open spec fn is_handshake_request(
    headers: Map<Seq<char>, Seq<u8>>,
    bearer_token: Seq<char>,
    client_version: Seq<char>,
    installation_id: Seq<char>,
    session: Session,
    client_request_id: Seq<char>,
) -> bool {
    let added = handshake_headers(
        bearer_token,
        client_version,
        installation_id,
        session,
        client_request_id,
    );
    &&& websocket_headers().submap_of(headers)
    &&& added.submap_of(headers)
    &&& headers.dom() == websocket_header_names().union(added.dom())
    &&& match session.turn_state {
        Some(turn_state) => headers.contains_key("x-codex-turn-state"@)
            && headers["x-codex-turn-state"@] == encode_utf8(turn_state),
        None => !headers.contains_key("x-codex-turn-state"@),
    }
}

/// `later` holds `added` on top of what `earlier` holds.
pub open spec fn extends_headers(
    earlier: Map<Seq<char>, Seq<u8>>,
    added: Map<Seq<char>, Seq<u8>>,
    later: Map<Seq<char>, Seq<u8>>,
) -> bool {
    later == earlier.union_prefer_right(added)
}

proof fn lemma_handshake_header_names()
    ensures
        is_header_name("authorization"@),
        is_header_name("OpenAI-Beta"@),
        is_header_name("originator"@),
        is_header_name("user-agent"@),
        is_header_name("version"@),
        is_header_name("x-codex-installation-id"@),
        is_header_name("session-id"@),
        is_header_name("thread-id"@),
        is_header_name("x-codex-window-id"@),
        is_header_name("x-client-request-id"@),
        is_header_name("x-codex-turn-state"@),
        is_header_text(RESPONSES_WEBSOCKETS_BETA_HEADER@),
        is_header_text("codex_vscode"@),
{
    reveal_strlit("authorization");
    assert("authorization"@ =~= seq![
        'a', 'u', 't', 'h', 'o', 'r', 'i', 'z', 'a', 't', 'i', 'o', 'n',
    ]);
    reveal_strlit("OpenAI-Beta");
    assert("OpenAI-Beta"@ =~= seq!['O', 'p', 'e', 'n', 'A', 'I', '-', 'B', 'e', 't', 'a']);
    reveal_strlit("originator");
    assert("originator"@ =~= seq!['o', 'r', 'i', 'g', 'i', 'n', 'a', 't', 'o', 'r']);
    reveal_strlit("user-agent");
    assert("user-agent"@ =~= seq!['u', 's', 'e', 'r', '-', 'a', 'g', 'e', 'n', 't']);
    reveal_strlit("version");
    assert("version"@ =~= seq!['v', 'e', 'r', 's', 'i', 'o', 'n']);
    reveal_strlit("x-codex-installation-id");
    assert("x-codex-installation-id"@ =~= seq![
        'x', '-', 'c', 'o', 'd', 'e', 'x', '-', 'i', 'n', 's', 't', 'a', 'l', 'l', 'a', 't', 'i',
        'o', 'n', '-', 'i', 'd',
    ]);
    reveal_strlit("session-id");
    assert("session-id"@ =~= seq!['s', 'e', 's', 's', 'i', 'o', 'n', '-', 'i', 'd']);
    reveal_strlit("thread-id");
    assert("thread-id"@ =~= seq!['t', 'h', 'r', 'e', 'a', 'd', '-', 'i', 'd']);
    reveal_strlit("x-codex-window-id");
    assert("x-codex-window-id"@ =~= seq![
        'x', '-', 'c', 'o', 'd', 'e', 'x', '-', 'w', 'i', 'n', 'd', 'o', 'w', '-', 'i', 'd',
    ]);
    reveal_strlit("x-client-request-id");
    assert("x-client-request-id"@ =~= seq![
        'x', '-', 'c', 'l', 'i', 'e', 'n', 't', '-', 'r', 'e', 'q', 'u', 'e', 's', 't', '-', 'i',
        'd',
    ]);
    reveal_strlit("x-codex-turn-state");
    assert("x-codex-turn-state"@ =~= seq![
        'x', '-', 'c', 'o', 'd', 'e', 'x', '-', 't', 'u', 'r', 'n', '-', 's', 't', 'a', 't', 'e',
    ]);
    reveal_strlit("codex_vscode");
    assert("codex_vscode"@ =~= seq!['c', 'o', 'd', 'e', 'x', '_', 'v', 's', 'c', 'o', 'd', 'e']);
    reveal_strlit("responses_websockets=2026-02-06");
    assert(RESPONSES_WEBSOCKETS_BETA_HEADER@ =~= seq![
        'r', 'e', 's', 'p', 'o', 'n', 's', 'e', 's', '_', 'w', 'e', 'b', 's', 'o', 'c', 'k', 'e',
        't', 's', '=', '2', '0', '2', '6', '-', '0', '2', '-', '0', '6',
    ]);
}

spec fn is_apart(name: Seq<char>) -> bool {
    !websocket_header_names().contains(ascii_lowercase(name))
}

spec fn length_and_start(text: Seq<char>) -> (nat, char) {
    (text.len(), text.first())
}

proof fn lemma_handshake_headers_apart()
    ensures
        is_apart("authorization"@),
        is_apart("OpenAI-Beta"@),
        is_apart("originator"@),
        is_apart("user-agent"@),
        is_apart("version"@),
        is_apart("x-codex-installation-id"@),
        is_apart("session-id"@),
        is_apart("thread-id"@),
        is_apart("x-codex-window-id"@),
        is_apart("x-client-request-id"@),
        is_apart("x-codex-turn-state"@),
        ascii_lowercase("authorization"@) != "x-codex-turn-state"@,
        ascii_lowercase("OpenAI-Beta"@) != "x-codex-turn-state"@,
        ascii_lowercase("originator"@) != "x-codex-turn-state"@,
        ascii_lowercase("user-agent"@) != "x-codex-turn-state"@,
        ascii_lowercase("version"@) != "x-codex-turn-state"@,
        ascii_lowercase("x-codex-installation-id"@) != "x-codex-turn-state"@,
        ascii_lowercase("session-id"@) != "x-codex-turn-state"@,
        ascii_lowercase("thread-id"@) != "x-codex-turn-state"@,
        ascii_lowercase("x-codex-window-id"@) != "x-codex-turn-state"@,
        ascii_lowercase("x-client-request-id"@) != "x-codex-turn-state"@,
        ascii_lowercase("x-codex-turn-state"@) == "x-codex-turn-state"@,
        !websocket_header_names().contains("x-codex-turn-state"@),
{
    reveal_strlit("host");
    assert(length_and_start("host"@) == (4nat, 'h'));
    reveal_strlit("sec-websocket-key");
    assert(length_and_start("sec-websocket-key"@) == (17nat, 's'));
    reveal_strlit("connection");
    assert(length_and_start("connection"@) == (10nat, 'c'));
    reveal_strlit("upgrade");
    assert(length_and_start("upgrade"@) == (7nat, 'u'));
    reveal_strlit("sec-websocket-version");
    assert(length_and_start("sec-websocket-version"@) == (21nat, 's'));
    reveal_strlit("authorization");
    assert(length_and_start(ascii_lowercase("authorization"@)) == (13nat, 'a'));
    reveal_strlit("OpenAI-Beta");
    assert(length_and_start(ascii_lowercase("OpenAI-Beta"@)) == (11nat, 'o'));
    reveal_strlit("originator");
    assert(length_and_start(ascii_lowercase("originator"@)) == (10nat, 'o'));
    reveal_strlit("user-agent");
    assert(length_and_start(ascii_lowercase("user-agent"@)) == (10nat, 'u'));
    reveal_strlit("version");
    assert(length_and_start(ascii_lowercase("version"@)) == (7nat, 'v'));
    reveal_strlit("x-codex-installation-id");
    assert(length_and_start(ascii_lowercase("x-codex-installation-id"@)) == (23nat, 'x'));
    reveal_strlit("session-id");
    assert(length_and_start(ascii_lowercase("session-id"@)) == (10nat, 's'));
    reveal_strlit("thread-id");
    assert(length_and_start(ascii_lowercase("thread-id"@)) == (9nat, 't'));
    reveal_strlit("x-codex-window-id");
    assert(length_and_start(ascii_lowercase("x-codex-window-id"@)) == (17nat, 'x'));
    reveal_strlit("x-client-request-id");
    assert(length_and_start(ascii_lowercase("x-client-request-id"@)) == (19nat, 'x'));
    reveal_strlit("x-codex-turn-state");
    assert(length_and_start(ascii_lowercase("x-codex-turn-state"@)) == (18nat, 'x'));
    assert("x-codex-turn-state"@ =~= seq![
        'x', '-', 'c', 'o', 'd', 'e', 'x', '-', 't', 'u', 'r', 'n', '-', 's', 't', 'a', 't', 'e',
    ]);
    assert(ascii_lowercase("x-codex-turn-state"@) =~= "x-codex-turn-state"@);
}

fn put_header(
    request: &mut tokio_tungstenite::tungstenite::http::Request<()>,
    name: &'static str,
    value: &str,
    Ghost(initial): Ghost<Map<Seq<char>, Seq<u8>>>,
    Ghost(added): Ghost<Map<Seq<char>, Seq<u8>>>,
) -> (done: bool)
    requires
        is_header_name(name@),
        extends_headers(initial, added, request_headers(*old(request))),
        request_headers(*old(request)).dom().finite(),
        request_headers(*old(request)).dom().len() < 100,
    ensures
        done == is_header_text(value@),
        request_address(*final(request)) == request_address(*old(request)),
        done ==> extends_headers(
            initial,
            added.insert(ascii_lowercase(name@), encode_utf8(value@)),
            request_headers(*final(request)),
        ),
        done ==> request_headers(*final(request)).dom().finite(),
        done ==> request_headers(*final(request)).dom().len() <= request_headers(
            *old(request),
        ).dom().len() + 1,
{
    let ghost before = request_headers(*request);
    match set_header(request, name, value) {
        Ok(_) => {
            proof {
                let key = ascii_lowercase(name@);
                let bytes = encode_utf8(value@);
                assert(before.insert(key, bytes) =~= initial.union_prefer_right(
                    added.insert(key, bytes),
                ));
                assert(before.insert(key, bytes).dom() =~= before.dom().insert(key));
            }
            true
        },
        Err(_) => false,
    }
}

/// The handshake for a session, with the given id for the request. It fails exactly when the
/// address is not accepted or one of the texts may not stand in a header.
pub fn build_handshake_request_with_ids(
    url: &str,
    auth: &LoadedUpstreamAuth,
    codex_client_version: &str,
    installation_id: &str,
    session: UpstreamSessionDescriptor,
    client_request_id: String,
) -> (handshake: Result<CodexHandshake, HandshakeBuildError>)
    ensures
        handshake is Ok <==> client_address(url@) is Some && credential_texts_ok(
            auth.bearer_token@,
            codex_client_version@,
            installation_id@,
        ) && session_texts_ok(session@) && is_header_text(client_request_id@),
        handshake matches Ok(built) ==> {
            &&& built.session@ == session@
            &&& built.client_request_id@ == client_request_id@
            &&& client_address(url@) == Some(request_address(built.request))
            &&& is_handshake_request(
                request_headers(built.request),
                auth.bearer_token@,
                codex_client_version@,
                installation_id@,
                session@,
                client_request_id@,
            )
        },
{
    let mut request = match client_request(url) {
        Ok(request) => request,
        Err(_) => return Err(HandshakeBuildError::RequestBuildFailed),
    };
    proof {
        lemma_handshake_header_names();
        lemma_handshake_headers_apart();
    }
    let mut user_agent = joined("codex_vscode/", codex_client_version);
    user_agent.append(" Threadline/");
    user_agent.append(BRIDGE_VERSION);
    let bearer = joined("Bearer ", auth.bearer_token.as_str());
    let ghost initial = request_headers(request);
    let ghost mut added = Map::<Seq<char>, Seq<u8>>::empty();
    assert(initial.union_prefer_right(added) =~= initial);
    if !put_header(&mut request, "authorization", bearer.as_str(), Ghost(initial), Ghost(added)) {
        return Err(HandshakeBuildError::RequestBuildFailed);
    }
    proof {
        added = added.insert(ascii_lowercase("authorization"@), encode_utf8(bearer@));
    }
    if !put_header(
        &mut request,
        "OpenAI-Beta",
        RESPONSES_WEBSOCKETS_BETA_HEADER,
        Ghost(initial),
        Ghost(added),
    ) {
        return Err(HandshakeBuildError::RequestBuildFailed);
    }
    proof {
        added = added.insert(
            ascii_lowercase("OpenAI-Beta"@),
            encode_utf8(RESPONSES_WEBSOCKETS_BETA_HEADER@),
        );
    }
    if !put_header(&mut request, "originator", "codex_vscode", Ghost(initial), Ghost(added)) {
        return Err(HandshakeBuildError::RequestBuildFailed);
    }
    proof {
        added = added.insert(ascii_lowercase("originator"@), encode_utf8("codex_vscode"@));
    }
    if !put_header(&mut request, "user-agent", user_agent.as_str(), Ghost(initial), Ghost(added)) {
        return Err(HandshakeBuildError::RequestBuildFailed);
    }
    proof {
        added = added.insert(ascii_lowercase("user-agent"@), encode_utf8(user_agent@));
    }
    if !put_header(&mut request, "version", codex_client_version, Ghost(initial), Ghost(added)) {
        return Err(HandshakeBuildError::RequestBuildFailed);
    }
    proof {
        added = added.insert(ascii_lowercase("version"@), encode_utf8(codex_client_version@));
    }
    if !put_header(
        &mut request,
        "x-codex-installation-id",
        installation_id,
        Ghost(initial),
        Ghost(added),
    ) {
        return Err(HandshakeBuildError::RequestBuildFailed);
    }
    proof {
        added = added.insert(
            ascii_lowercase("x-codex-installation-id"@),
            encode_utf8(installation_id@),
        );
    }
    if !put_header(
        &mut request,
        "session-id",
        session.session_id.as_str(),
        Ghost(initial),
        Ghost(added),
    ) {
        return Err(HandshakeBuildError::RequestBuildFailed);
    }
    proof {
        added = added.insert(ascii_lowercase("session-id"@), encode_utf8(session.session_id@));
    }
    if !put_header(
        &mut request,
        "thread-id",
        session.thread_id.as_str(),
        Ghost(initial),
        Ghost(added),
    ) {
        return Err(HandshakeBuildError::RequestBuildFailed);
    }
    proof {
        added = added.insert(ascii_lowercase("thread-id"@), encode_utf8(session.thread_id@));
    }
    if !put_header(
        &mut request,
        "x-codex-window-id",
        session.window_id.as_str(),
        Ghost(initial),
        Ghost(added),
    ) {
        return Err(HandshakeBuildError::RequestBuildFailed);
    }
    proof {
        added = added.insert(
            ascii_lowercase("x-codex-window-id"@),
            encode_utf8(session.window_id@),
        );
    }
    if !put_header(
        &mut request,
        "x-client-request-id",
        client_request_id.as_str(),
        Ghost(initial),
        Ghost(added),
    ) {
        return Err(HandshakeBuildError::RequestBuildFailed);
    }
    proof {
        added = added.insert(
            ascii_lowercase("x-client-request-id"@),
            encode_utf8(client_request_id@),
        );
    }
    if let Some(turn_state) = &session.turn_state {
        if !put_header(
            &mut request,
            "x-codex-turn-state",
            turn_state.as_str(),
            Ghost(initial),
            Ghost(added),
        ) {
            return Err(HandshakeBuildError::RequestBuildFailed);
        }
        proof {
            added = added.insert(ascii_lowercase("x-codex-turn-state"@), encode_utf8(turn_state@));
        }
    }
    proof {
        assert(added == handshake_headers(
            auth.bearer_token@,
            codex_client_version@,
            installation_id@,
            session@,
            client_request_id@,
        ));
        let headers = request_headers(request);
        assert(headers.dom() =~= websocket_header_names().union(added.dom()));
        assert(added.submap_of(headers));
        assert forall|key: Seq<char>| #[trigger]
            websocket_header_names().contains(key) implies !added.contains_key(key) by {}
        assert(websocket_headers().dom().subset_of(websocket_header_names()));
        assert(websocket_headers().submap_of(headers));
        if session@.turn_state is None {
            assert(!added.contains_key("x-codex-turn-state"@));
        }
    }
    Ok(CodexHandshake { request, session, client_request_id })
}

proof fn lemma_new_session_texts(replacement: Seq<char>, session_id: Seq<char>)
    requires
        is_uuid_text(replacement),
        is_uuid_text(session_id),
    ensures
        is_header_text(new_session(None, replacement, session_id).session_id),
        is_header_text(new_session(None, replacement, session_id).thread_id),
        is_header_text(new_session(None, replacement, session_id).window_id),
{
    reveal_strlit(":");
    assert(":"@ =~= seq![':']);
    assert(decimal_text(0) =~= seq!['0']);
    let window = window_id_of(replacement, 0);
    assert(window =~= replacement + seq![':', '0']);
}

/// The handshake for a session, or for a new one. The request gets a new id of its own.
pub fn build_handshake_request(
    url: &str,
    auth: &LoadedUpstreamAuth,
    codex_client_version: &str,
    installation_id: &str,
    session: Option<UpstreamSessionDescriptor>,
) -> (handshake: Result<CodexHandshake, HandshakeBuildError>)
    ensures
        handshake is Ok <==> client_address(url@) is Some && credential_texts_ok(
            auth.bearer_token@,
            codex_client_version@,
            installation_id@,
        ) && (session matches Some(given) ==> session_texts_ok(given@)),
        handshake matches Ok(built) ==> {
            &&& is_uuid_text(built.client_request_id@)
            &&& client_address(url@) == Some(request_address(built.request))
            &&& is_handshake_request(
                request_headers(built.request),
                auth.bearer_token@,
                codex_client_version@,
                installation_id@,
                built.session@,
                built.client_request_id@,
            )
            &&& match session {
                Some(given) => built.session@ == given@,
                None => exists|replacement: Seq<char>, session_id: Seq<char>|
                    is_uuid_text(replacement) && is_uuid_text(session_id) && built.session@
                        == #[trigger] new_session(None, replacement, session_id),
            }
        },
{
    let descriptor = match session {
        Some(given) => given,
        None => {
            let created = UpstreamSessionDescriptor::new(None);
            proof {
                let (replacement, session_id) = choose|
                    replacement: Seq<char>,
                    session_id: Seq<char>,
                |
                    is_uuid_text(replacement) && is_uuid_text(session_id) && created@
                        == #[trigger] new_session(None, replacement, session_id);
                lemma_new_session_texts(replacement, session_id);
            }
            created
        },
    };
    let client_request_id = new_request_id();
    build_handshake_request_with_ids(
        url,
        auth,
        codex_client_version,
        installation_id,
        descriptor,
        client_request_id,
    )
}

proof fn lemma_header_names()
    ensures
        ascii_lowercase("authorization"@) == "authorization"@,
        ascii_lowercase("OpenAI-Beta"@) == "openai-beta"@,
        ascii_lowercase("originator"@) == "originator"@,
        ascii_lowercase("user-agent"@) == "user-agent"@,
        ascii_lowercase("version"@) == "version"@,
        ascii_lowercase("x-codex-installation-id"@) == "x-codex-installation-id"@,
        ascii_lowercase("session-id"@) == "session-id"@,
        ascii_lowercase("thread-id"@) == "thread-id"@,
        ascii_lowercase("x-codex-window-id"@) == "x-codex-window-id"@,
        ascii_lowercase("x-client-request-id"@) == "x-client-request-id"@,
        ascii_lowercase("x-codex-turn-state"@) == "x-codex-turn-state"@,
{
    reveal_strlit("authorization");
    reveal_strlit("OpenAI-Beta");
    reveal_strlit("originator");
    reveal_strlit("user-agent");
    reveal_strlit("version");
    reveal_strlit("x-codex-installation-id");
    reveal_strlit("session-id");
    reveal_strlit("thread-id");
    reveal_strlit("x-codex-window-id");
    reveal_strlit("x-client-request-id");
    reveal_strlit("x-codex-turn-state");
    reveal_strlit("openai-beta");
    assert(ascii_lowercase("authorization"@) =~= "authorization"@);
    assert(ascii_lowercase("OpenAI-Beta"@) =~= "openai-beta"@);
    assert(ascii_lowercase("originator"@) =~= "originator"@);
    assert(ascii_lowercase("user-agent"@) =~= "user-agent"@);
    assert(ascii_lowercase("version"@) =~= "version"@);
    assert(ascii_lowercase("x-codex-installation-id"@) =~= "x-codex-installation-id"@);
    assert(ascii_lowercase("session-id"@) =~= "session-id"@);
    assert(ascii_lowercase("thread-id"@) =~= "thread-id"@);
    assert(ascii_lowercase("x-codex-window-id"@) =~= "x-codex-window-id"@);
    assert(ascii_lowercase("x-client-request-id"@) =~= "x-client-request-id"@);
    assert(ascii_lowercase("x-codex-turn-state"@) =~= "x-codex-turn-state"@);
}

/// The request that opens a connection to the upstream says who asks and for which session: the
/// token, the client and its version, the installation, the session with its thread and window, and
/// the request itself, each in its own header. The state of a turn is sent exactly where the session
/// has one.
pub proof fn law_handshakes_name_the_session(
    headers: Map<Seq<char>, Seq<u8>>,
    bearer_token: Seq<char>,
    client_version: Seq<char>,
    installation_id: Seq<char>,
    session: Session,
    client_request_id: Seq<char>,
)
    requires
        is_handshake_request(
            headers,
            bearer_token,
            client_version,
            installation_id,
            session,
            client_request_id,
        ),
    ensures
        sends(headers, "authorization"@, "Bearer "@ + bearer_token),
        sends(headers, "openai-beta"@, "responses_websockets=2026-02-06"@),
        sends(headers, "originator"@, "codex_vscode"@),
        sends(
            headers,
            "user-agent"@,
            "codex_vscode/"@ + client_version + " Threadline/"@ + BRIDGE_VERSION@,
        ),
        sends(headers, "version"@, client_version),
        sends(headers, "x-codex-installation-id"@, installation_id),
        sends(headers, "session-id"@, session.session_id),
        sends(headers, "thread-id"@, session.thread_id),
        sends(headers, "x-codex-window-id"@, session.window_id),
        sends(headers, "x-client-request-id"@, client_request_id),
        match session.turn_state {
            Some(turn_state) => sends(headers, "x-codex-turn-state"@, turn_state),
            None => !headers.contains_key("x-codex-turn-state"@),
        },
        headers.contains_key("sec-websocket-key"@),
        headers.contains_key("host"@),
{
    lemma_header_names();
    reveal_strlit("authorization");
    reveal_strlit("openai-beta");
    reveal_strlit("originator");
    reveal_strlit("user-agent");
    reveal_strlit("version");
    reveal_strlit("x-codex-installation-id");
    reveal_strlit("session-id");
    reveal_strlit("thread-id");
    reveal_strlit("x-codex-window-id");
    reveal_strlit("x-client-request-id");
    reveal_strlit("x-codex-turn-state");
    assert("authorization"@.len() == 13 && "authorization"@[0] == 'a' && "authorization"@[2] == 't' && "authorization"@[4] == 'o');
    assert("openai-beta"@.len() == 11 && "openai-beta"@[0] == 'o' && "openai-beta"@[2] == 'e' && "openai-beta"@[4] == 'a');
    assert("originator"@.len() == 10 && "originator"@[0] == 'o' && "originator"@[2] == 'i' && "originator"@[4] == 'i');
    assert("user-agent"@.len() == 10 && "user-agent"@[0] == 'u' && "user-agent"@[2] == 'e' && "user-agent"@[4] == '-');
    assert("version"@.len() == 7 && "version"@[0] == 'v' && "version"@[2] == 'r' && "version"@[4] == 'i');
    assert("x-codex-installation-id"@.len() == 23 && "x-codex-installation-id"@[0] == 'x' && "x-codex-installation-id"@[2] == 'c' && "x-codex-installation-id"@[4] == 'd');
    assert("session-id"@.len() == 10 && "session-id"@[0] == 's' && "session-id"@[2] == 's' && "session-id"@[4] == 'i');
    assert("thread-id"@.len() == 9 && "thread-id"@[0] == 't' && "thread-id"@[2] == 'r' && "thread-id"@[4] == 'a');
    assert("x-codex-window-id"@.len() == 17 && "x-codex-window-id"@[0] == 'x' && "x-codex-window-id"@[2] == 'c' && "x-codex-window-id"@[4] == 'd');
    assert("x-client-request-id"@.len() == 19 && "x-client-request-id"@[0] == 'x' && "x-client-request-id"@[2] == 'c' && "x-client-request-id"@[4] == 'i');
    assert("x-codex-turn-state"@.len() == 18 && "x-codex-turn-state"@[0] == 'x' && "x-codex-turn-state"@[2] == 'c' && "x-codex-turn-state"@[4] == 'd');
    let added = handshake_headers(
        bearer_token,
        client_version,
        installation_id,
        session,
        client_request_id,
    );
    lemma_sent(headers, added, "authorization"@);
    lemma_sent(headers, added, "openai-beta"@);
    lemma_sent(headers, added, "originator"@);
    lemma_sent(headers, added, "user-agent"@);
    lemma_sent(headers, added, "version"@);
    lemma_sent(headers, added, "x-codex-installation-id"@);
    lemma_sent(headers, added, "session-id"@);
    lemma_sent(headers, added, "thread-id"@);
    lemma_sent(headers, added, "x-codex-window-id"@);
    lemma_sent(headers, added, "x-client-request-id"@);
    assert(headers.dom().contains("sec-websocket-key"@));
    assert(headers.dom().contains("host"@));
}

proof fn lemma_sent(
    headers: Map<Seq<char>, Seq<u8>>,
    added: Map<Seq<char>, Seq<u8>>,
    name: Seq<char>,
)
    requires
        added.submap_of(headers),
        added.contains_key(name),
    ensures
        headers.contains_key(name),
        headers[name] == added[name],
{
    assert(added.dom().contains(name));
    assert(headers.dom().contains(name));
}

/// Whether headers hold a text under a name.
pub open spec fn sends(headers: Map<Seq<char>, Seq<u8>>, name: Seq<char>, text: Seq<char>) -> bool {
    headers.contains_key(name) && headers[name] == encode_utf8(text)
}

/// A request that is sent in a session says so in its metadata, beside what the client put there. All
/// else in the request stays.
pub proof fn law_session_metadata_is_added(
    members: Map<Seq<char>, Json>,
    session: Session,
    installation_id: Seq<char>,
    key: Seq<char>,
)
    ensures
        key != "client_metadata"@ ==> member(
            with_session_metadata(members, session, installation_id),
            key,
        ) == member(members, key),
        member(
            with_session_metadata(members, session, installation_id),
            "client_metadata"@,
        ) matches Some(Json::Object(metadata)) && {
            &&& member(metadata, "x-codex-installation-id"@) == Some(Json::Str(installation_id))
            &&& member(metadata, "session_id"@) == Some(Json::Str(session.session_id))
            &&& member(metadata, "thread_id"@) == Some(Json::Str(session.thread_id))
            &&& member(metadata, "x-codex-window-id"@) == Some(Json::Str(session.window_id))
            &&& member(members, "client_metadata"@) matches Some(Json::Object(given)) ==> (key
                != "x-codex-installation-id"@ && key != "session_id"@ && key != "thread_id"@ && key
                != "x-codex-window-id"@ ==> member(metadata, key) == member(given, key))
        },
{
    reveal_strlit("x-codex-installation-id");
    reveal_strlit("session_id");
    reveal_strlit("thread_id");
    reveal_strlit("x-codex-window-id");
    assert("x-codex-installation-id"@.len() == 23 && "session_id"@.len() == 10);
    assert("thread_id"@.len() == 9 && "x-codex-window-id"@.len() == 17);
}

/// A new session belongs to the thread that was given for it, or to a new one where none was; it is
/// in the first window of that thread, and no turn has left a state yet.
pub proof fn law_new_sessions_begin_their_thread(
    thread_id: Option<Seq<char>>,
    replacement: Seq<char>,
    session_id: Seq<char>,
)
    ensures
        ({
            let session = new_session(thread_id, replacement, session_id);
            &&& session.session_id == session_id
            &&& session.turn_state is None
            &&& session.window_id == session.thread_id + ":0"@
            &&& match thread_id {
                Some(given) => session.thread_id == if is_blank(given) {
                    replacement
                } else {
                    given
                },
                None => session.thread_id == replacement,
            }
        }),
{
    let session = new_session(thread_id, replacement, session_id);
    reveal_strlit(":");
    reveal_strlit(":0");
    assert(decimal_text(0) =~= seq!['0']);
    assert(session.window_id =~= session.thread_id + ":0"@);
}

} // verus!

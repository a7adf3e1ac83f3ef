//! Where the credentials for the upstream come from.

use crate::text::{
    copy_text, is_blank, joined, law_trimming_is_idempotent, optional_text, push_char, trim_text,
    trimmed,
};
use vstd::prelude::*;
use vstd::utf8::encode_utf8;

verus! {

/// The service under which the keyring holds the credentials.
pub const CODEX_KEYRING_SERVICE: &'static str = "Codex Auth";

/// The directories in which credentials are looked for.
#[derive(Debug, Clone, PartialEq, Eq)]
pub struct AuthDiscoveryOptions {
    pub chatgpt_local_home: Option<String>,
    pub codex_home: Option<String>,
    pub user_home: Option<String>,
}

/// Where credentials were found.
#[derive(Debug, Clone, Copy, PartialEq, Eq, Structural)]
pub enum AuthSource {
    CodexKeyring,
    ChatgptLocalAuth,
    CodexHomeAuth,
}

/// Whether the credentials can be refreshed.
#[derive(Debug, Clone, Copy, PartialEq, Eq, Structural)]
pub enum RefreshBoundary {
    NotAvailable,
    RefreshTokenPresent,
}

/// Credentials for the upstream.
#[derive(Clone, PartialEq, Eq)]
pub struct LoadedUpstreamAuth {
    pub bearer_token: String,
    pub source: AuthSource,
    pub refresh_boundary: RefreshBoundary,
}

/// The name of a source.
pub open spec fn source_name(source: AuthSource) -> Seq<char> {
    match source {
        AuthSource::CodexKeyring => "CodexKeyring"@,
        AuthSource::ChatgptLocalAuth => "ChatgptLocalAuth"@,
        AuthSource::CodexHomeAuth => "CodexHomeAuth"@,
    }
}

/// The name of a refresh boundary.
pub open spec fn boundary_name(boundary: RefreshBoundary) -> Seq<char> {
    match boundary {
        RefreshBoundary::NotAvailable => "NotAvailable"@,
        RefreshBoundary::RefreshTokenPresent => "RefreshTokenPresent"@,
    }
}

/// What diagnostics may show of credentials from a source: everything but the token.
pub open spec fn redacted_text(source: AuthSource, boundary: RefreshBoundary) -> Seq<char> {
    "LoadedUpstreamAuth { bearer_token: \"[redacted]\", source: "@ + source_name(source)
        + ", refresh_boundary: "@ + boundary_name(boundary) + " }"@
}

impl LoadedUpstreamAuth {
    /// The credentials for diagnostics, with the token left out.
    pub fn debug_text(&self) -> (text: String)
        ensures
            text@ == redacted_text(self.source, self.refresh_boundary),
    {
        let source = match self.source {
            AuthSource::CodexKeyring => "CodexKeyring",
            AuthSource::ChatgptLocalAuth => "ChatgptLocalAuth",
            AuthSource::CodexHomeAuth => "CodexHomeAuth",
        };
        let boundary = match self.refresh_boundary {
            RefreshBoundary::NotAvailable => "NotAvailable",
            RefreshBoundary::RefreshTokenPresent => "RefreshTokenPresent",
        };
        let mut text = joined("LoadedUpstreamAuth { bearer_token: \"[redacted]\", source: ", source);
        text.append(", refresh_boundary: ");
        text.append(boundary);
        text.append(" }");
        text
    }
}

/// What went wrong with the keyring.
#[derive(Debug, Clone, Copy, PartialEq, Eq, Structural)]
pub enum CredentialStoreErrorKind {
    ServiceUnavailable,
    MalformedPayload,
}

/// A failure of the keyring.
#[derive(Debug, Clone, PartialEq, Eq)]
pub struct CredentialStoreError {
    pub kind: CredentialStoreErrorKind,
    pub message: String,
}

/// Why no credentials were loaded.
#[derive(Debug, Clone, PartialEq, Eq)]
pub enum AuthLoadError {
    MissingCredentials,
    CredentialFileUnreadable { path: String },
    CredentialFileMissingToken { path: String },
    CredentialFileMalformed { path: String },
}

/// The description of an error.
pub open spec fn auth_error_description(error: AuthLoadError) -> Seq<char> {
    match error {
        AuthLoadError::MissingCredentials =>
            "Threadline could not find upstream credentials in any supported auth.json location."@,
        AuthLoadError::CredentialFileUnreadable { path } =>
            "Threadline could not read upstream credentials from "@ + path@ + "."@,
        AuthLoadError::CredentialFileMissingToken { path } =>
            "Threadline found an auth.json file at "@ + path@
                + ", but it did not contain a usable upstream token."@,
        AuthLoadError::CredentialFileMalformed { path } => "Threadline could not parse auth.json at "@
            + path@ + "."@,
    }
}

impl AuthLoadError {
    /// The description of the error.
    pub fn description(&self) -> (text: String)
        ensures
            text@ == auth_error_description(*self),
    {
        let (mut text, ending) = match self {
            AuthLoadError::MissingCredentials => (
                "Threadline could not find upstream credentials in any supported auth.json location.".to_owned(),
                "",
            ),
            AuthLoadError::CredentialFileUnreadable { path } => (
                joined("Threadline could not read upstream credentials from ", path.as_str()),
                ".",
            ),
            AuthLoadError::CredentialFileMissingToken { path } => (
                joined("Threadline found an auth.json file at ", path.as_str()),
                ", but it did not contain a usable upstream token.",
            ),
            AuthLoadError::CredentialFileMalformed { path } => (
                joined("Threadline could not parse auth.json at ", path.as_str()),
                ".",
            ),
        };
        text.append(ending);
        proof {
            reveal_strlit("");
            assert(*self is MissingCredentials ==> text@ =~= auth_error_description(*self));
        }
        text
    }
}

/// The tokens in a credential file.
#[derive(Debug, Clone)]
pub struct StoredTokens {
    pub access_token: Option<String>,
    pub refresh_token: Option<String>,
}

/// A credential file.
#[derive(Debug, Clone)]
pub struct StoredAuthFile {
    pub openai_api_key: Option<String>,
    pub tokens: Option<StoredTokens>,
}

/// A text that counts: trimmed, and not blank.
pub open spec fn usable_text(text: Option<String>) -> Option<Seq<char>> {
    match text {
        Some(value) if !is_blank(value@) => Some(trimmed(value@)),
        _ => None,
    }
}

/// The token of a credential file. The access token goes before the key.
pub open spec fn usable_token(file: StoredAuthFile) -> Option<Seq<char>> {
    let access_token = match file.tokens {
        Some(tokens) => usable_text(tokens.access_token),
        None => None,
    };
    match access_token {
        Some(token) => Some(token),
        None => usable_text(file.openai_api_key),
    }
}

/// Whether a credential file can be refreshed.
pub open spec fn refresh_boundary_of(file: StoredAuthFile) -> RefreshBoundary {
    if file.tokens matches Some(tokens) && usable_text(tokens.refresh_token) is Some {
        RefreshBoundary::RefreshTokenPresent
    } else {
        RefreshBoundary::NotAvailable
    }
}

/// `auth` are the credentials of a file from a source.
pub open spec fn is_auth_of(
    auth: LoadedUpstreamAuth,
    file: StoredAuthFile,
    source: AuthSource,
) -> bool {
    &&& usable_token(file) == Some(auth.bearer_token@)
    &&& auth.source == source
    &&& auth.refresh_boundary == refresh_boundary_of(file)
}

fn non_empty(value: &Option<String>) -> (usable: Option<String>)
    ensures
        optional_text(usable) == usable_text(*value),
{
    match value {
        Some(text) => {
            let trimmed_text = trim_text(text.as_str());
            if trimmed_text.is_empty() {
                None
            } else {
                Some(trimmed_text.to_owned())
            }
        },
        None => None,
    }
}

/// The credentials of a file, when it has a usable token.
pub fn auth_from_file(file: &StoredAuthFile, source: AuthSource) -> (auth: Option<
    LoadedUpstreamAuth,
>)
    ensures
        auth is Some <==> usable_token(*file) is Some,
        auth matches Some(loaded) ==> is_auth_of(loaded, *file, source),
{
    let access_token = match &file.tokens {
        Some(tokens) => non_empty(&tokens.access_token),
        None => None,
    };
    let bearer_token = match access_token {
        Some(token) => token,
        None => match non_empty(&file.openai_api_key) {
            Some(token) => token,
            None => return None,
        },
    };
    let refresh_token = match &file.tokens {
        Some(tokens) => non_empty(&tokens.refresh_token),
        None => None,
    };
    let refresh_boundary = if refresh_token.is_some() {
        RefreshBoundary::RefreshTokenPresent
    } else {
        RefreshBoundary::NotAvailable
    };
    Some(LoadedUpstreamAuth { bearer_token, source, refresh_boundary })
}

/// The SHA-256 digest of a byte string.
pub uninterp spec fn sha256_digest(bytes: Seq<u8>) -> Seq<u8>;

/// Wraps `sha2::Sha256`'s `digest`: the digest of the bytes, which is 32 bytes long.
#[verifier::external_body]
fn sha256(bytes: &[u8]) -> (digest: Vec<u8>)
    ensures
        digest@ == sha256_digest(bytes@),
        digest@.len() == 32,
{
    <sha2::Sha256 as sha2::Digest>::digest(bytes).to_vec()
}

/// The hexadecimal digit for a number below sixteen.
pub open spec fn hex_digit(value: nat) -> char {
    if value < 10 {
        ('0' as nat + value) as char
    } else {
        ('a' as nat + value - 10) as char
    }
}

/// The hexadecimal digits of a byte string.
pub open spec fn hex_text(bytes: Seq<u8>) -> Seq<char>
    decreases bytes.len(),
{
    if bytes.len() == 0 {
        Seq::empty()
    } else {
        hex_text(bytes.drop_last()).push(hex_digit((bytes.last() / 16) as nat)).push(
            hex_digit((bytes.last() % 16) as nat),
        )
    }
}

fn hex_char(value: u8) -> (digit: char)
    requires
        value < 16,
    ensures
        digit == hex_digit(value as nat),
{
    if value < 10 {
        (48u8 + value) as char
    } else {
        (87u8 + value) as char
    }
}

/// The keyring account for a digest: its first eight bytes, in hexadecimal.
pub open spec fn digest_key(digest: Seq<u8>) -> Seq<char> {
    "cli|"@ + hex_text(digest.take(8))
}

/// The account under which the keyring holds the credentials for a home directory.
pub open spec fn store_key_of(codex_home: Seq<char>) -> Seq<char> {
    digest_key(sha256_digest(encode_utf8(codex_home)))
}

/// The keyring account for a digest.
pub fn store_key_for_digest(digest: &Vec<u8>) -> (key: String)
    requires
        digest@.len() >= 8,
    ensures
        key@ == digest_key(digest@),
{
    let mut key = "cli|".to_owned();
    let ghost head = digest@.take(8);
    let mut i: usize = 0;
    assert(key@ =~= "cli|"@ + hex_text(head.take(0)));
    while i < 8
        invariant
            i <= 8,
            digest@.len() >= 8,
            head == digest@.take(8),
            key@ == "cli|"@ + hex_text(head.take(i as int)),
        decreases 8 - i,
    {
        let byte = digest[i];
        push_char(&mut key, hex_char(byte / 16));
        push_char(&mut key, hex_char(byte % 16));
        proof {
            let longer = head.take(i + 1);
            assert(longer.drop_last() =~= head.take(i as int));
            assert(longer.last() == byte);
            assert(key@ =~= "cli|"@ + hex_text(longer));
        }
        i += 1;
    }
    assert(head.take(8) =~= head);
    key
}

/// The keyring account for a home directory.
pub fn compute_codex_store_key(codex_home: &str) -> (key: String)
    ensures
        key@ == store_key_of(codex_home@),
{
    store_key_for_digest(&sha256(codex_home.as_bytes()))
}

/// The keyring service and account for a home directory.
pub fn codex_keyring_service_and_account(codex_home: &str) -> (entry: (String, String))
    ensures
        entry.0@ == CODEX_KEYRING_SERVICE@,
        entry.1@ == store_key_of(codex_home@),
{
    (CODEX_KEYRING_SERVICE.to_owned(), compute_codex_store_key(codex_home))
}

/// What a place that may hold credentials holds, once it was read.
#[derive(Debug, Clone)]
pub enum StoredAuth {
    Malformed,
    Parsed(StoredAuthFile),
}

/// What the keyring answered: a failure, no entry, or a payload.
#[derive(Debug, Clone)]
pub enum KeyringReply {
    Failed(CredentialStoreError),
    NoEntry,
    Found(StoredAuth),
}

/// The file that a keyring answer holds, when it holds a usable token.
pub open spec fn keyring_file(reply: KeyringReply) -> Option<StoredAuthFile> {
    match reply {
        KeyringReply::Found(StoredAuth::Parsed(file)) if usable_token(file) is Some => Some(file),
        _ => None,
    }
}

/// The credentials that the keyring answered with. A payload that holds none is an error, and the
/// message of the error says nothing of the payload.
pub fn load_codex_keyring_auth(reply: KeyringReply) -> (auth: Result<
    Option<LoadedUpstreamAuth>,
    CredentialStoreError,
>)
    ensures
        match reply {
            KeyringReply::Failed(error) => auth == Err::<Option<LoadedUpstreamAuth>, _>(error),
            KeyringReply::NoEntry => auth == Ok::<_, CredentialStoreError>(
                None::<LoadedUpstreamAuth>,
            ),
            KeyringReply::Found(StoredAuth::Malformed) => auth matches Err(error) && error.kind
                == CredentialStoreErrorKind::MalformedPayload && error.message@
                == "Codex keyring payload could not be parsed."@,
            KeyringReply::Found(StoredAuth::Parsed(file)) => if usable_token(file) is Some {
                auth matches Ok(Some(loaded)) && is_auth_of(loaded, file, AuthSource::CodexKeyring)
            } else {
                auth matches Err(error) && error.kind == CredentialStoreErrorKind::MalformedPayload
                    && error.message@
                    == "Codex keyring payload did not contain a usable upstream token."@
            },
        },
{
    let message = match reply {
        KeyringReply::Failed(error) => return Err(error),
        KeyringReply::NoEntry => return Ok(None),
        KeyringReply::Found(StoredAuth::Malformed) => "Codex keyring payload could not be parsed.",
        KeyringReply::Found(StoredAuth::Parsed(file)) => {
            match auth_from_file(&file, AuthSource::CodexKeyring) {
                Some(auth) => return Ok(Some(auth)),
                None => "Codex keyring payload did not contain a usable upstream token.",
            }
        },
    };
    Err(
        CredentialStoreError {
            kind: CredentialStoreErrorKind::MalformedPayload,
            message: message.to_owned(),
        },
    )
}

/// A directory that may hold a credential file: a home directory, or one below it.
#[derive(Debug, Clone, PartialEq, Eq)]
pub struct AuthRoot {
    pub source: AuthSource,
    pub home: String,
    pub directory: Option<String>,
}

/// The contents of an [`AuthRoot`].
#[verifier::ext_equal]
pub struct Root {
    pub source: AuthSource,
    pub home: Seq<char>,
    pub directory: Option<Seq<char>>,
}

impl View for AuthRoot {
    type V = Root;

    open spec fn view(&self) -> Root {
        Root { source: self.source, home: self.home@, directory: optional_text(self.directory) }
    }
}

/// A directory that was given and is not empty.
pub open spec fn given_path(path: Option<String>) -> Option<Seq<char>> {
    match path {
        Some(text) if text@.len() > 0 => Some(text@),
        _ => None,
    }
}

/// The directories to look into, first to last.
pub open spec fn search_roots(options: AuthDiscoveryOptions) -> Seq<Root> {
    let own = match given_path(options.chatgpt_local_home) {
        Some(home) => seq![Root { source: AuthSource::ChatgptLocalAuth, home, directory: None }],
        None => seq![],
    };
    let codex = match given_path(options.codex_home) {
        Some(home) => seq![Root { source: AuthSource::CodexHomeAuth, home, directory: None }],
        None => seq![],
    };
    let user = match given_path(options.user_home) {
        Some(home) => seq![
            Root {
                source: AuthSource::ChatgptLocalAuth,
                home,
                directory: Some(".chatgpt-local"@),
            },
            Root { source: AuthSource::CodexHomeAuth, home, directory: Some(".codex"@) },
        ],
        None => seq![],
    };
    own + codex + user
}

/// The views of a list of roots.
pub open spec fn roots_view(roots: Seq<AuthRoot>) -> Seq<Root> {
    roots.map_values(|root: AuthRoot| root@)
}

fn non_empty_path(path: &Option<String>) -> (given: Option<String>)
    ensures
        optional_text(given) == given_path(*path),
{
    match path {
        Some(text) => {
            proof {
                vstd::utf8::encode_utf8_decode_utf8(text@);
            }
            if text.as_str().is_empty() {
                None
            } else {
                Some(text.clone())
            }
        },
        None => None,
    }
}

/// The directories to look into, first to last.
pub fn auth_search_roots(options: &AuthDiscoveryOptions) -> (roots: Vec<AuthRoot>)
    ensures
        roots_view(roots@) == search_roots(*options),
{
    let mut roots: Vec<AuthRoot> = Vec::new();
    if let Some(home) = non_empty_path(&options.chatgpt_local_home) {
        roots.push(AuthRoot { source: AuthSource::ChatgptLocalAuth, home, directory: None });
    }
    if let Some(home) = non_empty_path(&options.codex_home) {
        roots.push(AuthRoot { source: AuthSource::CodexHomeAuth, home, directory: None });
    }
    if let Some(home) = non_empty_path(&options.user_home) {
        roots.push(
            AuthRoot {
                source: AuthSource::ChatgptLocalAuth,
                home: home.clone(),
                directory: Some(".chatgpt-local".to_owned()),
            },
        );
        roots.push(
            AuthRoot {
                source: AuthSource::CodexHomeAuth,
                home,
                directory: Some(".codex".to_owned()),
            },
        );
    }
    assert(roots_view(roots@) =~= search_roots(*options));
    roots
}

/// What was found at the place of a credential file.
#[derive(Debug, Clone)]
pub enum FileReply {
    NotFound,
    Unreadable,
    Found(StoredAuth),
}

/// What to do next in the search for credentials.
pub enum AuthStep {
    /// Ask the keyring for the entry of this home directory.
    ReadKeyring { codex_home: String },
    /// Read the file `auth.json` in this directory.
    ReadFile(AuthRoot),
    /// The search is over.
    Finished(Result<LoadedUpstreamAuth, AuthLoadError>),
}

/// A search for credentials: the keyring goes first, then the directories in turn.
pub struct AuthSearch {
    pub codex_home: Option<String>,
    pub roots: Vec<AuthRoot>,
    pub next: usize,
}

impl AuthSearch {
    /// The next directory exists, or all were tried.
    pub open spec fn wf(&self) -> bool {
        self.next <= self.roots@.len()
    }

    /// The step that goes on with the directories from `next`.
    pub open spec fn continues_at(&self, next: int, step: AuthStep) -> bool {
        if next < self.roots@.len() {
            step matches AuthStep::ReadFile(root) && root@ == self.roots@[next]@
        } else {
            step == AuthStep::Finished(Err(AuthLoadError::MissingCredentials))
        }
    }

    /// A search over the given directories.
    pub fn new(options: &AuthDiscoveryOptions) -> (search: Self)
        ensures
            search.wf(),
            search.next == 0,
            optional_text(search.codex_home) == given_path(options.codex_home),
            roots_view(search.roots@) == search_roots(*options),
    {
        AuthSearch {
            codex_home: non_empty_path(&options.codex_home),
            roots: auth_search_roots(options),
            next: 0,
        }
    }

    fn file_step(&self) -> (step: AuthStep)
        requires
            self.wf(),
        ensures
            self.continues_at(self.next as int, step),
    {
        if self.next < self.roots.len() {
            let root = &self.roots[self.next];
            AuthStep::ReadFile(
                AuthRoot {
                    source: root.source,
                    home: root.home.clone(),
                    directory: copy_text(&root.directory),
                },
            )
        } else {
            AuthStep::Finished(Err(AuthLoadError::MissingCredentials))
        }
    }

    /// The first step: the keyring where a home directory is known for it, and the files otherwise.
    pub fn begin(&self) -> (step: AuthStep)
        requires
            self.wf(),
        ensures
            match optional_text(self.codex_home) {
                Some(home) => step matches AuthStep::ReadKeyring { codex_home } && codex_home@
                    == home,
                None => self.continues_at(self.next as int, step),
            },
    {
        match &self.codex_home {
            Some(home) => AuthStep::ReadKeyring { codex_home: home.clone() },
            None => self.file_step(),
        }
    }

    /// The step after the keyring's answer. Whatever keeps the keyring from giving credentials, the
    /// search goes on with the files.
    pub fn on_keyring(&self, reply: KeyringReply) -> (step: AuthStep)
        requires
            self.wf(),
        ensures
            match keyring_file(reply) {
                Some(file) => step matches AuthStep::Finished(Ok(auth)) && is_auth_of(
                    auth,
                    file,
                    AuthSource::CodexKeyring,
                ),
                None => self.continues_at(self.next as int, step),
            },
    {
        match load_codex_keyring_auth(reply) {
            Ok(Some(auth)) => AuthStep::Finished(Ok(auth)),
            _ => self.file_step(),
        }
    }

    /// The step after a file was looked for at a path. Only a file that does not exist lets the
    /// search go on.
    pub fn on_file(&mut self, path: String, reply: FileReply) -> (step: AuthStep)
        requires
            old(self).wf(),
            old(self).next < old(self).roots@.len(),
        ensures
            final(self).wf(),
            final(self).roots == old(self).roots,
            final(self).codex_home == old(self).codex_home,
            final(self).next == old(self).next + 1,
            match reply {
                FileReply::NotFound => final(self).continues_at(final(self).next as int, step),
                FileReply::Unreadable => step == AuthStep::Finished(
                    Err(AuthLoadError::CredentialFileUnreadable { path }),
                ),
                FileReply::Found(StoredAuth::Malformed) => step == AuthStep::Finished(
                    Err(AuthLoadError::CredentialFileMalformed { path }),
                ),
                FileReply::Found(StoredAuth::Parsed(file)) => if usable_token(file) is Some {
                    step matches AuthStep::Finished(Ok(auth)) && is_auth_of(
                        auth,
                        file,
                        old(self).roots@[old(self).next as int].source,
                    )
                } else {
                    step == AuthStep::Finished(
                        Err(AuthLoadError::CredentialFileMissingToken { path }),
                    )
                },
            },
    {
        let source = self.roots[self.next].source;
        assert(self.next < self.roots.len());
        self.next += 1;
        match reply {
            FileReply::NotFound => self.file_step(),
            FileReply::Unreadable => AuthStep::Finished(
                Err(AuthLoadError::CredentialFileUnreadable { path }),
            ),
            FileReply::Found(StoredAuth::Malformed) => AuthStep::Finished(
                Err(AuthLoadError::CredentialFileMalformed { path }),
            ),
            FileReply::Found(StoredAuth::Parsed(file)) => match auth_from_file(&file, source) {
                Some(auth) => AuthStep::Finished(Ok(auth)),
                None => AuthStep::Finished(Err(AuthLoadError::CredentialFileMissingToken { path })),
            },
        }
    }
}

/// What is sent upstream as a token is the access token or, where there is none, the key, without
/// the white space around it; a blank one counts as none.
pub proof fn law_access_tokens_come_first(
    auth: LoadedUpstreamAuth,
    file: StoredAuthFile,
    source: AuthSource,
)
    requires
        is_auth_of(auth, file, source),
    ensures
        auth.source == source,
        !is_blank(auth.bearer_token@),
        match file.tokens {
            Some(StoredTokens { access_token: Some(token), .. }) if !is_blank(token@) => {
                auth.bearer_token@ == trimmed(token@)
            },
            _ => file.openai_api_key matches Some(key) && !is_blank(key@) && auth.bearer_token@
                == trimmed(key@),
        },
        auth.refresh_boundary == RefreshBoundary::RefreshTokenPresent <==> (
        file.tokens matches Some(tokens) && (tokens.refresh_token matches Some(token) && !is_blank(
            token@,
        ))),
{
    if let Some(tokens) = file.tokens {
        if let Some(token) = tokens.access_token {
            law_trimming_is_idempotent(token@);
        }
    }
    if let Some(key) = file.openai_api_key {
        law_trimming_is_idempotent(key@);
    }
}

/// Credentials are looked for in the directories that were set, the bridge's own before that of
/// Codex, and then in the user's home, in the same order. A directory that was not set is left out.
pub proof fn law_credentials_are_looked_for_in_order(options: AuthDiscoveryOptions)
    ensures
        ({
            let roots = search_roots(options);
            let own: int = if given_path(options.chatgpt_local_home) is Some {
                1
            } else {
                0
            };
            let codex: int = if given_path(options.codex_home) is Some {
                1
            } else {
                0
            };
            let user: int = if given_path(options.user_home) is Some {
                2
            } else {
                0
            };
            &&& roots.len() == own + codex + user
            &&& own == 1 ==> roots[0] == (Root {
                source: AuthSource::ChatgptLocalAuth,
                home: options.chatgpt_local_home->0@,
                directory: None,
            })
            &&& codex == 1 ==> roots[own] == (Root {
                source: AuthSource::CodexHomeAuth,
                home: options.codex_home->0@,
                directory: None,
            })
            &&& user == 2 ==> roots[own + codex] == (Root {
                source: AuthSource::ChatgptLocalAuth,
                home: options.user_home->0@,
                directory: Some(".chatgpt-local"@),
            }) && roots[own + codex + 1] == (Root {
                source: AuthSource::CodexHomeAuth,
                home: options.user_home->0@,
                directory: Some(".codex"@),
            })
        }),
        given_path(options.codex_home) is Some <==> (options.codex_home matches Some(path)
            && path@.len() > 0),
{
}

/// Every byte is written with two digits, and two byte strings are written alike only when they are
/// the same.
pub proof fn law_bytes_are_told_apart_by_their_digits(first: Seq<u8>, second: Seq<u8>)
    ensures
        hex_text(first).len() == 2 * first.len(),
        hex_text(first) == hex_text(second) ==> first == second,
    decreases first.len(),
{
    if first.len() > 0 {
        law_bytes_are_told_apart_by_their_digits(first.drop_last(), first.drop_last());
    }
    lemma_hex_length(second);
    if hex_text(first) == hex_text(second) {
        assert(first.len() == second.len());
        if first.len() > 0 {
            let one = hex_text(first);
            let a = first.last();
            let b = second.last();
            let front_a = hex_text(first.drop_last());
            let front_b = hex_text(second.drop_last());
            let n = front_a.len() as int;
            lemma_hex_length(first.drop_last());
            lemma_hex_length(second.drop_last());
            assert(front_a =~= one.take(n));
            assert(front_b =~= one.take(n));
            assert(one[n] == hex_digit((a / 16) as nat));
            assert(one[n] == hex_digit((b / 16) as nat));
            assert(one[n + 1] == hex_digit((a % 16) as nat));
            assert(one[n + 1] == hex_digit((b % 16) as nat));
            lemma_hex_digit((a / 16) as nat, (b / 16) as nat);
            lemma_hex_digit((a % 16) as nat, (b % 16) as nat);
            assert(a == b);
            law_bytes_are_told_apart_by_their_digits(first.drop_last(), second.drop_last());
            assert(first =~= first.drop_last().push(a));
            assert(second =~= second.drop_last().push(b));
        } else {
            assert(first =~= second);
        }
    }
}

proof fn lemma_hex_length(bytes: Seq<u8>)
    ensures
        hex_text(bytes).len() == 2 * bytes.len(),
    decreases bytes.len(),
{
    if bytes.len() > 0 {
        lemma_hex_length(bytes.drop_last());
    }
}

proof fn lemma_hex_digit(first: nat, second: nat)
    requires
        first < 16,
        second < 16,
        hex_digit(first) == hex_digit(second),
    ensures
        first == second,
{
}

/// The search goes on with the next directory, and ends without credentials where there is none
/// left.
pub proof fn law_searches_go_on_to_the_next_directory(search: AuthSearch, next: int, step: AuthStep)
    requires
        search.continues_at(next, step),
    ensures
        next < search.roots@.len() ==> (step matches AuthStep::ReadFile(root) && root@
            == search.roots@[next]@),
        next >= search.roots@.len() ==> step == AuthStep::Finished(
            Err(AuthLoadError::MissingCredentials),
        ),
{
}

/// The keyring gives credentials exactly when it holds some that can be read and have a usable token.
/// Whatever else it answers is no reason to end the search.
pub proof fn law_keyrings_give_usable_credentials(reply: KeyringReply)
    ensures
        match reply {
            KeyringReply::Found(StoredAuth::Parsed(file)) => keyring_file(reply) == (
            if usable_token(file) is Some {
                Some(file)
            } else {
                None
            }),
            _ => keyring_file(reply) is None,
        },
{
}

/// The entry of a directory in the keyring is named after the digest of its path, by the digits of
/// the first eight bytes.
pub proof fn law_keyring_entries_are_named_by_digest(codex_home: Seq<char>)
    requires
        sha256_digest(encode_utf8(codex_home)).len() >= 8,
    ensures
        "cli|"@.is_prefix_of(store_key_of(codex_home)),
        store_key_of(codex_home).len() == 20,
        store_key_of(codex_home).skip(4) == hex_text(
            sha256_digest(encode_utf8(codex_home)).take(8),
        ),
{
    let digest = sha256_digest(encode_utf8(codex_home));
    reveal_strlit("cli|");
    assert("cli|"@.len() == 4);
    lemma_hex_length(digest.take(8));
    assert(store_key_of(codex_home).skip(4) =~= hex_text(digest.take(8)));
}

} // verus!

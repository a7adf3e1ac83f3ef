use threadline::auth::{
    auth_search_roots, codex_keyring_service_and_account, load_codex_keyring_auth,
    AuthDiscoveryOptions, AuthLoadError, AuthSearch, AuthSource, AuthStep, CredentialStoreError,
    CredentialStoreErrorKind, FileReply, KeyringReply, LoadedUpstreamAuth, RefreshBoundary,
    store_key_for_digest, StoredAuth, StoredAuthFile, StoredTokens,
};

fn tokens(access_token: &str, refresh_token: Option<&str>) -> StoredAuthFile {
    StoredAuthFile {
        openai_api_key: None,
        tokens: Some(StoredTokens {
            access_token: Some(access_token.to_string()),
            refresh_token: refresh_token.map(ToString::to_string),
        }),
    }
}

fn key(openai_api_key: &str) -> StoredAuthFile {
    StoredAuthFile {
        openai_api_key: Some(openai_api_key.to_string()),
        tokens: None,
    }
}

fn codex_options() -> AuthDiscoveryOptions {
    AuthDiscoveryOptions {
        chatgpt_local_home: None,
        codex_home: Some("/home/codex".to_string()),
        user_home: None,
    }
}

fn loaded(step: AuthStep) -> LoadedUpstreamAuth {
    match step {
        AuthStep::Finished(Ok(auth)) => auth,
        _ => panic!("credentials expected"),
    }
}

fn failed(step: AuthStep) -> AuthLoadError {
    match step {
        AuthStep::Finished(Err(error)) => error,
        _ => panic!("failure expected"),
    }
}

fn file_source(step: &AuthStep) -> AuthSource {
    match step {
        AuthStep::ReadFile(root) => root.source,
        _ => panic!("file expected"),
    }
}

#[test]
fn codex_store_key_matches_known_codex_home() {
    let (service, account) = codex_keyring_service_and_account("~/.codex");

    assert_eq!(service, "Codex Auth");
    assert_eq!(account, "cli|940db7b1d0e4eb40");
    assert_eq!(
        store_key_for_digest(&vec![0, 1, 15, 16, 127, 128, 254, 255, 9]),
        "cli|00010f107f80feff"
    );
}

#[test]
fn codex_keyring_payload_is_read_without_rewriting_unknown_fields() {
    let reply = KeyringReply::Found(StoredAuth::Parsed(StoredAuthFile {
        openai_api_key: Some(String::new()),
        tokens: Some(StoredTokens {
            access_token: Some("codex-access-token".to_string()),
            refresh_token: Some("codex-refresh-token".to_string()),
        }),
    }));

    let auth = match load_codex_keyring_auth(reply) {
        Ok(Some(auth)) => auth,
        _ => panic!("codex payload should load"),
    };

    assert_eq!(auth.bearer_token, "codex-access-token");
    assert_eq!(auth.source, AuthSource::CodexKeyring);
    assert_eq!(auth.refresh_boundary, RefreshBoundary::RefreshTokenPresent);
}

#[test]
fn codex_keyring_wins_when_present() {
    let search = AuthSearch::new(&codex_options());
    assert!(matches!(
        search.begin(),
        AuthStep::ReadKeyring { codex_home } if codex_home == "/home/codex"
    ));

    let auth = loaded(search.on_keyring(KeyringReply::Found(StoredAuth::Parsed(tokens(
        "codex-token",
        Some("codex-refresh"),
    )))));

    assert_eq!(auth.bearer_token, "codex-token");
    assert_eq!(auth.source, AuthSource::CodexKeyring);
    assert_eq!(auth.refresh_boundary, RefreshBoundary::RefreshTokenPresent);
}

#[test]
fn codex_auth_file_remains_fallback_when_keyring_is_missing() {
    let mut search = AuthSearch::new(&codex_options());
    let step = search.on_keyring(KeyringReply::NoEntry);
    assert_eq!(file_source(&step), AuthSource::CodexHomeAuth);

    let auth = loaded(search.on_file(
        "/home/codex/auth.json".to_string(),
        FileReply::Found(StoredAuth::Parsed(key("codex-file-token"))),
    ));

    assert_eq!(auth.bearer_token, "codex-file-token");
    assert_eq!(auth.source, AuthSource::CodexHomeAuth);
    assert_eq!(auth.refresh_boundary, RefreshBoundary::NotAvailable);
}

#[test]
fn codex_keyring_service_failure_falls_through_to_codex_auth_file() {
    let mut search = AuthSearch::new(&codex_options());
    let step = search.on_keyring(KeyringReply::Failed(CredentialStoreError {
        kind: CredentialStoreErrorKind::ServiceUnavailable,
        message: "keyring backend unavailable".to_string(),
    }));
    assert_eq!(file_source(&step), AuthSource::CodexHomeAuth);

    let auth = loaded(search.on_file(
        "/home/codex/auth.json".to_string(),
        FileReply::Found(StoredAuth::Parsed(key("codex-file-token"))),
    ));

    assert_eq!(auth.bearer_token, "codex-file-token");
    assert_eq!(auth.source, AuthSource::CodexHomeAuth);
    assert_eq!(auth.refresh_boundary, RefreshBoundary::NotAvailable);
}

#[test]
fn malformed_codex_keyring_payload_falls_through_to_supported_auth_file_roots() {
    let search = AuthSearch::new(&codex_options());
    let step = search.on_keyring(KeyringReply::Found(StoredAuth::Malformed));
    assert_eq!(file_source(&step), AuthSource::CodexHomeAuth);
}

#[test]
fn malformed_codex_keyring_payload_is_reported_without_exposing_secret_values() {
    let error = match load_codex_keyring_auth(KeyringReply::Found(StoredAuth::Malformed)) {
        Err(error) => error,
        Ok(_) => panic!("malformed payload should surface as a keyring error"),
    };

    assert_eq!(error.kind, CredentialStoreErrorKind::MalformedPayload);
    assert!(!error.message.contains("leaked-secret"));
    assert_eq!(error.message, "Codex keyring payload could not be parsed.");
}

#[test]
fn keyring_payload_without_a_token_is_an_error() {
    let reply = KeyringReply::Found(StoredAuth::Parsed(tokens("  ", Some("refresh"))));
    let error = match load_codex_keyring_auth(reply) {
        Err(error) => error,
        Ok(_) => panic!("a payload without a token is an error"),
    };

    assert_eq!(
        error.message,
        "Codex keyring payload did not contain a usable upstream token."
    );
}

#[test]
fn codex_keyring_is_skipped_when_codex_home_is_unavailable() {
    let mut search = AuthSearch::new(&AuthDiscoveryOptions {
        chatgpt_local_home: Some("/home/chatgpt".to_string()),
        codex_home: None,
        user_home: None,
    });
    assert_eq!(file_source(&search.begin()), AuthSource::ChatgptLocalAuth);

    let auth = loaded(search.on_file(
        "/home/chatgpt/auth.json".to_string(),
        FileReply::Found(StoredAuth::Parsed(key("chatgpt-file-token"))),
    ));

    assert_eq!(auth.bearer_token, "chatgpt-file-token");
    assert_eq!(auth.source, AuthSource::ChatgptLocalAuth);
}

#[test]
fn missing_credentials_return_secret_safe_error() {
    let mut search = AuthSearch::new(&AuthDiscoveryOptions {
        chatgpt_local_home: Some("/chatgpt-home".to_string()),
        codex_home: Some("/codex-home".to_string()),
        user_home: Some("/user-home".to_string()),
    });
    let mut step = search.on_keyring(KeyringReply::NoEntry);
    let mut visited = 0;
    while let AuthStep::ReadFile(root) = &step {
        let path = format!("{}/auth.json", root.home);
        visited += 1;
        step = search.on_file(path, FileReply::NotFound);
    }
    let error = failed(step);

    assert_eq!(visited, 4);
    assert_eq!(error, AuthLoadError::MissingCredentials);
    assert!(!error.description().contains("codex-token"));
}

#[test]
fn unreadable_auth_file_returns_secret_safe_error() {
    let mut search = AuthSearch::new(&AuthDiscoveryOptions {
        chatgpt_local_home: Some("/chatgpt-home".to_string()),
        codex_home: None,
        user_home: None,
    });

    let error = failed(search.on_file(
        "/chatgpt-home/auth.json".to_string(),
        FileReply::Unreadable,
    ));

    match &error {
        AuthLoadError::CredentialFileUnreadable { path } => {
            assert_eq!(path, "/chatgpt-home/auth.json");
        }
        other => panic!("unexpected error: {other:?}"),
    }
    assert!(!error.description().contains("secret-value"));
    assert_eq!(
        error.description(),
        "Threadline could not read upstream credentials from /chatgpt-home/auth.json."
    );
}

#[test]
fn auth_file_errors_name_the_path() {
    let options = AuthDiscoveryOptions {
        chatgpt_local_home: None,
        codex_home: None,
        user_home: Some("/home/user".to_string()),
    };
    let mut search = AuthSearch::new(&options);
    let malformed = failed(search.on_file(
        "/a/auth.json".to_string(),
        FileReply::Found(StoredAuth::Malformed),
    ));
    assert_eq!(
        malformed.description(),
        "Threadline could not parse auth.json at /a/auth.json."
    );

    let mut search = AuthSearch::new(&options);
    let empty = failed(search.on_file(
        "/a/auth.json".to_string(),
        FileReply::Found(StoredAuth::Parsed(key("  "))),
    ));
    assert_eq!(
        empty,
        AuthLoadError::CredentialFileMissingToken {
            path: "/a/auth.json".to_string()
        }
    );
    assert_eq!(
        empty.description(),
        "Threadline found an auth.json file at /a/auth.json, but it did not contain a usable upstream token."
    );
}

#[test]
fn codex_auth_file_is_used_when_chatgpt_auth_is_missing() {
    let mut search = AuthSearch::new(&AuthDiscoveryOptions {
        chatgpt_local_home: Some("/chatgpt-home".to_string()),
        codex_home: Some("/codex-home".to_string()),
        user_home: None,
    });
    let step = search.on_keyring(KeyringReply::NoEntry);
    assert_eq!(file_source(&step), AuthSource::ChatgptLocalAuth);
    let step = search.on_file("/chatgpt-home/auth.json".to_string(), FileReply::NotFound);
    assert_eq!(file_source(&step), AuthSource::CodexHomeAuth);

    let auth = loaded(search.on_file(
        "/codex-home/auth.json".to_string(),
        FileReply::Found(StoredAuth::Parsed(key("codex-file-token"))),
    ));

    assert_eq!(auth.bearer_token, "codex-file-token");
    assert_eq!(auth.source, AuthSource::CodexHomeAuth);
    assert_eq!(auth.refresh_boundary, RefreshBoundary::NotAvailable);
}

#[test]
fn chatgpt_auth_reports_refresh_capability_when_refresh_token_exists() {
    let mut search = AuthSearch::new(&AuthDiscoveryOptions {
        chatgpt_local_home: Some("/chatgpt-home".to_string()),
        codex_home: None,
        user_home: None,
    });

    let auth = loaded(search.on_file(
        "/chatgpt-home/auth.json".to_string(),
        FileReply::Found(StoredAuth::Parsed(tokens(
            " chatgpt-access-token ",
            Some("chatgpt-refresh-token"),
        ))),
    ));

    assert_eq!(auth.bearer_token, "chatgpt-access-token");
    assert_eq!(auth.source, AuthSource::ChatgptLocalAuth);
    assert_eq!(auth.refresh_boundary, RefreshBoundary::RefreshTokenPresent);
}

#[test]
fn search_roots_follow_their_order() {
    let roots = auth_search_roots(&AuthDiscoveryOptions {
        chatgpt_local_home: Some(String::new()),
        codex_home: Some("/codex-home".to_string()),
        user_home: Some("/home/user".to_string()),
    });

    assert_eq!(roots.len(), 3);
    assert_eq!(roots[0].home, "/codex-home");
    assert_eq!(roots[0].directory, None);
    assert_eq!(roots[1].directory.as_deref(), Some(".chatgpt-local"));
    assert_eq!(roots[1].source, AuthSource::ChatgptLocalAuth);
    assert_eq!(roots[2].directory.as_deref(), Some(".codex"));
    assert_eq!(roots[2].source, AuthSource::CodexHomeAuth);
}

#[test]
fn loaded_upstream_auth_debug_redacts_bearer_token() {
    let auth = LoadedUpstreamAuth {
        bearer_token: "sensitive-token".to_string(),
        source: AuthSource::CodexKeyring,
        refresh_boundary: RefreshBoundary::NotAvailable,
    };

    let debug = auth.debug_text();

    assert!(debug.contains("LoadedUpstreamAuth"));
    assert!(debug.contains("bearer_token"));
    assert!(debug.contains("[redacted]"));
    assert!(debug.contains("CodexKeyring"));
    assert!(debug.contains("NotAvailable"));
    assert!(!debug.contains("sensitive-token"));
}

#[test]
fn threadline_owned_keyring_entries_are_ignored_during_auth_loading() {
    let (service, account) = codex_keyring_service_and_account("/home/codex");
    let secrets = [
        (
            ("Threadline Auth".to_string(), "default".to_string()),
            tokens("threadline-token", Some("threadline-refresh")),
        ),
        (
            (service.clone(), account.clone()),
            tokens("codex-token", Some("codex-refresh")),
        ),
    ];

    let search = AuthSearch::new(&codex_options());
    let codex_home = match search.begin() {
        AuthStep::ReadKeyring { codex_home } => codex_home,
        _ => panic!("keyring expected"),
    };
    let asked = codex_keyring_service_and_account(&codex_home);
    let reply = match secrets.into_iter().find(|(entry, _)| *entry == asked) {
        Some((_, file)) => KeyringReply::Found(StoredAuth::Parsed(file)),
        None => KeyringReply::NoEntry,
    };
    let auth = loaded(search.on_keyring(reply));

    assert_eq!(auth.bearer_token, "codex-token");
    assert_eq!(auth.source, AuthSource::CodexKeyring);
    assert_eq!(auth.refresh_boundary, RefreshBoundary::RefreshTokenPresent);
}

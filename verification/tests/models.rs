use serde_json::Value;
use threadline::models::{
    advertised_model_ids_for_profile, is_supported_model, resolve_request_model_for_profile,
    supported_model_ids, validate_request_model, RouteProfile,
};

fn document(text: &str) -> Value {
    serde_json::from_str(text).expect("document")
}

fn fill(value: Value, parts: &[Value]) -> Value {
    match value {
        Value::String(text) => match text.strip_prefix('$').and_then(|n| n.parse::<usize>().ok()) {
            Some(index) => parts[index].clone(),
            None => Value::String(text),
        },
        Value::Array(items) => Value::Array(items.into_iter().map(|item| fill(item, parts)).collect()),
        Value::Object(members) => {
            Value::Object(members.into_iter().map(|(key, item)| (key, fill(item, parts))).collect())
        }
        other => other,
    }
}

fn document_with(text: &str, parts: &[Value]) -> Value {
    fill(document(text), parts)
}

const NEW_MAIN_VISIBLE_MODEL_IDS: [&str; 3] = [
    "threadline-main-gpt-5.6-sol",
    "threadline-main-gpt-5.6-terra",
    "threadline-main-gpt-5.6-luna",
];

const NEW_MAIN_RAW_COMPATIBILITY_IDS: [&str; 3] =
    ["gpt-5.6-sol", "gpt-5.6-terra", "gpt-5.6-luna"];

#[test]
fn supported_model_ids_match_main_public_contract() {
    assert_eq!(
        supported_model_ids(),
        &[
            "threadline-main-gpt-5.6-sol",
            "threadline-main-gpt-5.6-terra",
            "threadline-main-gpt-5.6-luna",
            "threadline-main-gpt-5.5",
            "threadline-main-gpt-5.4",
        ]
    );
}

#[test]
fn advertised_model_ids_are_filtered_by_profile() {
    assert_eq!(
        advertised_model_ids_for_profile(RouteProfile::Main),
        &[
            "threadline-main-gpt-5.6-sol",
            "threadline-main-gpt-5.6-terra",
            "threadline-main-gpt-5.6-luna",
            "threadline-main-gpt-5.5",
            "threadline-main-gpt-5.4",
        ]
    );
    assert_eq!(
        advertised_model_ids_for_profile(RouteProfile::Utility),
        &[
            "threadline-utility-gpt-5.4-mini",
            "threadline-utility-gpt-5.3-codex-spark",
        ]
    );
}

#[test]
fn supported_model_check_accepts_aliases_and_hidden_main_compatibility_ids() {
    for model_id in NEW_MAIN_VISIBLE_MODEL_IDS {
        assert!(is_supported_model(model_id));
    }
    assert!(is_supported_model("threadline-main-gpt-5.5"));
    assert!(is_supported_model("threadline-main-gpt-5.4"));
    assert!(is_supported_model("threadline-utility-gpt-5.4-mini"));
    assert!(is_supported_model("threadline-utility-gpt-5.3-codex-spark"));
    for model_id in NEW_MAIN_RAW_COMPATIBILITY_IDS {
        assert!(is_supported_model(model_id));
    }
    assert!(is_supported_model("gpt-5.5"));
    assert!(is_supported_model("gpt-5.4"));
    assert!(is_supported_model("gpt-5.4-mini"));
    assert!(is_supported_model("gpt-5.3-codex-spark"));
    assert!(!is_supported_model("codex-mini-latest"));
}

#[test]
fn resolve_request_model_for_profile_rewrites_visible_alias_to_upstream_model() {
    for (alias_id, upstream_model_id) in [
        ("threadline-main-gpt-5.6-sol", "gpt-5.6-sol"),
        ("threadline-main-gpt-5.6-terra", "gpt-5.6-terra"),
        ("threadline-main-gpt-5.6-luna", "gpt-5.6-luna"),
    ] {
        let main = resolve_request_model_for_profile(
            document_with(r#"{"model": "$0"}"#, &[serde_json::Value::from(alias_id)]).as_object().unwrap(),
            RouteProfile::Main,
        )
        .unwrap();
        assert_eq!(main.alias_id, alias_id);
        assert_eq!(main.upstream_model_id, upstream_model_id);
        assert_eq!(main.profile, RouteProfile::Main);
        assert!(main.advertised);
        assert!(main.persistent_reasoning_eligible);
        assert!(main.supports_reasoning_all_turns);
    }

    let main = resolve_request_model_for_profile(
        document(r#"{"model": "threadline-main-gpt-5.5"}"#)
            .as_object()
            .unwrap(),
        RouteProfile::Main,
    )
    .unwrap();
    assert_eq!(main.alias_id, "threadline-main-gpt-5.5");
    assert_eq!(main.upstream_model_id, "gpt-5.5");
    assert_eq!(main.profile, RouteProfile::Main);
    assert!(main.advertised);
    assert!(!main.persistent_reasoning_eligible);
    assert!(main.supports_reasoning_all_turns);

    let utility = resolve_request_model_for_profile(
        document(r#"{"model": "threadline-utility-gpt-5.4-mini"}"#)
            .as_object()
            .unwrap(),
        RouteProfile::Utility,
    )
    .unwrap();
    assert_eq!(utility.alias_id, "threadline-utility-gpt-5.4-mini");
    assert_eq!(utility.upstream_model_id, "gpt-5.4-mini");
    assert_eq!(utility.profile, RouteProfile::Utility);
    assert!(utility.advertised);
    assert!(!utility.persistent_reasoning_eligible);
    assert!(utility.supports_reasoning_all_turns);
}

#[test]
fn resolve_request_model_for_profile_rejects_profile_mismatch() {
    for model_id in NEW_MAIN_VISIBLE_MODEL_IDS {
        assert_eq!(
            resolve_request_model_for_profile(
                document_with(r#"{"model": "$0"}"#, &[serde_json::Value::from(model_id)]).as_object().unwrap(),
                RouteProfile::Utility,
            )
            .unwrap_err()
            .description(),
            "The /v1/responses request must include a supported string model."
        );
    }

    assert_eq!(
        resolve_request_model_for_profile(
            document(r#"{"model": "threadline-utility-gpt-5.4-mini"}"#)
                .as_object()
                .unwrap(),
            RouteProfile::Main,
        )
        .unwrap_err()
        .description(),
        "The /v1/responses request must include a supported string model."
    );
    assert_eq!(
        resolve_request_model_for_profile(
            document(r#"{"model": "threadline-main-gpt-5.4"}"#)
                .as_object()
                .unwrap(),
            RouteProfile::Utility,
        )
        .unwrap_err()
        .description(),
        "The /v1/responses request must include a supported string model."
    );
}

#[test]
fn resolve_request_model_for_profile_rejects_unknown_model() {
    assert_eq!(
        resolve_request_model_for_profile(
            document(r#"{"model": "codex-mini-latest"}"#).as_object().unwrap(),
            RouteProfile::Main,
        )
        .unwrap_err()
        .description(),
        "The /v1/responses request must include a supported string model."
    );
}

#[test]
fn resolve_request_model_for_profile_accepts_hidden_main_compatibility_ids() {
    for model_id in NEW_MAIN_RAW_COMPATIBILITY_IDS {
        let compatibility = resolve_request_model_for_profile(
            document_with(r#"{"model": "$0"}"#, &[serde_json::Value::from(model_id)]).as_object().unwrap(),
            RouteProfile::Main,
        )
        .unwrap();
        assert_eq!(compatibility.alias_id, model_id);
        assert_eq!(compatibility.upstream_model_id, model_id);
        assert_eq!(compatibility.profile, RouteProfile::Main);
        assert!(!compatibility.advertised);
        assert!(!compatibility.persistent_reasoning_eligible);
        assert!(!compatibility.supports_reasoning_all_turns);

        assert_eq!(
            resolve_request_model_for_profile(
                document_with(r#"{"model": "$0"}"#, &[serde_json::Value::from(model_id)]).as_object().unwrap(),
                RouteProfile::Utility,
            )
            .unwrap_err()
            .description(),
            "The /v1/responses request must include a supported string model."
        );
    }

    let compatibility = resolve_request_model_for_profile(
        document(r#"{"model": "gpt-5.4-mini"}"#).as_object().unwrap(),
        RouteProfile::Main,
    )
    .unwrap();
    assert_eq!(compatibility.alias_id, "gpt-5.4-mini");
    assert_eq!(compatibility.upstream_model_id, "gpt-5.4-mini");
    assert_eq!(compatibility.profile, RouteProfile::Main);
    assert!(!compatibility.advertised);
    assert!(!compatibility.persistent_reasoning_eligible);
    assert!(!compatibility.supports_reasoning_all_turns);

    assert_eq!(
        resolve_request_model_for_profile(
            document(r#"{"model": "gpt-5.4-mini"}"#).as_object().unwrap(),
            RouteProfile::Utility,
        )
        .unwrap_err()
        .description(),
        "The /v1/responses request must include a supported string model."
    );
}

#[test]
fn resolve_request_model_for_profile_exposes_reasoning_all_turns_capability_by_alias() {
    for model_id in NEW_MAIN_VISIBLE_MODEL_IDS {
        let main_supported = resolve_request_model_for_profile(
            document_with(r#"{"model": "$0"}"#, &[serde_json::Value::from(model_id)]).as_object().unwrap(),
            RouteProfile::Main,
        )
        .unwrap();
        assert!(main_supported.supports_reasoning_all_turns);
    }

    let main_supported = resolve_request_model_for_profile(
        document(r#"{"model": "threadline-main-gpt-5.5"}"#)
            .as_object()
            .unwrap(),
        RouteProfile::Main,
    )
    .unwrap();
    assert!(main_supported.supports_reasoning_all_turns);

    let main_supported_secondary = resolve_request_model_for_profile(
        document(r#"{"model": "threadline-main-gpt-5.4"}"#)
            .as_object()
            .unwrap(),
        RouteProfile::Main,
    )
    .unwrap();
    assert!(main_supported_secondary.supports_reasoning_all_turns);

    let utility_supported = resolve_request_model_for_profile(
        document(r#"{"model": "threadline-utility-gpt-5.4-mini"}"#)
            .as_object()
            .unwrap(),
        RouteProfile::Utility,
    )
    .unwrap();
    assert!(utility_supported.supports_reasoning_all_turns);

    let utility_unsupported = resolve_request_model_for_profile(
        document(r#"{"model": "threadline-utility-gpt-5.3-codex-spark"}"#)
            .as_object()
            .unwrap(),
        RouteProfile::Utility,
    )
    .unwrap();
    assert!(!utility_unsupported.supports_reasoning_all_turns);

    let hidden_compatibility = resolve_request_model_for_profile(
        document(r#"{"model": "gpt-5.5"}"#).as_object().unwrap(),
        RouteProfile::Main,
    )
    .unwrap();
    assert!(!hidden_compatibility.supports_reasoning_all_turns);

    let hidden_compatibility_secondary = resolve_request_model_for_profile(
        document(r#"{"model": "gpt-5.4"}"#).as_object().unwrap(),
        RouteProfile::Main,
    )
    .unwrap();
    assert!(!hidden_compatibility_secondary.supports_reasoning_all_turns);

    let hidden_compatibility_tertiary = resolve_request_model_for_profile(
        document(r#"{"model": "gpt-5.4-mini"}"#).as_object().unwrap(),
        RouteProfile::Main,
    )
    .unwrap();
    assert!(!hidden_compatibility_tertiary.supports_reasoning_all_turns);

    let hidden_compatibility_quaternary = resolve_request_model_for_profile(
        document(r#"{"model": "gpt-5.3-codex-spark"}"#)
            .as_object()
            .unwrap(),
        RouteProfile::Main,
    )
    .unwrap();
    assert!(!hidden_compatibility_quaternary.supports_reasoning_all_turns);
}

#[test]
fn resolve_request_model_for_profile_separates_persistent_reasoning_eligibility() {
    for model_id in NEW_MAIN_VISIBLE_MODEL_IDS {
        let alias = resolve_request_model_for_profile(
            document_with(r#"{"model": "$0"}"#, &[serde_json::Value::from(model_id)]).as_object().unwrap(),
            RouteProfile::Main,
        )
        .unwrap();
        assert!(alias.persistent_reasoning_eligible);
    }

    for model_id in [
        "threadline-main-gpt-5.5",
        "threadline-main-gpt-5.4",
        "gpt-5.6-sol",
        "gpt-5.6-terra",
        "gpt-5.6-luna",
        "gpt-5.5",
        "gpt-5.4",
        "gpt-5.4-mini",
        "gpt-5.3-codex-spark",
    ] {
        let alias = resolve_request_model_for_profile(
            document_with(r#"{"model": "$0"}"#, &[serde_json::Value::from(model_id)]).as_object().unwrap(),
            RouteProfile::Main,
        )
        .unwrap();
        assert!(!alias.persistent_reasoning_eligible);
    }

    for model_id in [
        "threadline-utility-gpt-5.4-mini",
        "threadline-utility-gpt-5.3-codex-spark",
    ] {
        let alias = resolve_request_model_for_profile(
            document_with(r#"{"model": "$0"}"#, &[serde_json::Value::from(model_id)]).as_object().unwrap(),
            RouteProfile::Utility,
        )
        .unwrap();
        assert!(!alias.persistent_reasoning_eligible);
    }
}

#[test]
fn resolve_request_model_for_profile_keeps_invalid_model_for_wrong_profile_before_capability_use()
 {
    assert_eq!(
        resolve_request_model_for_profile(
            document(r#"{"model": "threadline-utility-gpt-5.4-mini"}"#)
                .as_object()
                .unwrap(),
            RouteProfile::Main,
        )
        .unwrap_err()
        .description(),
        "The /v1/responses request must include a supported string model."
    );
}

#[test]
fn resolve_request_model_for_profile_keeps_invalid_model_for_unknown_alias_before_capability_use()
 {
    assert_eq!(
        resolve_request_model_for_profile(
            document(r#"{"model": "gpt-5.4-nano"}"#).as_object().unwrap(),
            RouteProfile::Main,
        )
        .unwrap_err()
        .description(),
        "The /v1/responses request must include a supported string model."
    );
}

#[test]
fn validate_request_model_requires_main_supported_string_model() {
    assert_eq!(
        validate_request_model(document(r#"{}"#).as_object().unwrap())
            .unwrap_err()
            .description(),
        "The /v1/responses request must include a supported string model."
    );
    assert_eq!(
        validate_request_model(document(r#"{"model": {"id": "gpt-5.4"}}"#).as_object().unwrap())
            .unwrap_err()
            .description(),
        "The /v1/responses request must include a supported string model."
    );
    assert_eq!(
        validate_request_model(document(r#"{"model": "codex-mini-latest"}"#).as_object().unwrap())
            .unwrap_err()
            .description(),
        "The /v1/responses request must include a supported string model."
    );
    assert_eq!(
        validate_request_model(
            document(r#"{"model": "threadline-main-gpt-5.4"}"#)
                .as_object()
                .unwrap()
        )
        .unwrap(),
        "threadline-main-gpt-5.4"
    );
    assert_eq!(
        validate_request_model(
            document(r#"{"model": "threadline-utility-gpt-5.4-mini"}"#)
                .as_object()
                .unwrap()
        )
        .unwrap_err()
        .description(),
        "The /v1/responses request must include a supported string model."
    );
}


fn asked(model_id: &str) -> serde_json::Map<String, Value> {
    document_with(r#"{"model": "$0"}"#, &[Value::from(model_id)])
        .as_object()
        .expect("object payload")
        .clone()
}

#[test]
fn models_outside_the_advertised_lists_are_supported() {
    for model_id in [
        "threadline-main-gpt-6-astra",
        "gpt-6-astra",
        "threadline-utility-gpt-5.6-luna",
    ] {
        assert!(is_supported_model(model_id));
    }
    for model_id in ["threadline-main-gpt-6-astra", "gpt-6-astra"] {
        let astra = resolve_request_model_for_profile(&asked(model_id), RouteProfile::Main)
            .expect("Main model");
        assert_eq!(astra.alias_id, model_id);
        assert_eq!(astra.upstream_model_id, "gpt-6-astra");
        assert!(astra.persistent_reasoning_eligible);
        assert!(astra.supports_reasoning_all_turns);
        assert!(resolve_request_model_for_profile(&asked(model_id), RouteProfile::Utility).is_err());
    }
    let luna = resolve_request_model_for_profile(
        &asked("threadline-utility-gpt-5.6-luna"),
        RouteProfile::Utility,
    )
    .expect("Utility model");
    assert_eq!(luna.upstream_model_id, "gpt-5.6-luna");
    assert!(!luna.persistent_reasoning_eligible);
    assert!(resolve_request_model_for_profile(
        &asked("threadline-utility-gpt-5.6-luna"),
        RouteProfile::Main
    )
    .is_err());
    for profile in [RouteProfile::Main, RouteProfile::Utility] {
        assert!(!advertised_model_ids_for_profile(profile).contains(&"gpt-6-astra"));
    }
}

use threadline::cli::{ThreadlineCli, ThreadlineCliAction, ThreadlineCommand};
use threadline::config::{
    job_manager_config_from_environment, parse_bool_env_value, parse_bounded_usize,
    parse_max_request_body_bytes, parse_u64_env_value, parse_upstream_inbound_max_bytes,
    parse_upstream_inbound_max_messages, parse_usize_env_value, split_allowed_commands,
    split_main_and_utility_configs, JobEnvironment, ThreadlineConfig,
    DEFAULT_CODEX_CLIENT_VERSION,
};
use threadline::errors::ThreadlineError;
use threadline::jobs::{DEFAULT_MAX_ACTIVE_JOBS, DEFAULT_MAX_RETAINED_JOBS};
use threadline::models::RouteProfile;
use threadline::ws_pump::UpstreamInboundLimits;

#[test]
fn server_starts_by_default_without_subcommand() {
    let cli = ThreadlineCli {
        server: ThreadlineConfig::default(),
        command: None,
    };

    assert!(cli.command.is_none());
    assert!(matches!(
        cli.into_action(),
        ThreadlineCliAction::StartServer(_)
    ));
}

#[test]
fn login_command_gives_instructions() {
    let cli = ThreadlineCli {
        server: ThreadlineConfig::default(),
        command: Some(ThreadlineCommand::Login),
    };

    assert_eq!(cli.into_action(), ThreadlineCliAction::LoginInstructions);
}

#[test]
fn codex_client_version_defaults_to_installed_version() {
    let config = ThreadlineConfig::default();

    assert_eq!(config.codex_client_version, DEFAULT_CODEX_CLIENT_VERSION);
    assert_eq!(DEFAULT_CODEX_CLIENT_VERSION, "0.136.0");
}

#[test]
fn upstream_inbound_limits_default_override_and_reject_invalid_ranges() {
    let default_config = ThreadlineConfig::default();
    assert_eq!(default_config.upstream_inbound_max_messages, 256);
    assert_eq!(default_config.upstream_inbound_max_bytes, 16 * 1024 * 1024);

    let override_config = ThreadlineConfig {
        upstream_inbound_max_messages: parse_upstream_inbound_max_messages("2")
            .expect("valid override"),
        upstream_inbound_max_bytes: parse_upstream_inbound_max_bytes("3").expect("valid override"),
        ..ThreadlineConfig::default()
    };
    assert_eq!(
        override_config.upstream_inbound_limits(),
        Ok(UpstreamInboundLimits::new(2, 3).unwrap())
    );

    assert!(parse_upstream_inbound_max_messages("0").is_err());
    assert!(parse_upstream_inbound_max_bytes("67108865").is_err());
    assert!(parse_upstream_inbound_max_messages("not-a-number").is_err());
    assert!(parse_upstream_inbound_max_bytes("-1").is_err());
    assert!(UpstreamInboundLimits::new(0, 1).is_err());
    assert!(UpstreamInboundLimits::new(1, 0).is_err());
}

#[test]
fn bounded_numbers_say_what_is_wrong() {
    assert_eq!(parse_bounded_usize("7", 1, 9), Ok(7));
    assert_eq!(parse_bounded_usize("+7", 1, 9), Ok(7));
    assert_eq!(
        parse_bounded_usize("10", 1, 9),
        Err("must be between 1 and 9".to_string())
    );
    assert_eq!(
        parse_bounded_usize("seven", 1, 9),
        Err("must be an integer between 1 and 9".to_string())
    );
    assert_eq!(
        parse_bounded_usize("", 1, 9),
        Err("must be an integer between 1 and 9".to_string())
    );
    assert_eq!(
        parse_upstream_inbound_max_messages("65537"),
        Err("must be between 1 and 65536".to_string())
    );
}

#[test]
fn request_body_limit_accepts_every_positive_number() {
    assert_eq!(ThreadlineConfig::default().max_request_body_bytes, 32 * 1024 * 1024);
    assert_eq!(parse_max_request_body_bytes("1"), Ok(1));
    assert_eq!(
        parse_max_request_body_bytes(&usize::MAX.to_string()),
        Ok(usize::MAX)
    );
    assert!(parse_max_request_body_bytes("0").is_err());
}

#[test]
fn profile_accepts_explicit_utility_value() {
    assert_eq!(RouteProfile::from_name("utility"), Some(RouteProfile::Utility));
    assert_eq!(RouteProfile::from_name("main"), Some(RouteProfile::Main));
}

#[test]
fn profile_rejects_invalid_value() {
    assert_eq!(RouteProfile::from_name("invalid"), None);
}

#[test]
fn profiles_are_named() {
    assert_eq!(RouteProfile::Main.as_str(), "main");
    assert_eq!(RouteProfile::Utility.as_str(), "utility");
}

#[test]
fn persistent_reasoning_enabled_is_effective_only_for_main_profile() {
    let main_config = ThreadlineConfig {
        persistent_reasoning_enabled: true,
        ..ThreadlineConfig::default()
    };
    let utility_config = ThreadlineConfig {
        profile: RouteProfile::Utility,
        persistent_reasoning_enabled: true,
        ..ThreadlineConfig::default()
    };

    assert!(main_config.persistent_reasoning_enabled_for_profile());
    assert!(!utility_config.persistent_reasoning_enabled_for_profile());
}

#[test]
fn utility_port_defaults_to_none() {
    let config = ThreadlineConfig::default();

    assert_eq!(config.utility_port, None);
}

fn environment(active: &str, retained: &str) -> JobEnvironment {
    JobEnvironment {
        jobs_enabled: None,
        output_buffer_limit_bytes: None,
        retention_ttl_secs: None,
        max_active_jobs: Some(active.to_string()),
        max_retained_jobs: Some(retained.to_string()),
        allowed_commands: None,
    }
}

#[test]
fn standalone_job_capacity_environment_helper_preserves_zero_and_falls_back() {
    let configured = job_manager_config_from_environment(&environment("0", "0"));
    assert_eq!(configured.max_active_jobs, 0);
    assert_eq!(configured.max_retained_jobs, 0);

    for (active, retained) in [
        ("invalid", "3"),
        ("-1", "3"),
        ("999999999999999999999999999999999999", "3"),
        ("2", "invalid"),
        ("2", "-1"),
        ("2", "999999999999999999999999999999999999"),
    ] {
        let fallback = job_manager_config_from_environment(&environment(active, retained));
        assert_eq!(
            fallback.max_active_jobs,
            active.parse::<usize>().unwrap_or(DEFAULT_MAX_ACTIVE_JOBS)
        );
        assert_eq!(
            fallback.max_retained_jobs,
            retained
                .parse::<usize>()
                .unwrap_or(DEFAULT_MAX_RETAINED_JOBS)
        );
    }
}

#[test]
fn environment_values_fall_back_one_by_one() {
    let configured = job_manager_config_from_environment(&JobEnvironment {
        jobs_enabled: Some("true".to_string()),
        output_buffer_limit_bytes: Some("12".to_string()),
        retention_ttl_secs: Some("2".to_string()),
        max_active_jobs: None,
        max_retained_jobs: None,
        allowed_commands: Some(" cargo ,, git,\trg".to_string()),
    });

    assert!(configured.jobs_enabled);
    assert_eq!(configured.output_buffer_limit_bytes, 12);
    assert_eq!(configured.retention_ttl, 2_000_000_000);
    assert_eq!(configured.max_active_jobs, 16);
    assert_eq!(configured.max_retained_jobs, 128);
    assert_eq!(configured.allowed_commands, vec!["cargo", "git", "rg"]);

    assert!(parse_bool_env_value(Some("yes"), true));
    assert!(!parse_bool_env_value(Some("false"), true));
    assert_eq!(parse_usize_env_value(None, 5), 5);
    assert_eq!(parse_u64_env_value(Some("18446744073709551616"), 5), 5);
    assert_eq!(parse_u64_env_value(Some("18446744073709551615"), 5), u64::MAX);
}

#[test]
fn allowed_commands_are_split_and_trimmed() {
    assert!(split_allowed_commands(None).is_empty());
    assert!(split_allowed_commands(Some(" , ,")).is_empty());
    assert_eq!(split_allowed_commands(Some("a,b")), vec!["a", "b"]);
}

#[test]
fn job_settings_follow_the_configuration() {
    let config = ThreadlineConfig {
        jobs_enabled: true,
        job_retention_ttl_secs: u64::MAX,
        job_allowed_commands: Some("cargo".to_string()),
        ..ThreadlineConfig::default()
    };
    let settings = config.job_manager_config();

    assert!(settings.jobs_enabled);
    assert_eq!(settings.output_buffer_limit_bytes, 32 * 1024);
    assert_eq!(
        settings.retention_ttl,
        u128::from(u64::MAX) * 1_000_000_000
    );
    assert_eq!(settings.allowed_commands, vec!["cargo"]);
}

fn utility_port_restricted_to_main_message() -> &'static str {
    "--utility-port can only be used with the main profile"
}

fn utility_port_must_differ_message() -> &'static str {
    "--utility-port must differ from --port"
}

#[test]
fn split_main_and_utility_configs_accepts_main_profile_with_different_port() {
    let main_config = ThreadlineConfig {
        port: 8100,
        utility_port: Some(8101),
        ..ThreadlineConfig::default()
    };

    let (resolved_main, utility_config) =
        split_main_and_utility_configs(main_config.clone(), 8101).expect("config split");

    assert_eq!(resolved_main, main_config);
    assert_eq!(utility_config.port, 8101);
    assert_eq!(utility_config.profile, RouteProfile::Utility);
}

#[test]
fn split_main_and_utility_configs_rejects_utility_profile() {
    let main_config = ThreadlineConfig {
        profile: RouteProfile::Utility,
        utility_port: Some(8101),
        ..ThreadlineConfig::default()
    };

    let error = split_main_and_utility_configs(main_config, 8101)
        .expect_err("utility profile should be rejected");

    assert!(matches!(
        error,
        ThreadlineError::InvalidServerConfiguration(message)
            if message == utility_port_restricted_to_main_message()
    ));
}

#[test]
fn split_main_and_utility_configs_rejects_same_port() {
    let main_config = ThreadlineConfig {
        port: 8100,
        utility_port: Some(8100),
        ..ThreadlineConfig::default()
    };

    let error = split_main_and_utility_configs(main_config, 8100)
        .expect_err("same utility port should be rejected");

    assert!(matches!(
        error,
        ThreadlineError::InvalidServerConfiguration(message)
            if message == utility_port_must_differ_message()
    ));
}

#[test]
fn split_main_and_utility_configs_derives_stateless_utility_config() {
    let main_config = ThreadlineConfig {
        port: 8100,
        utility_port: Some(8101),
        retained_session_capacity: 9,
        jobs_enabled: true,
        ..ThreadlineConfig::default()
    };

    let (_, utility_config) =
        split_main_and_utility_configs(main_config.clone(), 8101).expect("config split");

    assert_eq!(utility_config.profile, RouteProfile::Utility);
    assert_eq!(utility_config.port, 8101);
    assert_eq!(utility_config.retained_session_capacity, 0);
    assert!(!utility_config.jobs_enabled);

    let mut expected_utility = main_config;
    expected_utility.port = 8101;
    expected_utility.profile = RouteProfile::Utility;
    expected_utility.retained_session_capacity = 0;
    expected_utility.jobs_enabled = false;

    assert_eq!(utility_config, expected_utility);
}

#[test]
fn split_main_and_utility_configs_preserves_main_job_and_retention_settings() {
    let main_config = ThreadlineConfig {
        retained_session_capacity: 11,
        jobs_enabled: true,
        utility_port: Some(8101),
        ..ThreadlineConfig::default()
    };

    let (resolved_main, _) =
        split_main_and_utility_configs(main_config.clone(), 8101).expect("config split");

    assert_eq!(resolved_main.retained_session_capacity, 11);
    assert!(resolved_main.jobs_enabled);
    assert_eq!(resolved_main, main_config);
}

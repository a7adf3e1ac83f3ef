//! The settings of a listener.

use crate::errors::ThreadlineError;
use crate::jobs::manager::{
    ThreadlineJobManagerConfig, DEFAULT_MAX_ACTIVE_JOBS, DEFAULT_MAX_RETAINED_JOBS,
    DEFAULT_OUTPUT_BUFFER_LIMIT_BYTES,
};
use crate::models::RouteProfile;
use crate::text::{
    decimal, decimal_text, is_blank, joined, law_numbers_are_read_as_written,
    law_texts_are_split_at_separators, optional_str, parse_u64, parse_usize, parsed_unsigned,
    same_text, split_on, split_text, texts, trim_text, trimmed, with_separators,
};
use crate::ws_pump::{
    UpstreamInboundLimits, DEFAULT_UPSTREAM_INBOUND_MAX_BYTES,
    DEFAULT_UPSTREAM_INBOUND_MAX_MESSAGES, MAX_UPSTREAM_INBOUND_MAX_BYTES,
    MAX_UPSTREAM_INBOUND_MAX_MESSAGES,
};
use vstd::prelude::*;

verus! {

pub const DEFAULT_HOST: &'static str = "127.0.0.1";

pub const DEFAULT_PORT: u16 = 8100;

pub const DEFAULT_CODEX_CLIENT_VERSION: &'static str = "0.136.0";

pub const DEFAULT_RETAINED_SESSION_CAPACITY: usize = 64;

pub const DEFAULT_JOB_RETENTION_TTL_SECS: u64 = 300;

pub const DEFAULT_LOG_LEVEL: &'static str = "info";

pub const DEFAULT_MAX_REQUEST_BODY_BYTES: usize = 33_554_432;

pub const LOGIN_INSTRUCTIONS_MESSAGE: &'static str =
    "Threadline does not store credentials. Sign in with Codex Desktop or Codex CLI, then run Threadline again.";

pub const UTILITY_PORT_REQUIRES_MAIN_PROFILE_MESSAGE: &'static str =
    "--utility-port can only be used with the main profile";

pub const UTILITY_PORT_MUST_DIFFER_MESSAGE: &'static str = "--utility-port must differ from --port";

/// The settings of a listener.
#[derive(Debug, Clone, PartialEq, Eq)]
pub struct ThreadlineConfig {
    pub host: String,
    pub port: u16,
    pub utility_port: Option<u16>,
    pub profile: RouteProfile,
    pub codex_client_version: String,
    pub retained_session_capacity: usize,
    pub max_request_body_bytes: usize,
    pub upstream_inbound_max_messages: usize,
    pub upstream_inbound_max_bytes: usize,
    pub jobs_enabled: bool,
    pub persistent_reasoning_enabled: bool,
    pub job_output_buffer_limit_bytes: usize,
    pub job_retention_ttl_secs: u64,
    pub job_max_active_jobs: usize,
    pub job_max_retained_jobs: usize,
    pub job_allowed_commands: Option<String>,
    pub log_level: String,
}

impl Default for ThreadlineConfig {
    fn default() -> (config: Self)
        ensures
            config.host@ == DEFAULT_HOST@,
            config.port == DEFAULT_PORT,
            config.utility_port is None,
            config.profile == RouteProfile::Main,
            config.codex_client_version@ == DEFAULT_CODEX_CLIENT_VERSION@,
            config.retained_session_capacity == DEFAULT_RETAINED_SESSION_CAPACITY,
            config.max_request_body_bytes == DEFAULT_MAX_REQUEST_BODY_BYTES,
            config.upstream_inbound_max_messages == DEFAULT_UPSTREAM_INBOUND_MAX_MESSAGES,
            config.upstream_inbound_max_bytes == DEFAULT_UPSTREAM_INBOUND_MAX_BYTES,
            !config.jobs_enabled,
            !config.persistent_reasoning_enabled,
            config.job_output_buffer_limit_bytes == DEFAULT_OUTPUT_BUFFER_LIMIT_BYTES,
            config.job_retention_ttl_secs == DEFAULT_JOB_RETENTION_TTL_SECS,
            config.job_max_active_jobs == DEFAULT_MAX_ACTIVE_JOBS,
            config.job_max_retained_jobs == DEFAULT_MAX_RETAINED_JOBS,
            config.job_allowed_commands is None,
            config.log_level@ == DEFAULT_LOG_LEVEL@,
    {
        ThreadlineConfig {
            host: DEFAULT_HOST.to_owned(),
            port: DEFAULT_PORT,
            utility_port: None,
            profile: RouteProfile::Main,
            codex_client_version: DEFAULT_CODEX_CLIENT_VERSION.to_owned(),
            retained_session_capacity: DEFAULT_RETAINED_SESSION_CAPACITY,
            max_request_body_bytes: DEFAULT_MAX_REQUEST_BODY_BYTES,
            upstream_inbound_max_messages: DEFAULT_UPSTREAM_INBOUND_MAX_MESSAGES,
            upstream_inbound_max_bytes: DEFAULT_UPSTREAM_INBOUND_MAX_BYTES,
            jobs_enabled: false,
            persistent_reasoning_enabled: false,
            job_output_buffer_limit_bytes: DEFAULT_OUTPUT_BUFFER_LIMIT_BYTES,
            job_retention_ttl_secs: DEFAULT_JOB_RETENTION_TTL_SECS,
            job_max_active_jobs: DEFAULT_MAX_ACTIVE_JOBS,
            job_max_retained_jobs: DEFAULT_MAX_RETAINED_JOBS,
            job_allowed_commands: None,
            log_level: DEFAULT_LOG_LEVEL.to_owned(),
        }
    }
}

/// The entries of a list that are not blank, trimmed.
pub open spec fn trimmed_entries(entries: Seq<Seq<char>>) -> Seq<Seq<char>>
    decreases entries.len(),
{
    if entries.len() == 0 {
        Seq::empty()
    } else {
        let earlier = trimmed_entries(entries.drop_last());
        if is_blank(entries.last()) {
            earlier
        } else {
            earlier.push(trimmed(entries.last()))
        }
    }
}

/// The commands that a comma-separated list names.
pub open spec fn listed_commands(value: Option<Seq<char>>) -> Seq<Seq<char>> {
    match value {
        Some(list) => trimmed_entries(split_on(list, ',')),
        None => Seq::empty(),
    }
}

/// The commands that a comma-separated list names.
pub fn split_allowed_commands(value: Option<&str>) -> (commands: Vec<String>)
    ensures
        texts(commands@) == listed_commands(optional_str(value)),
{
    let mut commands: Vec<String> = Vec::new();
    let list = match value {
        Some(list) => list,
        None => {
            assert(texts(commands@) =~= Seq::empty());
            return commands;
        },
    };
    let entries = split_text(list, ',');
    let ghost all = texts(entries@);
    assert(all.take(0) =~= Seq::empty());
    assert(texts(commands@) =~= trimmed_entries(all.take(0)));
    let mut i: usize = 0;
    while i < entries.len()
        invariant
            i <= entries@.len(),
            all == texts(entries@),
            texts(commands@) == trimmed_entries(all.take(i as int)),
        decreases entries@.len() - i,
    {
        let entry = trim_text(entries[i].as_str());
        proof {
            assert(all.take(i + 1).drop_last() =~= all.take(i as int));
            assert(all.take(i + 1).last() == entries@[i as int]@);
        }
        if !entry.is_empty() {
            let ghost listed = texts(commands@);
            commands.push(entry.to_owned());
            assert(texts(commands@) =~= listed.push(entry@));
        }
        i += 1;
    }
    assert(all.take(i as int) =~= all);
    commands
}

/// `settings` are the settings of the job manager.
pub open spec fn is_job_settings(
    settings: ThreadlineJobManagerConfig,
    jobs_enabled: bool,
    output_buffer_limit_bytes: usize,
    retention_ttl_secs: u64,
    max_active_jobs: usize,
    max_retained_jobs: usize,
    allowed_commands: Option<Seq<char>>,
) -> bool {
    &&& settings.jobs_enabled == jobs_enabled
    &&& settings.output_buffer_limit_bytes == output_buffer_limit_bytes
    &&& settings.retention_ttl == retention_ttl_secs * 1_000_000_000
    &&& settings.max_active_jobs == max_active_jobs
    &&& settings.max_retained_jobs == max_retained_jobs
    &&& texts(settings.allowed_commands@) == listed_commands(allowed_commands)
}

impl ThreadlineConfig {
    /// Whether reasoning is kept over the turns: only primary turns can have that.
    pub fn persistent_reasoning_enabled_for_profile(&self) -> (enabled: bool)
        ensures
            enabled == (self.profile == RouteProfile::Main && self.persistent_reasoning_enabled),
    {
        self.profile == RouteProfile::Main && self.persistent_reasoning_enabled
    }

    /// The limits of what may wait to be received from the upstream.
    pub fn upstream_inbound_limits(&self) -> (limits: Result<UpstreamInboundLimits, &'static str>)
        ensures
            match limits {
                Ok(made) => made.wf() && made.max_messages == self.upstream_inbound_max_messages
                    && made.max_bytes == self.upstream_inbound_max_bytes,
                Err(message) => if !(1 <= self.upstream_inbound_max_messages
                    <= MAX_UPSTREAM_INBOUND_MAX_MESSAGES) {
                    message@ == "upstream inbound message limit must be between 1 and 65536"@
                } else {
                    !(1 <= self.upstream_inbound_max_bytes <= MAX_UPSTREAM_INBOUND_MAX_BYTES)
                        && message@ == "upstream inbound byte limit must be between 1 and 67108864"@
                },
            },
    {
        UpstreamInboundLimits::new(
            self.upstream_inbound_max_messages,
            self.upstream_inbound_max_bytes,
        )
    }

    /// The settings of the job manager.
    pub fn job_manager_config(&self) -> (settings: ThreadlineJobManagerConfig)
        ensures
            is_job_settings(
                settings,
                self.jobs_enabled,
                self.job_output_buffer_limit_bytes,
                self.job_retention_ttl_secs,
                self.job_max_active_jobs,
                self.job_max_retained_jobs,
                crate::text::optional_text(self.job_allowed_commands),
            ),
    {
        let list = match &self.job_allowed_commands {
            Some(list) => Some(list.as_str()),
            None => None,
        };
        ThreadlineJobManagerConfig {
            jobs_enabled: self.jobs_enabled,
            output_buffer_limit_bytes: self.job_output_buffer_limit_bytes,
            retention_ttl: nanoseconds(self.job_retention_ttl_secs),
            max_active_jobs: self.job_max_active_jobs,
            max_retained_jobs: self.job_max_retained_jobs,
            allowed_commands: split_allowed_commands(list),
        }
    }

    /// The same settings.
    pub fn copy(&self) -> (config: Self)
        ensures
            config == *self,
    {
        ThreadlineConfig {
            host: self.host.clone(),
            port: self.port,
            utility_port: self.utility_port,
            profile: self.profile,
            codex_client_version: self.codex_client_version.clone(),
            retained_session_capacity: self.retained_session_capacity,
            max_request_body_bytes: self.max_request_body_bytes,
            upstream_inbound_max_messages: self.upstream_inbound_max_messages,
            upstream_inbound_max_bytes: self.upstream_inbound_max_bytes,
            jobs_enabled: self.jobs_enabled,
            persistent_reasoning_enabled: self.persistent_reasoning_enabled,
            job_output_buffer_limit_bytes: self.job_output_buffer_limit_bytes,
            job_retention_ttl_secs: self.job_retention_ttl_secs,
            job_max_active_jobs: self.job_max_active_jobs,
            job_max_retained_jobs: self.job_max_retained_jobs,
            job_allowed_commands: crate::text::copy_text(&self.job_allowed_commands),
            log_level: self.log_level.clone(),
        }
    }
}

fn nanoseconds(seconds: u64) -> (span: u128)
    ensures
        span == seconds * 1_000_000_000,
{
    seconds as u128 * 1_000_000_000
}

/// A number from a text; another where there is none or it is out of range.
pub open spec fn number_or(value: Option<Seq<char>>, maximum: nat, default: nat) -> nat {
    match value {
        Some(text) => match parsed_unsigned(text, maximum) {
            Some(number) => number,
            None => default,
        },
        None => default,
    }
}

/// A truth value from a text; another where it is neither `true` nor `false`.
pub open spec fn flag_or(value: Option<Seq<char>>, default: bool) -> bool {
    match value {
        Some(text) => if text == "true"@ {
            true
        } else if text == "false"@ {
            false
        } else {
            default
        },
        None => default,
    }
}

/// A truth value from a text; another where it is neither `true` nor `false`.
pub fn parse_bool_env_value(value: Option<&str>, default: bool) -> (flag: bool)
    ensures
        flag == flag_or(optional_str(value), default),
{
    match value {
        Some(text) => if same_text(text, "true") {
            true
        } else if same_text(text, "false") {
            false
        } else {
            default
        },
        None => default,
    }
}

/// A number from a text; another where there is none or it is out of range.
pub fn parse_usize_env_value(value: Option<&str>, default: usize) -> (number: usize)
    ensures
        number == number_or(optional_str(value), usize::MAX as nat, default as nat),
{
    match value {
        Some(text) => match parse_usize(text) {
            Some(number) => number,
            None => default,
        },
        None => default,
    }
}

/// A number from a text; another where there is none or it is out of range.
pub fn parse_u64_env_value(value: Option<&str>, default: u64) -> (number: u64)
    ensures
        number == number_or(optional_str(value), u64::MAX as nat, default as nat),
{
    match value {
        Some(text) => match parse_u64(text) {
            Some(number) => number,
            None => default,
        },
        None => default,
    }
}

/// What the environment says of jobs.
#[derive(Debug, Clone)]
pub struct JobEnvironment {
    pub jobs_enabled: Option<String>,
    pub output_buffer_limit_bytes: Option<String>,
    pub retention_ttl_secs: Option<String>,
    pub max_active_jobs: Option<String>,
    pub max_retained_jobs: Option<String>,
    pub allowed_commands: Option<String>,
}

fn borrowed(text: &Option<String>) -> (slice: Option<&str>)
    ensures
        optional_str(slice) == crate::text::optional_text(*text),
{
    match text {
        Some(value) => Some(value.as_str()),
        None => None,
    }
}

/// The settings of the job manager that the environment asks for. What cannot be read counts as not
/// given.
pub fn job_manager_config_from_environment(environment: &JobEnvironment) -> (settings:
    ThreadlineJobManagerConfig)
    ensures
        is_job_settings(
            settings,
            flag_or(crate::text::optional_text(environment.jobs_enabled), false),
            number_or(
                crate::text::optional_text(environment.output_buffer_limit_bytes),
                usize::MAX as nat,
                DEFAULT_OUTPUT_BUFFER_LIMIT_BYTES as nat,
            ) as usize,
            number_or(
                crate::text::optional_text(environment.retention_ttl_secs),
                u64::MAX as nat,
                DEFAULT_JOB_RETENTION_TTL_SECS as nat,
            ) as u64,
            number_or(
                crate::text::optional_text(environment.max_active_jobs),
                usize::MAX as nat,
                DEFAULT_MAX_ACTIVE_JOBS as nat,
            ) as usize,
            number_or(
                crate::text::optional_text(environment.max_retained_jobs),
                usize::MAX as nat,
                DEFAULT_MAX_RETAINED_JOBS as nat,
            ) as usize,
            crate::text::optional_text(environment.allowed_commands),
        ),
{
    ThreadlineJobManagerConfig {
        jobs_enabled: parse_bool_env_value(borrowed(&environment.jobs_enabled), false),
        output_buffer_limit_bytes: parse_usize_env_value(
            borrowed(&environment.output_buffer_limit_bytes),
            DEFAULT_OUTPUT_BUFFER_LIMIT_BYTES,
        ),
        retention_ttl: nanoseconds(
            parse_u64_env_value(
                borrowed(&environment.retention_ttl_secs),
                DEFAULT_JOB_RETENTION_TTL_SECS,
            ),
        ),
        max_active_jobs: parse_usize_env_value(
            borrowed(&environment.max_active_jobs),
            DEFAULT_MAX_ACTIVE_JOBS,
        ),
        max_retained_jobs: parse_usize_env_value(
            borrowed(&environment.max_retained_jobs),
            DEFAULT_MAX_RETAINED_JOBS,
        ),
        allowed_commands: split_allowed_commands(borrowed(&environment.allowed_commands)),
    }
}

/// What is said of a text that is no number.
pub open spec fn not_an_integer_message(minimum: usize, maximum: usize) -> Seq<char> {
    "must be an integer between "@ + decimal_text(minimum as nat) + " and "@ + decimal_text(
        maximum as nat,
    )
}

/// What is said of a number that is out of range.
pub open spec fn out_of_range_message(minimum: usize, maximum: usize) -> Seq<char> {
    "must be between "@ + decimal_text(minimum as nat) + " and "@ + decimal_text(maximum as nat)
}

/// `parsed` is the number that a text denotes within bounds, or says what is wrong.
pub open spec fn is_bounded_number(
    value: Seq<char>,
    minimum: usize,
    maximum: usize,
    parsed: Result<usize, String>,
) -> bool {
    match parsed_unsigned(value, usize::MAX as nat) {
        None => parsed matches Err(message) && message@ == not_an_integer_message(minimum, maximum),
        Some(number) => if minimum <= number <= maximum {
            parsed == Ok::<usize, String>(number as usize)
        } else {
            parsed matches Err(message) && message@ == out_of_range_message(minimum, maximum)
        },
    }
}

fn range_message(opening: &str, minimum: usize, maximum: usize) -> (message: String)
    ensures
        message@ == opening@ + decimal_text(minimum as nat) + " and "@ + decimal_text(
            maximum as nat,
        ),
{
    let mut message = joined(opening, decimal(minimum as u64).as_str());
    message.append(" and ");
    message.append(decimal(maximum as u64).as_str());
    message
}

/// The number that a text denotes within bounds.
pub fn parse_bounded_usize(value: &str, minimum: usize, maximum: usize) -> (parsed: Result<
    usize,
    String,
>)
    ensures
        is_bounded_number(value@, minimum, maximum, parsed),
{
    match parse_usize(value) {
        None => Err(range_message("must be an integer between ", minimum, maximum)),
        Some(number) => if minimum <= number && number <= maximum {
            Ok(number)
        } else {
            Err(range_message("must be between ", minimum, maximum))
        },
    }
}

/// The limit of messages that may wait to be received.
pub fn parse_upstream_inbound_max_messages(value: &str) -> (parsed: Result<usize, String>)
    ensures
        is_bounded_number(value@, 1, MAX_UPSTREAM_INBOUND_MAX_MESSAGES, parsed),
{
    parse_bounded_usize(value, 1, MAX_UPSTREAM_INBOUND_MAX_MESSAGES)
}

/// The limit of the size of a request.
pub fn parse_max_request_body_bytes(value: &str) -> (parsed: Result<usize, String>)
    ensures
        is_bounded_number(value@, 1, usize::MAX, parsed),
{
    parse_bounded_usize(value, 1, usize::MAX)
}

/// The limit of bytes that may wait to be received.
pub fn parse_upstream_inbound_max_bytes(value: &str) -> (parsed: Result<usize, String>)
    ensures
        is_bounded_number(value@, 1, MAX_UPSTREAM_INBOUND_MAX_BYTES, parsed),
{
    parse_bounded_usize(value, 1, MAX_UPSTREAM_INBOUND_MAX_BYTES)
}

/// Why a second listener is not possible.
pub open spec fn second_listener_problem(config: ThreadlineConfig, utility_port: u16) -> Option<
    Seq<char>,
> {
    if config.profile != RouteProfile::Main {
        Some(UTILITY_PORT_REQUIRES_MAIN_PROFILE_MESSAGE@)
    } else if config.port == utility_port {
        Some(UTILITY_PORT_MUST_DIFFER_MESSAGE@)
    } else {
        None
    }
}

/// The settings of a second listener: it serves utility turns, and keeps neither sessions nor jobs.
pub open spec fn utility_settings(config: ThreadlineConfig, utility_port: u16) -> ThreadlineConfig {
    ThreadlineConfig {
        port: utility_port,
        profile: RouteProfile::Utility,
        retained_session_capacity: 0,
        jobs_enabled: false,
        ..config
    }
}

/// The settings of the first listener and of the second.
pub fn split_main_and_utility_configs(main_config: ThreadlineConfig, utility_port: u16) -> (configs:
    Result<(ThreadlineConfig, ThreadlineConfig), ThreadlineError>)
    ensures
        match second_listener_problem(main_config, utility_port) {
            Some(problem) => configs matches Err(
                ThreadlineError::InvalidServerConfiguration(message),
            ) && message@ == problem,
            None => configs matches Ok((first, second)) && first == main_config && second
                == utility_settings(main_config, utility_port),
        },
{
    if main_config.profile != RouteProfile::Main {
        return Err(
            ThreadlineError::InvalidServerConfiguration(
                UTILITY_PORT_REQUIRES_MAIN_PROFILE_MESSAGE.to_owned(),
            ),
        );
    }
    if main_config.port == utility_port {
        return Err(
            ThreadlineError::InvalidServerConfiguration(
                UTILITY_PORT_MUST_DIFFER_MESSAGE.to_owned(),
            ),
        );
    }
    let mut utility_config = main_config.copy();
    utility_config.port = utility_port;
    utility_config.profile = RouteProfile::Utility;
    utility_config.retained_session_capacity = 0;
    utility_config.jobs_enabled = false;
    Ok((main_config, utility_config))
}

/// The second listener is stateless whatever the first one does.
pub proof fn law_utility_listener_is_stateless(config: ThreadlineConfig, utility_port: u16)
    requires
        second_listener_problem(config, utility_port) is None,
    ensures
        utility_settings(config, utility_port).retained_session_capacity == 0,
        !utility_settings(config, utility_port).jobs_enabled,
        utility_settings(config, utility_port).profile == RouteProfile::Utility,
        utility_settings(config, utility_port).port != config.port,
{
}

proof fn lemma_trimmed_entries(entries: Seq<Seq<char>>)
    ensures
        trimmed_entries(entries) == entries.filter(|entry: Seq<char>| !is_blank(entry)).map_values(
            |entry: Seq<char>| trimmed(entry),
        ),
    decreases entries.len(),
{
    reveal(Seq::filter);
    let is_given = |entry: Seq<char>| !is_blank(entry);
    let trim = |entry: Seq<char>| trimmed(entry);
    if entries.len() == 0 {
        assert(trimmed_entries(entries) =~= entries.filter(is_given).map_values(trim));
    } else {
        lemma_trimmed_entries(entries.drop_last());
        assert(trimmed_entries(entries) =~= entries.filter(is_given).map_values(trim));
    }
}

/// The commands that are allowed are the parts of the list between commas, without the white space
/// around them; empty parts are left out. Without a list no command is allowed.
pub proof fn law_allowed_commands_stand_between_commas(list: Seq<char>)
    ensures
        listed_commands(None).len() == 0,
        exists|parts: Seq<Seq<char>>| #[trigger]
            with_separators(parts, ',') == list && listed_commands(Some(list)) == parts.filter(
                |part: Seq<char>| !is_blank(part),
            ).map_values(|part: Seq<char>| trimmed(part)) && forall|i: int|
                0 <= i < parts.len() ==> !(#[trigger] parts[i]).contains(','),
{
    let parts = split_on(list, ',');
    law_texts_are_split_at_separators(list, ',');
    lemma_trimmed_entries(parts);
    assert(with_separators(parts, ',') == list);
}

/// A number within its range is read as it is written, and one out of range is refused with the
/// range.
pub proof fn law_bounded_numbers_are_read_as_written(
    number: usize,
    minimum: usize,
    maximum: usize,
    parsed: Result<usize, String>,
)
    requires
        is_bounded_number(decimal_text(number as nat), minimum, maximum, parsed),
    ensures
        minimum <= number <= maximum ==> parsed == Ok::<usize, String>(number),
        !(minimum <= number <= maximum) ==> (parsed matches Err(message) && message@
            == "must be between "@ + decimal_text(minimum as nat) + " and "@ + decimal_text(
            maximum as nat,
        )),
{
    law_numbers_are_read_as_written(number as nat, usize::MAX as nat);
}

/// A setting that is a number or a truth value is taken where it can be read, and the default
/// otherwise.
pub proof fn law_settings_fall_back_to_their_default(
    number: nat,
    maximum: nat,
    default: nat,
    text: Seq<char>,
    default_flag: bool,
)
    ensures
        number_or(Some(decimal_text(number)), maximum, default) == (if number <= maximum {
            number
        } else {
            default
        }),
        number_or(None, maximum, default) == default,
        number_or(Some(Seq::empty()), maximum, default) == default,
        flag_or(Some("true"@), default_flag),
        !flag_or(Some("false"@), default_flag),
        flag_or(None, default_flag) == default_flag,
        text != "true"@ && text != "false"@ ==> flag_or(Some(text), default_flag) == default_flag,
{
    law_numbers_are_read_as_written(number, maximum);
    reveal_strlit("true");
    reveal_strlit("false");
    assert("true"@.len() == 4 && "false"@.len() == 5);
}

/// A second listener serves utility turns on its own port, without sessions and without jobs. All
/// other settings are those of the first. It is refused exactly when the first serves no primary
/// turns or has the same port.
pub proof fn law_second_listener_shares_the_settings(config: ThreadlineConfig, utility_port: u16)
    ensures
        second_listener_problem(config, utility_port) is None <==> (config.profile
            == RouteProfile::Main && config.port != utility_port),
        utility_settings(config, utility_port) == (ThreadlineConfig {
            port: utility_port,
            profile: RouteProfile::Utility,
            retained_session_capacity: 0,
            jobs_enabled: false,
            ..config
        }),
{
}

/// The settings for jobs are those that were given: each limit as it is, the retention time in
/// nanoseconds for seconds, and the commands of the list.
pub proof fn law_job_settings_are_taken_over(
    settings: ThreadlineJobManagerConfig,
    jobs_enabled: bool,
    output_buffer_limit_bytes: usize,
    retention_ttl_secs: u64,
    max_active_jobs: usize,
    max_retained_jobs: usize,
    allowed_commands: Option<Seq<char>>,
)
    requires
        is_job_settings(
            settings,
            jobs_enabled,
            output_buffer_limit_bytes,
            retention_ttl_secs,
            max_active_jobs,
            max_retained_jobs,
            allowed_commands,
        ),
    ensures
        settings.jobs_enabled == jobs_enabled,
        settings.output_buffer_limit_bytes == output_buffer_limit_bytes,
        settings.retention_ttl == retention_ttl_secs * 1_000_000_000,
        settings.max_active_jobs == max_active_jobs,
        settings.max_retained_jobs == max_retained_jobs,
        settings.allowed_commands@.len() == listed_commands(allowed_commands).len(),
        forall|i: int|
            0 <= i < settings.allowed_commands@.len() ==> (
            #[trigger] settings.allowed_commands@[i])@ == listed_commands(allowed_commands)[i],
{
    assert forall|i: int| 0 <= i < settings.allowed_commands@.len() implies (
    #[trigger] settings.allowed_commands@[i])@ == listed_commands(allowed_commands)[i] by {
        assert(texts(settings.allowed_commands@)[i] == settings.allowed_commands@[i]@);
    }
}

} // verus!

//! Application configuration: each setting comes from an environment
//! variable or its default, is parsed the way std's `str::parse` does, and a
//! few counts must be at least 1.

use vstd::prelude::*;

use crate::numbers::{
    parse_bool_spec, parse_bool_str, parse_i64_str, parse_signed, parse_unsigned,
    parse_unsigned_str,
};
use crate::text::{decimal, owned, push_decimal, push_str_chars, str_eq, string_from_chars, trim, trim_string};

verus! {

/// The raw value of each configuration variable, `None` where it is unset.
pub struct ConfigSource {
    pub app_host: Option<String>,
    pub app_port: Option<String>,
    pub database_url: Option<String>,
    pub openai_api_key: Option<String>,
    pub openai_model: Option<String>,
    pub openai_base_url: Option<String>,
    pub search_api_key: Option<String>,
    pub search_provider: Option<String>,
    pub max_iterations: Option<String>,
    pub max_sources_per_iteration: Option<String>,
    pub max_concurrent_runs: Option<String>,
    pub scheduler_enabled: Option<String>,
    pub scheduler_check_interval_secs: Option<String>,
    pub scheduler_max_concurrent_runs: Option<String>,
    pub scheduler_min_ticker_age_hours: Option<String>,
}

pub struct Config {
    pub host: String,
    pub port: u16,
    pub database_url: String,
    pub openai_api_key: String,
    pub openai_model: String,
    pub openai_base_url: String,
    pub search_api_key: String,
    pub search_provider: String,
    pub max_iterations: u32,
    pub max_sources_per_iteration: usize,
    /// Global cap on concurrent orchestrator runs across every entry point.
    pub max_concurrent_runs: usize,
    pub scheduler_enabled: bool,
    pub scheduler_check_interval_secs: u64,
    pub scheduler_max_concurrent_runs: usize,
    pub scheduler_min_ticker_age_hours: i64,
}

/// The settings that are parsed rather than taken as text.
#[derive(PartialEq, Eq, Structural)]
pub enum ConfigSetting {
    AppPort,
    MaxIterations,
    MaxSourcesPerIteration,
    MaxConcurrentRuns,
    SchedulerEnabled,
    SchedulerCheckIntervalSecs,
    SchedulerMaxConcurrentRuns,
    SchedulerMinTickerAgeHours,
}

/// The counts that must be at least 1.
#[derive(PartialEq, Eq, Structural)]
pub enum CountSetting {
    MaxIterations,
    MaxSourcesPerIteration,
    MaxConcurrentRuns,
    SchedulerCheckIntervalSecs,
    SchedulerMaxConcurrentRuns,
}

#[derive(PartialEq, Eq, Structural)]
pub enum ConfigError {
    /// The value does not parse as the setting's type.
    InvalidValue(ConfigSetting),
    /// The value parses but is 0 where at least 1 is required.
    MustBePositive(CountSetting),
}

/// The value of a variable, or `default` when it is unset.
pub open spec fn setting_value(v: Option<String>, default: Seq<char>) -> Seq<char> {
    match v {
        Some(s) => s@,
        None => default,
    }
}

pub open spec fn port_value(src: ConfigSource) -> Option<nat> {
    parse_unsigned(setting_value(src.app_port, "3000"@), u16::MAX as nat)
}

pub open spec fn max_iterations_value(src: ConfigSource) -> Option<nat> {
    parse_unsigned(setting_value(src.max_iterations, "3"@), u32::MAX as nat)
}

pub open spec fn max_sources_value(src: ConfigSource) -> Option<nat> {
    parse_unsigned(setting_value(src.max_sources_per_iteration, "8"@), usize::MAX as nat)
}

pub open spec fn max_concurrent_value(src: ConfigSource) -> Option<nat> {
    parse_unsigned(setting_value(src.max_concurrent_runs, "5"@), usize::MAX as nat)
}

pub open spec fn scheduler_enabled_value(src: ConfigSource) -> Option<bool> {
    parse_bool_spec(setting_value(src.scheduler_enabled, "true"@))
}

pub open spec fn check_interval_value(src: ConfigSource) -> Option<nat> {
    parse_unsigned(setting_value(src.scheduler_check_interval_secs, "60"@), u64::MAX as nat)
}

pub open spec fn scheduler_max_value(src: ConfigSource) -> Option<nat> {
    parse_unsigned(setting_value(src.scheduler_max_concurrent_runs, "3"@), usize::MAX as nat)
}

pub open spec fn min_age_value(src: ConfigSource) -> Option<int> {
    parse_signed(
        setting_value(src.scheduler_min_ticker_age_hours, "24"@),
        i64::MIN as int,
        i64::MAX as int,
    )
}

/// The error that loading reports: the first setting, in the order listed,
/// that does not parse; otherwise the first count that is 0.
pub open spec fn config_error(src: ConfigSource) -> Option<ConfigError> {
    if port_value(src) is None {
        Some(ConfigError::InvalidValue(ConfigSetting::AppPort))
    } else if max_iterations_value(src) is None {
        Some(ConfigError::InvalidValue(ConfigSetting::MaxIterations))
    } else if max_sources_value(src) is None {
        Some(ConfigError::InvalidValue(ConfigSetting::MaxSourcesPerIteration))
    } else if max_concurrent_value(src) is None {
        Some(ConfigError::InvalidValue(ConfigSetting::MaxConcurrentRuns))
    } else if scheduler_enabled_value(src) is None {
        Some(ConfigError::InvalidValue(ConfigSetting::SchedulerEnabled))
    } else if check_interval_value(src) is None {
        Some(ConfigError::InvalidValue(ConfigSetting::SchedulerCheckIntervalSecs))
    } else if scheduler_max_value(src) is None {
        Some(ConfigError::InvalidValue(ConfigSetting::SchedulerMaxConcurrentRuns))
    } else if min_age_value(src) is None {
        Some(ConfigError::InvalidValue(ConfigSetting::SchedulerMinTickerAgeHours))
    } else if max_iterations_value(src) == Some(0nat) {
        Some(ConfigError::MustBePositive(CountSetting::MaxIterations))
    } else if max_sources_value(src) == Some(0nat) {
        Some(ConfigError::MustBePositive(CountSetting::MaxSourcesPerIteration))
    } else if max_concurrent_value(src) == Some(0nat) {
        Some(ConfigError::MustBePositive(CountSetting::MaxConcurrentRuns))
    } else if check_interval_value(src) == Some(0nat) {
        Some(ConfigError::MustBePositive(CountSetting::SchedulerCheckIntervalSecs))
    } else if scheduler_max_value(src) == Some(0nat) {
        Some(ConfigError::MustBePositive(CountSetting::SchedulerMaxConcurrentRuns))
    } else {
        None
    }
}

/// Every field of `c` is the (parsed) value of its variable or default.
pub open spec fn config_from(c: Config, src: ConfigSource) -> bool {
    &&& c.host@ == setting_value(src.app_host, "127.0.0.1"@)
    &&& port_value(src) == Some(c.port as nat)
    &&& c.database_url@ == setting_value(src.database_url, "sqlite://autothesis.db"@)
    &&& c.openai_api_key@ == setting_value(src.openai_api_key, ""@)
    &&& c.openai_model@ == setting_value(src.openai_model, "gpt-4.1-mini"@)
    &&& c.openai_base_url@ == setting_value(src.openai_base_url, "https://api.openai.com/v1"@)
    &&& c.search_api_key@ == setting_value(src.search_api_key, ""@)
    &&& c.search_provider@ == setting_value(src.search_provider, "tavily"@)
    &&& max_iterations_value(src) == Some(c.max_iterations as nat)
    &&& max_sources_value(src) == Some(c.max_sources_per_iteration as nat)
    &&& max_concurrent_value(src) == Some(c.max_concurrent_runs as nat)
    &&& scheduler_enabled_value(src) == Some(c.scheduler_enabled)
    &&& check_interval_value(src) == Some(c.scheduler_check_interval_secs as nat)
    &&& scheduler_max_value(src) == Some(c.scheduler_max_concurrent_runs as nat)
    &&& min_age_value(src) == Some(c.scheduler_min_ticker_age_hours as int)
}

/// The value of a variable, or `default` when it is unset.
fn env_or(value: &Option<String>, default: &str) -> (res: String)
    ensures
        res@ == setting_value(*value, default@),
{
    match value {
        Some(v) => v.clone(),
        None => owned(default),
    }
}

impl ConfigError {
    /// The message reported for this error.
    pub fn message(&self) -> (res: String)
        ensures
            res@ == config_error_message(*self),
    {
        match self {
            ConfigError::InvalidValue(ConfigSetting::AppPort) => owned(
                "APP_PORT must be a valid u16",
            ),
            ConfigError::InvalidValue(ConfigSetting::MaxIterations) => owned(
                "MAX_ITERATIONS must be a valid u32",
            ),
            ConfigError::InvalidValue(ConfigSetting::MaxSourcesPerIteration) => owned(
                "MAX_SOURCES_PER_ITERATION must be a valid usize",
            ),
            ConfigError::InvalidValue(ConfigSetting::MaxConcurrentRuns) => owned(
                "MAX_CONCURRENT_RUNS must be a valid usize",
            ),
            ConfigError::InvalidValue(ConfigSetting::SchedulerEnabled) => owned(
                "SCHEDULER_ENABLED must be a valid boolean",
            ),
            ConfigError::InvalidValue(ConfigSetting::SchedulerCheckIntervalSecs) => owned(
                "SCHEDULER_CHECK_INTERVAL_SECS must be a valid u64",
            ),
            ConfigError::InvalidValue(ConfigSetting::SchedulerMaxConcurrentRuns) => owned(
                "SCHEDULER_MAX_CONCURRENT_RUNS must be a valid usize",
            ),
            ConfigError::InvalidValue(ConfigSetting::SchedulerMinTickerAgeHours) => owned(
                "SCHEDULER_MIN_TICKER_AGE_HOURS must be a valid i64",
            ),
            ConfigError::MustBePositive(CountSetting::MaxIterations) => owned(
                "MAX_ITERATIONS must be at least 1",
            ),
            ConfigError::MustBePositive(CountSetting::MaxSourcesPerIteration) => owned(
                "MAX_SOURCES_PER_ITERATION must be at least 1",
            ),
            ConfigError::MustBePositive(CountSetting::MaxConcurrentRuns) => owned(
                "MAX_CONCURRENT_RUNS must be at least 1",
            ),
            ConfigError::MustBePositive(CountSetting::SchedulerCheckIntervalSecs) => owned(
                "SCHEDULER_CHECK_INTERVAL_SECS must be at least 1",
            ),
            ConfigError::MustBePositive(CountSetting::SchedulerMaxConcurrentRuns) => owned(
                "SCHEDULER_MAX_CONCURRENT_RUNS must be at least 1",
            ),
        }
    }
}

/// The variable name of a setting.
pub open spec fn setting_name(s: ConfigSetting) -> Seq<char> {
    match s {
        ConfigSetting::AppPort => "APP_PORT"@,
        ConfigSetting::MaxIterations => "MAX_ITERATIONS"@,
        ConfigSetting::MaxSourcesPerIteration => "MAX_SOURCES_PER_ITERATION"@,
        ConfigSetting::MaxConcurrentRuns => "MAX_CONCURRENT_RUNS"@,
        ConfigSetting::SchedulerEnabled => "SCHEDULER_ENABLED"@,
        ConfigSetting::SchedulerCheckIntervalSecs => "SCHEDULER_CHECK_INTERVAL_SECS"@,
        ConfigSetting::SchedulerMaxConcurrentRuns => "SCHEDULER_MAX_CONCURRENT_RUNS"@,
        ConfigSetting::SchedulerMinTickerAgeHours => "SCHEDULER_MIN_TICKER_AGE_HOURS"@,
    }
}

/// The message of each error, as loading reports it.
pub open spec fn config_error_message(e: ConfigError) -> Seq<char> {
    match e {
        ConfigError::InvalidValue(ConfigSetting::AppPort) => "APP_PORT must be a valid u16"@,
        ConfigError::InvalidValue(ConfigSetting::MaxIterations) =>
            "MAX_ITERATIONS must be a valid u32"@,
        ConfigError::InvalidValue(ConfigSetting::MaxSourcesPerIteration) =>
            "MAX_SOURCES_PER_ITERATION must be a valid usize"@,
        ConfigError::InvalidValue(ConfigSetting::MaxConcurrentRuns) =>
            "MAX_CONCURRENT_RUNS must be a valid usize"@,
        ConfigError::InvalidValue(ConfigSetting::SchedulerEnabled) =>
            "SCHEDULER_ENABLED must be a valid boolean"@,
        ConfigError::InvalidValue(ConfigSetting::SchedulerCheckIntervalSecs) =>
            "SCHEDULER_CHECK_INTERVAL_SECS must be a valid u64"@,
        ConfigError::InvalidValue(ConfigSetting::SchedulerMaxConcurrentRuns) =>
            "SCHEDULER_MAX_CONCURRENT_RUNS must be a valid usize"@,
        ConfigError::InvalidValue(ConfigSetting::SchedulerMinTickerAgeHours) =>
            "SCHEDULER_MIN_TICKER_AGE_HOURS must be a valid i64"@,
        ConfigError::MustBePositive(CountSetting::MaxIterations) =>
            "MAX_ITERATIONS must be at least 1"@,
        ConfigError::MustBePositive(CountSetting::MaxSourcesPerIteration) =>
            "MAX_SOURCES_PER_ITERATION must be at least 1"@,
        ConfigError::MustBePositive(CountSetting::MaxConcurrentRuns) =>
            "MAX_CONCURRENT_RUNS must be at least 1"@,
        ConfigError::MustBePositive(CountSetting::SchedulerCheckIntervalSecs) =>
            "SCHEDULER_CHECK_INTERVAL_SECS must be at least 1"@,
        ConfigError::MustBePositive(CountSetting::SchedulerMaxConcurrentRuns) =>
            "SCHEDULER_MAX_CONCURRENT_RUNS must be at least 1"@,
    }
}

impl Config {
    /// Builds the configuration from the variables' values: unset ones take
    /// their defaults; fails with the first value that does not parse, then
    /// with the first count that is 0.
    pub fn from_source(src: &ConfigSource) -> (res: Result<Config, ConfigError>)
        ensures
            res is Err <==> config_error(*src) is Some,
            res matches Err(e) ==> config_error(*src) == Some(e),
            res matches Ok(c) ==> config_from(c, *src),
    {
        let host = env_or(&src.app_host, "127.0.0.1");
        let port_text = env_or(&src.app_port, "3000");
        let port = match parse_unsigned_str(port_text.as_str(), 65535) {
            Some(v) => v as u16,
            None => return Err(ConfigError::InvalidValue(ConfigSetting::AppPort)),
        };
        let database_url = env_or(&src.database_url, "sqlite://autothesis.db");
        let openai_api_key = env_or(&src.openai_api_key, "");
        let openai_model = env_or(&src.openai_model, "gpt-4.1-mini");
        let openai_base_url = env_or(&src.openai_base_url, "https://api.openai.com/v1");
        let search_api_key = env_or(&src.search_api_key, "");
        let search_provider = env_or(&src.search_provider, "tavily");
        let text = env_or(&src.max_iterations, "3");
        let max_iterations = match parse_unsigned_str(text.as_str(), 0xffff_ffff) {
            Some(v) => v as u32,
            None => return Err(ConfigError::InvalidValue(ConfigSetting::MaxIterations)),
        };
        let text = env_or(&src.max_sources_per_iteration, "8");
        let max_sources_per_iteration = match parse_unsigned_str(text.as_str(), usize::MAX as u64) {
            Some(v) => v as usize,
            None => return Err(ConfigError::InvalidValue(ConfigSetting::MaxSourcesPerIteration)),
        };
        let text = env_or(&src.max_concurrent_runs, "5");
        let max_concurrent_runs = match parse_unsigned_str(text.as_str(), usize::MAX as u64) {
            Some(v) => v as usize,
            None => return Err(ConfigError::InvalidValue(ConfigSetting::MaxConcurrentRuns)),
        };
        let text = env_or(&src.scheduler_enabled, "true");
        let scheduler_enabled = match parse_bool_str(text.as_str()) {
            Some(v) => v,
            None => return Err(ConfigError::InvalidValue(ConfigSetting::SchedulerEnabled)),
        };
        let text = env_or(&src.scheduler_check_interval_secs, "60");
        let scheduler_check_interval_secs = match parse_unsigned_str(text.as_str(), u64::MAX) {
            Some(v) => v,
            None => return Err(
                ConfigError::InvalidValue(ConfigSetting::SchedulerCheckIntervalSecs),
            ),
        };
        let text = env_or(&src.scheduler_max_concurrent_runs, "3");
        let scheduler_max_concurrent_runs = match parse_unsigned_str(
            text.as_str(),
            usize::MAX as u64,
        ) {
            Some(v) => v as usize,
            None => return Err(
                ConfigError::InvalidValue(ConfigSetting::SchedulerMaxConcurrentRuns),
            ),
        };
        let text = env_or(&src.scheduler_min_ticker_age_hours, "24");
        let scheduler_min_ticker_age_hours = match parse_i64_str(text.as_str()) {
            Some(v) => v,
            None => return Err(
                ConfigError::InvalidValue(ConfigSetting::SchedulerMinTickerAgeHours),
            ),
        };

        if max_iterations == 0 {
            return Err(ConfigError::MustBePositive(CountSetting::MaxIterations));
        }
        if max_sources_per_iteration == 0 {
            return Err(ConfigError::MustBePositive(CountSetting::MaxSourcesPerIteration));
        }
        if max_concurrent_runs == 0 {
            return Err(ConfigError::MustBePositive(CountSetting::MaxConcurrentRuns));
        }
        if scheduler_check_interval_secs == 0 {
            return Err(ConfigError::MustBePositive(CountSetting::SchedulerCheckIntervalSecs));
        }
        if scheduler_max_concurrent_runs == 0 {
            return Err(ConfigError::MustBePositive(CountSetting::SchedulerMaxConcurrentRuns));
        }

        Ok(Config {
            host,
            port,
            database_url,
            openai_api_key,
            openai_model,
            openai_base_url,
            search_api_key,
            search_provider,
            max_iterations,
            max_sources_per_iteration,
            max_concurrent_runs,
            scheduler_enabled,
            scheduler_check_interval_secs,
            scheduler_max_concurrent_runs,
            scheduler_min_ticker_age_hours,
        })
    }

    /// The listening address, `host:port`.
    pub fn address(&self) -> (res: String)
        ensures
            res@ == self.host@ + seq![':'] + decimal(self.port as nat),
    {
        let mut out: Vec<char> = Vec::new();
        push_str_chars(&mut out, self.host.as_str());
        out.push(':');
        push_decimal(&mut out, self.port as u64);
        string_from_chars(&out)
    }
}

/// The research question asked when none is given for `ticker`.
pub open spec fn default_question(ticker: Seq<char>) -> Seq<char> {
    "What is the current bull and bear case for "@ + ticker
        + ", and what would need to be true for the valuation to make sense?"@
}

pub fn default_question_for_ticker(ticker: &str) -> (res: String)
    ensures
        res@ == default_question(ticker@),
{
    let mut out: Vec<char> = Vec::new();
    push_str_chars(&mut out, "What is the current bull and bear case for ");
    push_str_chars(&mut out, ticker);
    push_str_chars(
        &mut out,
        ", and what would need to be true for the valuation to make sense?",
    );
    string_from_chars(&out)
}

/// Why the application refuses to start with a configuration.
pub enum StartupError {
    MissingOpenAiKey,
    MissingSearchKey,
    UnsupportedSearchProvider(String),
}

/// The search providers the application can use.
pub enum SearchProviderKind {
    Tavily,
}

impl StartupError {
    pub fn message(&self) -> (res: String)
        ensures
            self is MissingOpenAiKey ==> res@ == "OPENAI_API_KEY is required"@,
            self is MissingSearchKey ==> res@ == "SEARCH_API_KEY is required"@,
            self matches StartupError::UnsupportedSearchProvider(p) ==> res@
                == "unsupported SEARCH_PROVIDER: "@ + p@,
    {
        match self {
            StartupError::MissingOpenAiKey => owned("OPENAI_API_KEY is required"),
            StartupError::MissingSearchKey => owned("SEARCH_API_KEY is required"),
            StartupError::UnsupportedSearchProvider(p) => {
                let mut out: Vec<char> = Vec::new();
                push_str_chars(&mut out, "unsupported SEARCH_PROVIDER: ");
                push_str_chars(&mut out, p.as_str());
                string_from_chars(&out)
            },
        }
    }
}

/// The checks made before the providers are built: both API keys must be
/// non-blank, and the search provider must be `tavily`.
pub fn check_startup_settings(c: &Config) -> (res: Result<SearchProviderKind, StartupError>)
    ensures
        trim(c.openai_api_key@).len() == 0 ==> res matches Err(StartupError::MissingOpenAiKey),
        trim(c.openai_api_key@).len() > 0 && trim(c.search_api_key@).len() == 0 ==> res matches Err(
            StartupError::MissingSearchKey,
        ),
        trim(c.openai_api_key@).len() > 0 && trim(c.search_api_key@).len() > 0 ==> (if c.search_provider@
            == "tavily"@ {
            res matches Ok(SearchProviderKind::Tavily)
        } else {
            res matches Err(StartupError::UnsupportedSearchProvider(p)) && p@ == c.search_provider@
        }),
{
    if trim_string(c.openai_api_key.as_str()).as_str().is_empty() {
        return Err(StartupError::MissingOpenAiKey);
    }
    if trim_string(c.search_api_key.as_str()).as_str().is_empty() {
        return Err(StartupError::MissingSearchKey);
    }
    if str_eq(c.search_provider.as_str(), "tavily") {
        Ok(SearchProviderKind::Tavily)
    } else {
        Err(StartupError::UnsupportedSearchProvider(c.search_provider.clone()))
    }
}

/// Every setting of a loaded configuration comes from its own variable: the
/// variable's text where it is set, its default where it is unset, and for
/// a number or flag, that text parsed. No setting is taken from another
/// variable.
pub proof fn law_settings_come_from_their_own_variables(c: Config, src: ConfigSource)
    requires
        config_from(c, src),
    ensures
        src.app_host matches Some(v) ==> c.host@ == v@,
        src.app_host is None ==> c.host@ == "127.0.0.1"@,
        src.database_url matches Some(v) ==> c.database_url@ == v@,
        src.database_url is None ==> c.database_url@ == "sqlite://autothesis.db"@,
        src.openai_api_key matches Some(v) ==> c.openai_api_key@ == v@,
        src.openai_api_key is None ==> c.openai_api_key@ == ""@,
        src.openai_model matches Some(v) ==> c.openai_model@ == v@,
        src.openai_model is None ==> c.openai_model@ == "gpt-4.1-mini"@,
        src.openai_base_url matches Some(v) ==> c.openai_base_url@ == v@,
        src.openai_base_url is None ==> c.openai_base_url@ == "https://api.openai.com/v1"@,
        src.search_api_key matches Some(v) ==> c.search_api_key@ == v@,
        src.search_api_key is None ==> c.search_api_key@ == ""@,
        src.search_provider matches Some(v) ==> c.search_provider@ == v@,
        src.search_provider is None ==> c.search_provider@ == "tavily"@,
        parse_unsigned(match src.app_port { Some(v) => v@, None => "3000"@ }, u16::MAX as nat) == Some(c.port as nat),
        parse_unsigned(match src.max_iterations { Some(v) => v@, None => "3"@ }, u32::MAX as nat) == Some(c.max_iterations as nat),
        parse_unsigned(match src.max_sources_per_iteration { Some(v) => v@, None => "8"@ }, usize::MAX as nat) == Some(c.max_sources_per_iteration as nat),
        parse_unsigned(match src.max_concurrent_runs { Some(v) => v@, None => "5"@ }, usize::MAX as nat) == Some(c.max_concurrent_runs as nat),
        parse_unsigned(match src.scheduler_check_interval_secs { Some(v) => v@, None => "60"@ }, u64::MAX as nat) == Some(c.scheduler_check_interval_secs as nat),
        parse_unsigned(match src.scheduler_max_concurrent_runs { Some(v) => v@, None => "3"@ }, usize::MAX as nat) == Some(c.scheduler_max_concurrent_runs as nat),
        parse_bool_spec(match src.scheduler_enabled { Some(v) => v@, None => "true"@ }) == Some(c.scheduler_enabled),
        parse_signed(match src.scheduler_min_ticker_age_hours { Some(v) => v@, None => "24"@ }, i64::MIN as int, i64::MAX as int) == Some(c.scheduler_min_ticker_age_hours as int),
{
}

/// An error reported by loading names a variable whose own text is at fault:
/// an invalid value does not parse as that setting's type, and a count that
/// must be positive parses to 0.
pub proof fn law_config_error_names_a_faulty_variable(src: ConfigSource)
    ensures
        config_error(src) == Some(ConfigError::InvalidValue(ConfigSetting::AppPort)) ==> parse_unsigned((match src.app_port { Some(v) => v@, None => "3000"@ }), u16::MAX as nat) is None,
        config_error(src) == Some(ConfigError::InvalidValue(ConfigSetting::MaxIterations)) ==> parse_unsigned((match src.max_iterations { Some(v) => v@, None => "3"@ }), u32::MAX as nat) is None,
        config_error(src) == Some(ConfigError::InvalidValue(ConfigSetting::MaxSourcesPerIteration)) ==> parse_unsigned((match src.max_sources_per_iteration { Some(v) => v@, None => "8"@ }), usize::MAX as nat) is None,
        config_error(src) == Some(ConfigError::InvalidValue(ConfigSetting::MaxConcurrentRuns)) ==> parse_unsigned((match src.max_concurrent_runs { Some(v) => v@, None => "5"@ }), usize::MAX as nat) is None,
        config_error(src) == Some(ConfigError::InvalidValue(ConfigSetting::SchedulerEnabled)) ==> parse_bool_spec((match src.scheduler_enabled { Some(v) => v@, None => "true"@ })) is None,
        config_error(src) == Some(ConfigError::InvalidValue(ConfigSetting::SchedulerCheckIntervalSecs)) ==> parse_unsigned((match src.scheduler_check_interval_secs { Some(v) => v@, None => "60"@ }), u64::MAX as nat) is None,
        config_error(src) == Some(ConfigError::InvalidValue(ConfigSetting::SchedulerMaxConcurrentRuns)) ==> parse_unsigned((match src.scheduler_max_concurrent_runs { Some(v) => v@, None => "3"@ }), usize::MAX as nat) is None,
        config_error(src) == Some(ConfigError::InvalidValue(ConfigSetting::SchedulerMinTickerAgeHours)) ==> parse_signed((match src.scheduler_min_ticker_age_hours { Some(v) => v@, None => "24"@ }), i64::MIN as int, i64::MAX as int) is None,
        config_error(src) == Some(ConfigError::MustBePositive(CountSetting::MaxIterations)) ==> parse_unsigned((match src.max_iterations { Some(v) => v@, None => "3"@ }), u32::MAX as nat) == Some(0nat),
        config_error(src) == Some(ConfigError::MustBePositive(CountSetting::MaxSourcesPerIteration)) ==> parse_unsigned((match src.max_sources_per_iteration { Some(v) => v@, None => "8"@ }), usize::MAX as nat) == Some(0nat),
        config_error(src) == Some(ConfigError::MustBePositive(CountSetting::MaxConcurrentRuns)) ==> parse_unsigned((match src.max_concurrent_runs { Some(v) => v@, None => "5"@ }), usize::MAX as nat) == Some(0nat),
        config_error(src) == Some(ConfigError::MustBePositive(CountSetting::SchedulerCheckIntervalSecs)) ==> parse_unsigned((match src.scheduler_check_interval_secs { Some(v) => v@, None => "60"@ }), u64::MAX as nat) == Some(0nat),
        config_error(src) == Some(ConfigError::MustBePositive(CountSetting::SchedulerMaxConcurrentRuns)) ==> parse_unsigned((match src.scheduler_max_concurrent_runs { Some(v) => v@, None => "3"@ }), usize::MAX as nat) == Some(0nat),
{
}

/// When every variable's text parses and every count is at least 1,
/// loading succeeds.
pub proof fn law_valid_settings_load(src: ConfigSource)
    requires
        !(parse_unsigned((match src.app_port { Some(v) => v@, None => "3000"@ }), u16::MAX as nat) is None),
        !(parse_unsigned((match src.max_iterations { Some(v) => v@, None => "3"@ }), u32::MAX as nat) is None),
        !(parse_unsigned((match src.max_sources_per_iteration { Some(v) => v@, None => "8"@ }), usize::MAX as nat) is None),
        !(parse_unsigned((match src.max_concurrent_runs { Some(v) => v@, None => "5"@ }), usize::MAX as nat) is None),
        !(parse_bool_spec((match src.scheduler_enabled { Some(v) => v@, None => "true"@ })) is None),
        !(parse_unsigned((match src.scheduler_check_interval_secs { Some(v) => v@, None => "60"@ }), u64::MAX as nat) is None),
        !(parse_unsigned((match src.scheduler_max_concurrent_runs { Some(v) => v@, None => "3"@ }), usize::MAX as nat) is None),
        !(parse_signed((match src.scheduler_min_ticker_age_hours { Some(v) => v@, None => "24"@ }), i64::MIN as int, i64::MAX as int) is None),
        !(parse_unsigned((match src.max_iterations { Some(v) => v@, None => "3"@ }), u32::MAX as nat) == Some(0nat)),
        !(parse_unsigned((match src.max_sources_per_iteration { Some(v) => v@, None => "8"@ }), usize::MAX as nat) == Some(0nat)),
        !(parse_unsigned((match src.max_concurrent_runs { Some(v) => v@, None => "5"@ }), usize::MAX as nat) == Some(0nat)),
        !(parse_unsigned((match src.scheduler_check_interval_secs { Some(v) => v@, None => "60"@ }), u64::MAX as nat) == Some(0nat)),
        !(parse_unsigned((match src.scheduler_max_concurrent_runs { Some(v) => v@, None => "3"@ }), usize::MAX as nat) == Some(0nat)),
    ensures
        config_error(src) is None,
{
}

} // verus!

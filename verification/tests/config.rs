use autothesis::config::{
    check_startup_settings, default_question_for_ticker, Config, ConfigError, ConfigSetting, CountSetting,
    ConfigSource, SearchProviderKind, StartupError,
};

fn empty_source() -> ConfigSource {
    ConfigSource {
        app_host: None,
        app_port: None,
        database_url: None,
        openai_api_key: None,
        openai_model: None,
        openai_base_url: None,
        search_api_key: None,
        search_provider: None,
        max_iterations: None,
        max_sources_per_iteration: None,
        max_concurrent_runs: None,
        scheduler_enabled: None,
        scheduler_check_interval_secs: None,
        scheduler_max_concurrent_runs: None,
        scheduler_min_ticker_age_hours: None,
    }
}

fn err_of(src: &ConfigSource) -> ConfigError {
    match Config::from_source(src) {
        Err(e) => e,
        Ok(_) => panic!("expected an error"),
    }
}

#[test]
fn defaults_apply_when_nothing_is_set() {
    let c = Config::from_source(&empty_source()).ok().unwrap();
    assert_eq!(c.host, "127.0.0.1");
    assert_eq!(c.port, 3000);
    assert_eq!(c.database_url, "sqlite://autothesis.db");
    assert_eq!(c.openai_api_key, "");
    assert_eq!(c.openai_model, "gpt-4.1-mini");
    assert_eq!(c.openai_base_url, "https://api.openai.com/v1");
    assert_eq!(c.search_provider, "tavily");
    assert_eq!(c.max_iterations, 3);
    assert_eq!(c.max_sources_per_iteration, 8);
    assert_eq!(c.max_concurrent_runs, 5);
    assert!(c.scheduler_enabled);
    assert_eq!(c.scheduler_check_interval_secs, 60);
    assert_eq!(c.scheduler_max_concurrent_runs, 3);
    assert_eq!(c.scheduler_min_ticker_age_hours, 24);
    assert_eq!(c.address(), "127.0.0.1:3000");
}

#[test]
fn values_are_parsed_like_std() {
    let mut src = empty_source();
    src.app_host = Some("0.0.0.0".to_string());
    src.app_port = Some("+8080".to_string());
    src.scheduler_enabled = Some("false".to_string());
    src.scheduler_min_ticker_age_hours = Some("-12".to_string());
    src.max_iterations = Some("007".to_string());
    let c = Config::from_source(&src).ok().unwrap();
    assert_eq!(c.port, 8080);
    assert!(!c.scheduler_enabled);
    assert_eq!(c.scheduler_min_ticker_age_hours, -12);
    assert_eq!(c.max_iterations, 7);
    assert_eq!(c.address(), "0.0.0.0:8080");

    src.scheduler_min_ticker_age_hours = Some("-9223372036854775808".to_string());
    assert_eq!(Config::from_source(&src).ok().unwrap().scheduler_min_ticker_age_hours, i64::MIN);
}

#[test]
fn invalid_values_are_reported_in_order() {
    let mut src = empty_source();
    src.app_port = Some("65536".to_string());
    src.max_iterations = Some("x".to_string());
    assert!(err_of(&src) == ConfigError::InvalidValue(ConfigSetting::AppPort));
    assert_eq!(err_of(&src).message(), "APP_PORT must be a valid u16");

    src.app_port = Some(" 80".to_string());
    assert!(err_of(&src) == ConfigError::InvalidValue(ConfigSetting::AppPort));

    src.app_port = None;
    assert!(err_of(&src) == ConfigError::InvalidValue(ConfigSetting::MaxIterations));
    assert_eq!(err_of(&src).message(), "MAX_ITERATIONS must be a valid u32");

    let mut src = empty_source();
    src.scheduler_enabled = Some("TRUE".to_string());
    assert!(err_of(&src) == ConfigError::InvalidValue(ConfigSetting::SchedulerEnabled));
    assert_eq!(err_of(&src).message(), "SCHEDULER_ENABLED must be a valid boolean");

    let mut src = empty_source();
    src.scheduler_min_ticker_age_hours = Some("9223372036854775808".to_string());
    assert!(err_of(&src) == ConfigError::InvalidValue(ConfigSetting::SchedulerMinTickerAgeHours));

    let mut src = empty_source();
    src.max_concurrent_runs = Some("-1".to_string());
    assert!(err_of(&src) == ConfigError::InvalidValue(ConfigSetting::MaxConcurrentRuns));
}

#[test]
fn zero_counts_are_refused_after_parsing() {
    let mut src = empty_source();
    src.max_sources_per_iteration = Some("0".to_string());
    src.scheduler_check_interval_secs = Some("0".to_string());
    assert!(err_of(&src) == ConfigError::MustBePositive(CountSetting::MaxSourcesPerIteration));
    assert_eq!(err_of(&src).message(), "MAX_SOURCES_PER_ITERATION must be at least 1");

    src.max_sources_per_iteration = None;
    assert!(err_of(&src) == ConfigError::MustBePositive(CountSetting::SchedulerCheckIntervalSecs));

    src.scheduler_check_interval_secs = None;
    src.max_iterations = Some("0".to_string());
    assert!(err_of(&src) == ConfigError::MustBePositive(CountSetting::MaxIterations));
    assert_eq!(err_of(&src).message(), "MAX_ITERATIONS must be at least 1");

    let mut src = empty_source();
    src.scheduler_max_concurrent_runs = Some("0".to_string());
    assert!(err_of(&src) == ConfigError::MustBePositive(CountSetting::SchedulerMaxConcurrentRuns));
    src.scheduler_max_concurrent_runs = None;
    src.max_concurrent_runs = Some("0".to_string());
    assert!(err_of(&src) == ConfigError::MustBePositive(CountSetting::MaxConcurrentRuns));
}

#[test]
fn default_question_names_the_ticker() {
    assert_eq!(
        default_question_for_ticker("AAPL"),
        "What is the current bull and bear case for AAPL, and what would need to be true for the valuation to make sense?"
    );
}

#[test]
fn startup_requires_keys_and_a_known_provider() {
    let mut c = Config::from_source(&empty_source()).ok().unwrap();
    assert!(matches!(check_startup_settings(&c), Err(StartupError::MissingOpenAiKey)));
    c.openai_api_key = "  key ".to_string();
    assert!(matches!(check_startup_settings(&c), Err(StartupError::MissingSearchKey)));
    assert_eq!(StartupError::MissingSearchKey.message(), "SEARCH_API_KEY is required");
    c.search_api_key = "k".to_string();
    assert!(matches!(check_startup_settings(&c), Ok(SearchProviderKind::Tavily)));
    c.search_provider = "bing".to_string();
    match check_startup_settings(&c) {
        Err(e) => assert_eq!(e.message(), "unsupported SEARCH_PROVIDER: bing"),
        Ok(_) => panic!("expected an unsupported provider"),
    }
}

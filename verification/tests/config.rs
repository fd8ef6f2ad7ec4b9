use millipede_core::config::{
    ConfigError, Configuration, ConfigurationBuilder, Environment, LogLevel, Ratio,
};
use millipede_core::time::Duration;

fn with_env(
    builder: ConfigurationBuilder,
    values: &[(&str, &str)],
) -> Result<Configuration, ConfigError> {
    let mut env = Environment::new();
    for (name, value) in values {
        env = env.with(name, value);
    }
    builder.build_with_env(&env)
}

#[test]
fn defaults_are_resolved_without_environment() {
    let config = with_env(Configuration::builder(), &[]).unwrap();
    assert_eq!(config.default_dataset_id(), "default");
    assert_eq!(config.default_key_value_store_id(), "default");
    assert_eq!(config.default_request_queue_id(), "default");
    assert_eq!(config.storage_dir(), "./storage");
    assert_eq!(config.persist_state_interval(), Duration::from_secs(60));
    assert!(config.purge_on_start());
    assert_eq!(config.log_level(), LogLevel::Info);
    assert_eq!(config.available_memory_ratio(), None);
    assert_eq!(config.memory_bytes(), None);
    let default = Configuration::default();
    assert_eq!(default.storage_dir(), "./storage");
    assert_eq!(default.persist_state_interval(), Duration::from_secs(60));
}

#[test]
fn environment_overrides_purge_on_start() {
    let config = with_env(Configuration::builder(), &[("CRAWLEE_PURGE_ON_START", "false")]).unwrap();
    assert!(!config.purge_on_start());
}

#[test]
fn environment_memory_megabytes_are_converted_to_bytes() {
    let config = with_env(Configuration::builder(), &[("CRAWLEE_MEMORY_MBYTES", "512")]).unwrap();
    assert_eq!(config.memory_bytes(), Some(512 * 1024 * 1024));
}

#[test]
fn environment_max_used_cpu_ratio_is_resolved() {
    let config =
        with_env(Configuration::builder(), &[("CRAWLEE_MAX_USED_CPU_RATIO", "0.75")]).unwrap();
    let ratio = config.max_used_cpu_ratio().map(|ratio| ratio.as_str().parse::<f32>().unwrap());
    assert_eq!(ratio, Some(0.75));
}

#[test]
fn environment_persist_interval_is_parsed_as_milliseconds() {
    let config = with_env(
        Configuration::builder(),
        &[("CRAWLEE_PERSIST_STATE_INTERVAL_MILLIS", "5000")],
    )
    .unwrap();
    assert_eq!(config.persist_state_interval(), Duration::from_secs(5));
}

#[test]
fn environment_log_level_is_case_insensitive() {
    let config = with_env(Configuration::builder(), &[("CRAWLEE_LOG_LEVEL", "debug")]).unwrap();
    assert_eq!(config.log_level(), LogLevel::Debug);
    let config = with_env(Configuration::builder(), &[("CRAWLEE_LOG_LEVEL", "DeBuG")]).unwrap();
    assert_eq!(config.log_level(), LogLevel::Debug);
}

#[test]
fn builder_value_beats_environment() {
    let config = with_env(
        Configuration::builder().purge_on_start(true),
        &[("CRAWLEE_PURGE_ON_START", "false")],
    )
    .unwrap();
    assert!(config.purge_on_start());
    let config = with_env(
        Configuration::builder()
            .default_dataset_id("mine")
            .memory_bytes(7)
            .log_level(LogLevel::Off)
            .storage_dir("/tmp/x"),
        &[
            ("CRAWLEE_DEFAULT_DATASET_ID", "theirs"),
            ("CRAWLEE_MEMORY_MBYTES", "nonsense"),
            ("CRAWLEE_LOG_LEVEL", "nonsense"),
            ("CRAWLEE_DEFAULT_REQUEST_QUEUE_ID", "queue"),
        ],
    )
    .unwrap();
    assert_eq!(config.default_dataset_id(), "mine");
    assert_eq!(config.default_request_queue_id(), "queue");
    assert_eq!(config.memory_bytes(), Some(7));
    assert_eq!(config.log_level(), LogLevel::Off);
    assert_eq!(config.storage_dir(), "/tmp/x");
}

#[test]
fn invalid_float_identifies_environment_variable() {
    let error = with_env(
        Configuration::builder(),
        &[("CRAWLEE_AVAILABLE_MEMORY_RATIO", "nope")],
    )
    .unwrap_err();
    assert!(matches!(
        error,
        ConfigError::InvalidEnvVar {
            name: "CRAWLEE_AVAILABLE_MEMORY_RATIO",
            ..
        }
    ));
}

#[test]
fn each_variable_is_rejected_with_its_message() {
    let cases = [
        ("CRAWLEE_MAX_USED_CPU_RATIO", "x", "expected a floating-point number"),
        ("CRAWLEE_AVAILABLE_MEMORY_RATIO", "", "expected a floating-point number"),
        ("CRAWLEE_MEMORY_MBYTES", "-1", "expected an unsigned integer"),
        ("CRAWLEE_MEMORY_MBYTES", "18446744073709551615", "value is too large to convert to bytes"),
        ("CRAWLEE_PERSIST_STATE_INTERVAL_MILLIS", "5s", "expected an unsigned integer"),
        ("CRAWLEE_PURGE_ON_START", "yes", "expected 1, true, 0, or false"),
        ("CRAWLEE_LOG_LEVEL", "loud", "expected off, error, warn, info, debug, or trace"),
    ];
    for (variable, text, expected) in cases {
        match with_env(Configuration::builder(), &[(variable, text)]) {
            Err(ConfigError::InvalidEnvVar { name, value, message }) => {
                assert_eq!((name, value.as_str(), message.as_str()), (variable, text, expected));
            }
            other => panic!("{variable}: {other:?}"),
        }
    }
    let error = with_env(Configuration::builder(), &[("CRAWLEE_LOG_LEVEL", "loud")]).unwrap_err();
    assert_eq!(
        error.message(),
        "invalid value \"loud\" for CRAWLEE_LOG_LEVEL: expected off, error, warn, info, debug, or trace"
    );
    let error = LogLevel::from_str("loud").unwrap_err();
    assert_eq!(error.message(), "invalid log level \"loud\"");
}

#[test]
fn the_first_faulty_variable_is_reported() {
    let error = with_env(
        Configuration::builder(),
        &[("CRAWLEE_LOG_LEVEL", "loud"), ("CRAWLEE_MEMORY_MBYTES", "x")],
    )
    .unwrap_err();
    assert!(matches!(error, ConfigError::InvalidEnvVar { name: "CRAWLEE_MEMORY_MBYTES", .. }));
}

#[test]
fn ratios_follow_the_grammar_of_numbers() {
    for text in [
        "0.75", "1", "-1", "+.5", "5.", "1e3", "1E-3", "1.5e+10", "inf", "-Infinity", "NaN", "00",
    ] {
        assert!(Ratio::parse(text).is_some(), "{text}");
        assert!(text.parse::<f32>().is_ok(), "{text}");
    }
    for text in ["", ".", "+", "e5", "1e", "1e+", "1.2.3", " 1", "1 ", "0x1", "infin", "--1", "1_0"] {
        assert!(Ratio::parse(text).is_none(), "{text}");
        assert!(text.parse::<f32>().is_err(), "{text}");
    }
}

#[test]
fn level_names_are_read_back() {
    for level in [
        LogLevel::Off,
        LogLevel::Error,
        LogLevel::Warn,
        LogLevel::Info,
        LogLevel::Debug,
        LogLevel::Trace,
    ] {
        assert_eq!(LogLevel::from_str(level.as_str()).unwrap(), level);
    }
}

#[test]
fn later_values_replace_earlier_ones() {
    let env = Environment::new().with("A", "1").with("B", "2").with("A", "3");
    assert_eq!(env.lookup("A").as_deref(), Some("3"));
    assert_eq!(env.lookup("B").as_deref(), Some("2"));
    assert_eq!(env.lookup("C"), None);
}

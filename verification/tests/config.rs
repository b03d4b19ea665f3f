use config::{File, FileFormat};
use oncall_ai::config::{
    check_endpoint, finish_load, resolve_home, validate, validate_endpoint, validate_numbers, Config, ConfigError,
    ConfigSource, HomeError, HomeSource, IncidentsConfig, InvestigationConfig, LogConfig,
    LogFormat, ModelProvider, ModelSpec, ModelSpecError, SourceConfig, TriageConfig,
    WebhookConfig, DEFAULT_CONFIG,
};
use oncall_ai::model::runtime::ProviderConfigs;
use oncall_ai::retry::Delay;
use oncall_ai::url::UriParts;

/// Merges the embedded defaults and two more layers, and reads the keys off.
fn merged(file: &str, env: &str) -> Result<Config, String> {
    let layers = config::Config::builder()
        .add_source(File::from_str(DEFAULT_CONFIG, FileFormat::Toml))
        .add_source(File::from_str(file, FileFormat::Toml))
        .add_source(File::from_str(env, FileFormat::Toml))
        .build()
        .map_err(|error| error.to_string())?;
    let text = |key: &str| layers.get_string(key).map_err(|error| error.to_string());
    let number = |key: &str| layers.get::<u64>(key).map_err(|error| error.to_string());
    let size = |key: &str| layers.get::<usize>(key).map_err(|error| error.to_string());
    let model = |key: &str| {
        text(key)?.parse::<ModelSpec>().map_err(|error| error.message())
    };
    let enabled = |key: &str| SourceConfig { enabled: layers.get_bool(key).unwrap_or(false) };
    Ok(Config {
        log: LogConfig {
            format: match text("log.format")?.as_str() {
                "json" => LogFormat::Json,
                _ => LogFormat::Pretty,
            },
            level: text("log.level")?,
        },
        webhook: WebhookConfig {
            bind: text("webhook.bind")?,
            body_limit_bytes: size("webhook.body_limit_bytes")?,
            body_log_limit_bytes: size("webhook.body_log_limit_bytes")?,
            grafana: enabled("webhook.grafana.enabled"),
            pagerduty: enabled("webhook.pagerduty.enabled"),
        },
        incidents: IncidentsConfig {
            queue_capacity: size("incidents.queue_capacity")?,
            idle_ttl_secs: layers.get("incidents.idle_ttl_secs").map_err(|e| e.to_string())?,
        },
        triage: TriageConfig {
            model: model("triage.model")?,
            endpoint: text("triage.endpoint")?,
            queue_capacity: size("triage.queue_capacity")?,
            timeout_secs: number("triage.timeout_secs")?,
            backoff_initial_ms: number("triage.backoff_initial_ms")?,
            backoff_max_ms: number("triage.backoff_max_ms")?,
        },
        investigation: InvestigationConfig {
            model: model("investigation.model")?,
            repo_root: text("investigation.repo_root")?,
            max_turns: size("investigation.max_turns")?,
            timeout_secs: number("investigation.timeout_secs")?,
            max_file_bytes: size("investigation.max_file_bytes")?,
            queue_capacity: size("investigation.queue_capacity")?,
        },
        providers: ProviderConfigs::new(),
    })
}

fn load_file(file: &str, env: &str) -> Result<(Config, ConfigSource), ConfigError> {
    let source = ConfigSource::File("home/config.toml".to_owned());
    finish_load(source, merged(file, ""), merged(file, env))
}

fn load_embedded() -> Result<(Config, ConfigSource), ConfigError> {
    finish_load(ConfigSource::Embedded, merged("", ""), merged("", ""))
}

fn failure(loaded: Result<(Config, ConfigSource), ConfigError>) -> ConfigError {
    match loaded {
        Ok(_) => panic!("must fail"),
        Err(error) => error,
    }
}

fn success(loaded: Result<(Config, ConfigSource), ConfigError>) -> (Config, ConfigSource) {
    match loaded {
        Ok(loaded) => loaded,
        Err(error) => panic!("{}", error.message()),
    }
}

#[test]
fn env_override_wins() {
    let (home, source) = resolve_home(Some("/custom/home"), Ok(Some("/exe"))).unwrap();
    assert_eq!(home, "/custom/home");
    assert_eq!(source, HomeSource::EnvVar);
}

#[test]
fn falls_back_to_exe_dir() {
    let (home, source) = resolve_home(None, Ok(Some("/exe"))).unwrap();
    assert_eq!(source, HomeSource::ExeDir);
    assert_eq!(home, "/exe");
}

#[test]
fn home_without_an_executable_directory_is_an_error() {
    let no_parent = resolve_home::<String>(None, Ok(None)).expect_err("no parent");
    assert!(matches!(no_parent, HomeError::NoParent));
    assert_eq!(no_parent.message(), "executable path has no parent directory");
    let unknown =
        resolve_home::<String>(None, Err("not found".to_owned())).expect_err("unknown path");
    assert!(matches!(unknown, HomeError::Exe(_)));
    assert_eq!(unknown.message(), "cannot resolve executable path: not found");
}

#[test]
fn sources_are_named_in_words() {
    assert_eq!(HomeSource::EnvVar.as_str(), "ONCALL_HOME");
    assert_eq!(HomeSource::ExeDir.as_str(), "exe dir");
    assert_eq!(ConfigSource::Embedded.message(), "embedded defaults");
    assert_eq!(ConfigSource::File("/etc/config.toml".to_owned()).message(), "file (/etc/config.toml)");
}

#[test]
fn embedded_default_parses() {
    let config = merged("", "").expect("embedded defaults must parse into Config");
    assert_eq!(config.log.format, LogFormat::Pretty);
    assert_eq!(config.log.level, "info");
    assert_eq!(config.webhook.bind, "127.0.0.1:8080");
    assert_eq!(config.webhook.body_limit_bytes, 1_048_576);
    assert_eq!(config.webhook.body_log_limit_bytes, 65_536);
    assert!(
        !config.webhook.grafana.enabled && !config.webhook.pagerduty.enabled,
        "sources are opt-in: nothing ships enabled"
    );
    assert!(validate(&config).is_ok());
}

#[test]
fn backoff_max_below_initial_fails_loud_with_key() {
    let err = failure(load_file("[triage]\nbackoff_initial_ms = 100\nbackoff_max_ms = 50", ""));
    assert!(matches!(err, ConfigError::Invalid(_)));
    let message = err.message();
    assert!(
        message.contains("triage.backoff_max_ms") && message.contains("triage.backoff_initial_ms"),
        "error must name both keys: {message}"
    );
    assert_eq!(
        message,
        "invalid config: triage.backoff_max_ms must be at least triage.backoff_initial_ms"
    );
}

/// Without a scheme every triage call would fail as if the network were down and be retried
/// forever; the typo must die at load instead.
#[test]
fn endpoint_without_scheme_fails_loud_with_key() {
    let err = failure(load_file("[triage]\nendpoint = \"localhost:11434\"", ""));
    assert!(matches!(err, ConfigError::Invalid(_)));
    assert!(err.message().contains("triage.endpoint"), "error must name the key: {}", err.message());
}

#[test]
fn unparseable_endpoint_fails_loud_with_key() {
    let err = failure(load_file("[triage]\nendpoint = \" http://localhost:11434\"", ""));
    assert!(matches!(err, ConfigError::Invalid(_)));
    assert!(err.message().contains("triage.endpoint"), "error must name the key: {}", err.message());
}

#[test]
fn model_without_provider_fails_loud() {
    // The pre-provider format: "qwen3:8b" now reads as provider "qwen3".
    let err = failure(load_file("[triage]\nmodel = \"qwen3:8b\"", ""));
    assert!(matches!(err, ConfigError::File { .. }));
    let message = err.message();
    assert!(
        message.contains("triage.model") && message.contains("ollama"),
        "error must name the key and the supported provider: {message}"
    );
}

#[test]
fn unknown_provider_fails_loud_naming_it() {
    let err = failure(load_file("[triage]\nmodel = \"openai:gpt-5.5\"", ""));
    assert!(matches!(err, ConfigError::File { .. }));
    let message = err.message();
    assert!(
        message.contains("openai") && message.contains("ollama"),
        "error must name the unknown provider and the supported ones: {message}"
    );
}

#[test]
fn empty_model_after_provider_fails_loud() {
    let err = failure(load_file("[triage]\nmodel = \"ollama:\"", ""));
    assert!(matches!(err, ConfigError::File { .. }));
    assert!(err.message().contains("triage.model"), "error must name the key: {}", err.message());
}

#[test]
fn triage_backoff_maps_the_millisecond_keys() {
    let (config, _) =
        success(load_file("[triage]\nbackoff_initial_ms = 100\nbackoff_max_ms = 200", ""));
    let backoff = config.triage.backoff();
    assert_eq!(backoff.initial, Delay::from_millis(100));
    assert_eq!(backoff.max, Delay::from_millis(200));
}

#[test]
fn model_spec_parses_from_str() {
    let spec: ModelSpec = "ollama:qwen3:8b".parse().expect("valid spec parses");
    assert_eq!(spec.text(), "ollama:qwen3:8b");
    "qwen3:8b"
        .parse::<ModelSpec>()
        .expect_err("provider-less spec must not parse");
}

#[test]
fn provider_model_splits_on_first_colon() {
    let (config, _) = success(load_file("[triage]\nmodel = \"ollama:qwen3:8b\"", ""));
    assert_eq!(config.triage.model.provider, ModelProvider::Ollama);
    assert_eq!(config.triage.model.model, "qwen3:8b");
}

#[test]
fn model_spec_errors_say_what_they_got() {
    let bad = "qwen3".parse::<ModelSpec>().expect_err("no colon");
    assert!(matches!(&bad, ModelSpecError::BadFormat { got } if got == "qwen3"));
    assert_eq!(
        bad.message(),
        "triage.model must be \"<provider>:<model>\" (e.g. \"ollama:qwen3:8b\"); got \"qwen3\"; \
         supported providers: ollama"
    );
    let unknown = "a\"b:x".parse::<ModelSpec>().expect_err("unknown provider");
    assert!(matches!(&unknown, ModelSpecError::UnknownProvider { provider } if provider == "a\"b"));
    assert_eq!(
        unknown.message(),
        "triage.model names unknown provider \"a\\\"b\"; supported providers: ollama"
    );
    assert!(matches!(
        "unknown:".parse::<ModelSpec>(),
        Err(ModelSpecError::BadFormat { got }) if got == "unknown:"
    ));
}

#[test]
fn a_selection_and_its_text_determine_each_other() {
    for provider in [ModelProvider::Ollama, ModelProvider::Anthropic] {
        let spec = ModelSpec { provider, model: "a:b/c".to_owned() };
        let again: ModelSpec = spec.text().parse().expect("own text parses");
        assert_eq!(again.provider, provider);
        assert_eq!(again.model, "a:b/c");
        assert_eq!(again.clone().text(), spec.text());
    }
}

/// Sources are opt-in: enabling one must not drag the others along.
#[test]
fn enabling_one_source_keeps_the_rest_disabled() {
    let (config, _) = success(load_file("[webhook.grafana]\nenabled = true", ""));
    assert!(config.webhook.grafana.enabled, "grafana is enabled by the file");
    assert!(!config.webhook.pagerduty.enabled, "pagerduty keeps its disabled default");
    assert!(!SourceConfig::default().enabled);
}

#[test]
fn idle_ttl_maps_to_a_duration() {
    let (config, _) = success(load_file("[incidents]\nidle_ttl_secs = 60", ""));
    let ttl = config.incidents.idle_ttl();
    assert_eq!((ttl.secs(), ttl.nanos()), (60, 0));
}

#[test]
fn investigation_timeout_is_in_seconds() {
    let (config, _) = success(load_file("[investigation]\ntimeout_secs = 90", ""));
    assert_eq!(config.investigation.timeout(), Delay::from_secs(90));
}

#[test]
fn missing_file_falls_back_to_embedded() {
    let (config, source) = success(load_embedded());
    assert!(matches!(source, ConfigSource::Embedded));
    assert_eq!(config.log.level, "info");
}

#[test]
fn file_overrides_embedded() {
    let (config, source) = success(load_file("[log]\nlevel = \"debug\"", ""));
    assert!(matches!(source, ConfigSource::File(_)));
    assert_eq!(config.log.level, "debug");
    // Keys absent from the file keep embedded values:
    assert_eq!(config.log.format, LogFormat::Pretty);
}

#[test]
fn malformed_file_fails_loud_with_path() {
    let err = failure(load_file("[log\nlevel = ", ""));
    assert!(matches!(err, ConfigError::File { .. }));
    assert!(err.message().contains("config.toml"), "error must name the file: {}", err.message());
}

#[test]
fn a_merge_error_without_a_file_is_invalid() {
    let bad = || Err("bad value".to_owned());
    for alone in [bad(), merged("", "")] {
        let err = failure(finish_load(ConfigSource::Embedded, alone, bad()));
        assert!(matches!(&err, ConfigError::Invalid(_)));
        assert_eq!(err.message(), "invalid config: bad value");
    }
}

#[test]
fn env_caused_validation_error_is_not_blamed_on_file() {
    let err = failure(load_file("[log]\nlevel = \"debug\"", "[triage]\nbackoff_max_ms = 50"));
    assert!(matches!(err, ConfigError::Invalid(_)));
    assert!(
        !err.message().contains("config.toml"),
        "error must not name the file: {}",
        err.message()
    );
}

/// The file parses and merges; only what the environment adds makes the result invalid.
#[test]
fn an_unreadable_environment_is_not_blamed_on_a_sound_file() {
    for env in [
        "[triage]\nqueue_capacity = 0",
        "[triage]\ntimeout_secs = \"soon\"",
        "[triage]\nmodel = \"qwen3:8b\"",
    ] {
        let err = failure(load_file("[log]\nlevel = \"debug\"", env));
        assert!(matches!(err, ConfigError::Invalid(_)), "{env}");
        assert!(
            !err.message().contains("config.toml"),
            "error must not name the file: {}",
            err.message()
        );
    }
}

#[test]
fn a_faulty_file_is_blamed_unless_the_environment_mends_it() {
    let file = "[incidents]\nqueue_capacity = 0";
    let err = failure(load_file(file, "[log]\nlevel = \"debug\""));
    assert_eq!(
        err.message(),
        "malformed config home/config.toml: invalid value: integer `0`, expected a nonzero number \
         for key `incidents.queue_capacity`"
    );
    let (config, _) = success(load_file(file, "[incidents]\nqueue_capacity = 5"));
    assert_eq!(config.incidents.queue_capacity, 5);
}

fn assert_zero_is_blamed_on_the_file(table: &str, key: &str) {
    let err = failure(load_file(&format!("[{table}]\n{key} = 0"), ""));
    assert!(matches!(err, ConfigError::File { .. }));
    assert!(
        err.message().contains(&format!("{table}.{key}")),
        "error must name the key: {}",
        err.message()
    );
}

#[test]
fn zero_queue_capacity_fails_loud_with_key() {
    assert_zero_is_blamed_on_the_file("triage", "queue_capacity");
}

#[test]
fn zero_timeout_secs_fails_loud_with_key() {
    assert_zero_is_blamed_on_the_file("triage", "timeout_secs");
}

#[test]
fn zero_backoff_initial_ms_fails_loud_with_key() {
    assert_zero_is_blamed_on_the_file("triage", "backoff_initial_ms");
}

#[test]
fn zero_incident_queue_capacity_fails_loud_with_key() {
    assert_zero_is_blamed_on_the_file("incidents", "queue_capacity");
}

#[test]
fn zero_idle_ttl_fails_loud_with_key() {
    assert_zero_is_blamed_on_the_file("incidents", "idle_ttl_secs");
}

#[test]
fn zero_investigation_limits_fail_loud_with_key() {
    for key in ["max_turns", "timeout_secs", "max_file_bytes", "queue_capacity"] {
        assert_zero_is_blamed_on_the_file("investigation", key);
    }
}

#[test]
fn the_first_zero_is_named() {
    let mut config = merged("", "").expect("embedded defaults must parse into Config");
    assert!(validate_numbers(&config).is_ok());
    config.investigation.max_turns = 0;
    config.triage.timeout_secs = 0;
    let message = "invalid value: integer `0`, expected a nonzero number for key \
                   `triage.timeout_secs`";
    assert_eq!(validate_numbers(&config).expect_err("a zero"), message);
    assert_eq!(validate(&config).expect_err("a zero"), message);
    config.triage.timeout_secs = 1;
    config.investigation.max_turns = 1;
    config.triage.backoff_max_ms = u64::MAX;
    assert!(validate(&config).is_ok());
}

#[test]
fn an_endpoint_is_an_absolute_http_url() {
    for endpoint in ["http://localhost:11434", "https://models.example.com/v1", "http://[::1]:80"] {
        assert!(validate_endpoint(endpoint).is_ok(), "{endpoint}");
    }
    assert_eq!(
        validate_endpoint("ftp://host").expect_err("no http scheme"),
        "triage.endpoint must be an absolute http(s) URL (e.g. \"http://localhost:11434\"); \
         missing http/https scheme: \"ftp://host\""
    );
    let message = validate_endpoint(" http://localhost").expect_err("not a URI");
    assert!(message.contains("; cannot parse ("), "{message}");
    assert!(message.ends_with("): \" http://localhost\""), "{message}");
}

#[test]
fn an_endpoint_without_a_host_is_refused() {
    let parts = Ok(UriParts { scheme: Some("https".to_owned()), host: None });
    assert_eq!(
        check_endpoint("https:", &parts).expect_err("no host"),
        "triage.endpoint must be an absolute http(s) URL (e.g. \"http://localhost:11434\"); \
         missing host: \"https:\""
    );
}

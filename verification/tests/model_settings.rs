use oncall_ai::model::client::{
    AzureConfig, ChatGptConfig, CopilotConfig, KeyedConfig, LlamafileConfig, OllamaConfig,
    ProviderConfig,
};
use oncall_ai::model::registry::Profile;
use oncall_ai::model::runtime::{parse_provider_config, provider_profile};
use oncall_ai::model::settings::{
    check_http_url, resolve_optional_secret, resolve_optional_value, resolve_required_secret,
    resolve_required_value, validate_http_url, Secret, SecretSource, SettingsError,
};
use oncall_ai::model::{EnvironmentSource, ProcessEnvironment};
use oncall_ai::url::UriParts;

fn environment(variables: &[(&str, &str)]) -> ProcessEnvironment {
    ProcessEnvironment::new(
        variables
            .iter()
            .map(|(name, value)| ((*name).to_owned(), Some((*value).to_owned())))
            .collect(),
    )
}

fn inline(value: &str) -> Option<SecretSource> {
    Some(SecretSource::Value { value: value.to_owned() })
}

fn named(env: &str) -> Option<SecretSource> {
    Some(SecretSource::Env { env: env.to_owned() })
}

fn openai_key(
    explicit: Option<SecretSource>,
    environment: &ProcessEnvironment,
) -> Result<Secret, SettingsError> {
    resolve_required_secret("openai", "api_key", &explicit, &["OPENAI_API_KEY"], environment)
}

fn failure<T>(outcome: Result<T, SettingsError>) -> SettingsError {
    match outcome {
        Ok(_) => panic!("must fail"),
        Err(error) => error,
    }
}

#[test]
fn inline_secret_debug_is_redacted() {
    let source = SecretSource::Value { value: "top-secret".to_owned() };

    let debug = source.debug_text();

    assert_eq!(debug, "SecretSource(<redacted>)");
    assert!(!debug.contains("top-secret"));
    let secret = openai_key(Some(source), &environment(&[])).ok().expect("secret resolves");
    assert_eq!(secret.debug_text(), "Secret(<redacted>)");
    assert_eq!(secret.into_inner(), "top-secret");
}

#[test]
fn explicit_secret_wins_over_conventional_environment() {
    let env = environment(&[("OPENAI_API_KEY", "from-env")]);
    let secret = openai_key(inline("from-config"), &env).ok().expect("secret resolves");
    assert_eq!(secret.expose(), "from-config");
}

#[test]
fn named_secret_environment_is_resolved_before_conventional_environment() {
    let env = environment(&[
        ("PROJECT_OPENAI_KEY", "project-key"),
        ("OPENAI_API_KEY", "conventional-key"),
    ]);
    let secret = openai_key(named("PROJECT_OPENAI_KEY"), &env).ok().expect("secret resolves");
    assert_eq!(secret.expose(), "project-key");
}

#[test]
fn the_conventional_environment_is_the_last_resort() {
    let env = environment(&[("OPENAI_API_KEY", "conventional-key")]);
    let secret = openai_key(None, &env).ok().expect("secret resolves");
    assert_eq!(secret.expose(), "conventional-key");
}

#[test]
fn empty_secret_is_rejected_without_revealing_it() {
    let error = failure(openai_key(inline(""), &environment(&[])));
    assert_eq!(error.message(), "provider openai has an empty secret for api_key");
    let env = environment(&[("OPENAI_API_KEY", "")]);
    assert!(matches!(failure(openai_key(None, &env)), SettingsError::EmptySecret { .. }));
}

#[test]
fn a_secret_that_is_nowhere_is_reported_with_the_variables_that_were_tried() {
    let error = failure(openai_key(None, &environment(&[])));
    assert_eq!(
        error.message(),
        "provider openai is missing required secret api_key; checked OPENAI_API_KEY"
    );
    let error = failure(openai_key(named("PROJECT_KEY"), &environment(&[])));
    assert_eq!(
        error.message(),
        "provider openai is missing required secret api_key; checked PROJECT_KEY"
    );
    let error = failure(openai_key(named(""), &environment(&[])));
    assert_eq!(
        error.message(),
        "provider openai has an empty environment variable name for api_key"
    );
    let two = resolve_required_secret(
        "copilot",
        "auth.api_key",
        &None,
        &["GITHUB_COPILOT_API_KEY", "COPILOT_API_KEY"],
        &environment(&[]),
    );
    assert_eq!(
        failure(two).message(),
        "provider copilot is missing required secret auth.api_key; checked \
         GITHUB_COPILOT_API_KEY, COPILOT_API_KEY"
    );
}

#[test]
fn of_several_variables_the_first_that_is_set_counts() {
    let env = environment(&[("B", "second"), ("C", "third")]);
    let value = resolve_optional_value(&None, &["A", "B", "C"], &env).ok().expect("resolves");
    assert_eq!(value.as_deref(), Some("second"));
    let none = resolve_optional_value(&None, &["X"], &env).ok().expect("resolves");
    assert_eq!(none, None);
    let explicit = Some("configured".to_owned());
    let value = resolve_optional_value(&explicit, &["B"], &env).ok().expect("resolves");
    assert_eq!(value.as_deref(), Some("configured"));
}

#[test]
fn a_value_that_is_not_unicode_is_an_error_unless_one_before_it_is_set() {
    let env = ProcessEnvironment::new(vec![
        ("GOOD".to_owned(), Some("ok".to_owned())),
        ("BAD".to_owned(), None),
    ]);
    let error = failure(resolve_optional_value(&None, &["BAD", "GOOD"], &env));
    assert_eq!(error.message(), "environment variable \"BAD\" is not valid Unicode");
    let value = resolve_optional_value(&None, &["GOOD", "BAD"], &env).ok().expect("resolves");
    assert_eq!(value.as_deref(), Some("ok"));
    assert_eq!(env.var("BAD").expect_err("not Unicode").name, "BAD");
    assert_eq!(env.var("GOOD").expect("Unicode").as_deref(), Some("ok"));
    assert_eq!(env.var("UNSET").expect("unset"), None);
}

#[test]
fn an_optional_secret_may_be_missing_but_not_empty() {
    let resolve = |explicit: Option<SecretSource>, env: &ProcessEnvironment| {
        resolve_optional_secret("ollama", "api_key", &explicit, &["OLLAMA_API_KEY"], env)
    };
    assert!(resolve(None, &environment(&[])).ok().expect("resolves").is_none());
    let secret = resolve(None, &environment(&[("OLLAMA_API_KEY", "k")]));
    assert_eq!(secret.ok().expect("resolves").expect("set").expose(), "k");
    assert!(matches!(
        failure(resolve(None, &environment(&[("OLLAMA_API_KEY", "")]))),
        SettingsError::EmptySecret { .. }
    ));
    assert!(matches!(
        failure(resolve(named("GONE"), &environment(&[]))),
        SettingsError::MissingSecret { .. }
    ));
}

#[test]
fn a_required_value_must_not_be_blank() {
    let resolve = |explicit: Option<&str>| {
        let explicit = explicit.map(str::to_owned);
        resolve_required_value("azure", "endpoint", &explicit, &["AZURE_ENDPOINT"], &environment(&[]))
    };
    for blank in ["", "  ", "\t\n", "\u{2003}\u{a0}"] {
        let error = failure(resolve(Some(blank)));
        assert_eq!(error.message(), "provider azure has an empty required setting endpoint");
    }
    assert_eq!(
        failure(resolve(None)).message(),
        "provider azure is missing required setting endpoint; checked AZURE_ENDPOINT"
    );
    assert_eq!(resolve(Some(" x ")).ok().expect("not blank"), " x ");
}

#[test]
fn conflicting_values_are_named() {
    let error = SettingsError::ConflictingValues {
        provider: "azure".to_owned(),
        left: "api_key".to_owned(),
        right: "token".to_owned(),
    };
    assert_eq!(error.message(), "provider azure must configure exactly one of api_key or token");
}

#[test]
fn invalid_provider_url_is_rejected_locally() {
    let error = failure(validate_http_url("providers.openai.base_url", "localhost:8080"));

    assert!(error.message().contains("providers.openai.base_url"));
    assert_eq!(
        error.message(),
        "providers.openai.base_url must be an absolute http(s) URL; got \"localhost:8080\""
    );
}

#[test]
fn a_provider_url_is_absolute() {
    assert!(validate_http_url("key", "https://example.openai.azure.com").is_ok());
    assert!(validate_http_url("key", "http://localhost:8080/v1").is_ok());
    for url in ["", "/v1", "ftp://host", "not a url"] {
        assert!(validate_http_url("key", url).is_err(), "{url}");
    }
    let no_host = Ok(UriParts { scheme: Some("http".to_owned()), host: None });
    assert!(check_http_url("key", "http:", &no_host).is_err());
}

fn block(profile: Profile) -> ProviderConfig {
    match profile {
        Profile::Keyed => {
            ProviderConfig::Keyed(KeyedConfig { api_key: inline("secret"), base_url: None })
        }
        Profile::Ollama => {
            ProviderConfig::Ollama(OllamaConfig { api_key: None, base_url: None })
        }
        Profile::Llamafile => ProviderConfig::Llamafile(LlamafileConfig { base_url: None }),
        Profile::Azure => ProviderConfig::Azure(AzureConfig {
            api_key: inline("secret"),
            token: None,
            endpoint: None,
            api_version: None,
        }),
        Profile::ChatGpt => ProviderConfig::ChatGpt(ChatGptConfig {
            base_url: None,
            auth: None,
            allow_device_flow: false,
        }),
        Profile::Copilot => ProviderConfig::Copilot(CopilotConfig {
            base_url: None,
            auth: None,
            allow_device_flow: false,
        }),
    }
}

#[test]
fn provider_name_selects_its_strict_profile() {
    let parse = |name: &str| {
        parse_provider_config(name, |profile| Ok(block(profile))).expect("the profile parses")
    };
    assert!(matches!(parse("openai"), ProviderConfig::Keyed(_)));
    assert!(matches!(parse("ollama"), ProviderConfig::Ollama(_)));
    assert!(matches!(parse("llamafile"), ProviderConfig::Llamafile(_)));
    assert!(matches!(parse("azure"), ProviderConfig::Azure(_)));
    assert!(matches!(parse("chatgpt"), ProviderConfig::ChatGpt(_)));
    assert!(matches!(parse("copilot"), ProviderConfig::Copilot(_)));
    assert_eq!(provider_profile("anthropic"), Ok(Profile::Keyed));
}

#[test]
fn provider_profile_rejects_unknown_fields() {
    let outcome = parse_provider_config("openai", |_| Err("unknown field `endpoint`".to_owned()));
    let Err(error) = outcome else {
        panic!("keyed profile must reject endpoint");
    };
    assert!(error.contains("endpoint"));
    assert_eq!(error, "invalid provider block \"openai\": unknown field `endpoint`");
}

#[test]
fn a_block_for_an_unknown_provider_is_rejected() {
    let outcome = parse_provider_config("voyageai", |profile| Ok(block(profile)));
    let Err(error) = outcome else {
        panic!("an unknown provider must be rejected");
    };
    assert!(error.starts_with("unknown completion provider \"voyageai\"; supported providers: "));
}

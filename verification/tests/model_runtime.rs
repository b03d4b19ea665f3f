use oncall_ai::model::client::{
    build_client, AzureConfig, AzureLogin, ChatGptAuth, ChatGptConfig, ChatGptLogin, ClientPlan,
    CopilotAuth, CopilotConfig, CopilotLogin, KeyedConfig, LlamafileConfig, OllamaConfig,
    ProviderConfig,
};
use oncall_ai::model::runtime::{BuildStep, RuntimePlan};
use oncall_ai::model::settings::SecretSource;
use oncall_ai::model::{
    provider_names, ModelRuntime, ModelSpec, ProcessEnvironment, ProviderConfigs, ProviderError,
    ProviderId,
};

fn environment(variables: &[(&str, &str)]) -> ProcessEnvironment {
    ProcessEnvironment::new(
        variables
            .iter()
            .map(|(name, value)| ((*name).to_owned(), Some((*value).to_owned())))
            .collect(),
    )
}

fn configs(blocks: Vec<(&str, ProviderConfig)>) -> ProviderConfigs {
    let mut configs = ProviderConfigs::new();
    for (name, block) in blocks {
        configs.insert(name.to_owned(), block);
    }
    configs
}

fn specs(texts: &[&str]) -> Vec<ModelSpec> {
    texts.iter().map(|text| text.parse().expect("valid spec")).collect()
}

fn inline(value: &str) -> Option<SecretSource> {
    Some(SecretSource::Value { value: value.to_owned() })
}

fn kind(plan: &ClientPlan) -> String {
    match plan {
        ClientPlan::Keyed { provider, .. } => provider.clone(),
        ClientPlan::Ollama { .. } => "ollama".to_owned(),
        ClientPlan::Llamafile { .. } => "llamafile".to_owned(),
        ClientPlan::Azure { .. } => "azure".to_owned(),
        ClientPlan::ChatGpt { .. } => "chatgpt".to_owned(),
        ClientPlan::Copilot { .. } => "copilot".to_owned(),
    }
}

/// Builds a runtime whose clients and models are texts that tell how they were made.
fn build(
    configs: &ProviderConfigs,
    specs: &Vec<ModelSpec>,
    environment: &ProcessEnvironment,
) -> Result<ModelRuntime<String>, ProviderError> {
    ModelRuntime::build(
        configs,
        specs,
        environment,
        |plan: &ClientPlan| Ok(kind(plan)),
        |client: &String, model| format!("{client}/{}", model.as_str()),
    )
}

fn failure(outcome: Result<ModelRuntime<String>, ProviderError>) -> ProviderError {
    match outcome {
        Ok(_) => panic!("must fail"),
        Err(error) => error,
    }
}

fn azure(api_key: Option<SecretSource>, token: Option<SecretSource>, version: &str) -> AzureConfig {
    AzureConfig {
        api_key,
        token,
        endpoint: Some("https://example.openai.azure.com".to_owned()),
        api_version: Some(version.to_owned()),
    }
}

#[test]
fn every_registered_provider_builds_locally_without_a_probe() {
    let environment = environment(&[
        ("ANTHROPIC_API_KEY", "test-key"),
        ("AZURE_API_KEY", "test-key"),
        ("AZURE_API_VERSION", "2026-01-01"),
        ("AZURE_ENDPOINT", "https://example.openai.azure.com"),
        ("COHERE_API_KEY", "test-key"),
        ("DEEPSEEK_API_KEY", "test-key"),
        ("DOUBLEWORD_API_KEY", "test-key"),
        ("GEMINI_API_KEY", "test-key"),
        ("GROQ_API_KEY", "test-key"),
        ("HUGGINGFACE_API_KEY", "test-key"),
        ("HYPERBOLIC_API_KEY", "test-key"),
        ("LLAMAFILE_API_BASE_URL", "http://localhost:8080"),
        ("MINIMAX_API_KEY", "test-key"),
        ("MIRA_API_KEY", "test-key"),
        ("MISTRAL_API_KEY", "test-key"),
        ("MOONSHOT_API_KEY", "test-key"),
        ("OPENAI_API_KEY", "test-key"),
        ("OPENROUTER_API_KEY", "test-key"),
        ("PERPLEXITY_API_KEY", "test-key"),
        ("TOGETHER_API_KEY", "test-key"),
        ("XAI_API_KEY", "test-key"),
        ("XIAOMI_MIMO_API_KEY", "test-key"),
        ("ZAI_API_KEY", "test-key"),
    ]);
    let specs: Vec<ModelSpec> = provider_names()
        .iter()
        .map(|provider| format!("{provider}:test-model").parse().expect("registry names form specs"))
        .collect();

    let runtime = build(&ProviderConfigs::new(), &specs, &environment)
        .expect("all canonical clients construct without network access");

    assert_eq!(runtime.client_count(), 24);
    for spec in &specs {
        let model = runtime.model(spec).expect("referenced model is cached");
        assert_eq!(*model, format!("{}/test-model", spec.provider().as_str()));
    }
}

#[test]
fn azure_rejects_conflicting_auth_before_client_construction() {
    let providers = configs(vec![(
        "azure",
        ProviderConfig::Azure(azure(inline("test-key"), inline("test-token"), "2026-01-01")),
    )]);

    let error = failure(build(&providers, &specs(&["azure:test-model"]), &environment(&[])));

    assert!(error.message.contains("exactly one"), "{}", error.message);
}

#[test]
fn explicit_azure_auth_choice_overrides_the_other_environment_choice() {
    let providers = configs(vec![(
        "azure",
        ProviderConfig::Azure(azure(inline("config-key"), None, "2026-01-01")),
    )]);
    let environment = environment(&[("AZURE_TOKEN", "environment-token")]);

    build(&providers, &specs(&["azure:test-model"]), &environment)
        .expect("explicit API key suppresses conventional token fallback");
}

#[test]
fn azure_rejects_an_empty_api_version() {
    let providers =
        configs(vec![("azure", ProviderConfig::Azure(azure(inline("test-key"), None, "")))]);

    let error = failure(build(&providers, &specs(&["azure:test-model"]), &environment(&[])));

    assert!(error.message.contains("api_version"), "{}", error.message);
}

#[test]
fn invalid_configured_provider_fails_even_when_unreferenced() {
    let providers = configs(vec![(
        "openai",
        ProviderConfig::Keyed(KeyedConfig {
            api_key: inline("test-key"),
            base_url: Some("localhost:8080".to_owned()),
        }),
    )]);

    let error = failure(build(&providers, &specs(&["ollama:test-model"]), &environment(&[])));

    assert!(error.message.contains("providers.openai.base_url"), "{}", error.message);
    assert_eq!(error.source.as_deref(), Some(error.message.as_str()));
}

#[test]
fn explicit_chatgpt_token_uses_conventional_account_id_fallback() {
    let config = ProviderConfig::ChatGpt(ChatGptConfig {
        base_url: Some("http://127.0.0.1:9".to_owned()),
        auth: Some(ChatGptAuth::AccessToken {
            secret: SecretSource::Value { value: "test-token".to_owned() },
            account_id: None,
        }),
        allow_device_flow: false,
    });
    let environment = environment(&[("CHATGPT_ACCOUNT_ID", "environment-account")]);
    let provider = ProviderId::parse("chatgpt").expect("a known provider");
    let plan = build_client(&provider, Some(&config), &environment).ok().expect("client builds");
    match plan {
        ClientPlan::ChatGpt {
            auth: ChatGptLogin::AccessToken { access_token, account_id },
            base_url,
            ..
        } => {
            assert_eq!(access_token, "test-token");
            assert_eq!(account_id.as_deref(), Some("environment-account"));
            assert_eq!(base_url.as_deref(), Some("http://127.0.0.1:9"));
        }
        _ => panic!("the client must log in with the token"),
    }
}

#[test]
fn stages_sharing_a_provider_reuse_one_client() {
    let configs = configs(vec![(
        "ollama",
        ProviderConfig::Ollama(OllamaConfig {
            api_key: None,
            base_url: Some("http://localhost:11434".to_owned()),
        }),
    )]);
    let specs = specs(&["ollama:qwen3:8b", "ollama:qwen3.5:27b"]);

    let runtime = build(&configs, &specs, &environment(&[])).expect("runtime builds");

    assert_eq!(runtime.client_count(), 1);
    assert_eq!(runtime.model(&specs[1]).expect("built"), "ollama/qwen3.5:27b");
}

#[test]
fn a_model_that_was_not_asked_for_is_an_error() {
    let runtime =
        build(&ProviderConfigs::new(), &specs(&["ollama:a"]), &environment(&[])).expect("builds");
    let error = runtime.model(&specs(&["ollama:b"])[0]).expect_err("not built");
    assert_eq!(error.message, "model ollama:b was not constructed at startup");
    assert_eq!(error.source, None);
}

#[test]
fn a_client_that_cannot_be_built_ends_the_startup() {
    let mut tried = Vec::new();
    let tried_cell = std::cell::RefCell::new(&mut tried);
    let outcome: Result<ModelRuntime<()>, ProviderError> = ModelRuntime::build(
        &ProviderConfigs::new(),
        &specs(&["ollama:a", "llamafile:b", "ollama:c"]),
        &environment(&[("LLAMAFILE_API_BASE_URL", "http://localhost:8080")]),
        |plan: &ClientPlan| {
            tried_cell.borrow_mut().push(kind(plan));
            match plan {
                ClientPlan::Llamafile { .. } => Err("no TLS".to_owned()),
                _ => Ok(()),
            }
        },
        |(): &(), _| (),
    );
    let Err(error) = outcome else {
        panic!("must fail");
    };
    assert_eq!(error.message, "failed to build provider llamafile");
    assert_eq!(error.source.as_deref(), Some("no TLS"));
    assert_eq!(tried, ["ollama", "llamafile"]);
}

#[test]
fn clients_are_built_before_a_later_error_in_the_settings() {
    let plan = RuntimePlan::build(
        &configs(vec![("ollama", ProviderConfig::Ollama(OllamaConfig {
            api_key: None,
            base_url: None,
        }))]),
        &specs(&["ollama:a", "ollama:a", "openai:b", "ollama:c"]),
        &environment(&[]),
    );
    let steps: Vec<String> = plan
        .steps
        .iter()
        .map(|step| match step {
            BuildStep::Client { provider, .. } => format!("client {}", provider.as_str()),
            BuildStep::Model { spec } => format!("model {}", spec.text()),
        })
        .collect();
    assert_eq!(steps, ["client ollama", "model ollama:a"]);
    assert_eq!(
        plan.failure.expect("openai has no key").message,
        "provider openai is missing required secret api_key; checked OPENAI_API_KEY"
    );
}

#[test]
fn an_unknown_provider_block_ends_the_startup() {
    let providers = configs(vec![(
        "nobody",
        ProviderConfig::Llamafile(LlamafileConfig { base_url: None }),
    )]);
    let error = failure(build(&providers, &Vec::new(), &environment(&[])));
    assert!(error.message.starts_with("unknown completion provider \"nobody\""));
    assert!(providers.get("nobody").is_some());
    assert!(providers.get("ollama").is_none());
}

#[test]
fn settings_of_another_profile_are_a_mismatch() {
    let provider = ProviderId::parse("openai").expect("a known provider");
    let block = ProviderConfig::Llamafile(LlamafileConfig { base_url: None });
    let Err(error) = build_client(&provider, Some(&block), &environment(&[])) else {
        panic!("must fail");
    };
    assert_eq!(error.message, "provider openai resolved to the wrong configuration profile");
}

#[test]
fn ollama_needs_no_key_and_llamafile_needs_a_url() {
    let ollama = ProviderId::parse("ollama").expect("a known provider");
    let environment_with_url = environment(&[("OLLAMA_API_BASE_URL", "http://models:11434")]);
    match build_client(&ollama, None, &environment_with_url).ok().expect("builds") {
        ClientPlan::Ollama { api_key, base_url } => {
            assert_eq!(api_key, "");
            assert_eq!(base_url.as_deref(), Some("http://models:11434"));
        }
        _ => panic!("ollama has its own client"),
    }
    let llamafile = ProviderId::parse("llamafile").expect("a known provider");
    let Err(error) = build_client(&llamafile, None, &environment(&[])) else {
        panic!("must fail");
    };
    assert_eq!(
        error.message,
        "provider llamafile is missing required setting base_url; checked LLAMAFILE_API_BASE_URL"
    );
}

#[test]
fn azure_takes_exactly_one_credential_from_the_environment() {
    let azure = ProviderId::parse("azure").expect("a known provider");
    let build = |variables: &[(&str, &str)]| {
        let mut all = vec![
            ("AZURE_ENDPOINT", "https://example.openai.azure.com"),
            ("AZURE_API_VERSION", "2026-01-01"),
        ];
        all.extend_from_slice(variables);
        build_client(&azure, None, &environment(&all))
    };
    match build(&[("AZURE_TOKEN", "t")]).ok().expect("builds") {
        ClientPlan::Azure { auth: AzureLogin::Token(token), endpoint, api_version } => {
            assert_eq!(token, "t");
            assert_eq!(endpoint, "https://example.openai.azure.com");
            assert_eq!(api_version, "2026-01-01");
        }
        _ => panic!("the token is the only credential"),
    }
    assert!(build(&[]).is_err(), "no credential");
    assert!(build(&[("AZURE_TOKEN", "t"), ("AZURE_API_KEY", "k")]).is_err(), "two credentials");
}

#[test]
fn chatgpt_falls_back_to_oauth() {
    let chatgpt = ProviderId::parse("chatgpt").expect("a known provider");
    let plan = |variables: &[(&str, &str)]| {
        build_client(&chatgpt, None, &environment(variables)).ok().expect("builds")
    };
    assert!(matches!(
        plan(&[]),
        ClientPlan::ChatGpt { auth: ChatGptLogin::Oauth, allow_device_flow: false, base_url: None }
    ));
    assert!(matches!(
        plan(&[("CHATGPT_ACCESS_TOKEN", "t"), ("OPENAI_CHATGPT_API_BASE", "http://b")]),
        ClientPlan::ChatGpt {
            auth: ChatGptLogin::AccessToken { access_token, account_id: None },
            base_url: Some(base),
            ..
        } if access_token == "t" && base == "http://b"
    ));
}

#[test]
fn copilot_prefers_a_key_to_a_github_token() {
    let copilot = ProviderId::parse("copilot").expect("a known provider");
    let plan = |variables: &[(&str, &str)]| {
        build_client(&copilot, None, &environment(variables)).ok().expect("builds")
    };
    assert!(matches!(plan(&[]), ClientPlan::Copilot { auth: CopilotLogin::Oauth, .. }));
    assert!(matches!(
        plan(&[("GITHUB_TOKEN", "g")]),
        ClientPlan::Copilot { auth: CopilotLogin::GitHubAccessToken(token), .. } if token == "g"
    ));
    assert!(matches!(
        plan(&[("GITHUB_TOKEN", "g"), ("COPILOT_API_KEY", "k")]),
        ClientPlan::Copilot { auth: CopilotLogin::ApiKey(key), .. } if key == "k"
    ));
    let config = ProviderConfig::Copilot(CopilotConfig {
        base_url: None,
        auth: Some(CopilotAuth::GitHubAccessToken {
            secret: SecretSource::Env { env: "MINE".to_owned() },
        }),
        allow_device_flow: true,
    });
    let plan = build_client(&copilot, Some(&config), &environment(&[("MINE", "m")]));
    assert!(matches!(
        plan.ok().expect("builds"),
        ClientPlan::Copilot {
            auth: CopilotLogin::GitHubAccessToken(token),
            allow_device_flow: true,
            ..
        } if token == "m"
    ));
}

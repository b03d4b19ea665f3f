//! What client a provider needs: everything about it is settled here, so that nothing is left but
//! to build it.
use super::registry::{
    lemma_row_of, provider_row, row_of, Profile, PROVIDER_BASE_VARIABLES, PROVIDER_KEY_VARIABLES,
    PROVIDER_PROFILES,
};
use super::settings::{
    checked_http_url, first_set, optional_secret, optional_value, required_secret, required_value,
    resolve_explicit_secret, resolve_optional_secret, resolve_optional_value,
    resolve_required_secret, resolve_required_value, settings_error_text, source_view,
    validate_http_url, EnvironmentSource, Secret, SecretSource, SettingsError, Variable,
};
use super::spec::ProviderId;
use crate::text::{is_white_space, option_text, quoted, quoted_text, slice_texts};
use crate::url::uri_parts;
use vstd::prelude::*;
use vstd::string::*;

verus! {

/// The settings of a provider that takes an API key.
pub struct KeyedConfig<T = String> {
    pub api_key: Option<SecretSource<T>>,
    pub base_url: Option<T>,
}

/// The settings of Ollama, where the API key may be missing.
pub struct OllamaConfig<T = String> {
    pub api_key: Option<SecretSource<T>>,
    pub base_url: Option<T>,
}

/// The settings of a llamafile server.
pub struct LlamafileConfig<T = String> {
    pub base_url: Option<T>,
}

/// The settings of Azure OpenAI.
pub struct AzureConfig<T = String> {
    pub api_key: Option<SecretSource<T>>,
    pub token: Option<SecretSource<T>>,
    pub endpoint: Option<T>,
    pub api_version: Option<T>,
}

/// How to log in to ChatGPT.
pub enum ChatGptAuth<T = String> {
    Oauth,
    AccessToken { secret: SecretSource<T>, account_id: Option<T> },
}

/// The settings of ChatGPT.
pub struct ChatGptConfig<T = String> {
    pub base_url: Option<T>,
    pub auth: Option<ChatGptAuth<T>>,
    pub allow_device_flow: bool,
}

/// How to log in to GitHub Copilot.
pub enum CopilotAuth<T = String> {
    Oauth,
    ApiKey { secret: SecretSource<T> },
    GitHubAccessToken { secret: SecretSource<T> },
}

/// The settings of GitHub Copilot.
pub struct CopilotConfig<T = String> {
    pub base_url: Option<T>,
    pub auth: Option<CopilotAuth<T>>,
    pub allow_device_flow: bool,
}

/// The settings of a provider, as its profile has them.
pub enum ProviderConfig<T = String> {
    Keyed(KeyedConfig<T>),
    Ollama(OllamaConfig<T>),
    Llamafile(LlamafileConfig<T>),
    Azure(AzureConfig<T>),
    ChatGpt(ChatGptConfig<T>),
    Copilot(CopilotConfig<T>),
}

impl View for KeyedConfig<String> {
    type V = KeyedConfig<Seq<char>>;

    open spec fn view(&self) -> KeyedConfig<Seq<char>> {
        KeyedConfig { api_key: source_view(self.api_key), base_url: option_text(self.base_url) }
    }
}

impl View for OllamaConfig<String> {
    type V = OllamaConfig<Seq<char>>;

    open spec fn view(&self) -> OllamaConfig<Seq<char>> {
        OllamaConfig { api_key: source_view(self.api_key), base_url: option_text(self.base_url) }
    }
}

impl View for LlamafileConfig<String> {
    type V = LlamafileConfig<Seq<char>>;

    open spec fn view(&self) -> LlamafileConfig<Seq<char>> {
        LlamafileConfig { base_url: option_text(self.base_url) }
    }
}

impl View for AzureConfig<String> {
    type V = AzureConfig<Seq<char>>;

    open spec fn view(&self) -> AzureConfig<Seq<char>> {
        AzureConfig {
            api_key: source_view(self.api_key),
            token: source_view(self.token),
            endpoint: option_text(self.endpoint),
            api_version: option_text(self.api_version),
        }
    }
}

impl View for ChatGptAuth<String> {
    type V = ChatGptAuth<Seq<char>>;

    open spec fn view(&self) -> ChatGptAuth<Seq<char>> {
        match self {
            ChatGptAuth::Oauth => ChatGptAuth::Oauth,
            ChatGptAuth::AccessToken { secret, account_id } => ChatGptAuth::AccessToken {
                secret: secret@,
                account_id: option_text(*account_id),
            },
        }
    }
}

impl View for ChatGptConfig<String> {
    type V = ChatGptConfig<Seq<char>>;

    open spec fn view(&self) -> ChatGptConfig<Seq<char>> {
        ChatGptConfig {
            base_url: option_text(self.base_url),
            auth: match self.auth {
                Some(auth) => Some(auth@),
                None => None,
            },
            allow_device_flow: self.allow_device_flow,
        }
    }
}

impl View for CopilotAuth<String> {
    type V = CopilotAuth<Seq<char>>;

    open spec fn view(&self) -> CopilotAuth<Seq<char>> {
        match self {
            CopilotAuth::Oauth => CopilotAuth::Oauth,
            CopilotAuth::ApiKey { secret } => CopilotAuth::ApiKey { secret: secret@ },
            CopilotAuth::GitHubAccessToken { secret } => CopilotAuth::GitHubAccessToken {
                secret: secret@,
            },
        }
    }
}

impl View for CopilotConfig<String> {
    type V = CopilotConfig<Seq<char>>;

    open spec fn view(&self) -> CopilotConfig<Seq<char>> {
        CopilotConfig {
            base_url: option_text(self.base_url),
            auth: match self.auth {
                Some(auth) => Some(auth@),
                None => None,
            },
            allow_device_flow: self.allow_device_flow,
        }
    }
}

impl View for ProviderConfig<String> {
    type V = ProviderConfig<Seq<char>>;

    open spec fn view(&self) -> ProviderConfig<Seq<char>> {
        match self {
            ProviderConfig::Keyed(config) => ProviderConfig::Keyed(config@),
            ProviderConfig::Ollama(config) => ProviderConfig::Ollama(config@),
            ProviderConfig::Llamafile(config) => ProviderConfig::Llamafile(config@),
            ProviderConfig::Azure(config) => ProviderConfig::Azure(config@),
            ProviderConfig::ChatGpt(config) => ProviderConfig::ChatGpt(config@),
            ProviderConfig::Copilot(config) => ProviderConfig::Copilot(config@),
        }
    }
}

/// What settings that may be missing hold.
pub open spec fn config_view(config: Option<&ProviderConfig>) -> Option<
    ProviderConfig<Seq<char>>,
> {
    match config {
        Some(c) => Some(c@),
        None => None,
    }
}

/// How an Azure client authenticates itself.
pub enum AzureLogin<T = String> {
    ApiKey(T),
    Token(T),
}

/// How a ChatGPT client authenticates itself.
pub enum ChatGptLogin<T = String> {
    Oauth,
    AccessToken { access_token: T, account_id: Option<T> },
}

/// How a Copilot client authenticates itself.
pub enum CopilotLogin<T = String> {
    Oauth,
    ApiKey(T),
    GitHubAccessToken(T),
}

/// The client to build. It holds secrets, so it has no `Debug`.
#[allow(inconsistent_fields)]
pub enum ClientPlan<T = String> {
    Keyed { provider: T, api_key: T, base_url: Option<T> },
    /// The API key is empty where there is none.
    Ollama { api_key: T, base_url: Option<T> },
    Llamafile { base_url: T },
    Azure { auth: AzureLogin<T>, endpoint: T, api_version: T },
    ChatGpt { auth: ChatGptLogin<T>, allow_device_flow: bool, base_url: Option<T> },
    Copilot { auth: CopilotLogin<T>, allow_device_flow: bool, base_url: Option<T> },
}

impl View for AzureLogin<String> {
    type V = AzureLogin<Seq<char>>;

    open spec fn view(&self) -> AzureLogin<Seq<char>> {
        match self {
            AzureLogin::ApiKey(key) => AzureLogin::ApiKey(key@),
            AzureLogin::Token(token) => AzureLogin::Token(token@),
        }
    }
}

impl View for ChatGptLogin<String> {
    type V = ChatGptLogin<Seq<char>>;

    open spec fn view(&self) -> ChatGptLogin<Seq<char>> {
        match self {
            ChatGptLogin::Oauth => ChatGptLogin::Oauth,
            ChatGptLogin::AccessToken { access_token, account_id } => ChatGptLogin::AccessToken {
                access_token: access_token@,
                account_id: option_text(*account_id),
            },
        }
    }
}

impl View for CopilotLogin<String> {
    type V = CopilotLogin<Seq<char>>;

    open spec fn view(&self) -> CopilotLogin<Seq<char>> {
        match self {
            CopilotLogin::Oauth => CopilotLogin::Oauth,
            CopilotLogin::ApiKey(key) => CopilotLogin::ApiKey(key@),
            CopilotLogin::GitHubAccessToken(token) => CopilotLogin::GitHubAccessToken(token@),
        }
    }
}

impl View for ClientPlan<String> {
    type V = ClientPlan<Seq<char>>;

    open spec fn view(&self) -> ClientPlan<Seq<char>> {
        match self {
            ClientPlan::Keyed { provider, api_key, base_url } => ClientPlan::Keyed {
                provider: provider@,
                api_key: api_key@,
                base_url: option_text(*base_url),
            },
            ClientPlan::Ollama { api_key, base_url } => ClientPlan::Ollama {
                api_key: api_key@,
                base_url: option_text(*base_url),
            },
            ClientPlan::Llamafile { base_url } => ClientPlan::Llamafile { base_url: base_url@ },
            ClientPlan::Azure { auth, endpoint, api_version } => ClientPlan::Azure {
                auth: auth@,
                endpoint: endpoint@,
                api_version: api_version@,
            },
            ClientPlan::ChatGpt { auth, allow_device_flow, base_url } => ClientPlan::ChatGpt {
                auth: auth@,
                allow_device_flow: *allow_device_flow,
                base_url: option_text(*base_url),
            },
            ClientPlan::Copilot { auth, allow_device_flow, base_url } => ClientPlan::Copilot {
                auth: auth@,
                allow_device_flow: *allow_device_flow,
                base_url: option_text(*base_url),
            },
        }
    }
}

/// An error in the configuration of a provider, or from building its client.
#[derive(Debug)]
pub struct ProviderError<T = String> {
    pub message: T,
    /// What is said of the error behind this one.
    pub source: Option<T>,
}

impl View for ProviderError<String> {
    type V = ProviderError<Seq<char>>;

    open spec fn view(&self) -> ProviderError<Seq<char>> {
        ProviderError { message: self.message@, source: option_text(self.source) }
    }
}

impl ProviderError<String> {
    /// An error with no other behind it.
    pub fn message(message: String) -> (error: ProviderError)
        ensures
            error@ == (ProviderError { message: message@, source: None }),
    {
        ProviderError { message, source: None }
    }

    /// The error that a client could not be built. `source` tells why.
    pub fn client(provider: &str, source: String) -> (error: ProviderError)
        ensures
            error@ == (ProviderError {
                message: "failed to build provider "@ + provider@,
                source: Some(source@),
            }),
    {
        let mut message: String = String::from_str("failed to build provider ");
        message.append(provider);
        ProviderError { message, source: Some(source) }
    }

    fn settings(source: SettingsError) -> (error: ProviderError)
        ensures
            error@ == from_settings(source@),
    {
        let message: String = source.message();
        ProviderError { message: message.clone(), source: Some(message) }
    }
}

/// The error that something is wrong with the settings.
pub open spec fn from_settings(error: SettingsError<Seq<char>>) -> ProviderError<Seq<char>> {
    ProviderError {
        message: settings_error_text(error),
        source: Some(settings_error_text(error)),
    }
}

/// The settings are those of another profile.
pub open spec fn mismatch(provider: Seq<char>) -> ProviderError<Seq<char>> {
    ProviderError {
        message: "provider "@ + provider + " resolved to the wrong configuration profile"@,
        source: None,
    }
}

fn profile_mismatch(provider: &str) -> (error: ProviderError)
    ensures
        error@ == mismatch(provider@),
{
    let mut message: String = String::from_str("provider ");
    message.append(provider);
    message.append(" resolved to the wrong configuration profile");
    ProviderError::message(message)
}

/// The names of no variable or of one.
pub open spec fn variable_names(variable: Seq<char>) -> Seq<Seq<char>> {
    if variable.len() == 0 {
        seq![]
    } else {
        seq![variable]
    }
}

fn variables(variable: &'static str) -> (names: Vec<&'static str>)
    ensures
        slice_texts(names@) == variable_names(variable@),
{
    let mut names: Vec<&'static str> = Vec::new();
    if !variable.is_empty() {
        names.push(variable);
    }
    assert(slice_texts(names@) =~= variable_names(variable@));
    names
}

/// A URL that may be missing, and must be an absolute http(s) one where it is there.
pub open spec fn checked(
    key: Seq<char>,
    value: Result<Option<Seq<char>>, SettingsError<Seq<char>>>,
) -> Result<Option<Seq<char>>, ProviderError<Seq<char>>> {
    match value {
        Err(error) => Err(from_settings(error)),
        Ok(None) => Ok(None),
        Ok(Some(url)) => match checked_http_url(key, url, uri_parts(url)) {
            Err(error) => Err(from_settings(error)),
            Ok(_) => Ok(Some(url)),
        },
    }
}

/// What a checked URL holds.
pub open spec fn url_view(url: Result<Option<String>, ProviderError>) -> Result<
    Option<Seq<char>>,
    ProviderError<Seq<char>>,
> {
    match url {
        Ok(u) => Ok(option_text(u)),
        Err(e) => Err(e@),
    }
}

fn checked_url(key: &str, value: Result<Option<String>, SettingsError>) -> (url: Result<
    Option<String>,
    ProviderError,
>)
    ensures
        url_view(url) == checked(key@, super::settings::option_value_view(value)),
{
    match value {
        Err(error) => Err(ProviderError::settings(error)),
        Ok(None) => Ok(None),
        Ok(Some(value)) => match validate_http_url(key, value.as_str()) {
            Err(error) => Err(ProviderError::settings(error)),
            Ok(()) => Ok(Some(value)),
        },
    }
}

/// What a plan holds, or why there is none.
pub open spec fn plan_view(plan: Result<ClientPlan, ProviderError>) -> Result<
    ClientPlan<Seq<char>>,
    ProviderError<Seq<char>>,
> {
    match plan {
        Ok(p) => Ok(p@),
        Err(e) => Err(e@),
    }
}

/// The client of a provider that takes an API key: first the key, then the base URL.
pub open spec fn keyed_plan<E: EnvironmentSource>(
    provider: Seq<char>,
    config: KeyedConfig<Seq<char>>,
    key_variable: Seq<char>,
    base_variable: Seq<char>,
    environment: &E,
) -> Result<ClientPlan<Seq<char>>, ProviderError<Seq<char>>> {
    match required_secret(
        provider,
        "api_key"@,
        config.api_key,
        variable_names(key_variable),
        environment,
    ) {
        Err(error) => Err(from_settings(error)),
        Ok(api_key) => match checked(
            "providers."@ + provider + ".base_url"@,
            optional_value(config.base_url, variable_names(base_variable), environment),
        ) {
            Err(error) => Err(error),
            Ok(base_url) => Ok(ClientPlan::Keyed { provider, api_key, base_url }),
        },
    }
}

fn build_keyed<E: EnvironmentSource>(
    provider: &str,
    config: &KeyedConfig,
    key_variable: &'static str,
    base_variable: &'static str,
    environment: &E,
) -> (plan: Result<ClientPlan, ProviderError>)
    ensures
        plan_view(plan) == keyed_plan(
            provider@,
            config@,
            key_variable@,
            base_variable@,
            environment,
        ),
{
    let key_names: Vec<&'static str> = variables(key_variable);
    let api_key: Secret = match resolve_required_secret(
        provider,
        "api_key",
        &config.api_key,
        key_names.as_slice(),
        environment,
    ) {
        Ok(api_key) => api_key,
        Err(error) => return Err(ProviderError::settings(error)),
    };
    let mut key: String = String::from_str("providers.");
    key.append(provider);
    key.append(".base_url");
    let base_names: Vec<&'static str> = variables(base_variable);
    let base_url: Option<String> = match checked_url(
        key.as_str(),
        resolve_optional_value(&config.base_url, base_names.as_slice(), environment),
    ) {
        Ok(base_url) => base_url,
        Err(error) => return Err(error),
    };
    Ok(ClientPlan::Keyed { provider: provider.to_owned(), api_key: api_key.into_inner(), base_url })
}

/// The client of Ollama: first the key, if there is one, then the base URL.
pub open spec fn ollama_plan<E: EnvironmentSource>(
    provider: Seq<char>,
    config: OllamaConfig<Seq<char>>,
    key_variable: Seq<char>,
    base_variable: Seq<char>,
    environment: &E,
) -> Result<ClientPlan<Seq<char>>, ProviderError<Seq<char>>> {
    match optional_secret(
        provider,
        "api_key"@,
        config.api_key,
        variable_names(key_variable),
        environment,
    ) {
        Err(error) => Err(from_settings(error)),
        Ok(api_key) => match checked(
            "providers.ollama.base_url"@,
            optional_value(config.base_url, variable_names(base_variable), environment),
        ) {
            Err(error) => Err(error),
            Ok(base_url) => Ok(
                ClientPlan::Ollama {
                    api_key: match api_key {
                        Some(key) => key,
                        None => Seq::empty(),
                    },
                    base_url,
                },
            ),
        },
    }
}

fn build_ollama<E: EnvironmentSource>(
    provider: &str,
    config: &OllamaConfig,
    key_variable: &'static str,
    base_variable: &'static str,
    environment: &E,
) -> (plan: Result<ClientPlan, ProviderError>)
    ensures
        plan_view(plan) == ollama_plan(
            provider@,
            config@,
            key_variable@,
            base_variable@,
            environment,
        ),
{
    let key_names: Vec<&'static str> = variables(key_variable);
    let api_key: String = match resolve_optional_secret(
        provider,
        "api_key",
        &config.api_key,
        key_names.as_slice(),
        environment,
    ) {
        Ok(Some(api_key)) => api_key.into_inner(),
        Ok(None) => String::new(),
        Err(error) => return Err(ProviderError::settings(error)),
    };
    let base_names: Vec<&'static str> = variables(base_variable);
    let base_url: Option<String> = match checked_url(
        "providers.ollama.base_url",
        resolve_optional_value(&config.base_url, base_names.as_slice(), environment),
    ) {
        Ok(base_url) => base_url,
        Err(error) => return Err(error),
    };
    Ok(ClientPlan::Ollama { api_key, base_url })
}

/// The client of a llamafile server: it needs a base URL.
pub open spec fn llamafile_plan<E: EnvironmentSource>(
    provider: Seq<char>,
    config: LlamafileConfig<Seq<char>>,
    base_variable: Seq<char>,
    environment: &E,
) -> Result<ClientPlan<Seq<char>>, ProviderError<Seq<char>>> {
    match required_value(
        provider,
        "base_url"@,
        config.base_url,
        variable_names(base_variable),
        environment,
    ) {
        Err(error) => Err(from_settings(error)),
        Ok(base_url) => match checked_http_url(
            "providers.llamafile.base_url"@,
            base_url,
            uri_parts(base_url),
        ) {
            Err(error) => Err(from_settings(error)),
            Ok(_) => Ok(ClientPlan::Llamafile { base_url }),
        },
    }
}

fn build_llamafile<E: EnvironmentSource>(
    provider: &str,
    config: &LlamafileConfig,
    base_variable: &'static str,
    environment: &E,
) -> (plan: Result<ClientPlan, ProviderError>)
    ensures
        plan_view(plan) == llamafile_plan(provider@, config@, base_variable@, environment),
{
    let base_names: Vec<&'static str> = variables(base_variable);
    let base_url: String = match resolve_required_value(
        provider,
        "base_url",
        &config.base_url,
        base_names.as_slice(),
        environment,
    ) {
        Ok(base_url) => base_url,
        Err(error) => return Err(ProviderError::settings(error)),
    };
    match validate_http_url("providers.llamafile.base_url", base_url.as_str()) {
        Ok(()) => Ok(ClientPlan::Llamafile { base_url }),
        Err(error) => Err(ProviderError::settings(error)),
    }
}

/// The key and the token that an Azure client might use. Where the configuration names one of the
/// two, the environment is not asked for the other; where it names both, neither is resolved.
pub open spec fn azure_credentials<E: EnvironmentSource>(
    provider: Seq<char>,
    config: AzureConfig<Seq<char>>,
    environment: &E,
) -> Result<(Option<Seq<char>>, Option<Seq<char>>), SettingsError<Seq<char>>> {
    match (config.api_key, config.token) {
        (Some(_), Some(_)) => Ok((None, None)),
        (Some(_), None) => match required_secret(
            provider,
            "api_key"@,
            config.api_key,
            seq![],
            environment,
        ) {
            Ok(key) => Ok((Some(key), None)),
            Err(error) => Err(error),
        },
        (None, Some(_)) => match required_secret(
            provider,
            "token"@,
            config.token,
            seq![],
            environment,
        ) {
            Ok(token) => Ok((None, Some(token))),
            Err(error) => Err(error),
        },
        (None, None) => match optional_secret(
            provider,
            "api_key"@,
            None,
            seq!["AZURE_API_KEY"@],
            environment,
        ) {
            Err(error) => Err(error),
            Ok(key) => match optional_secret(
                provider,
                "token"@,
                None,
                seq!["AZURE_TOKEN"@],
                environment,
            ) {
                Err(error) => Err(error),
                Ok(token) => Ok((key, token)),
            },
        },
    }
}

/// The client of Azure: exactly one of key and token, then the endpoint, then the API version.
pub open spec fn azure_plan<E: EnvironmentSource>(
    provider: Seq<char>,
    config: AzureConfig<Seq<char>>,
    environment: &E,
) -> Result<ClientPlan<Seq<char>>, ProviderError<Seq<char>>> {
    match azure_credentials(provider, config, environment) {
        Err(error) => Err(from_settings(error)),
        Ok((Some(_), Some(_))) => Err(from_settings(azure_conflict(provider))),
        Ok((None, None)) => Err(from_settings(azure_conflict(provider))),
        Ok((Some(key), None)) => azure_endpoint_plan(
            provider,
            config,
            AzureLogin::ApiKey(key),
            environment,
        ),
        Ok((None, Some(token))) => azure_endpoint_plan(
            provider,
            config,
            AzureLogin::Token(token),
            environment,
        ),
    }
}

/// Not exactly one of key and token is configured.
pub open spec fn azure_conflict(provider: Seq<char>) -> SettingsError<Seq<char>> {
    SettingsError::ConflictingValues { provider, left: "api_key"@, right: "token"@ }
}

/// The client of Azure, once it is clear how it authenticates itself.
pub open spec fn azure_endpoint_plan<E: EnvironmentSource>(
    provider: Seq<char>,
    config: AzureConfig<Seq<char>>,
    auth: AzureLogin<Seq<char>>,
    environment: &E,
) -> Result<ClientPlan<Seq<char>>, ProviderError<Seq<char>>> {
    match required_value(
        provider,
        "endpoint"@,
        config.endpoint,
        seq!["AZURE_ENDPOINT"@],
        environment,
    ) {
        Err(error) => Err(from_settings(error)),
        Ok(endpoint) => match checked_http_url(
            "providers.azure.endpoint"@,
            endpoint,
            uri_parts(endpoint),
        ) {
            Err(error) => Err(from_settings(error)),
            Ok(_) => match required_value(
                provider,
                "api_version"@,
                config.api_version,
                seq!["AZURE_API_VERSION"@],
                environment,
            ) {
                Err(error) => Err(from_settings(error)),
                Ok(api_version) => Ok(ClientPlan::Azure { auth, endpoint, api_version }),
            },
        },
    }
}

fn build_azure<E: EnvironmentSource>(
    provider: &str,
    config: &AzureConfig,
    environment: &E,
) -> (plan: Result<ClientPlan, ProviderError>)
    ensures
        plan_view(plan) == azure_plan(provider@, config@, environment),
{
    let none: Vec<&'static str> = Vec::new();
    let key_names: Vec<&'static str> = vec!["AZURE_API_KEY"];
    let token_names: Vec<&'static str> = vec!["AZURE_TOKEN"];
    proof {
        assert(slice_texts(none@) =~= seq![]);
        assert(slice_texts(key_names@) =~= seq!["AZURE_API_KEY"@]);
        assert(slice_texts(token_names@) =~= seq!["AZURE_TOKEN"@]);
    }
    let mut api_key: Option<Secret> = None;
    let mut token: Option<Secret> = None;
    if config.api_key.is_some() && config.token.is_some() {
    } else if config.api_key.is_some() {
        match resolve_required_secret(
            provider,
            "api_key",
            &config.api_key,
            none.as_slice(),
            environment,
        ) {
            Ok(secret) => {
                api_key = Some(secret);
            },
            Err(error) => return Err(ProviderError::settings(error)),
        }
    } else if config.token.is_some() {
        match resolve_required_secret(
            provider,
            "token",
            &config.token,
            none.as_slice(),
            environment,
        ) {
            Ok(secret) => {
                token = Some(secret);
            },
            Err(error) => return Err(ProviderError::settings(error)),
        }
    } else {
        match resolve_optional_secret(
            provider,
            "api_key",
            &config.api_key,
            key_names.as_slice(),
            environment,
        ) {
            Ok(secret) => {
                api_key = secret;
            },
            Err(error) => return Err(ProviderError::settings(error)),
        }
        match resolve_optional_secret(
            provider,
            "token",
            &config.token,
            token_names.as_slice(),
            environment,
        ) {
            Ok(secret) => {
                token = secret;
            },
            Err(error) => return Err(ProviderError::settings(error)),
        }
    }
    let auth: AzureLogin = match (api_key, token) {
        (Some(api_key), None) => AzureLogin::ApiKey(api_key.into_inner()),
        (None, Some(token)) => AzureLogin::Token(token.into_inner()),
        _ => {
            return Err(
                ProviderError::settings(
                    SettingsError::ConflictingValues {
                        provider: provider.to_owned(),
                        left: "api_key".to_owned(),
                        right: "token".to_owned(),
                    },
                ),
            );
        },
    };
    let endpoint_names: Vec<&'static str> = vec!["AZURE_ENDPOINT"];
    let version_names: Vec<&'static str> = vec!["AZURE_API_VERSION"];
    proof {
        assert(slice_texts(endpoint_names@) =~= seq!["AZURE_ENDPOINT"@]);
        assert(slice_texts(version_names@) =~= seq!["AZURE_API_VERSION"@]);
    }
    let endpoint: String = match resolve_required_value(
        provider,
        "endpoint",
        &config.endpoint,
        endpoint_names.as_slice(),
        environment,
    ) {
        Ok(endpoint) => endpoint,
        Err(error) => return Err(ProviderError::settings(error)),
    };
    match validate_http_url("providers.azure.endpoint", endpoint.as_str()) {
        Ok(()) => {},
        Err(error) => return Err(ProviderError::settings(error)),
    }
    match resolve_required_value(
        provider,
        "api_version",
        &config.api_version,
        version_names.as_slice(),
        environment,
    ) {
        Ok(api_version) => Ok(ClientPlan::Azure { auth, endpoint, api_version }),
        Err(error) => Err(ProviderError::settings(error)),
    }
}

/// The account that goes with an access token.
pub open spec fn chatgpt_token_login<E: EnvironmentSource>(
    access_token: Seq<char>,
    account_id: Option<Seq<char>>,
    environment: &E,
) -> Result<ChatGptLogin<Seq<char>>, ProviderError<Seq<char>>> {
    match optional_value(account_id, seq!["CHATGPT_ACCOUNT_ID"@], environment) {
        Err(error) => Err(from_settings(error)),
        Ok(account_id) => Ok(ChatGptLogin::AccessToken { access_token, account_id }),
    }
}

/// How a ChatGPT client authenticates itself: as configured, else with an access token from the
/// environment, else by OAuth.
pub open spec fn chatgpt_login<E: EnvironmentSource>(
    provider: Seq<char>,
    auth: Option<ChatGptAuth<Seq<char>>>,
    environment: &E,
) -> Result<ChatGptLogin<Seq<char>>, ProviderError<Seq<char>>> {
    match auth {
        Some(ChatGptAuth::Oauth) => Ok(ChatGptLogin::Oauth),
        Some(ChatGptAuth::AccessToken { secret, account_id }) => match required_secret(
            provider,
            "auth.secret"@,
            Some(secret),
            seq![],
            environment,
        ) {
            Err(error) => Err(from_settings(error)),
            Ok(token) => chatgpt_token_login(token, account_id, environment),
        },
        None => match optional_secret(
            provider,
            "auth.secret"@,
            None,
            seq!["CHATGPT_ACCESS_TOKEN"@],
            environment,
        ) {
            Err(error) => Err(from_settings(error)),
            Ok(Some(token)) => chatgpt_token_login(token, None, environment),
            Ok(None) => Ok(ChatGptLogin::Oauth),
        },
    }
}

/// The client of ChatGPT: first the base URL, then the login.
pub open spec fn chatgpt_plan<E: EnvironmentSource>(
    provider: Seq<char>,
    config: ChatGptConfig<Seq<char>>,
    environment: &E,
) -> Result<ClientPlan<Seq<char>>, ProviderError<Seq<char>>> {
    match checked(
        "providers.chatgpt.base_url"@,
        optional_value(
            config.base_url,
            seq!["CHATGPT_API_BASE"@, "OPENAI_CHATGPT_API_BASE"@],
            environment,
        ),
    ) {
        Err(error) => Err(error),
        Ok(base_url) => match chatgpt_login(provider, config.auth, environment) {
            Err(error) => Err(error),
            Ok(auth) => Ok(
                ClientPlan::ChatGpt {
                    auth,
                    allow_device_flow: config.allow_device_flow,
                    base_url,
                },
            ),
        },
    }
}

/// What a login holds, or why there is none.
pub open spec fn chatgpt_login_view(login: Result<ChatGptLogin, ProviderError>) -> Result<
    ChatGptLogin<Seq<char>>,
    ProviderError<Seq<char>>,
> {
    match login {
        Ok(l) => Ok(l@),
        Err(e) => Err(e@),
    }
}

fn token_login<E: EnvironmentSource>(
    access_token: Secret,
    account_id: &Option<String>,
    environment: &E,
) -> (login: Result<ChatGptLogin, ProviderError>)
    ensures
        chatgpt_login_view(login) == chatgpt_token_login(
            access_token@,
            option_text(*account_id),
            environment,
        ),
{
    let names: Vec<&'static str> = vec!["CHATGPT_ACCOUNT_ID"];
    assert(slice_texts(names@) =~= seq!["CHATGPT_ACCOUNT_ID"@]);
    match resolve_optional_value(account_id, names.as_slice(), environment) {
        Ok(account_id) => Ok(
            ChatGptLogin::AccessToken { access_token: access_token.into_inner(), account_id },
        ),
        Err(error) => Err(ProviderError::settings(error)),
    }
}

fn build_chatgpt<E: EnvironmentSource>(
    provider: &str,
    config: &ChatGptConfig,
    environment: &E,
) -> (plan: Result<ClientPlan, ProviderError>)
    ensures
        plan_view(plan) == chatgpt_plan(provider@, config@, environment),
{
    let base_names: Vec<&'static str> = vec!["CHATGPT_API_BASE", "OPENAI_CHATGPT_API_BASE"];
    let token_names: Vec<&'static str> = vec!["CHATGPT_ACCESS_TOKEN"];
    proof {
        assert(slice_texts(base_names@) =~= seq![
            "CHATGPT_API_BASE"@,
            "OPENAI_CHATGPT_API_BASE"@,
        ]);
        assert(slice_texts(token_names@) =~= seq!["CHATGPT_ACCESS_TOKEN"@]);
    }
    let base_url: Option<String> = match checked_url(
        "providers.chatgpt.base_url",
        resolve_optional_value(&config.base_url, base_names.as_slice(), environment),
    ) {
        Ok(base_url) => base_url,
        Err(error) => return Err(error),
    };
    let login: Result<ChatGptLogin, ProviderError> = match &config.auth {
        Some(ChatGptAuth::Oauth) => Ok(ChatGptLogin::Oauth),
        Some(ChatGptAuth::AccessToken { secret, account_id }) => match resolve_explicit_secret(
            provider,
            "auth.secret",
            secret,
            environment,
        ) {
            Ok(token) => token_login(token, account_id, environment),
            Err(error) => Err(ProviderError::settings(error)),
        },
        None => match resolve_optional_secret(
            provider,
            "auth.secret",
            &None,
            token_names.as_slice(),
            environment,
        ) {
            Ok(Some(token)) => token_login(token, &None, environment),
            Ok(None) => Ok(ChatGptLogin::Oauth),
            Err(error) => Err(ProviderError::settings(error)),
        },
    };
    match login {
        Ok(auth) => Ok(
            ClientPlan::ChatGpt { auth, allow_device_flow: config.allow_device_flow, base_url },
        ),
        Err(error) => Err(error),
    }
}

/// How a Copilot client authenticates itself: as configured, else with an API key from the
/// environment, else with a GitHub access token from the environment, else by OAuth.
pub open spec fn copilot_login<E: EnvironmentSource>(
    provider: Seq<char>,
    auth: Option<CopilotAuth<Seq<char>>>,
    environment: &E,
) -> Result<CopilotLogin<Seq<char>>, ProviderError<Seq<char>>> {
    match auth {
        Some(CopilotAuth::Oauth) => Ok(CopilotLogin::Oauth),
        Some(CopilotAuth::ApiKey { secret }) => match required_secret(
            provider,
            "auth.secret"@,
            Some(secret),
            seq![],
            environment,
        ) {
            Err(error) => Err(from_settings(error)),
            Ok(key) => Ok(CopilotLogin::ApiKey(key)),
        },
        Some(CopilotAuth::GitHubAccessToken { secret }) => match required_secret(
            provider,
            "auth.secret"@,
            Some(secret),
            seq![],
            environment,
        ) {
            Err(error) => Err(from_settings(error)),
            Ok(token) => Ok(CopilotLogin::GitHubAccessToken(token)),
        },
        None => match optional_secret(
            provider,
            "auth.api_key"@,
            None,
            seq!["GITHUB_COPILOT_API_KEY"@, "COPILOT_API_KEY"@],
            environment,
        ) {
            Err(error) => Err(from_settings(error)),
            Ok(Some(key)) => Ok(CopilotLogin::ApiKey(key)),
            Ok(None) => match optional_secret(
                provider,
                "auth.github_access_token"@,
                None,
                seq!["COPILOT_GITHUB_ACCESS_TOKEN"@, "GITHUB_TOKEN"@],
                environment,
            ) {
                Err(error) => Err(from_settings(error)),
                Ok(Some(token)) => Ok(CopilotLogin::GitHubAccessToken(token)),
                Ok(None) => Ok(CopilotLogin::Oauth),
            },
        },
    }
}

/// The client of Copilot: first the base URL, then the login.
pub open spec fn copilot_plan<E: EnvironmentSource>(
    provider: Seq<char>,
    config: CopilotConfig<Seq<char>>,
    environment: &E,
) -> Result<ClientPlan<Seq<char>>, ProviderError<Seq<char>>> {
    match checked(
        "providers.copilot.base_url"@,
        optional_value(
            config.base_url,
            seq!["GITHUB_COPILOT_API_BASE"@, "COPILOT_BASE_URL"@],
            environment,
        ),
    ) {
        Err(error) => Err(error),
        Ok(base_url) => match copilot_login(provider, config.auth, environment) {
            Err(error) => Err(error),
            Ok(auth) => Ok(
                ClientPlan::Copilot {
                    auth,
                    allow_device_flow: config.allow_device_flow,
                    base_url,
                },
            ),
        },
    }
}

/// The first secret of these variables that is set.
fn first_secret<E: EnvironmentSource>(
    provider: &str,
    key: &str,
    names: &[&'static str],
    environment: &E,
) -> (secret: Result<Option<Secret>, ProviderError>)
    ensures
        match (optional_secret(provider@, key@, None, slice_texts(names@), environment), secret) {
            (Ok(Some(found)), Ok(Some(s))) => s@ == found,
            (Ok(None), Ok(None)) => true,
            (Err(error), Err(e)) => e@ == from_settings(error),
            _ => false,
        },
{
    match resolve_optional_secret(provider, key, &None, names, environment) {
        Ok(secret) => Ok(secret),
        Err(error) => Err(ProviderError::settings(error)),
    }
}

fn build_copilot<E: EnvironmentSource>(
    provider: &str,
    config: &CopilotConfig,
    environment: &E,
) -> (plan: Result<ClientPlan, ProviderError>)
    ensures
        plan_view(plan) == copilot_plan(provider@, config@, environment),
{
    let base_names: Vec<&'static str> = vec!["GITHUB_COPILOT_API_BASE", "COPILOT_BASE_URL"];
    let key_names: Vec<&'static str> = vec!["GITHUB_COPILOT_API_KEY", "COPILOT_API_KEY"];
    let token_names: Vec<&'static str> = vec!["COPILOT_GITHUB_ACCESS_TOKEN", "GITHUB_TOKEN"];
    proof {
        assert(slice_texts(base_names@) =~= seq!["GITHUB_COPILOT_API_BASE"@, "COPILOT_BASE_URL"@]);
        assert(slice_texts(key_names@) =~= seq!["GITHUB_COPILOT_API_KEY"@, "COPILOT_API_KEY"@]);
        assert(slice_texts(token_names@) =~= seq![
            "COPILOT_GITHUB_ACCESS_TOKEN"@,
            "GITHUB_TOKEN"@,
        ]);
    }
    let base_url: Option<String> = match checked_url(
        "providers.copilot.base_url",
        resolve_optional_value(&config.base_url, base_names.as_slice(), environment),
    ) {
        Ok(base_url) => base_url,
        Err(error) => return Err(error),
    };
    let auth: CopilotLogin = match &config.auth {
        Some(CopilotAuth::Oauth) => CopilotLogin::Oauth,
        Some(CopilotAuth::ApiKey { secret }) => match resolve_explicit_secret(
            provider,
            "auth.secret",
            secret,
            environment,
        ) {
            Ok(key) => CopilotLogin::ApiKey(key.into_inner()),
            Err(error) => return Err(ProviderError::settings(error)),
        },
        Some(CopilotAuth::GitHubAccessToken { secret }) => match resolve_explicit_secret(
            provider,
            "auth.secret",
            secret,
            environment,
        ) {
            Ok(token) => CopilotLogin::GitHubAccessToken(token.into_inner()),
            Err(error) => return Err(ProviderError::settings(error)),
        },
        None => match first_secret(provider, "auth.api_key", key_names.as_slice(), environment) {
            Err(error) => return Err(error),
            Ok(Some(key)) => CopilotLogin::ApiKey(key.into_inner()),
            Ok(None) => match first_secret(
                provider,
                "auth.github_access_token",
                token_names.as_slice(),
                environment,
            ) {
                Err(error) => return Err(error),
                Ok(Some(token)) => CopilotLogin::GitHubAccessToken(token.into_inner()),
                Ok(None) => CopilotLogin::Oauth,
            },
        },
    };
    Ok(ClientPlan::Copilot { auth, allow_device_flow: config.allow_device_flow, base_url })
}

/// The client of a provider, from its settings, or from the environment alone where it has none.
pub open spec fn client_plan<E: EnvironmentSource>(
    provider: Seq<char>,
    config: Option<ProviderConfig<Seq<char>>>,
    environment: &E,
) -> Result<ClientPlan<Seq<char>>, ProviderError<Seq<char>>> {
    match row_of(provider) {
        None => Err(
            ProviderError {
                message: "unknown completion provider "@ + quoted_text(provider),
                source: None,
            },
        ),
        Some(row) => {
            let key_variable = PROVIDER_KEY_VARIABLES@[row]@;
            let base_variable = PROVIDER_BASE_VARIABLES@[row]@;
            match (PROVIDER_PROFILES@[row], config) {
                (Profile::Keyed, None) => keyed_plan(
                    provider,
                    KeyedConfig { api_key: None, base_url: None },
                    key_variable,
                    base_variable,
                    environment,
                ),
                (Profile::Keyed, Some(ProviderConfig::Keyed(config))) => keyed_plan(
                    provider,
                    config,
                    key_variable,
                    base_variable,
                    environment,
                ),
                (Profile::Ollama, None) => ollama_plan(
                    provider,
                    OllamaConfig { api_key: None, base_url: None },
                    key_variable,
                    base_variable,
                    environment,
                ),
                (Profile::Ollama, Some(ProviderConfig::Ollama(config))) => ollama_plan(
                    provider,
                    config,
                    key_variable,
                    base_variable,
                    environment,
                ),
                (Profile::Llamafile, None) => llamafile_plan(
                    provider,
                    LlamafileConfig { base_url: None },
                    base_variable,
                    environment,
                ),
                (Profile::Llamafile, Some(ProviderConfig::Llamafile(config))) => llamafile_plan(
                    provider,
                    config,
                    base_variable,
                    environment,
                ),
                (Profile::Azure, None) => azure_plan(
                    provider,
                    AzureConfig { api_key: None, token: None, endpoint: None, api_version: None },
                    environment,
                ),
                (Profile::Azure, Some(ProviderConfig::Azure(config))) => azure_plan(
                    provider,
                    config,
                    environment,
                ),
                (Profile::ChatGpt, None) => chatgpt_plan(
                    provider,
                    ChatGptConfig { base_url: None, auth: None, allow_device_flow: false },
                    environment,
                ),
                (Profile::ChatGpt, Some(ProviderConfig::ChatGpt(config))) => chatgpt_plan(
                    provider,
                    config,
                    environment,
                ),
                (Profile::Copilot, None) => copilot_plan(
                    provider,
                    CopilotConfig { base_url: None, auth: None, allow_device_flow: false },
                    environment,
                ),
                (Profile::Copilot, Some(ProviderConfig::Copilot(config))) => copilot_plan(
                    provider,
                    config,
                    environment,
                ),
                _ => Err(mismatch(provider)),
            }
        },
    }
}

/// Settles what client the provider needs.
pub fn build_client<E: EnvironmentSource>(
    provider: &ProviderId,
    config: Option<&ProviderConfig>,
    environment: &E,
) -> (plan: Result<ClientPlan, ProviderError>)
    ensures
        plan_view(plan) == client_plan(provider@, config_view(config), environment),
{
    let name: &str = provider.as_str();
    let row: usize = match provider_row(name) {
        Some(row) => row,
        None => {
            let mut message: String = String::from_str("unknown completion provider ");
            message.append(quoted(name).as_str());
            return Err(ProviderError::message(message));
        },
    };
    let key_variable: &'static str = PROVIDER_KEY_VARIABLES[row];
    let base_variable: &'static str = PROVIDER_BASE_VARIABLES[row];
    match PROVIDER_PROFILES[row] {
        Profile::Keyed => match config {
            None => build_keyed(
                name,
                &KeyedConfig { api_key: None, base_url: None },
                key_variable,
                base_variable,
                environment,
            ),
            Some(ProviderConfig::Keyed(config)) => build_keyed(
                name,
                config,
                key_variable,
                base_variable,
                environment,
            ),
            Some(_) => Err(profile_mismatch(name)),
        },
        Profile::Ollama => match config {
            None => build_ollama(
                name,
                &OllamaConfig { api_key: None, base_url: None },
                key_variable,
                base_variable,
                environment,
            ),
            Some(ProviderConfig::Ollama(config)) => build_ollama(
                name,
                config,
                key_variable,
                base_variable,
                environment,
            ),
            Some(_) => Err(profile_mismatch(name)),
        },
        Profile::Llamafile => match config {
            None => build_llamafile(
                name,
                &LlamafileConfig { base_url: None },
                base_variable,
                environment,
            ),
            Some(ProviderConfig::Llamafile(config)) => build_llamafile(
                name,
                config,
                base_variable,
                environment,
            ),
            Some(_) => Err(profile_mismatch(name)),
        },
        Profile::Azure => match config {
            None => build_azure(
                name,
                &AzureConfig { api_key: None, token: None, endpoint: None, api_version: None },
                environment,
            ),
            Some(ProviderConfig::Azure(config)) => build_azure(name, config, environment),
            Some(_) => Err(profile_mismatch(name)),
        },
        Profile::ChatGpt => match config {
            None => build_chatgpt(
                name,
                &ChatGptConfig { base_url: None, auth: None, allow_device_flow: false },
                environment,
            ),
            Some(ProviderConfig::ChatGpt(config)) => build_chatgpt(name, config, environment),
            Some(_) => Err(profile_mismatch(name)),
        },
        Profile::Copilot => match config {
            None => build_copilot(
                name,
                &CopilotConfig { base_url: None, auth: None, allow_device_flow: false },
                environment,
            ),
            Some(ProviderConfig::Copilot(config)) => build_copilot(name, config, environment),
            Some(_) => Err(profile_mismatch(name)),
        },
    }
}

proof fn lemma_one_variable<E: EnvironmentSource>(variable: Seq<char>, environment: &E)
    ensures
        first_set(seq![variable], environment) == match environment.lookup(variable) {
            Variable::Unset => Ok::<Option<Seq<char>>, SettingsError<Seq<char>>>(None),
            Variable::Holds { value } => Ok(Some(value)),
            Variable::NotUnicode { name } => Err(SettingsError::Environment { name }),
        },
        first_set(seq![], environment) == Ok::<Option<Seq<char>>, SettingsError<Seq<char>>>(None),
{
    reveal_with_fuel(first_set, 2);
    assert(seq![variable].drop_first() =~= seq![]);
}

proof fn lemma_two_variables<E: EnvironmentSource>(
    first: Seq<char>,
    second: Seq<char>,
    environment: &E,
)
    ensures
        first_set(seq![first, second], environment) == match environment.lookup(first) {
            Variable::Unset => match environment.lookup(second) {
                Variable::Unset => Ok::<Option<Seq<char>>, SettingsError<Seq<char>>>(None),
                Variable::Holds { value } => Ok(Some(value)),
                Variable::NotUnicode { name } => Err(SettingsError::Environment { name }),
            },
            Variable::Holds { value } => Ok(Some(value)),
            Variable::NotUnicode { name } => Err(SettingsError::Environment { name }),
        },
{
    lemma_one_variable(second, environment);
    assert(seq![first, second].drop_first() =~= seq![second]);
}

/// The client of a provider with an API key: its base URL is the configured one where there is one,
/// else the value of the provider's conventional variable where that is set, and none only where
/// neither is there. Its key is the configured one, else that of the conventional variable.
pub proof fn law_keyed_client_is_as_configured<E: EnvironmentSource>(
    provider: Seq<char>,
    row: int,
    config: KeyedConfig<Seq<char>>,
    environment: &E,
)
    requires
        row_of(provider) == Some(row),
        PROVIDER_PROFILES@[row] == Profile::Keyed,
    ensures
        ({
            let planned = client_plan(provider, Some(ProviderConfig::Keyed(config)), environment);
            let key_variable = PROVIDER_KEY_VARIABLES@[row]@;
            let base_variable = PROVIDER_BASE_VARIABLES@[row]@;
            planned matches Ok(plan) ==> {
                &&& plan is Keyed
                &&& plan->Keyed_provider == provider
                &&& config.base_url is Some ==> plan->Keyed_base_url == config.base_url
                &&& config.base_url is None && base_variable.len() > 0 ==> match environment.lookup(
                    base_variable,
                ) {
                    Variable::Holds { value } => plan->Keyed_base_url == Some(value),
                    Variable::Unset => plan->Keyed_base_url is None,
                    Variable::NotUnicode { .. } => false,
                }
                &&& config.base_url is None && base_variable.len() == 0
                    ==> plan->Keyed_base_url is None
                &&& match config.api_key {
                    Some(SecretSource::Value { value }) => plan->Keyed_api_key == value,
                    Some(SecretSource::Env { env }) => environment.lookup(env) == (Variable::Holds {
                        value: plan->Keyed_api_key,
                    }),
                    None => environment.lookup(key_variable) == (Variable::Holds {
                        value: plan->Keyed_api_key,
                    }),
                }
            }
        }),
{
    lemma_row_of(provider);
    lemma_one_variable(PROVIDER_KEY_VARIABLES@[row]@, environment);
    lemma_one_variable(PROVIDER_BASE_VARIABLES@[row]@, environment);
}

/// The client of a provider with an API key can be planned exactly if there is a key that is not
/// empty, and the base URL, where there is one, is an absolute http(s) one.
pub proof fn law_keyed_client_is_planned_when_all_is_there<E: EnvironmentSource>(
    provider: Seq<char>,
    row: int,
    config: KeyedConfig<Seq<char>>,
    environment: &E,
)
    requires
        row_of(provider) == Some(row),
        PROVIDER_PROFILES@[row] == Profile::Keyed,
    ensures
        ({
            let key_variable = PROVIDER_KEY_VARIABLES@[row]@;
            let base_variable = PROVIDER_BASE_VARIABLES@[row]@;
            let key_is_there = match config.api_key {
                Some(SecretSource::Value { value }) => value.len() > 0,
                Some(SecretSource::Env { env }) => env.len() > 0 && environment.lookup(env) is Holds
                    && environment.lookup(env)->value.len() > 0,
                None => key_variable.len() > 0 && environment.lookup(key_variable) is Holds
                    && environment.lookup(key_variable)->value.len() > 0,
            };
            let url_is_sound = match config.base_url {
                Some(url) => uri_parts(url) matches Ok((Some(scheme), Some(_))) && (scheme
                    == "http"@ || scheme == "https"@),
                None => base_variable.len() == 0 || match environment.lookup(base_variable) {
                    Variable::Holds { value } => uri_parts(value) matches Ok(
                        (Some(scheme), Some(_)),
                    ) && (scheme == "http"@ || scheme == "https"@),
                    Variable::Unset => true,
                    Variable::NotUnicode { .. } => false,
                },
            };
            client_plan(provider, Some(ProviderConfig::Keyed(config)), environment) is Ok <==>
                key_is_there && url_is_sound
        }),
{
    lemma_row_of(provider);
    lemma_one_variable(PROVIDER_KEY_VARIABLES@[row]@, environment);
    lemma_one_variable(PROVIDER_BASE_VARIABLES@[row]@, environment);
}

/// A provider that takes an API key and has none is an error that names the provider and the
/// variable that was looked at.
pub proof fn law_missing_key_is_named<E: EnvironmentSource>(
    provider: Seq<char>,
    row: int,
    config: KeyedConfig<Seq<char>>,
    environment: &E,
)
    requires
        row_of(provider) == Some(row),
        PROVIDER_PROFILES@[row] == Profile::Keyed,
        config.api_key is None,
        PROVIDER_KEY_VARIABLES@[row]@.len() > 0,
        environment.lookup(PROVIDER_KEY_VARIABLES@[row]@) == Variable::Unset,
    ensures
        client_plan(provider, Some(ProviderConfig::Keyed(config)), environment) matches Err(error)
            && error.message == "provider "@ + provider
            + " is missing required secret api_key; checked "@ + PROVIDER_KEY_VARIABLES@[row]@,
{
    let variable = PROVIDER_KEY_VARIABLES@[row]@;
    lemma_row_of(provider);
    lemma_one_variable(variable, environment);
    reveal_strlit(" is missing required secret ");
    reveal_strlit("api_key");
    reveal_strlit("; checked ");
    reveal_strlit(" is missing required secret api_key; checked ");
    assert(" is missing required secret "@ + "api_key"@ + "; checked "@
        =~= " is missing required secret api_key; checked "@);
    assert("provider "@ + provider + " is missing required secret "@ + "api_key"@ + "; checked "@
        + variable =~= "provider "@ + provider + (" is missing required secret "@ + "api_key"@
        + "; checked "@) + variable);
}

/// A provider without settings is planned as one whose settings say nothing.
pub proof fn law_no_settings_are_empty_settings<E: EnvironmentSource>(
    provider: Seq<char>,
    row: int,
    environment: &E,
)
    requires
        row_of(provider) == Some(row),
    ensures
        client_plan(provider, None, environment) == client_plan(
            provider,
            Some(
                match PROVIDER_PROFILES@[row] {
                    Profile::Keyed => ProviderConfig::Keyed(
                        KeyedConfig { api_key: None, base_url: None },
                    ),
                    Profile::Ollama => ProviderConfig::Ollama(
                        OllamaConfig { api_key: None, base_url: None },
                    ),
                    Profile::Llamafile => ProviderConfig::Llamafile(
                        LlamafileConfig { base_url: None },
                    ),
                    Profile::Azure => ProviderConfig::Azure(
                        AzureConfig {
                            api_key: None,
                            token: None,
                            endpoint: None,
                            api_version: None,
                        },
                    ),
                    Profile::ChatGpt => ProviderConfig::ChatGpt(
                        ChatGptConfig { base_url: None, auth: None, allow_device_flow: false },
                    ),
                    Profile::Copilot => ProviderConfig::Copilot(
                        CopilotConfig { base_url: None, auth: None, allow_device_flow: false },
                    ),
                },
            ),
            environment,
        ),
{
}

/// The client that is planned is of the kind that the provider needs: settings of another kind are
/// refused.
pub proof fn law_planned_client_is_of_the_right_kind<E: EnvironmentSource>(
    provider: Seq<char>,
    config: Option<ProviderConfig<Seq<char>>>,
    environment: &E,
)
    ensures
        client_plan(provider, config, environment) matches Ok(plan) ==> row_of(provider) matches Some(
            row,
        ) && match PROVIDER_PROFILES@[row] {
            Profile::Keyed => plan is Keyed && (config matches Some(given) ==> given is Keyed),
            Profile::Ollama => plan is Ollama && (config matches Some(given) ==> given is Ollama),
            Profile::Llamafile => plan is Llamafile && (config matches Some(given)
                ==> given is Llamafile),
            Profile::Azure => plan is Azure && (config matches Some(given) ==> given is Azure),
            Profile::ChatGpt => plan is ChatGpt && (config matches Some(given)
                ==> given is ChatGpt),
            Profile::Copilot => plan is Copilot && (config matches Some(given)
                ==> given is Copilot),
        },
{
}

/// The client of Ollama: the base URL is the configured one, else that of the conventional variable,
/// else none. So is the key, which is empty where there is none.
pub proof fn law_ollama_client_is_as_configured<E: EnvironmentSource>(
    provider: Seq<char>,
    row: int,
    config: OllamaConfig<Seq<char>>,
    environment: &E,
)
    requires
        row_of(provider) == Some(row),
        PROVIDER_PROFILES@[row] == Profile::Ollama,
    ensures
        ({
            let planned = client_plan(provider, Some(ProviderConfig::Ollama(config)), environment);
            let key_variable = PROVIDER_KEY_VARIABLES@[row]@;
            let base_variable = PROVIDER_BASE_VARIABLES@[row]@;
            planned matches Ok(plan) ==> {
                &&& plan is Ollama
                &&& config.base_url is Some ==> plan->Ollama_base_url == config.base_url
                &&& config.base_url is None && base_variable.len() > 0 ==> match environment.lookup(
                    base_variable,
                ) {
                    Variable::Holds { value } => plan->Ollama_base_url == Some(value),
                    Variable::Unset => plan->Ollama_base_url is None,
                    Variable::NotUnicode { .. } => false,
                }
                &&& match config.api_key {
                    Some(SecretSource::Value { value }) => plan->Ollama_api_key == value,
                    Some(SecretSource::Env { env }) => environment.lookup(env) == (Variable::Holds {
                        value: plan->Ollama_api_key,
                    }),
                    None => key_variable.len() > 0 ==> match environment.lookup(key_variable) {
                        Variable::Holds { value } => plan->Ollama_api_key == value,
                        Variable::Unset => plan->Ollama_api_key.len() == 0,
                        Variable::NotUnicode { .. } => false,
                    },
                }
            }
        }),
        config.api_key is None && config.base_url is None && environment.lookup(
            PROVIDER_KEY_VARIABLES@[row]@,
        ) == Variable::Unset && environment.lookup(PROVIDER_BASE_VARIABLES@[row]@)
            == Variable::Unset ==> client_plan(
            provider,
            Some(ProviderConfig::Ollama(config)),
            environment,
        ) is Ok,
{
    lemma_row_of(provider);
    lemma_one_variable(PROVIDER_KEY_VARIABLES@[row]@, environment);
    lemma_one_variable(PROVIDER_BASE_VARIABLES@[row]@, environment);
}

/// The client of a llamafile server: its base URL is the configured one, else that of the
/// conventional variable. It is planned exactly if that URL is not blank and an absolute http(s) one.
pub proof fn law_llamafile_client_is_as_configured<E: EnvironmentSource>(
    provider: Seq<char>,
    row: int,
    config: LlamafileConfig<Seq<char>>,
    url: Seq<char>,
    environment: &E,
)
    requires
        row_of(provider) == Some(row),
        PROVIDER_PROFILES@[row] == Profile::Llamafile,
        config.base_url == Some(url) || (config.base_url is None
            && PROVIDER_BASE_VARIABLES@[row]@.len() > 0 && environment.lookup(
            PROVIDER_BASE_VARIABLES@[row]@,
        ) == (Variable::Holds { value: url })),
    ensures
        ({
            let planned = client_plan(
                provider,
                Some(ProviderConfig::Llamafile(config)),
                environment,
            );
            &&& planned matches Ok(plan) ==> plan == (ClientPlan::Llamafile { base_url: url })
            &&& planned is Ok <==> (exists|i: int|
                0 <= i < url.len() && !is_white_space(#[trigger] url[i])) && uri_parts(url) is Ok
                && uri_parts(url)->Ok_0.1 is Some && (uri_parts(url)->Ok_0.0 == Some("http"@)
                || uri_parts(url)->Ok_0.0 == Some("https"@))
        }),
{
    lemma_row_of(provider);
    lemma_one_variable(PROVIDER_BASE_VARIABLES@[row]@, environment);
}

/// A llamafile server without a base URL, and an Azure client without an endpoint or an API version,
/// is an error.
pub proof fn law_required_settings_must_be_there<E: EnvironmentSource>(
    provider: Seq<char>,
    row: int,
    llamafile: LlamafileConfig<Seq<char>>,
    azure: AzureConfig<Seq<char>>,
    environment: &E,
)
    requires
        row_of(provider) == Some(row),
    ensures
        llamafile.base_url is None && (PROVIDER_BASE_VARIABLES@[row]@.len() == 0
            || environment.lookup(PROVIDER_BASE_VARIABLES@[row]@) is Unset) ==> client_plan(
            provider,
            Some(ProviderConfig::Llamafile(llamafile)),
            environment,
        ) is Err,
        azure.endpoint is None && environment.lookup("AZURE_ENDPOINT"@) is Unset ==> client_plan(
            provider,
            Some(ProviderConfig::Azure(azure)),
            environment,
        ) is Err,
        azure.api_version is None && environment.lookup("AZURE_API_VERSION"@) is Unset
            ==> client_plan(provider, Some(ProviderConfig::Azure(azure)), environment) is Err,
{
    lemma_row_of(provider);
    lemma_one_variable(PROVIDER_BASE_VARIABLES@[row]@, environment);
    lemma_one_variable("AZURE_ENDPOINT"@, environment);
    lemma_one_variable("AZURE_API_VERSION"@, environment);
}

/// Every URL of a client that is planned is an absolute http(s) one.
pub proof fn law_planned_urls_are_http<E: EnvironmentSource>(
    provider: Seq<char>,
    config: Option<ProviderConfig<Seq<char>>>,
    environment: &E,
)
    ensures
        client_plan(provider, config, environment) matches Ok(plan) ==> {
            let url = match plan {
                ClientPlan::Keyed { base_url, .. } => base_url,
                ClientPlan::Ollama { base_url, .. } => base_url,
                ClientPlan::Llamafile { base_url } => Some(base_url),
                ClientPlan::Azure { endpoint, .. } => Some(endpoint),
                ClientPlan::ChatGpt { base_url, .. } => base_url,
                ClientPlan::Copilot { base_url, .. } => base_url,
            };
            url matches Some(text) ==> uri_parts(text) is Ok && uri_parts(text)->Ok_0.1 is Some && (
            uri_parts(text)->Ok_0.0 == Some("http"@) || uri_parts(text)->Ok_0.0 == Some("https"@))
        },
{
}

/// The client of Azure authenticates itself by exactly one of key and token: the configured one
/// where one is configured, whatever the environment says of the other; else the one that the
/// environment has. Both or neither is an error.
pub proof fn law_azure_client_has_one_credential<E: EnvironmentSource>(
    provider: Seq<char>,
    row: int,
    config: AzureConfig<Seq<char>>,
    environment: &E,
)
    requires
        row_of(provider) == Some(row),
        PROVIDER_PROFILES@[row] == Profile::Azure,
    ensures
        ({
            let planned = client_plan(provider, Some(ProviderConfig::Azure(config)), environment);
            let key = environment.lookup("AZURE_API_KEY"@);
            let token = environment.lookup("AZURE_TOKEN"@);
            &&& config.api_key is Some && config.token is Some ==> planned is Err
            &&& config.api_key is None && config.token is None && key is Unset && token is Unset
                ==> planned is Err
            &&& config.api_key is None && config.token is None && key is Holds && token is Holds
                ==> planned is Err
            &&& planned matches Ok(plan) ==> plan is Azure && match (config.api_key, config.token) {
                (Some(SecretSource::Value { value }), _) => plan->Azure_auth == AzureLogin::ApiKey(value),
                (Some(SecretSource::Env { env }), _) => plan->Azure_auth matches AzureLogin::ApiKey(value)
                    && environment.lookup(env) == (Variable::Holds { value }),
                (None, Some(SecretSource::Value { value })) => plan->Azure_auth == AzureLogin::Token(
                    value,
                ),
                (None, Some(SecretSource::Env { env })) => plan->Azure_auth matches AzureLogin::Token(
                    value,
                ) && environment.lookup(env) == (Variable::Holds { value }),
                (None, None) => match plan->Azure_auth {
                    AzureLogin::ApiKey(value) => key == (Variable::Holds { value })
                        && token is Unset,
                    AzureLogin::Token(value) => token == (Variable::Holds { value })
                        && key is Unset,
                },
            }
        }),
{
    lemma_one_variable("AZURE_API_KEY"@, environment);
    lemma_one_variable("AZURE_TOKEN"@, environment);
}

/// The endpoint and the API version of an Azure client are the configured ones, else those of the
/// environment; neither may be blank. Where both are sound and the one configured credential is
/// there, the client is planned.
pub proof fn law_azure_client_is_as_configured<E: EnvironmentSource>(
    provider: Seq<char>,
    row: int,
    config: AzureConfig<Seq<char>>,
    endpoint: Seq<char>,
    version: Seq<char>,
    environment: &E,
)
    requires
        row_of(provider) == Some(row),
        PROVIDER_PROFILES@[row] == Profile::Azure,
        config.endpoint == Some(endpoint) || (config.endpoint is None && environment.lookup(
            "AZURE_ENDPOINT"@,
        ) == (Variable::Holds { value: endpoint })),
        config.api_version == Some(version) || (config.api_version is None && environment.lookup(
            "AZURE_API_VERSION"@,
        ) == (Variable::Holds { value: version })),
    ensures
        ({
            let planned = client_plan(provider, Some(ProviderConfig::Azure(config)), environment);
            let settings_are_sound = (exists|i: int|
                0 <= i < endpoint.len() && !is_white_space(#[trigger] endpoint[i])) && uri_parts(
                endpoint,
            ) is Ok && uri_parts(endpoint)->Ok_0.1 is Some && (uri_parts(endpoint)->Ok_0.0 == Some(
                "http"@,
            ) || uri_parts(endpoint)->Ok_0.0 == Some("https"@)) && (exists|i: int|
                0 <= i < version.len() && !is_white_space(#[trigger] version[i]));
            &&& planned matches Ok(plan) ==> plan is Azure && plan->endpoint == endpoint
                && plan->api_version == version
            &&& planned is Ok ==> settings_are_sound
            &&& settings_are_sound && config.token is None && (config.api_key matches Some(
                SecretSource::Value { value },
            ) && value.len() > 0) ==> planned is Ok
            &&& settings_are_sound && config.api_key is None && (config.token matches Some(
                SecretSource::Value { value },
            ) && value.len() > 0) ==> planned is Ok
        }),
{
    lemma_one_variable("AZURE_ENDPOINT"@, environment);
    lemma_one_variable("AZURE_API_VERSION"@, environment);
}

/// The client of ChatGPT logs in as configured; where nothing is configured, with the access token
/// of the environment if it has one, else by OAuth. The account goes with an access token: the
/// configured one, else that of the environment. The base URL is the configured one, else that of
/// the first of its two variables that is set; and whether the device flow is allowed is as
/// configured.
pub proof fn law_chatgpt_client_is_as_configured<E: EnvironmentSource>(
    provider: Seq<char>,
    row: int,
    config: ChatGptConfig<Seq<char>>,
    environment: &E,
)
    requires
        row_of(provider) == Some(row),
        PROVIDER_PROFILES@[row] == Profile::ChatGpt,
    ensures
        client_plan(provider, Some(ProviderConfig::ChatGpt(config)), environment) matches Ok(plan)
            ==> {
            let account = environment.lookup("CHATGPT_ACCOUNT_ID"@);
            let token = environment.lookup("CHATGPT_ACCESS_TOKEN"@);
            &&& plan is ChatGpt
            &&& plan->ChatGpt_allow_device_flow == config.allow_device_flow
            &&& config.base_url is Some ==> plan->ChatGpt_base_url == config.base_url
            &&& config.base_url is None ==> match environment.lookup("CHATGPT_API_BASE"@) {
                Variable::Holds { value } => plan->ChatGpt_base_url == Some(value),
                Variable::Unset => match environment.lookup("OPENAI_CHATGPT_API_BASE"@) {
                    Variable::Holds { value } => plan->ChatGpt_base_url == Some(value),
                    Variable::Unset => plan->ChatGpt_base_url is None,
                    Variable::NotUnicode { .. } => false,
                },
                Variable::NotUnicode { .. } => false,
            }
            &&& config.auth == Some(ChatGptAuth::<Seq<char>>::Oauth) ==> plan->ChatGpt_auth is Oauth
            &&& config.auth is None && token is Unset ==> plan->ChatGpt_auth is Oauth
            &&& config.auth is None && token is Holds ==> plan->ChatGpt_auth is AccessToken
                && plan->ChatGpt_auth->access_token == token->value
            &&& config.auth matches Some(ChatGptAuth::AccessToken { secret, account_id })
                ==> plan->ChatGpt_auth is AccessToken && match secret {
                SecretSource::Value { value } => plan->ChatGpt_auth->access_token == value,
                SecretSource::Env { env } => environment.lookup(env) == (Variable::Holds {
                    value: plan->ChatGpt_auth->access_token,
                }),
            } && (account_id is Some ==> plan->ChatGpt_auth->account_id == account_id)
            &&& plan->ChatGpt_auth is AccessToken && !(config.auth matches Some(
                ChatGptAuth::AccessToken { account_id, .. },
            ) && account_id is Some) ==> match account {
                Variable::Holds { value } => plan->ChatGpt_auth->account_id == Some(value),
                Variable::Unset => plan->ChatGpt_auth->account_id is None,
                Variable::NotUnicode { .. } => false,
            }
        },
{
    lemma_one_variable("CHATGPT_ACCOUNT_ID"@, environment);
    lemma_one_variable("CHATGPT_ACCESS_TOKEN"@, environment);
    lemma_two_variables("CHATGPT_API_BASE"@, "OPENAI_CHATGPT_API_BASE"@, environment);
}

/// The client of Copilot logs in as configured; where nothing is configured, with the API key of the
/// environment if it has one, else with its GitHub access token if it has one, else by OAuth. The
/// base URL is the configured one, else that of the first of its two variables that is set; and
/// whether the device flow is allowed is as configured.
pub proof fn law_copilot_client_is_as_configured<E: EnvironmentSource>(
    provider: Seq<char>,
    row: int,
    config: CopilotConfig<Seq<char>>,
    environment: &E,
)
    requires
        row_of(provider) == Some(row),
        PROVIDER_PROFILES@[row] == Profile::Copilot,
    ensures
        client_plan(provider, Some(ProviderConfig::Copilot(config)), environment) matches Ok(plan)
            ==> {
            let key = match environment.lookup("GITHUB_COPILOT_API_KEY"@) {
                Variable::Unset => environment.lookup("COPILOT_API_KEY"@),
                set => set,
            };
            let token = match environment.lookup("COPILOT_GITHUB_ACCESS_TOKEN"@) {
                Variable::Unset => environment.lookup("GITHUB_TOKEN"@),
                set => set,
            };
            let base = match environment.lookup("GITHUB_COPILOT_API_BASE"@) {
                Variable::Unset => environment.lookup("COPILOT_BASE_URL"@),
                set => set,
            };
            &&& plan is Copilot
            &&& plan->Copilot_allow_device_flow == config.allow_device_flow
            &&& config.base_url is Some ==> plan->Copilot_base_url == config.base_url
            &&& config.base_url is None ==> match base {
                Variable::Holds { value } => plan->Copilot_base_url == Some(value),
                Variable::Unset => plan->Copilot_base_url is None,
                Variable::NotUnicode { .. } => false,
            }
            &&& match config.auth {
                Some(CopilotAuth::Oauth) => plan->Copilot_auth is Oauth,
                Some(CopilotAuth::ApiKey { secret }) => plan->Copilot_auth matches CopilotLogin::ApiKey(
                    used,
                ) && match secret {
                    SecretSource::Value { value } => used == value,
                    SecretSource::Env { env } => environment.lookup(env) == (Variable::Holds {
                        value: used,
                    }),
                },
                Some(CopilotAuth::GitHubAccessToken { secret }) => {
                    plan->Copilot_auth matches CopilotLogin::GitHubAccessToken(used)
                        && match secret {
                        SecretSource::Value { value } => used == value,
                        SecretSource::Env { env } => environment.lookup(env) == (Variable::Holds {
                            value: used,
                        }),
                    }
                },
                None => match key {
                    Variable::Holds { value } => plan->Copilot_auth == CopilotLogin::ApiKey(value),
                    Variable::Unset => match token {
                        Variable::Holds { value } => plan->Copilot_auth
                            == CopilotLogin::GitHubAccessToken(value),
                        Variable::Unset => plan->Copilot_auth is Oauth,
                        Variable::NotUnicode { .. } => false,
                    },
                    Variable::NotUnicode { .. } => false,
                },
            }
        },
{
    lemma_two_variables("GITHUB_COPILOT_API_KEY"@, "COPILOT_API_KEY"@, environment);
    lemma_two_variables("COPILOT_GITHUB_ACCESS_TOKEN"@, "GITHUB_TOKEN"@, environment);
    lemma_two_variables("GITHUB_COPILOT_API_BASE"@, "COPILOT_BASE_URL"@, environment);
}

/// A login by OAuth needs nothing: a ChatGPT or Copilot client that is configured so, with no base
/// URL anywhere, is planned whatever else the environment holds.
pub proof fn law_oauth_needs_no_secret<E: EnvironmentSource>(
    provider: Seq<char>,
    row: int,
    allow_device_flow: bool,
    environment: &E,
)
    requires
        row_of(provider) == Some(row),
    ensures
        PROVIDER_PROFILES@[row] == Profile::ChatGpt && environment.lookup("CHATGPT_API_BASE"@)
            is Unset && environment.lookup("OPENAI_CHATGPT_API_BASE"@) is Unset ==> client_plan(
            provider,
            Some(
                ProviderConfig::ChatGpt(
                    ChatGptConfig {
                        base_url: None,
                        auth: Some(ChatGptAuth::Oauth),
                        allow_device_flow,
                    },
                ),
            ),
            environment,
        ) is Ok,
        PROVIDER_PROFILES@[row] == Profile::Copilot && environment.lookup(
            "GITHUB_COPILOT_API_BASE"@,
        ) is Unset && environment.lookup("COPILOT_BASE_URL"@) is Unset ==> client_plan(
            provider,
            Some(
                ProviderConfig::Copilot(
                    CopilotConfig {
                        base_url: None,
                        auth: Some(CopilotAuth::Oauth),
                        allow_device_flow,
                    },
                ),
            ),
            environment,
        ) is Ok,
{
    lemma_two_variables("CHATGPT_API_BASE"@, "OPENAI_CHATGPT_API_BASE"@, environment);
    lemma_two_variables("GITHUB_COPILOT_API_BASE"@, "COPILOT_BASE_URL"@, environment);
}

/// The client that is planned for a provider with an API key has the base URL that is configured
/// where one is; else that of the provider's conventional variable where that is set; and none only
/// where neither is there.
pub proof fn law_built_client_has_its_base_url<E: EnvironmentSource>(
    provider: ProviderId,
    row: int,
    config: KeyedConfig,
    environment: &E,
    plan: ClientPlan,
)
    requires
        row_of(provider@) == Some(row),
        PROVIDER_PROFILES@[row] == Profile::Keyed,
        call_ensures(
            build_client::<E>,
            (&provider, Some(&ProviderConfig::Keyed(config)), environment),
            Ok::<ClientPlan, ProviderError>(plan),
        ),
    ensures
        plan is Keyed,
        plan->Keyed_provider@ == provider@,
        config.base_url matches Some(url) ==> plan->Keyed_base_url is Some
            && plan->Keyed_base_url->0@ == url@,
        config.base_url is None && PROVIDER_BASE_VARIABLES@[row]@.len() > 0 && environment.lookup(
            PROVIDER_BASE_VARIABLES@[row]@,
        ) is Holds ==> plan->Keyed_base_url is Some && plan->Keyed_base_url->0@
            == environment.lookup(PROVIDER_BASE_VARIABLES@[row]@)->value,
        plan->Keyed_base_url is None ==> config.base_url is None && (
        PROVIDER_BASE_VARIABLES@[row]@.len() == 0 || environment.lookup(
            PROVIDER_BASE_VARIABLES@[row]@,
        ) is Unset),
{
    law_keyed_client_is_as_configured(provider@, row, config@, environment);
}

} // verus!

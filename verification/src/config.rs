//! The agent's configuration and the rules that the types alone do not keep.
use crate::model::runtime::ProviderConfigs;
use crate::retry::{Backoff, Delay};
use crate::text::{
    is_split_at_first, option_str, quoted, quoted_text, same_text, split_at_colon,
};
use crate::time::TimeSpan;
use crate::url::{has_http_scheme, is_http_scheme, parse_uri, uri_parts, uri_view, UriParts};
use vstd::prelude::*;
use vstd::string::*;

verus! {

/// The defaults that a configuration file and the environment override.
pub const DEFAULT_CONFIG: &'static str = r#"[log]
format = "pretty"
level = "info"

[webhook]
bind = "127.0.0.1:8080"
body_limit_bytes = 1048576
body_log_limit_bytes = 65536

[incidents]
queue_capacity = 1024
idle_ttl_secs = 86400

[triage]
model = "ollama:qwen3:8b"
endpoint = "http://localhost:11434"
queue_capacity = 256
timeout_secs = 120
backoff_initial_ms = 500
backoff_max_ms = 30000

[investigation]
model = "ollama:qwen3:8b"
repo_root = "."
max_turns = 16
timeout_secs = 600
max_file_bytes = 65536
queue_capacity = 64

[providers]
"#;

/// Where the home directory came from.
#[derive(Clone, Copy, PartialEq, Eq, Structural, Debug)]
pub enum HomeSource {
    EnvVar,
    /// The running executable's directory.
    ExeDir,
}

impl HomeSource {
    /// The source in words.
    pub open spec fn text(self) -> Seq<char> {
        match self {
            HomeSource::EnvVar => "ONCALL_HOME"@,
            HomeSource::ExeDir => "exe dir"@,
        }
    }

    /// The source in words.
    pub fn as_str(self) -> (text: &'static str)
        ensures
            text@ == self.text(),
    {
        match self {
            HomeSource::EnvVar => "ONCALL_HOME",
            HomeSource::ExeDir => "exe dir",
        }
    }
}

/// An error from resolving the home directory.
#[derive(Debug)]
pub enum HomeError {
    /// The path of the executable could not be found out; this tells why.
    Exe(String),
    NoParent,
}

impl HomeError {
    /// What is said of the error.
    pub open spec fn text(self) -> Seq<char> {
        match self {
            HomeError::Exe(source) => "cannot resolve executable path: "@ + source@,
            HomeError::NoParent => "executable path has no parent directory"@,
        }
    }

    /// What is said of the error.
    pub fn message(&self) -> (message: String)
        ensures
            message@ == self.text(),
    {
        match self {
            HomeError::Exe(source) => {
                let mut message: String = String::from_str("cannot resolve executable path: ");
                message.append(source.as_str());
                message
            },
            HomeError::NoParent => String::from_str("executable path has no parent directory"),
        }
    }
}

/// Resolves the agent's home: `env_override`, else the directory of the executable. `exe_dir` is
/// that directory, nothing where the executable has no parent, or why its path is not known.
pub fn resolve_home<P>(env_override: Option<P>, exe_dir: Result<Option<P>, String>) -> (home: Result<
    (P, HomeSource),
    HomeError,
>)
    ensures
        home == match (env_override, exe_dir) {
            (Some(dir), _) => Ok((dir, HomeSource::EnvVar)),
            (None, Ok(Some(dir))) => Ok((dir, HomeSource::ExeDir)),
            (None, Ok(None)) => Err(HomeError::NoParent),
            (None, Err(source)) => Err(HomeError::Exe(source)),
        },
{
    if let Some(home) = env_override {
        return Ok((home, HomeSource::EnvVar));
    }
    match exe_dir {
        Ok(Some(dir)) => Ok((dir, HomeSource::ExeDir)),
        Ok(None) => Err(HomeError::NoParent),
        Err(source) => Err(HomeError::Exe(source)),
    }
}

/// The full agent configuration.
pub struct Config {
    pub log: LogConfig,
    pub webhook: WebhookConfig,
    pub incidents: IncidentsConfig,
    pub triage: TriageConfig,
    pub investigation: InvestigationConfig,
    pub providers: ProviderConfigs,
}

/// Incident store and dedupe settings. In a configuration that was loaded neither is zero.
#[derive(Debug)]
pub struct IncidentsConfig {
    pub queue_capacity: usize,
    pub idle_ttl_secs: u32,
}

impl IncidentsConfig {
    /// How long an incident may be without activity before it is closed.
    #[must_use]
    pub fn idle_ttl(&self) -> (ttl: TimeSpan)
        ensures
            ttl.secs() == self.idle_ttl_secs,
            ttl.nanos() == 0,
    {
        TimeSpan::from_secs(self.idle_ttl_secs)
    }
}

/// Triage stage: model, endpoint, queue and retry policy. In a configuration that was loaded no
/// number is zero.
#[derive(Debug)]
pub struct TriageConfig {
    pub model: ModelSpec,
    pub endpoint: String,
    pub queue_capacity: usize,
    pub timeout_secs: u64,
    pub backoff_initial_ms: u64,
    pub backoff_max_ms: u64,
}

impl TriageConfig {
    /// The delays between the attempts at one alert.
    #[must_use]
    pub fn backoff(&self) -> (backoff: Backoff)
        ensures
            backoff.initial.nanos() == self.backoff_initial_ms * 1_000_000,
            backoff.max.nanos() == self.backoff_max_ms * 1_000_000,
    {
        Backoff {
            initial: Delay::from_millis(self.backoff_initial_ms),
            max: Delay::from_millis(self.backoff_max_ms),
        }
    }
}

/// Investigation stage: model, repository and limits. In a configuration that was loaded no number
/// is zero.
#[derive(Debug)]
pub struct InvestigationConfig {
    pub model: ModelSpec,
    pub repo_root: String,
    pub max_turns: usize,
    pub timeout_secs: u64,
    pub max_file_bytes: usize,
    pub queue_capacity: usize,
}

impl InvestigationConfig {
    /// How long one investigation may take.
    #[must_use]
    pub fn timeout(&self) -> (timeout: Delay)
        ensures
            timeout.nanos() == self.timeout_secs * 1_000_000_000,
    {
        Delay::from_secs(self.timeout_secs)
    }
}

/// A model provider recognized in [`ModelSpec`]'s `<provider>:<model>` form.
#[derive(Clone, Copy, PartialEq, Eq, Structural, Debug)]
pub enum ModelProvider {
    Ollama,
    Anthropic,
}

impl ModelProvider {
    /// The name of the provider.
    pub open spec fn text(self) -> Seq<char> {
        match self {
            ModelProvider::Ollama => "ollama"@,
            ModelProvider::Anthropic => "anthropic"@,
        }
    }

    /// The name of the provider.
    pub fn as_str(self) -> (text: &'static str)
        ensures
            text@ == self.text(),
    {
        match self {
            ModelProvider::Ollama => "ollama",
            ModelProvider::Anthropic => "anthropic",
        }
    }
}

/// A model in `<provider>:<model>` form, parsed at load: `ollama:qwen3:8b` is Ollama's `qwen3:8b`
/// (split at the first colon).
#[derive(Debug)]
pub struct ModelSpec {
    pub provider: ModelProvider,
    pub model: String,
}

/// An error from parsing a [`ModelSpec`].
#[derive(Debug)]
pub enum ModelSpecError<T = String> {
    BadFormat { got: T },
    UnknownProvider { provider: T },
}

impl View for ModelSpec {
    type V = (ModelProvider, Seq<char>);

    open spec fn view(&self) -> (ModelProvider, Seq<char>) {
        (self.provider, self.model@)
    }
}

impl View for ModelSpecError<String> {
    type V = ModelSpecError<Seq<char>>;

    open spec fn view(&self) -> ModelSpecError<Seq<char>> {
        match self {
            ModelSpecError::BadFormat { got } => ModelSpecError::BadFormat { got: got@ },
            ModelSpecError::UnknownProvider { provider } => ModelSpecError::UnknownProvider {
                provider: provider@,
            },
        }
    }
}

/// The provider of this name.
pub open spec fn provider_named(name: Seq<char>) -> Option<ModelProvider> {
    if name == ModelProvider::Ollama.text() {
        Some(ModelProvider::Ollama)
    } else if name == ModelProvider::Anthropic.text() {
        Some(ModelProvider::Anthropic)
    } else {
        None
    }
}

/// `outcome` is what parsing `value` gives. What stands before the first colon names the provider;
/// what follows is the model, and must not be empty.
pub open spec fn parses_as(
    value: Seq<char>,
    outcome: Result<(ModelProvider, Seq<char>), ModelSpecError<Seq<char>>>,
) -> bool {
    if !value.contains(':') {
        outcome == Err::<(ModelProvider, Seq<char>), _>(ModelSpecError::BadFormat { got: value })
    } else {
        exists|provider: Seq<char>, model: Seq<char>| #[trigger]
            is_split_at_first(value, ':', provider, model) && outcome == if model.len() == 0 {
                Err(ModelSpecError::BadFormat { got: value })
            } else {
                match provider_named(provider) {
                    Some(known) => Ok((known, model)),
                    None => Err(ModelSpecError::UnknownProvider { provider }),
                }
            }
    }
}

/// What the outcome of a parse holds.
pub open spec fn parse_view(outcome: Result<ModelSpec, ModelSpecError>) -> Result<
    (ModelProvider, Seq<char>),
    ModelSpecError<Seq<char>>,
> {
    match outcome {
        Ok(spec) => Ok(spec@),
        Err(error) => Err(error@),
    }
}

/// The text of a model selection.
pub open spec fn spec_text(spec: (ModelProvider, Seq<char>)) -> Seq<char> {
    spec.0.text() + ":"@ + spec.1
}

impl ModelSpec {
    /// Parses `<provider>:<model>`.
    pub fn parse(value: &str) -> (outcome: Result<ModelSpec, ModelSpecError>)
        ensures
            parses_as(value@, parse_view(outcome)),
    {
        match split_at_colon(value) {
            Some((provider, model)) => {
                proof {
                    assert(value@[provider@.len() as int] == ':');
                    assert(is_split_at_first(value@, ':', provider@, model@));
                }
                if model.is_empty() {
                    Err(ModelSpecError::BadFormat { got: value.to_owned() })
                } else if same_text(provider, "ollama") {
                    Ok(ModelSpec { provider: ModelProvider::Ollama, model: model.to_owned() })
                } else if same_text(provider, "anthropic") {
                    Ok(ModelSpec { provider: ModelProvider::Anthropic, model: model.to_owned() })
                } else {
                    Err(ModelSpecError::UnknownProvider { provider: provider.to_owned() })
                }
            },
            None => Err(ModelSpecError::BadFormat { got: value.to_owned() }),
        }
    }

    /// The selection as text.
    pub fn text(&self) -> (text: String)
        ensures
            text@ == spec_text(self@),
    {
        let mut text: String = self.provider.as_str().to_owned();
        text.append(":");
        text.append(self.model.as_str());
        text
    }
}

impl Clone for ModelSpec {
    fn clone(&self) -> (copy: Self)
        ensures
            copy@ == self@,
    {
        ModelSpec { provider: self.provider, model: self.model.clone() }
    }
}

impl std::str::FromStr for ModelSpec {
    type Err = ModelSpecError;

    fn from_str(value: &str) -> (outcome: Result<Self, ModelSpecError>)
        ensures
            parses_as(value@, parse_view(outcome)),
    {
        ModelSpec::parse(value)
    }
}

/// What is said of an error.
pub open spec fn spec_error_text(error: ModelSpecError<Seq<char>>) -> Seq<char> {
    match error {
        ModelSpecError::BadFormat { got } =>
            "triage.model must be \"<provider>:<model>\" (e.g. \"ollama:qwen3:8b\"); got "@
            + quoted_text(got) + "; supported providers: ollama"@,
        ModelSpecError::UnknownProvider { provider } => "triage.model names unknown provider "@
            + quoted_text(provider) + "; supported providers: ollama"@,
    }
}

impl ModelSpecError<String> {
    /// What is said of the error.
    pub fn message(&self) -> (message: String)
        ensures
            message@ == spec_error_text(self@),
    {
        match self {
            ModelSpecError::BadFormat { got } => {
                let mut message: String = String::from_str(
                    "triage.model must be \"<provider>:<model>\" (e.g. \"ollama:qwen3:8b\"); got ",
                );
                message.append(quoted(got.as_str()).as_str());
                message.append("; supported providers: ollama");
                message
            },
            ModelSpecError::UnknownProvider { provider } => {
                let mut message: String = String::from_str("triage.model names unknown provider ");
                message.append(quoted(provider.as_str()).as_str());
                message.append("; supported providers: ollama");
                message
            },
        }
    }
}

/// Parsing the text of a selection gives the selection back.
pub proof fn law_parse_undoes_text(
    spec: (ModelProvider, Seq<char>),
    outcome: Result<(ModelProvider, Seq<char>), ModelSpecError<Seq<char>>>,
)
    requires
        spec.1.len() > 0,
        parses_as(spec_text(spec), outcome),
    ensures
        outcome == Ok::<_, ModelSpecError<Seq<char>>>(spec),
{
    reveal_strlit(":");
    reveal_strlit("ollama");
    reveal_strlit("anthropic");
    assert(":"@ =~= seq![':']);
    let value = spec_text(spec);
    let name = spec.0.text();
    assert(value[name.len() as int] == ':');
    assert(!name.contains(':'));
    assert("ollama"@.len() != "anthropic"@.len());
    assert(is_split_at_first(value, ':', name, spec.1));
    let (provider, model) = choose|provider: Seq<char>, model: Seq<char>| #[trigger]
        is_split_at_first(value, ':', provider, model) && outcome == if model.len() == 0 {
            Err(ModelSpecError::BadFormat { got: value })
        } else {
            match provider_named(provider) {
                Some(known) => Ok((known, model)),
                None => Err(ModelSpecError::UnknownProvider { provider }),
            }
        };
    crate::text::lemma_split_is_unique(value, ':', provider, model, name, spec.1);
}

/// What parses has the text that it was parsed from.
pub proof fn law_text_undoes_parse(value: Seq<char>, spec: (ModelProvider, Seq<char>))
    requires
        parses_as(value, Ok(spec)),
    ensures
        spec_text(spec) == value,
{
    reveal_strlit(":");
    assert(":"@ =~= seq![':']);
}

/// Per-source webhook settings.
#[derive(Clone, Copy, PartialEq, Eq, Structural, Debug)]
pub struct SourceConfig {
    /// Serve this source under `/webhook/{source}`.
    pub enabled: bool,
}

impl Default for SourceConfig {
    fn default() -> (config: SourceConfig)
        ensures
            !config.enabled,
    {
        SourceConfig { enabled: false }
    }
}

/// Webhook server settings.
#[derive(Debug)]
pub struct WebhookConfig {
    /// The address to listen on.
    pub bind: String,
    /// Largest accepted request body in bytes.
    pub body_limit_bytes: usize,
    /// Longest slice of a body echoed into the intake log line, in bytes.
    pub body_log_limit_bytes: usize,
    pub grafana: SourceConfig,
    pub pagerduty: SourceConfig,
}

/// Log output settings.
#[derive(Debug)]
pub struct LogConfig {
    pub format: LogFormat,
    /// A tracing filter directive such as `info`.
    pub level: String,
}

/// The log line format.
#[derive(Clone, Copy, PartialEq, Eq, Structural, Debug)]
pub enum LogFormat {
    Pretty,
    Json,
}

/// Where the loaded configuration came from.
#[derive(Debug)]
pub enum ConfigSource {
    /// No `config.toml` found, embedded defaults used.
    Embedded,
    /// A `config.toml` at this path.
    File(String),
}

impl ConfigSource {
    /// The source in words.
    pub open spec fn text(self) -> Seq<char> {
        match self {
            ConfigSource::Embedded => "embedded defaults"@,
            ConfigSource::File(path) => "file ("@ + path@ + ")"@,
        }
    }

    /// The source in words.
    pub fn message(&self) -> (message: String)
        ensures
            message@ == self.text(),
    {
        match self {
            ConfigSource::Embedded => String::from_str("embedded defaults"),
            ConfigSource::File(path) => {
                let mut message: String = String::from_str("file (");
                message.append(path.as_str());
                message.append(")");
                message
            },
        }
    }
}

/// An error from loading configuration.
#[derive(Debug)]
pub enum ConfigError<T = String> {
    /// The `config.toml` failed to parse or merge.
    File { path: T, source: T },
    /// The merged configuration is not a valid [`Config`].
    Invalid(T),
}

impl View for ConfigError<String> {
    type V = ConfigError<Seq<char>>;

    open spec fn view(&self) -> ConfigError<Seq<char>> {
        match self {
            ConfigError::File { path, source } => ConfigError::File {
                path: path@,
                source: source@,
            },
            ConfigError::Invalid(source) => ConfigError::Invalid(source@),
        }
    }
}

/// What is said of an error.
pub open spec fn config_error_text(error: ConfigError<Seq<char>>) -> Seq<char> {
    match error {
        ConfigError::File { path, source } => "malformed config "@ + path + ": "@ + source,
        ConfigError::Invalid(source) => "invalid config: "@ + source,
    }
}

impl ConfigError<String> {
    /// What is said of the error.
    pub fn message(&self) -> (message: String)
        ensures
            message@ == config_error_text(self@),
    {
        match self {
            ConfigError::File { path, source } => {
                let mut message: String = String::from_str("malformed config ");
                message.append(path.as_str());
                message.append(": ");
                message.append(source.as_str());
                message
            },
            ConfigError::Invalid(source) => {
                let mut message: String = String::from_str("invalid config: ");
                message.append(source.as_str());
                message
            },
        }
    }
}

/// What is said of an endpoint that will not do.
pub open spec fn endpoint_complaint(reason: Seq<char>, endpoint: Seq<char>) -> Seq<char> {
    "triage.endpoint must be an absolute http(s) URL (e.g. \"http://localhost:11434\"); "@ + reason
        + ": "@ + quoted_text(endpoint)
}

/// What is wrong with an endpoint, given what it was parsed to.
pub open spec fn endpoint_fault(
    endpoint: Seq<char>,
    parts: Result<(Option<Seq<char>>, Option<Seq<char>>), Seq<char>>,
) -> Option<Seq<char>> {
    match parts {
        Err(error) => Some(endpoint_complaint("cannot parse ("@ + error + ")"@, endpoint)),
        Ok((scheme, host)) => if !is_http_scheme(scheme) {
            Some(endpoint_complaint("missing http/https scheme"@, endpoint))
        } else if host is None {
            Some(endpoint_complaint("missing host"@, endpoint))
        } else {
            None
        },
    }
}

/// None of the numbers that must not be zero is zero.
pub open spec fn is_positive(config: Config) -> bool {
    &&& config.incidents.queue_capacity > 0
    &&& config.incidents.idle_ttl_secs > 0
    &&& config.triage.queue_capacity > 0
    &&& config.triage.timeout_secs > 0
    &&& config.triage.backoff_initial_ms > 0
    &&& config.investigation.max_turns > 0
    &&& config.investigation.timeout_secs > 0
    &&& config.investigation.max_file_bytes > 0
    &&& config.investigation.queue_capacity > 0
}

/// The key of the first number that must not be zero and is.
pub open spec fn zero_key(config: Config) -> Option<Seq<char>> {
    if config.incidents.queue_capacity == 0 {
        Some("incidents.queue_capacity"@)
    } else if config.incidents.idle_ttl_secs == 0 {
        Some("incidents.idle_ttl_secs"@)
    } else if config.triage.queue_capacity == 0 {
        Some("triage.queue_capacity"@)
    } else if config.triage.timeout_secs == 0 {
        Some("triage.timeout_secs"@)
    } else if config.triage.backoff_initial_ms == 0 {
        Some("triage.backoff_initial_ms"@)
    } else if config.investigation.max_turns == 0 {
        Some("investigation.max_turns"@)
    } else if config.investigation.timeout_secs == 0 {
        Some("investigation.timeout_secs"@)
    } else if config.investigation.max_file_bytes == 0 {
        Some("investigation.max_file_bytes"@)
    } else if config.investigation.queue_capacity == 0 {
        Some("investigation.queue_capacity"@)
    } else {
        None
    }
}

/// What is said of a number that must not be zero and is.
pub open spec fn zero_fault(config: Config) -> Option<Seq<char>> {
    match zero_key(config) {
        Some(key) => Some(
            "invalid value: integer `0`, expected a nonzero number for key `"@ + key + "`"@,
        ),
        None => None,
    }
}

/// What is wrong with a configuration: a zero where none may be, a backoff cap below the initial
/// delay, which would shrink the first doubling, or an endpoint that is no absolute http(s) URL.
/// `parts` is what the endpoint was parsed to.
pub open spec fn config_fault(
    config: Config,
    parts: Result<(Option<Seq<char>>, Option<Seq<char>>), Seq<char>>,
) -> Option<Seq<char>> {
    if zero_fault(config) is Some {
        zero_fault(config)
    } else if config.triage.backoff_max_ms < config.triage.backoff_initial_ms {
        Some("triage.backoff_max_ms must be at least triage.backoff_initial_ms"@)
    } else {
        endpoint_fault(config.triage.endpoint@, parts)
    }
}

/// What a check complains of.
pub open spec fn fault_view(check: Result<(), String>) -> Option<Seq<char>> {
    match check {
        Ok(()) => None,
        Err(message) => Some(message@),
    }
}

fn complain(reason: &str, endpoint: &str) -> (message: String)
    ensures
        message@ == endpoint_complaint(reason@, endpoint@),
{
    let mut message: String = String::from_str(
        "triage.endpoint must be an absolute http(s) URL (e.g. \"http://localhost:11434\"); ",
    );
    message.append(reason);
    message.append(": ");
    message.append(quoted(endpoint).as_str());
    message
}

/// Checks what `endpoint` was parsed to.
pub fn check_endpoint(endpoint: &str, parts: &Result<UriParts, String>) -> (check: Result<
    (),
    String,
>)
    ensures
        fault_view(check) == endpoint_fault(endpoint@, uri_view(*parts)),
{
    match parts {
        Err(error) => {
            let mut reason: String = String::from_str("cannot parse (");
            reason.append(error.as_str());
            reason.append(")");
            Err(complain(reason.as_str(), endpoint))
        },
        Ok(parts) => {
            if !has_http_scheme(parts) {
                Err(complain("missing http/https scheme", endpoint))
            } else if parts.host.is_none() {
                Err(complain("missing host", endpoint))
            } else {
                Ok(())
            }
        },
    }
}

/// Checks that `endpoint` is an absolute http(s) URL. Otherwise every triage call would fail as if
/// the network were down, and be retried forever.
pub fn validate_endpoint(endpoint: &str) -> (check: Result<(), String>)
    ensures
        fault_view(check) == endpoint_fault(endpoint@, uri_parts(endpoint@)),
{
    check_endpoint(endpoint, &parse_uri(endpoint))
}

fn first_zero(config: &Config) -> (key: Option<&'static str>)
    ensures
        option_str(key) == zero_key(*config),
        key is None <==> is_positive(*config),
{
    if config.incidents.queue_capacity == 0 {
        Some("incidents.queue_capacity")
    } else if config.incidents.idle_ttl_secs == 0 {
        Some("incidents.idle_ttl_secs")
    } else if config.triage.queue_capacity == 0 {
        Some("triage.queue_capacity")
    } else if config.triage.timeout_secs == 0 {
        Some("triage.timeout_secs")
    } else if config.triage.backoff_initial_ms == 0 {
        Some("triage.backoff_initial_ms")
    } else if config.investigation.max_turns == 0 {
        Some("investigation.max_turns")
    } else if config.investigation.timeout_secs == 0 {
        Some("investigation.timeout_secs")
    } else if config.investigation.max_file_bytes == 0 {
        Some("investigation.max_file_bytes")
    } else if config.investigation.queue_capacity == 0 {
        Some("investigation.queue_capacity")
    } else {
        None
    }
}

/// Checks that none of the numbers that must not be zero is zero.
pub fn validate_numbers(config: &Config) -> (check: Result<(), String>)
    ensures
        fault_view(check) == zero_fault(*config),
        check is Ok <==> is_positive(*config),
{
    match first_zero(config) {
        Some(key) => {
            let mut message: String = String::from_str(
                "invalid value: integer `0`, expected a nonzero number for key `",
            );
            message.append(key);
            message.append("`");
            Err(message)
        },
        None => Ok(()),
    }
}

/// Rejects what the types cannot.
pub fn validate(config: &Config) -> (check: Result<(), String>)
    ensures
        fault_view(check) == config_fault(*config, uri_parts(config.triage.endpoint@)),
        check is Ok ==> is_positive(*config),
{
    match validate_numbers(config) {
        Ok(()) => {},
        Err(message) => return Err(message),
    }
    if config.triage.backoff_max_ms < config.triage.backoff_initial_ms {
        return Err(
            String::from_str("triage.backoff_max_ms must be at least triage.backoff_initial_ms"),
        );
    }
    validate_endpoint(config.triage.endpoint.as_str())
}

/// Why layers do not make a configuration: they could not be merged or read, or have a zero where
/// none may be.
pub open spec fn layers_fault(layers: Result<Config, String>) -> Option<Seq<char>> {
    match layers {
        Err(error) => Some(error@),
        Ok(config) => zero_fault(config),
    }
}

/// The error for layers that make no configuration. A file is blamed if it makes none already
/// without the environment.
pub open spec fn layers_error(
    source: ConfigSource,
    file_alone: Result<Config, String>,
    error: Seq<char>,
) -> ConfigError<Seq<char>> {
    match (source, layers_fault(file_alone)) {
        (ConfigSource::File(path), Some(_)) => ConfigError::File { path: path@, source: error },
        _ => ConfigError::Invalid(error),
    }
}

fn blame(
    source: ConfigSource,
    file_alone: &Result<Config, String>,
    error: String,
) -> (blamed: ConfigError)
    ensures
        blamed@ == layers_error(source, *file_alone, error@),
{
    let file_is_sound: bool = match file_alone {
        Ok(config) => validate_numbers(config).is_ok(),
        Err(_) => false,
    };
    match source {
        ConfigSource::File(path) => {
            if file_is_sound {
                ConfigError::Invalid(error)
            } else {
                ConfigError::File { path, source: error }
            }
        },
        ConfigSource::Embedded => ConfigError::Invalid(error),
    }
}

/// Decides on a configuration once its layers were merged. `merged` is what all of them make, and
/// `file_alone` what the defaults and the file make without the environment.
///
/// Layers that make no configuration are blamed on the file where there is one and it already
/// makes none; a sound file is not blamed for what the environment breaks. What a configuration
/// breaks beyond that is blamed on nobody.
pub fn finish_load(
    source: ConfigSource,
    file_alone: Result<Config, String>,
    merged: Result<Config, String>,
) -> (loaded: Result<(Config, ConfigSource), ConfigError>)
    ensures
        match layers_fault(merged) {
            Some(error) => loaded is Err && (loaded->Err_0)@ == layers_error(
                source,
                file_alone,
                error,
            ),
            None => match config_fault(merged->Ok_0, uri_parts((merged->Ok_0).triage.endpoint@)) {
                Some(fault) => loaded is Err && (loaded->Err_0)@ == ConfigError::Invalid(fault),
                None => loaded == Ok::<_, ConfigError>((merged->Ok_0, source)),
            },
        },
        loaded matches Ok((config, _)) ==> is_positive(config),
{
    let config: Config = match merged {
        Ok(config) => config,
        Err(error) => return Err(blame(source, &file_alone, error)),
    };
    match validate_numbers(&config) {
        Ok(()) => {},
        Err(error) => return Err(blame(source, &file_alone, error)),
    }
    match validate(&config) {
        Ok(()) => Ok((config, source)),
        Err(error) => Err(ConfigError::Invalid(error)),
    }
}

/// A configuration is accepted exactly if none of its numbers that must not be zero is zero, the cap
/// of the backoff is not below its start, and the endpoint is an absolute http(s) URL.
pub proof fn law_accepted_exactly_when_sound(
    config: Config,
    parts: Result<(Option<Seq<char>>, Option<Seq<char>>), Seq<char>>,
)
    ensures
        config_fault(config, parts) is None <==> {
            &&& config.incidents.queue_capacity > 0
            &&& config.incidents.idle_ttl_secs > 0
            &&& config.triage.queue_capacity > 0
            &&& config.triage.timeout_secs > 0
            &&& config.triage.backoff_initial_ms > 0
            &&& config.investigation.max_turns > 0
            &&& config.investigation.timeout_secs > 0
            &&& config.investigation.max_file_bytes > 0
            &&& config.investigation.queue_capacity > 0
            &&& config.triage.backoff_initial_ms <= config.triage.backoff_max_ms
            &&& parts is Ok
            &&& parts->Ok_0.0 == Some("http"@) || parts->Ok_0.0 == Some("https"@)
            &&& parts->Ok_0.1 is Some
        },
{
}

/// A file that makes a sound configuration by itself is not blamed for what the environment breaks,
/// and neither are the defaults; a file that makes none by itself is blamed, by its path.
pub proof fn law_only_a_broken_file_is_blamed(
    source: ConfigSource,
    file_alone: Result<Config, String>,
    error: Seq<char>,
)
    ensures
        source is Embedded ==> layers_error(source, file_alone, error) == ConfigError::Invalid(
            error,
        ),
        (file_alone matches Ok(config) && config.incidents.queue_capacity > 0
            && config.incidents.idle_ttl_secs > 0 && config.triage.queue_capacity > 0
            && config.triage.timeout_secs > 0 && config.triage.backoff_initial_ms > 0
            && config.investigation.max_turns > 0 && config.investigation.timeout_secs > 0
            && config.investigation.max_file_bytes > 0 && config.investigation.queue_capacity > 0)
            ==> layers_error(source, file_alone, error) == ConfigError::Invalid(error),
        source matches ConfigSource::File(path) ==> ((file_alone is Err || (file_alone matches Ok(
            config,
        ) && (config.incidents.queue_capacity == 0 || config.incidents.idle_ttl_secs == 0
            || config.triage.queue_capacity == 0 || config.triage.timeout_secs == 0
            || config.triage.backoff_initial_ms == 0 || config.investigation.max_turns == 0
            || config.investigation.timeout_secs == 0 || config.investigation.max_file_bytes == 0
            || config.investigation.queue_capacity == 0))) ==> layers_error(
            source,
            file_alone,
            error,
        ) == (ConfigError::File { path: path@, source: error })),
{
}

/// The provider of a selection is what stands before the first colon, and the model is all that
/// follows it, further colons included.
pub proof fn law_model_is_all_after_the_first_colon(
    name: Seq<char>,
    model: Seq<char>,
    outcome: Result<(ModelProvider, Seq<char>), ModelSpecError<Seq<char>>>,
)
    requires
        !name.contains(':'),
        model.len() > 0,
        parses_as(name + seq![':'] + model, outcome),
    ensures
        name == "ollama"@ ==> outcome == Ok::<_, ModelSpecError<Seq<char>>>(
            (ModelProvider::Ollama, model),
        ),
        name == "anthropic"@ ==> outcome == Ok::<_, ModelSpecError<Seq<char>>>(
            (ModelProvider::Anthropic, model),
        ),
        name != "ollama"@ && name != "anthropic"@ ==> outcome == Err::<
            (ModelProvider, Seq<char>),
            _,
        >(ModelSpecError::UnknownProvider { provider: name }),
{
    reveal_strlit("ollama");
    reveal_strlit("anthropic");
    assert("ollama"@.len() != "anthropic"@.len());
    let value = name + seq![':'] + model;
    assert(value[name.len() as int] == ':');
    assert(is_split_at_first(value, ':', name, model));
    let (before, after) = choose|before: Seq<char>, after: Seq<char>| #[trigger]
        is_split_at_first(value, ':', before, after) && outcome == if after.len() == 0 {
            Err(ModelSpecError::BadFormat { got: value })
        } else {
            match provider_named(before) {
                Some(known) => Ok((known, after)),
                None => Err(ModelSpecError::UnknownProvider { provider: before }),
            }
        };
    crate::text::lemma_split_is_unique(value, ':', before, after, name, model);
}

/// A number that must not be zero is named in the complaint only if it is zero.
pub proof fn law_named_number_is_zero(config: Config)
    ensures
        zero_key(config) == Some("incidents.queue_capacity"@) ==> config.incidents.queue_capacity == 0,
        zero_key(config) == Some("incidents.idle_ttl_secs"@) ==> config.incidents.idle_ttl_secs == 0,
        zero_key(config) == Some("triage.queue_capacity"@) ==> config.triage.queue_capacity == 0,
        zero_key(config) == Some("triage.timeout_secs"@) ==> config.triage.timeout_secs == 0,
        zero_key(config) == Some("triage.backoff_initial_ms"@) ==> config.triage.backoff_initial_ms == 0,
        zero_key(config) == Some("investigation.max_turns"@) ==> config.investigation.max_turns == 0,
        zero_key(config) == Some("investigation.timeout_secs"@) ==> config.investigation.timeout_secs == 0,
        zero_key(config) == Some("investigation.max_file_bytes"@) ==> config.investigation.max_file_bytes == 0,
        zero_key(config) == Some("investigation.queue_capacity"@) ==> config.investigation.queue_capacity == 0,
        zero_fault(config) is Some <==> zero_key(config) is Some,
{
    reveal_strlit("incidents.queue_capacity");
    reveal_strlit("incidents.idle_ttl_secs");
    reveal_strlit("triage.queue_capacity");
    reveal_strlit("triage.timeout_secs");
    reveal_strlit("triage.backoff_initial_ms");
    reveal_strlit("investigation.max_turns");
    reveal_strlit("investigation.timeout_secs");
    reveal_strlit("investigation.max_file_bytes");
    reveal_strlit("investigation.queue_capacity");
    assert("incidents.queue_capacity"@.len() != "incidents.idle_ttl_secs"@.len());
    assert("incidents.queue_capacity"@.len() != "triage.queue_capacity"@.len());
    assert("incidents.queue_capacity"@.len() != "triage.timeout_secs"@.len());
    assert("incidents.queue_capacity"@.len() != "triage.backoff_initial_ms"@.len());
    assert("incidents.queue_capacity"@.len() != "investigation.max_turns"@.len());
    assert("incidents.queue_capacity"@.len() != "investigation.timeout_secs"@.len());
    assert("incidents.queue_capacity"@.len() != "investigation.max_file_bytes"@.len());
    assert("incidents.queue_capacity"@.len() != "investigation.queue_capacity"@.len());
    assert("incidents.idle_ttl_secs"@.len() != "triage.queue_capacity"@.len());
    assert("incidents.idle_ttl_secs"@.len() != "triage.timeout_secs"@.len());
    assert("incidents.idle_ttl_secs"@.len() != "triage.backoff_initial_ms"@.len());
    assert("incidents.idle_ttl_secs"@[2] != "investigation.max_turns"@[2]);
    assert("incidents.idle_ttl_secs"@.len() != "investigation.timeout_secs"@.len());
    assert("incidents.idle_ttl_secs"@.len() != "investigation.max_file_bytes"@.len());
    assert("incidents.idle_ttl_secs"@.len() != "investigation.queue_capacity"@.len());
    assert("triage.queue_capacity"@.len() != "triage.timeout_secs"@.len());
    assert("triage.queue_capacity"@.len() != "triage.backoff_initial_ms"@.len());
    assert("triage.queue_capacity"@.len() != "investigation.max_turns"@.len());
    assert("triage.queue_capacity"@.len() != "investigation.timeout_secs"@.len());
    assert("triage.queue_capacity"@.len() != "investigation.max_file_bytes"@.len());
    assert("triage.queue_capacity"@.len() != "investigation.queue_capacity"@.len());
    assert("triage.timeout_secs"@.len() != "triage.backoff_initial_ms"@.len());
    assert("triage.timeout_secs"@.len() != "investigation.max_turns"@.len());
    assert("triage.timeout_secs"@.len() != "investigation.timeout_secs"@.len());
    assert("triage.timeout_secs"@.len() != "investigation.max_file_bytes"@.len());
    assert("triage.timeout_secs"@.len() != "investigation.queue_capacity"@.len());
    assert("triage.backoff_initial_ms"@.len() != "investigation.max_turns"@.len());
    assert("triage.backoff_initial_ms"@.len() != "investigation.timeout_secs"@.len());
    assert("triage.backoff_initial_ms"@.len() != "investigation.max_file_bytes"@.len());
    assert("triage.backoff_initial_ms"@.len() != "investigation.queue_capacity"@.len());
    assert("investigation.max_turns"@.len() != "investigation.timeout_secs"@.len());
    assert("investigation.max_turns"@.len() != "investigation.max_file_bytes"@.len());
    assert("investigation.max_turns"@.len() != "investigation.queue_capacity"@.len());
    assert("investigation.timeout_secs"@.len() != "investigation.max_file_bytes"@.len());
    assert("investigation.timeout_secs"@.len() != "investigation.queue_capacity"@.len());
    assert("investigation.max_file_bytes"@[14] != "investigation.queue_capacity"@[14]);
}

/// What is loaded is what the layers were merged to, unchanged, and its source is told as it was;
/// nothing that the rules refuse is loaded.
pub proof fn law_loaded_configuration_is_the_merged_one(
    source: ConfigSource,
    file_alone: Result<Config, String>,
    merged: Result<Config, String>,
    loaded: Result<(Config, ConfigSource), ConfigError>,
)
    requires
        call_ensures(finish_load, (source, file_alone, merged), loaded),
    ensures
        loaded matches Ok((config, from)) ==> {
            &&& merged == Ok::<Config, String>(config)
            &&& from == source
            &&& config.incidents.queue_capacity > 0
            &&& config.incidents.idle_ttl_secs > 0
            &&& config.triage.backoff_initial_ms <= config.triage.backoff_max_ms
            &&& config.investigation.max_turns > 0
            &&& uri_parts(config.triage.endpoint@) is Ok
            &&& uri_parts(config.triage.endpoint@)->Ok_0.1 is Some
        },
        merged is Err ==> loaded is Err,
{
    if let Ok((config, from)) = loaded {
        law_accepted_exactly_when_sound(config, uri_parts(config.triage.endpoint@));
    }
}

/// A home that the environment names is taken as it is, whatever is known of the executable.
pub proof fn law_named_home_wins<P>(
    home: P,
    exe_dir: Result<Option<P>, String>,
    resolved: Result<(P, HomeSource), HomeError>,
)
    requires
        call_ensures(resolve_home::<P>, (Some(home), exe_dir), resolved),
    ensures
        resolved == Ok::<(P, HomeSource), HomeError>((home, HomeSource::EnvVar)),
{
}

} // verus!

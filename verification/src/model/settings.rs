//! The settings of a provider: secrets, URLs and other values, from the configuration or from the
//! environment.
use crate::text::{
    is_blank, join_slices, joined, lemma_trimmed_blank, option_text, quoted, quoted_text, same_text,
    slice_texts, trimmed,
};
use crate::url::{has_http_scheme, is_http_url, parse_uri, uri_parts, uri_view, UriParts};
use vstd::prelude::*;
use vstd::string::*;

verus! {

/// Where a secret is found: in an environment variable, or in the configuration itself.
///
/// It has no `Debug`, so that no secret is ever printed.
pub enum SecretSource<T = String> {
    Env { env: T },
    Value { value: T },
}

impl View for SecretSource<String> {
    type V = SecretSource<Seq<char>>;

    open spec fn view(&self) -> SecretSource<Seq<char>> {
        match self {
            SecretSource::Env { env } => SecretSource::Env { env: env@ },
            SecretSource::Value { value } => SecretSource::Value { value: value@ },
        }
    }
}

impl SecretSource<String> {
    /// What is printed in place of the source.
    pub fn debug_text(&self) -> (text: &'static str)
        ensures
            text@ == "SecretSource(<redacted>)"@,
    {
        "SecretSource(<redacted>)"
    }
}

/// What a source that may be missing holds.
pub open spec fn source_view(source: Option<SecretSource>) -> Option<SecretSource<Seq<char>>> {
    match source {
        Some(s) => Some(s@),
        None => None,
    }
}

/// A secret. It has no `Debug`, so that it is never printed.
pub struct Secret(String);

impl View for Secret {
    type V = Seq<char>;

    closed spec fn view(&self) -> Seq<char> {
        self.0@
    }
}

impl Secret {
    /// The secret itself.
    pub fn expose(&self) -> (secret: &str)
        ensures
            secret@ == self@,
    {
        self.0.as_str()
    }

    /// The secret itself.
    pub fn into_inner(self) -> (secret: String)
        ensures
            secret@ == self@,
    {
        self.0
    }

    /// What is printed in place of the secret.
    pub fn debug_text(&self) -> (text: &'static str)
        ensures
            text@ == "Secret(<redacted>)"@,
    {
        "Secret(<redacted>)"
    }
}

/// What the environment says of a variable.
pub enum Variable {
    Unset,
    Holds { value: Seq<char> },
    /// The value is not valid Unicode.
    NotUnicode { name: Seq<char> },
}

/// What an answer of the environment says.
pub open spec fn variable_view(value: Result<Option<String>, EnvironmentError>) -> Variable {
    match value {
        Ok(None) => Variable::Unset,
        Ok(Some(v)) => Variable::Holds { value: v@ },
        Err(e) => Variable::NotUnicode { name: e.name@ },
    }
}

/// Read-only environment access used by provider resolution. It answers the same each time it is
/// asked for a name.
pub trait EnvironmentSource {
    /// What the environment says of the variable.
    spec fn lookup(&self, name: Seq<char>) -> Variable;

    /// Returns a Unicode environment value without changing process state. Fails when the value is
    /// not valid Unicode.
    fn var(&self, name: &str) -> (value: Result<Option<String>, EnvironmentError>)
        ensures
            variable_view(value) == self.lookup(name@),
    ;
}

/// An environment value that is not valid Unicode.
#[derive(Debug)]
pub struct EnvironmentError {
    pub name: String,
}

/// The environment of the process, as it was when the process started: each variable with its
/// value, or without one where the value is not valid Unicode.
pub struct ProcessEnvironment {
    variables: Vec<(String, Option<String>)>,
}

/// What the first entry under this name says.
pub open spec fn first_variable(
    variables: Seq<(String, Option<String>)>,
    name: Seq<char>,
) -> Variable
    decreases variables.len(),
{
    if variables.len() == 0 {
        Variable::Unset
    } else if variables[0].0@ == name {
        match variables[0].1 {
            Some(value) => Variable::Holds { value: value@ },
            None => Variable::NotUnicode { name },
        }
    } else {
        first_variable(variables.drop_first(), name)
    }
}

impl ProcessEnvironment {
    /// An environment that holds these variables.
    pub fn new(variables: Vec<(String, Option<String>)>) -> (environment: ProcessEnvironment)
        ensures
            forall|name: Seq<char>| #[trigger]
                environment.lookup(name) == first_variable(variables@, name),
    {
        ProcessEnvironment { variables }
    }
}

impl EnvironmentSource for ProcessEnvironment {
    closed spec fn lookup(&self, name: Seq<char>) -> Variable {
        first_variable(self.variables@, name)
    }

    fn var(&self, name: &str) -> (value: Result<Option<String>, EnvironmentError>) {
        let mut i: usize = 0;
        let ghost all = self.variables@;
        assert(all.skip(0) =~= all);
        while i < self.variables.len()
            invariant
                i <= self.variables.len(),
                all == self.variables@,
                first_variable(all, name@) == first_variable(all.skip(i as int), name@),
            decreases self.variables.len() - i,
        {
            let entry = &self.variables[i];
            assert(all.skip(i as int)[0] == entry);
            if same_text(entry.0.as_str(), name) {
                return match &entry.1 {
                    Some(value) => Ok(Some(value.clone())),
                    None => Err(EnvironmentError { name: name.to_owned() }),
                };
            }
            assert(all.skip(i as int).drop_first() =~= all.skip(i + 1));
            i = i + 1;
        }
        Ok(None)
    }
}

/// What is wrong with the settings of a provider.
#[derive(Debug)]
pub enum SettingsError<T = String> {
    Environment { name: T },
    MissingSecret { provider: T, key: T, environment: T },
    EmptySecret { provider: T, key: T },
    EmptyEnvironmentName { provider: T, key: T },
    MissingValue { provider: T, key: T, environment: T },
    EmptyValue { provider: T, key: T },
    ConflictingValues { provider: T, left: T, right: T },
    InvalidUrl { key: T, value: T },
}

impl View for SettingsError<String> {
    type V = SettingsError<Seq<char>>;

    open spec fn view(&self) -> SettingsError<Seq<char>> {
        match self {
            SettingsError::Environment { name } => SettingsError::Environment { name: name@ },
            SettingsError::MissingSecret { provider, key, environment } => {
                SettingsError::MissingSecret {
                    provider: provider@,
                    key: key@,
                    environment: environment@,
                }
            },
            SettingsError::EmptySecret { provider, key } => SettingsError::EmptySecret {
                provider: provider@,
                key: key@,
            },
            SettingsError::EmptyEnvironmentName { provider, key } => {
                SettingsError::EmptyEnvironmentName { provider: provider@, key: key@ }
            },
            SettingsError::MissingValue { provider, key, environment } => {
                SettingsError::MissingValue {
                    provider: provider@,
                    key: key@,
                    environment: environment@,
                }
            },
            SettingsError::EmptyValue { provider, key } => SettingsError::EmptyValue {
                provider: provider@,
                key: key@,
            },
            SettingsError::ConflictingValues { provider, left, right } => {
                SettingsError::ConflictingValues {
                    provider: provider@,
                    left: left@,
                    right: right@,
                }
            },
            SettingsError::InvalidUrl { key, value } => SettingsError::InvalidUrl {
                key: key@,
                value: value@,
            },
        }
    }
}

/// What is said of an error.
pub open spec fn settings_error_text(error: SettingsError<Seq<char>>) -> Seq<char> {
    match error {
        SettingsError::Environment { name } => "environment variable "@ + quoted_text(name)
            + " is not valid Unicode"@,
        SettingsError::MissingSecret { provider, key, environment } => "provider "@ + provider
            + " is missing required secret "@ + key + "; checked "@ + environment,
        SettingsError::EmptySecret { provider, key } => "provider "@ + provider
            + " has an empty secret for "@ + key,
        SettingsError::EmptyEnvironmentName { provider, key } => "provider "@ + provider
            + " has an empty environment variable name for "@ + key,
        SettingsError::MissingValue { provider, key, environment } => "provider "@ + provider
            + " is missing required setting "@ + key + "; checked "@ + environment,
        SettingsError::EmptyValue { provider, key } => "provider "@ + provider
            + " has an empty required setting "@ + key,
        SettingsError::ConflictingValues { provider, left, right } => "provider "@ + provider
            + " must configure exactly one of "@ + left + " or "@ + right,
        SettingsError::InvalidUrl { key, value } => key
            + " must be an absolute http(s) URL; got "@ + quoted_text(value),
    }
}

impl SettingsError<String> {
    /// What is said of the error.
    pub fn message(&self) -> (message: String)
        ensures
            message@ == settings_error_text(self@),
    {
        match self {
            SettingsError::Environment { name } => {
                let mut message: String = String::from_str("environment variable ");
                message.append(quoted(name.as_str()).as_str());
                message.append(" is not valid Unicode");
                message
            },
            SettingsError::MissingSecret { provider, key, environment } => {
                let mut message: String = String::from_str("provider ");
                message.append(provider.as_str());
                message.append(" is missing required secret ");
                message.append(key.as_str());
                message.append("; checked ");
                message.append(environment.as_str());
                message
            },
            SettingsError::EmptySecret { provider, key } => {
                let mut message: String = String::from_str("provider ");
                message.append(provider.as_str());
                message.append(" has an empty secret for ");
                message.append(key.as_str());
                message
            },
            SettingsError::EmptyEnvironmentName { provider, key } => {
                let mut message: String = String::from_str("provider ");
                message.append(provider.as_str());
                message.append(" has an empty environment variable name for ");
                message.append(key.as_str());
                message
            },
            SettingsError::MissingValue { provider, key, environment } => {
                let mut message: String = String::from_str("provider ");
                message.append(provider.as_str());
                message.append(" is missing required setting ");
                message.append(key.as_str());
                message.append("; checked ");
                message.append(environment.as_str());
                message
            },
            SettingsError::EmptyValue { provider, key } => {
                let mut message: String = String::from_str("provider ");
                message.append(provider.as_str());
                message.append(" has an empty required setting ");
                message.append(key.as_str());
                message
            },
            SettingsError::ConflictingValues { provider, left, right } => {
                let mut message: String = String::from_str("provider ");
                message.append(provider.as_str());
                message.append(" must configure exactly one of ");
                message.append(left.as_str());
                message.append(" or ");
                message.append(right.as_str());
                message
            },
            SettingsError::InvalidUrl { key, value } => {
                let mut message: String = key.clone();
                message.append(" must be an absolute http(s) URL; got ");
                message.append(quoted(value.as_str()).as_str());
                message
            },
        }
    }
}

/// What the first of these variables that is set holds. A variable that is not Unicode is an error,
/// unless one before it is set.
pub open spec fn first_set<E: EnvironmentSource>(
    names: Seq<Seq<char>>,
    environment: &E,
) -> Result<Option<Seq<char>>, SettingsError<Seq<char>>>
    decreases names.len(),
{
    if names.len() == 0 {
        Ok(None)
    } else {
        match environment.lookup(names[0]) {
            Variable::Unset => first_set(names.drop_first(), environment),
            Variable::Holds { value } => Ok(Some(value)),
            Variable::NotUnicode { name } => Err(SettingsError::Environment { name }),
        }
    }
}

/// A secret must not be empty.
pub open spec fn nonempty(provider: Seq<char>, key: Seq<char>, value: Seq<char>) -> Result<
    Seq<char>,
    SettingsError<Seq<char>>,
> {
    if value.len() == 0 {
        Err(SettingsError::EmptySecret { provider, key })
    } else {
        Ok(value)
    }
}

/// The secret that the configuration names.
pub open spec fn explicit_secret<E: EnvironmentSource>(
    provider: Seq<char>,
    key: Seq<char>,
    source: SecretSource<Seq<char>>,
    environment: &E,
) -> Result<Seq<char>, SettingsError<Seq<char>>> {
    match source {
        SecretSource::Env { env } => if env.len() == 0 {
            Err(SettingsError::EmptyEnvironmentName { provider, key })
        } else {
            match environment.lookup(env) {
                Variable::Unset => Err(
                    SettingsError::MissingSecret { provider, key, environment: env },
                ),
                Variable::Holds { value } => nonempty(provider, key, value),
                Variable::NotUnicode { name } => Err(SettingsError::Environment { name }),
            }
        },
        SecretSource::Value { value } => nonempty(provider, key, value),
    }
}

/// A secret that may be missing: the one that the configuration names, else the first of the
/// conventional variables that is set.
pub open spec fn optional_secret<E: EnvironmentSource>(
    provider: Seq<char>,
    key: Seq<char>,
    explicit: Option<SecretSource<Seq<char>>>,
    names: Seq<Seq<char>>,
    environment: &E,
) -> Result<Option<Seq<char>>, SettingsError<Seq<char>>> {
    match explicit {
        Some(source) => match explicit_secret(provider, key, source, environment) {
            Ok(secret) => Ok(Some(secret)),
            Err(error) => Err(error),
        },
        None => match first_set(names, environment) {
            Ok(Some(value)) => match nonempty(provider, key, value) {
                Ok(secret) => Ok(Some(secret)),
                Err(error) => Err(error),
            },
            Ok(None) => Ok(None),
            Err(error) => Err(error),
        },
    }
}

/// A secret that must be there.
pub open spec fn required_secret<E: EnvironmentSource>(
    provider: Seq<char>,
    key: Seq<char>,
    explicit: Option<SecretSource<Seq<char>>>,
    names: Seq<Seq<char>>,
    environment: &E,
) -> Result<Seq<char>, SettingsError<Seq<char>>> {
    match optional_secret(provider, key, explicit, names, environment) {
        Ok(Some(secret)) => Ok(secret),
        Ok(None) => Err(
            SettingsError::MissingSecret { provider, key, environment: joined(names, ", "@) },
        ),
        Err(error) => Err(error),
    }
}

/// A value that may be missing: the one in the configuration, else the first of the conventional
/// variables that is set.
pub open spec fn optional_value<E: EnvironmentSource>(
    explicit: Option<Seq<char>>,
    names: Seq<Seq<char>>,
    environment: &E,
) -> Result<Option<Seq<char>>, SettingsError<Seq<char>>> {
    match explicit {
        Some(value) => Ok(Some(value)),
        None => first_set(names, environment),
    }
}

/// A value that must be there and must not be blank.
pub open spec fn required_value<E: EnvironmentSource>(
    provider: Seq<char>,
    key: Seq<char>,
    explicit: Option<Seq<char>>,
    names: Seq<Seq<char>>,
    environment: &E,
) -> Result<Seq<char>, SettingsError<Seq<char>>> {
    match optional_value(explicit, names, environment) {
        Ok(Some(value)) => if is_blank(value) {
            Err(SettingsError::EmptyValue { provider, key })
        } else {
            Ok(value)
        },
        Ok(None) => Err(
            SettingsError::MissingValue { provider, key, environment: joined(names, ", "@) },
        ),
        Err(error) => Err(error),
    }
}

/// A URL must be an absolute http(s) one.
pub open spec fn checked_http_url(
    key: Seq<char>,
    value: Seq<char>,
    parts: Result<(Option<Seq<char>>, Option<Seq<char>>), Seq<char>>,
) -> Result<(), SettingsError<Seq<char>>> {
    if is_http_url(parts) {
        Ok(())
    } else {
        Err(SettingsError::InvalidUrl { key, value })
    }
}

/// What a resolved secret holds.
pub open spec fn secret_view(secret: Result<Secret, SettingsError>) -> Result<
    Seq<char>,
    SettingsError<Seq<char>>,
> {
    match secret {
        Ok(s) => Ok(s@),
        Err(e) => Err(e@),
    }
}

/// What a resolved secret that may be missing holds.
pub open spec fn option_secret_view(secret: Result<Option<Secret>, SettingsError>) -> Result<
    Option<Seq<char>>,
    SettingsError<Seq<char>>,
> {
    match secret {
        Ok(Some(s)) => Ok(Some(s@)),
        Ok(None) => Ok(None),
        Err(e) => Err(e@),
    }
}

/// What a resolved value holds.
pub open spec fn value_view(value: Result<String, SettingsError>) -> Result<
    Seq<char>,
    SettingsError<Seq<char>>,
> {
    match value {
        Ok(v) => Ok(v@),
        Err(e) => Err(e@),
    }
}

/// What a resolved value that may be missing holds.
pub open spec fn option_value_view(value: Result<Option<String>, SettingsError>) -> Result<
    Option<Seq<char>>,
    SettingsError<Seq<char>>,
> {
    match value {
        Ok(v) => Ok(option_text(v)),
        Err(e) => Err(e@),
    }
}

/// What a check says.
pub open spec fn check_view(check: Result<(), SettingsError>) -> Result<
    (),
    SettingsError<Seq<char>>,
> {
    match check {
        Ok(()) => Ok(()),
        Err(e) => Err(e@),
    }
}

/// What the first of these variables that is set holds.
fn first_variable_set<E: EnvironmentSource>(
    names: &[&'static str],
    environment: &E,
) -> (value: Result<Option<String>, SettingsError>)
    ensures
        option_value_view(value) == first_set(slice_texts(names@), environment),
{
    let ghost all = slice_texts(names@);
    let mut i: usize = 0;
    assert(all.skip(0) =~= all);
    while i < names.len()
        invariant
            i <= names.len(),
            all == slice_texts(names@),
            first_set(all, environment) == first_set(all.skip(i as int), environment),
        decreases names.len() - i,
    {
        assert(all.skip(i as int)[0] == names[i as int]@);
        match environment.var(names[i]) {
            Ok(Some(value)) => {
                return Ok(Some(value));
            },
            Ok(None) => {},
            Err(error) => {
                return Err(SettingsError::Environment { name: error.name });
            },
        }
        assert(all.skip(i as int).drop_first() =~= all.skip(i + 1));
        i = i + 1;
    }
    Ok(None)
}

fn nonempty_secret(provider: &str, key: &str, value: String) -> (secret: Result<
    Secret,
    SettingsError,
>)
    ensures
        secret_view(secret) == nonempty(provider@, key@, value@),
{
    if value.as_str().is_empty() {
        Err(SettingsError::EmptySecret { provider: provider.to_owned(), key: key.to_owned() })
    } else {
        Ok(Secret(value))
    }
}

/// Resolves a secret that the configuration names.
pub fn resolve_explicit_secret<E: EnvironmentSource>(
    provider: &str,
    key: &str,
    source: &SecretSource,
    environment: &E,
) -> (secret: Result<Secret, SettingsError>)
    ensures
        secret_view(secret) == explicit_secret(provider@, key@, source@, environment),
{
    match source {
        SecretSource::Env { env } => {
            if env.as_str().is_empty() {
                return Err(
                    SettingsError::EmptyEnvironmentName {
                        provider: provider.to_owned(),
                        key: key.to_owned(),
                    },
                );
            }
            match environment.var(env.as_str()) {
                Ok(Some(value)) => nonempty_secret(provider, key, value),
                Ok(None) => Err(
                    SettingsError::MissingSecret {
                        provider: provider.to_owned(),
                        key: key.to_owned(),
                        environment: env.clone(),
                    },
                ),
                Err(error) => Err(SettingsError::Environment { name: error.name }),
            }
        },
        SecretSource::Value { value } => nonempty_secret(provider, key, value.clone()),
    }
}

/// Resolves a secret that may be missing.
pub fn resolve_optional_secret<E: EnvironmentSource>(
    provider: &str,
    key: &str,
    explicit: &Option<SecretSource>,
    conventional_environment: &[&'static str],
    environment: &E,
) -> (secret: Result<Option<Secret>, SettingsError>)
    ensures
        option_secret_view(secret) == optional_secret(
            provider@,
            key@,
            source_view(*explicit),
            slice_texts(conventional_environment@),
            environment,
        ),
{
    if let Some(source) = explicit {
        return match resolve_explicit_secret(provider, key, source, environment) {
            Ok(secret) => Ok(Some(secret)),
            Err(error) => Err(error),
        };
    }
    match first_variable_set(conventional_environment, environment) {
        Ok(Some(value)) => match nonempty_secret(provider, key, value) {
            Ok(secret) => Ok(Some(secret)),
            Err(error) => Err(error),
        },
        Ok(None) => Ok(None),
        Err(error) => Err(error),
    }
}

/// Resolves a secret that must be there.
pub fn resolve_required_secret<E: EnvironmentSource>(
    provider: &str,
    key: &str,
    explicit: &Option<SecretSource>,
    conventional_environment: &[&'static str],
    environment: &E,
) -> (secret: Result<Secret, SettingsError>)
    ensures
        secret_view(secret) == required_secret(
            provider@,
            key@,
            source_view(*explicit),
            slice_texts(conventional_environment@),
            environment,
        ),
{
    match resolve_optional_secret(provider, key, explicit, conventional_environment, environment) {
        Ok(Some(secret)) => Ok(secret),
        Ok(None) => Err(
            SettingsError::MissingSecret {
                provider: provider.to_owned(),
                key: key.to_owned(),
                environment: join_slices(conventional_environment, ", "),
            },
        ),
        Err(error) => Err(error),
    }
}

/// Resolves a value that may be missing.
pub fn resolve_optional_value<E: EnvironmentSource>(
    explicit: &Option<String>,
    conventional_environment: &[&'static str],
    environment: &E,
) -> (value: Result<Option<String>, SettingsError>)
    ensures
        option_value_view(value) == optional_value(
            option_text(*explicit),
            slice_texts(conventional_environment@),
            environment,
        ),
{
    if let Some(value) = explicit {
        return Ok(Some(value.clone()));
    }
    first_variable_set(conventional_environment, environment)
}

/// Resolves a value that must be there and must not be blank.
pub fn resolve_required_value<E: EnvironmentSource>(
    provider: &str,
    key: &str,
    explicit: &Option<String>,
    conventional_environment: &[&'static str],
    environment: &E,
) -> (value: Result<String, SettingsError>)
    ensures
        value_view(value) == required_value(
            provider@,
            key@,
            option_text(*explicit),
            slice_texts(conventional_environment@),
            environment,
        ),
{
    match resolve_optional_value(explicit, conventional_environment, environment) {
        Ok(Some(value)) => {
            let kept: &str = trimmed(value.as_str());
            proof {
                lemma_trimmed_blank(kept@, value@);
            }
            if kept.is_empty() {
                Err(
                    SettingsError::EmptyValue {
                        provider: provider.to_owned(),
                        key: key.to_owned(),
                    },
                )
            } else {
                Ok(value)
            }
        },
        Ok(None) => Err(
            SettingsError::MissingValue {
                provider: provider.to_owned(),
                key: key.to_owned(),
                environment: join_slices(conventional_environment, ", "),
            },
        ),
        Err(error) => Err(error),
    }
}

/// Checks what `value` was parsed to: it must be an absolute http(s) URL.
pub fn check_http_url(key: &str, value: &str, parts: &Result<UriParts, String>) -> (check: Result<
    (),
    SettingsError,
>)
    ensures
        check_view(check) == checked_http_url(key@, value@, uri_view(*parts)),
{
    let valid: bool = match parts {
        Ok(parts) => has_http_scheme(parts) && parts.host.is_some(),
        Err(_) => false,
    };
    if valid {
        Ok(())
    } else {
        Err(SettingsError::InvalidUrl { key: key.to_owned(), value: value.to_owned() })
    }
}

/// Checks that `value` is an absolute http(s) URL.
pub fn validate_http_url(key: &str, value: &str) -> (check: Result<(), SettingsError>)
    ensures
        check_view(check) == checked_http_url(key@, value@, uri_parts(value@)),
{
    check_http_url(key, value, &parse_uri(value))
}

/// A secret that stands in the configuration is the one that is used, whatever the environment
/// holds, unless it is empty.
pub proof fn law_configured_secret_wins<E: EnvironmentSource>(
    provider: Seq<char>,
    key: Seq<char>,
    value: Seq<char>,
    names: Seq<Seq<char>>,
    environment: &E,
)
    ensures
        required_secret(
            provider,
            key,
            Some(SecretSource::Value { value }),
            names,
            environment,
        ) == nonempty(provider, key, value),
        optional_secret(
            provider,
            key,
            Some(SecretSource::Value { value }),
            names,
            environment,
        ) == if value.len() > 0 {
            Ok(Some(value))
        } else {
            Err(SettingsError::EmptySecret { provider, key })
        },
{
}

/// A variable that the configuration names is the one that is read: the conventional variables do
/// not matter then.
pub proof fn law_configured_variable_wins<E: EnvironmentSource>(
    provider: Seq<char>,
    key: Seq<char>,
    env: Seq<char>,
    names: Seq<Seq<char>>,
    other_names: Seq<Seq<char>>,
    environment: &E,
)
    ensures
        required_secret(provider, key, Some(SecretSource::Env { env }), names, environment)
            == required_secret(
            provider,
            key,
            Some(SecretSource::Env { env }),
            other_names,
            environment,
        ),
{
}

/// Of several conventional variables the first one that is set is read.
pub proof fn law_first_set_variable_wins<E: EnvironmentSource>(
    names: Seq<Seq<char>>,
    at: int,
    value: Seq<char>,
    environment: &E,
)
    requires
        0 <= at < names.len(),
        forall|i: int|
            0 <= i < at ==> environment.lookup(#[trigger] names[i]) == Variable::Unset,
        environment.lookup(names[at]) == (Variable::Holds { value }),
    ensures
        first_set(names, environment) == Ok::<_, SettingsError<Seq<char>>>(Some(value)),
    decreases names.len(),
{
    if at > 0 {
        assert(environment.lookup(names[0]) == Variable::Unset);
        let rest = names.drop_first();
        assert forall|i: int| 0 <= i < at - 1 implies environment.lookup(#[trigger] rest[i])
            == Variable::Unset by {
            assert(rest[i] == names[i + 1]);
        }
        law_first_set_variable_wins(rest, at - 1, value, environment);
    }
}

/// No secret that is resolved is empty.
pub proof fn law_secrets_are_not_empty<E: EnvironmentSource>(
    provider: Seq<char>,
    key: Seq<char>,
    explicit: Option<SecretSource<Seq<char>>>,
    names: Seq<Seq<char>>,
    environment: &E,
)
    ensures
        required_secret(provider, key, explicit, names, environment) matches Ok(secret)
            ==> secret.len() > 0,
        optional_secret(provider, key, explicit, names, environment) matches Ok(Some(secret))
            ==> secret.len() > 0,
{
}

/// Where none of the conventional variables is set, a setting that may be missing is missing, and
/// one that must be there is an error that names it and all the variables.
pub proof fn law_unset_variables_give_nothing<E: EnvironmentSource>(
    provider: Seq<char>,
    key: Seq<char>,
    names: Seq<Seq<char>>,
    environment: &E,
)
    requires
        forall|i: int|
            0 <= i < names.len() ==> environment.lookup(#[trigger] names[i]) == Variable::Unset,
    ensures
        first_set(names, environment) == Ok::<Option<Seq<char>>, SettingsError<Seq<char>>>(None),
        optional_secret(provider, key, None, names, environment) == Ok::<
            Option<Seq<char>>,
            SettingsError<Seq<char>>,
        >(None),
        optional_value(None, names, environment) == Ok::<
            Option<Seq<char>>,
            SettingsError<Seq<char>>,
        >(None),
        required_secret(provider, key, None, names, environment) == Err::<Seq<char>, _>(
            SettingsError::MissingSecret { provider, key, environment: joined(names, ", "@) },
        ),
        required_value(provider, key, None, names, environment) == Err::<Seq<char>, _>(
            SettingsError::MissingValue { provider, key, environment: joined(names, ", "@) },
        ),
    decreases names.len(),
{
    if names.len() > 0 {
        assert(environment.lookup(names[0]) == Variable::Unset);
        let rest = names.drop_first();
        assert forall|i: int| 0 <= i < rest.len() implies environment.lookup(#[trigger] rest[i])
            == Variable::Unset by {
            assert(rest[i] == names[i + 1]);
        }
        law_unset_variables_give_nothing(provider, key, rest, environment);
    }
}

/// A conventional variable that is not Unicode is an error that names it, unless one before it is
/// set.
pub proof fn law_unreadable_variable_is_an_error<E: EnvironmentSource>(
    provider: Seq<char>,
    key: Seq<char>,
    names: Seq<Seq<char>>,
    at: int,
    name: Seq<char>,
    environment: &E,
)
    requires
        0 <= at < names.len(),
        forall|i: int|
            0 <= i < at ==> environment.lookup(#[trigger] names[i]) == Variable::Unset,
        environment.lookup(names[at]) == (Variable::NotUnicode { name }),
    ensures
        first_set(names, environment) == Err::<Option<Seq<char>>, _>(
            SettingsError::Environment { name },
        ),
        required_secret(provider, key, None, names, environment) == Err::<Seq<char>, _>(
            SettingsError::Environment { name },
        ),
        required_value(provider, key, None, names, environment) == Err::<Seq<char>, _>(
            SettingsError::Environment { name },
        ),
    decreases names.len(),
{
    if at > 0 {
        assert(environment.lookup(names[0]) == Variable::Unset);
        let rest = names.drop_first();
        assert forall|i: int| 0 <= i < at - 1 implies environment.lookup(#[trigger] rest[i])
            == Variable::Unset by {
            assert(rest[i] == names[i + 1]);
        }
        law_unreadable_variable_is_an_error(provider, key, rest, at - 1, name, environment);
    }
}

/// A secret from the conventional variables is what the first of them that is set holds; that it
/// holds nothing is an error, even where a later one holds something.
pub proof fn law_conventional_secret_is_the_first_that_is_set<E: EnvironmentSource>(
    provider: Seq<char>,
    key: Seq<char>,
    names: Seq<Seq<char>>,
    at: int,
    value: Seq<char>,
    environment: &E,
)
    requires
        0 <= at < names.len(),
        forall|i: int|
            0 <= i < at ==> environment.lookup(#[trigger] names[i]) == Variable::Unset,
        environment.lookup(names[at]) == (Variable::Holds { value }),
    ensures
        value.len() > 0 ==> required_secret(provider, key, None, names, environment) == Ok::<
            _,
            SettingsError<Seq<char>>,
        >(value) && optional_secret(provider, key, None, names, environment) == Ok::<
            _,
            SettingsError<Seq<char>>,
        >(Some(value)),
        value.len() == 0 ==> required_secret(provider, key, None, names, environment) == Err::<
            Seq<char>,
            _,
        >(SettingsError::EmptySecret { provider, key }),
        optional_value(None, names, environment) == Ok::<_, SettingsError<Seq<char>>>(Some(value)),
        required_value(provider, key, None, names, environment) matches Ok(found) ==> found
            == value,
{
    law_first_set_variable_wins(names, at, value, environment);
}

/// A secret that the configuration takes from a variable is what that variable holds; no name, no
/// value, an empty value and one that is not Unicode are each an error of their own.
pub proof fn law_configured_variable_is_read<E: EnvironmentSource>(
    provider: Seq<char>,
    key: Seq<char>,
    env: Seq<char>,
    names: Seq<Seq<char>>,
    environment: &E,
)
    ensures
        ({
            let secret = required_secret(
                provider,
                key,
                Some(SecretSource::Env { env }),
                names,
                environment,
            );
            let found = environment.lookup(env);
            &&& secret matches Ok(value) ==> found == (Variable::Holds { value })
            &&& secret is Ok <==> env.len() > 0 && found is Holds && found->value.len() > 0
            &&& env.len() == 0 <==> secret == Err::<Seq<char>, _>(
                SettingsError::EmptyEnvironmentName { provider, key },
            )
            &&& env.len() > 0 && found is Unset <==> secret == Err::<Seq<char>, _>(
                SettingsError::MissingSecret { provider, key, environment: env },
            )
            &&& env.len() > 0 && found is Holds && found->value.len() == 0 <==> secret == Err::<
                Seq<char>,
                _,
            >(SettingsError::EmptySecret { provider, key })
            &&& optional_secret(
                provider,
                key,
                Some(SecretSource::Env { env }),
                names,
                environment,
            ) is Ok <==> secret is Ok
        }),
{
}

/// A value in the configuration is taken as it is, whatever the environment says; one that must be
/// there is refused exactly if it is nothing but white space.
pub proof fn law_configured_value_wins<E: EnvironmentSource>(
    provider: Seq<char>,
    key: Seq<char>,
    value: Seq<char>,
    names: Seq<Seq<char>>,
    environment: &E,
)
    ensures
        optional_value(Some(value), names, environment) == Ok::<_, SettingsError<Seq<char>>>(
            Some(value),
        ),
        (exists|i: int| 0 <= i < value.len() && !crate::text::is_white_space(#[trigger] value[i]))
            ==> required_value(provider, key, Some(value), names, environment) == Ok::<
            _,
            SettingsError<Seq<char>>,
        >(value),
        (forall|i: int| 0 <= i < value.len() ==> crate::text::is_white_space(#[trigger] value[i]))
            ==> required_value(provider, key, Some(value), names, environment) == Err::<
            Seq<char>,
            _,
        >(SettingsError::EmptyValue { provider, key }),
{
}

/// A URL is accepted exactly if it can be parsed, its scheme is `http` or `https`, and it has a host.
pub proof fn law_accepted_urls_are_http(
    key: Seq<char>,
    value: Seq<char>,
    parts: Result<(Option<Seq<char>>, Option<Seq<char>>), Seq<char>>,
)
    ensures
        checked_http_url(key, value, parts) is Ok <==> parts is Ok && parts->Ok_0.1 is Some && (
        parts->Ok_0.0 == Some("http"@) || parts->Ok_0.0 == Some("https"@)),
        checked_http_url(key, value, parts) is Err ==> checked_http_url(key, value, parts)
            == Err::<(), _>(SettingsError::InvalidUrl { key, value }),
{
}

/// The environment of the process answers with the first entry of the name, and says that a variable
/// is unset exactly if there is none.
pub proof fn law_first_entry_of_a_name_counts(
    variables: Seq<(String, Option<String>)>,
    name: Seq<char>,
    at: int,
)
    requires
        0 <= at <= variables.len(),
        forall|i: int| 0 <= i < at ==> (#[trigger] variables[i]).0@ != name,
        at < variables.len() ==> variables[at].0@ == name,
    ensures
        at == variables.len() <==> first_variable(variables, name) == Variable::Unset,
        at < variables.len() ==> (variables[at].1 matches Some(value) ==> first_variable(
            variables,
            name,
        ) == (Variable::Holds { value: value@ })),
        at < variables.len() ==> (variables[at].1 is None ==> first_variable(variables, name)
            == (Variable::NotUnicode { name })),
    decreases variables.len(),
{
    if at > 0 {
        assert(variables[0].0@ != name);
        let rest = variables.drop_first();
        assert forall|i: int| 0 <= i < at - 1 implies (#[trigger] rest[i]).0@ != name by {
            assert(rest[i] == variables[i + 1]);
        }
        if at < variables.len() {
            assert(rest[at - 1] == variables[at]);
        }
        law_first_entry_of_a_name_counts(rest, name, at - 1);
    }
}

/// What is said of an error names the provider first and then the setting; where something is missing
/// it ends with the variables that were looked at. A URL that will not do is named by its setting, and
/// shown.
pub proof fn law_error_names_provider_and_setting(
    provider: Seq<char>,
    key: Seq<char>,
    environment: Seq<char>,
)
    ensures
        settings_error_text(SettingsError::MissingSecret { provider, key, environment })
            == "provider "@ + provider + (" is missing required secret "@ + key + "; checked "@
            + environment),
        settings_error_text(SettingsError::MissingValue { provider, key, environment })
            == "provider "@ + provider + (" is missing required setting "@ + key + "; checked "@
            + environment),
        settings_error_text(SettingsError::EmptySecret { provider, key }) == "provider "@ + provider
            + (" has an empty secret for "@ + key),
        settings_error_text(SettingsError::EmptyValue { provider, key }) == "provider "@ + provider
            + (" has an empty required setting "@ + key),
        settings_error_text(SettingsError::EmptyEnvironmentName { provider, key }) == "provider "@
            + provider + (" has an empty environment variable name for "@ + key),
        settings_error_text(SettingsError::InvalidUrl { key, value: environment }) == key + (
        " must be an absolute http(s) URL; got "@ + quoted_text(environment)),
{
    let missing_secret = settings_error_text(
        SettingsError::MissingSecret { provider, key, environment },
    );
    assert(missing_secret =~= "provider "@ + provider + (" is missing required secret "@ + key
        + "; checked "@ + environment));
    let missing_value = settings_error_text(
        SettingsError::MissingValue { provider, key, environment },
    );
    assert(missing_value =~= "provider "@ + provider + (" is missing required setting "@ + key
        + "; checked "@ + environment));
    assert(settings_error_text(SettingsError::EmptySecret { provider, key }) =~= "provider "@
        + provider + (" has an empty secret for "@ + key));
    assert(settings_error_text(SettingsError::EmptyValue { provider, key }) =~= "provider "@
        + provider + (" has an empty required setting "@ + key));
    assert(settings_error_text(SettingsError::EmptyEnvironmentName { provider, key })
        =~= "provider "@ + provider + (" has an empty environment variable name for "@ + key));
    assert(settings_error_text(SettingsError::InvalidUrl { key, value: environment }) =~= key + (
    " must be an absolute http(s) URL; got "@ + quoted_text(environment)));
}

} // verus!

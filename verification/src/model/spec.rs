//! Which model, of which provider.
use super::registry::{is_provider, is_provider_name, provider_names, PROVIDER_NAMES};
use crate::text::{is_split_at_first, joined, quoted, quoted_text, slice_texts, split_at_colon};
use vstd::prelude::*;
use vstd::string::*;

verus! {

/// A provider name that is one of the known ones.
#[derive(Debug)]
pub struct ProviderId {
    name: String,
}

impl View for ProviderId {
    type V = Seq<char>;

    closed spec fn view(&self) -> Seq<char> {
        self.name@
    }
}

impl ProviderId {
    #[verifier::type_invariant]
    spec fn known(self) -> bool {
        is_provider_name(self.name@)
    }

    /// Parses a canonical completion-provider name. Fails for a name that is not one of
    /// [`provider_names`].
    pub fn parse(value: &str) -> (id: Result<Self, ModelSpecError>)
        ensures
            match id {
                Ok(id) => is_provider_name(value@) && id@ == value@,
                Err(error) => !is_provider_name(value@) && error@
                    == (ModelSpecError::UnknownProvider { provider: value@ }),
            },
    {
        if is_provider(value) {
            Ok(ProviderId { name: value.to_owned() })
        } else {
            Err(ModelSpecError::UnknownProvider { provider: value.to_owned() })
        }
    }

    /// Returns the canonical provider name.
    #[must_use]
    pub fn as_str(&self) -> (name: &str)
        ensures
            name@ == self@,
            is_provider_name(name@),
    {
        proof {
            use_type_invariant(self);
        }
        self.name.as_str()
    }
}

impl Clone for ProviderId {
    fn clone(&self) -> (copy: Self)
        ensures
            copy@ == self@,
    {
        proof {
            use_type_invariant(self);
        }
        ProviderId { name: self.name.clone() }
    }
}

/// A non-empty provider model identifier.
#[derive(Debug)]
pub struct ModelId {
    name: String,
}

impl View for ModelId {
    type V = Seq<char>;

    closed spec fn view(&self) -> Seq<char> {
        self.name@
    }
}

impl ModelId {
    #[verifier::type_invariant]
    spec fn nonempty(self) -> bool {
        self.name@.len() > 0
    }

    /// Parses a provider model identifier. Fails for an empty value.
    pub fn parse(value: &str) -> (id: Result<Self, ModelSpecError>)
        ensures
            match id {
                Ok(id) => value@.len() > 0 && id@ == value@,
                Err(error) => value@.len() == 0 && error@ == ModelSpecError::<
                    Seq<char>,
                >::EmptyModel,
            },
    {
        if value.is_empty() {
            Err(ModelSpecError::EmptyModel)
        } else {
            Ok(ModelId { name: value.to_owned() })
        }
    }

    /// Returns the provider model identifier.
    #[must_use]
    pub fn as_str(&self) -> (name: &str)
        ensures
            name@ == self@,
            name@.len() > 0,
    {
        proof {
            use_type_invariant(self);
        }
        self.name.as_str()
    }
}

impl Clone for ModelId {
    fn clone(&self) -> (copy: Self)
        ensures
            copy@ == self@,
    {
        proof {
            use_type_invariant(self);
        }
        ModelId { name: self.name.clone() }
    }
}

/// A completion model selected as `<provider>:<model>`.
#[derive(Debug)]
pub struct ModelSpec {
    provider: ProviderId,
    model: ModelId,
}

/// What a [`ModelSpec`] holds: the provider and the model.
impl View for ModelSpec {
    type V = (Seq<char>, Seq<char>);

    closed spec fn view(&self) -> (Seq<char>, Seq<char>) {
        (self.provider@, self.model@)
    }
}

/// The text of a model selection.
pub open spec fn spec_text(spec: (Seq<char>, Seq<char>)) -> Seq<char> {
    spec.0 + ":"@ + spec.1
}

/// `outcome` is what parsing `value` gives. The text before the first colon names the provider,
/// all that follows is the model.
pub open spec fn parses_as(
    value: Seq<char>,
    outcome: Result<(Seq<char>, Seq<char>), ModelSpecError<Seq<char>>>,
) -> bool {
    if !value.contains(':') {
        outcome == Err::<(Seq<char>, Seq<char>), _>(ModelSpecError::BadFormat { got: value })
    } else {
        exists|provider: Seq<char>, model: Seq<char>| #[trigger]
            is_split_at_first(value, ':', provider, model) && outcome == if !is_provider_name(
                provider,
            ) {
                Err(ModelSpecError::UnknownProvider { provider })
            } else if model.len() == 0 {
                Err(ModelSpecError::EmptyModel)
            } else {
                Ok((provider, model))
            }
    }
}

/// What the outcome of a parse holds.
pub open spec fn parse_view(outcome: Result<ModelSpec, ModelSpecError>) -> Result<
    (Seq<char>, Seq<char>),
    ModelSpecError<Seq<char>>,
> {
    match outcome {
        Ok(spec) => Ok(spec@),
        Err(error) => Err(error@),
    }
}

impl ModelSpec {
    /// The provider.
    #[must_use]
    pub fn provider(&self) -> (provider: &ProviderId)
        ensures
            provider@ == self@.0,
    {
        &self.provider
    }

    /// The model.
    #[must_use]
    pub fn model(&self) -> (model: &ModelId)
        ensures
            model@ == self@.1,
    {
        &self.model
    }

    /// Parses `<provider>:<model>`. Fails without a colon, for an unknown provider and for an empty
    /// model, in this order.
    pub fn parse(value: &str) -> (outcome: Result<ModelSpec, ModelSpecError>)
        ensures
            parses_as(value@, parse_view(outcome)),
    {
        match split_at_colon(value) {
            None => Err(ModelSpecError::BadFormat { got: value.to_owned() }),
            Some((provider, model)) => {
                proof {
                    assert(value@[provider@.len() as int] == ':');
                    assert(is_split_at_first(value@, ':', provider@, model@));
                }
                let provider: ProviderId = match ProviderId::parse(provider) {
                    Ok(provider) => provider,
                    Err(error) => return Err(error),
                };
                let model: ModelId = match ModelId::parse(model) {
                    Ok(model) => model,
                    Err(error) => return Err(error),
                };
                Ok(ModelSpec { provider, model })
            },
        }
    }

    /// The selection as text.
    pub fn text(&self) -> (text: String)
        ensures
            text@ == spec_text(self@),
    {
        let mut text: String = self.provider.as_str().to_owned();
        text.append(":");
        text.append(self.model.as_str());
        text
    }

    /// Whether the two select the same model of the same provider.
    pub fn same(&self, other: &ModelSpec) -> (same: bool)
        ensures
            same == (self@ == other@),
    {
        crate::text::same_text(self.provider.as_str(), other.provider.as_str())
            && crate::text::same_text(self.model.as_str(), other.model.as_str())
    }
}

impl Clone for ModelSpec {
    fn clone(&self) -> (copy: Self)
        ensures
            copy@ == self@,
    {
        ModelSpec { provider: self.provider.clone(), model: self.model.clone() }
    }
}

impl std::str::FromStr for ModelSpec {
    type Err = ModelSpecError;

    fn from_str(value: &str) -> (outcome: Result<Self, ModelSpecError>)
        ensures
            parses_as(value@, parse_view(outcome)),
    {
        ModelSpec::parse(value)
    }
}

/// An error from parsing a [`ModelSpec`].
#[derive(Debug)]
pub enum ModelSpecError<T = String> {
    BadFormat { got: T },
    UnknownProvider { provider: T },
    EmptyModel,
}

impl View for ModelSpecError<String> {
    type V = ModelSpecError<Seq<char>>;

    open spec fn view(&self) -> ModelSpecError<Seq<char>> {
        match self {
            ModelSpecError::BadFormat { got } => ModelSpecError::BadFormat { got: got@ },
            ModelSpecError::UnknownProvider { provider } => ModelSpecError::UnknownProvider {
                provider: provider@,
            },
            ModelSpecError::EmptyModel => ModelSpecError::EmptyModel,
        }
    }
}

/// What is said of an error.
pub open spec fn spec_error_text(error: ModelSpecError<Seq<char>>) -> Seq<char> {
    match error {
        ModelSpecError::BadFormat { got } => "model must be \"<provider>:<model>\"; got "@
            + quoted_text(got),
        ModelSpecError::UnknownProvider { provider } => "unknown completion provider "@
            + quoted_text(provider) + "; supported providers: "@ + joined(
            slice_texts(PROVIDER_NAMES@),
            ", "@,
        ),
        ModelSpecError::EmptyModel => "model identifier is empty"@,
    }
}

impl ModelSpecError<String> {
    /// What is said of the error.
    pub fn message(&self) -> (message: String)
        ensures
            message@ == spec_error_text(self@),
    {
        match self {
            ModelSpecError::BadFormat { got } => {
                let mut message: String = String::from_str(
                    "model must be \"<provider>:<model>\"; got ",
                );
                message.append(quoted(got.as_str()).as_str());
                message
            },
            ModelSpecError::UnknownProvider { provider } => {
                let mut message: String = String::from_str("unknown completion provider ");
                message.append(quoted(provider.as_str()).as_str());
                message.append("; supported providers: ");
                message.append(crate::text::join_slices(provider_names(), ", ").as_str());
                message
            },
            ModelSpecError::EmptyModel => String::from_str("model identifier is empty"),
        }
    }
}

/// What parses has the text that it was parsed from.
pub proof fn law_text_undoes_parse(value: Seq<char>, spec: (Seq<char>, Seq<char>))
    requires
        parses_as(value, Ok(spec)),
    ensures
        spec_text(spec) == value,
{
    reveal_strlit(":");
    assert(":"@ =~= seq![':']);
}

/// Parsing the text of a selection gives the selection back.
pub proof fn law_parse_undoes_text(
    spec: (Seq<char>, Seq<char>),
    outcome: Result<(Seq<char>, Seq<char>), ModelSpecError<Seq<char>>>,
)
    requires
        is_provider_name(spec.0),
        spec.1.len() > 0,
        parses_as(spec_text(spec), outcome),
    ensures
        outcome == Ok::<_, ModelSpecError<Seq<char>>>(spec),
{
    reveal_strlit(":");
    assert(":"@ =~= seq![':']);
    let value = spec_text(spec);
    assert(value[spec.0.len() as int] == ':');
    super::registry::lemma_provider_names_have_no_colon(spec.0);
    assert(is_split_at_first(value, ':', spec.0, spec.1));
    let (provider, model) = choose|provider: Seq<char>, model: Seq<char>| #[trigger]
        is_split_at_first(value, ':', provider, model) && outcome == if !is_provider_name(
            provider,
        ) {
            Err(ModelSpecError::UnknownProvider { provider })
        } else if model.len() == 0 {
            Err(ModelSpecError::EmptyModel)
        } else {
            Ok((provider, model))
        };
    crate::text::lemma_split_is_unique(value, ':', provider, model, spec.0, spec.1);
}

/// The provider of a selection is what stands before the first colon, and the model is all that
/// follows it, further colons included. A provider that is not known is reported before a model that
/// is missing, and a text without a colon is no selection.
pub proof fn law_model_is_all_after_the_first_colon(
    name: Seq<char>,
    model: Seq<char>,
    outcome: Result<(Seq<char>, Seq<char>), ModelSpecError<Seq<char>>>,
    other: Result<(Seq<char>, Seq<char>), ModelSpecError<Seq<char>>>,
)
    requires
        !name.contains(':'),
        parses_as(name + seq![':'] + model, outcome),
        parses_as(name, other),
    ensures
        outcome is Ok <==> super::registry::row_of(name) is Some && model.len() > 0,
        outcome matches Ok(spec) ==> spec == (name, model),
        super::registry::row_of(name) is None ==> outcome == Err::<(Seq<char>, Seq<char>), _>(
            ModelSpecError::UnknownProvider { provider: name },
        ),
        super::registry::row_of(name) is Some && model.len() == 0 ==> outcome == Err::<
            (Seq<char>, Seq<char>),
            _,
        >(ModelSpecError::<Seq<char>>::EmptyModel),
        other == Err::<(Seq<char>, Seq<char>), _>(ModelSpecError::BadFormat { got: name }),
{
    super::registry::lemma_row_of(name);
    let value = name + seq![':'] + model;
    assert(value[name.len() as int] == ':');
    assert(is_split_at_first(value, ':', name, model));
    let (before, after) = choose|before: Seq<char>, after: Seq<char>| #[trigger]
        is_split_at_first(value, ':', before, after) && outcome == if !is_provider_name(before) {
            Err(ModelSpecError::UnknownProvider { provider: before })
        } else if after.len() == 0 {
            Err(ModelSpecError::EmptyModel)
        } else {
            Ok((before, after))
        };
    crate::text::lemma_split_is_unique(value, ':', before, after, name, model);
}

} // verus!

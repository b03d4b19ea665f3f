use oncall_ai::model::registry::is_provider;
use oncall_ai::model::{provider_names, ModelId, ModelSpec, ModelSpecError, ProviderId};

#[test]
fn model_spec_preserves_colons_after_the_provider_separator() {
    let spec: ModelSpec = "ollama:qwen3:8b".parse().expect("valid model spec");

    assert_eq!(spec.provider().as_str(), "ollama");
    assert_eq!(spec.model().as_str(), "qwen3:8b");
}

#[test]
fn model_spec_accepts_provider_qualified_model_paths() {
    let spec: ModelSpec = "openrouter:openai/gpt-5".parse().expect("valid model spec");

    assert_eq!(spec.text(), "openrouter:openai/gpt-5");
}

#[test]
fn empty_model_identifier_is_rejected() {
    let error = "ollama:".parse::<ModelSpec>().expect_err("empty model must fail");

    assert!(error.message().contains("model identifier is empty"));
    assert!(matches!(ModelId::parse(""), Err(ModelSpecError::EmptyModel)));
}

#[test]
fn unknown_provider_reports_the_single_sorted_registry() {
    let error = "voyageai:voyage-3"
        .parse::<ModelSpec>()
        .expect_err("non-completion provider must fail");
    let names = provider_names();

    assert_eq!(names.len(), 24);
    assert!(names.windows(2).all(|pair| pair[0] < pair[1]));
    assert!(error.message().contains(&names.join(", ")));
    assert!(error.message().starts_with(
        "unknown completion provider \"voyageai\"; supported providers: anthropic, azure, "
    ));
}

#[test]
fn a_spec_without_a_colon_is_rejected() {
    let error = "ollama".parse::<ModelSpec>().expect_err("no colon");
    assert!(matches!(&error, ModelSpecError::BadFormat { got } if got == "ollama"));
    assert_eq!(error.message(), "model must be \"<provider>:<model>\"; got \"ollama\"");
}

#[test]
fn an_unknown_provider_is_told_before_an_empty_model() {
    let error = "nobody:".parse::<ModelSpec>().expect_err("unknown provider");
    assert!(matches!(error, ModelSpecError::UnknownProvider { provider } if provider == "nobody"));
}

#[test]
fn every_provider_name_parses_to_itself() {
    for name in provider_names() {
        assert!(is_provider(name));
        assert_eq!(ProviderId::parse(name).expect("a known provider").as_str(), *name);
    }
    assert!(!is_provider("Ollama"));
    assert!(ProviderId::parse("").is_err());
}

#[test]
fn a_spec_and_its_text_give_each_other_back() {
    for name in provider_names() {
        let text = format!("{name}:a:b");
        let spec: ModelSpec = text.parse().expect("valid model spec");
        assert_eq!(spec.text(), text);
        let again: ModelSpec = spec.text().parse().expect("own text parses");
        assert!(again.same(&spec));
        assert!(again.clone().same(&spec));
    }
    let one: ModelSpec = "ollama:a".parse().expect("valid");
    let other: ModelSpec = "openai:a".parse().expect("valid");
    assert!(!one.same(&other));
}

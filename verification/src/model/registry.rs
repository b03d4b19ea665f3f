//! The completion providers that are known, and what each needs.
use crate::text::same_text;
use vstd::prelude::*;

verus! {

/// The names of the completion providers, in ascending order.
pub const PROVIDER_NAMES: [&'static str; 24] = [
    "anthropic",
    "azure",
    "chatgpt",
    "cohere",
    "copilot",
    "deepseek",
    "doubleword",
    "gemini",
    "groq",
    "huggingface",
    "hyperbolic",
    "llamafile",
    "minimax",
    "mira",
    "mistral",
    "moonshot",
    "ollama",
    "openai",
    "openrouter",
    "perplexity",
    "together",
    "xai",
    "xiaomimimo",
    "zai",
];

/// What kind of settings a provider takes.
#[derive(Clone, Copy, PartialEq, Eq, Structural, Debug)]
pub enum Profile {
    Keyed,
    Ollama,
    Llamafile,
    Azure,
    ChatGpt,
    Copilot,
}

/// The kind of settings of each provider, in the order of their names.
pub const PROVIDER_PROFILES: [Profile; 24] = [
    Profile::Keyed,
    Profile::Azure,
    Profile::ChatGpt,
    Profile::Keyed,
    Profile::Copilot,
    Profile::Keyed,
    Profile::Keyed,
    Profile::Keyed,
    Profile::Keyed,
    Profile::Keyed,
    Profile::Keyed,
    Profile::Llamafile,
    Profile::Keyed,
    Profile::Keyed,
    Profile::Keyed,
    Profile::Keyed,
    Profile::Ollama,
    Profile::Keyed,
    Profile::Keyed,
    Profile::Keyed,
    Profile::Keyed,
    Profile::Keyed,
    Profile::Keyed,
    Profile::Keyed,
];

/// The environment variable that by convention holds each provider's API key; empty where there is
/// none.
pub const PROVIDER_KEY_VARIABLES: [&'static str; 24] = [
    "ANTHROPIC_API_KEY",
    "",
    "",
    "COHERE_API_KEY",
    "",
    "DEEPSEEK_API_KEY",
    "DOUBLEWORD_API_KEY",
    "GEMINI_API_KEY",
    "GROQ_API_KEY",
    "HUGGINGFACE_API_KEY",
    "HYPERBOLIC_API_KEY",
    "",
    "MINIMAX_API_KEY",
    "MIRA_API_KEY",
    "MISTRAL_API_KEY",
    "MOONSHOT_API_KEY",
    "OLLAMA_API_KEY",
    "OPENAI_API_KEY",
    "OPENROUTER_API_KEY",
    "PERPLEXITY_API_KEY",
    "TOGETHER_API_KEY",
    "XAI_API_KEY",
    "XIAOMI_MIMO_API_KEY",
    "ZAI_API_KEY",
];

/// The environment variable that by convention holds each provider's base URL; empty where there is
/// none.
pub const PROVIDER_BASE_VARIABLES: [&'static str; 24] = [
    "ANTHROPIC_BASE_URL",
    "",
    "",
    "",
    "",
    "",
    "DOUBLEWORD_BASE_URL",
    "",
    "",
    "",
    "",
    "LLAMAFILE_API_BASE_URL",
    "MINIMAX_API_BASE",
    "",
    "",
    "MOONSHOT_API_BASE",
    "OLLAMA_API_BASE_URL",
    "OPENAI_BASE_URL",
    "",
    "",
    "",
    "",
    "XIAOMI_MIMO_API_BASE",
    "ZAI_API_BASE",
];

/// Canonical completion-provider names accepted by [`crate::model::ModelSpec`].
#[must_use]
pub fn provider_names() -> (names: &'static [&'static str])
    ensures
        names@ == PROVIDER_NAMES@,
{
    &PROVIDER_NAMES
}

/// The row of the provider in the tables, looking from `start` on.
pub open spec fn row_from(name: Seq<char>, start: int) -> Option<int>
    decreases 24 - start,
{
    if start < 0 || start >= 24 {
        None
    } else if PROVIDER_NAMES@[start]@ == name {
        Some(start)
    } else {
        row_from(name, start + 1)
    }
}

/// The row of the provider in the tables.
pub open spec fn row_of(name: Seq<char>) -> Option<int> {
    row_from(name, 0)
}

/// The name is that of a completion provider.
pub open spec fn is_provider_name(name: Seq<char>) -> bool {
    exists|i: int| 0 <= i < 24 && (#[trigger] PROVIDER_NAMES@[i])@ == name
}

/// A row that is found is that of the name.
pub proof fn lemma_row_from(name: Seq<char>, start: int)
    requires
        0 <= start <= 24,
    ensures
        row_from(name, start) matches Some(row) ==> start <= row < 24 && PROVIDER_NAMES@[row]@
            == name,
        row_from(name, start) is None ==> forall|i: int|
            start <= i < 24 ==> (#[trigger] PROVIDER_NAMES@[i])@ != name,
    decreases 24 - start,
{
    if start < 24 && PROVIDER_NAMES@[start]@ != name {
        lemma_row_from(name, start + 1);
    }
}

/// A provider has a row exactly if its name is one of the names.
pub proof fn lemma_row_of(name: Seq<char>)
    ensures
        row_of(name) is Some <==> is_provider_name(name),
        row_of(name) matches Some(row) ==> 0 <= row < 24 && PROVIDER_NAMES@[row]@ == name,
{
    lemma_row_from(name, 0);
}

/// No provider has a colon in its name.
pub proof fn lemma_provider_names_have_no_colon(name: Seq<char>)
    requires
        is_provider_name(name),
    ensures
        !name.contains(':'),
{
    reveal_strlit("anthropic");
    reveal_strlit("azure");
    reveal_strlit("chatgpt");
    reveal_strlit("cohere");
    reveal_strlit("copilot");
    reveal_strlit("deepseek");
    reveal_strlit("doubleword");
    reveal_strlit("gemini");
    reveal_strlit("groq");
    reveal_strlit("huggingface");
    reveal_strlit("hyperbolic");
    reveal_strlit("llamafile");
    reveal_strlit("minimax");
    reveal_strlit("mira");
    reveal_strlit("mistral");
    reveal_strlit("moonshot");
    reveal_strlit("ollama");
    reveal_strlit("openai");
    reveal_strlit("openrouter");
    reveal_strlit("perplexity");
    reveal_strlit("together");
    reveal_strlit("xai");
    reveal_strlit("xiaomimimo");
    reveal_strlit("zai");
}

/// The row of the provider in the tables.
pub fn provider_row(name: &str) -> (row: Option<usize>)
    ensures
        match row {
            Some(r) => row_of(name@) == Some(r as int) && r < 24,
            None => row_of(name@) is None,
        },
{
    let names: &'static [&'static str] = provider_names();
    let mut i: usize = 0;
    while i < names.len()
        invariant
            names@ == PROVIDER_NAMES@,
            names@.len() == 24,
            i <= 24,
            row_of(name@) == row_from(name@, i as int),
        decreases 24 - i,
    {
        if same_text(names[i], name) {
            return Some(i);
        }
        i = i + 1;
    }
    None
}

/// Whether the name is that of a completion provider.
#[must_use]
pub fn is_provider(name: &str) -> (known: bool)
    ensures
        known == is_provider_name(name@),
{
    proof {
        lemma_row_of(name@);
    }
    provider_row(name).is_some()
}

/// The text in upper case, for texts of lower case letters.
pub open spec fn upper_case(text: Seq<char>) -> Seq<char> {
    Seq::new(text.len(), |i: int| (text[i] as u32 - 32) as char)
}

/// By convention the API key of a provider stands in the variable that is named after the provider,
/// in upper case and with `_API_KEY` behind it; only `xiaomimimo` has an underscore in that name.
/// Every provider that takes an API key has such a variable, and no other provider but Ollama has one.
pub proof fn law_key_variables_are_named_after_their_providers(row: int)
    requires
        0 <= row < 24,
    ensures
        PROVIDER_KEY_VARIABLES@[row]@.len() > 0 <==> PROVIDER_PROFILES@[row] == Profile::Keyed
            || PROVIDER_PROFILES@[row] == Profile::Ollama,
        PROVIDER_KEY_VARIABLES@[row]@.len() > 0 ==> PROVIDER_KEY_VARIABLES@[row]@ == (
        if PROVIDER_NAMES@[row]@ == "xiaomimimo"@ {
            "XIAOMI_MIMO"@
        } else {
            upper_case(PROVIDER_NAMES@[row]@)
        }) + "_API_KEY"@,
{
    reveal_strlit("_API_KEY");
    reveal_strlit("XIAOMI_MIMO");
    reveal_strlit("xiaomimimo");
    reveal_strlit("");
    if row == 0 {
        reveal_strlit("anthropic");
        reveal_strlit("ANTHROPIC_API_KEY");
        assert("anthropic"@.len() != "xiaomimimo"@.len());
        assert("ANTHROPIC_API_KEY"@ =~= upper_case("anthropic"@) + "_API_KEY"@);
    }
    if row == 1 {
        assert(PROVIDER_KEY_VARIABLES@[row]@ =~= ""@);
    }
    if row == 2 {
        assert(PROVIDER_KEY_VARIABLES@[row]@ =~= ""@);
    }
    if row == 3 {
        reveal_strlit("cohere");
        reveal_strlit("COHERE_API_KEY");
        assert("cohere"@.len() != "xiaomimimo"@.len());
        assert("COHERE_API_KEY"@ =~= upper_case("cohere"@) + "_API_KEY"@);
    }
    if row == 4 {
        assert(PROVIDER_KEY_VARIABLES@[row]@ =~= ""@);
    }
    if row == 5 {
        reveal_strlit("deepseek");
        reveal_strlit("DEEPSEEK_API_KEY");
        assert("deepseek"@.len() != "xiaomimimo"@.len());
        assert("DEEPSEEK_API_KEY"@ =~= upper_case("deepseek"@) + "_API_KEY"@);
    }
    if row == 6 {
        reveal_strlit("doubleword");
        reveal_strlit("DOUBLEWORD_API_KEY");
        assert("doubleword"@[0] != "xiaomimimo"@[0]);
        assert("DOUBLEWORD_API_KEY"@ =~= upper_case("doubleword"@) + "_API_KEY"@);
    }
    if row == 7 {
        reveal_strlit("gemini");
        reveal_strlit("GEMINI_API_KEY");
        assert("gemini"@.len() != "xiaomimimo"@.len());
        assert("GEMINI_API_KEY"@ =~= upper_case("gemini"@) + "_API_KEY"@);
    }
    if row == 8 {
        reveal_strlit("groq");
        reveal_strlit("GROQ_API_KEY");
        assert("groq"@.len() != "xiaomimimo"@.len());
        assert("GROQ_API_KEY"@ =~= upper_case("groq"@) + "_API_KEY"@);
    }
    if row == 9 {
        reveal_strlit("huggingface");
        reveal_strlit("HUGGINGFACE_API_KEY");
        assert("huggingface"@.len() != "xiaomimimo"@.len());
        assert("HUGGINGFACE_API_KEY"@ =~= upper_case("huggingface"@) + "_API_KEY"@);
    }
    if row == 10 {
        reveal_strlit("hyperbolic");
        reveal_strlit("HYPERBOLIC_API_KEY");
        assert("hyperbolic"@[0] != "xiaomimimo"@[0]);
        assert("HYPERBOLIC_API_KEY"@ =~= upper_case("hyperbolic"@) + "_API_KEY"@);
    }
    if row == 11 {
        assert(PROVIDER_KEY_VARIABLES@[row]@ =~= ""@);
    }
    if row == 12 {
        reveal_strlit("minimax");
        reveal_strlit("MINIMAX_API_KEY");
        assert("minimax"@.len() != "xiaomimimo"@.len());
        assert("MINIMAX_API_KEY"@ =~= upper_case("minimax"@) + "_API_KEY"@);
    }
    if row == 13 {
        reveal_strlit("mira");
        reveal_strlit("MIRA_API_KEY");
        assert("mira"@.len() != "xiaomimimo"@.len());
        assert("MIRA_API_KEY"@ =~= upper_case("mira"@) + "_API_KEY"@);
    }
    if row == 14 {
        reveal_strlit("mistral");
        reveal_strlit("MISTRAL_API_KEY");
        assert("mistral"@.len() != "xiaomimimo"@.len());
        assert("MISTRAL_API_KEY"@ =~= upper_case("mistral"@) + "_API_KEY"@);
    }
    if row == 15 {
        reveal_strlit("moonshot");
        reveal_strlit("MOONSHOT_API_KEY");
        assert("moonshot"@.len() != "xiaomimimo"@.len());
        assert("MOONSHOT_API_KEY"@ =~= upper_case("moonshot"@) + "_API_KEY"@);
    }
    if row == 16 {
        reveal_strlit("ollama");
        reveal_strlit("OLLAMA_API_KEY");
        assert("ollama"@.len() != "xiaomimimo"@.len());
        assert("OLLAMA_API_KEY"@ =~= upper_case("ollama"@) + "_API_KEY"@);
    }
    if row == 17 {
        reveal_strlit("openai");
        reveal_strlit("OPENAI_API_KEY");
        assert("openai"@.len() != "xiaomimimo"@.len());
        assert("OPENAI_API_KEY"@ =~= upper_case("openai"@) + "_API_KEY"@);
    }
    if row == 18 {
        reveal_strlit("openrouter");
        reveal_strlit("OPENROUTER_API_KEY");
        assert("openrouter"@[0] != "xiaomimimo"@[0]);
        assert("OPENROUTER_API_KEY"@ =~= upper_case("openrouter"@) + "_API_KEY"@);
    }
    if row == 19 {
        reveal_strlit("perplexity");
        reveal_strlit("PERPLEXITY_API_KEY");
        assert("perplexity"@[0] != "xiaomimimo"@[0]);
        assert("PERPLEXITY_API_KEY"@ =~= upper_case("perplexity"@) + "_API_KEY"@);
    }
    if row == 20 {
        reveal_strlit("together");
        reveal_strlit("TOGETHER_API_KEY");
        assert("together"@.len() != "xiaomimimo"@.len());
        assert("TOGETHER_API_KEY"@ =~= upper_case("together"@) + "_API_KEY"@);
    }
    if row == 21 {
        reveal_strlit("xai");
        reveal_strlit("XAI_API_KEY");
        assert("xai"@.len() != "xiaomimimo"@.len());
        assert("XAI_API_KEY"@ =~= upper_case("xai"@) + "_API_KEY"@);
    }
    if row == 22 {
        reveal_strlit("XIAOMI_MIMO_API_KEY");
        assert("XIAOMI_MIMO_API_KEY"@ =~= "XIAOMI_MIMO"@ + "_API_KEY"@);
    }
    if row == 23 {
        reveal_strlit("zai");
        reveal_strlit("ZAI_API_KEY");
        assert("zai"@.len() != "xiaomimimo"@.len());
        assert("ZAI_API_KEY"@ =~= upper_case("zai"@) + "_API_KEY"@);
    }
}

/// The providers whose base URL may stand in a variable, each with that variable; no other provider
/// has one.
pub proof fn law_base_variables(row: int)
    requires
        0 <= row < 24,
    ensures
        PROVIDER_BASE_VARIABLES@[row]@.len() > 0 <==> seq![
            "anthropic"@,
            "doubleword"@,
            "llamafile"@,
            "minimax"@,
            "moonshot"@,
            "ollama"@,
            "openai"@,
            "xiaomimimo"@,
            "zai"@,
        ].contains(PROVIDER_NAMES@[row]@),
        PROVIDER_NAMES@[row]@ == "anthropic"@ ==> PROVIDER_BASE_VARIABLES@[row]@ == "ANTHROPIC_BASE_URL"@,
        PROVIDER_NAMES@[row]@ == "doubleword"@ ==> PROVIDER_BASE_VARIABLES@[row]@ == "DOUBLEWORD_BASE_URL"@,
        PROVIDER_NAMES@[row]@ == "llamafile"@ ==> PROVIDER_BASE_VARIABLES@[row]@ == "LLAMAFILE_API_BASE_URL"@,
        PROVIDER_NAMES@[row]@ == "minimax"@ ==> PROVIDER_BASE_VARIABLES@[row]@ == "MINIMAX_API_BASE"@,
        PROVIDER_NAMES@[row]@ == "moonshot"@ ==> PROVIDER_BASE_VARIABLES@[row]@ == "MOONSHOT_API_BASE"@,
        PROVIDER_NAMES@[row]@ == "ollama"@ ==> PROVIDER_BASE_VARIABLES@[row]@ == "OLLAMA_API_BASE_URL"@,
        PROVIDER_NAMES@[row]@ == "openai"@ ==> PROVIDER_BASE_VARIABLES@[row]@ == "OPENAI_BASE_URL"@,
        PROVIDER_NAMES@[row]@ == "xiaomimimo"@ ==> PROVIDER_BASE_VARIABLES@[row]@ == "XIAOMI_MIMO_API_BASE"@,
        PROVIDER_NAMES@[row]@ == "zai"@ ==> PROVIDER_BASE_VARIABLES@[row]@ == "ZAI_API_BASE"@,
{
    reveal_strlit("anthropic");
    reveal_strlit("azure");
    reveal_strlit("chatgpt");
    reveal_strlit("cohere");
    reveal_strlit("copilot");
    reveal_strlit("deepseek");
    reveal_strlit("doubleword");
    reveal_strlit("gemini");
    reveal_strlit("groq");
    reveal_strlit("huggingface");
    reveal_strlit("hyperbolic");
    reveal_strlit("llamafile");
    reveal_strlit("minimax");
    reveal_strlit("mira");
    reveal_strlit("mistral");
    reveal_strlit("moonshot");
    reveal_strlit("ollama");
    reveal_strlit("openai");
    reveal_strlit("openrouter");
    reveal_strlit("perplexity");
    reveal_strlit("together");
    reveal_strlit("xai");
    reveal_strlit("xiaomimimo");
    reveal_strlit("zai");
    reveal_strlit("ANTHROPIC_BASE_URL");
    reveal_strlit("DOUBLEWORD_BASE_URL");
    reveal_strlit("LLAMAFILE_API_BASE_URL");
    reveal_strlit("MINIMAX_API_BASE");
    reveal_strlit("MOONSHOT_API_BASE");
    reveal_strlit("OLLAMA_API_BASE_URL");
    reveal_strlit("OPENAI_BASE_URL");
    reveal_strlit("XIAOMI_MIMO_API_BASE");
    reveal_strlit("ZAI_API_BASE");
    reveal_strlit("");
    let listed = seq![
        "anthropic"@,
        "doubleword"@,
        "llamafile"@,
        "minimax"@,
        "moonshot"@,
        "ollama"@,
        "openai"@,
        "xiaomimimo"@,
        "zai"@,
    ];
    if row == 0 {
        assert(listed[0] == "anthropic"@);
        assert("anthropic"@.len() != "doubleword"@.len());
        assert("anthropic"@[0] != "llamafile"@[0]);
        assert("anthropic"@.len() != "minimax"@.len());
        assert("anthropic"@.len() != "moonshot"@.len());
        assert("anthropic"@.len() != "ollama"@.len());
        assert("anthropic"@.len() != "openai"@.len());
        assert("anthropic"@.len() != "xiaomimimo"@.len());
        assert("anthropic"@.len() != "zai"@.len());
    }
    if row == 1 {
        assert("azure"@.len() != "anthropic"@.len());
        assert("azure"@.len() != "doubleword"@.len());
        assert("azure"@.len() != "llamafile"@.len());
        assert("azure"@.len() != "minimax"@.len());
        assert("azure"@.len() != "moonshot"@.len());
        assert("azure"@.len() != "ollama"@.len());
        assert("azure"@.len() != "openai"@.len());
        assert("azure"@.len() != "xiaomimimo"@.len());
        assert("azure"@.len() != "zai"@.len());
    }
    if row == 2 {
        assert("chatgpt"@.len() != "anthropic"@.len());
        assert("chatgpt"@.len() != "doubleword"@.len());
        assert("chatgpt"@.len() != "llamafile"@.len());
        assert("chatgpt"@[0] != "minimax"@[0]);
        assert("chatgpt"@.len() != "moonshot"@.len());
        assert("chatgpt"@.len() != "ollama"@.len());
        assert("chatgpt"@.len() != "openai"@.len());
        assert("chatgpt"@.len() != "xiaomimimo"@.len());
        assert("chatgpt"@.len() != "zai"@.len());
    }
    if row == 3 {
        assert("cohere"@.len() != "anthropic"@.len());
        assert("cohere"@.len() != "doubleword"@.len());
        assert("cohere"@.len() != "llamafile"@.len());
        assert("cohere"@.len() != "minimax"@.len());
        assert("cohere"@.len() != "moonshot"@.len());
        assert("cohere"@[0] != "ollama"@[0]);
        assert("cohere"@[0] != "openai"@[0]);
        assert("cohere"@.len() != "xiaomimimo"@.len());
        assert("cohere"@.len() != "zai"@.len());
    }
    if row == 4 {
        assert("copilot"@.len() != "anthropic"@.len());
        assert("copilot"@.len() != "doubleword"@.len());
        assert("copilot"@.len() != "llamafile"@.len());
        assert("copilot"@[0] != "minimax"@[0]);
        assert("copilot"@.len() != "moonshot"@.len());
        assert("copilot"@.len() != "ollama"@.len());
        assert("copilot"@.len() != "openai"@.len());
        assert("copilot"@.len() != "xiaomimimo"@.len());
        assert("copilot"@.len() != "zai"@.len());
    }
    if row == 5 {
        assert("deepseek"@.len() != "anthropic"@.len());
        assert("deepseek"@.len() != "doubleword"@.len());
        assert("deepseek"@.len() != "llamafile"@.len());
        assert("deepseek"@.len() != "minimax"@.len());
        assert("deepseek"@[0] != "moonshot"@[0]);
        assert("deepseek"@.len() != "ollama"@.len());
        assert("deepseek"@.len() != "openai"@.len());
        assert("deepseek"@.len() != "xiaomimimo"@.len());
        assert("deepseek"@.len() != "zai"@.len());
    }
    if row == 6 {
        assert(listed[1] == "doubleword"@);
        assert("doubleword"@.len() != "anthropic"@.len());
        assert("doubleword"@.len() != "llamafile"@.len());
        assert("doubleword"@.len() != "minimax"@.len());
        assert("doubleword"@.len() != "moonshot"@.len());
        assert("doubleword"@.len() != "ollama"@.len());
        assert("doubleword"@.len() != "openai"@.len());
        assert("doubleword"@[0] != "xiaomimimo"@[0]);
        assert("doubleword"@.len() != "zai"@.len());
    }
    if row == 7 {
        assert("gemini"@.len() != "anthropic"@.len());
        assert("gemini"@.len() != "doubleword"@.len());
        assert("gemini"@.len() != "llamafile"@.len());
        assert("gemini"@.len() != "minimax"@.len());
        assert("gemini"@.len() != "moonshot"@.len());
        assert("gemini"@[0] != "ollama"@[0]);
        assert("gemini"@[0] != "openai"@[0]);
        assert("gemini"@.len() != "xiaomimimo"@.len());
        assert("gemini"@.len() != "zai"@.len());
    }
    if row == 8 {
        assert("groq"@.len() != "anthropic"@.len());
        assert("groq"@.len() != "doubleword"@.len());
        assert("groq"@.len() != "llamafile"@.len());
        assert("groq"@.len() != "minimax"@.len());
        assert("groq"@.len() != "moonshot"@.len());
        assert("groq"@.len() != "ollama"@.len());
        assert("groq"@.len() != "openai"@.len());
        assert("groq"@.len() != "xiaomimimo"@.len());
        assert("groq"@.len() != "zai"@.len());
    }
    if row == 9 {
        assert("huggingface"@.len() != "anthropic"@.len());
        assert("huggingface"@.len() != "doubleword"@.len());
        assert("huggingface"@.len() != "llamafile"@.len());
        assert("huggingface"@.len() != "minimax"@.len());
        assert("huggingface"@.len() != "moonshot"@.len());
        assert("huggingface"@.len() != "ollama"@.len());
        assert("huggingface"@.len() != "openai"@.len());
        assert("huggingface"@.len() != "xiaomimimo"@.len());
        assert("huggingface"@.len() != "zai"@.len());
    }
    if row == 10 {
        assert("hyperbolic"@.len() != "anthropic"@.len());
        assert("hyperbolic"@[0] != "doubleword"@[0]);
        assert("hyperbolic"@.len() != "llamafile"@.len());
        assert("hyperbolic"@.len() != "minimax"@.len());
        assert("hyperbolic"@.len() != "moonshot"@.len());
        assert("hyperbolic"@.len() != "ollama"@.len());
        assert("hyperbolic"@.len() != "openai"@.len());
        assert("hyperbolic"@[0] != "xiaomimimo"@[0]);
        assert("hyperbolic"@.len() != "zai"@.len());
    }
    if row == 11 {
        assert(listed[2] == "llamafile"@);
        assert("llamafile"@[0] != "anthropic"@[0]);
        assert("llamafile"@.len() != "doubleword"@.len());
        assert("llamafile"@.len() != "minimax"@.len());
        assert("llamafile"@.len() != "moonshot"@.len());
        assert("llamafile"@.len() != "ollama"@.len());
        assert("llamafile"@.len() != "openai"@.len());
        assert("llamafile"@.len() != "xiaomimimo"@.len());
        assert("llamafile"@.len() != "zai"@.len());
    }
    if row == 12 {
        assert(listed[3] == "minimax"@);
        assert("minimax"@.len() != "anthropic"@.len());
        assert("minimax"@.len() != "doubleword"@.len());
        assert("minimax"@.len() != "llamafile"@.len());
        assert("minimax"@.len() != "moonshot"@.len());
        assert("minimax"@.len() != "ollama"@.len());
        assert("minimax"@.len() != "openai"@.len());
        assert("minimax"@.len() != "xiaomimimo"@.len());
        assert("minimax"@.len() != "zai"@.len());
    }
    if row == 13 {
        assert("mira"@.len() != "anthropic"@.len());
        assert("mira"@.len() != "doubleword"@.len());
        assert("mira"@.len() != "llamafile"@.len());
        assert("mira"@.len() != "minimax"@.len());
        assert("mira"@.len() != "moonshot"@.len());
        assert("mira"@.len() != "ollama"@.len());
        assert("mira"@.len() != "openai"@.len());
        assert("mira"@.len() != "xiaomimimo"@.len());
        assert("mira"@.len() != "zai"@.len());
    }
    if row == 14 {
        assert("mistral"@.len() != "anthropic"@.len());
        assert("mistral"@.len() != "doubleword"@.len());
        assert("mistral"@.len() != "llamafile"@.len());
        assert("mistral"@[2] != "minimax"@[2]);
        assert("mistral"@.len() != "moonshot"@.len());
        assert("mistral"@.len() != "ollama"@.len());
        assert("mistral"@.len() != "openai"@.len());
        assert("mistral"@.len() != "xiaomimimo"@.len());
        assert("mistral"@.len() != "zai"@.len());
    }
    if row == 15 {
        assert(listed[4] == "moonshot"@);
        assert("moonshot"@.len() != "anthropic"@.len());
        assert("moonshot"@.len() != "doubleword"@.len());
        assert("moonshot"@.len() != "llamafile"@.len());
        assert("moonshot"@.len() != "minimax"@.len());
        assert("moonshot"@.len() != "ollama"@.len());
        assert("moonshot"@.len() != "openai"@.len());
        assert("moonshot"@.len() != "xiaomimimo"@.len());
        assert("moonshot"@.len() != "zai"@.len());
    }
    if row == 16 {
        assert(listed[5] == "ollama"@);
        assert("ollama"@.len() != "anthropic"@.len());
        assert("ollama"@.len() != "doubleword"@.len());
        assert("ollama"@.len() != "llamafile"@.len());
        assert("ollama"@.len() != "minimax"@.len());
        assert("ollama"@.len() != "moonshot"@.len());
        assert("ollama"@[1] != "openai"@[1]);
        assert("ollama"@.len() != "xiaomimimo"@.len());
        assert("ollama"@.len() != "zai"@.len());
    }
    if row == 17 {
        assert(listed[6] == "openai"@);
        assert("openai"@.len() != "anthropic"@.len());
        assert("openai"@.len() != "doubleword"@.len());
        assert("openai"@.len() != "llamafile"@.len());
        assert("openai"@.len() != "minimax"@.len());
        assert("openai"@.len() != "moonshot"@.len());
        assert("openai"@[1] != "ollama"@[1]);
        assert("openai"@.len() != "xiaomimimo"@.len());
        assert("openai"@.len() != "zai"@.len());
    }
    if row == 18 {
        assert("openrouter"@.len() != "anthropic"@.len());
        assert("openrouter"@[0] != "doubleword"@[0]);
        assert("openrouter"@.len() != "llamafile"@.len());
        assert("openrouter"@.len() != "minimax"@.len());
        assert("openrouter"@.len() != "moonshot"@.len());
        assert("openrouter"@.len() != "ollama"@.len());
        assert("openrouter"@.len() != "openai"@.len());
        assert("openrouter"@[0] != "xiaomimimo"@[0]);
        assert("openrouter"@.len() != "zai"@.len());
    }
    if row == 19 {
        assert("perplexity"@.len() != "anthropic"@.len());
        assert("perplexity"@[0] != "doubleword"@[0]);
        assert("perplexity"@.len() != "llamafile"@.len());
        assert("perplexity"@.len() != "minimax"@.len());
        assert("perplexity"@.len() != "moonshot"@.len());
        assert("perplexity"@.len() != "ollama"@.len());
        assert("perplexity"@.len() != "openai"@.len());
        assert("perplexity"@[0] != "xiaomimimo"@[0]);
        assert("perplexity"@.len() != "zai"@.len());
    }
    if row == 20 {
        assert("together"@.len() != "anthropic"@.len());
        assert("together"@.len() != "doubleword"@.len());
        assert("together"@.len() != "llamafile"@.len());
        assert("together"@.len() != "minimax"@.len());
        assert("together"@[0] != "moonshot"@[0]);
        assert("together"@.len() != "ollama"@.len());
        assert("together"@.len() != "openai"@.len());
        assert("together"@.len() != "xiaomimimo"@.len());
        assert("together"@.len() != "zai"@.len());
    }
    if row == 21 {
        assert("xai"@.len() != "anthropic"@.len());
        assert("xai"@.len() != "doubleword"@.len());
        assert("xai"@.len() != "llamafile"@.len());
        assert("xai"@.len() != "minimax"@.len());
        assert("xai"@.len() != "moonshot"@.len());
        assert("xai"@.len() != "ollama"@.len());
        assert("xai"@.len() != "openai"@.len());
        assert("xai"@.len() != "xiaomimimo"@.len());
        assert("xai"@[0] != "zai"@[0]);
    }
    if row == 22 {
        assert(listed[7] == "xiaomimimo"@);
        assert("xiaomimimo"@.len() != "anthropic"@.len());
        assert("xiaomimimo"@[0] != "doubleword"@[0]);
        assert("xiaomimimo"@.len() != "llamafile"@.len());
        assert("xiaomimimo"@.len() != "minimax"@.len());
        assert("xiaomimimo"@.len() != "moonshot"@.len());
        assert("xiaomimimo"@.len() != "ollama"@.len());
        assert("xiaomimimo"@.len() != "openai"@.len());
        assert("xiaomimimo"@.len() != "zai"@.len());
    }
    if row == 23 {
        assert(listed[8] == "zai"@);
        assert("zai"@.len() != "anthropic"@.len());
        assert("zai"@.len() != "doubleword"@.len());
        assert("zai"@.len() != "llamafile"@.len());
        assert("zai"@.len() != "minimax"@.len());
        assert("zai"@.len() != "moonshot"@.len());
        assert("zai"@.len() != "ollama"@.len());
        assert("zai"@.len() != "openai"@.len());
        assert("zai"@.len() != "xiaomimimo"@.len());
    }
}

/// A name is that of a provider exactly if it stands among the names, and its row is a row of that
/// name.
pub proof fn law_row_is_that_of_the_name(name: Seq<char>, row: int)
    ensures
        row_of(name) == Some(row) ==> 0 <= row < 24 && PROVIDER_NAMES@[row]@ == name,
        0 <= row < 24 && PROVIDER_NAMES@[row]@ == name ==> row_of(name) is Some
            && is_provider_name(name),
        row_of(name) is None ==> forall|i: int|
            0 <= i < 24 ==> (#[trigger] PROVIDER_NAMES@[i])@ != name,
{
    lemma_row_from(name, 0);
}

} // verus!

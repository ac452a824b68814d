use mansplain::config::{exposes_key, resolve, ConfigError, Provider};
use mansplain::wire::WireFormat;

#[test]
fn providers_are_known_by_their_lower_case_names() {
    assert_eq!(Provider::named("ollama"), Some(Provider::Ollama));
    assert_eq!(Provider::named("perplexity"), Some(Provider::Perplexity));
    assert_eq!(Provider::named("openai"), Some(Provider::OpenAi));
    assert_eq!(Provider::named("Ollama"), None);
    assert_eq!(Provider::named(""), None);
    assert_eq!(Provider::named("ollama "), None);
}

#[test]
fn provider_names_are_read_in_any_case() {
    assert_eq!(Provider::parse("OLLAMA").unwrap(), Provider::Ollama);
    assert_eq!(Provider::parse("Perplexity").unwrap(), Provider::Perplexity);
    assert_eq!(Provider::parse("OpenAI").unwrap(), Provider::OpenAi);
    assert_eq!(Provider::parse("openai").unwrap(), Provider::OpenAi);
}

#[test]
fn an_unknown_provider_is_refused_by_its_lower_case_name() {
    let error = Provider::parse("Mistral").unwrap_err();
    assert!(matches!(error, ConfigError::UnknownProvider { ref name } if name == "mistral"));
    assert_eq!(
        error.message(),
        "Unknown provider 'mistral'. Supported providers: ollama, perplexity, openai"
    );
}

#[test]
fn providers_answer_in_their_formats() {
    assert_eq!(Provider::Ollama.format(), WireFormat::LineJson);
    assert_eq!(Provider::Perplexity.format(), WireFormat::EventStream);
    assert_eq!(Provider::OpenAi.format(), WireFormat::EventStream);
}

#[test]
fn only_ollama_works_without_a_key() {
    assert!(!Provider::Ollama.needs_key());
    assert!(Provider::Perplexity.needs_key());
    assert!(Provider::OpenAi.needs_key());
}

#[test]
fn defaults_follow_the_provider() {
    assert_eq!(Provider::Ollama.default_url(), "http://localhost:11434");
    assert_eq!(Provider::Ollama.default_model(), "gemma3:12b");
    assert_eq!(Provider::Perplexity.default_url(), "https://api.perplexity.ai");
    assert_eq!(Provider::Perplexity.default_model(), "sonar");
    assert_eq!(Provider::OpenAi.default_url(), "https://api.openai.com/v1");
    assert_eq!(Provider::OpenAi.default_model(), "gpt-4o-mini");
}

#[test]
fn resolve_fills_in_the_defaults() {
    let backend = resolve(Provider::Ollama, None, None, None).unwrap();
    assert_eq!(backend.provider, Provider::Ollama);
    assert_eq!(backend.api_url, "http://localhost:11434");
    assert_eq!(backend.model, "gemma3:12b");
    assert_eq!(backend.api_key, None);
    let keyed = resolve(Provider::OpenAi, None, None, Some("my-key".to_string())).unwrap();
    assert_eq!(keyed.api_url, "https://api.openai.com/v1");
    assert_eq!(keyed.model, "gpt-4o-mini");
    assert_eq!(keyed.api_key.as_deref(), Some("my-key"));
}

#[test]
fn resolve_keeps_what_was_given() {
    let backend = resolve(
        Provider::Perplexity,
        Some("https://example.test/v2".to_string()),
        Some("sonar-pro".to_string()),
        Some("my-key".to_string()),
    )
    .unwrap();
    assert_eq!(backend.provider, Provider::Perplexity);
    assert_eq!(backend.api_url, "https://example.test/v2");
    assert_eq!(backend.model, "sonar-pro");
    let local = resolve(Provider::Ollama, None, Some("llama3".to_string()), Some("unused".to_string())).unwrap();
    assert_eq!(local.model, "llama3");
    assert_eq!(local.api_key.as_deref(), Some("unused"));
}

#[test]
fn a_missing_key_is_refused() {
    for provider in [Provider::Perplexity, Provider::OpenAi] {
        let error = resolve(provider, Some("https://example.test".to_string()), None, None).unwrap_err();
        assert!(matches!(error, ConfigError::MissingApiKey { provider: told } if told == provider));
    }
}

#[test]
fn a_missing_key_names_the_provider() {
    assert_eq!(
        ConfigError::MissingApiKey { provider: Provider::Perplexity }.message(),
        "API key required for Perplexity. Set MANSPLAIN_API_KEY environment variable or use --api-key flag"
    );
    assert_eq!(
        ConfigError::MissingApiKey { provider: Provider::OpenAi }.message(),
        "API key required for OpenAI. Set MANSPLAIN_API_KEY environment variable or use --api-key flag"
    );
}

#[test]
fn addresses_in_the_clear_expose_the_key() {
    assert!(exposes_key("http://example.test"));
    assert!(exposes_key("ftp://localhost"));
    assert!(exposes_key(""));
    assert!(exposes_key("HTTPS://example.test"));
    assert!(exposes_key("http://127.0.0.2"));
}

#[test]
fn secure_and_local_addresses_do_not_expose_the_key() {
    assert!(!exposes_key("https://api.openai.com/v1"));
    assert!(!exposes_key("https://"));
    assert!(!exposes_key("http://localhost:11434"));
    assert!(!exposes_key("http://localhost"));
    assert!(!exposes_key("http://127.0.0.1:8080/v1"));
}

//! Which backend a run talks to: the provider, its defaults, the key it
//! needs, and the wire format it answers in.

use crate::text::{chars_of, has_prefix};
use crate::wire::WireFormat;
use vstd::prelude::*;
use vstd::string::StringExecFns;

verus! {

/// A provider of language models.
#[derive(Clone, Copy, Debug, PartialEq, Eq, Structural)]
pub enum Provider {
    Ollama,
    Perplexity,
    OpenAi,
}

/// Why no backend could be set up.
#[derive(Debug)]
pub enum ConfigError {
    /// The provider's name is none of those supported.
    UnknownProvider {
        /// The name, in lower case.
        name: String,
    },
    /// The provider needs an API key and none was given.
    MissingApiKey {
        provider: Provider,
    },
}

/// The backend of one run.
#[derive(Debug)]
pub struct Backend {
    pub provider: Provider,
    pub api_url: String,
    pub model: String,
    pub api_key: Option<String>,
}

/// The provider that a name in lower case stands for.
pub open spec fn provider_named(name: Seq<char>) -> Option<Provider> {
    if name == "ollama"@ {
        Some(Provider::Ollama)
    } else if name == "perplexity"@ {
        Some(Provider::Perplexity)
    } else if name == "openai"@ {
        Some(Provider::OpenAi)
    } else {
        None
    }
}

/// The wire format in which a provider answers.
pub open spec fn format_of(provider: Provider) -> WireFormat {
    match provider {
        Provider::Ollama => WireFormat::LineJson,
        Provider::Perplexity => WireFormat::EventStream,
        Provider::OpenAi => WireFormat::EventStream,
    }
}

/// Whether a provider serves nobody without an API key.
pub open spec fn needs_key(provider: Provider) -> bool {
    provider != Provider::Ollama
}

/// The address of a provider where none is given.
pub open spec fn default_url(provider: Provider) -> Seq<char> {
    match provider {
        Provider::Ollama => "http://localhost:11434"@,
        Provider::Perplexity => "https://api.perplexity.ai"@,
        Provider::OpenAi => "https://api.openai.com/v1"@,
    }
}

/// The model of a provider where none is given.
pub open spec fn default_model(provider: Provider) -> Seq<char> {
    match provider {
        Provider::Ollama => "gemma3:12b"@,
        Provider::Perplexity => "sonar"@,
        Provider::OpenAi => "gpt-4o-mini"@,
    }
}

/// `text` in lower case, as `str::to_lowercase` gives it.
pub uninterp spec fn lowercased(text: Seq<char>) -> Seq<char>;

/// Puts `text` in lower case with `str::to_lowercase`. The contract names
/// the outcome [`lowercased`] and claims nothing else of it.
#[verifier::external_body]
pub(crate) fn lowercase(text: &str) -> (lower: String)
    ensures
        lower@ == lowercased(text@),
{
    text.to_lowercase()
}

impl Provider {
    /// The provider that `name`, already in lower case, stands for.
    pub fn named(name: &str) -> (provider: Option<Provider>)
        ensures
            provider == provider_named(name@),
    {
        let given = name.to_owned();
        if given == "ollama".to_owned() {
            Some(Provider::Ollama)
        } else if given == "perplexity".to_owned() {
            Some(Provider::Perplexity)
        } else if given == "openai".to_owned() {
            Some(Provider::OpenAi)
        } else {
            None
        }
    }

    /// The provider that `name` stands for, whatever its case.
    pub fn parse(name: &str) -> (result: Result<Provider, ConfigError>)
        ensures
            match provider_named(lowercased(name@)) {
                Some(provider) => result == Ok::<Provider, ConfigError>(provider),
                None => result matches Err(ConfigError::UnknownProvider { name: told })
                    && told@ == lowercased(name@),
            },
    {
        let lower = lowercase(name);
        match Provider::named(lower.as_str()) {
            Some(provider) => Ok(provider),
            None => Err(ConfigError::UnknownProvider { name: lower }),
        }
    }

    /// The wire format in which the provider answers.
    pub fn format(&self) -> (format: WireFormat)
        ensures
            format == format_of(*self),
    {
        match self {
            Provider::Ollama => WireFormat::LineJson,
            Provider::Perplexity => WireFormat::EventStream,
            Provider::OpenAi => WireFormat::EventStream,
        }
    }

    /// Whether the provider serves nobody without an API key.
    pub fn needs_key(&self) -> (needed: bool)
        ensures
            needed == needs_key(*self),
    {
        match self {
            Provider::Ollama => false,
            Provider::Perplexity => true,
            Provider::OpenAi => true,
        }
    }

    /// The address of the provider where none is given.
    pub fn default_url(&self) -> (url: &'static str)
        ensures
            url@ == default_url(*self),
    {
        match self {
            Provider::Ollama => "http://localhost:11434",
            Provider::Perplexity => "https://api.perplexity.ai",
            Provider::OpenAi => "https://api.openai.com/v1",
        }
    }

    /// The model of the provider where none is given.
    pub fn default_model(&self) -> (model: &'static str)
        ensures
            model@ == default_model(*self),
    {
        match self {
            Provider::Ollama => "gemma3:12b",
            Provider::Perplexity => "sonar",
            Provider::OpenAi => "gpt-4o-mini",
        }
    }
}

/// `given` where there is one, else `fallback`.
pub open spec fn or_default(given: Option<String>, fallback: Seq<char>) -> Seq<char> {
    match given {
        Some(text) => text@,
        None => fallback,
    }
}

/// Sets up the backend of a run from what the user gave: the address and
/// the model default to the provider's own, and a provider that needs an
/// API key is refused without one.
pub fn resolve(
    provider: Provider,
    api_url: Option<String>,
    model: Option<String>,
    api_key: Option<String>,
) -> (result: Result<Backend, ConfigError>)
    ensures
        needs_key(provider) && api_key is None ==> (result matches Err(
            ConfigError::MissingApiKey { provider: told },
        ) && told == provider),
        !(needs_key(provider) && api_key is None) ==> (result matches Ok(backend) && {
            &&& backend.provider == provider
            &&& backend.api_url@ == or_default(api_url, default_url(provider))
            &&& backend.model@ == or_default(model, default_model(provider))
            &&& backend.api_key == api_key
        }),
{
    if provider.needs_key() && api_key.is_none() {
        return Err(ConfigError::MissingApiKey { provider });
    }
    let api_url = match api_url {
        Some(url) => url,
        None => provider.default_url().to_owned(),
    };
    let model = match model {
        Some(model) => model,
        None => provider.default_model().to_owned(),
    };
    Ok(Backend { provider, api_url, model, api_key })
}

/// Whether an address is sent in the clear to another machine: it begins
/// neither with `https://` nor with the address of this machine.
pub open spec fn is_exposed(url: Seq<char>) -> bool {
    &&& !"https://"@.is_prefix_of(url)
    &&& !"http://localhost"@.is_prefix_of(url)
    &&& !"http://127.0.0.1"@.is_prefix_of(url)
}

/// Whether a request to `url` may expose the API key on the way.
pub fn exposes_key(url: &str) -> (exposed: bool)
    ensures
        exposed == is_exposed(url@),
{
    let chars = chars_of(url);
    let secure = chars_of("https://");
    let local_name = chars_of("http://localhost");
    let local_address = chars_of("http://127.0.0.1");
    !has_prefix(chars.as_slice(), secure.as_slice()) && !has_prefix(
        chars.as_slice(),
        local_name.as_slice(),
    ) && !has_prefix(chars.as_slice(), local_address.as_slice())
}

/// What a configuration failure says of itself.
pub open spec fn config_message(error: ConfigError) -> Seq<char> {
    match error {
        ConfigError::UnknownProvider { name } => "Unknown provider '"@ + name@
            + "'. Supported providers: ollama, perplexity, openai"@,
        ConfigError::MissingApiKey { provider } => "API key required for "@ + match provider {
            Provider::Ollama => "Ollama"@,
            Provider::Perplexity => "Perplexity"@,
            Provider::OpenAi => "OpenAI"@,
        } + ". Set MANSPLAIN_API_KEY environment variable or use --api-key flag"@,
    }
}

impl ConfigError {
    /// What the failure says of itself.
    pub fn message(&self) -> (message: String)
        ensures
            message@ == config_message(*self),
    {
        match self {
            ConfigError::UnknownProvider { name } => {
                let mut message = "Unknown provider '".to_owned();
                message.append(name.as_str());
                message.append("'. Supported providers: ollama, perplexity, openai");
                message
            },
            ConfigError::MissingApiKey { provider } => {
                let mut message = "API key required for ".to_owned();
                match provider {
                    Provider::Ollama => message.append("Ollama"),
                    Provider::Perplexity => message.append("Perplexity"),
                    Provider::OpenAi => message.append("OpenAI"),
                }
                message.append(
                    ". Set MANSPLAIN_API_KEY environment variable or use --api-key flag",
                );
                message
            },
        }
    }
}

} // verus!

//! Provider selection and the shape of streamed chat events.

use vstd::prelude::*;
use crate::config::{LlmConfig, display_name_spec, get_provider_display_name, clone_opt};
use crate::rpc::{RpcError, INVALID_PARAMS};
use crate::text::{same, starts_with, before_colon, prefix_before_colon};

verus! {

/// The current provider configuration, owned by whoever serves requests.
pub struct ConfigStore {
    pub config: Option<LlmConfig>,
}

impl ConfigStore {
    /// A store with no configuration loaded.
    pub fn new() -> (r: ConfigStore)
        ensures
            r.config.is_none(),
    {
        ConfigStore { config: None }
    }

    /// Installs or replaces the configuration.
    pub fn set_config(&mut self, config: LlmConfig)
        ensures
            final(self).config == Some(config),
    {
        self.config = Some(config);
    }

    /// A copy of the current configuration.
    pub fn get_config(&self) -> (r: Option<LlmConfig>)
        requires
            self.config matches Some(c) ==> c.wf(),
        ensures
            r.is_some() == self.config.is_some(),
            r matches Some(c) ==> ({
                let s = self.config->Some_0;
                &&& c.wf()
                &&& c.version == s.version
                &&& c.default_model == s.default_model
                &&& c.default_provider == s.default_provider
                &&& c.providers.entries@ == s.providers.entries@
                &&& c.models@ == s.models@
            }),
    {
        match &self.config {
            Some(c) => Some(c.duplicate()),
            None => None,
        }
    }
}

/// The provider type a reference names: the type of the instance with that
/// id, or else the reference itself taken as a type. Nothing without a
/// configuration.
pub fn resolve_provider_type(config: &Option<LlmConfig>, provider: &str) -> (r: Option<String>)
    requires
        config matches Some(c) ==> c.wf(),
    ensures
        match config {
            None => r.is_none(),
            Some(c) => r matches Some(t) && t@ == (if c.providers@.contains_key(provider@) {
                c.providers@[provider@].provider_type@
            } else {
                provider@
            }),
        },
{
    match config {
        None => None,
        Some(c) => match c.get_instance(provider) {
            Some(p) => Some(p.provider_type.clone()),
            None => Some(provider.to_owned()),
        },
    }
}

/// Display name of a provider type.
pub fn get_type_display_name(provider_type: &str) -> (r: String)
    ensures
        r@ == display_name_spec(provider_type@),
{
    get_provider_display_name(provider_type)
}

/// Whether a model id names a model served on this machine.
pub open spec fn is_local_spec(model_id: Seq<char>) -> bool {
    (model_id.len() >= 7 && model_id.subrange(0, 7) == "ollama:"@) || (model_id.len() >= 10
        && model_id.subrange(0, 10) == "llamafile:"@)
}

/// Whether a model id names a model served on this machine (its provider
/// prefix is `ollama:` or `llamafile:`).
pub fn is_local_model(model_id: &str) -> (r: bool)
    ensures
        r == is_local_spec(model_id@),
{
    proof {
        reveal_strlit("ollama:");
        reveal_strlit("llamafile:");
    }
    starts_with(model_id, "ollama:") || starts_with(model_id, "llamafile:")
}

/// Whether a provider type is a cloud service that needs an API key.
pub fn needs_api_key(provider_type: &str) -> (r: bool)
    ensures
        r == (provider_type@ == "openai"@ || provider_type@ == "anthropic"@ || provider_type@ == "mistral"@
            || provider_type@ == "groq"@),
{
    same(provider_type, "openai") || same(provider_type, "anthropic") || same(provider_type, "mistral") || same(
        provider_type,
        "groq",
    )
}

/// Whether a provider type runs on this machine.
pub fn is_local_type(provider_type: &str) -> (r: bool)
    ensures
        r == (provider_type@ == "ollama"@ || provider_type@ == "llamafile"@ || provider_type@ == "lmstudio"@),
{
    same(provider_type, "ollama") || same(provider_type, "llamafile") || same(provider_type, "lmstudio")
}

/// One message of a chat request.
#[derive(Debug)]
pub struct ChatMessage {
    pub role: String,
    pub content: String,
    /// For tool responses: the call they answer.
    pub tool_call_id: Option<String>,
}

/// Who speaks in a chat message.
#[derive(Debug, Clone, Copy, PartialEq, Eq, Structural)]
pub enum MessageRole {
    System,
    User,
    Assistant,
    Tool,
}

/// The speaker a role name denotes; an unknown role speaks as the user.
pub fn message_role(role: &str) -> (r: MessageRole)
    ensures
        r == (if role@ == "system"@ {
            MessageRole::System
        } else if role@ == "assistant"@ {
            MessageRole::Assistant
        } else if role@ == "tool"@ {
            MessageRole::Tool
        } else {
            MessageRole::User
        }),
{
    if same(role, "system") {
        MessageRole::System
    } else if same(role, "assistant") {
        MessageRole::Assistant
    } else if same(role, "tool") {
        MessageRole::Tool
    } else {
        MessageRole::User
    }
}

/// Credentials handed to a provider client.
#[derive(Debug)]
pub struct ProviderSettings {
    pub api_key: Option<String>,
    pub base_url: Option<String>,
}

/// The settings to call a provider with: those of the instance the reference
/// resolves to, when it resolves and is enabled.
pub fn get_provider_config(config: &Option<LlmConfig>, provider: &str) -> (r: Option<ProviderSettings>)
    requires
        config matches Some(c) ==> c.wf(),
    ensures
        match config {
            None => r.is_none(),
            Some(c) => match c.resolve_spec(provider@) {
                Some(p) => if p.enabled {
                    r matches Some(s) && s.api_key == p.api_key && s.base_url == p.base_url
                } else {
                    r.is_none()
                },
                None => r.is_none(),
            },
        },
{
    match config {
        None => None,
        Some(c) => match c.resolve_provider(provider) {
            Some(p) => if p.enabled {
                Some(ProviderSettings { api_key: clone_opt(&p.api_key), base_url: clone_opt(&p.base_url) })
            } else {
                None
            },
            None => None,
        },
    }
}

/// The settings for a model id, from its provider prefix (the text before
/// the first `:`).
pub fn get_provider_config_for_model(config: &Option<LlmConfig>, model: &str) -> (r: Option<
    ProviderSettings,
>)
    requires
        config matches Some(c) ==> c.wf(),
    ensures
        match config {
            None => r.is_none(),
            Some(c) => match c.resolve_spec(before_colon(model@)) {
                Some(p) => if p.enabled {
                    r matches Some(s) && s.api_key == p.api_key && s.base_url == p.base_url
                } else {
                    r.is_none()
                },
                None => r.is_none(),
            },
        },
{
    let prefix = prefix_before_colon(model);
    get_provider_config(config, prefix.as_str())
}

/// The model a chat runs on: the one requested, or else the configured
/// default model; an error when there is neither.
pub fn choose_model(requested: Option<String>, config: &Option<LlmConfig>) -> (r: Result<String, RpcError>)
    ensures
        match requested {
            Some(m) => r == Ok::<String, RpcError>(m),
            None => match config {
                Some(c) => match c.default_model {
                    Some(m) => r == Ok::<String, RpcError>(m),
                    None => r matches Err(e) && e.code == INVALID_PARAMS && e.message@ == no_model_msg(),
                },
                None => r matches Err(e) && e.code == INVALID_PARAMS && e.message@ == no_model_msg(),
            },
        },
{
    match requested {
        Some(m) => Ok(m),
        None => {
            let d = match config {
                Some(c) => clone_opt(&c.default_model),
                None => None,
            };
            match d {
                Some(m) => Ok(m),
                None => Err(
                    RpcError::new(
                        INVALID_PARAMS,
                        String::from_str("No model specified and no default model configured"),
                    ),
                ),
            }
        },
    }
}

pub open spec fn no_model_msg() -> Seq<char> {
    "No model specified and no default model configured"@
}

/// Kind of one streamed chat event.
#[derive(Debug, Clone, Copy, PartialEq, Eq, Structural)]
pub enum StreamEventKind {
    Token,
    Done,
    Error,
}

impl StreamEventKind {
    /// The wire name of the kind.
    pub fn as_str(&self) -> (r: &'static str)
        ensures
            r@ == (match *self {
                StreamEventKind::Token => "token"@,
                StreamEventKind::Done => "done"@,
                StreamEventKind::Error => "error"@,
            }),
    {
        match self {
            StreamEventKind::Token => "token",
            StreamEventKind::Done => "done",
            StreamEventKind::Error => "error",
        }
    }

    pub open spec fn is_terminal_spec(&self) -> bool {
        *self != StreamEventKind::Token
    }

    /// Whether the stream ends with this event.
    pub fn is_terminal(&self) -> (r: bool)
        ensures
            r == self.is_terminal_spec(),
    {
        match self {
            StreamEventKind::Token => false,
            _ => true,
        }
    }
}

/// The kind of event a provider chunk makes: a chunk with a finish reason
/// ends the stream, any other chunk carries a token, and a failed chunk is
/// an error.
pub fn chunk_kind(failed: bool, has_finish_reason: bool) -> (r: StreamEventKind)
    ensures
        r == (if failed {
            StreamEventKind::Error
        } else if has_finish_reason {
            StreamEventKind::Done
        } else {
            StreamEventKind::Token
        }),
{
    if failed {
        StreamEventKind::Error
    } else if has_finish_reason {
        StreamEventKind::Done
    } else {
        StreamEventKind::Token
    }
}

/// Fan-out of one stream to the transport: events pass until the first
/// terminal one, after which the stream is closed and nothing passes.
pub struct StreamForwarder {
    pub closed: bool,
}

impl StreamForwarder {
    pub fn new() -> (r: StreamForwarder)
        ensures
            !r.closed,
    {
        StreamForwarder { closed: false }
    }

    /// Whether an event of kind `kind` goes to the transport; a terminal
    /// event closes the stream after it.
    pub fn admit_event(&mut self, kind: StreamEventKind) -> (r: bool)
        ensures
            r == !old(self).closed,
            final(self).closed == (old(self).closed || kind.is_terminal_spec()),
    {
        if self.closed {
            return false;
        }
        if kind.is_terminal() {
            self.closed = true;
        }
        true
    }
}

} // verus!

//! Settings.
use vstd::prelude::*;

use crate::backend::error::{said, Error, ErrorView};
use crate::text::{among, same_text, texts};
use crate::types::ThinkingConfig;

verus! {

/// When a tool may run only after the user agreed.
#[derive(Clone, Copy, Debug, PartialEq, Eq, Structural)]
pub enum ConfirmationMode {
    Always,
    WriteOnly,
    Never,
}

/// How failed requests are repeated.
#[derive(Clone, Copy, Debug, PartialEq, Eq, Structural)]
pub struct RetryConfig {
    pub max_retries: u32,
    pub initial_delay_ms: u64,
    pub max_delay_ms: u64,
    pub max_token_retries: u32,
}

/// How tools are run.
#[derive(Clone, Copy, Debug, PartialEq, Eq, Structural)]
pub struct ToolsConfig {
    pub max_tool_iterations: u32,
    pub confirmation: ConfirmationMode,
    pub max_tool_result_bytes: u64,
}

/// When and how conversations are compacted.
#[derive(Debug, PartialEq, Eq)]
pub struct CompactionConfig {
    /// The role that summarises.
    pub role: String,
    /// The number of tokens beyond which a conversation is compacted; 0 means never.
    pub max_context_window_len: u32,
    /// How many turns are kept as they are.
    pub num_retained_turns: u32,
}

/// Ollama.
#[derive(Debug, PartialEq, Eq)]
pub struct OllamaConfig {
    pub api_key: String,
    pub model: String,
    pub base_url: String,
    pub max_tokens: Option<u32>,
}

/// The Anthropic Messages API.
#[derive(Debug, PartialEq, Eq)]
pub struct AnthropicConfig {
    pub api_key: String,
    pub base_url: String,
    pub model: String,
    pub max_tokens: Option<u32>,
    pub vision: bool,
}

/// The base URL of the Anthropic Messages API.
pub const ANTHROPIC_DEFAULT_BASE_URL: &'static str = "https://api.anthropic.com/v1";

/// The base URL of OpenCode Go.
pub const OPENCODE_GO_DEFAULT_BASE_URL: &'static str = "https://opencode.ai/zen/go/v1";

/// Anthropic's models on Vertex AI.
#[derive(Debug, PartialEq, Eq)]
pub struct VertexConfig {
    pub project: String,
    pub region: String,
    pub model: String,
    pub max_tokens: Option<u32>,
}

/// z.ai.
#[derive(Debug, PartialEq, Eq)]
pub struct ZaiConfig {
    pub api_key: String,
    pub model: String,
}

/// How thinking is asked for, as a setting.
#[derive(Clone, Copy, Debug, PartialEq, Eq, Structural)]
pub enum ReasoningStyleConfig {
    ZaiEnableThinking,
    QwenChatTemplate,
    Default,
    Off,
}

/// Any provider that speaks the OpenAI Chat Completions protocol.
#[derive(Debug, PartialEq, Eq)]
pub struct OpenAiCompatSection {
    pub base_url: String,
    pub api_key: Option<String>,
    pub model: String,
    pub max_tokens: Option<u32>,
    pub reasoning: ReasoningStyleConfig,
}

/// OpenCode Go, which serves some models by one protocol and some by another.
#[derive(Debug, PartialEq, Eq)]
pub struct OpenCodeGoConfig {
    pub api_key: String,
    pub base_url: String,
    pub model: String,
    pub openai_models: Vec<String>,
    pub anthropic_models: Vec<String>,
    pub max_tokens: Option<u32>,
    pub reasoning: ReasoningStyleConfig,
    pub vision: bool,
}

/// The protocol by which a model is asked.
#[derive(Clone, Copy, Debug, PartialEq, Eq, Structural)]
pub enum Protocol {
    OpenAi,
    Anthropic,
}

/// The protocol by which a model is asked, if it is listed.
pub open spec fn protocol_of(
    openai_models: Seq<Seq<char>>,
    anthropic_models: Seq<Seq<char>>,
    model: Seq<char>,
) -> Result<Protocol, ErrorView> {
    if anthropic_models.contains(model) {
        Ok(Protocol::Anthropic)
    } else if openai_models.contains(model) {
        Ok(Protocol::OpenAi)
    } else {
        Err(said("Model '"@ + model + "' is not in either openai_models or anthropic_models"@))
    }
}

/// The first of `models` that is among `others`, if there is one.
pub open spec fn first_shared(models: Seq<Seq<char>>, others: Seq<Seq<char>>) -> Option<Seq<char>>
    decreases models.len(),
{
    if models.len() == 0 {
        None
    } else if others.contains(models[0]) {
        Some(models[0])
    } else {
        first_shared(models.drop_first(), others)
    }
}

impl OpenCodeGoConfig {
    /// A model that is listed for both protocols, if there is one.
    pub fn find_duplicate_model(&self) -> (r: Option<&str>)
        ensures
            match r {
                Some(m) => first_shared(texts(self.openai_models@), texts(self.anthropic_models@))
                    == Some(m@),
                None => first_shared(texts(self.openai_models@), texts(self.anthropic_models@))
                    is None,
            },
    {
        let ghost all = texts(self.openai_models@);
        let ghost others = texts(self.anthropic_models@);
        let mut i: usize = 0;
        assert(all.skip(0) =~= all);
        while i < self.openai_models.len()
            invariant
                i <= self.openai_models.len(),
                all == texts(self.openai_models@),
                others == texts(self.anthropic_models@),
                first_shared(all, others) == first_shared(all.skip(i as int), others),
            decreases self.openai_models.len() - i,
        {
            assert(all.skip(i as int)[0] == self.openai_models@[i as int]@);
            if among(&self.anthropic_models, self.openai_models[i].as_str()) {
                return Some(self.openai_models[i].as_str());
            }
            assert(all.skip(i as int).drop_first() =~= all.skip(i + 1));
            i += 1;
        }
        None
    }

    /// The protocol by which a model is asked.
    pub fn protocol_for(&self, model: &str) -> (r: Result<Protocol, Error>)
        ensures
            match r {
                Ok(p) => protocol_of(
                    texts(self.openai_models@),
                    texts(self.anthropic_models@),
                    model@,
                ) == Ok::<Protocol, ErrorView>(p),
                Err(e) => protocol_of(
                    texts(self.openai_models@),
                    texts(self.anthropic_models@),
                    model@,
                ) == Err::<Protocol, ErrorView>(e@),
            },
    {
        if among(&self.anthropic_models, model) {
            Ok(Protocol::Anthropic)
        } else if among(&self.openai_models, model) {
            Ok(Protocol::OpenAi)
        } else {
            let mut words = "Model '".to_owned();
            words.append(model);
            words.append("' is not in either openai_models or anthropic_models");
            Err(Error::msg(words.as_str()))
        }
    }
}

/// A role: the backend and the model that fill it.
#[derive(Debug, PartialEq, Eq)]
pub struct ModelRole {
    pub backend: String,
    pub model: String,
}

/// What a [`ModelRole`] says.
#[verifier::ext_equal]
pub struct RoleView {
    pub backend: Seq<char>,
    pub model: Seq<char>,
}

impl ModelRole {
    pub open spec fn view(self) -> RoleView {
        RoleView { backend: self.backend@, model: self.model@ }
    }
}

/// What several named roles say.
pub open spec fn roles_view(models: Seq<(String, ModelRole)>) -> Seq<(Seq<char>, RoleView)> {
    models.map_values(|m: (String, ModelRole)| (m.0@, m.1@))
}

/// The first role of the given name, if there is one.
pub open spec fn role_named(models: Seq<(Seq<char>, RoleView)>, name: Seq<char>) -> Option<
    RoleView,
>
    decreases models.len(),
{
    if models.len() == 0 {
        None
    } else if models[0].0 == name {
        Some(models[0].1)
    } else {
        role_named(models.drop_first(), name)
    }
}

/// The role of the given name, or that there is none.
pub open spec fn resolved_role(models: Seq<(Seq<char>, RoleView)>, name: Seq<char>) -> Result<
    RoleView,
    ErrorView,
> {
    match role_named(models, name) {
        Some(role) => Ok(role),
        None => Err(said("No role '"@ + name + "' is configured."@)),
    }
}

/// All settings.
#[derive(Debug, PartialEq, Eq)]
pub struct AppConfig {
    /// The backend of the role "default", where that role is not among `models`.
    pub backend: String,
    pub vertex: VertexConfig,
    pub zai: Option<ZaiConfig>,
    pub ollama: Option<OllamaConfig>,
    pub openai_compat: Option<OpenAiCompatSection>,
    pub opencode_go: Option<OpenCodeGoConfig>,
    pub anthropic: Option<AnthropicConfig>,
    pub tools: ToolsConfig,
    /// The roles by name.
    pub models: Vec<(String, ModelRole)>,
    pub thinking: Option<ThinkingConfig>,
    pub compaction: CompactionConfig,
    pub retry: RetryConfig,
}

impl AppConfig {
    /// The model that the section of a backend names, if there is such a section.
    pub open spec fn section_model(self, backend: Seq<char>) -> Option<Seq<char>> {
        if backend == "vertex"@ {
            Some(self.vertex.model@)
        } else if backend == "zai"@ {
            match self.zai {
                Some(c) => Some(c.model@),
                None => None,
            }
        } else if backend == "ollama"@ {
            match self.ollama {
                Some(c) => Some(c.model@),
                None => None,
            }
        } else if backend == "openai_compat"@ {
            match self.openai_compat {
                Some(c) => Some(c.model@),
                None => None,
            }
        } else if backend == "anthropic"@ {
            match self.anthropic {
                Some(c) => Some(c.model@),
                None => None,
            }
        } else if backend == "opencode_go"@ {
            match self.opencode_go {
                Some(c) => Some(c.model@),
                None => None,
            }
        } else {
            None
        }
    }

    fn model_of_section(&self, backend: &str) -> (r: Option<String>)
        ensures
            match r {
                Some(m) => self.section_model(backend@) == Some(m@),
                None => self.section_model(backend@) is None,
            },
    {
        if same_text(backend, "vertex") {
            Some(self.vertex.model.clone())
        } else if same_text(backend, "zai") {
            match &self.zai {
                Some(c) => Some(c.model.clone()),
                None => None,
            }
        } else if same_text(backend, "ollama") {
            match &self.ollama {
                Some(c) => Some(c.model.clone()),
                None => None,
            }
        } else if same_text(backend, "openai_compat") {
            match &self.openai_compat {
                Some(c) => Some(c.model.clone()),
                None => None,
            }
        } else if same_text(backend, "anthropic") {
            match &self.anthropic {
                Some(c) => Some(c.model.clone()),
                None => None,
            }
        } else if same_text(backend, "opencode_go") {
            match &self.opencode_go {
                Some(c) => Some(c.model.clone()),
                None => None,
            }
        } else {
            None
        }
    }

    /// The role of the given name.
    pub fn resolve_role(&self, name: &str) -> (r: Result<ModelRole, Error>)
        ensures
            match r {
                Ok(role) => resolved_role(roles_view(self.models@), name@) == Ok::<
                    RoleView,
                    ErrorView,
                >(role@),
                Err(e) => resolved_role(roles_view(self.models@), name@) == Err::<
                    RoleView,
                    ErrorView,
                >(e@),
            },
    {
        let ghost all = roles_view(self.models@);
        let mut i: usize = 0;
        assert(all.skip(0) =~= all);
        while i < self.models.len()
            invariant
                i <= self.models.len(),
                all == roles_view(self.models@),
                role_named(all, name@) == role_named(all.skip(i as int), name@),
            decreases self.models.len() - i,
        {
            assert(all.skip(i as int)[0] == (self.models@[i as int].0@, self.models@[i as int].1@));
            if same_text(self.models[i].0.as_str(), name) {
                return Ok(
                    ModelRole {
                        backend: self.models[i].1.backend.clone(),
                        model: self.models[i].1.model.clone(),
                    },
                );
            }
            assert(all.skip(i as int).drop_first() =~= all.skip(i + 1));
            i += 1;
        }
        let mut words = "No role '".to_owned();
        words.append(name);
        words.append("' is configured.");
        Err(Error::msg(words.as_str()))
    }

    /// Makes the chosen backend, with the model of its section, the role "default", where no
    /// role has that name and the section is there.
    pub fn normalize_back_compat(&mut self)
        ensures
            *final(self) == (AppConfig { models: final(self).models, ..*old(self) }),
            ({
                let roles = roles_view(old(self).models@);
                roles_view(final(self).models@) == match (
                    role_named(roles, "default"@),
                    old(self).section_model(old(self).backend@),
                ) {
                    (None, Some(model)) => roles.push(
                        ("default"@, RoleView { backend: old(self).backend@, model }),
                    ),
                    _ => roles,
                }
            }),
    {
        match self.resolve_role("default") {
            Ok(_) => {},
            Err(_) => match self.model_of_section(self.backend.as_str()) {
                Some(model) => {
                    let backend = self.backend.clone();
                    let ghost before = roles_view(self.models@);
                    self.models.push(("default".to_owned(), ModelRole { backend, model }));
                    assert(roles_view(self.models@) =~= before.push(
                        ("default"@, RoleView { backend: backend@, model: model@ }),
                    ));
                },
                None => {},
            },
        }
    }
}

} // verus!

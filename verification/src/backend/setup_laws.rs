//! What backends are built from the settings, and what is said when they fail.
use vstd::prelude::*;

use crate::backend::anthropic_compat::{
    anthropic_request, dropped_warnings, replayable, AnthropicConfigView, AuthStyle,
};
use crate::backend::error::{BackendErrorView, ErrorView};
use crate::backend::factory::{backend_for, selection_for, BackendView, SelectionView, Speaks};
use crate::backend::ollama::ollama_request;
use crate::backend::openai_compat::{openai_request, OpenAiView, ReasoningStyle};
use crate::backend::opencode_go::ProtocolView;
use crate::backend::retry::rate_limited;
use crate::backend::retrying::{asks_again, delay_ms, plain_delay, retry_warning};
use crate::backend::vertex::vertex_config;
use crate::backend::wire::HttpView;
use crate::config::{
    resolved_role, role_named, roles_view, AppConfig, ReasoningStyleConfig, RetryConfig, RoleView,
};
use crate::sequences::{lemma_flat_map_empty, lemma_flat_map_last};
use crate::text::{decimal, holds_at, joined, occurs, texts, without_end_slashes};
use crate::types::{BlockView, MessageView, RequestView};
use vstd::arithmetic::power2::{lemma2_to64, lemma_pow2_unfold, pow2};

verus! {

/// Whether `base` is the URL without the slashes at its end.
pub open spec fn is_base(base: Seq<char>, url: Seq<char>) -> bool {
    &&& base.len() <= url.len()
    &&& url.take(base.len() as int) == base
    &&& forall|i: int| base.len() <= i < url.len() ==> #[trigger] url[i] == '/'
    &&& base.len() > 0 ==> base[base.len() - 1] != '/'
}

/// Whether a text ends with another.
pub open spec fn ends_with(s: Seq<char>, end: Seq<char>) -> bool {
    &&& end.len() <= s.len()
    &&& s.skip(s.len() - end.len()) == end
}

proof fn lemma_base(base: Seq<char>, url: Seq<char>)
    requires
        is_base(base, url),
    ensures
        without_end_slashes(url) == base,
    decreases url.len(),
{
    if url.len() > base.len() {
        let front = url.drop_last();
        assert(url[url.len() - 1] == '/');
        assert(front.take(base.len() as int) =~= url.take(base.len() as int));
        assert forall|i: int| base.len() <= i < front.len() implies #[trigger] front[i] == '/' by {
            assert(front[i] == url[i]);
        }
        lemma_base(base, front);
    } else {
        assert(url =~= base);
    }
}

proof fn lemma_ends_with(s: Seq<char>, end: Seq<char>)
    ensures
        holds_at(s, end, s.len() - end.len()) == ends_with(s, end),
{
    if end.len() <= s.len() {
        assert(s.subrange(s.len() - end.len(), s.len() as int) =~= s.skip(s.len() - end.len()));
    }
}

/// A role is the first that has its name; where no role has it, that is the error.
pub proof fn law_role_is_found(models: Seq<(Seq<char>, RoleView)>, name: Seq<char>)
    ensures
        match resolved_role(models, name) {
            Ok(role) => exists|i: int|
                {
                    &&& 0 <= i < models.len()
                    &&& #[trigger] models[i] == (name, role)
                    &&& forall|j: int| 0 <= j < i ==> (#[trigger] models[j]).0 != name
                },
            Err(e) => {
                &&& e == ErrorView::Chain(seq!["No role '"@ + name + "' is configured."@])
                &&& forall|j: int| 0 <= j < models.len() ==> (#[trigger] models[j]).0 != name
            },
        },
{
    lemma_role(models, name);
}

proof fn lemma_role(models: Seq<(Seq<char>, RoleView)>, name: Seq<char>)
    ensures
        match role_named(models, name) {
            Some(role) => exists|i: int|
                {
                    &&& 0 <= i < models.len()
                    &&& #[trigger] models[i] == (name, role)
                    &&& forall|j: int| 0 <= j < i ==> (#[trigger] models[j]).0 != name
                },
            None => forall|j: int| 0 <= j < models.len() ==> (#[trigger] models[j]).0 != name,
        },
    decreases models.len(),
{
    if models.len() > 0 {
        if models[0].0 == name {
            assert(models[0] == (name, models[0].1));
        } else {
            let rest = models.drop_first();
            lemma_role(rest, name);
            assert forall|j: int|
                0 < j < models.len() implies #[trigger] models[j] == rest[j - 1] by {}
            if let Some(role) = role_named(models, name) {
                let i = choose|i: int|
                    {
                        &&& 0 <= i < rest.len()
                        &&& #[trigger] rest[i] == (name, role)
                        &&& forall|j: int| 0 <= j < i ==> (#[trigger] rest[j]).0 != name
                    };
                assert(models[i + 1] == (name, role));
                assert forall|j: int| 0 <= j < i + 1 implies (#[trigger] models[j]).0 != name by {
                    if j > 0 {
                        assert(rest[j - 1].0 != name);
                    }
                }
            } else {
                assert forall|j: int|
                    0 <= j < models.len() implies (#[trigger] models[j]).0 != name by {
                    if j > 0 {
                        assert(rest[j - 1].0 != name);
                    }
                }
            }
        }
    }
}

/// What is selected for a role has the model of that role, asks again as configured, and is the
/// backend that the role names; what is wrong with the role or with its backend is the error.
pub proof fn law_selection(config: AppConfig, role: Seq<char>)
    ensures
        match (resolved_role(roles_view(config.models@), role), selection_for(config, role)) {
            (Err(e), r) => r == Err::<SelectionView, ErrorView>(e),
            (Ok(found), Ok(s)) => {
                &&& s.model == found.model
                &&& s.retry == config.retry
                &&& backend_for(config, role, found.backend, found.model) == Ok::<
                    (BackendView, u32),
                    ErrorView,
                >((s.backend, s.max_tokens))
            },
            (Ok(found), Err(e)) => backend_for(config, role, found.backend, found.model) == Err::<
                (BackendView, u32),
                ErrorView,
            >(e),
        },
{
}

/// A number that is set, or else the default.
pub open spec fn set_or(n: Option<u32>, default: u32) -> u32 {
    if n is Some {
        n->0
    } else {
        default
    }
}

/// That a role names a backend that has no settings.
pub open spec fn no_settings(role: Seq<char>, words: Seq<char>) -> Result<
    (BackendView, u32),
    ErrorView,
> {
    Err(ErrorView::Chain(seq!["Role '"@ + role + words]))
}

proof fn lemma_backend_names()
    ensures
        "vertex"@ != "zai"@,
        "vertex"@ != "ollama"@,
        "vertex"@ != "openai_compat"@,
        "vertex"@ != "anthropic"@,
        "vertex"@ != "opencode_go"@,
        "zai"@ != "ollama"@,
        "zai"@ != "openai_compat"@,
        "zai"@ != "anthropic"@,
        "zai"@ != "opencode_go"@,
        "ollama"@ != "openai_compat"@,
        "ollama"@ != "anthropic"@,
        "ollama"@ != "opencode_go"@,
        "openai_compat"@ != "anthropic"@,
        "openai_compat"@ != "opencode_go"@,
        "anthropic"@ != "opencode_go"@,
{
    reveal_strlit("vertex");
    reveal_strlit("zai");
    reveal_strlit("ollama");
    reveal_strlit("openai_compat");
    reveal_strlit("anthropic");
    reveal_strlit("opencode_go");
    assert("vertex"@.len() != "zai"@.len());
    assert("vertex"@[0] != "ollama"@[0]);
    assert("vertex"@.len() != "openai_compat"@.len());
    assert("vertex"@.len() != "anthropic"@.len());
    assert("vertex"@.len() != "opencode_go"@.len());
    assert("zai"@.len() != "ollama"@.len());
    assert("zai"@.len() != "openai_compat"@.len());
    assert("zai"@.len() != "anthropic"@.len());
    assert("zai"@.len() != "opencode_go"@.len());
    assert("ollama"@.len() != "openai_compat"@.len());
    assert("ollama"@.len() != "anthropic"@.len());
    assert("ollama"@.len() != "opencode_go"@.len());
    assert("openai_compat"@.len() != "anthropic"@.len());
    assert("openai_compat"@.len() != "opencode_go"@.len());
    assert("anthropic"@.len() != "opencode_go"@.len());
}

/// Vertex AI is asked in the project and region that are set.
pub proof fn law_vertex_is_as_configured(config: AppConfig, role: Seq<char>, model: Seq<char>)
    ensures
        backend_for(config, role, "vertex"@, model) == Ok::<(BackendView, u32), ErrorView>(
            (
                BackendView::Vertex {
                    project: config.vertex.project@,
                    region: config.vertex.region@,
                },
                set_or(config.vertex.max_tokens, 8_192),
            ),
        ),
{
}

/// z.ai needs settings and a key, and is then asked at its URL with that key, where thinking is
/// turned on in its own way.
pub proof fn law_zai_is_as_configured(config: AppConfig, role: Seq<char>, model: Seq<char>)
    ensures
        backend_for(config, role, "zai"@, model) == match config.zai {
            None => no_settings(role, "' uses zai backend but no [zai] section is configured."@),
            Some(c) => if c.api_key@.len() == 0 {
                Err(ErrorView::Chain(seq!["API key cannot be empty"@]))
            } else {
                Ok(
                    (
                        BackendView::Zai(
                            OpenAiView {
                                endpoint: "https://api.z.ai/api/coding/paas/v4/chat/completions"@,
                                api_key: Some(c.api_key@),
                                max_tokens_override: None,
                                reasoning: ReasoningStyle::ZaiEnableThinking,
                            },
                        ),
                        8_192,
                    ),
                )
            },
        },
{
    lemma_backend_names();
    reveal_strlit("' uses zai backend but no [zai] section is configured.");
    reveal_strlit("' uses ");
    reveal_strlit("zai");
    reveal_strlit(" backend but no [");
    reveal_strlit("] section is configured.");
    assert("Role '"@ + role + "' uses "@ + "zai"@ + " backend but no ["@ + "zai"@
        + "] section is configured."@ =~= "Role '"@ + role
        + "' uses zai backend but no [zai] section is configured."@);
}

/// Ollama needs settings, and a key where its cloud is asked; it is then asked at the URL that is
/// set, with the key that is set.
pub proof fn law_ollama_is_as_configured(config: AppConfig, role: Seq<char>, model: Seq<char>)
    ensures
        backend_for(config, role, "ollama"@, model) == match config.ollama {
            None => no_settings(
                role,
                "' uses ollama backend but no [ollama] section is configured."@,
            ),
            Some(c) => if c.base_url@ == "https://ollama.com/api/chat"@ && c.api_key@.len() == 0 {
                Err(
                    ErrorView::Backend(
                        BackendErrorView::Other(
                            "API key is required for Ollama Cloud. Set it in your config, or set base_url to your self-hosted endpoint."@,
                        ),
                    ),
                )
            } else {
                Ok(
                    (
                        BackendView::Ollama { endpoint: c.base_url@, api_key: c.api_key@ },
                        set_or(c.max_tokens, 8_192),
                    ),
                )
            },
        },
{
    lemma_backend_names();
    reveal_strlit("' uses ollama backend but no [ollama] section is configured.");
    reveal_strlit("' uses ");
    reveal_strlit("ollama");
    reveal_strlit(" backend but no [");
    reveal_strlit("] section is configured.");
    assert("Role '"@ + role + "' uses "@ + "ollama"@ + " backend but no ["@ + "ollama"@
        + "] section is configured."@ =~= "Role '"@ + role
        + "' uses ollama backend but no [ollama] section is configured."@);
}

/// The way of thinking that a setting names.
pub open spec fn way_of_thinking(setting: ReasoningStyleConfig) -> ReasoningStyle {
    if setting == ReasoningStyleConfig::ZaiEnableThinking {
        ReasoningStyle::ZaiEnableThinking
    } else if setting == ReasoningStyleConfig::QwenChatTemplate {
        ReasoningStyle::QwenChatTemplate
    } else if setting == ReasoningStyleConfig::Off {
        ReasoningStyle::Off
    } else {
        ReasoningStyle::Default
    }
}

/// A provider that speaks the OpenAI protocol needs settings with a URL that neither ends with the
/// path nor holds a query, and is then asked there with the key, the limit and the way of thinking
/// that are set.
pub proof fn law_openai_compat_is_as_configured(
    config: AppConfig,
    role: Seq<char>,
    model: Seq<char>,
    base: Seq<char>,
)
    requires
        config.openai_compat matches Some(c) ==> is_base(base, c.base_url@),
    ensures
        match config.openai_compat {
            None => backend_for(config, role, "openai_compat"@, model) == no_settings(
                role,
                "' uses openai_compat backend but no [openai_compat] section is configured."@,
            ),
            Some(c) => match backend_for(config, role, "openai_compat"@, model) {
                Ok((backend, limit)) => {
                    &&& !ends_with(base, "/chat/completions"@)
                    &&& !base.contains('?')
                    &&& limit == set_or(c.max_tokens, 16_384)
                    &&& backend matches BackendView::OpenAiCompat(b)
                    &&& b.endpoint == base + "/chat/completions"@
                    &&& match c.api_key {
                        Some(key) => b.api_key == Some(key@),
                        None => b.api_key is None,
                    }
                    &&& b.max_tokens_override == c.max_tokens
                    &&& b.reasoning == way_of_thinking(c.reasoning)
                },
                Err(e) => {
                    ||| ends_with(base, "/chat/completions"@) && e == ErrorView::Chain(
                        seq![
                            "base_url must not include '/chat/completions' — provide the base URL only (e.g. 'https://example.com/v1') and the backend will append the path automatically."@,
                        ],
                    )
                    ||| !ends_with(base, "/chat/completions"@) && base.contains('?') && e
                        == ErrorView::Chain(
                        seq![
                            "base_url must not contain a query string — provide only the base URL (e.g. 'https://example.com/v1')."@,
                        ],
                    )
                },
            },
        },
{
    lemma_backend_names();
    if let Some(c) = config.openai_compat {
        lemma_base(base, c.base_url@);
        lemma_ends_with(base, "/chat/completions"@);
        lemma_question_mark(base);
    }
    reveal_strlit("' uses openai_compat backend but no [openai_compat] section is configured.");
    reveal_strlit("' uses ");
    reveal_strlit("openai_compat");
    reveal_strlit(" backend but no [");
    reveal_strlit("] section is configured.");
    assert("Role '"@ + role + "' uses "@ + "openai_compat"@ + " backend but no ["@
        + "openai_compat"@ + "] section is configured."@ =~= "Role '"@ + role
        + "' uses openai_compat backend but no [openai_compat] section is configured."@);
}

proof fn lemma_question_mark(s: Seq<char>)
    ensures
        occurs(s, "?"@) == s.contains('?'),
{
    reveal_strlit("?");
    if s.contains('?') {
        let i = choose|i: int| 0 <= i < s.len() && s[i] == '?';
        assert(s.subrange(i, i + 1) =~= "?"@);
        assert(holds_at(s, "?"@, i));
    }
    if occurs(s, "?"@) {
        let i = choose|i: int| #[trigger] holds_at(s, "?"@, i);
        assert(s.subrange(i, i + 1)[0] == '?');
        assert(s[i] == '?');
    }
}

/// The Anthropic API needs settings with a key and with a URL that does not end with the path, and is
/// then asked there with that key, and with the limit that is set.
pub proof fn law_anthropic_is_as_configured(
    config: AppConfig,
    role: Seq<char>,
    model: Seq<char>,
    base: Seq<char>,
)
    requires
        config.anthropic matches Some(c) ==> is_base(base, c.base_url@),
    ensures
        backend_for(config, role, "anthropic"@, model) == match config.anthropic {
            None => no_settings(
                role,
                "' uses anthropic backend but no [anthropic] section is configured."@,
            ),
            Some(c) => if c.api_key@.len() == 0 {
                Err(ErrorView::Chain(seq!["API key cannot be empty for anthropic backend"@]))
            } else if ends_with(base, "/messages"@) {
                Err(
                    ErrorView::Chain(
                        seq![
                            "base_url must not include '/messages' — provide the base URL only (e.g. 'https://api.anthropic.com/v1') and the backend will append the path automatically."@,
                        ],
                    ),
                )
            } else {
                Ok(
                    (
                        BackendView::Anthropic(
                            AnthropicConfigView {
                                endpoint: base + "/messages"@,
                                auth_token: Some(c.api_key@),
                                auth_style: AuthStyle::XApiKey,
                                anthropic_version: "2023-06-01"@,
                                include_model_in_body: true,
                                anthropic_beta: None,
                                max_tokens_override: c.max_tokens,
                            },
                        ),
                        set_or(c.max_tokens, 65_536),
                    ),
                )
            },
        },
{
    lemma_backend_names();
    if let Some(c) = config.anthropic {
        lemma_base(base, c.base_url@);
        lemma_ends_with(base, "/messages"@);
    }
    reveal_strlit("' uses anthropic backend but no [anthropic] section is configured.");
    reveal_strlit("' uses ");
    reveal_strlit("anthropic");
    reveal_strlit(" backend but no [");
    reveal_strlit("] section is configured.");
    assert("Role '"@ + role + "' uses "@ + "anthropic"@ + " backend but no ["@ + "anthropic"@
        + "] section is configured."@ =~= "Role '"@ + role
        + "' uses anthropic backend but no [anthropic] section is configured."@);
}

/// OpenCode Go needs settings with a key, with a URL that does not end with the path, and with the
/// model in one list only. It is then asked by the protocol of that list, at the URL that is set, with
/// the key and the limit that are set.
pub proof fn law_opencode_go_is_as_configured(
    config: AppConfig,
    role: Seq<char>,
    model: Seq<char>,
    base: Seq<char>,
)
    requires
        config.opencode_go matches Some(c) ==> is_base(base, c.base_url@),
    ensures
        match config.opencode_go {
            None => backend_for(config, role, "opencode_go"@, model) == no_settings(
                role,
                "' uses opencode_go backend but no [opencode_go] section is configured."@,
            ),
            Some(c) => {
                let openai = texts(c.openai_models@);
                let anthropic = texts(c.anthropic_models@);
                match backend_for(config, role, "opencode_go"@, model) {
                    Ok((backend, limit)) => {
                        &&& c.api_key@.len() > 0
                        &&& !ends_with(base, "/chat/completions"@)
                        &&& forall|m: Seq<char>|
                            openai.contains(m) ==> !#[trigger] anthropic.contains(m)
                        &&& limit == set_or(c.max_tokens, 16_384)
                        &&& match backend {
                            BackendView::OpenCodeGo(ProtocolView::OpenAi(b)) => {
                                &&& openai.contains(model)
                                &&& b.endpoint == base + "/chat/completions"@
                                &&& b.api_key == Some(c.api_key@)
                                &&& b.max_tokens_override == c.max_tokens
                                &&& b.reasoning == way_of_thinking(c.reasoning)
                            },
                            BackendView::OpenCodeGo(ProtocolView::Anthropic(b)) => {
                                &&& anthropic.contains(model)
                                &&& b.endpoint == base + "/messages"@
                                &&& b.auth_token == Some(c.api_key@)
                                &&& b.auth_style == AuthStyle::XApiKey
                                &&& b.anthropic_version == "2023-06-01"@
                                &&& b.include_model_in_body
                                &&& b.anthropic_beta == Some("interleaved-thinking-2025-05-14"@)
                                &&& b.max_tokens_override == c.max_tokens
                            },
                            _ => false,
                        }
                    },
                    Err(e) => {
                        ||| c.api_key@.len() == 0 && e == ErrorView::Chain(
                            seq!["API key cannot be empty for opencode_go backend"@],
                        )
                        ||| ends_with(base, "/chat/completions"@) && e == ErrorView::Chain(
                            seq![
                                "base_url must not include '/chat/completions' — provide the base URL only (e.g. 'https://opencode.ai/zen/go/v1') and the backend will append the path automatically."@,
                            ],
                        )
                        ||| exists|m: Seq<char>|
                            openai.contains(m) && #[trigger] anthropic.contains(m) && e
                                == ErrorView::Chain(
                                seq![
                                    "Model '"@ + m
                                        + "' appears in both openai_models and anthropic_models"@,
                                ],
                            )
                        ||| !openai.contains(model) && !anthropic.contains(model) && e
                            == ErrorView::Chain(
                            seq![
                                "Model '"@ + model
                                    + "' is not in either openai_models or anthropic_models"@,
                            ],
                        )
                        ||| base.contains('?') && openai.contains(model) && e == ErrorView::Chain(
                            seq![
                                "base_url must not contain a query string — provide only the base URL (e.g. 'https://example.com/v1')."@,
                            ],
                        )
                    },
                }
            },
        },
{
    lemma_backend_names();
    if let Some(c) = config.opencode_go {
        lemma_base(base, c.base_url@);
        assert(base.take(base.len() as int) =~= base);
        lemma_base(base, base);
        lemma_ends_with(base, "/chat/completions"@);
        lemma_question_mark(base);
        crate::backend::laws::law_first_shared(texts(c.openai_models@), texts(c.anthropic_models@));
    }
    reveal_strlit("' uses opencode_go backend but no [opencode_go] section is configured.");
    reveal_strlit("' uses ");
    reveal_strlit("opencode_go");
    reveal_strlit(" backend but no [");
    reveal_strlit("] section is configured.");
    assert("Role '"@ + role + "' uses "@ + "opencode_go"@ + " backend but no ["@ + "opencode_go"@
        + "] section is configured."@ =~= "Role '"@ + role
        + "' uses opencode_go backend but no [opencode_go] section is configured."@);
}

/// There are no other backends.
pub proof fn law_other_backends_are_unknown(
    config: AppConfig,
    role: Seq<char>,
    name: Seq<char>,
    model: Seq<char>,
)
    requires
        name != "vertex"@,
        name != "zai"@,
        name != "ollama"@,
        name != "openai_compat"@,
        name != "anthropic"@,
        name != "opencode_go"@,
    ensures
        backend_for(config, role, name, model) == Err::<(BackendView, u32), ErrorView>(
            ErrorView::Chain(seq!["Unknown backend '"@ + name + "' for role '"@ + role + "'"@]),
        ),
        config.section_model(name) is None,
{
}

/// The model of a backend's settings, where there are such settings.
pub proof fn law_settings_name_a_model(config: AppConfig)
    ensures
        config.section_model("vertex"@) == Some(config.vertex.model@),
        match config.zai {
            Some(c) => config.section_model("zai"@) == Some(c.model@),
            None => config.section_model("zai"@) is None,
        },
        match config.ollama {
            Some(c) => config.section_model("ollama"@) == Some(c.model@),
            None => config.section_model("ollama"@) is None,
        },
        match config.openai_compat {
            Some(c) => config.section_model("openai_compat"@) == Some(c.model@),
            None => config.section_model("openai_compat"@) is None,
        },
        match config.anthropic {
            Some(c) => config.section_model("anthropic"@) == Some(c.model@),
            None => config.section_model("anthropic"@) is None,
        },
        match config.opencode_go {
            Some(c) => config.section_model("opencode_go"@) == Some(c.model@),
            None => config.section_model("opencode_go"@) is None,
        },
{
    lemma_backend_names();
}

/// Each backend asks by its protocol, as it was built. Vertex AI asks with the access token, at the
/// machine of the region, for the model and in the project, and names the model nowhere else; it asks
/// for thinking between calls where the model thinks.
pub proof fn law_backend_asks_as_built(
    backend: BackendView,
    messages: Seq<MessageView>,
    request: RequestView,
    token: Seq<char>,
)
    ensures
        backend.request(messages, request, token) == match backend {
            BackendView::Vertex { project, region } => anthropic_request(
                AnthropicConfigView {
                    endpoint: (if region == "global"@ {
                        "https://aiplatform.googleapis.com"@
                    } else {
                        "https://"@ + region + "-aiplatform.googleapis.com"@
                    }) + "/v1/projects/"@ + project + "/locations/"@ + region
                        + "/publishers/anthropic/models/"@ + request.model + ":streamRawPredict"@,
                    auth_token: Some(token),
                    auth_style: AuthStyle::Bearer,
                    anthropic_version: "vertex-2023-10-16"@,
                    include_model_in_body: false,
                    anthropic_beta: if request.thinking is Some && request.thinking->0.enabled {
                        Some("interleaved-thinking-2025-05-14"@)
                    } else {
                        None
                    },
                    max_tokens_override: None,
                },
                messages,
                request,
            ),
            BackendView::Zai(b) => openai_request(b, messages, request),
            BackendView::OpenAiCompat(b) => openai_request(b, messages, request),
            BackendView::OpenCodeGo(ProtocolView::OpenAi(b)) => openai_request(
                b,
                messages,
                request,
            ),
            BackendView::Anthropic(b) => anthropic_request(b, messages, request),
            BackendView::OpenCodeGo(ProtocolView::Anthropic(b)) => anthropic_request(
                b,
                messages,
                request,
            ),
            BackendView::Ollama { endpoint, api_key } => Ok::<HttpView, ErrorView>(
                ollama_request(endpoint, api_key, messages, request),
            ),
        },
{
    reveal_strlit("https://");
    reveal_strlit("aiplatform.googleapis.com");
    reveal_strlit("https://aiplatform.googleapis.com");
    assert("https://"@ + "aiplatform.googleapis.com"@ =~= "https://aiplatform.googleapis.com"@);
    if let BackendView::Vertex { project, region } = backend {
        let c = vertex_config(project, region, token, request);
        let host = if region == "global"@ {
            "https://aiplatform.googleapis.com"@
        } else {
            "https://"@ + region + "-aiplatform.googleapis.com"@
        };
        assert(c.endpoint =~= host + "/v1/projects/"@ + project + "/locations/"@ + region
            + "/publishers/anthropic/models/"@ + request.model + ":streamRawPredict"@);
    }
}

/// A backend that cannot be reached is named together with all causes, and one that answers with a
/// status that is none of success with the status and the whole body. Whether to ask again is known of
/// all but those that speak the OpenAI protocol.
pub proof fn law_backend_failures_are_told(
    backend: BackendView,
    causes: Seq<Seq<char>>,
    code: u16,
    status: Seq<char>,
    body: Seq<char>,
)
    ensures
        ({
            let openai = match backend {
                BackendView::Zai(b) => Some(b.endpoint),
                BackendView::OpenAiCompat(b) => Some(b.endpoint),
                BackendView::OpenCodeGo(ProtocolView::OpenAi(b)) => Some(b.endpoint),
                _ => None,
            };
            let refused = backend.refused(code, status, body);
            match openai {
                Some(endpoint) => {
                    &&& backend.speaks() == Speaks::OpenAi { endpoint }
                    &&& backend.unreachable(causes) == ErrorView::Chain(
                        seq!["Failed to send request to "@ + endpoint] + causes,
                    )
                    &&& refused == ErrorView::Chain(
                        seq![endpoint + " returned "@ + status + ": "@ + body],
                    )
                },
                None => {
                    &&& refused == ErrorView::Backend(BackendErrorView::HttpStatus { code, body })
                    &&& if backend is Ollama {
                        &&& backend.speaks() is Ollama
                        &&& backend.unreachable(causes) == ErrorView::Chain(
                            seq!["Failed to send request to Ollama"@] + causes,
                        )
                    } else {
                        &&& backend.speaks() is Anthropic
                        &&& backend.unreachable(causes) == ErrorView::Backend(
                            BackendErrorView::Transport {
                                message: "Failed to send request to Anthropic API: "@ + joined(
                                    causes,
                                    ": "@,
                                ),
                            },
                        )
                    }
                },
            }
        }),
{
    reveal_strlit("Failed to send request to ");
    reveal_strlit("Anthropic API");
    reveal_strlit(": ");
    reveal_strlit("Failed to send request to Anthropic API: ");
    assert("Failed to send request to "@ + "Anthropic API"@ + ": "@
        =~= "Failed to send request to Anthropic API: "@);
}

/// Each kind of failure is told in its own words, with all that is known of it. Asking again may help
/// against a limited rate, a failed connection, and a failed server, but not against one that cannot
/// do what is asked.
pub proof fn law_failures_are_told(e: BackendErrorView)
    ensures
        e.words() == match e {
            BackendErrorView::HttpStatus { code, body } => "HTTP "@ + decimal(code as nat) + ": "@
                + body,
            BackendErrorView::Transport { message } => message,
            BackendErrorView::Other(message) => message,
            BackendErrorView::MaxTokensExceeded {
                input_tokens,
                output_tokens,
            } => "Response truncated: max_tokens limit reached (input_tokens="@ + decimal(
                input_tokens as nat,
            ) + ", output_tokens="@ + decimal(output_tokens as nat)
                + "). Increase max_tokens in your config."@,
            BackendErrorView::Refusal => {
                "The model refused to generate a response due to content policy. The conversation context may be unsafe to continue with."@
            },
        },
        e.retryable() <==> (e is Transport || (e matches BackendErrorView::HttpStatus { code, .. }
            && (code == 429 || code == 500 || code > 501))),
{
}

/// An error within another is told after it, and stays of its kind. One by itself is told as it is.
pub proof fn law_cause_is_told(e: ErrorView, words: Seq<char>)
    requires
        e matches ErrorView::Chain(c) ==> c.len() > 0,
    ensures
        e.within(words).full_words() == words + ": "@ + e.full_words(),
        e.within(words).words() == words,
        e.within(words).kind() == e.kind(),
        e.within(words).retryable() == e.retryable(),
        e.within(words).max_tokens() == e.max_tokens(),
        e.within(words).refusal() == e.refusal(),
        e matches ErrorView::Backend(b) ==> {
            &&& e.words() == b.words()
            &&& e.full_words() == b.words()
            &&& e.kind() == Some(b)
            &&& e.retryable() == b.retryable()
            &&& e.max_tokens() == (b is MaxTokensExceeded)
            &&& e.refusal() == (b is Refusal)
        },
        e matches ErrorView::Chain(c) ==> {
            &&& e.words() == c[0]
            &&& e.kind() is None
            &&& c.len() == 1 ==> e.full_words() == c[0]
        },
{
    match e {
        ErrorView::Backend(b) => {
            lemma_joined_first(words, seq![b.words()], ": "@);
            assert(seq![words].push(b.words()) =~= seq![words] + seq![b.words()]);
            assert(joined(seq![b.words()], ": "@) =~= b.words());
        },
        ErrorView::Within { words: inner, cause } => {
            lemma_joined_first(words, inner.push(cause.words()), ": "@);
            assert((seq![words] + inner).push(cause.words()) =~= seq![words] + inner.push(
                cause.words(),
            ));
        },
        ErrorView::Chain(c) => {
            lemma_joined_first(words, c, ": "@);
        },
    }
}

proof fn lemma_joined_first(first: Seq<char>, rest: Seq<Seq<char>>, sep: Seq<char>)
    requires
        rest.len() > 0,
    ensures
        joined(seq![first] + rest, sep) == first + sep + joined(rest, sep),
    decreases rest.len(),
{
    let all = seq![first] + rest;
    assert(all.last() == rest.last());
    if rest.len() == 1 {
        assert(all.drop_last() =~= seq![first]);
        reveal_with_fuel(joined, 2);
        assert(joined(rest, sep) == rest.last());
        assert(joined(seq![first], sep) == first);
        assert(joined(all, sep) =~= first + sep + joined(rest, sep));
    } else {
        lemma_joined_first(first, rest.drop_last(), sep);
        assert(all.drop_last() =~= seq![first] + rest.drop_last());
        assert(joined(all, sep) =~= first + sep + joined(rest, sep));
    }
}

/// The rate counts as limited where the outermost words of an error hold the status 429, as those of
/// that status always do.
pub proof fn law_limited_rate_is_seen(e: ErrorView, body: Seq<char>)
    ensures
        rate_limited(e) <==> exists|i: int|
            0 <= i <= e.words().len() - 3 && #[trigger] e.words().subrange(i, i + 3) == seq![
                '4',
                '2',
                '9',
            ],
        rate_limited(ErrorView::Backend(BackendErrorView::HttpStatus { code: 429, body })),
{
    reveal_strlit("429");
    assert("429"@ =~= seq!['4', '2', '9']);
    let words = e.words();
    if rate_limited(e) {
        let i = choose|i: int| #[trigger] holds_at(words, "429"@, i);
        assert(words.subrange(i, i + 3) == seq!['4', '2', '9']);
    }
    if exists|i: int|
        0 <= i <= words.len() - 3 && #[trigger] words.subrange(i, i + 3) == seq!['4', '2', '9'] {
        let i = choose|i: int|
            0 <= i <= words.len() - 3 && #[trigger] words.subrange(i, i + 3) == seq!['4', '2', '9'];
        assert(holds_at(words, "429"@, i));
    }
    let limited = ErrorView::Backend(BackendErrorView::HttpStatus { code: 429, body });
    reveal_strlit("HTTP ");
    reveal_with_fuel(decimal, 4);
    assert(decimal(429) =~= seq!['4', '2', '9']);
    assert(limited.words().subrange(5, 8) =~= "429"@);
    assert(holds_at(limited.words(), "429"@, 5));
}

/// The first delay is the initial one, each further one is twice the one before, and none is longer
/// than the longest; from the twentieth doubling on they stay the same.
pub proof fn law_delays_double(config: RetryConfig, attempt: nat)
    ensures
        plain_delay(config, 0) == if config.initial_delay_ms <= config.max_delay_ms {
            config.initial_delay_ms
        } else {
            config.max_delay_ms
        },
        attempt < 20 ==> plain_delay(config, attempt + 1) == if 2 * plain_delay(config, attempt)
            <= config.max_delay_ms {
            2 * plain_delay(config, attempt)
        } else {
            config.max_delay_ms as int
        },
        attempt >= 20 ==> plain_delay(config, attempt) == plain_delay(config, 20),
{
    lemma2_to64();
    assert(config.initial_delay_ms * pow2(0) == config.initial_delay_ms) by (nonlinear_arith)
        requires
            pow2(0) == 1,
    ;
    if attempt < 20 {
        lemma_pow2_unfold(attempt + 1);
        let a = config.initial_delay_ms as int;
        let p = pow2(attempt) as int;
        assert(a * (2 * p) == 2 * (a * p)) by (nonlinear_arith);
        assert(a * p >= 0) by (nonlinear_arith)
            requires
                a >= 0,
                p >= 0,
        ;
    }
}

/// A delay is lengthened by as many milliseconds as the quarter of the largest number goes into the
/// plain delay times the random number, or into the largest number where that is less.
pub proof fn law_delays_vary(config: RetryConfig, attempt: nat, random: u64)
    ensures
        ({
            let plain = plain_delay(config, attempt);
            let product = if plain * random <= u64::MAX {
                plain * random
            } else {
                u64::MAX as int
            };
            let quarter = 4_611_686_018_427_387_903int;
            let longer = delay_ms(config, attempt, random) - plain;
            &&& longer * quarter <= product
            &&& product < (longer + 1) * quarter || delay_ms(config, attempt, random) == u64::MAX
        }),
        delay_ms(config, attempt, 0) == plain_delay(config, attempt),
{
    let plain = plain_delay(config, attempt);
    let p = pow2(
        if attempt <= 20 {
            attempt
        } else {
            20
        },
    ) as int;
    let a = config.initial_delay_ms as int;
    assert(a * p >= 0) by (nonlinear_arith)
        requires
            a >= 0,
            p >= 0,
    ;
    assert(plain * random >= 0) by (nonlinear_arith)
        requires
            plain >= 0,
            random >= 0,
    ;
    assert(plain * 0u64 == 0) by (nonlinear_arith);
    assert(0 <= plain <= u64::MAX);
}

/// The backend is asked again as long as it may help and as often as is configured, and it is logged
/// how often, and after how long.
pub proof fn law_asking_again(config: RetryConfig, attempt: nat, delay: nat, error: ErrorView)
    ensures
        asks_again(config, attempt, error) <==> attempt < config.max_retries && (error.kind()
            matches Some(b) && (b is Transport || (b matches BackendErrorView::HttpStatus {
            code,
            ..
        } && (code == 429 || code == 500 || code > 501)))),
        retry_warning(config, attempt, delay) == "Backend returned retryable error (attempt "@
            + decimal(attempt + 1) + "/"@ + decimal(config.max_retries as nat)
            + "); retrying in "@ + decimal(delay) + "ms"@,
{
}

/// One warning is given for each thought without a signature, and for nothing else.
pub proof fn law_dropped_thoughts_are_warned_of(s: Seq<MessageView>)
    ensures
        dropped_warnings(s) == s.flat_map(
            |m: MessageView|
                m.content.flat_map(
                    |b: BlockView|
                        match b {
                            BlockView::Thinking { signature, .. } if signature.len() == 0 => seq![
                                "dropping thinking block with empty signature from history (corrupted session data); it cannot be replayed."@,
                            ],
                            _ => Seq::empty(),
                        },
                ),
        ),
    decreases s.len(),
{
    let f = |m: MessageView|
        m.content.flat_map(
            |b: BlockView|
                match b {
                    BlockView::Thinking { signature, .. } if signature.len() == 0 => seq![
                        "dropping thinking block with empty signature from history (corrupted session data); it cannot be replayed."@,
                    ],
                    _ => Seq::empty(),
                },
        );
    if s.len() == 0 {
        lemma_flat_map_empty(s, f);
    } else {
        law_dropped_thoughts_are_warned_of(s.drop_last());
        lemma_flat_map_last(s, f);
        lemma_warnings(s.last().content);
    }
}

proof fn lemma_warnings(s: Seq<BlockView>)
    ensures
        replayable(s).len() <= s.len(),
        Seq::new(
            (s.len() - replayable(s).len()) as nat,
            |i: int|
                "dropping thinking block with empty signature from history (corrupted session data); it cannot be replayed."@,
        ) == s.flat_map(
            |b: BlockView|
                match b {
                    BlockView::Thinking { signature, .. } if signature.len() == 0 => seq![
                        "dropping thinking block with empty signature from history (corrupted session data); it cannot be replayed."@,
                    ],
                    _ => Seq::empty(),
                },
        ),
    decreases s.len(),
{
    let f = |b: BlockView|
        match b {
            BlockView::Thinking { signature, .. } if signature.len() == 0 => seq![
                "dropping thinking block with empty signature from history (corrupted session data); it cannot be replayed."@,
            ],
            _ => Seq::empty(),
        };
    let words =
        "dropping thinking block with empty signature from history (corrupted session data); it cannot be replayed."@;
    reveal(Seq::filter);
    if s.len() == 0 {
        lemma_flat_map_empty(s, f);
        assert(Seq::new(0, |i: int| words) =~= Seq::empty());
    } else {
        let front = s.drop_last();
        lemma_warnings(front);
        lemma_flat_map_last(s, f);
        let before = Seq::new((front.len() - replayable(front).len()) as nat, |i: int| words);
        let after = Seq::new((s.len() - replayable(s).len()) as nat, |i: int| words);
        assert(after =~= before + f(s.last()));
    }
}

} // verus!
